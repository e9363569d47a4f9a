//! Test quality linter for TypeScript and JavaScript: it finds tests that pass
//! without verifying anything.
//!
//! A source text is parsed (`parser`), its test blocks are extracted
//! (`blocks`, `collect`, `act`, `dummy`, `calls`), the rules turn them into
//! findings (`rules`), and those are rendered (`json`, `cli`). `laws` states
//! what holds across these steps.

// Some imports are for contracts and proofs only.
#![allow(unused_imports)]

use crate::parse::Outcome;
use crate::rules::{Issue, IssueModel};
use vstd::prelude::*;

pub mod act;
pub mod blocks;
pub mod calls;
pub mod cli;
pub mod collect;
mod disposal;
pub mod dummy;
pub mod files;
pub mod json;
pub mod laws;
pub mod parse;
pub mod parser;
pub mod rules;
pub mod source;
pub mod syntax;
pub mod text;

verus! {

/// No findings.
pub const EXIT_SUCCESS: u8 = 0;

/// Advisory findings only.
pub const EXIT_WARNING: u8 = 1;

/// A blocking finding.
pub const EXIT_BLOCKING: u8 = 2;

/// Bad command-line usage.
pub const EXIT_USAGE: u8 = 64;

/// An internal error, or a worker that crashed or could not be started.
pub const EXIT_SOFTWARE: u8 = 70;

/// An error that ends the program.
#[derive(Debug)]
pub enum LitmusError {
    Usage(String),
    Internal(String),
}

impl LitmusError {
    pub open spec fn code(self) -> u8 {
        match self {
            LitmusError::Usage(_) => EXIT_USAGE,
            LitmusError::Internal(_) => EXIT_SOFTWARE,
        }
    }

    pub open spec fn line_of_text(self) -> Seq<char> {
        match self {
            LitmusError::Usage(message) => "litmus: usage error: "@ + message@,
            LitmusError::Internal(message) => "litmus: internal error: "@ + message@,
        }
    }

    pub fn exit_code(&self) -> (r: u8)
        ensures
            r == self.code(),
    {
        match self {
            LitmusError::Usage(_) => EXIT_USAGE,
            LitmusError::Internal(_) => EXIT_SOFTWARE,
        }
    }

    /// The error as one line of text.
    pub fn to_string(&self) -> (r: String)
        ensures
            r@ == self.line_of_text(),
    {
        match self {
            LitmusError::Usage(message) => "litmus: usage error: ".to_owned().concat(
                message.as_str(),
            ),
            LitmusError::Internal(message) => "litmus: internal error: ".to_owned().concat(
                message.as_str(),
            ),
        }
    }
}

/// A file that could not be analyzed.
#[derive(Debug)]
pub struct FileError {
    pub file: String,
    pub kind: FileErrorKind,
    pub message: String,
}

#[derive(Debug, Clone, Copy, PartialEq, Eq, Structural)]
pub enum FileErrorKind {
    Read,
    Parse,
    /// The worker of the file did not complete: it was killed, it exited with
    /// an internal error, or it could not be started. The file may well be
    /// valid, so this is no verdict on its syntax.
    Crash,
}

pub ghost struct ErrorModel {
    pub file: Seq<char>,
    pub kind: FileErrorKind,
    pub message: Seq<char>,
}

impl View for FileError {
    type V = ErrorModel;

    open spec fn view(&self) -> ErrorModel {
        ErrorModel { file: self.file@, kind: self.kind, message: self.message@ }
    }
}

impl ErrorModel {
    pub open spec fn line_of_text(self) -> Seq<char> {
        let kind = match self.kind {
            FileErrorKind::Read => "read error"@,
            FileErrorKind::Parse => "parse error"@,
            FileErrorKind::Crash => "analysis error"@,
        };
        "litmus: "@ + kind + ": "@ + self.file + ": "@ + self.message
    }
}

impl FileError {
    /// The error as one line of text.
    pub fn to_string(&self) -> (r: String)
        ensures
            r@ == self@.line_of_text(),
    {
        let kind: &'static str = match self.kind {
            FileErrorKind::Read => "read error",
            FileErrorKind::Parse => "parse error",
            FileErrorKind::Crash => "analysis error",
        };
        let mut out: String = "litmus: ".to_owned();
        out.append(kind);
        out.append(": ");
        out.append(self.file.as_str());
        out.append(": ");
        out.append(self.message.as_str());
        out
    }
}

/// What the analysis of a batch of files found.
pub struct AnalysisResult {
    pub issues: Vec<Issue>,
    pub errors: Vec<FileError>,
}

#[verifier::ext_equal]
pub ghost struct ResultModel {
    pub issues: Seq<IssueModel>,
    pub errors: Seq<ErrorModel>,
}

pub open spec fn error_models(s: Seq<FileError>) -> Seq<ErrorModel> {
    Seq::new(s.len(), |i: int| s[i]@)
}

impl View for AnalysisResult {
    type V = ResultModel;

    open spec fn view(&self) -> ResultModel {
        ResultModel {
            issues: rules::issue_models(self.issues@),
            errors: error_models(self.errors@),
        }
    }
}

/// The findings of one file, or the message of the parse error.
pub ghost enum Verdict {
    Issues(Seq<IssueModel>),
    Message(Seq<char>),
}

pub open spec fn verdict(r: Result<Vec<Issue>, String>) -> Verdict {
    match r {
        Ok(issues) => Verdict::Issues(rules::issue_models(issues@)),
        Err(message) => Verdict::Message(message@),
    }
}

/// What is said of the test blocks of a file.
pub open spec fn verdict_of(outcome: Outcome, file: Seq<char>) -> Verdict {
    match outcome {
        Outcome::Blocks(blocks) => Verdict::Issues(
            rules::all_issues(rules::CHECKS@, blocks, file),
        ),
        Outcome::Message(message) => Verdict::Message(message),
    }
}

/// Parses one test source and applies every rule to it. A parse failure is an
/// error, never an empty list of findings.
pub fn analyze_source(source: &str, file: &str) -> (r: Result<Vec<Issue>, String>)
    ensures
        verdict(r) == verdict_of(parse::file_outcome(source@, file@), file@),
{
    match parse::parse_test_file(source, file) {
        Ok(blocks) => Ok(rules::check_all(blocks.as_slice(), file)),
        Err(message) => Err(message),
    }
}

/// A file that was read: its path, and its text or the reason why it could
/// not be read.
pub struct SourceFile {
    pub path: String,
    pub content: Result<String, String>,
}

/// The analysis of one file.
pub open spec fn file_result(file: SourceFile) -> ResultModel {
    match file.content {
        Ok(source) => result_of(
            verdict_of(parse::file_outcome(source@, file.path@), file.path@),
            file.path@,
        ),
        Err(message) => ResultModel {
            issues: seq![],
            errors: seq![
                ErrorModel { file: file.path@, kind: FileErrorKind::Read, message: message@ },
            ],
        },
    }
}

/// A verdict as an analysis result: findings, or one parse error.
pub open spec fn result_of(verdict: Verdict, file: Seq<char>) -> ResultModel {
    match verdict {
        Verdict::Issues(issues) => ResultModel { issues, errors: seq![] },
        Verdict::Message(message) => ResultModel {
            issues: seq![],
            errors: seq![ErrorModel { file, kind: FileErrorKind::Parse, message }],
        },
    }
}

impl ResultModel {
    pub open spec fn nothing() -> ResultModel {
        ResultModel { issues: seq![], errors: seq![] }
    }

    /// The findings and errors of both, those of `self` first.
    pub open spec fn and(self, other: ResultModel) -> ResultModel {
        ResultModel { issues: self.issues + other.issues, errors: self.errors + other.errors }
    }
}

/// The analysis of several files, in order.
pub open spec fn batch_result(files: Seq<SourceFile>) -> ResultModel
    decreases files.len(),
{
    if files.len() == 0 {
        ResultModel::nothing()
    } else {
        batch_result(files.drop_last()).and(file_result(files.last()))
    }
}

impl AnalysisResult {
    pub fn new() -> (r: Self)
        ensures
            r@ == ResultModel::nothing(),
    {
        let r = AnalysisResult { issues: Vec::new(), errors: Vec::new() };
        assert(r@ =~= ResultModel::nothing());
        r
    }

    /// Adds what was said of one file.
    pub fn record(&mut self, file: &str, analyzed: Result<Vec<Issue>, String>)
        ensures
            final(self)@ == old(self)@.and(result_of(verdict(analyzed), file@)),
    {
        match analyzed {
            Ok(issues) => {
                let mut issues: Vec<Issue> = issues;
                self.issues.append(&mut issues);
            },
            Err(message) => {
                self.errors.push(
                    FileError { file: file.to_owned(), kind: FileErrorKind::Parse, message },
                );
            },
        }
        assert(self@ =~= old(self)@.and(result_of(verdict(analyzed), file@)));
    }

    /// Adds a file that could not be read.
    pub fn record_unreadable(&mut self, file: &str, message: &str)
        ensures
            final(self)@ == old(self)@.and(
                ResultModel {
                    issues: seq![],
                    errors: seq![
                        ErrorModel { file: file@, kind: FileErrorKind::Read, message: message@ },
                    ],
                },
            ),
    {
        self.errors.push(
            FileError {
                file: file.to_owned(),
                kind: FileErrorKind::Read,
                message: message.to_owned(),
            },
        );
        assert(self@ =~= old(self)@.and(
            ResultModel {
                issues: seq![],
                errors: seq![
                    ErrorModel { file: file@, kind: FileErrorKind::Read, message: message@ },
                ],
            },
        ));
    }
}

/// Analyzes every file. One that cannot be read or parsed becomes an error
/// and does not keep the others from being analyzed.
pub fn analyze_files(files: &[SourceFile]) -> (r: AnalysisResult)
    ensures
        r@ == batch_result(files@),
{
    let mut result: AnalysisResult = AnalysisResult::new();
    let mut i: usize = 0;
    assert(files@.take(0) =~= seq![]);
    while i < files.len()
        invariant
            0 <= i <= files@.len(),
            result@ == batch_result(files@.take(i as int)),
        decreases files@.len() - i,
    {
        assert(files@.take(i + 1).drop_last() =~= files@.take(i as int));
        let file: &SourceFile = &files[i];
        match &file.content {
            Ok(source) => {
                let analyzed: Result<Vec<Issue>, String> = analyze_source(
                    source.as_str(),
                    file.path.as_str(),
                );
                result.record(file.path.as_str(), analyzed);
            },
            Err(message) => {
                result.record_unreadable(file.path.as_str(), message.as_str());
            },
        }
        i += 1;
    }
    assert(files@.take(files@.len() as int) =~= files@);
    result
}

} // verus!
