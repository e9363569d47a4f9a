//! The command line: arguments, exit codes, and what the parent process makes
//! of its workers.
//!
//! One worker process analyzes one file, so that a crash takes down that
//! worker only. The parent starts the workers, reads their exit codes and
//! outputs, and decides what to print and how to exit.

use crate::json;
use crate::rules;
use crate::rules::{Issue, IssueModel, Severity};
use crate::text;
use crate::{
    AnalysisResult, ErrorModel, FileError, FileErrorKind, LitmusError, ResultModel, EXIT_BLOCKING,
    EXIT_SOFTWARE, EXIT_SUCCESS, EXIT_WARNING,
};
use vstd::prelude::*;

verus! {

pub const JSON_FLAG: &'static str = "--json";

pub const WORKER_FLAG: &'static str = "--worker-file";

/// What the arguments ask for.
#[derive(Debug)]
pub struct Config {
    /// The directory to scan.
    pub dir: String,
    /// Whether the output is JSON.
    pub json: bool,
    /// The one file to analyze, in a worker.
    pub worker_file: Option<String>,
}

#[verifier::ext_equal]
pub ghost struct ConfigModel {
    pub dir: Seq<char>,
    pub json: bool,
    pub worker_file: Option<Seq<char>>,
}

impl View for Config {
    type V = ConfigModel;

    open spec fn view(&self) -> ConfigModel {
        ConfigModel {
            dir: self.dir@,
            json: self.json,
            worker_file: match self.worker_file {
                Some(file) => Some(file@),
                None => None,
            },
        }
    }
}

/// A configuration, or the message of a usage error.
pub ghost enum Request {
    Run(ConfigModel),
    Usage(Seq<char>),
    Internal(Seq<char>),
}

pub open spec fn request(r: Result<Config, LitmusError>) -> Request {
    match r {
        Ok(config) => Request::Run(config@),
        Err(LitmusError::Usage(message)) => Request::Usage(message@),
        Err(LitmusError::Internal(message)) => Request::Internal(message@),
    }
}

/// What has been read of the arguments so far.
#[verifier::ext_equal]
pub ghost struct ArgsRead {
    pub positionals: Seq<Seq<char>>,
    pub json: bool,
    pub worker_file: Option<Seq<char>>,
}

impl ArgsRead {
    pub open spec fn nothing() -> ArgsRead {
        ArgsRead { positionals: seq![], json: false, worker_file: None }
    }

    /// What is asked for when there are no more arguments: at most one
    /// directory, the current one where none is named.
    pub open spec fn finish(self) -> Request {
        if self.positionals.len() > 1 {
            Request::Usage(
                "expected at most 1 directory argument, got "@ + text::decimal(
                    self.positionals.len(),
                ),
            )
        } else {
            Request::Run(
                ConfigModel {
                    dir: if self.positionals.len() == 0 {
                        "."@
                    } else {
                        self.positionals[0]
                    },
                    json: self.json,
                    worker_file: self.worker_file,
                },
            )
        }
    }

    /// What is asked for when `rest` is still to be read. `--json` and
    /// `--worker-file <path>` are the only flags.
    pub open spec fn read(self, rest: Seq<Seq<char>>) -> Request
        decreases rest.len(),
    {
        if rest.len() == 0 {
            self.finish()
        } else if rest[0] == JSON_FLAG@ {
            (ArgsRead { json: true, ..self }).read(rest.skip(1))
        } else if rest[0] == WORKER_FLAG@ {
            if rest.len() == 1 {
                Request::Usage(WORKER_FLAG@ + " requires a path argument"@)
            } else {
                (ArgsRead { worker_file: Some(rest[1]), ..self }).read(rest.skip(2))
            }
        } else if text::has_prefix(rest[0], "-"@) {
            Request::Usage("unknown flag: "@ + rest[0])
        } else {
            (ArgsRead { positionals: self.positionals.push(rest[0]), ..self }).read(rest.skip(1))
        }
    }
}

/// The arguments after the name of the program.
pub open spec fn operands(args: Seq<String>) -> Seq<Seq<char>> {
    if args.len() == 0 {
        seq![]
    } else {
        text::views(args).skip(1)
    }
}

/// Reads the arguments, of which the first is the name of the program.
pub fn parse_args(args: &[String]) -> (r: Result<Config, LitmusError>)
    ensures
        request(r) == ArgsRead::nothing().read(operands(args@)),
{
    let mut positionals: Vec<String> = Vec::new();
    let mut json: bool = false;
    let mut worker_file: Option<String> = None;
    let ghost all = text::views(args@);
    let mut i: usize = 1;
    proof {
        assert(text::views(positionals@) =~= seq![]);
        if args@.len() == 0 {
            assert(operands(args@) =~= seq![]);
        }
    }
    while i < args.len()
        invariant
            all == text::views(args@),
            1 <= i,
            args@.len() > 0 ==> i <= args@.len(),
            args@.len() == 0 ==> operands(args@).len() == 0,
            ArgsRead::nothing().read(operands(args@)) == (ArgsRead {
                positionals: text::views(positionals@),
                json,
                worker_file: match worker_file {
                    Some(file) => Some(file@),
                    None => None,
                },
            }).read(
                if args@.len() == 0 {
                    seq![]
                } else {
                    all.skip(i as int)
                },
            ),
        decreases args@.len() - i,
    {
        let ghost rest = all.skip(i as int);
        assert(rest[0] == args@[i as int]@);
        assert(rest.skip(1) =~= all.skip(i + 1));
        let arg: &str = args[i].as_str();
        if text::same(arg, JSON_FLAG) {
            json = true;
        } else if text::same(arg, WORKER_FLAG) {
            if i + 1 == args.len() {
                return Err(LitmusError::Usage(WORKER_FLAG.to_owned().concat(" requires a path argument")));
            }
            assert(rest[1] == args@[i + 1]@);
            assert(rest.skip(2) =~= all.skip(i + 2));
            i += 1;
            worker_file = Some(args[i].clone());
        } else if text::starts_with(arg, "-") {
            return Err(LitmusError::Usage("unknown flag: ".to_owned().concat(arg)));
        } else {
            let ghost before = positionals@;
            positionals.push(args[i].clone());
            assert(text::views(positionals@) =~= text::views(before).push(arg@));
        }
        i += 1;
    }
    proof {
        if args@.len() > 0 {
            assert(all.skip(i as int) =~= seq![]);
        }
    }
    if positionals.len() > 1 {
        let mut message: String = "expected at most 1 directory argument, got ".to_owned();
        text::push_decimal(&mut message, positionals.len() as u64);
        return Err(LitmusError::Usage(message));
    }
    let dir: String = if positionals.len() == 0 {
        ".".to_owned()
    } else {
        positionals[0].clone()
    };
    Ok(Config { dir, json, worker_file })
}

/// Whether the arguments ask for JSON. This is found before the arguments are
/// read in full, because it also governs how their errors are printed.
pub fn wants_json(args: &[String]) -> (r: bool)
    ensures
        r == text::views(args@).contains(JSON_FLAG@),
{
    let mut i: usize = 0;
    while i < args.len()
        invariant
            0 <= i <= args@.len(),
            forall|j: int| 0 <= j < i ==> (#[trigger] text::views(args@)[j]) != JSON_FLAG@,
        decreases args@.len() - i,
    {
        if text::same(args[i].as_str(), JSON_FLAG) {
            assert(text::views(args@)[i as int] == JSON_FLAG@);
            return true;
        }
        i += 1;
    }
    false
}

/// An error that ends the program, as it is printed to stderr.
pub fn error_output(error: &LitmusError, json_mode: bool) -> (r: String)
    ensures
        r@ == if json_mode {
            json::litmus_error_object(*error)
        } else {
            error.line_of_text()
        },
{
    if json_mode {
        json::render_error(error)
    } else {
        error.to_string()
    }
}

/// Why a path cannot be scanned, if it cannot.
pub open spec fn scan_obstacle(dir: Seq<char>, exists: bool, is_dir: bool) -> Option<Seq<char>> {
    if !exists {
        Some("path does not exist: "@ + dir)
    } else if !is_dir {
        Some("not a directory: "@ + dir)
    } else {
        None
    }
}

/// Checks the path to scan. A path that does not exist or is not a directory
/// would match no files and pass for clean, so it is a usage error; an empty
/// directory is fine.
pub fn validate_scan_dir(dir: &str, exists: bool, is_dir: bool) -> (r: Result<(), LitmusError>)
    ensures
        match r {
            Ok(_) => exists && is_dir && scan_obstacle(dir@, exists, is_dir) is None,
            Err(LitmusError::Usage(message)) => scan_obstacle(dir@, exists, is_dir) == Some(message@)
                && message@ == if !exists {
                "path does not exist: "@ + dir@
            } else {
                "not a directory: "@ + dir@
            } && !(exists && is_dir),
            Err(LitmusError::Internal(_)) => false,
        },
{
    if !exists {
        return Err(LitmusError::Usage("path does not exist: ".to_owned().concat(dir)));
    }
    if !is_dir {
        return Err(LitmusError::Usage("not a directory: ".to_owned().concat(dir)));
    }
    Ok(())
}

/// The exit code for some findings: nothing, advisory, or blocking.
pub open spec fn exit_code(issues: Seq<IssueModel>) -> u8 {
    if issues.len() == 0 {
        EXIT_SUCCESS
    } else if exists|i: int|
        0 <= i < issues.len() && (#[trigger] issues[i]).severity() == Severity::Blocking {
        EXIT_BLOCKING
    } else {
        EXIT_WARNING
    }
}

pub fn select_exit_code(issues: &[Issue]) -> (r: u8)
    ensures
        r == exit_code(rules::issue_models(issues@)),
{
    let ghost models = rules::issue_models(issues@);
    if issues.len() == 0 {
        return EXIT_SUCCESS;
    }
    let mut i: usize = 0;
    while i < issues.len()
        invariant
            0 <= i <= issues@.len(),
            models == rules::issue_models(issues@),
            issues@.len() > 0,
            forall|j: int| 0 <= j < i ==> (#[trigger] models[j]).severity() != Severity::Blocking,
        decreases issues@.len() - i,
    {
        assert(models[i as int] == issues@[i as int]@);
        if issues[i].severity() == Severity::Blocking {
            return EXIT_BLOCKING;
        }
        i += 1;
    }
    EXIT_WARNING
}

/// How a worker ended.
#[derive(Debug, Clone, Copy, PartialEq, Eq, Structural)]
pub enum WorkerOutcome {
    /// It completed, with one of the exit codes for findings.
    Code(u8),
    /// It was killed by a signal, or exited with any other code.
    Crash,
}

pub open spec fn worker_outcome(code: Option<i32>) -> WorkerOutcome {
    match code {
        Some(c) => if c == EXIT_SUCCESS || c == EXIT_WARNING || c == EXIT_BLOCKING {
            WorkerOutcome::Code(c as u8)
        } else {
            WorkerOutcome::Crash
        },
        None => WorkerOutcome::Crash,
    }
}

/// Maps the exit code of a worker, or its absence after a signal.
pub fn classify_worker_code(code: Option<i32>) -> (r: WorkerOutcome)
    ensures
        r == worker_outcome(code),
{
    match code {
        Some(c) => if c == EXIT_SUCCESS as i32 {
            WorkerOutcome::Code(EXIT_SUCCESS)
        } else if c == EXIT_WARNING as i32 {
            WorkerOutcome::Code(EXIT_WARNING)
        } else if c == EXIT_BLOCKING as i32 {
            WorkerOutcome::Code(EXIT_BLOCKING)
        } else {
            WorkerOutcome::Crash
        },
        None => WorkerOutcome::Crash,
    }
}

/// `n` in decimal, with a sign where it is negative.
pub open spec fn signed_decimal(n: int) -> Seq<char> {
    if n < 0 {
        "-"@ + text::decimal((-n) as nat)
    } else {
        text::decimal(n as nat)
    }
}

pub open spec fn abort_message(code: Option<i32>) -> Seq<char> {
    match code {
        Some(c) => "analysis aborted: worker exited with unexpected code "@ + signed_decimal(
            c as int,
        ),
        None => "analysis aborted: worker terminated by signal"@,
    }
}

pub fn worker_abort_message(code: Option<i32>) -> (r: String)
    ensures
        r@ == abort_message(code),
{
    match code {
        Some(c) => {
            let mut out: String = "analysis aborted: worker exited with unexpected code ".to_owned();
            if c < 0 {
                out.append("-");
                text::push_decimal(&mut out, (-(c as i64)) as u64);
            } else {
                text::push_decimal(&mut out, c as u64);
            }
            assert(out@ =~= abort_message(code));
            out
        },
        None => "analysis aborted: worker terminated by signal".to_owned(),
    }
}

pub open spec fn spawn_message(error: Seq<char>) -> Seq<char> {
    "analysis aborted: failed to spawn worker: "@ + error
}

pub fn spawn_failure_message(error: &str) -> (r: String)
    ensures
        r@ == spawn_message(error@),
{
    "analysis aborted: failed to spawn worker: ".to_owned().concat(error)
}

pub open spec fn crash(file: Seq<char>, message: Seq<char>) -> ErrorModel {
    ErrorModel { file, kind: FileErrorKind::Crash, message }
}

/// The error of a file whose worker did not complete.
pub fn crash_error(file: &str, message: String) -> (r: FileError)
    ensures
        r@ == crash(file@, message@),
{
    FileError { file: file.to_owned(), kind: FileErrorKind::Crash, message }
}

/// The inside of the `errors` array for a file whose worker did not complete.
pub fn crash_error_frag(file: &str, message: String) -> (r: String)
    ensures
        r@ == json::error_object(crash(file@, message@)),
{
    let mut result: AnalysisResult = AnalysisResult::new();
    assert(crate::error_models(result.errors@).len() == 0);
    result.errors.push(crash_error(file, message));
    assert(json::error_objects(result@.errors) =~= seq![
        json::error_object(crash(file@, message@)),
    ]);
    json::render_fragments(&result).1
}

/// The larger of two exit codes. The codes are ordered by precedence: a crash
/// before blocking findings, those before advisory ones, those before none.
pub open spec fn worse(a: u8, b: u8) -> u8 {
    if a < b {
        b
    } else {
        a
    }
}

fn worse_code(a: u8, b: u8) -> (r: u8)
    ensures
        r == worse(a, b),
{
    if a < b {
        b
    } else {
        a
    }
}

/// What the parent learns of a worker that writes to the terminal itself.
pub enum Worker {
    /// It could not be started, for this reason.
    NotStarted(String),
    /// It ended, with this exit code unless a signal killed it.
    Ended(Option<i32>),
}

impl Worker {
    /// The exit code that the worker asks for.
    pub open spec fn code(self) -> u8 {
        match self {
            Worker::NotStarted(_) => EXIT_SOFTWARE,
            Worker::Ended(code) => match worker_outcome(code) {
                WorkerOutcome::Code(c) => c,
                WorkerOutcome::Crash => EXIT_SOFTWARE,
            },
        }
    }

    /// The error that the parent reports, if the worker did not complete.
    pub open spec fn error(self, file: Seq<char>) -> Option<ErrorModel> {
        match self {
            Worker::NotStarted(error) => Some(crash(file, spawn_message(error@))),
            Worker::Ended(code) => match worker_outcome(code) {
                WorkerOutcome::Code(_) => None,
                WorkerOutcome::Crash => Some(crash(file, abort_message(code))),
            },
        }
    }
}

pub open spec fn optional_error(e: Option<FileError>) -> Option<ErrorModel> {
    match e {
        Some(x) => Some(x@),
        None => None,
    }
}

/// What the parent makes of one worker in text mode: the exit code of the
/// batch so far, and an error to report. A worker that fails in any way does
/// not end the batch.
pub fn text_step(max: u8, file: &str, worker: Worker) -> (r: (u8, Option<FileError>))
    ensures
        r.0 == worse(max, worker.code()),
        optional_error(r.1) == worker.error(file@),
{
    match worker {
        Worker::NotStarted(error) => (
            worse_code(max, EXIT_SOFTWARE),
            Some(crash_error(file, spawn_failure_message(error.as_str()))),
        ),
        Worker::Ended(code) => match classify_worker_code(code) {
            WorkerOutcome::Code(c) => (worse_code(max, c), None),
            WorkerOutcome::Crash => (
                worse_code(max, EXIT_SOFTWARE),
                Some(crash_error(file, worker_abort_message(code))),
            ),
        },
    }
}

/// What the parent gathers from its workers in JSON mode.
pub struct JsonScan {
    pub max: u8,
    pub issue_frags: Vec<String>,
    pub error_frags: Vec<String>,
}

#[verifier::ext_equal]
pub ghost struct ScanModel {
    pub max: u8,
    pub issue_frags: Seq<Seq<char>>,
    pub error_frags: Seq<Seq<char>>,
}

impl View for JsonScan {
    type V = ScanModel;

    open spec fn view(&self) -> ScanModel {
        ScanModel {
            max: self.max,
            issue_frags: text::views(self.issue_frags@),
            error_frags: text::views(self.error_frags@),
        }
    }
}

/// A list with one more fragment, unless that is empty.
pub open spec fn with_fragment(list: Seq<Seq<char>>, fragment: Seq<char>) -> Seq<Seq<char>> {
    if fragment.len() == 0 {
        list
    } else {
        list.push(fragment)
    }
}

impl ScanModel {
    pub open spec fn nothing() -> ScanModel {
        ScanModel { max: EXIT_SUCCESS, issue_frags: seq![], error_frags: seq![] }
    }

    /// After a worker that did not complete.
    pub open spec fn after_crash(self, file: Seq<char>, message: Seq<char>) -> ScanModel {
        ScanModel {
            max: worse(self.max, EXIT_SOFTWARE),
            error_frags: self.error_frags.push(json::error_object(crash(file, message))),
            ..self
        }
    }

    /// After a worker that ended with `code` and wrote `stdout`. A completed
    /// worker writes its two fragments around a line feed; anything else is a
    /// crash as well.
    pub open spec fn after_output(
        self,
        file: Seq<char>,
        code: Option<i32>,
        stdout: Seq<char>,
    ) -> ScanModel {
        match worker_outcome(code) {
            WorkerOutcome::Code(c) => match text::split_at_newline(stdout) {
                Some((issues, errors)) => ScanModel {
                    max: worse(self.max, c),
                    issue_frags: with_fragment(self.issue_frags, issues),
                    error_frags: with_fragment(self.error_frags, errors),
                },
                None => (ScanModel { max: worse(self.max, c), ..self }).after_crash(
                    file,
                    "analysis aborted: worker produced malformed output"@,
                ),
            },
            WorkerOutcome::Crash => self.after_crash(file, abort_message(code)),
        }
    }

    /// The document for stdout.
    pub open spec fn document(self) -> Seq<char> {
        json::document(
            text::joined(self.issue_frags, ","@),
            text::joined(self.error_frags, ","@),
        )
    }
}

impl JsonScan {
    pub fn new() -> (r: Self)
        ensures
            r@ == ScanModel::nothing(),
    {
        let r = JsonScan { max: EXIT_SUCCESS, issue_frags: Vec::new(), error_frags: Vec::new() };
        assert(r@ =~= ScanModel::nothing());
        r
    }

    fn record_crash(&mut self, file: &str, message: String)
        ensures
            final(self)@ == old(self)@.after_crash(file@, message@),
    {
        self.error_frags.push(crash_error_frag(file, message));
        self.max = worse_code(self.max, EXIT_SOFTWARE);
        assert(self@ =~= old(self)@.after_crash(file@, message@));
    }

    /// Records a worker that could not be started.
    pub fn record_not_started(&mut self, file: &str, error: &str)
        ensures
            final(self)@ == old(self)@.after_crash(file@, spawn_message(error@)),
    {
        self.record_crash(file, spawn_failure_message(error));
    }

    /// Records a worker that ended.
    pub fn record_output(&mut self, file: &str, code: Option<i32>, stdout: &str)
        ensures
            final(self)@ == old(self)@.after_output(file@, code, stdout@),
    {
        match classify_worker_code(code) {
            WorkerOutcome::Code(c) => {
                self.max = worse_code(self.max, c);
                match text::split_once_newline(stdout) {
                    Some((issues, errors)) => {
                        if !issues.as_str().is_empty() {
                            self.issue_frags.push(issues);
                        }
                        if !errors.as_str().is_empty() {
                            self.error_frags.push(errors);
                        }
                        assert(self@ =~= old(self)@.after_output(file@, code, stdout@));
                    },
                    None => {
                        assert(self@ =~= ScanModel { max: worse(old(self)@.max, c), ..old(self)@ });
                        self.record_crash(
                            file,
                            "analysis aborted: worker produced malformed output".to_owned(),
                        );
                    },
                }
            },
            WorkerOutcome::Crash => {
                self.record_crash(file, worker_abort_message(code));
            },
        }
    }

    /// The document for stdout.
    pub fn document(&self) -> (r: String)
        ensures
            r@ == self@.document(),
    {
        json::render_document(
            text::join(&self.issue_frags, ",").as_str(),
            text::join(&self.error_frags, ",").as_str(),
        )
    }
}

/// What a worker writes to stdout in JSON mode: its two fragments around a
/// line feed.
pub open spec fn frame(result: ResultModel) -> Seq<char> {
    json::issues_fragment(result.issues) + "\n"@ + json::errors_fragment(result.errors)
}

pub fn worker_frame(result: &AnalysisResult) -> (r: String)
    ensures
        r@ == frame(result@),
{
    let (issues, errors) = json::render_fragments(result);
    let mut out: String = issues;
    out.append("\n");
    out.append(errors.as_str());
    out
}

/// The findings as lines of text.
pub open spec fn issue_text(issues: Seq<IssueModel>) -> Seq<char>
    decreases issues.len(),
{
    if issues.len() == 0 {
        seq![]
    } else {
        issue_text(issues.drop_last()) + issues.last().line_of_text() + "\n"@
    }
}

pub fn issue_lines(issues: &[Issue]) -> (r: String)
    ensures
        r@ == issue_text(rules::issue_models(issues@)),
{
    let ghost models = rules::issue_models(issues@);
    let mut out: String = String::new();
    let mut i: usize = 0;
    assert(models.take(0) =~= seq![]);
    while i < issues.len()
        invariant
            0 <= i <= issues@.len(),
            models == rules::issue_models(issues@),
            out@ == issue_text(models.take(i as int)),
        decreases issues@.len() - i,
    {
        assert(models.take(i + 1).drop_last() =~= models.take(i as int));
        assert(models.take(i + 1).last() == issues@[i as int]@);
        out.append(issues[i].to_string().as_str());
        out.append("\n");
        i += 1;
    }
    assert(models.take(models.len() as int) =~= models);
    out
}

/// The errors as lines of text.
pub open spec fn error_text(errors: Seq<ErrorModel>) -> Seq<char>
    decreases errors.len(),
{
    if errors.len() == 0 {
        seq![]
    } else {
        error_text(errors.drop_last()) + errors.last().line_of_text() + "\n"@
    }
}

pub fn error_lines(errors: &[FileError]) -> (r: String)
    ensures
        r@ == error_text(crate::error_models(errors@)),
{
    let ghost models = crate::error_models(errors@);
    let mut out: String = String::new();
    let mut i: usize = 0;
    assert(models.take(0) =~= seq![]);
    while i < errors.len()
        invariant
            0 <= i <= errors@.len(),
            models == crate::error_models(errors@),
            out@ == error_text(models.take(i as int)),
        decreases errors@.len() - i,
    {
        assert(models.take(i + 1).drop_last() =~= models.take(i as int));
        assert(models.take(i + 1).last() == errors@[i as int]@);
        out.append(errors[i].to_string().as_str());
        out.append("\n");
        i += 1;
    }
    assert(models.take(models.len() as int) =~= models);
    out
}

/// What a worker writes and how it exits.
pub struct WorkerOutput {
    pub stderr: String,
    /// Nothing is written where there is nothing to say.
    pub stdout: Option<String>,
    pub code: u8,
}

#[verifier::ext_equal]
pub ghost struct WorkerOutputModel {
    pub stderr: Seq<char>,
    pub stdout: Option<Seq<char>>,
    pub code: u8,
}

impl View for WorkerOutput {
    type V = WorkerOutputModel;

    open spec fn view(&self) -> WorkerOutputModel {
        WorkerOutputModel {
            stderr: self.stderr@,
            stdout: match self.stdout {
                Some(s) => Some(s@),
                None => None,
            },
            code: self.code,
        }
    }
}

/// In JSON mode a worker writes its frame to stdout; in text mode its errors
/// to stderr and its findings to stdout. Errors do not affect its exit code.
pub open spec fn output_of(result: ResultModel, json_mode: bool) -> WorkerOutputModel {
    if json_mode {
        WorkerOutputModel {
            stderr: seq![],
            stdout: Some(frame(result)),
            code: exit_code(result.issues),
        }
    } else {
        WorkerOutputModel {
            stderr: error_text(result.errors),
            stdout: if result.issues.len() == 0 {
                None
            } else {
                Some(issue_text(result.issues))
            },
            code: exit_code(result.issues),
        }
    }
}

pub fn worker_output(result: &AnalysisResult, json_mode: bool) -> (r: WorkerOutput)
    ensures
        r@ == output_of(result@, json_mode),
{
    let code: u8 = select_exit_code(result.issues.as_slice());
    if json_mode {
        return WorkerOutput { stderr: String::new(), stdout: Some(worker_frame(result)), code };
    }
    let stdout: Option<String> = if result.issues.len() == 0 {
        None
    } else {
        Some(issue_lines(result.issues.as_slice()))
    };
    WorkerOutput { stderr: error_lines(result.errors.as_slice()), stdout, code }
}

/// The exit code after writing to stdout, or after failing to.
pub open spec fn code_once_written(written: bool, code: u8) -> u8 {
    if written {
        code
    } else {
        EXIT_SUCCESS
    }
}

/// The exit code after writing to stdout. A reader that left early is no
/// error: the program then stops with success.
pub fn code_after_write(written: bool, code: u8) -> (r: u8)
    ensures
        r == code_once_written(written, code),
        r == if written {
            code
        } else {
            EXIT_SUCCESS
        },
{
    if written {
        code
    } else {
        EXIT_SUCCESS
    }
}

} // verus!
