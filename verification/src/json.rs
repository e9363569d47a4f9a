//! JSON output, written by hand: the schema is small and fixed.

use crate::rules::{Issue, IssueModel, Severity};
use crate::text;
use crate::{AnalysisResult, ErrorModel, FileError, FileErrorKind, LitmusError};
use vstd::prelude::*;

verus! {

/// The digit that stands for `d` in base sixteen.
pub open spec fn hex_digit(d: int) -> char {
    if d < 10 {
        text::digit(d)
    } else if d == 10 {
        'a'
    } else if d == 11 {
        'b'
    } else if d == 12 {
        'c'
    } else if d == 13 {
        'd'
    } else if d == 14 {
        'e'
    } else {
        'f'
    }
}

/// What stands for the character `c` inside a JSON string literal.
pub open spec fn escape_of(c: char) -> Seq<char> {
    if c == '"' {
        seq!['\\', '"']
    } else if c == '\\' {
        seq!['\\', '\\']
    } else if c == '\n' {
        seq!['\\', 'n']
    } else if c == '\r' {
        seq!['\\', 'r']
    } else if c == '\t' {
        seq!['\\', 't']
    } else if c == '\u{8}' {
        seq!['\\', 'b']
    } else if c == '\u{c}' {
        seq!['\\', 'f']
    } else if (c as int) < 0x20 {
        seq!['\\', 'u', '0', '0', hex_digit(c as int / 16), hex_digit(c as int % 16)]
    } else {
        seq![c]
    }
}

/// `s` with every character replaced by what stands for it.
pub open spec fn escaped(s: Seq<char>) -> Seq<char>
    decreases s.len(),
{
    if s.len() == 0 {
        seq![]
    } else {
        escaped(s.drop_last()) + escape_of(s.last())
    }
}

fn hex_char(d: u32) -> (r: char)
    requires
        d < 16,
    ensures
        r == hex_digit(d as int),
{
    match d {
        0 => '0',
        1 => '1',
        2 => '2',
        3 => '3',
        4 => '4',
        5 => '5',
        6 => '6',
        7 => '7',
        8 => '8',
        9 => '9',
        10 => 'a',
        11 => 'b',
        12 => 'c',
        13 => 'd',
        14 => 'e',
        _ => 'f',
    }
}

fn push_escape(out: &mut String, c: char)
    ensures
        final(out)@ == old(out)@ + escape_of(c),
{
    match c {
        '"' => {
            out.push('\\');
            out.push('"');
        },
        '\\' => {
            out.push('\\');
            out.push('\\');
        },
        '\n' => {
            out.push('\\');
            out.push('n');
        },
        '\r' => {
            out.push('\\');
            out.push('r');
        },
        '\t' => {
            out.push('\\');
            out.push('t');
        },
        '\u{8}' => {
            out.push('\\');
            out.push('b');
        },
        '\u{c}' => {
            out.push('\\');
            out.push('f');
        },
        _ => {
            let code: u32 = c as u32;
            if code < 0x20 {
                out.push('\\');
                out.push('u');
                out.push('0');
                out.push('0');
                out.push(hex_char(code / 16));
                out.push(hex_char(code % 16));
            } else {
                out.push(c);
            }
        },
    }
    assert(out@ =~= old(out)@ + escape_of(c));
}

/// Escapes a text for embedding inside a JSON string literal (RFC 8259).
pub fn escape(s: &str) -> (r: String)
    ensures
        r@ == escaped(s@),
{
    let chars: Vec<char> = text::chars_of(s);
    let mut out: String = String::new();
    let mut i: usize = 0;
    while i < chars.len()
        invariant
            chars@ == s@,
            0 <= i <= chars@.len(),
            out@ == escaped(s@.take(i as int)),
        decreases chars@.len() - i,
    {
        push_escape(&mut out, chars[i]);
        assert(s@.take(i + 1).drop_last() =~= s@.take(i as int));
        i += 1;
    }
    assert(s@.take(s@.len() as int) =~= s@);
    out
}

pub open spec fn severity_name(severity: Severity) -> Seq<char> {
    match severity {
        Severity::Warning => "warning"@,
        Severity::Blocking => "blocking"@,
    }
}

fn severity_str(severity: Severity) -> (r: &'static str)
    ensures
        r@ == severity_name(severity),
{
    match severity {
        Severity::Warning => "warning",
        Severity::Blocking => "blocking",
    }
}

/// A finding as a JSON object.
pub open spec fn issue_object(issue: IssueModel) -> Seq<char> {
    "{\"rule\":\""@ + escaped(issue.rule) + "\",\"severity\":\""@ + severity_name(issue.severity())
        + "\",\"file\":\""@ + escaped(issue.file) + "\",\"line\":"@ + text::decimal(
        issue.line as nat,
    ) + ",\"test_name\":\""@ + escaped(issue.test_name) + "\",\"detail\":\""@ + escaped(issue.detail)
        + "\"}"@
}

fn render_issue(issue: &Issue) -> (r: String)
    ensures
        r@ == issue_object(issue@),
{
    let mut out: String = "{\"rule\":\"".to_owned();
    out.append(escape(issue.rule).as_str());
    out.append("\",\"severity\":\"");
    out.append(severity_str(issue.severity()));
    out.append("\",\"file\":\"");
    out.append(escape(issue.file.as_str()).as_str());
    out.append("\",\"line\":");
    text::push_decimal(&mut out, issue.line as u64);
    out.append(",\"test_name\":\"");
    out.append(escape(issue.test_name.as_str()).as_str());
    out.append("\",\"detail\":\"");
    out.append(escape(issue.detail.as_str()).as_str());
    out.append("\"}");
    out
}

pub open spec fn error_kind_name(kind: FileErrorKind) -> Seq<char> {
    match kind {
        FileErrorKind::Read => "read"@,
        FileErrorKind::Parse => "parse"@,
        FileErrorKind::Crash => "crash"@,
    }
}

/// A file error as a JSON object.
pub open spec fn error_object(error: ErrorModel) -> Seq<char> {
    "{\"file\":\""@ + escaped(error.file) + "\",\"kind\":\""@ + error_kind_name(error.kind)
        + "\",\"message\":\""@ + escaped(error.message) + "\"}"@
}

fn render_file_error(error: &FileError) -> (r: String)
    ensures
        r@ == error_object(error@),
{
    let kind: &'static str = match error.kind {
        FileErrorKind::Read => "read",
        FileErrorKind::Parse => "parse",
        FileErrorKind::Crash => "crash",
    };
    let mut out: String = "{\"file\":\"".to_owned();
    out.append(escape(error.file.as_str()).as_str());
    out.append("\",\"kind\":\"");
    out.append(kind);
    out.append("\",\"message\":\"");
    out.append(escape(error.message.as_str()).as_str());
    out.append("\"}");
    out
}

pub open spec fn issue_objects(issues: Seq<IssueModel>) -> Seq<Seq<char>> {
    Seq::new(issues.len(), |i: int| issue_object(issues[i]))
}

pub open spec fn error_objects(errors: Seq<ErrorModel>) -> Seq<Seq<char>> {
    Seq::new(errors.len(), |i: int| error_object(errors[i]))
}

/// The inside of the `issues` array.
pub open spec fn issues_fragment(issues: Seq<IssueModel>) -> Seq<char> {
    text::joined(issue_objects(issues), ","@)
}

/// The inside of the `errors` array.
pub open spec fn errors_fragment(errors: Seq<ErrorModel>) -> Seq<char> {
    text::joined(error_objects(errors), ","@)
}

/// Renders the insides of the `issues` and `errors` arrays, without the
/// document around them. Both are free of line feeds, so a worker can frame
/// them as `issues\nerrors` for the process that merges them.
pub fn render_fragments(result: &AnalysisResult) -> (r: (String, String))
    ensures
        r.0@ == issues_fragment(result@.issues),
        r.1@ == errors_fragment(result@.errors),
{
    let mut issues: Vec<String> = Vec::new();
    let mut i: usize = 0;
    while i < result.issues.len()
        invariant
            0 <= i <= result.issues@.len(),
            issues@.len() == i,
            forall|j: int|
                0 <= j < i ==> (#[trigger] issues@[j])@ == issue_object(result.issues@[j]@),
        decreases result.issues@.len() - i,
    {
        issues.push(render_issue(&result.issues[i]));
        i += 1;
    }
    let mut errors: Vec<String> = Vec::new();
    let mut k: usize = 0;
    while k < result.errors.len()
        invariant
            0 <= k <= result.errors@.len(),
            errors@.len() == k,
            forall|j: int|
                0 <= j < k ==> (#[trigger] errors@[j])@ == error_object(result.errors@[j]@),
        decreases result.errors@.len() - k,
    {
        errors.push(render_file_error(&result.errors[k]));
        k += 1;
    }
    assert(text::views(issues@) =~= issue_objects(result@.issues));
    assert(text::views(errors@) =~= error_objects(result@.errors));
    (text::join(&issues, ","), text::join(&errors, ","))
}

/// The document around two fragments.
pub open spec fn document(issues: Seq<char>, errors: Seq<char>) -> Seq<char> {
    "{\"issues\":["@ + issues + "],\"errors\":["@ + errors + "]}"@
}

pub fn render_document(issues: &str, errors: &str) -> (r: String)
    ensures
        r@ == document(issues@, errors@),
{
    let mut out: String = "{\"issues\":[".to_owned();
    out.append(issues);
    out.append("],\"errors\":[");
    out.append(errors);
    out.append("]}");
    out
}

/// Renders the full analysis result as a single JSON document for stdout.
pub fn render_result(result: &AnalysisResult) -> (r: String)
    ensures
        r@ == document(issues_fragment(result@.issues), errors_fragment(result@.errors)),
{
    let (issues, errors) = render_fragments(result);
    render_document(issues.as_str(), errors.as_str())
}

pub open spec fn error_report(
    kind: Seq<char>,
    message: Seq<char>,
    next_step: Seq<char>,
    candidates: Seq<char>,
) -> Seq<char> {
    "{\"error\":\""@ + kind + "\",\"message\":\""@ + escaped(message) + "\",\"next_step\":\""@
        + escaped(next_step) + "\",\"candidates\":["@ + candidates + "]}"@
}

/// A command-line error as a JSON object.
pub open spec fn litmus_error_object(err: LitmusError) -> Seq<char> {
    match err {
        LitmusError::Usage(message) => error_report(
            "usage"@,
            message@,
            "Pass at most one directory path; the only accepted flag is --json."@,
            "\""@ + escaped("--json"@) + "\""@,
        ),
        LitmusError::Internal(message) => error_report(
            "internal"@,
            message@,
            "Rerun to confirm reproducibility, then report it as a litmus bug."@,
            ""@,
        ),
    }
}

/// Renders a command-line error as JSON for stderr, with `next_step` and
/// `candidates` so that a caller can recover without reading the message.
pub fn render_error(err: &LitmusError) -> (r: String)
    ensures
        r@ == litmus_error_object(*err),
{
    let (kind, message, next_step) = match err {
        LitmusError::Usage(message) => (
            "usage",
            message.as_str(),
            "Pass at most one directory path; the only accepted flag is --json.",
        ),
        LitmusError::Internal(message) => (
            "internal",
            message.as_str(),
            "Rerun to confirm reproducibility, then report it as a litmus bug.",
        ),
    };
    let mut candidates: String = String::new();
    if let LitmusError::Usage(_) = err {
        candidates.append("\"");
        candidates.append(escape("--json").as_str());
        candidates.append("\"");
    }
    proof {
        reveal_strlit("");
        assert(""@ =~= Seq::<char>::empty());
        assert(Seq::<char>::empty() + "\""@ =~= "\""@);
    }
    let mut out: String = "{\"error\":\"".to_owned();
    out.append(kind);
    out.append("\",\"message\":\"");
    out.append(escape(message).as_str());
    out.append("\",\"next_step\":\"");
    out.append(escape(next_step).as_str());
    out.append("\",\"candidates\":[");
    out.append(candidates.as_str());
    out.append("]}");
    out
}

} // verus!
