//! Laws of the output, the exit codes and the work of parent and workers.

use crate::cli;
use crate::cli::{ArgsRead, ConfigModel, Request, ScanModel, Worker, WorkerOutcome};
use crate::json;
use crate::parse;
use crate::rules::{IssueModel, Severity};
use crate::text;
use crate::{
    ErrorModel, FileErrorKind, ResultModel, SourceFile, EXIT_BLOCKING, EXIT_SOFTWARE, EXIT_SUCCESS,
    EXIT_USAGE, EXIT_WARNING,
};
use vstd::prelude::*;

verus! {

/// Whether a text has no control characters, line feeds among them.
pub open spec fn is_printable(s: Seq<char>) -> bool {
    forall|i: int| 0 <= i < s.len() ==> (#[trigger] s[i]) as int >= 0x20
}

proof fn lemma_printable_concat(a: Seq<char>, b: Seq<char>)
    requires
        is_printable(a),
        is_printable(b),
    ensures
        is_printable(a + b),
{
}

/// Escaping leaves no control character.
pub proof fn law_escaped_text_is_printable(s: Seq<char>)
    ensures
        is_printable(json::escaped(s)),
    decreases s.len(),
{
    if s.len() > 0 {
        law_escaped_text_is_printable(s.drop_last());
        lemma_printable_concat(json::escaped(s.drop_last()), json::escape_of(s.last()));
    }
}

pub(crate) proof fn lemma_escaped_concat(a: Seq<char>, b: Seq<char>)
    ensures
        json::escaped(a + b) == json::escaped(a) + json::escaped(b),
    decreases b.len(),
{
    if b.len() == 0 {
        assert(a + b =~= a);
        assert(json::escaped(a) + json::escaped(b) =~= json::escaped(a));
    } else {
        assert((a + b).drop_last() =~= a + b.drop_last());
        lemma_escaped_concat(a, b.drop_last());
        assert(json::escaped(a + b) =~= json::escaped(a) + json::escaped(b));
    }
}

/// Exactly quotes, backslashes and control characters are escaped, by a
/// backslash and what stands for them; any other character stands for itself.
pub proof fn law_only_hazards_are_escaped(c: char)
    ensures
        json::escaped(seq![c]) == json::escape_of(c),
        c != '"' && c != '\\' && c as int >= 0x20 ==> json::escape_of(c) == seq![c],
        c == '"' ==> json::escape_of(c) == seq!['\\', '"'],
        c == '\\' ==> json::escape_of(c) == seq!['\\', '\\'],
        c == '\n' ==> json::escape_of(c) == seq!['\\', 'n'],
        c == '\r' ==> json::escape_of(c) == seq!['\\', 'r'],
        c == '\t' ==> json::escape_of(c) == seq!['\\', 't'],
        c as int == 8 ==> json::escape_of(c) == seq!['\\', 'b'],
        c as int == 12 ==> json::escape_of(c) == seq!['\\', 'f'],
        (c as int) < 0x20 && c != '\n' && c != '\r' && c != '\t' && c as int != 8 && c as int != 12
            ==> json::escape_of(c).len() == 6 && json::escape_of(c)[0] == '\\'
            && json::escape_of(c)[1] == 'u',
{
    assert(seq![c].drop_last() =~= seq![]);
    assert(json::escaped(seq![c].drop_last()) =~= seq![]);
    assert(json::escaped(seq![c]) =~= json::escape_of(c));
}

/// The value of a digit in base sixteen.
pub open spec fn hex_value(c: char) -> Option<int> {
    if '0' <= c <= '9' {
        Some(c as int - '0' as int)
    } else if 'a' <= c <= 'f' {
        Some(c as int - 'a' as int + 10)
    } else if 'A' <= c <= 'F' {
        Some(c as int - 'A' as int + 10)
    } else {
        None
    }
}

/// The first character that the inside of a JSON string literal stands for,
/// and how many characters stand for it. None where the literal would end or
/// is malformed, or where the escape is not of a single character.
pub open spec fn first_unescaped(s: Seq<char>) -> Option<(char, int)> {
    if s.len() == 0 || s[0] == '"' || (s[0] as int) < 0x20 {
        None
    } else if s[0] != '\\' {
        Some((s[0], 1))
    } else if s.len() < 2 {
        None
    } else if s[1] == '"' || s[1] == '\\' || s[1] == '/' {
        Some((s[1], 2))
    } else if s[1] == 'n' {
        Some(('\n', 2))
    } else if s[1] == 'r' {
        Some(('\r', 2))
    } else if s[1] == 't' {
        Some(('\t', 2))
    } else if s[1] == 'b' {
        Some(('\u{8}', 2))
    } else if s[1] == 'f' {
        Some(('\u{c}', 2))
    } else if s[1] == 'u' && s.len() >= 6 {
        match (hex_value(s[2]), hex_value(s[3]), hex_value(s[4]), hex_value(s[5])) {
            (Some(a), Some(b), Some(c), Some(d)) => {
                let code = a * 4096 + b * 256 + c * 16 + d;
                if code < 0xd800 || 0xdfff < code {
                    Some((code as char, 6))
                } else {
                    None
                }
            },
            _ => None,
        }
    } else {
        None
    }
}

/// The text that the inside of a JSON string literal stands for (RFC 8259).
pub open spec fn unescaped(s: Seq<char>) -> Option<Seq<char>>
    decreases s.len(),
{
    if s.len() == 0 {
        Some(seq![])
    } else {
        match first_unescaped(s) {
            Some((c, n)) => if 0 < n <= s.len() {
                match unescaped(s.skip(n)) {
                    Some(rest) => Some(seq![c] + rest),
                    None => None,
                }
            } else {
                None
            },
            None => None,
        }
    }
}

/// An escaped text, put between quotes, is a JSON string literal that stands
/// for that very text.
pub proof fn law_unescaping_undoes_escaping(s: Seq<char>)
    ensures
        unescaped(json::escaped(s)) == Some(s),
    decreases s.len(),
{
    if s.len() > 0 {
        let head = seq![s[0]];
        let tail = s.skip(1);
        assert(head + tail =~= s);
        lemma_escaped_concat(head, tail);
        assert(json::escaped(head.drop_last()) =~= seq![]);
        assert(json::escaped(head) =~= json::escape_of(s[0]));
        law_unescaping_undoes_escaping(tail);
        let whole = json::escaped(s);
        let first = json::escape_of(s[0]);
        assert(whole.skip(first.len() as int) =~= json::escaped(tail));
        lemma_first_unescaped(s[0], json::escaped(tail));
        assert(first_unescaped(whole) == Some((s[0], first.len() as int)));
        assert(seq![s[0]] + tail =~= s);
    }
}

pub(crate) proof fn lemma_first_unescaped(c: char, rest: Seq<char>)
    ensures
        first_unescaped(json::escape_of(c) + rest) == Some((c, json::escape_of(c).len() as int)),
        json::escape_of(c).len() > 0,
{
    let whole = json::escape_of(c) + rest;
    let code = c as int;
    if c != '"' && c != '\\' && c != '\n' && c != '\r' && c != '\t' && c != '\u{8}' && c
        != '\u{c}' && code < 0x20 {
        assert(whole[0] == '\\' && whole[1] == 'u' && whole[2] == '0' && whole[3] == '0');
        assert(whole[4] == json::hex_digit(code / 16));
        assert(whole[5] == json::hex_digit(code % 16));
        lemma_hex_digit(code / 16);
        lemma_hex_digit(code % 16);
        assert(0 * 4096 + 0 * 256 + (code / 16) * 16 + code % 16 == code);
    } else {
        assert(whole[0] == json::escape_of(c)[0]);
    }
}

proof fn lemma_hex_digit(d: int)
    requires
        0 <= d < 16,
    ensures
        hex_value(json::hex_digit(d)) == Some(d),
        json::hex_digit(d) as int >= 0x20,
{
}

proof fn lemma_decimal_printable(n: nat)
    ensures
        is_printable(text::decimal(n)),
        text::decimal(n).len() > 0,
    decreases n,
{
    if n >= 10 {
        lemma_decimal_printable(n / 10);
    }
}

proof fn lemma_issue_object_printable(issue: IssueModel)
    ensures
        is_printable(json::issue_object(issue)),
        json::issue_object(issue).len() > 0,
{
    reveal_strlit("{\"rule\":\"");
    reveal_strlit("\",\"severity\":\"");
    reveal_strlit("\",\"file\":\"");
    reveal_strlit("\",\"line\":");
    reveal_strlit(",\"test_name\":\"");
    reveal_strlit("\",\"detail\":\"");
    reveal_strlit("\"}");
    reveal_strlit("warning");
    reveal_strlit("blocking");
    law_escaped_text_is_printable(issue.rule);
    law_escaped_text_is_printable(issue.file);
    law_escaped_text_is_printable(issue.test_name);
    law_escaped_text_is_printable(issue.detail);
    lemma_decimal_printable(issue.line as nat);
    let a = "{\"rule\":\""@ + json::escaped(issue.rule) + "\",\"severity\":\""@
        + json::severity_name(issue.severity()) + "\",\"file\":\""@ + json::escaped(issue.file);
    assert(is_printable(a));
    let b = a + "\",\"line\":"@ + text::decimal(issue.line as nat) + ",\"test_name\":\""@
        + json::escaped(issue.test_name);
    assert(is_printable(b));
    let c = b + "\",\"detail\":\""@ + json::escaped(issue.detail) + "\"}"@;
    assert(is_printable(c));
    assert(c == json::issue_object(issue));
}

proof fn lemma_error_object_printable(error: ErrorModel)
    ensures
        is_printable(json::error_object(error)),
        json::error_object(error).len() > 0,
{
    reveal_strlit("{\"file\":\"");
    reveal_strlit("\",\"kind\":\"");
    reveal_strlit("\",\"message\":\"");
    reveal_strlit("\"}");
    reveal_strlit("read");
    reveal_strlit("parse");
    reveal_strlit("crash");
    law_escaped_text_is_printable(error.file);
    law_escaped_text_is_printable(error.message);
    let a = "{\"file\":\""@ + json::escaped(error.file) + "\",\"kind\":\""@
        + json::error_kind_name(error.kind);
    assert(is_printable(a));
    let b = a + "\",\"message\":\""@ + json::escaped(error.message) + "\"}"@;
    assert(is_printable(b));
    assert(b == json::error_object(error));
}

proof fn lemma_joined_printable(parts: Seq<Seq<char>>)
    requires
        forall|i: int| 0 <= i < parts.len() ==> is_printable(#[trigger] parts[i]),
    ensures
        is_printable(text::joined(parts, ","@)),
    decreases parts.len(),
{
    reveal_strlit(",");
    if parts.len() > 1 {
        assert forall|i: int| 0 <= i < parts.drop_last().len() implies is_printable(
            #[trigger] parts.drop_last()[i],
        ) by {
            assert(is_printable(parts[i]));
        }
        lemma_joined_printable(parts.drop_last());
        assert(is_printable(parts[parts.len() - 1]));
    } else if parts.len() == 1 {
        assert(is_printable(parts[0]));
    }
}

/// Neither fragment has a control character, so the line feed between them is
/// the only one in a frame.
pub proof fn law_fragments_are_printable(result: ResultModel)
    ensures
        is_printable(json::issues_fragment(result.issues)),
        is_printable(json::errors_fragment(result.errors)),
{
    assert forall|i: int| 0 <= i < result.issues.len() implies is_printable(
        #[trigger] json::issue_objects(result.issues)[i],
    ) by {
        lemma_issue_object_printable(result.issues[i]);
    }
    lemma_joined_printable(json::issue_objects(result.issues));
    assert forall|i: int| 0 <= i < result.errors.len() implies is_printable(
        #[trigger] json::error_objects(result.errors)[i],
    ) by {
        lemma_error_object_printable(result.errors[i]);
    }
    lemma_joined_printable(json::error_objects(result.errors));
}

/// What the parent reads out of the frame of a worker are the two fragments
/// that the worker put in.
pub proof fn law_frame_splits_into_its_fragments(result: ResultModel)
    ensures
        text::split_at_newline(cli::frame(result)) == Some(
            (json::issues_fragment(result.issues), json::errors_fragment(result.errors)),
        ),
{
    reveal_strlit("\n");
    law_fragments_are_printable(result);
    let issues = json::issues_fragment(result.issues);
    let errors = json::errors_fragment(result.errors);
    let framed = cli::frame(result);
    assert(framed[issues.len() as int] == '\n');
    assert forall|i: int| 0 <= i < issues.len() implies framed[i] != '\n' by {
        assert(framed[i] == issues[i]);
    }
    framed.index_of_first_ensures('\n');
    assert(framed.contains('\n'));
    assert(framed.take(issues.len() as int) =~= issues);
    assert(framed.skip(issues.len() as int + 1) =~= errors);
}

/// The exit code of two lists of findings is the worse of their exit codes.
pub proof fn law_exit_code_is_the_worst(a: Seq<IssueModel>, b: Seq<IssueModel>)
    ensures
        cli::exit_code(a + b) == cli::worse(cli::exit_code(a), cli::exit_code(b)),
{
    let both = a + b;
    assert forall|i: int| 0 <= i < a.len() implies both[i] == #[trigger] a[i] by {}
    assert forall|i: int| 0 <= i < b.len() implies both[a.len() + i] == #[trigger] b[i] by {}
    if cli::exit_code(a) == EXIT_BLOCKING {
        let i = choose|i: int|
            0 <= i < a.len() && (#[trigger] a[i]).severity() == Severity::Blocking;
        assert(both[i].severity() == Severity::Blocking);
    } else if cli::exit_code(b) == EXIT_BLOCKING {
        let i = choose|i: int|
            0 <= i < b.len() && (#[trigger] b[i]).severity() == Severity::Blocking;
        assert(both[a.len() + i].severity() == Severity::Blocking);
    } else {
        assert forall|i: int| 0 <= i < both.len() implies (#[trigger] both[i]).severity()
            != Severity::Blocking by {
            if i < a.len() {
                assert(a[i].severity() != Severity::Blocking);
            } else {
                assert(b[i - a.len()].severity() != Severity::Blocking);
            }
        }
    }
}

/// A worker that completes is never taken for one that crashed, and keeps its
/// exit code; one that was killed, or that reports an internal or a usage
/// error, is a crash.
pub proof fn law_worker_codes_are_classified(issues: Seq<IssueModel>)
    ensures
        cli::worker_outcome(Some(cli::exit_code(issues) as i32)) == WorkerOutcome::Code(
            cli::exit_code(issues),
        ),
        cli::worker_outcome(None) == WorkerOutcome::Crash,
        cli::worker_outcome(Some(EXIT_SOFTWARE as i32)) == WorkerOutcome::Crash,
        cli::worker_outcome(Some(EXIT_USAGE as i32)) == WorkerOutcome::Crash,
{
}

/// The exit code of a batch in text mode, as `text_step` folds it.
pub open spec fn batch_code(workers: Seq<Worker>) -> u8
    decreases workers.len(),
{
    if workers.len() == 0 {
        EXIT_SUCCESS
    } else {
        cli::worse(batch_code(workers.drop_last()), workers.last().code())
    }
}

/// The worst worker decides the exit code of a batch: a crash before blocking
/// findings, those before advisory ones, those before none.
pub proof fn law_worst_worker_decides(workers: Seq<Worker>)
    ensures
        forall|i: int| 0 <= i < workers.len() ==> (#[trigger] workers[i]).code() <= batch_code(
            workers,
        ),
        batch_code(workers) == EXIT_SUCCESS || exists|i: int|
            0 <= i < workers.len() && (#[trigger] workers[i]).code() == batch_code(workers),
        EXIT_SUCCESS < EXIT_WARNING < EXIT_BLOCKING < EXIT_SOFTWARE,
    decreases workers.len(),
{
    if workers.len() > 0 {
        let before = workers.drop_last();
        law_worst_worker_decides(before);
        assert forall|i: int| 0 <= i < workers.len() implies (#[trigger] workers[i]).code()
            <= batch_code(workers) by {
            if i < before.len() {
                assert(before[i].code() <= batch_code(before));
            }
        }
        if batch_code(workers) != EXIT_SUCCESS {
            if workers.last().code() == batch_code(workers) {
                assert(workers[workers.len() - 1].code() == batch_code(workers));
            } else {
                let i = choose|i: int|
                    0 <= i < before.len() && (#[trigger] before[i]).code() == batch_code(before);
                assert(workers[i].code() == batch_code(workers));
            }
        }
    }
}

/// A crash is never silent: where a worker crashed or could not be started,
/// the batch exits with an internal error and the file is reported.
pub proof fn law_crash_is_loud(workers: Seq<Worker>, i: int, file: Seq<char>)
    requires
        0 <= i < workers.len(),
        workers[i].error(file) is Some,
    ensures
        batch_code(workers) == EXIT_SOFTWARE,
        workers[i].error(file)->0.file == file,
        workers[i].error(file)->0.kind == FileErrorKind::Crash,
{
    law_worst_worker_decides(workers);
    lemma_batch_code_bound(workers);
    assert(workers[i].code() == EXIT_SOFTWARE);
}

proof fn lemma_batch_code_bound(workers: Seq<Worker>)
    ensures
        batch_code(workers) <= EXIT_SOFTWARE,
    decreases workers.len(),
{
    if workers.len() > 0 {
        lemma_batch_code_bound(workers.drop_last());
    }
}

/// What the parent has gathered in JSON mode after workers that completed
/// with these results, each with its exit code and its frame.
pub open spec fn gathered(files: Seq<Seq<char>>, results: Seq<ResultModel>) -> ScanModel
    decreases results.len(),
{
    if results.len() == 0 {
        ScanModel::nothing()
    } else {
        gathered(files, results.drop_last()).after_output(
            files[results.len() - 1],
            Some(cli::exit_code(results.last().issues) as i32),
            cli::frame(results.last()),
        )
    }
}

/// A worker exits alike in both modes.
pub proof fn law_worker_exits_alike_in_both_modes(result: ResultModel)
    ensures
        cli::output_of(result, true).code == cli::output_of(result, false).code,
{
}

/// What became of the worker of one file: how it ended, and what it wrote to
/// stdout, which the parent captures in JSON mode.
pub ghost struct Run {
    pub file: Seq<char>,
    pub worker: Worker,
    pub stdout: Seq<char>,
}

impl Run {
    /// Whether a worker that completed wrote a frame, as every worker in JSON
    /// mode does.
    pub open spec fn is_framed(self) -> bool {
        self.worker matches Worker::Ended(code) && cli::worker_outcome(code) is Code
            ==> text::split_at_newline(self.stdout) is Some
    }
}

/// What the parent has gathered in JSON mode after these workers.
pub open spec fn scanned(runs: Seq<Run>) -> ScanModel
    decreases runs.len(),
{
    if runs.len() == 0 {
        ScanModel::nothing()
    } else {
        let before = scanned(runs.drop_last());
        let run = runs.last();
        match run.worker {
            Worker::NotStarted(error) => before.after_crash(
                run.file,
                cli::spawn_message(error@),
            ),
            Worker::Ended(code) => before.after_output(run.file, code, run.stdout),
        }
    }
}

/// The exit code does not depend on the mode: for the same workers, text mode
/// and JSON mode end alike. A completed worker whose output is no frame, which
/// JSON mode takes for a crash, is left out.
pub proof fn law_modes_have_one_exit_code(runs: Seq<Run>)
    requires
        forall|i: int| 0 <= i < runs.len() ==> (#[trigger] runs[i]).is_framed(),
    ensures
        scanned(runs).max == batch_code(Seq::new(runs.len(), |i: int| runs[i].worker)),
    decreases runs.len(),
{
    if runs.len() > 0 {
        let workers = Seq::new(runs.len(), |i: int| runs[i].worker);
        let before = runs.drop_last();
        assert forall|i: int| 0 <= i < before.len() implies (#[trigger] before[i]).is_framed() by {
            assert(runs[i].is_framed());
        }
        law_modes_have_one_exit_code(before);
        assert(workers.drop_last() =~= Seq::new(before.len(), |i: int| before[i].worker));
        assert(runs[runs.len() - 1].is_framed());
    }
}

/// All findings and errors of some results, in order.
pub open spec fn merged(results: Seq<ResultModel>) -> ResultModel
    decreases results.len(),
{
    if results.len() == 0 {
        ResultModel::nothing()
    } else {
        merged(results.drop_last()).and(results.last())
    }
}

pub(crate) proof fn lemma_joined_concat(a: Seq<Seq<char>>, b: Seq<Seq<char>>, separator: Seq<char>)
    requires
        a.len() > 0,
        b.len() > 0,
    ensures
        text::joined(a + b, separator) == text::joined(a, separator) + separator + text::joined(
            b,
            separator,
        ),
    decreases b.len(),
{
    assert((a + b).drop_last() =~= a + b.drop_last());
    if b.len() == 1 {
        assert(a + b.drop_last() =~= a);
    } else {
        lemma_joined_concat(a, b.drop_last(), separator);
        assert(text::joined(a + b, separator) =~= text::joined(a, separator) + separator
            + text::joined(b, separator));
    }
}

/// Joining lists one after the other: where `fragments` joined gives what
/// `objects` joined gives, one more fragment that is itself joined from
/// objects fits the longer list of objects.
proof fn lemma_fragment_added(
    fragments: Seq<Seq<char>>,
    objects: Seq<Seq<char>>,
    more: Seq<Seq<char>>,
)
    requires
        text::joined(fragments, ","@) == text::joined(objects, ","@),
        fragments.len() == 0 <==> objects.len() == 0,
        forall|i: int| 0 <= i < more.len() ==> (#[trigger] more[i]).len() > 0,
    ensures
        text::joined(cli::with_fragment(fragments, text::joined(more, ","@)), ","@)
            == text::joined(objects + more, ","@),
        cli::with_fragment(fragments, text::joined(more, ","@)).len() == 0 <==> (objects
            + more).len() == 0,
{
    let fragment = text::joined(more, ","@);
    if more.len() == 0 {
        assert(objects + more =~= objects);
    } else {
        lemma_joined_nonempty(more);
        let added = fragments.push(fragment);
        assert(added =~= fragments + seq![fragment]);
        if fragments.len() == 0 {
            assert(objects + more =~= more);
            assert(added[0] == fragment);
        } else {
            assert(added.drop_last() =~= fragments);
            lemma_joined_concat(objects, more, ","@);
        }
    }
}

proof fn lemma_joined_nonempty(parts: Seq<Seq<char>>)
    requires
        parts.len() > 0,
        parts[parts.len() - 1].len() > 0,
    ensures
        text::joined(parts, ","@).len() > 0,
{
}

/// Merging the outputs of one worker per file gives the document and the exit
/// code that one analysis of all the files gives.
pub proof fn law_merged_document_is_the_whole_document(
    files: Seq<Seq<char>>,
    results: Seq<ResultModel>,
)
    requires
        files.len() == results.len(),
    ensures
        gathered(files, results).document() == json::document(
            json::issues_fragment(merged(results).issues),
            json::errors_fragment(merged(results).errors),
        ),
        gathered(files, results).max == cli::exit_code(merged(results).issues),
{
    lemma_gathered(files, results, results.len() as int);
    assert(results.take(results.len() as int) =~= results);
}

proof fn lemma_gathered(files: Seq<Seq<char>>, results: Seq<ResultModel>, n: int)
    requires
        files.len() == results.len(),
        0 <= n <= results.len(),
    ensures
        ({
            let scan = gathered(files, results.take(n));
            let all = merged(results.take(n));
            &&& text::joined(scan.issue_frags, ","@) == json::issues_fragment(all.issues)
            &&& text::joined(scan.error_frags, ","@) == json::errors_fragment(all.errors)
            &&& (scan.issue_frags.len() == 0 <==> all.issues.len() == 0)
            &&& (scan.error_frags.len() == 0 <==> all.errors.len() == 0)
            &&& scan.max == cli::exit_code(all.issues)
        }),
    decreases n,
{
    if n > 0 {
        let now = results.take(n);
        let before = results.take(n - 1);
        assert(now.drop_last() =~= before);
        lemma_gathered(files, results, n - 1);
        let last = results[n - 1];
        assert(now.last() == last);
        let old_all = merged(before);
        law_worker_codes_are_classified(last.issues);
        law_frame_splits_into_its_fragments(last);
        law_exit_code_is_the_worst(old_all.issues, last.issues);
        let old_scan = gathered(files, before);
        assert(json::issue_objects(old_all.issues + last.issues) =~= json::issue_objects(
            old_all.issues,
        ) + json::issue_objects(last.issues));
        assert(json::error_objects(old_all.errors + last.errors) =~= json::error_objects(
            old_all.errors,
        ) + json::error_objects(last.errors));
        assert forall|i: int| 0 <= i < last.issues.len() implies (#[trigger] json::issue_objects(
            last.issues,
        )[i]).len() > 0 by {
            lemma_issue_object_printable(last.issues[i]);
        }
        assert forall|i: int| 0 <= i < last.errors.len() implies (#[trigger] json::error_objects(
            last.errors,
        )[i]).len() > 0 by {
            lemma_error_object_printable(last.errors[i]);
        }
        lemma_fragment_added(
            old_scan.issue_frags,
            json::issue_objects(old_all.issues),
            json::issue_objects(last.issues),
        );
        lemma_fragment_added(
            old_scan.error_frags,
            json::error_objects(old_all.errors),
            json::error_objects(last.errors),
        );
    } else {
        assert(results.take(0) =~= seq![]);
        assert(json::issue_objects(Seq::<IssueModel>::empty()) =~= seq![]);
        assert(json::error_objects(Seq::<ErrorModel>::empty()) =~= seq![]);
    }
}

/// One file does not affect what is found in another: the result of two
/// batches is the result of the first and that of the second.
pub proof fn law_files_are_analyzed_one_by_one(a: Seq<SourceFile>, b: Seq<SourceFile>)
    ensures
        crate::batch_result(a + b) == crate::batch_result(a).and(crate::batch_result(b)),
    decreases b.len(),
{
    if b.len() == 0 {
        assert(a + b =~= a);
        assert(crate::batch_result(a).and(crate::batch_result(b)) =~= crate::batch_result(a));
    } else {
        assert((a + b).drop_last() =~= a + b.drop_last());
        law_files_are_analyzed_one_by_one(a, b.drop_last());
        assert(crate::batch_result(a + b) =~= crate::batch_result(a).and(crate::batch_result(b)));
    }
}

/// A file that cannot be read or parsed is reported as an error and has no
/// findings; every other file has no error.
pub proof fn law_failure_is_never_clean(file: SourceFile)
    ensures
        crate::file_result(file).errors.len() <= 1,
        crate::file_result(file).errors.len() == 1 ==> crate::file_result(file).issues.len() == 0
            && crate::file_result(file).errors[0].file == file.path@,
        file.content is Err ==> crate::file_result(file).errors.len() == 1
            && crate::file_result(file).errors[0].kind == FileErrorKind::Read,
        file.content matches Ok(source) ==> (crate::file_result(file).errors.len() == 1
            <==> parse::file_outcome(source@, file.path@) is Message),
        file.content is Ok && crate::file_result(file).errors.len() == 1 ==> crate::file_result(
            file,
        ).errors[0].kind == FileErrorKind::Parse,
{
}

/// `--json` may stand before or after the directory.
pub proof fn law_flag_and_directory_commute(dir: Seq<char>)
    requires
        !text::has_prefix(dir, "-"@),
    ensures
        ArgsRead::nothing().read(seq![cli::JSON_FLAG@, dir]) == Request::Run(
            ConfigModel { dir, json: true, worker_file: None },
        ),
        ArgsRead::nothing().read(seq![dir, cli::JSON_FLAG@]) == Request::Run(
            ConfigModel { dir, json: true, worker_file: None },
        ),
{
    reveal_strlit("-");
    reveal_strlit("--json");
    reveal_strlit("--worker-file");
    assert(cli::JSON_FLAG@.take(1) =~= "-"@);
    assert(cli::WORKER_FLAG@.take(1) =~= "-"@);
    let flag_first = seq![cli::JSON_FLAG@, dir];
    let flag_last = seq![dir, cli::JSON_FLAG@];
    reveal_with_fuel(ArgsRead::read, 3);
    assert(flag_first.skip(1) =~= seq![dir]);
    assert(flag_last.skip(1) =~= seq![cli::JSON_FLAG@]);
    assert(seq![dir].skip(1) =~= seq![]);
    assert(seq![cli::JSON_FLAG@].skip(1) =~= seq![]);
    assert(Seq::<Seq<char>>::empty().push(dir)[0] == dir);
}

/// A crash is never silent in JSON mode either: whatever the workers before
/// and after it gave, the exit code is that of an internal error and the file
/// stays in the list of errors.
pub proof fn law_crash_is_loud_in_json(
    scan: ScanModel,
    file: Seq<char>,
    code: Option<i32>,
    stdout: Seq<char>,
)
    requires
        scan.max <= EXIT_SOFTWARE,
    ensures
        ({
            let after = scan.after_output(file, code, stdout);
            &&& after.max >= scan.max
            &&& after.max <= EXIT_SOFTWARE
            &&& cli::worker_outcome(code) == WorkerOutcome::Crash || text::split_at_newline(
                stdout,
            ) is None ==> after.max == EXIT_SOFTWARE && after.error_frags.len()
                == scan.error_frags.len() + 1
            &&& forall|i: int|
                0 <= i < scan.error_frags.len() ==> #[trigger] after.error_frags[i]
                    == scan.error_frags[i]
            &&& forall|i: int|
                0 <= i < scan.issue_frags.len() ==> #[trigger] after.issue_frags[i]
                    == scan.issue_frags[i]
        }),
{
}

} // verus!
