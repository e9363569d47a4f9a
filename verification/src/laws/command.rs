//! Laws of the command line: arguments, exit codes, and what is written.

use crate::cli;
use crate::cli::{ArgsRead, ConfigModel, Request, ScanModel, Worker, WorkerOutcome};
use crate::json;
use crate::parse;
use crate::parse::Outcome;
use crate::rules;
use crate::rules::{IssueModel, Severity};
use crate::text;
use crate::{
    ErrorModel, FileErrorKind, LitmusError, ResultModel, SourceFile, Verdict, EXIT_BLOCKING,
    EXIT_SOFTWARE, EXIT_SUCCESS, EXIT_USAGE, EXIT_WARNING,
};
use vstd::prelude::*;

verus! {

/// Whether an argument is the flag for JSON or no flag at all.
pub open spec fn is_plain(arg: Seq<char>) -> bool {
    arg == "--json"@ || arg.len() == 0 || arg[0] != '-'
}

/// The arguments that are not the flag for JSON.
pub open spec fn directories(args: Seq<Seq<char>>) -> Seq<Seq<char>>
    decreases args.len(),
{
    if args.len() == 0 {
        seq![]
    } else if args[0] == "--json"@ {
        directories(args.skip(1))
    } else {
        seq![args[0]] + directories(args.skip(1))
    }
}

proof fn lemma_flags()
    ensures
        cli::JSON_FLAG@ == "--json"@,
        cli::WORKER_FLAG@ == "--worker-file"@,
        "--json"@ != "--worker-file"@,
        "--json"@.len() == 6,
        "--json"@[0] == '-',
        "--worker-file"@[0] == '-',
        "--worker-file"@.len() == 13,
        "-"@ == seq!['-'],
{
    reveal_strlit("--json");
    reveal_strlit("--worker-file");
    reveal_strlit("-");
    assert("--json"@.len() != "--worker-file"@.len());
    assert("-"@ =~= seq!['-']);
}

proof fn lemma_is_flag(arg: Seq<char>)
    ensures
        text::has_prefix(arg, "-"@) == (arg.len() > 0 && arg[0] == '-'),
{
    lemma_flags();
    if arg.len() > 0 {
        assert(arg.take(1) =~= seq![arg[0]]);
        if arg[0] != '-' {
            assert(arg.take(1)[0] != seq!['-'][0]);
        }
    }
}

/// Reading plain arguments before others gathers their directories and
/// whether one of them is the flag.
proof fn lemma_plain_arguments(state: ArgsRead, a: Seq<Seq<char>>, rest: Seq<Seq<char>>)
    requires
        forall|i: int| 0 <= i < a.len() ==> is_plain(#[trigger] a[i]),
    ensures
        state.read(a + rest) == (ArgsRead {
            positionals: state.positionals + directories(a),
            json: state.json || a.contains("--json"@),
            ..state
        }).read(rest),
    decreases a.len(),
{
    lemma_flags();
    if a.len() == 0 {
        assert(a + rest =~= rest);
        assert(state.positionals + directories(a) =~= state.positionals);
        assert(!a.contains("--json"@));
        assert(state =~= ArgsRead {
            positionals: state.positionals + directories(a),
            json: state.json || a.contains("--json"@),
            ..state
        });
    } else {
        let tail = a.skip(1);
        let whole = a + rest;
        assert(whole[0] == a[0]);
        assert(whole.skip(1) =~= tail + rest);
        assert forall|i: int| 0 <= i < tail.len() implies is_plain(#[trigger] tail[i]) by {
            assert(tail[i] == a[i + 1]);
        }
        assert(is_plain(a[0]));
        assert(a.contains("--json"@) == (a[0] == "--json"@ || tail.contains("--json"@))) by {
            if a.contains("--json"@) && a[0] != "--json"@ {
                let i = choose|i: int| 0 <= i < a.len() && a[i] == "--json"@;
                assert(tail[i - 1] == "--json"@);
            }
            if tail.contains("--json"@) {
                let i = choose|i: int| 0 <= i < tail.len() && tail[i] == "--json"@;
                assert(a[i + 1] == "--json"@);
            }
        }
        let goal = ArgsRead {
            positionals: state.positionals + directories(a),
            json: state.json || a.contains("--json"@),
            ..state
        };
        if a[0] == "--json"@ {
            let next = ArgsRead { json: true, ..state };
            lemma_plain_arguments(next, tail, rest);
            assert(goal =~= ArgsRead {
                positionals: next.positionals + directories(tail),
                json: next.json || tail.contains("--json"@),
                ..next
            });
        } else {
            lemma_is_flag(a[0]);
            let next = ArgsRead { positionals: state.positionals.push(a[0]), ..state };
            lemma_plain_arguments(next, tail, rest);
            assert(goal =~= ArgsRead {
                positionals: next.positionals + directories(tail),
                json: next.json || tail.contains("--json"@),
                ..next
            });
        }
    }
}

/// What directories, a mode and a worker file ask for.
pub open spec fn asked(dirs: Seq<Seq<char>>, json: bool, worker: Option<Seq<char>>) -> Request {
    if dirs.len() > 1 {
        Request::Usage("expected at most 1 directory argument, got "@ + text::decimal(dirs.len()))
    } else if dirs.len() == 1 {
        Request::Run(ConfigModel { dir: dirs[0], json, worker_file: worker })
    } else {
        Request::Run(ConfigModel { dir: "."@, json, worker_file: worker })
    }
}

/// Without other flags: the one directory that is named, or the current one,
/// in JSON if the flag stands anywhere; more than one directory is an error.
pub proof fn law_plain_arguments_name_a_directory(args: Seq<Seq<char>>)
    requires
        forall|i: int| 0 <= i < args.len() ==> is_plain(#[trigger] args[i]),
    ensures
        ArgsRead::nothing().read(args) == asked(
            directories(args),
            args.contains("--json"@),
            None,
        ),
{
    let none = Seq::<Seq<char>>::empty();
    lemma_plain_arguments(ArgsRead::nothing(), args, none);
    assert(args + none =~= args);
    assert(ArgsRead::nothing().positionals + directories(args) =~= directories(args));
}

/// Any other argument that begins with a hyphen is an error that names it,
/// whatever follows it.
pub proof fn law_unknown_flag_is_refused(
    args: Seq<Seq<char>>,
    flag: Seq<char>,
    rest: Seq<Seq<char>>,
)
    requires
        forall|i: int| 0 <= i < args.len() ==> is_plain(#[trigger] args[i]),
        flag.len() > 0,
        flag[0] == '-',
        flag != "--json"@,
        flag != "--worker-file"@,
    ensures
        ArgsRead::nothing().read(args + seq![flag] + rest) == Request::Usage(
            "unknown flag: "@ + flag,
        ),
{
    lemma_flags();
    lemma_is_flag(flag);
    let tail = seq![flag] + rest;
    assert(args + seq![flag] + rest =~= args + tail);
    lemma_plain_arguments(ArgsRead::nothing(), args, tail);
    assert(tail[0] == flag);
}

/// The flag for a worker takes the argument behind it, whatever that is, and
/// leaves the others as they are; without one it is an error.
pub proof fn law_worker_flag_takes_a_path(
    a: Seq<Seq<char>>,
    path: Seq<char>,
    b: Seq<Seq<char>>,
)
    requires
        forall|i: int| 0 <= i < a.len() ==> is_plain(#[trigger] a[i]),
        forall|i: int| 0 <= i < b.len() ==> is_plain(#[trigger] b[i]),
    ensures
        ArgsRead::nothing().read(a + seq!["--worker-file"@]) == Request::Usage(
            "--worker-file"@ + " requires a path argument"@,
        ),
        ArgsRead::nothing().read(a + seq!["--worker-file"@, path] + b) == asked(
            directories(a) + directories(b),
            a.contains("--json"@) || b.contains("--json"@),
            Some(path),
        ),
{
    lemma_flags();
    let none = Seq::<Seq<char>>::empty();
    let alone = seq!["--worker-file"@];
    lemma_plain_arguments(ArgsRead::nothing(), a, alone);
    let tail = seq!["--worker-file"@, path] + b;
    assert(a + seq!["--worker-file"@, path] + b =~= a + tail);
    lemma_plain_arguments(ArgsRead::nothing(), a, tail);
    assert(tail[0] == "--worker-file"@ && tail[1] == path);
    assert(tail.skip(2) =~= b);
    let met = ArgsRead {
        positionals: ArgsRead::nothing().positionals + directories(a),
        json: a.contains("--json"@),
        worker_file: Some(path),
    };
    lemma_plain_arguments(met, b, none);
    assert(b + none =~= b);
    assert(met.positionals + directories(b) =~= directories(a) + directories(b));
}

/// The arguments are all but the first, which names the program.
pub proof fn law_first_argument_is_the_program(args: Seq<String>, i: int)
    ensures
        args.len() == 0 ==> cli::operands(args).len() == 0,
        args.len() > 0 ==> cli::operands(args).len() == args.len() - 1,
        0 <= i < args.len() - 1 ==> cli::operands(args)[i] == args[i + 1]@,
{
}

/// A path is scanned exactly if it exists and is a directory; else the error
/// names the path and says which of the two fails.
pub proof fn law_only_directories_are_scanned(dir: Seq<char>, exists: bool, is_dir: bool)
    ensures
        (cli::scan_obstacle(dir, exists, is_dir) is None) == (exists && is_dir),
        !exists ==> cli::scan_obstacle(dir, exists, is_dir) == Some("path does not exist: "@ + dir),
        exists && !is_dir ==> cli::scan_obstacle(dir, exists, is_dir) == Some(
            "not a directory: "@ + dir,
        ),
{
}

/// The exit codes.
pub proof fn law_exit_codes_have_these_values(message: String)
    ensures
        EXIT_SUCCESS == 0,
        EXIT_WARNING == 1,
        EXIT_BLOCKING == 2,
        EXIT_USAGE == 64,
        EXIT_SOFTWARE == 70,
        LitmusError::Usage(message).code() == 64,
        LitmusError::Internal(message).code() == 70,
{
}

/// Findings decide the exit code: none is success, a blocking one anywhere is
/// blocking, and advisory ones alone are a warning.
pub proof fn law_findings_decide_the_exit_code(issues: Seq<IssueModel>)
    ensures
        cli::exit_code(issues) == 0 <==> issues.len() == 0,
        cli::exit_code(issues) == 2 <==> exists|i: int|
            0 <= i < issues.len() && (#[trigger] issues[i]).severity() == Severity::Blocking,
        cli::exit_code(issues) == 1 <==> issues.len() > 0 && forall|i: int|
            0 <= i < issues.len() ==> (#[trigger] issues[i]).severity() == Severity::Warning,
        cli::exit_code(issues) <= 2,
{
    if issues.len() > 0 && (forall|i: int|
        0 <= i < issues.len() ==> (#[trigger] issues[i]).severity() == Severity::Warning) {
        assert(issues[0].severity() == Severity::Warning);
    }
    if cli::exit_code(issues) == 1 {
        assert forall|i: int| 0 <= i < issues.len() implies (#[trigger] issues[i]).severity()
            == Severity::Warning by {
            assert(issues[i].severity() != Severity::Blocking);
        }
    }
}

/// A worker completed exactly if it exited with a code for findings; any other
/// code, and death by a signal, is a crash.
pub proof fn law_workers_complete_with_a_code_for_findings(c: i32)
    ensures
        0 <= c <= 2 ==> cli::worker_outcome(Some(c)) == WorkerOutcome::Code(c as u8),
        c < 0 || 2 < c ==> cli::worker_outcome(Some(c)) == WorkerOutcome::Crash,
        cli::worker_outcome(None) == WorkerOutcome::Crash,
{
}

/// Of two codes the larger wins.
pub proof fn law_worse_code_wins(a: u8, b: u8)
    ensures
        cli::worse(a, b) >= a,
        cli::worse(a, b) >= b,
        cli::worse(a, b) == a || cli::worse(a, b) == b,
{
}

/// What a worker asks for: its own code if it completed, and an internal error
/// if it crashed or did not start. Exactly then the file is reported, with the
/// reason.
pub proof fn law_workers_ask_for_a_code(c: i32, error: String, file: Seq<char>)
    ensures
        0 <= c <= 2 ==> Worker::Ended(Some(c)).code() == c && Worker::Ended(Some(c)).error(
            file,
        ) is None,
        2 < c ==> Worker::Ended(Some(c)).code() == 70 && Worker::Ended(Some(c)).error(file) == Some(
            ErrorModel {
                file,
                kind: FileErrorKind::Crash,
                message: "analysis aborted: worker exited with unexpected code "@ + text::decimal(
                    c as nat,
                ),
            },
        ),
        c < 0 ==> Worker::Ended(Some(c)).code() == 70 && Worker::Ended(Some(c)).error(file) == Some(
            ErrorModel {
                file,
                kind: FileErrorKind::Crash,
                message: "analysis aborted: worker exited with unexpected code "@ + ("-"@
                    + text::decimal((-c) as nat)),
            },
        ),
        Worker::Ended(None).code() == 70,
        Worker::Ended(None).error(file) == Some(
            ErrorModel {
                file,
                kind: FileErrorKind::Crash,
                message: "analysis aborted: worker terminated by signal"@,
            },
        ),
        Worker::NotStarted(error).code() == 70,
        Worker::NotStarted(error).error(file) == Some(
            ErrorModel {
                file,
                kind: FileErrorKind::Crash,
                message: "analysis aborted: failed to spawn worker: "@ + error@,
            },
        ),
{
}

/// In JSON mode a worker that completed hands over its two fragments, as far
/// as they are not empty; any other adds one error for its file and nothing
/// else.
pub proof fn law_json_scan_gathers_fragments(
    scan: ScanModel,
    file: Seq<char>,
    c: i32,
    issues: Seq<char>,
    errors: Seq<char>,
    message: Seq<char>,
)
    requires
        !issues.contains('\n'),
    ensures
        ({
            let after = scan.after_output(file, Some(c), issues + seq!['\n'] + errors);
            0 <= c <= 2 ==> {
                &&& after.max == cli::worse(scan.max, c as u8)
                &&& after.issue_frags == scan.issue_frags + (if issues.len() > 0 {
                    seq![issues]
                } else {
                    seq![]
                })
                &&& after.error_frags == scan.error_frags + (if errors.len() > 0 {
                    seq![errors]
                } else {
                    seq![]
                })
            }
        }),
        ({
            let after = scan.after_crash(file, message);
            &&& after.max == cli::worse(scan.max, 70)
            &&& after.issue_frags == scan.issue_frags
            &&& after.error_frags == scan.error_frags + seq![
                json::error_object(ErrorModel { file, kind: FileErrorKind::Crash, message }),
            ]
        }),
        ScanModel::nothing().max == 0,
        ScanModel::nothing().issue_frags.len() == 0,
        ScanModel::nothing().error_frags.len() == 0,
{
    let stdout = issues + seq!['\n'] + errors;
    let n = issues.len() as int;
    assert(stdout[n] == '\n');
    assert(stdout.contains('\n'));
    assert forall|i: int| 0 <= i < n implies stdout[i] != '\n' by {
        assert(stdout[i] == issues[i]);
        assert(issues.contains(issues[i]));
    }
    stdout.index_of_first_ensures('\n');
    assert(stdout.index_of_first('\n') == Some(n));
    assert(stdout.take(n) =~= issues);
    assert(stdout.skip(n + 1) =~= errors);
    let after = scan.after_output(file, Some(c), stdout);
    assert(scan.issue_frags + seq![] =~= scan.issue_frags);
    assert(scan.error_frags + seq![] =~= scan.error_frags);
    assert(scan.issue_frags.push(issues) =~= scan.issue_frags + seq![issues]);
    assert(scan.error_frags.push(errors) =~= scan.error_frags + seq![errors]);
    let object = json::error_object(ErrorModel { file, kind: FileErrorKind::Crash, message });
    assert(scan.error_frags.push(object) =~= scan.error_frags + seq![object]);
}

/// What a worker writes: in JSON its frame and nothing to stderr; in text a
/// line for every error to stderr and a line for every finding to stdout,
/// which it leaves alone if there is none.
pub proof fn law_workers_write_everything(result: ResultModel, x: IssueModel, e: ErrorModel)
    ensures
        cli::output_of(result, true).stdout == Some(cli::frame(result)),
        cli::output_of(result, true).stderr.len() == 0,
        cli::output_of(result, true).code == cli::exit_code(result.issues),
        cli::output_of(result, false).code == cli::exit_code(result.issues),
        cli::output_of(result, false).stdout is None <==> result.issues.len() == 0,
        result.issues.len() > 0 ==> cli::output_of(result, false).stdout == Some(
            cli::issue_text(result.issues),
        ),
        cli::output_of(result, false).stderr == cli::error_text(result.errors),
        cli::issue_text(seq![]).len() == 0,
        cli::issue_text(result.issues.push(x)) == cli::issue_text(result.issues) + x.line_of_text()
            + "\n"@,
        cli::error_text(seq![]).len() == 0,
        cli::error_text(result.errors.push(e)) == cli::error_text(result.errors) + e.line_of_text()
            + "\n"@,
{
    assert(result.issues.push(x).drop_last() =~= result.issues);
    assert(result.errors.push(e).drop_last() =~= result.errors);
}

/// Errors as lines: what failed, on which file, and why.
pub proof fn law_error_lines_name_everything(
    file: Seq<char>,
    message: Seq<char>,
    usage: String,
    internal: String,
)
    ensures
        (ErrorModel { file, kind: FileErrorKind::Read, message }).line_of_text() == "litmus: "@
            + "read error"@ + ": "@ + file + ": "@ + message,
        (ErrorModel { file, kind: FileErrorKind::Parse, message }).line_of_text() == "litmus: "@
            + "parse error"@ + ": "@ + file + ": "@ + message,
        (ErrorModel { file, kind: FileErrorKind::Crash, message }).line_of_text() == "litmus: "@
            + "analysis error"@ + ": "@ + file + ": "@ + message,
        LitmusError::Usage(usage).line_of_text() == "litmus: usage error: "@ + usage@,
        LitmusError::Internal(internal).line_of_text() == "litmus: internal error: "@ + internal@,
{
}

/// A reader that leaves early turns any exit code into success; otherwise the
/// code stands.
pub proof fn law_early_reader_is_no_failure(code: u8)
    ensures
        cli::code_once_written(true, code) == code,
        cli::code_once_written(false, code) == 0,
{
}

/// A file that was read gives the findings of its tests, or one parse error
/// with the message of the parser; one that was not gives one read error with
/// the reason. A batch gives what its files give, in order.
pub proof fn law_files_give_findings_or_one_error(
    file: SourceFile,
    files: Seq<SourceFile>,
)
    ensures
        file.content matches Ok(source) ==> ({
            let result = crate::file_result(file);
            match parse::file_outcome(source@, file.path@) {
                Outcome::Blocks(tests) => result.issues == rules::all_issues(
                    rules::CHECKS@,
                    tests,
                    file.path@,
                ) && result.errors.len() == 0,
                Outcome::Message(message) => result.issues.len() == 0 && result.errors == seq![
                    ErrorModel { file: file.path@, kind: FileErrorKind::Parse, message },
                ],
            }
        }),
        file.content matches Err(message) ==> crate::file_result(file).issues.len() == 0
            && crate::file_result(file).errors == seq![
            ErrorModel { file: file.path@, kind: FileErrorKind::Read, message: message@ },
        ],
        crate::batch_result(seq![]).issues.len() == 0,
        crate::batch_result(seq![]).errors.len() == 0,
        crate::batch_result(files.push(file)).issues == crate::batch_result(files).issues
            + crate::file_result(file).issues,
        crate::batch_result(files.push(file)).errors == crate::batch_result(files).errors
            + crate::file_result(file).errors,
{
    assert(files.push(file).drop_last() =~= files);
}

/// A worker that completed without a line feed in its output has written no
/// frame: its file is reported, and nothing of the output is kept.
pub proof fn law_malformed_output_is_a_crash(
    scan: ScanModel,
    file: Seq<char>,
    c: i32,
    stdout: Seq<char>,
)
    requires
        0 <= c <= 2,
        !stdout.contains('\n'),
    ensures
        ({
            let after = scan.after_output(file, Some(c), stdout);
            &&& after.max == cli::worse(cli::worse(scan.max, c as u8), 70)
            &&& after.issue_frags == scan.issue_frags
            &&& after.error_frags == scan.error_frags.push(
                json::error_object(
                    ErrorModel {
                        file,
                        kind: FileErrorKind::Crash,
                        message: "analysis aborted: worker produced malformed output"@,
                    },
                ),
            )
        }),
{
    stdout.index_of_first_ensures('\n');
}

/// A worker that did not complete is reported with the reason, whatever it
/// wrote.
pub proof fn law_output_of_a_crash_is_dropped(
    scan: ScanModel,
    file: Seq<char>,
    c: i32,
    stdout: Seq<char>,
)
    ensures
        c < 0 || 2 < c ==> scan.after_output(file, Some(c), stdout) == scan.after_crash(
            file,
            Worker::Ended(Some(c)).error(file)->0.message,
        ),
        scan.after_output(file, None, stdout) == scan.after_crash(
            file,
            "analysis aborted: worker terminated by signal"@,
        ),
{
}

/// The document of a scan holds all fragments that were gathered, parted by
/// commas.
pub proof fn law_scan_document_holds_every_fragment(scan: ScanModel)
    ensures
        scan.document() == "{\"issues\":["@ + text::joined(scan.issue_frags, ","@)
            + "],\"errors\":["@ + text::joined(scan.error_frags, ","@) + "]}"@,
{
}

/// Joining keeps every part in order, with the separator between neighbours
/// and nowhere else.
pub proof fn law_joining_keeps_every_part(
    parts: Seq<Seq<char>>,
    part: Seq<char>,
    separator: Seq<char>,
)
    ensures
        text::joined(seq![], separator).len() == 0,
        text::joined(seq![part], separator) == part,
        parts.len() > 0 ==> text::joined(parts.push(part), separator) == text::joined(
            parts,
            separator,
        ) + separator + part,
{
    assert(parts.push(part).drop_last() =~= parts);
}

/// Arguments are read one by one, each by what it is alone, but for the path
/// behind the flag for a worker.
pub proof fn law_arguments_are_read_one_by_one(
    state: ArgsRead,
    arg: Seq<char>,
    path: Seq<char>,
    rest: Seq<Seq<char>>,
)
    ensures
        state.read(seq![]) == asked(state.positionals, state.json, state.worker_file),
        arg == "--json"@ ==> state.read(seq![arg] + rest) == (ArgsRead {
            json: true,
            ..state
        }).read(rest),
        arg == "--worker-file"@ ==> state.read(seq![arg, path] + rest) == (ArgsRead {
            worker_file: Some(path),
            ..state
        }).read(rest),
        arg == "--worker-file"@ ==> state.read(seq![arg]) == Request::Usage(
            "--worker-file"@ + " requires a path argument"@,
        ),
        arg.len() > 0 && arg[0] == '-' && arg != "--json"@ && arg != "--worker-file"@ ==> state.read(
            seq![arg] + rest,
        ) == Request::Usage("unknown flag: "@ + arg),
        arg.len() == 0 || arg[0] != '-' ==> state.read(seq![arg] + rest) == (ArgsRead {
            positionals: state.positionals.push(arg),
            ..state
        }).read(rest),
{
    lemma_flags();
    lemma_is_flag(arg);
    let one = seq![arg] + rest;
    assert(one[0] == arg);
    assert(one.skip(1) =~= rest);
    let two = seq![arg, path] + rest;
    assert(two[0] == arg && two[1] == path);
    assert(two.skip(2) =~= rest);
}

} // verus!
