use litmus::cli::{
    classify_worker_code, code_after_write, crash_error_frag, issue_lines, parse_args,
    select_exit_code, spawn_failure_message, text_step, validate_scan_dir, wants_json,
    worker_abort_message, worker_frame, worker_output, JsonScan, Worker, WorkerOutcome,
};
use litmus::json::render_result;
use litmus::rules::Issue;
use litmus::{
    AnalysisResult, FileError, FileErrorKind, LitmusError, EXIT_BLOCKING, EXIT_SOFTWARE,
    EXIT_SUCCESS, EXIT_USAGE, EXIT_WARNING,
};

fn issue(rule: &'static str) -> Issue {
    Issue {
        rule,
        file: "test.ts".to_owned(),
        line: 1,
        test_name: "test case".to_owned(),
        detail: String::new(),
    }
}

fn args(list: &[&str]) -> Vec<String> {
    list.iter().map(|a| (*a).to_owned()).collect()
}

#[test]
fn validate_scan_dir_rejects_nonexistent_path() {
    assert!(
        matches!(
            validate_scan_dir("does_not_exist_xyz", false, false),
            Err(LitmusError::Usage(m)) if m.contains("does not exist")
        ),
        "expected a usage error naming the missing path"
    );
}

#[test]
fn validate_scan_dir_rejects_file_path() {
    assert!(
        matches!(
            validate_scan_dir("bad.test.ts", true, false),
            Err(LitmusError::Usage(m)) if m.contains("not a directory")
        ),
        "expected a usage error labeling the file as not a directory"
    );
}

#[test]
fn validate_scan_dir_accepts_existing_dir() {
    assert!(validate_scan_dir("src", true, true).is_ok());
}

#[test]
fn warning_only_exits_1() {
    let issues = vec![issue("dummy-data")];
    assert_eq!(select_exit_code(&issues), EXIT_WARNING);
}

#[test]
fn blocking_overrides_warning_exits_2() {
    let issues = vec![issue("dummy-data"), issue("weak-assertion")];
    assert_eq!(select_exit_code(&issues), EXIT_BLOCKING);
}

#[test]
fn no_issues_exits_0() {
    assert_eq!(select_exit_code(&[]), EXIT_SUCCESS);
}

#[test]
fn parse_args_accepts_json_flag_with_dir() {
    let config = parse_args(&args(&["litmus", "--json", "src"])).unwrap();
    assert!(config.json);
    assert_eq!(config.dir, "src");
}

#[test]
fn parse_args_json_only_defaults_dir() {
    let config = parse_args(&args(&["litmus", "--json"])).unwrap();
    assert!(config.json);
    assert_eq!(config.dir, ".");
}

#[test]
fn parse_args_worker_file_without_value_is_usage_error() {
    assert!(
        matches!(
            parse_args(&args(&["litmus", "--worker-file"])),
            Err(LitmusError::Usage(m)) if m.contains("--worker-file")
        ),
        "expected a usage error naming --worker-file when no value follows"
    );
}

#[test]
fn parse_args_reads_flags_in_any_order() {
    for list in [
        ["litmus", "--json", "src", "--worker-file", "a.test.ts"],
        ["litmus", "--worker-file", "a.test.ts", "src", "--json"],
        ["litmus", "src", "--worker-file", "a.test.ts", "--json"],
    ] {
        let config = parse_args(&args(&list)).unwrap();
        assert!(config.json);
        assert_eq!(config.dir, "src");
        assert_eq!(config.worker_file.as_deref(), Some("a.test.ts"));
    }
    let plain = parse_args(&[]).unwrap();
    assert!(!plain.json);
    assert_eq!(plain.dir, ".");
    assert_eq!(plain.worker_file, None);
}

#[test]
fn parse_args_takes_any_word_after_worker_file() {
    let config = parse_args(&args(&["litmus", "--worker-file", "--json"])).unwrap();
    assert!(!config.json);
    assert_eq!(config.worker_file.as_deref(), Some("--json"));
}

#[test]
fn parse_args_reports_the_first_problem() {
    assert!(matches!(
        parse_args(&args(&["litmus", "a", "b", "-x"])),
        Err(LitmusError::Usage(m)) if m == "unknown flag: -x"
    ));
    assert!(matches!(
        parse_args(&args(&["litmus", "a", "b", "c"])),
        Err(LitmusError::Usage(m)) if m == "expected at most 1 directory argument, got 3"
    ));
    assert!(matches!(
        parse_args(&args(&["litmus", "--worker-file"])),
        Err(LitmusError::Usage(m)) if m == "--worker-file requires a path argument"
    ));
}

#[test]
fn json_flag_is_seen_beside_errors() {
    assert!(wants_json(&args(&["litmus", "--bogus", "--json"])));
    assert!(!wants_json(&args(&["litmus", "--bogus"])));
}

#[test]
fn worker_code_classifier_tracks_exit_constants() {
    assert!(EXIT_SUCCESS < EXIT_WARNING);
    assert!(EXIT_WARNING < EXIT_BLOCKING);
    assert!(EXIT_BLOCKING < EXIT_SOFTWARE);
    for code in [EXIT_SUCCESS, EXIT_WARNING, EXIT_BLOCKING] {
        match classify_worker_code(Some(i32::from(code))) {
            WorkerOutcome::Code(c) => assert_eq!(c, code),
            WorkerOutcome::Crash => panic!("contract code {code} misclassified as crash"),
        }
    }
    assert!(matches!(classify_worker_code(None), WorkerOutcome::Crash));
    assert!(matches!(
        classify_worker_code(Some(i32::from(EXIT_SOFTWARE))),
        WorkerOutcome::Crash
    ));
    assert!(matches!(
        classify_worker_code(Some(i32::from(EXIT_USAGE))),
        WorkerOutcome::Crash
    ));
    assert!(matches!(
        classify_worker_code(Some(-1)),
        WorkerOutcome::Crash
    ));
}

#[test]
fn abort_messages_name_the_code() {
    assert_eq!(
        worker_abort_message(Some(101)),
        "analysis aborted: worker exited with unexpected code 101"
    );
    assert_eq!(
        worker_abort_message(Some(i32::MIN)),
        "analysis aborted: worker exited with unexpected code -2147483648"
    );
    assert_eq!(
        worker_abort_message(None),
        "analysis aborted: worker terminated by signal"
    );
    assert_eq!(
        spawn_failure_message("too many processes"),
        "analysis aborted: failed to spawn worker: too many processes"
    );
}

#[test]
fn crash_fragment_escapes_the_path() {
    assert_eq!(
        crash_error_frag("a\"b.test.ts", "gone".to_owned()),
        r#"{"file":"a\"b.test.ts","kind":"crash","message":"gone"}"#
    );
}

#[test]
fn text_mode_keeps_the_worst_code() {
    let mut max = EXIT_SUCCESS;
    let mut errors = Vec::new();
    for worker in [
        Worker::Ended(Some(1)),
        Worker::Ended(None),
        Worker::Ended(Some(2)),
        Worker::NotStarted("no memory".to_owned()),
        Worker::Ended(Some(0)),
    ] {
        let (next, error) = text_step(max, "a.test.ts", worker);
        max = next;
        errors.extend(error.map(|e| e.to_string()));
    }
    assert_eq!(max, EXIT_SOFTWARE);
    assert_eq!(
        errors,
        vec![
            "litmus: analysis error: a.test.ts: analysis aborted: worker terminated by signal",
            "litmus: analysis error: a.test.ts: analysis aborted: failed to spawn worker: no memory",
        ]
    );
}

#[test]
fn text_mode_takes_the_worst_of_two_codes() {
    assert_eq!(text_step(1, "a", Worker::Ended(Some(2))).0, EXIT_BLOCKING);
    assert_eq!(text_step(2, "a", Worker::Ended(Some(1))).0, EXIT_BLOCKING);
    assert_eq!(text_step(0, "a", Worker::Ended(Some(1))).0, EXIT_WARNING);
}

#[test]
fn merged_workers_give_the_whole_document() {
    let results = vec![
        AnalysisResult {
            issues: vec![issue("dummy-data"), issue("missing-act")],
            errors: Vec::new(),
        },
        AnalysisResult {
            issues: Vec::new(),
            errors: Vec::new(),
        },
        AnalysisResult {
            issues: Vec::new(),
            errors: vec![FileError {
                file: "b.test.ts".to_owned(),
                kind: FileErrorKind::Parse,
                message: "line\nbreak".to_owned(),
            }],
        },
        AnalysisResult {
            issues: vec![issue("weak-assertion")],
            errors: Vec::new(),
        },
    ];
    let mut scan = JsonScan::new();
    let mut whole = AnalysisResult::new();
    for result in results {
        let code = i32::from(select_exit_code(&result.issues));
        scan.record_output("x.test.ts", Some(code), &worker_frame(&result));
        whole.issues.extend(result.issues);
        whole.errors.extend(result.errors);
    }
    assert_eq!(scan.document(), render_result(&whole));
    assert_eq!(scan.max, select_exit_code(&whole.issues));
}

#[test]
fn malformed_output_is_a_crash() {
    let mut scan = JsonScan::new();
    scan.record_output("a.test.ts", Some(0), "no line feed");
    assert_eq!(scan.max, EXIT_SOFTWARE);
    assert_eq!(
        scan.document(),
        r#"{"issues":[],"errors":[{"file":"a.test.ts","kind":"crash","message":"analysis aborted: worker produced malformed output"}]}"#
    );
}

#[test]
fn output_of_a_crashed_worker_is_dropped() {
    let mut scan = JsonScan::new();
    scan.record_output("a.test.ts", Some(70), "{\"x\":1}\n");
    assert_eq!(
        scan.document(),
        r#"{"issues":[],"errors":[{"file":"a.test.ts","kind":"crash","message":"analysis aborted: worker exited with unexpected code 70"}]}"#
    );
}

#[test]
fn frame_is_split_at_its_first_line_feed() {
    let mut scan = JsonScan::new();
    scan.record_output("a.test.ts", Some(2), "one\ntwo\nthree");
    assert_eq!(scan.issue_frags, vec!["one"]);
    assert_eq!(scan.error_frags, vec!["two\nthree"]);
    assert_eq!(scan.max, EXIT_BLOCKING);
}

#[test]
fn issue_lines_end_each_line() {
    let mut second = issue("empty-test");
    second.line = 4294967295;
    second.detail = "why".to_owned();
    assert_eq!(
        issue_lines(&[issue("mock-only"), second]),
        "mock-only: test.ts:1 test case\nempty-test: test.ts:4294967295 test case (why)\n"
    );
    assert_eq!(issue_lines(&[]), "");
}

#[test]
fn closed_reader_means_success() {
    assert_eq!(code_after_write(false, EXIT_BLOCKING), EXIT_SUCCESS);
    assert_eq!(code_after_write(true, EXIT_BLOCKING), EXIT_BLOCKING);
}

#[test]
fn worker_output_depends_on_the_mode() {
    let clean = AnalysisResult::new();
    let text = worker_output(&clean, false);
    assert_eq!((text.stderr.as_str(), text.stdout, text.code), ("", None, 0));
    let json = worker_output(&clean, true);
    assert_eq!((json.stderr.as_str(), json.stdout.as_deref(), json.code), ("", Some("\n"), 0));

    let mut mixed = AnalysisResult::new();
    mixed.issues.push(issue("dummy-data"));
    mixed.errors.push(FileError {
        file: "b.test.ts".to_owned(),
        kind: FileErrorKind::Read,
        message: "gone".to_owned(),
    });
    let text = worker_output(&mixed, false);
    assert_eq!(text.stderr, "litmus: read error: b.test.ts: gone\n");
    assert_eq!(text.stdout.as_deref(), Some("dummy-data: test.ts:1 test case\n"));
    assert_eq!(text.code, EXIT_WARNING);
    let json = worker_output(&mixed, true);
    assert_eq!(json.stderr, "");
    assert_eq!(json.stdout.as_deref(), Some(worker_frame(&mixed).as_str()));
}

#[test]
fn both_modes_end_with_the_same_code() {
    let runs = [
        (Worker::Ended(Some(0)), "\n", 0),
        (Worker::Ended(Some(1)), "{}\n", 1),
        (Worker::Ended(Some(2)), "{}\n{}", 2),
        (Worker::Ended(Some(1)), "\n", 2),
        (Worker::Ended(None), "", 70),
        (Worker::NotStarted("no memory".to_owned()), "", 70),
    ];
    let mut max: u8 = 0;
    let mut scan = JsonScan::new();
    for (worker, stdout, expected) in runs {
        match &worker {
            Worker::Ended(code) => scan.record_output("a.test.ts", *code, stdout),
            Worker::NotStarted(error) => scan.record_not_started("a.test.ts", error),
        }
        max = text_step(max, "a.test.ts", worker).0;
        assert_eq!((max, scan.max), (expected, expected));
    }
}
