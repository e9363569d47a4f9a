use litmus::cli::{
    code_after_write, error_output, parse_args, text_step, validate_scan_dir, wants_json,
    worker_output, JsonScan, Worker,
};
use litmus::files::{select_test_files, Candidate, Component};
use litmus::{analyze_files, AnalysisResult, SourceFile};

struct Output {
    code: u8,
    stdout: String,
    stderr: String,
}

/// A directory in memory. `None` stands for a file that cannot be read.
struct Dir {
    files: Vec<(String, Option<String>)>,
    aborts: Option<String>,
    never_starts: Option<String>,
    reader_leaves: bool,
}

impl Dir {
    fn new() -> Dir {
        Dir {
            files: Vec::new(),
            aborts: None,
            never_starts: None,
            reader_leaves: false,
        }
    }

    fn with(mut self, name: &str, content: &str) -> Dir {
        self.files.push((name.to_owned(), Some(content.to_owned())));
        self
    }

    fn with_unreadable(mut self, name: &str) -> Dir {
        self.files.push((name.to_owned(), None));
        self
    }
}

fn candidate(path: &str) -> Candidate {
    let name = path.rsplit('/').next().unwrap();
    let extension = match name.rfind('.') {
        None | Some(0) => None,
        Some(dot) => Some(name[dot + 1..].as_bytes().to_vec()),
    };
    Candidate {
        components: path
            .split('/')
            .map(|part| Component::Normal(part.as_bytes().to_vec()))
            .collect(),
        extension,
    }
}

fn found_by_patterns(dir: &Dir) -> Vec<&(String, Option<String>)> {
    let mut found = Vec::new();
    for infix in [".test.", ".spec."] {
        for file in &dir.files {
            if file.0.contains(infix) {
                found.push(file);
            }
        }
    }
    found
}

fn analyze(file: &(String, Option<String>)) -> AnalysisResult {
    let content = match &file.1 {
        Some(text) => Ok(text.clone()),
        None => Err("Is a directory (os error 21)".to_owned()),
    };
    analyze_files(&[SourceFile {
        path: file.0.clone(),
        content,
    }])
}

fn run(dir: &Dir, args: &[&str]) -> Output {
    let mut all = vec!["litmus".to_owned()];
    all.extend(args.iter().map(|a| (*a).to_owned()));
    match scan(dir, &all) {
        Ok(output) => output,
        Err(error) => Output {
            code: error.exit_code(),
            stdout: String::new(),
            stderr: error_output(&error, wants_json(&all)),
        },
    }
}

fn scan(dir: &Dir, args: &[String]) -> Result<Output, litmus::LitmusError> {
    let config = parse_args(args)?;
    let exists = config.dir == "." || dir.files.iter().any(|f| f.0 == config.dir);
    validate_scan_dir(&config.dir, exists, config.dir == ".")?;
    let found = found_by_patterns(dir);
    let candidates: Vec<Candidate> = found.iter().map(|f| candidate(&f.0)).collect();
    let mut stdout = String::new();
    let mut stderr = String::new();
    let mut max = litmus::EXIT_SUCCESS;
    let mut merged = JsonScan::new();
    for index in select_test_files(&candidates) {
        let file = found[index];
        let name = file.0.as_str();
        let fails = |target: &Option<String>| target.as_ref().is_some_and(|t| name.contains(t.as_str()));
        if config.json {
            if fails(&dir.never_starts) {
                merged.record_not_started(name, "forced spawn failure (test hook)");
            } else if fails(&dir.aborts) {
                merged.record_output(name, None, "");
            } else {
                let output = worker_output(&analyze(file), true);
                stderr.push_str(&output.stderr);
                merged.record_output(name, Some(i32::from(output.code)), &output.stdout.unwrap());
            }
            continue;
        }
        let worker = if fails(&dir.never_starts) {
            Worker::NotStarted("forced spawn failure (test hook)".to_owned())
        } else if fails(&dir.aborts) {
            Worker::Ended(None)
        } else {
            let output = worker_output(&analyze(file), false);
            stderr.push_str(&output.stderr);
            let code = match output.stdout {
                Some(text) => {
                    stdout.push_str(&text);
                    code_after_write(!dir.reader_leaves, output.code)
                }
                None => output.code,
            };
            Worker::Ended(Some(i32::from(code)))
        };
        let (next, error) = text_step(max, name, worker);
        max = next;
        if let Some(error) = error {
            stderr.push_str(&error.to_string());
            stderr.push('\n');
        }
    }
    if config.json {
        stdout = merged.document();
        max = code_after_write(!dir.reader_leaves, merged.max);
    }
    Ok(Output {
        code: max,
        stdout,
        stderr,
    })
}

fn litmus(dir: &Dir) -> Output {
    run(dir, &["."])
}

fn litmus_json(dir: &Dir) -> Output {
    run(dir, &["--json", "."])
}

#[test]
fn exit_2_with_issues() {
    let dir = Dir::new().with(
        "weak.test.ts",
        r#"test("weak only", () => { expect(x).toBeTruthy() })"#,
    );
    let output = litmus(&dir);
    assert_eq!(output.code, 2);
    let stdout = output.stdout;
    assert!(stdout.contains("weak-assertion"), "stdout: {stdout}");
    assert!(stdout.contains("weak.test.ts:1"), "stdout: {stdout}");
    assert!(stdout.contains("weak only"), "stdout: {stdout}");
}

#[test]
fn exit_2_mock_overuse() {
    let dir = Dir::new().with(
        "mocks.test.ts",
        r#"test("too many mocks", () => {
    const a = vi.fn()
    const b = vi.fn()
    const c = vi.fn()
    expect(result).toBe(1)
})"#,
    );
    let output = litmus(&dir);
    assert_eq!(output.code, 2);
    let stdout = output.stdout;
    assert!(stdout.contains("mock-overuse"), "stdout: {stdout}");
    assert!(
        stdout.contains("mocks: 3, assertions: 1"),
        "stdout: {stdout}"
    );
}

#[test]
fn exit_0_no_issues() {
    let dir = Dir::new().with(
        "good.test.ts",
        r#"test("returns correct user data", () => {
    expect(result).toBe(42)
    expect(name).toEqual("hello")
})"#,
    );
    let output = litmus(&dir);
    assert_eq!(output.code, 0);
    assert!(output.stdout.is_empty());
}

#[test]
fn exit_0_no_test_files() {
    let output = litmus(&Dir::new());
    assert_eq!(output.code, 0);
}

#[test]
fn parse_error_skipped_others_processed() {
    let dir = Dir::new()
        .with(
            "valid.test.ts",
            r#"test("weak", () => { expect(x).toBeTruthy() })"#,
        )
        .with("broken.test.ts", "@@@ not javascript $$$");
    let output = litmus(&dir);
    let stderr = output.stderr;
    assert!(
        stderr.contains("broken.test.ts"),
        "stderr should warn about broken file: {stderr}"
    );
    let stdout = output.stdout;
    assert!(
        stdout.contains("valid.test.ts"),
        "stdout should still report valid file issues: {stdout}"
    );
}

#[test]
fn deeply_nested_file_skipped_not_aborted() {
    let n = 4000;
    let deep = format!("const y = {}0{};", "[".repeat(n), "]".repeat(n));
    let dir = Dir::new().with("deep.test.ts", &deep).with(
        "valid.test.ts",
        r#"test("weak", () => { expect(x).toBeTruthy() })"#,
    );
    let output = litmus(&dir);
    assert_eq!(output.code, 2);
    let stderr = output.stderr;
    assert!(
        stderr.contains("deep.test.ts") && stderr.contains("parse error"),
        "stderr should report the deep file as a parse error: {stderr}"
    );
    let stdout = output.stdout;
    assert!(
        stdout.contains("valid.test.ts"),
        "sibling valid file must still be analyzed: {stdout}"
    );
}

#[test]
fn tsx_files_detected() {
    let dir = Dir::new().with(
        "comp.test.tsx",
        r#"test("tsx weak", () => { expect(x).toBeTruthy() })"#,
    );
    let output = litmus(&dir);
    assert_eq!(output.code, 2);
    let stdout = output.stdout;
    assert!(stdout.contains("comp.test.tsx"), "stdout: {stdout}");
}

#[test]
fn read_error_skipped_others_processed() {
    let dir = Dir::new()
        .with(
            "valid.test.ts",
            r#"test("weak", () => { expect(x).toBeTruthy() })"#,
        )
        .with_unreadable("unreadable.test.ts");
    let output = litmus(&dir);
    let stderr = output.stderr;
    assert!(
        stderr.contains("unreadable.test.ts"),
        "stderr should warn about unreadable file: {stderr}"
    );
    assert!(stderr.contains("litmus: read error: "), "stderr: {stderr}");
    let stdout = output.stdout;
    assert!(
        stdout.contains("valid.test.ts"),
        "valid file should still be processed: {stdout}"
    );
}

#[test]
fn excludes_node_modules() {
    let dir = Dir::new().with(
        "node_modules/zod/src/base.test.ts",
        r#"test("weak", () => { expect(x).toBeTruthy() })"#,
    );
    let output = litmus(&dir);
    assert_eq!(output.code, 0, "node_modules should be excluded");
    let stdout = output.stdout;
    assert!(stdout.is_empty(), "no output expected: {stdout}");
}

#[test]
fn detects_tautological_and_mock_only() {
    let dir = Dir::new().with(
        "behavior.test.ts",
        r#"
test("tautological", () => {
    expect(true).toBe(true)
})
test("mock only", () => {
    expect(mockFn).toHaveBeenCalledWith("/api")
    expect(mockFn).toHaveBeenCalledTimes(1)
})
"#,
    );
    let output = litmus(&dir);
    assert_eq!(output.code, 2);
    let stdout = output.stdout;
    assert!(stdout.contains("tautological"), "stdout: {stdout}");
    assert!(stdout.contains("mock-only"), "stdout: {stdout}");
}

#[test]
fn test_name_quality_short_name_detected() {
    let dir = Dir::new().with(
        "naming.test.ts",
        r#"test("should work", () => {
    expect(result).toBe(42)
})"#,
    );
    let output = litmus(&dir);
    assert_eq!(output.code, 2);
    let stdout = output.stdout;
    assert!(stdout.contains("test-name-quality"), "stdout: {stdout}");
    assert!(stdout.contains("should work"), "stdout: {stdout}");
    assert!(stdout.contains("words: 2"), "stdout: {stdout}");
}

#[test]
fn test_name_quality_good_name_passes() {
    let dir = Dir::new().with(
        "good_name.test.ts",
        r#"test("returns user by id", () => {
    expect(result).toBe(42)
})"#,
    );
    assert_eq!(litmus(&dir).code, 0);
}

#[test]
fn detects_empty_test() {
    let dir = Dir::new().with("empty.test.ts", r#"test("does nothing", () => {})"#);
    let output = litmus(&dir);
    assert_eq!(output.code, 2);
    let stdout = output.stdout;
    assert!(stdout.contains("empty-test"), "stdout: {stdout}");
}

#[test]
fn detects_skipped_test() {
    let dir = Dir::new().with(
        "skip.test.ts",
        r#"test.skip("skipped test case", () => {
    expect(result).toBe(42)
})"#,
    );
    let output = litmus(&dir);
    assert_eq!(output.code, 2);
    let stdout = output.stdout;
    assert!(stdout.contains("skipped-test"), "stdout: {stdout}");
}

#[test]
fn detects_catch_swallow() {
    let dir = Dir::new().with(
        "swallow.test.ts",
        r#"test("swallows errors silently", () => {
    try {
        riskyOperation()
        expect(result).toBe(42)
    } catch (e) {}
})"#,
    );
    let output = litmus(&dir);
    assert_eq!(output.code, 2);
    let stdout = output.stdout;
    assert!(stdout.contains("catch-swallow"), "stdout: {stdout}");
}

#[test]
fn nested_rethrow_is_not_catch_swallow() {
    let dir = Dir::new().with(
        "rethrow.test.ts",
        r#"test("rethrows error when condition holds", () => {
    try { risky() } catch (e) { if (e) { throw e } }
})"#,
    );
    let stdout = litmus(&dir).stdout;
    assert!(!stdout.contains("catch-swallow"), "stdout: {stdout}");
}

#[test]
fn detects_catch_masks_assertion() {
    let dir = Dir::new().with(
        "masks.test.ts",
        r#"test("masks the real assertion failure", () => {
    try {
        expect(actual).toBe(expected)
    } catch (e) {
        expect(e).toBeDefined()
    }
})"#,
    );
    let output = litmus(&dir);
    assert_eq!(output.code, 2);
    let stdout = output.stdout;
    assert!(stdout.contains("catch-masks-assertion"), "stdout: {stdout}");
}

#[test]
fn detects_conditional_assertion() {
    let dir = Dir::new().with(
        "conditional.test.ts",
        r#"test("only asserts conditionally", () => {
    const result = getResult()
    if (result) {
        expect(result.name).toBe("foo")
    }
})"#,
    );
    let output = litmus(&dir);
    assert_eq!(output.code, 2);
    let stdout = output.stdout;
    assert!(stdout.contains("conditional-assertion"), "stdout: {stdout}");
}

#[test]
fn detects_catch_only_assertion() {
    let dir = Dir::new().with(
        "catchonly.test.ts",
        r#"test("only asserts on error", () => {
    try {
        dangerousOp()
    } catch (e) {
        expect(e.message).toBe("fail")
    }
})"#,
    );
    let output = litmus(&dir);
    assert_eq!(output.code, 2);
    let stdout = output.stdout;
    assert!(stdout.contains("catch-only-assertion"), "stdout: {stdout}");
}

#[test]
fn empty_test_suppresses_weak_assertion() {
    let dir = Dir::new().with(
        "empty_only.test.ts",
        r#"test("empty suppresses weak", () => {})"#,
    );
    let output = litmus(&dir);
    assert_eq!(output.code, 2);
    let stdout = output.stdout;
    assert!(
        stdout.contains("empty-test"),
        "should have empty-test: {stdout}"
    );
    assert!(
        !stdout.contains("weak-assertion"),
        "should NOT have weak-assertion: {stdout}"
    );
}

#[test]
fn mixed_conditional_no_issue() {
    let dir = Dir::new().with(
        "mixed.test.ts",
        r#"test("mixed assertions are fine", () => {
    expect(base).toBe(1)
    if (condition) {
        expect(extra).toBe(2)
    }
})"#,
    );
    let output = litmus(&dir);
    assert_eq!(output.code, 0);
    let stdout = output.stdout;
    assert!(
        !stdout.contains("conditional-assertion"),
        "should NOT have conditional-assertion: {stdout}"
    );
}

#[test]
fn comment_only_body_is_empty() {
    let dir = Dir::new().with(
        "comment.test.ts",
        r#"test("placeholder with comment", () => {
    // TODO: implement this test
})"#,
    );
    let output = litmus(&dir);
    assert_eq!(output.code, 2);
    let stdout = output.stdout;
    assert!(
        stdout.contains("empty-test"),
        "should have empty-test: {stdout}"
    );
}

#[test]
fn bad_usage_too_many_positional_args() {
    let output = run(&Dir::new(), &["first", "second"]);
    assert_eq!(output.code, 64);
    let stderr = output.stderr;
    assert!(
        stderr.contains("usage error"),
        "stderr should label usage error: {stderr}"
    );
    assert!(
        stderr.contains("expected at most 1 directory argument, got 2"),
        "stderr: {stderr}"
    );
}

#[test]
fn nonexistent_path_is_usage_error() {
    let output = run(&Dir::new(), &["does_not_exist_xyz"]);
    assert_eq!(output.code, 64);
    let stderr = output.stderr;
    assert!(
        stderr.contains("does not exist"),
        "stderr should report the missing path: {stderr}"
    );
}

#[test]
fn file_path_is_usage_error() {
    let dir = Dir::new().with(
        "bad.test.ts",
        r#"test("t", () => { expect(x).toBeTruthy() })"#,
    );
    let output = run(&dir, &["bad.test.ts"]);
    assert_eq!(output.code, 64);
    let stderr = output.stderr;
    assert!(
        stderr.contains("not a directory"),
        "stderr should label the file as not a directory: {stderr}"
    );
}

#[test]
fn bad_usage_unknown_flag() {
    let output = run(&Dir::new(), &["--unknown"]);
    assert_eq!(output.code, 64);
    let stderr = output.stderr;
    assert!(
        stderr.contains("unknown flag"),
        "stderr should mention unknown flag: {stderr}"
    );
}

#[test]
fn exit_1_missing_act() {
    let dir = Dir::new().with(
        "noact.test.ts",
        r#"test("computes the discounted total", () => {
    const total = 42
    expect(total).toBe(42)
})"#,
    );
    let output = litmus(&dir);
    assert_eq!(output.code, 1);
    let stdout = output.stdout;
    assert!(stdout.contains("missing-act"), "stdout: {stdout}");
    assert!(stdout.contains("noact.test.ts:1"), "stdout: {stdout}");
}

#[test]
fn exit_1_snapshot_external() {
    let dir = Dir::new().with(
        "snapshot.test.ts",
        r#"test("renders the user card markup", () => {
    const html = render(user)
    expect(html).toMatchSnapshot()
})"#,
    );
    let output = litmus(&dir);
    assert_eq!(output.code, 1);
    let stdout = output.stdout;
    assert!(stdout.contains("snapshot-external"), "stdout: {stdout}");
    assert!(stdout.contains("snapshot.test.ts:3"), "stdout: {stdout}");
}

#[test]
fn json_mode_emits_issues_document() {
    let dir = Dir::new().with(
        "weak.test.ts",
        r#"test("weak only", () => { expect(x).toBeTruthy() })"#,
    );
    let output = litmus_json(&dir);
    assert_eq!(output.code, 2);
    let stdout = output.stdout;
    assert!(stdout.starts_with(r#"{"issues":["#), "stdout: {stdout}");
    assert!(
        stdout.contains(r#""rule":"weak-assertion""#),
        "stdout: {stdout}"
    );
    assert!(
        stdout.contains(r#""severity":"blocking""#),
        "stdout: {stdout}"
    );
    assert!(stdout.contains(r#""errors":[]"#), "stdout: {stdout}");
    assert!(output.stderr.is_empty(), "stderr: {:?}", output.stderr);
}

#[test]
fn json_mode_clean_is_empty_arrays() {
    let dir = Dir::new().with(
        "ok.test.ts",
        r#"test("returns the sum of two positive integers", () => {
    const total = add(2, 3)
    expect(total).toBe(5)
})"#,
    );
    let output = litmus_json(&dir);
    assert_eq!(output.code, 0);
    assert_eq!(output.stdout.trim_end(), r#"{"issues":[],"errors":[]}"#);
}

#[test]
fn json_mode_carries_file_errors() {
    let dir = Dir::new().with("broken.test.ts", "test(\"x\", () => {");
    let output = litmus_json(&dir);
    let stdout = output.stdout;
    assert!(stdout.contains(r#""kind":"parse""#), "stdout: {stdout}");
    assert!(stdout.contains("broken.test.ts"), "stdout: {stdout}");
    assert!(
        output.stderr.is_empty(),
        "stderr should be empty in json mode"
    );
}

#[test]
fn json_mode_usage_error_has_next_step() {
    let output = run(&Dir::new(), &["--json", "--bogus"]);
    assert_eq!(output.code, 64);
    let stderr = output.stderr;
    assert!(stderr.contains(r#""error":"usage""#), "stderr: {stderr}");
    assert!(stderr.contains(r#""next_step":"#), "stderr: {stderr}");
    assert!(
        stderr.contains(r#""candidates":["--json"]"#),
        "stderr: {stderr}"
    );
    assert!(output.stdout.is_empty(), "stdout should be empty on error");
}

#[test]
fn broken_pipe_does_not_panic() {
    let mut dir = Dir::new().with(
        "many.test.ts",
        "test(\"weak 0\", () => { expect(x).toBeTruthy() })\n",
    );
    dir.reader_leaves = true;
    assert_eq!(
        litmus(&dir).code,
        0,
        "broken pipe must stop cleanly, not exit 70"
    );
}

#[test]
fn json_mode_warning_only_exits_1() {
    let dir = Dir::new().with(
        "noact.test.ts",
        r#"test("computes the discounted total", () => {
    const total = 42
    expect(total).toBe(42)
})"#,
    );
    let output = litmus_json(&dir);
    assert_eq!(output.code, 1);
    let stdout = output.stdout;
    assert!(
        stdout.contains(r#""rule":"missing-act""#),
        "stdout: {stdout}"
    );
    assert!(stdout.contains(r#""errors":[]"#), "stdout: {stdout}");
    assert!(output.stderr.is_empty(), "stderr: {:?}", output.stderr);
}

#[test]
fn json_mode_broken_pipe_does_not_panic() {
    let mut dir = Dir::new().with(
        "many.test.ts",
        "test(\"weak 0\", () => { expect(x).toBeTruthy() })\n",
    );
    dir.reader_leaves = true;
    assert_eq!(
        litmus_json(&dir).code,
        0,
        "broken pipe must stop cleanly, not exit 70"
    );
}

fn dir_with_failing(name: &str, title: &str) -> Dir {
    Dir::new()
        .with(
            name,
            &format!("test(\"{title}\", () => {{ expect(result).toBe(1) }})"),
        )
        .with(
            "valid.test.ts",
            r#"test("weak only", () => { expect(x).toBeTruthy() })"#,
        )
}

#[test]
fn worker_abort_isolated_sibling_analyzed() {
    let mut dir = dir_with_failing("crash.test.ts", "triggers the forced abort hook");
    dir.aborts = Some("crash.test.ts".to_owned());
    let output = litmus(&dir);
    assert_eq!(output.code, 70);
    assert!(
        output.stderr.contains("crash.test.ts"),
        "crashed file must be named on stderr: {}",
        output.stderr
    );
    assert!(
        output.stdout.contains("valid.test.ts"),
        "sibling valid file must still be analyzed: {}",
        output.stdout
    );
}

#[test]
fn worker_abort_isolated_json() {
    let mut dir = dir_with_failing("crash.test.ts", "triggers the forced abort hook");
    dir.aborts = Some("crash.test.ts".to_owned());
    let output = litmus_json(&dir);
    assert_eq!(output.code, 70);
    let stdout = output.stdout;
    assert!(
        stdout.contains("crash.test.ts"),
        "crashed file must appear in the merged errors: {stdout}"
    );
    assert!(
        stdout.contains(r#""kind":"crash""#),
        "crash must be recorded as a crash-class error, distinct from parse: {stdout}"
    );
    assert!(output.stderr.is_empty(), "json mode keeps stderr empty");
}

#[test]
fn worker_spawn_failure_isolated_sibling_analyzed() {
    let mut dir = dir_with_failing("nolaunch.test.ts", "never launches its worker");
    dir.never_starts = Some("nolaunch.test.ts".to_owned());
    let output = litmus(&dir);
    assert_eq!(output.code, 70);
    assert!(
        output.stderr.contains("nolaunch.test.ts"),
        "file whose worker failed to launch must be named on stderr: {}",
        output.stderr
    );
    assert!(
        output.stdout.contains("valid.test.ts"),
        "sibling must still be analyzed despite the spawn failure: {}",
        output.stdout
    );
}

#[test]
fn worker_spawn_failure_isolated_json() {
    let mut dir = dir_with_failing("nolaunch.test.ts", "never launches its worker");
    dir.never_starts = Some("nolaunch.test.ts".to_owned());
    let output = litmus_json(&dir);
    assert_eq!(output.code, 70);
    let stdout = output.stdout;
    assert!(
        stdout.contains("nolaunch.test.ts"),
        "failed-launch file must appear in the merged errors: {stdout}"
    );
    assert!(
        stdout.contains(r#""kind":"crash""#),
        "spawn failure must be recorded as a crash-class error: {stdout}"
    );
    assert!(
        stdout.contains("valid.test.ts"),
        "sibling must still be merged despite the spawn failure: {stdout}"
    );
    assert!(output.stderr.is_empty(), "json mode keeps stderr empty");
}

#[test]
fn json_merges_issues_from_multiple_files() {
    let dir = Dir::new()
        .with(
            "a.test.ts",
            r#"test("weak only", () => { expect(x).toBeTruthy() })"#,
        )
        .with(
            "b.test.ts",
            r#"test("also weak only here", () => { expect(y).toBeTruthy() })"#,
        );
    let output = litmus_json(&dir);
    assert_eq!(output.code, 2);
    let stdout = output.stdout;
    assert!(
        stdout.starts_with(r#"{"issues":["#),
        "must be a single json document: {stdout}"
    );
    assert!(stdout.contains("a.test.ts"), "missing file a: {stdout}");
    assert!(stdout.contains("b.test.ts"), "missing file b: {stdout}");
    assert!(output.stderr.is_empty(), "json mode keeps stderr empty");
}

fn selected(names: &[&str]) -> Vec<String> {
    let candidates: Vec<Candidate> = names.iter().map(|n| candidate(n)).collect();
    select_test_files(&candidates)
        .iter()
        .map(|i| names[*i].to_owned())
        .collect()
}

#[test]
fn find_test_files_covers_spec_and_js_extensions() {
    let mut dir = Dir::new();
    for name in [
        "i.test.mts",
        "a.test.ts",
        "b.spec.ts",
        "c.test.js",
        "d.spec.jsx",
        "e.test.mjs",
        "f.test.cts",
        "g.test.tsx",
        "h.spec.cjs",
    ] {
        dir = dir.with(name, "test(\"t\", () => {})");
    }
    dir = dir
        .with("helper.ts", "export const x = 1")
        .with("node_modules/dep.test.js", "test(\"t\", () => {})")
        .with("__snapshots__/comp.test.ts.snap", "exports[`x`] = `y`;")
        .with("fixture.test.json", "{}");
    let names: Vec<&str> = found_by_patterns(&dir).iter().map(|f| f.0.as_str()).collect();
    assert_eq!(
        selected(&names),
        vec![
            "a.test.ts",
            "b.spec.ts",
            "c.test.js",
            "d.spec.jsx",
            "e.test.mjs",
            "f.test.cts",
            "g.test.tsx",
            "h.spec.cjs",
            "i.test.mts",
        ]
    );
}

#[test]
fn find_test_files_dedups_test_and_spec_infix() {
    let dir = Dir::new().with("a.test.spec.ts", "test(\"t\", () => {})");
    let names: Vec<&str> = found_by_patterns(&dir).iter().map(|f| f.0.as_str()).collect();
    assert_eq!(names.len(), 2);
    assert_eq!(selected(&names).len(), 1);
}

#[test]
fn paths_are_ordered_component_by_component() {
    assert_eq!(
        selected(&["a-b/x.test.ts", "a/z.test.ts", "a/b/c.test.ts", "a/z.test.ts"]),
        vec!["a/b/c.test.ts", "a/z.test.ts", "a-b/x.test.ts"]
    );
}

#[test]
fn kinds_of_components_come_in_order() {
    let parts = |first: Component| Candidate {
        components: vec![first, Component::Normal(b"a.test.ts".to_vec())],
        extension: Some(b"ts".to_vec()),
    };
    let candidates = vec![
        parts(Component::Normal(b"a".to_vec())),
        parts(Component::Parent),
        parts(Component::Current),
        parts(Component::Root),
        parts(Component::Prefix(b"C:".to_vec())),
    ];
    assert_eq!(select_test_files(&candidates), vec![4, 3, 2, 1, 0]);
}

#[test]
fn names_that_are_not_text_are_told_apart() {
    let named = |name: &[u8]| Candidate {
        components: vec![Component::Normal(name.to_vec())],
        extension: Some(b"ts".to_vec()),
    };
    let candidates = vec![named(&[0xff, 0x2e]), named(&[0xfe, 0x2e]), named(&[0xff, 0x2e])];
    assert_eq!(select_test_files(&candidates), vec![1, 0]);
}
