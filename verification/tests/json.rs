use litmus::json::{escape, render_error, render_result};
use litmus::rules::Issue;
use litmus::{AnalysisResult, FileError, FileErrorKind, LitmusError};

#[test]
fn escape_covers_json_string_hazards() {
    assert_eq!(escape("a\"b"), "a\\\"b");
    assert_eq!(escape("a\\b"), "a\\\\b");
    assert_eq!(escape("a\nb"), "a\\nb");
    assert_eq!(escape("a\tb"), "a\\tb");
    assert_eq!(escape("a\u{01}b"), "a\\u0001b");
}

#[test]
fn render_result_empty_has_empty_arrays() {
    let result = AnalysisResult {
        issues: Vec::new(),
        errors: Vec::new(),
    };
    assert_eq!(render_result(&result), r#"{"issues":[],"errors":[]}"#);
}

#[test]
fn render_result_one_issue() {
    let result = AnalysisResult {
        issues: vec![Issue {
            rule: "weak-assertion",
            file: "a.test.ts".to_owned(),
            line: 7,
            test_name: "checks \"x\"".to_owned(),
            detail: String::new(),
        }],
        errors: Vec::new(),
    };
    assert_eq!(
        render_result(&result),
        r#"{"issues":[{"rule":"weak-assertion","severity":"blocking","file":"a.test.ts","line":7,"test_name":"checks \"x\"","detail":""}],"errors":[]}"#
    );
}

#[test]
fn render_result_with_file_error() {
    let result = AnalysisResult {
        issues: Vec::new(),
        errors: vec![FileError {
            file: "b.test.ts".to_owned(),
            kind: FileErrorKind::Parse,
            message: "unexpected token".to_owned(),
        }],
    };
    assert_eq!(
        render_result(&result),
        r#"{"issues":[],"errors":[{"file":"b.test.ts","kind":"parse","message":"unexpected token"}]}"#
    );
}

#[test]
fn render_result_with_crash_error() {
    let result = AnalysisResult {
        issues: Vec::new(),
        errors: vec![FileError {
            file: "c.test.ts".to_owned(),
            kind: FileErrorKind::Crash,
            message: "analysis aborted: worker terminated by signal".to_owned(),
        }],
    };
    assert_eq!(
        render_result(&result),
        r#"{"issues":[],"errors":[{"file":"c.test.ts","kind":"crash","message":"analysis aborted: worker terminated by signal"}]}"#
    );
}

#[test]
fn render_error_usage_has_next_step_and_candidates() {
    let e = LitmusError::Usage("unknown flag: --foo".to_owned());
    assert_eq!(
        render_error(&e),
        r#"{"error":"usage","message":"unknown flag: --foo","next_step":"Pass at most one directory path; the only accepted flag is --json.","candidates":["--json"]}"#
    );
}

#[test]
fn render_error_internal_has_empty_candidates() {
    let e = LitmusError::Internal("unexpected panic".to_owned());
    assert_eq!(
        render_error(&e),
        r#"{"error":"internal","message":"unexpected panic","next_step":"Rerun to confirm reproducibility, then report it as a litmus bug.","candidates":[]}"#
    );
}
