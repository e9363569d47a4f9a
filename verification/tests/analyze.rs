use litmus::analyze_source;

#[test]
fn returns_issues_for_parseable_source() {
    let source = "test(\"checks\", () => { expect(x).toBeTruthy(); });";
    let issues = analyze_source(source, "a.test.ts").expect("parses");
    assert!(
        issues.iter().any(|i| i.rule == "weak-assertion"),
        "expected weak-assertion, got: {:?}",
        issues.iter().map(|i| i.rule).collect::<Vec<_>>()
    );
}

#[test]
fn returns_err_for_unparseable_source() {
    let source = "const = ;";
    assert!(analyze_source(source, "broken.test.ts").is_err());
}
