use litmus::parse::{
    Assertion, AssertionContext, DummyLiteral, MockCall, MockKind, TargetKind, TestBlock,
    TestModifier,
};
use litmus::rules::{
    check_catch_masks_assertion, check_catch_only_assertion, check_catch_swallow,
    check_conditional_assertion, check_dummy_data, check_empty_test, check_missing_act,
    check_mock_only, check_mock_overuse, check_skipped_test, check_snapshot_external,
    check_tautological, check_test_name, check_weak_assertions, Issue, Severity, CHECKS,
    RULE_CATALOG, WARNING_RULES,
};

fn path() -> &'static str {
    "test.ts"
}

fn block(assertions: Vec<Assertion>, mocks: Vec<MockCall>) -> TestBlock {
    TestBlock {
        name: "test case".into(),
        line: 1,
        assertions,
        mock_calls: mocks,
        modifier: None,
        has_empty_body: false,
        has_act: true,
        bound_names: Vec::new(),
        catch_swallows: Vec::new(),
        catch_masks: Vec::new(),
        dummy_literals: Vec::new(),
    }
}

fn weak_assertion(matcher: &str) -> Assertion {
    Assertion {
        line: 2,
        target: "x".into(),
        target_kind: TargetKind::Identifier,
        target_root: Some("x".into()),
        matcher: matcher.into(),
        is_weak: true,
        context: AssertionContext::TopLevel,
    }
}

fn strong_assertion() -> Assertion {
    Assertion {
        line: 2,
        target: "x".into(),
        target_kind: TargetKind::Identifier,
        target_root: Some("x".into()),
        matcher: "toBe".into(),
        is_weak: false,
        context: AssertionContext::TopLevel,
    }
}

fn mock(kind: MockKind) -> MockCall {
    MockCall { line: 2, kind }
}

#[test]
fn weak_only_detected() {
    let blocks = vec![block(vec![weak_assertion("toBeTruthy")], vec![])];
    let issues = check_weak_assertions(&blocks, path());
    assert_eq!(issues.len(), 1);
    assert_eq!(issues[0].rule, "weak-assertion");
}

#[test]
fn meaningful_present_no_issue() {
    let blocks = vec![block(vec![strong_assertion()], vec![])];
    let issues = check_weak_assertions(&blocks, path());
    assert_eq!(issues.len(), 0);
}

#[test]
fn no_assertions_detected() {
    let blocks = vec![block(vec![], vec![])];
    let issues = check_weak_assertions(&blocks, path());
    assert_eq!(issues.len(), 1);
    assert!(issues[0].detail.contains("no assertions"));
}

#[test]
fn mixed_no_issue() {
    let blocks = vec![block(
        vec![weak_assertion("toBeTruthy"), strong_assertion()],
        vec![],
    )];
    let issues = check_weak_assertions(&blocks, path());
    assert_eq!(issues.len(), 0);
}

#[test]
fn mock_overuse_detected() {
    let blocks = vec![block(
        vec![strong_assertion()],
        vec![
            mock(MockKind::ViFn),
            mock(MockKind::ViFn),
            mock(MockKind::ViFn),
        ],
    )];
    let issues = check_mock_overuse(&blocks, path());
    assert_eq!(issues.len(), 1);
    assert!(issues[0].detail.contains("mocks: 3"));
    assert!(issues[0].detail.contains("assertions: 1"));
}

#[test]
fn mock_not_overused() {
    let blocks = vec![block(
        vec![strong_assertion(), strong_assertion(), strong_assertion()],
        vec![mock(MockKind::ViFn)],
    )];
    let issues = check_mock_overuse(&blocks, path());
    assert_eq!(issues.len(), 0);
}

#[test]
fn equal_mocks_assertions_no_issue() {
    let blocks = vec![block(vec![strong_assertion()], vec![mock(MockKind::ViFn)])];
    let issues = check_mock_overuse(&blocks, path());
    assert_eq!(issues.len(), 0);
}

#[test]
fn issue_display_format() {
    let issue = Issue {
        rule: "mock-overuse",
        file: "src/test.ts".to_owned(),
        line: 10,
        test_name: "should fetch".into(),
        detail: "mocks: 3, assertions: 1".into(),
    };
    assert_eq!(
        issue.to_string(),
        "mock-overuse: src/test.ts:10 should fetch (mocks: 3, assertions: 1)"
    );
}

#[test]
fn issue_display_empty_detail() {
    let issue = Issue {
        rule: "weak-assertion",
        file: "test.ts".to_owned(),
        line: 1,
        test_name: "test case".into(),
        detail: "".into(),
    };
    assert_eq!(issue.to_string(), "weak-assertion: test.ts:1 test case");
}

fn literal_assertion(target: &str) -> Assertion {
    Assertion {
        line: 2,
        target: target.into(),
        target_kind: TargetKind::Literal,
        target_root: None,
        matcher: "toBe".into(),
        is_weak: false,
        context: AssertionContext::TopLevel,
    }
}

fn mock_matcher_assertion(matcher: &str) -> Assertion {
    Assertion {
        line: 2,
        target: "mockFn".into(),
        target_kind: TargetKind::Identifier,
        target_root: Some("mockFn".into()),
        matcher: matcher.into(),
        is_weak: false,
        context: AssertionContext::TopLevel,
    }
}

#[test]
fn tautological_literal_only() {
    let blocks = vec![block(vec![literal_assertion("true")], vec![])];
    let issues = check_tautological(&blocks, path());
    assert_eq!(issues.len(), 1);
    assert_eq!(issues[0].rule, "tautological");
    assert!(issues[0].detail.contains("true"));
}

#[test]
fn tautological_mixed_reports_literal() {
    let blocks = vec![block(
        vec![literal_assertion("true"), strong_assertion()],
        vec![],
    )];
    let issues = check_tautological(&blocks, path());
    assert_eq!(issues.len(), 1);
}

#[test]
fn tautological_no_literals() {
    let blocks = vec![block(vec![strong_assertion()], vec![])];
    let issues = check_tautological(&blocks, path());
    assert_eq!(issues.len(), 0);
}

#[test]
fn mock_only_detected() {
    let blocks = vec![block(
        vec![
            mock_matcher_assertion("toHaveBeenCalledWith"),
            mock_matcher_assertion("toHaveBeenCalledTimes"),
        ],
        vec![],
    )];
    let issues = check_mock_only(&blocks, path());
    assert_eq!(issues.len(), 1);
    assert_eq!(issues[0].rule, "mock-only");
}

#[test]
fn mock_only_mixed_no_issue() {
    let blocks = vec![block(
        vec![
            mock_matcher_assertion("toHaveBeenCalled"),
            strong_assertion(),
        ],
        vec![],
    )];
    let issues = check_mock_only(&blocks, path());
    assert_eq!(issues.len(), 0);
}

#[test]
fn mock_only_empty_no_issue() {
    let blocks = vec![block(vec![], vec![])];
    let issues = check_mock_only(&blocks, path());
    assert_eq!(issues.len(), 0);
}

#[test]
fn mock_only_return_matchers() {
    let blocks = vec![block(
        vec![mock_matcher_assertion("toHaveReturnedWith")],
        vec![],
    )];
    let issues = check_mock_only(&blocks, path());
    assert_eq!(issues.len(), 1);
}

#[test]
fn mock_only_vitest_call_and_resolve_matchers() {
    for matcher in [
        "toHaveBeenCalledOnce",
        "toHaveBeenCalledExactlyOnceWith",
        "toHaveBeenCalledBefore",
        "toHaveBeenCalledAfter",
        "toHaveResolved",
        "toHaveResolvedTimes",
        "toHaveResolvedWith",
        "toHaveLastResolvedWith",
        "toHaveNthResolvedWith",
    ] {
        let blocks = vec![block(vec![mock_matcher_assertion(matcher)], vec![])];
        let issues = check_mock_only(&blocks, path());
        assert_eq!(issues.len(), 1, "{matcher} should be mock-only");
        assert_eq!(issues[0].rule, "mock-only");
    }
}

fn named_block(name: &str) -> TestBlock {
    TestBlock {
        name: name.into(),
        line: 1,
        assertions: vec![strong_assertion()],
        mock_calls: vec![],
        modifier: None,
        has_empty_body: false,
        has_act: true,
        bound_names: Vec::new(),
        catch_swallows: Vec::new(),
        catch_masks: Vec::new(),
        dummy_literals: Vec::new(),
    }
}

#[test]
fn test_name_one_word_detected() {
    let blocks = vec![named_block("works")];
    let issues = check_test_name(&blocks, path());
    assert_eq!(issues.len(), 1);
    assert_eq!(issues[0].rule, "test-name-quality");
    assert!(issues[0].detail.contains("words: 1"));
}

#[test]
fn test_name_two_words_detected() {
    let blocks = vec![named_block("should work")];
    let issues = check_test_name(&blocks, path());
    assert_eq!(issues.len(), 1);
    assert!(issues[0].detail.contains("words: 2"));
}

#[test]
fn test_name_four_words_passes() {
    let blocks = vec![named_block("returns user by id")];
    let issues = check_test_name(&blocks, path());
    assert_eq!(issues.len(), 0);
}

#[test]
fn test_name_three_words_passes() {
    let blocks = vec![named_block("returns correct value")];
    let issues = check_test_name(&blocks, path());
    assert_eq!(issues.len(), 0);
}

#[test]
fn test_name_empty_detected() {
    let blocks = vec![named_block("")];
    let issues = check_test_name(&blocks, path());
    assert_eq!(issues.len(), 1);
    assert!(issues[0].detail.contains("words: 0"));
}

#[test]
fn test_name_mixed_blocks_only_short_reported() {
    let blocks = vec![named_block("works"), named_block("returns user by id")];
    let issues = check_test_name(&blocks, path());
    assert_eq!(issues.len(), 1);
    assert_eq!(issues[0].test_name, "works");
}

#[test]
fn test_name_camel_case_single_word() {
    let blocks = vec![named_block("getUserById")];
    let issues = check_test_name(&blocks, path());
    assert_eq!(issues.len(), 1);
    assert!(issues[0].detail.contains("words: 1"));
}

#[test]
fn test_name_whitespace_only_detected() {
    let blocks = vec![named_block("   ")];
    let issues = check_test_name(&blocks, path());
    assert_eq!(issues.len(), 1);
    assert!(issues[0].detail.contains("words: 0"));
}

fn empty_block() -> TestBlock {
    TestBlock {
        name: "test case".into(),
        line: 1,
        assertions: vec![],
        mock_calls: vec![],
        modifier: None,
        has_empty_body: true,
        has_act: false,
        bound_names: Vec::new(),
        catch_swallows: Vec::new(),
        catch_masks: Vec::new(),
        dummy_literals: Vec::new(),
    }
}

fn skipped_block(modifier: TestModifier) -> TestBlock {
    TestBlock {
        name: "test case".into(),
        line: 1,
        assertions: vec![strong_assertion()],
        mock_calls: vec![],
        modifier: Some(modifier),
        has_empty_body: false,
        has_act: true,
        bound_names: Vec::new(),
        catch_swallows: Vec::new(),
        catch_masks: Vec::new(),
        dummy_literals: Vec::new(),
    }
}

fn assertion_with_context(context: AssertionContext) -> Assertion {
    Assertion {
        line: 2,
        target: "x".into(),
        target_kind: TargetKind::Identifier,
        target_root: Some("x".into()),
        matcher: "toBe".into(),
        is_weak: false,
        context,
    }
}

#[test]
fn empty_test_detected() {
    let blocks = vec![empty_block()];
    let issues = check_empty_test(&blocks, path());
    assert_eq!(issues.len(), 1);
    assert_eq!(issues[0].rule, "empty-test");
}

#[test]
fn empty_test_non_empty_no_issue() {
    let blocks = vec![block(vec![strong_assertion()], vec![])];
    let issues = check_empty_test(&blocks, path());
    assert_eq!(issues.len(), 0);
}

#[test]
fn weak_assertion_suppressed_for_empty_body() {
    let blocks = vec![empty_block()];
    let issues = check_weak_assertions(&blocks, path());
    assert_eq!(issues.len(), 0);
}

#[test]
fn skipped_test_detected() {
    for modifier in [TestModifier::Skip, TestModifier::Todo] {
        let blocks = vec![skipped_block(modifier)];
        let issues = check_skipped_test(&blocks, path());
        assert_eq!(issues.len(), 1);
        assert_eq!(issues[0].rule, "skipped-test");
    }
}

#[test]
fn skipped_test_only_no_issue() {
    let blocks = vec![skipped_block(TestModifier::Only)];
    let issues = check_skipped_test(&blocks, path());
    assert_eq!(issues.len(), 0);
}

#[test]
fn skipped_test_none_no_issue() {
    let blocks = vec![block(vec![strong_assertion()], vec![])];
    let issues = check_skipped_test(&blocks, path());
    assert_eq!(issues.len(), 0);
}

#[test]
fn catch_swallow_detected() {
    let mut b = block(vec![strong_assertion()], vec![]);
    b.catch_swallows = vec![5];
    let issues = check_catch_swallow(&[b], path());
    assert_eq!(issues.len(), 1);
    assert_eq!(issues[0].rule, "catch-swallow");
}

#[test]
fn catch_swallow_empty_no_issue() {
    let blocks = vec![block(vec![strong_assertion()], vec![])];
    let issues = check_catch_swallow(&blocks, path());
    assert_eq!(issues.len(), 0);
}

#[test]
fn catch_masks_assertion_detected() {
    let mut b = block(vec![strong_assertion()], vec![]);
    b.catch_masks = vec![7];
    let issues = check_catch_masks_assertion(&[b], path());
    assert_eq!(issues.len(), 1);
    assert_eq!(issues[0].rule, "catch-masks-assertion");
    assert_eq!(issues[0].line, 7);
    assert_eq!(issues[0].severity(), Severity::Blocking);
}

#[test]
fn catch_masks_assertion_empty_no_issue() {
    let blocks = vec![block(vec![strong_assertion()], vec![])];
    let issues = check_catch_masks_assertion(&blocks, path());
    assert_eq!(issues.len(), 0);
}

#[test]
fn conditional_assertion_all_if() {
    let b = block(
        vec![assertion_with_context(AssertionContext::IfBranch)],
        vec![],
    );
    let issues = check_conditional_assertion(&[b], path());
    assert_eq!(issues.len(), 1);
    assert_eq!(issues[0].rule, "conditional-assertion");
}

#[test]
fn conditional_assertion_mixed_no_issue() {
    let b = block(
        vec![
            assertion_with_context(AssertionContext::TopLevel),
            assertion_with_context(AssertionContext::IfBranch),
        ],
        vec![],
    );
    let issues = check_conditional_assertion(&[b], path());
    assert_eq!(issues.len(), 0);
}

#[test]
fn conditional_assertion_all_top_no_issue() {
    let blocks = vec![block(vec![strong_assertion()], vec![])];
    let issues = check_conditional_assertion(&blocks, path());
    assert_eq!(issues.len(), 0);
}

#[test]
fn conditional_assertion_empty_no_issue() {
    let blocks = vec![block(vec![], vec![])];
    let issues = check_conditional_assertion(&blocks, path());
    assert_eq!(issues.len(), 0);
}

#[test]
fn catch_only_assertion_detected() {
    let b = block(
        vec![assertion_with_context(AssertionContext::CatchBlock)],
        vec![],
    );
    let issues = check_catch_only_assertion(&[b], path());
    assert_eq!(issues.len(), 1);
    assert_eq!(issues[0].rule, "catch-only-assertion");
}

#[test]
fn catch_only_mixed_no_issue() {
    let b = block(
        vec![
            assertion_with_context(AssertionContext::TryBlock),
            assertion_with_context(AssertionContext::CatchBlock),
        ],
        vec![],
    );
    let issues = check_catch_only_assertion(&[b], path());
    assert_eq!(issues.len(), 0);
}

#[test]
fn catch_only_empty_no_issue() {
    let blocks = vec![block(vec![], vec![])];
    let issues = check_catch_only_assertion(&blocks, path());
    assert_eq!(issues.len(), 0);
}

fn dummy_literal(value: &str, line: u32) -> DummyLiteral {
    DummyLiteral {
        value: value.into(),
        line,
    }
}

fn block_with_dummies(dummies: Vec<DummyLiteral>) -> TestBlock {
    TestBlock {
        name: "test case".into(),
        line: 1,
        assertions: vec![],
        mock_calls: vec![],
        modifier: None,
        has_empty_body: false,
        has_act: true,
        bound_names: Vec::new(),
        catch_swallows: Vec::new(),
        catch_masks: Vec::new(),
        dummy_literals: dummies,
    }
}

#[test]
fn dummy_data_one_issue_per_literal() {
    let b = block_with_dummies(vec![dummy_literal("foo", 2), dummy_literal("bar", 3)]);
    let issues = check_dummy_data(&[b], path());
    assert_eq!(issues.len(), 2);
    assert!(issues.iter().all(|i| i.rule == "dummy-data"));
    assert_eq!(issues[0].line, 2);
    assert_eq!(issues[1].line, 3);
}

#[test]
fn dummy_data_empty_no_issue() {
    let issues = check_dummy_data(&[block_with_dummies(vec![])], path());
    assert_eq!(issues.len(), 0);
}

#[test]
fn dummy_data_detail_names_value() {
    let b = block_with_dummies(vec![dummy_literal("foo", 2)]);
    let issues = check_dummy_data(&[b], path());
    assert!(issues[0].detail.contains("foo"));
}

#[test]
fn dummy_data_severity_is_warning() {
    let b = block_with_dummies(vec![dummy_literal("foo", 2)]);
    let issues = check_dummy_data(&[b], path());
    assert_eq!(issues[0].severity(), Severity::Warning);
}

#[test]
fn other_rule_severity_is_blocking() {
    let issues = check_weak_assertions(&[block(vec![], vec![])], path());
    assert_eq!(issues[0].severity(), Severity::Blocking);
}

#[test]
fn rule_catalog_has_fourteen_unique_rules() {
    assert_eq!(RULE_CATALOG.len(), 14);
    let mut sorted = RULE_CATALOG.to_vec();
    sorted.sort_unstable();
    sorted.dedup();
    assert_eq!(sorted.len(), 14, "RULE_CATALOG has duplicate rule names");
}

#[test]
fn checks_count_matches_rule_catalog() {
    assert_eq!(
        CHECKS.len(),
        RULE_CATALOG.len(),
        "CHECKS and RULE_CATALOG drifted: a rule was added to one list but not the other"
    );
}

#[test]
fn warning_rules_are_subset_of_catalog() {
    for rule in WARNING_RULES {
        assert!(
            RULE_CATALOG.contains(&rule),
            "warning rule {rule} missing from RULE_CATALOG"
        );
    }
}

#[test]
fn all_warning_rules_resolve_to_warning() {
    for rule in WARNING_RULES {
        let issue = Issue {
            rule,
            file: path().to_owned(),
            line: 1,
            test_name: "case".to_owned(),
            detail: String::new(),
        };
        assert_eq!(
            issue.severity(),
            Severity::Warning,
            "rule {rule} should warn"
        );
    }
}

fn act_block(has_act: bool, bound: &[&str], assertions: Vec<Assertion>) -> TestBlock {
    TestBlock {
        name: "test case".into(),
        line: 1,
        assertions,
        mock_calls: Vec::new(),
        modifier: None,
        has_empty_body: false,
        has_act,
        bound_names: bound.iter().map(|s| (*s).to_owned()).collect(),
        catch_swallows: Vec::new(),
        catch_masks: Vec::new(),
        dummy_literals: Vec::new(),
    }
}

#[test]
fn missing_act_arrange_only_detected() {
    let blocks = vec![act_block(false, &["x"], vec![strong_assertion()])];
    let issues = check_missing_act(&blocks, path());
    assert_eq!(issues.len(), 1);
    assert_eq!(issues[0].rule, "missing-act");
    assert!(issues[0].detail.contains("no Act"));
}

#[test]
fn missing_act_with_act_no_issue() {
    let blocks = vec![act_block(true, &["x"], vec![strong_assertion()])];
    let issues = check_missing_act(&blocks, path());
    assert_eq!(issues.len(), 0);
}

#[test]
fn missing_act_no_local_binding_no_issue() {
    let blocks = vec![act_block(false, &[], vec![strong_assertion()])];
    let issues = check_missing_act(&blocks, path());
    assert_eq!(issues.len(), 0);
}

#[test]
fn missing_act_assertion_targets_unbound_name_no_issue() {
    let blocks = vec![act_block(false, &["expected"], vec![strong_assertion()])];
    let issues = check_missing_act(&blocks, path());
    assert_eq!(issues.len(), 0);
}

#[test]
fn missing_act_weak_only_defers() {
    let blocks = vec![act_block(false, &["x"], vec![weak_assertion("toBeTruthy")])];
    let issues = check_missing_act(&blocks, path());
    assert_eq!(issues.len(), 0);
}

#[test]
fn missing_act_literal_target_defers() {
    let blocks = vec![act_block(false, &["lit"], vec![literal_assertion("42")])];
    let issues = check_missing_act(&blocks, path());
    assert_eq!(issues.len(), 0);
}

#[test]
fn missing_act_empty_body_no_issue() {
    let issues = check_missing_act(&[empty_block()], path());
    assert_eq!(issues.len(), 0);
}

#[test]
fn missing_act_severity_is_warning() {
    let blocks = vec![act_block(false, &["x"], vec![strong_assertion()])];
    let issues = check_missing_act(&blocks, path());
    assert_eq!(issues[0].severity(), Severity::Warning);
}

fn snapshot_assertion(matcher: &str, line: u32) -> Assertion {
    Assertion {
        line,
        target: "x".into(),
        target_kind: TargetKind::Identifier,
        target_root: Some("x".into()),
        matcher: matcher.into(),
        is_weak: false,
        context: AssertionContext::TopLevel,
    }
}

#[test]
fn snapshot_external_detects_to_match_snapshot() {
    let blocks = vec![block(
        vec![snapshot_assertion("toMatchSnapshot", 7)],
        vec![],
    )];
    let issues = check_snapshot_external(&blocks, path());
    assert_eq!(issues.len(), 1);
    assert_eq!(issues[0].rule, "snapshot-external");
    assert_eq!(issues[0].line, 7);
    assert_eq!(issues[0].detail, "matcher: toMatchSnapshot");
}

#[test]
fn snapshot_external_ignores_inline_snapshot() {
    let blocks = vec![block(
        vec![snapshot_assertion("toMatchInlineSnapshot", 2)],
        vec![],
    )];
    let issues = check_snapshot_external(&blocks, path());
    assert_eq!(issues.len(), 0);
}

#[test]
fn snapshot_external_ignores_regular_matcher() {
    let blocks = vec![block(vec![strong_assertion()], vec![])];
    let issues = check_snapshot_external(&blocks, path());
    assert_eq!(issues.len(), 0);
}

#[test]
fn snapshot_external_reports_each_assertion() {
    let blocks = vec![block(
        vec![
            snapshot_assertion("toMatchSnapshot", 3),
            snapshot_assertion("toMatchSnapshot", 5),
        ],
        vec![],
    )];
    let issues = check_snapshot_external(&blocks, path());
    assert_eq!(issues.len(), 2);
    assert_eq!(issues[1].line, 5);
}

#[test]
fn snapshot_external_severity_is_warning() {
    let blocks = vec![block(
        vec![snapshot_assertion("toMatchSnapshot", 2)],
        vec![],
    )];
    let issues = check_snapshot_external(&blocks, path());
    assert_eq!(issues[0].severity(), Severity::Warning);
}
