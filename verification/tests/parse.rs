use litmus::parse::{
    parse_test_file, AssertionContext, MockKind, TargetKind, TestBlock, TestModifier,
};
use litmus::parser::BRACKET_DEPTH_LIMIT;
use litmus::rules::{check_missing_act, check_weak_assertions};
use litmus::source::{max_bracket_depth, Source};

fn parse(source: &str) -> Vec<TestBlock> {
    parse_test_file(source, "test.tsx").unwrap()
}

fn naive_offset_to_line(source: &str, offset: u32) -> u32 {
    let end = (offset as usize).min(source.len());
    let count = source[..end].bytes().filter(|&b| b == b'\n').count();
    u32::try_from(count).unwrap_or(u32::MAX).saturating_add(1)
}

#[test]
fn source_line_handles_boundaries() {
    assert_eq!(Source::new("").line(0), 1);
    let s = "a\nb\nc";
    assert_eq!(Source::new(s).line(0), 1); // first char
    assert_eq!(Source::new(s).line(2), 2); // 'b', after first '\n'
    assert_eq!(Source::new(s).line(1), 1); // exactly on '\n' is not counted
    assert_eq!(Source::new("a\nb").line(100), 2);
    assert_eq!(Source::new("x\ny").line(2), 2);
}

#[test]
fn source_line_matches_naive_over_all_offsets() {
    let cases = [
        "",
        "\n",
        "no newlines here",
        "a\nb\nc\n",
        "\n\n\n",
        "line1\nline2\nline3",
        "trailing\n",
        "α\nβ\nγ", // multibyte: offsets are byte positions
    ];
    for source in cases {
        let index = Source::new(source);
        let len = u32::try_from(source.len()).unwrap();
        for offset in 0..=len + 2 {
            if (offset as usize) <= source.len() && !source.is_char_boundary(offset as usize) {
                continue;
            }
            assert_eq!(
                index.line(offset),
                naive_offset_to_line(source, offset),
                "offset {offset} in {source:?}"
            );
        }
    }
}

#[test]
fn max_bracket_depth_counts_deepest_nesting() {
    assert_eq!(max_bracket_depth("[[[a]]]"), 3);
    assert_eq!(max_bracket_depth("f({ a: [1] })"), 3);
    assert_eq!(max_bracket_depth("))]]}"), 0);
    assert_eq!(max_bracket_depth(""), 0);
}

#[test]
fn rejects_input_deeper_than_bracket_limit() {
    let n = BRACKET_DEPTH_LIMIT + 1;
    let source = format!("const y = {}x{};", "[".repeat(n), "]".repeat(n));
    let err = parse_test_file(&source, "test.ts").unwrap_err();
    assert!(err.contains("nesting depth"), "err: {err}");
}

#[test]
fn depth_at_limit_is_not_over() {
    let n = BRACKET_DEPTH_LIMIT;
    let source = format!("{}x{}", "[".repeat(n), "]".repeat(n));
    assert_eq!(max_bracket_depth(&source), BRACKET_DEPTH_LIMIT);
    assert!(max_bracket_depth(&source) <= BRACKET_DEPTH_LIMIT);
}

#[test]
fn parses_simple_test_block() {
    let blocks = parse(r#"test("should work", () => { expect(result).toBe(1) })"#);
    assert_eq!(blocks.len(), 1);
    assert_eq!(blocks[0].name, "should work");
    assert_eq!(blocks[0].assertions.len(), 1);
    assert_eq!(blocks[0].assertions[0].matcher, "toBe");
    assert!(!blocks[0].assertions[0].is_weak);
}

#[test]
fn parses_it_as_test() {
    let blocks = parse(r#"it("works", () => { expect(x).toBe(1) })"#);
    assert_eq!(blocks.len(), 1);
    assert_eq!(blocks[0].name, "works");
}

#[test]
fn parses_nested_describe() {
    let source = r#"
describe("outer", () => {
describe("inner", () => {
    test("works", () => {
        expect(x).toBe(1)
    })
})
})"#;
    let blocks = parse(source);
    assert_eq!(blocks.len(), 1);
    assert_eq!(blocks[0].name, "works");
}

#[test]
fn classifies_weak_assertion() {
    let blocks = parse(r#"test("x", () => { expect(x).toBeTruthy() })"#);
    assert!(blocks[0].assertions[0].is_weak);
}

#[test]
fn classifies_strong_assertion() {
    let blocks = parse(r#"test("x", () => { expect(x).toBe(42) })"#);
    assert!(!blocks[0].assertions[0].is_weak);
}

#[test]
fn captures_to_match_snapshot_matcher() {
    let blocks = parse(r#"test("x", () => { expect(x).toMatchSnapshot() })"#);
    assert_eq!(blocks[0].assertions[0].matcher, "toMatchSnapshot");
    assert!(!blocks[0].assertions[0].is_weak);
}

#[test]
fn captures_to_match_inline_snapshot_matcher() {
    let blocks = parse(r#"test("x", () => { expect(x).toMatchInlineSnapshot(`1`) })"#);
    assert_eq!(blocks[0].assertions[0].matcher, "toMatchInlineSnapshot");
}

#[test]
fn assert_equal_in_test_callback_counts_as_assertion_no_weak_assertion() {
    let source = r#"test("name", async () => { assert.equal(result, 5); })"#;
    let blocks = parse(source);
    assert!(!blocks[0].assertions.is_empty());
    let issues = check_weak_assertions(&blocks, "a.ts");
    assert!(
        !issues.iter().any(|i| i.rule == "weak-assertion"),
        "expected no weak-assertion, got: {:?}",
        issues.iter().map(|i| i.rule).collect::<Vec<_>>()
    );
}

#[test]
fn bare_assert_x_is_weak_assertion() {
    let blocks = parse(r#"test("name", () => { assert(cond); })"#);
    assert_eq!(blocks[0].assertions.len(), 1);
    assert!(blocks[0].assertions[0].is_weak);
}

#[test]
fn assert_strictequal_is_strong_assertion() {
    let blocks = parse(r#"test("name", () => { assert.strictEqual(a, b); })"#);
    assert_eq!(blocks[0].assertions.len(), 1);
    assert!(!blocks[0].assertions[0].is_weak);
}

#[test]
fn assert_ok_only_fires_weak_assertion() {
    let blocks = parse(r#"test("name", () => { assert.ok(v); })"#);
    let issues = check_weak_assertions(&blocks, "a.ts");
    assert!(
        issues
            .iter()
            .any(|i| i.rule == "weak-assertion" && i.detail.contains("only weak")),
        "expected weak-assertion with 'only weak' detail, got: {:?}",
        issues
    );
}

#[test]
fn assert_fail_message_is_not_the_target() {
    let blocks = parse(r#"test("name", () => { assert.fail("should not reach here"); })"#);
    assert_eq!(blocks[0].assertions.len(), 1);
    let assertion = &blocks[0].assertions[0];
    assert!(assertion.is_weak, "assert.fail must be classified as weak");
    assert_eq!(
        assertion.target, "",
        "assert.fail's message must not be recorded as the target"
    );
    assert_eq!(assertion.target_kind, TargetKind::Other);
}

#[test]
fn assert_only_callback_has_no_act() {
    let blocks = parse(r#"test("name", () => { assert.equal(result, 1); })"#);
    assert!(
        !blocks[0].has_act,
        "assert.equal alone must not be classified as an Act call"
    );
}

#[test]
fn assert_on_arranged_value_fires_missing_act() {
    let blocks = parse(r#"test("name", () => { const r = 5; assert.equal(r, 5); })"#);
    let issues = check_missing_act(&blocks, "a.ts");
    assert!(
        issues.iter().any(|i| i.rule == "missing-act"),
        "expected missing-act, got: {:?}",
        issues.iter().map(|i| i.rule).collect::<Vec<_>>()
    );
}

#[test]
fn mixed_weak_and_strong() {
    let source = r#"test("x", () => {
        expect(x).toBeTruthy()
        expect(y).toBe(1)
    })"#;
    let blocks = parse(source);
    assert_eq!(blocks[0].assertions.len(), 2);
    assert!(blocks[0].assertions[0].is_weak);
    assert!(!blocks[0].assertions[1].is_weak);
}

#[test]
fn collects_assertion_inside_foreach_callback() {
    let source = r#"test("table", () => {
        const cases = [{ a: 1, b: 2 }];
        cases.forEach(({ a, b }) => {
            expect(a + 1).toBe(b)
        })
    })"#;
    let blocks = parse(source);
    assert_eq!(blocks[0].assertions.len(), 1);
    assert_eq!(blocks[0].assertions[0].matcher, "toBe");
}

#[test]
fn collects_assertion_inside_waitfor_callback() {
    let source = r#"test("async", async () => {
        await waitFor(() => {
            expect(screen.getByText("ok")).toBeTruthy()
        })
    })"#;
    let blocks = parse(source);
    assert_eq!(blocks[0].assertions.len(), 1);
    assert!(!blocks[0].assertions[0].is_weak);
}

#[test]
fn throwing_query_arg_is_not_weak() {
    let member = parse(
        r#"test("found", () => {
        expect(screen.getByText("ok")).toBeTruthy()
    })"#,
    );
    assert!(!member[0].assertions[0].is_weak);

    let bare = parse(
        r#"test("found", () => {
        expect(getAllByRole("button")).toBeTruthy()
    })"#,
    );
    assert!(!bare[0].assertions[0].is_weak);

    let awaited = parse(
        r#"test("found", async () => {
        expect(await screen.findByText("ok")).toBeTruthy()
    })"#,
    );
    assert!(!awaited[0].assertions[0].is_weak);
}

#[test]
fn query_by_arg_stays_weak() {
    let blocks = parse(
        r#"test("maybe", () => {
        expect(screen.queryByText("ok")).toBeTruthy()
    })"#,
    );
    assert!(blocks[0].assertions[0].is_weak);
}

#[test]
fn non_query_call_arg_stays_weak() {
    let blocks = parse(
        r#"test("maybe", () => {
        expect(factory()()).toBeTruthy()
    })"#,
    );
    assert!(blocks[0].assertions[0].is_weak);
}

#[test]
fn arg_less_expect_stays_weak() {
    let blocks = parse(
        r#"test("empty", () => {
        expect().toBeTruthy()
    })"#,
    );
    assert_eq!(blocks[0].assertions.len(), 1);
    assert!(blocks[0].assertions[0].is_weak);
}

#[test]
fn recognizes_it_each_double_call() {
    let source = r#"it.each([[1, 2], [2, 3]])("adds %i", (a, b) => {
        expect(a).toBe(b)
    })"#;
    let blocks = parse(source);
    assert_eq!(blocks.len(), 1);
    assert_eq!(blocks[0].name, "adds %i");
    assert_eq!(blocks[0].assertions.len(), 1);
}

#[test]
fn recognizes_describe_each_double_call() {
    let source = r#"describe.each([[1], [2]])("group %i", (n) => {
        it("works", () => {
            expect(n).toBe(n)
        })
    })"#;
    let blocks = parse(source);
    assert_eq!(blocks.len(), 1);
    assert_eq!(blocks[0].name, "works");
}

#[test]
fn collects_callback_in_three_arg_test() {
    let source = r#"test("opts", { timeout: 1000 }, () => {
        expect(x).toBe(1)
    })"#;
    let blocks = parse(source);
    assert_eq!(blocks.len(), 1);
    assert_eq!(blocks[0].assertions.len(), 1);
}

#[test]
fn does_not_descend_into_uncalled_helper_definition() {
    let source = r#"test("defines but never asserts", () => {
        const helper = () => { expect(x).toBe(1) };
    })"#;
    let blocks = parse(source);
    assert_eq!(blocks[0].assertions.len(), 0);
}

#[test]
fn foreach_callback_keeps_act_visible() {
    let source = r#"test("acc", () => {
        const acc = [];
        arr.forEach((x) => {
            acc.push(x)
            expect(acc).toContain(x)
        })
    })"#;
    let blocks = parse(source);
    assert!(!blocks[0].assertions.is_empty());
    assert!(blocks[0].has_act);
}

#[test]
fn records_catch_swallow_inside_callback() {
    let source = r#"test("x", () => {
        items.forEach(() => {
            try { doThing() } catch {}
        })
    })"#;
    let blocks = parse(source);
    assert_eq!(blocks[0].catch_swallows.len(), 1);
}

#[test]
fn recognizes_test_each_double_call() {
    let source = r#"test.each([[1, 2]])("adds %i", (a, b) => {
        expect(a).toBe(b)
    })"#;
    let blocks = parse(source);
    assert_eq!(blocks.len(), 1);
    assert_eq!(blocks[0].assertions.len(), 1);
}

#[test]
fn records_mock_inside_callback() {
    let source = r#"test("x", () => {
        arr.forEach(() => {
            const m = vi.fn()
        })
    })"#;
    let blocks = parse(source);
    assert_eq!(blocks[0].mock_calls.len(), 1);
}

#[test]
fn records_dummy_inside_callback() {
    let source = r#"test("x", () => {
        arr.forEach(() => {
            build("foo")
        })
    })"#;
    let blocks = parse(source);
    assert_eq!(blocks[0].dummy_literals.len(), 1);
}

#[test]
fn collects_assertion_in_nested_callback() {
    let source = r#"test("x", () => {
        outer.forEach(() => {
            inner.forEach(() => {
                expect(a).toBe(b)
            })
        })
    })"#;
    let blocks = parse(source);
    assert_eq!(blocks[0].assertions.len(), 1);
}

#[test]
fn non_test_each_double_call_is_not_a_block() {
    let source = r#"db.each(rows)((row) => {
        expect(row).toBe(1)
    })"#;
    let blocks = parse(source);
    assert!(blocks.is_empty());
}

#[test]
fn counts_mocks_and_assertions() {
    let source = r#"test("x", () => {
        const a = vi.fn()
        const b = vi.fn()
        const c = vi.fn()
        expect(result).toBe(1)
    })"#;
    let blocks = parse(source);
    assert_eq!(blocks[0].mock_calls.len(), 3);
    assert_eq!(blocks[0].assertions.len(), 1);
}

#[test]
fn counts_spy_and_mock() {
    let source = r#"test("x", () => {
        vi.spyOn(obj, "method")
        vi.mock("./module")
        expect(result).toBe(1)
    })"#;
    let blocks = parse(source);
    assert_eq!(blocks[0].mock_calls.len(), 2);
    assert_eq!(blocks[0].mock_calls[0].kind, MockKind::ViSpyOn);
    assert_eq!(blocks[0].mock_calls[1].kind, MockKind::ViMock);
}

#[test]
fn detects_bun_mock() {
    let source = r#"test("x", () => {
        const mockFn = mock(() => 42)
        expect(mockFn()).toBe(42)
    })"#;
    let blocks = parse(source);
    assert_eq!(blocks[0].mock_calls.len(), 1);
    assert_eq!(blocks[0].mock_calls[0].kind, MockKind::BunMock);
}

#[test]
fn detects_chained_mock() {
    let source = r#"test("x", () => {
        const mockFn = vi.fn().mockReturnValue(42)
        expect(mockFn()).toBe(42)
    })"#;
    let blocks = parse(source);
    assert_eq!(blocks[0].mock_calls.len(), 1);
    assert_eq!(blocks[0].mock_calls[0].kind, MockKind::ViFn);
}

#[test]
fn handles_not_modifier() {
    let source = r#"test("x", () => { expect(x).not.toBe(42) })"#;
    let blocks = parse(source);
    assert_eq!(blocks[0].assertions.len(), 1);
    assert_eq!(blocks[0].assertions[0].matcher, "toBe");
    assert!(!blocks[0].assertions[0].is_weak);
}

#[test]
fn classifies_weak_matchers() {
    for matcher in ["toBeTruthy", "toBeDefined", "toBeFalsy"] {
        let source = format!(r#"test("x", () => {{ expect(x).{matcher}() }})"#);
        let blocks = parse(&source);
        assert!(blocks[0].assertions[0].is_weak, "{matcher} should be weak");
    }
}

#[test]
fn tobenull_tobeundefined_not_weak() {
    for matcher in ["toBeNull", "toBeUndefined"] {
        let source = format!(r#"test("x", () => {{ expect(x).{matcher}() }})"#);
        let blocks = parse(&source);
        assert!(
            !blocks[0].assertions[0].is_weak,
            "{matcher} should not be weak"
        );
    }
}

#[test]
fn parses_function_callback() {
    let blocks = parse(r#"test("x", function() { expect(x).toBe(1) })"#);
    assert_eq!(blocks.len(), 1);
    assert_eq!(blocks[0].assertions.len(), 1);
}

#[test]
fn parses_describe_function_callback() {
    let source = r#"describe("suite", function() {
        test("x", () => { expect(x).toBe(1) })
    })"#;
    let blocks = parse(source);
    assert_eq!(blocks.len(), 1);
}

#[test]
fn correct_line_number() {
    let source = "// line 1\n// line 2\ntest(\"x\", () => { expect(x).toBe(1) })";
    let blocks = parse(source);
    assert_eq!(blocks[0].line, 3);
}

#[test]
fn recognizes_jest_mock_members() {
    let source = r#"test("x", () => {
        jest.fn()
        jest.mock("./module")
        jest.spyOn(obj, "method")
        expect(x).toBe(1)
    })"#;
    let blocks = parse(source);
    assert_eq!(blocks[0].mock_calls.len(), 3);
    assert_eq!(blocks[0].mock_calls[0].kind, MockKind::ViFn);
    assert_eq!(blocks[0].mock_calls[1].kind, MockKind::ViMock);
    assert_eq!(blocks[0].mock_calls[2].kind, MockKind::ViSpyOn);
}

#[test]
fn jest_mock_only_body_has_no_act() {
    let blocks = parse(r#"test("x", () => { jest.fn() })"#);
    assert!(!blocks[0].has_act);
}

#[test]
fn ignores_unrelated_member_fn() {
    let source = r#"test("x", () => {
        foo.fn()
        expect(x).toBe(1)
    })"#;
    let blocks = parse(source);
    assert_eq!(blocks[0].mock_calls.len(), 0);
}

#[test]
fn finds_assertions_in_if_block() {
    let source = r#"test("x", () => {
        if (condition) {
            expect(x).toBe(1)
        }
    })"#;
    let blocks = parse(source);
    assert_eq!(blocks[0].assertions.len(), 1);
}

#[test]
fn finds_assertions_in_try_catch() {
    let source = r#"test("x", () => {
        try {
            expect(x).toBe(1)
        } catch (e) {
            expect(e).toBeDefined()
        }
    })"#;
    let blocks = parse(source);
    assert_eq!(blocks[0].assertions.len(), 2);
}

#[test]
fn finds_assertions_in_for_loop() {
    let source = r#"test("x", () => {
        for (const item of items) {
            expect(item).toBeTruthy()
        }
    })"#;
    let blocks = parse(source);
    assert_eq!(blocks[0].assertions.len(), 1);
}

#[test]
fn recognizes_describe_only() {
    let source = r#"describe.only("suite", () => {
        test("x", () => { expect(x).toBe(1) })
    })"#;
    let blocks = parse(source);
    assert_eq!(blocks.len(), 1);
}

#[test]
fn handles_resolves_modifier() {
    let source = r#"test("x", async () => { await expect(promise).resolves.toBe(42) })"#;
    let blocks = parse(source);
    assert_eq!(blocks[0].assertions.len(), 1);
    assert_eq!(blocks[0].assertions[0].matcher, "toBe");
    assert_eq!(blocks[0].assertions[0].target, "promise");
    assert!(!blocks[0].assertions[0].is_weak);
}

#[test]
fn handles_rejects_modifier() {
    let source = r#"test("x", async () => { await expect(badCall()).rejects.toThrow("err") })"#;
    let blocks = parse(source);
    assert_eq!(blocks[0].assertions.len(), 1);
    assert_eq!(blocks[0].assertions[0].matcher, "toThrow");
    assert_eq!(blocks[0].assertions[0].target, "badCall()");
}

#[test]
fn captures_assertion_target() {
    let blocks = parse(r#"test("x", () => { expect(fetchUser(id)).toBe(42) })"#);
    assert_eq!(blocks[0].assertions[0].target, "fetchUser(id)");
}

#[test]
fn skips_template_literal_test_names() {
    let source = "test(`dynamic ${name}`, () => { expect(x).toBe(1) })";
    let blocks = parse(source);
    assert_eq!(blocks.len(), 0);
}

#[test]
fn target_kind_classification() {
    let cases: Vec<(&str, TargetKind)> = vec![
        (
            r#"test("x", () => { expect(true).toBe(true) })"#,
            TargetKind::Literal,
        ),
        (
            r#"test("x", () => { expect(42).toBe(42) })"#,
            TargetKind::Literal,
        ),
        (
            r#"test("x", () => { expect("hello").toEqual("hello") })"#,
            TargetKind::Literal,
        ),
        (
            r#"test("x", () => { expect(null).toBeNull() })"#,
            TargetKind::Literal,
        ),
        (
            r#"test("x", () => { expect(result).toBe(42) })"#,
            TargetKind::Identifier,
        ),
        (
            r#"test("x", () => { expect(fetchUser(1)).toBe(42) })"#,
            TargetKind::CallResult,
        ),
        (
            r#"test("x", () => { expect(obj.prop).toBe(42) })"#,
            TargetKind::Other,
        ),
        (
            r#"test("x", async () => { expect(await fn()).toBe(1) })"#,
            TargetKind::CallResult,
        ),
        (
            r#"test("x", () => { expect((result)).toBe(1) })"#,
            TargetKind::Identifier,
        ),
    ];
    for (source, expected) in cases {
        let blocks = parse(source);
        assert_eq!(
            blocks[0].assertions[0].target_kind, expected,
            "source: {source}"
        );
    }
}

#[test]
fn modifier_test_skip() {
    let blocks = parse(r#"test.skip("x", () => { expect(x).toBe(1) })"#);
    assert_eq!(blocks.len(), 1);
    assert_eq!(blocks[0].modifier, Some(TestModifier::Skip));
}

#[test]
fn modifier_test_todo() {
    let blocks = parse(r#"test.todo("x")"#);
    assert_eq!(blocks.len(), 1);
    assert_eq!(blocks[0].modifier, Some(TestModifier::Todo));
}

#[test]
fn modifier_test_only() {
    let blocks = parse(r#"test.only("x", () => { expect(x).toBe(1) })"#);
    assert_eq!(blocks.len(), 1);
    assert_eq!(blocks[0].modifier, Some(TestModifier::Only));
}

#[test]
fn modifier_plain_test() {
    let blocks = parse(r#"test("x", () => { expect(x).toBe(1) })"#);
    assert_eq!(blocks[0].modifier, None);
}

#[test]
fn modifier_it_skip() {
    let blocks = parse(r#"it.skip("x", () => { expect(x).toBe(1) })"#);
    assert_eq!(blocks.len(), 1);
    assert_eq!(blocks[0].modifier, Some(TestModifier::Skip));
}

#[test]
fn context_top_level() {
    let blocks = parse(r#"test("x", () => { expect(x).toBe(1) })"#);
    assert_eq!(blocks[0].assertions[0].context, AssertionContext::TopLevel);
}

#[test]
fn context_if_branch() {
    let source = r#"test("x", () => {
        if (condition) {
            expect(x).toBe(1)
        }
    })"#;
    let blocks = parse(source);
    assert_eq!(blocks[0].assertions[0].context, AssertionContext::IfBranch);
}

#[test]
fn context_try_block() {
    let source = r#"test("x", () => {
        try {
            expect(x).toBe(1)
        } catch (e) {}
    })"#;
    let blocks = parse(source);
    assert_eq!(blocks[0].assertions[0].context, AssertionContext::TryBlock);
}

#[test]
fn context_catch_block() {
    let source = r#"test("x", () => {
        try {
            riskyOp()
        } catch (e) {
            expect(e.message).toBe("err")
        }
    })"#;
    let blocks = parse(source);
    assert_eq!(
        blocks[0].assertions[0].context,
        AssertionContext::CatchBlock
    );
}

#[test]
fn context_nested_if_try() {
    let source = r#"test("x", () => {
        if (condition) {
            try {
                expect(x).toBe(1)
            } catch (e) {}
        }
    })"#;
    let blocks = parse(source);
    assert_eq!(blocks[0].assertions[0].context, AssertionContext::TryBlock);
}

#[test]
fn context_nested_try_catch_if() {
    let source = r#"test("x", () => {
        try {
            riskyOp()
        } catch (e) {
            if (e instanceof Error) {
                expect(e.message).toBe("err")
            }
        }
    })"#;
    let blocks = parse(source);
    assert_eq!(blocks[0].assertions[0].context, AssertionContext::IfBranch);
}

#[test]
fn logical_and_right_operand_detected() {
    let blocks = parse(r#"test("x", () => { cond && expect(value).toBe(42) })"#);
    assert_eq!(blocks[0].assertions.len(), 1);
}

#[test]
fn logical_and_right_operand_is_if_branch() {
    let blocks = parse(r#"test("x", () => { cond && expect(value).toBe(42) })"#);
    assert_eq!(blocks[0].assertions[0].context, AssertionContext::IfBranch);
}

#[test]
fn logical_left_operand_unconditional() {
    let blocks = parse(r#"test("x", () => { expect(a).toBe(1) && expect(b).toBe(2) })"#);
    assert_eq!(blocks[0].assertions.len(), 2);
    assert_eq!(blocks[0].assertions[0].context, AssertionContext::TopLevel);
    assert_eq!(blocks[0].assertions[1].context, AssertionContext::IfBranch);
}

#[test]
fn ternary_branch_tautological_detected() {
    let blocks = parse(r#"test("x", () => { cond ? expect(true).toBe(true) : null })"#);
    assert_eq!(blocks[0].assertions.len(), 1);
    assert_eq!(blocks[0].assertions[0].target_kind, TargetKind::Literal);
    assert_eq!(blocks[0].assertions[0].context, AssertionContext::IfBranch);
}

#[test]
fn ternary_both_branches_detected() {
    let blocks = parse(r#"test("x", () => { cond ? expect(a).toBe(1) : expect(b).toBe(2) })"#);
    assert_eq!(blocks[0].assertions.len(), 2);
}

#[test]
fn ternary_test_operand_unconditional() {
    let blocks = parse(r#"test("x", () => { expect(a).toBe(1) ? x : y })"#);
    assert_eq!(blocks[0].assertions.len(), 1);
    assert_eq!(blocks[0].assertions[0].context, AssertionContext::TopLevel);
}

#[test]
fn parenthesized_assertion_detected() {
    let blocks = parse(r#"test("x", () => { (cond && expect(x).toBe(1)) })"#);
    assert_eq!(blocks[0].assertions.len(), 1);
    assert_eq!(blocks[0].assertions[0].context, AssertionContext::IfBranch);
}

#[test]
fn call_argument_callback_traversed() {
    let blocks = parse(r#"test("x", () => { setTimeout(() => expect(x).toBe(1)) })"#);
    assert_eq!(blocks[0].assertions.len(), 1);
}

#[test]
fn sequence_expression_assertion_detected() {
    let blocks = parse(r#"test("x", () => { (doThing(), expect(v).toBe(1)) })"#);
    assert_eq!(blocks[0].assertions.len(), 1);
    assert_eq!(blocks[0].assertions[0].context, AssertionContext::TopLevel);
}

#[test]
fn ts_as_wrapped_expect_detected() {
    let blocks = parse(r#"test("x", () => { (expect(v) as any).toBe(1) })"#);
    assert_eq!(blocks[0].assertions.len(), 1);
}

#[test]
fn ts_non_null_wrapped_expect_detected() {
    let blocks = parse(r#"test("x", () => { expect(v)!.toBe(1) })"#);
    assert_eq!(blocks[0].assertions.len(), 1);
}

#[test]
fn parenthesized_expect_base_detected() {
    let blocks = parse(r#"test("x", () => { (expect(v)).toBe(1) })"#);
    assert_eq!(blocks[0].assertions.len(), 1);
}

#[test]
fn ts_satisfies_wrapped_expect_detected() {
    let blocks = parse(r#"test("x", () => { (expect(v) satisfies unknown).toBe(1) })"#);
    assert_eq!(blocks[0].assertions.len(), 1);
}

#[test]
fn ts_wrapped_expect_argument_root_resolved() {
    let blocks = parse(r#"test("x", () => { expect(v satisfies unknown).toBe(1) })"#);
    assert_eq!(blocks[0].assertions[0].target_root.as_deref(), Some("v"));
}

#[test]
fn ts_as_wrapped_assertion_call_detected() {
    let blocks = parse(r#"test("x", () => { (expect(v).toBe(1) as any) })"#);
    assert_eq!(blocks[0].assertions.len(), 1);
}

#[test]
fn throw_in_catch_no_swallow() {
    let source = r#"test("x", () => {
        try {
            riskyOp()
        } catch (e) {
            throw e
        }
    })"#;
    let blocks = parse(source);
    assert!(blocks[0].catch_swallows.is_empty());
}

#[test]
fn throw_new_in_catch_no_swallow() {
    let source = r#"test("x", () => {
        try {
            riskyOp()
        } catch (e) {
            throw new Error("wrapped")
        }
    })"#;
    let blocks = parse(source);
    assert!(blocks[0].catch_swallows.is_empty());
}

#[test]
fn nested_rethrow_in_catch_no_swallow() {
    let source = r#"test("x", () => {
        try {
            riskyOp()
        } catch (e) {
            if (e) { throw e }
        }
    })"#;
    let blocks = parse(source);
    assert!(blocks[0].catch_swallows.is_empty());
}

#[test]
fn deeply_nested_rethrow_in_catch_no_swallow() {
    let source = r#"test("x", () => {
        try {
            riskyOp()
        } catch (e) {
            for (const k of keys) { { throw e } }
        }
    })"#;
    let blocks = parse(source);
    assert!(blocks[0].catch_swallows.is_empty());
}

#[test]
fn throw_in_catch_callback_still_swallows() {
    let source = r#"test("x", () => {
        try {
            riskyOp()
        } catch (e) {
            items.forEach(() => { throw e })
        }
    })"#;
    let blocks = parse(source);
    assert_eq!(blocks[0].catch_swallows.len(), 1);
}

#[test]
fn nested_rethrow_in_each_construct_no_swallow() {
    let catch_bodies = [
        "for (let i = 0; i < 1; i++) { throw e }",
        "for (const k in obj) { throw e }",
        "while (e) { throw e }",
        "do { throw e } while (e)",
        "switch (e) { default: throw e }",
        "try { throw e } finally {}",
        "try { x() } catch (inner) { throw inner }",
        "try { x() } finally { throw e }",
    ];
    for body in catch_bodies {
        let source =
            format!(r#"test("x", () => {{ try {{ risky() }} catch (e) {{ {body} }} }})"#);
        let blocks = parse(&source);
        assert!(
            blocks[0].catch_swallows.is_empty(),
            "should not swallow with catch body: {body}"
        );
    }
}

#[test]
fn empty_body_detected() {
    let blocks = parse(r#"test("x", () => {})"#);
    assert_eq!(blocks.len(), 1);
    assert!(blocks[0].has_empty_body);
}

#[test]
fn non_empty_body() {
    let blocks = parse(r#"test("x", () => { expect(x).toBe(1) })"#);
    assert!(!blocks[0].has_empty_body);
}

#[test]
fn body_with_decl_not_empty() {
    let blocks = parse(r#"test("x", () => { const x = 1 })"#);
    assert!(!blocks[0].has_empty_body);
}

#[test]
fn catch_swallow_empty_catch() {
    let source = r#"test("x", () => {
        try {
            riskyOp()
        } catch (e) {}
    })"#;
    let blocks = parse(source);
    assert_eq!(blocks[0].catch_swallows.len(), 1);
}

#[test]
fn catch_with_assertion_no_swallow() {
    let source = r#"test("x", () => {
        try {
            riskyOp()
        } catch (e) {
            expect(e).toBeDefined()
        }
    })"#;
    let blocks = parse(source);
    assert!(blocks[0].catch_swallows.is_empty());
}

#[test]
fn catch_with_throw_no_swallow() {
    let source = r#"test("x", () => {
        try {
            riskyOp()
        } catch (e) {
            throw e
        }
    })"#;
    let blocks = parse(source);
    assert!(blocks[0].catch_swallows.is_empty());
}

#[test]
fn catch_comment_only_is_swallow() {
    let source = r#"test("x", () => {
        try {
            riskyOp()
        } catch (e) {
            // intentionally empty
        }
    })"#;
    let blocks = parse(source);
    assert_eq!(blocks[0].catch_swallows.len(), 1);
}

#[test]
fn multiple_try_catch_one_swallow() {
    let source = r#"test("x", () => {
        try { op1() } catch (e) {}
        try { op2() } catch (e) { throw e }
    })"#;
    let blocks = parse(source);
    assert_eq!(blocks[0].catch_swallows.len(), 1);
}

#[test]
fn catch_console_log_is_swallow() {
    let source = r#"test("x", () => {
        try {
            riskyOp()
        } catch (e) {
            console.log(e)
        }
    })"#;
    let blocks = parse(source);
    assert_eq!(blocks[0].catch_swallows.len(), 1);
}

#[test]
fn todo_no_callback_empty_body() {
    let blocks = parse(r#"test.todo("x")"#);
    assert_eq!(blocks.len(), 1);
    assert!(blocks[0].has_empty_body);
    assert_eq!(blocks[0].modifier, Some(TestModifier::Todo));
}

#[test]
fn finally_block_assertion_tracked() {
    let source = r#"test("x", () => {
        try {
            riskyOp()
        } catch (e) {
        } finally {
            expect(cleanup).toBe(true)
        }
    })"#;
    let blocks = parse(source);
    assert_eq!(blocks[0].assertions.len(), 1);
    assert_eq!(blocks[0].assertions[0].context, AssertionContext::TopLevel);
    assert_eq!(blocks[0].catch_swallows.len(), 1);
}

#[test]
fn catch_masks_try_and_catch_assert() {
    let source = r#"test("x", () => {
        try {
            expect(actual).toBe(expected)
        } catch (e) {
            expect(e).toBeDefined()
        }
    })"#;
    let blocks = parse(source);
    assert_eq!(blocks[0].catch_masks.len(), 1);
}

#[test]
fn catch_masks_empty_when_catch_rethrows() {
    let source = r#"test("x", () => {
        try {
            expect(actual).toBe(expected)
        } catch (e) {
            expect(e).toBeDefined()
            throw e
        }
    })"#;
    let blocks = parse(source);
    assert!(blocks[0].catch_masks.is_empty());
}

#[test]
fn catch_masks_empty_when_try_has_no_assertion() {
    let source = r#"test("x", () => {
        try {
            riskyOp()
        } catch (e) {
            expect(e).toBeDefined()
        }
    })"#;
    let blocks = parse(source);
    assert!(blocks[0].catch_masks.is_empty());
}

#[test]
fn catch_masks_empty_when_catch_has_no_assertion() {
    let source = r#"test("x", () => {
        try {
            expect(actual).toBe(expected)
        } catch (e) {}
    })"#;
    let blocks = parse(source);
    assert!(blocks[0].catch_masks.is_empty());
}

#[test]
fn catch_masks_empty_for_sibling_try_catch() {
    let source = r#"test("x", () => {
        try { expect(a).toBe(1) } catch (e) {}
        try { riskyOp() } catch (e) { expect(e).toBeDefined() }
    })"#;
    let blocks = parse(source);
    assert!(blocks[0].catch_masks.is_empty());
}

#[test]
fn catch_masks_empty_for_nested_shielded_try() {
    let source = r#"test("x", () => {
        try {
            try {
                expect(actual).toBe(expected)
            } catch (inner) {}
        } catch (outer) {
            expect(outer).toBeDefined()
        }
    })"#;
    let blocks = parse(source);
    assert!(blocks[0].catch_masks.is_empty());
    assert_eq!(blocks[0].catch_swallows.len(), 1);
}

fn dummy_values(block: &TestBlock) -> Vec<&str> {
    block
        .dummy_literals
        .iter()
        .map(|d| d.value.as_str())
        .collect()
}

#[test]
fn dummy_in_call_argument() {
    let blocks = parse(r#"test("creates a user", () => { createUser("foo") })"#);
    assert_eq!(dummy_values(&blocks[0]), vec!["foo"]);
}

#[test]
fn dummy_in_matcher_argument() {
    let blocks = parse(r#"test("checks the value", () => { expect(x).toBe("bar") })"#);
    assert_eq!(dummy_values(&blocks[0]), vec!["bar"]);
}

#[test]
fn dummy_nested_in_expect_call() {
    let blocks = parse(r#"test("slugifies input", () => { expect(slugify("foo")).toBe(x) })"#);
    assert_eq!(dummy_values(&blocks[0]), vec!["foo"]);
}

#[test]
fn dummy_direct_expect_arg_suppressed() {
    let blocks = parse(r#"test("checks literal", () => { expect("foo").toBe(x) })"#);
    assert!(blocks[0].dummy_literals.is_empty());
}

#[test]
fn non_dummy_string_ignored() {
    let blocks = parse(r#"test("creates a user", () => { createUser("alice") })"#);
    assert!(blocks[0].dummy_literals.is_empty());
}

#[test]
fn numeric_literals_ignored() {
    let blocks = parse(r#"test("adds numbers", () => { add(123, 1234) })"#);
    assert!(blocks[0].dummy_literals.is_empty());
}

#[test]
fn dummy_test_name_ignored() {
    let blocks = parse(r#"test("foo", () => { expect(realResult).toBe(realValue) })"#);
    assert!(blocks[0].dummy_literals.is_empty());
}

#[test]
fn dummy_in_variable_init() {
    let blocks =
        parse(r#"test("uses a fixture", () => { const u = "hoge"; expect(f(u)).toBe(1) })"#);
    assert_eq!(dummy_values(&blocks[0]), vec!["hoge"]);
}

#[test]
fn multiple_dummies_collected() {
    let source = "test(\"x\", () => {\n  createUser(\"foo\")\n  createOrg(\"bar\")\n})";
    let blocks = parse(source);
    assert_eq!(dummy_values(&blocks[0]), vec!["foo", "bar"]);
    assert_eq!(blocks[0].dummy_literals[0].line, 2);
    assert_eq!(blocks[0].dummy_literals[1].line, 3);
}

#[test]
fn dummy_in_object_value() {
    let blocks = parse(r#"test("creates a user", () => { createUser({ name: "foo" }) })"#);
    assert_eq!(dummy_values(&blocks[0]), vec!["foo"]);
}

#[test]
fn dummy_object_key_ignored() {
    let blocks = parse(r#"test("creates a user", () => { createUser({ foo: realValue }) })"#);
    assert!(blocks[0].dummy_literals.is_empty());
}

#[test]
fn dummies_in_array_literal() {
    let blocks = parse(r#"test("seeds users", () => { seed(["foo", "bar"]) })"#);
    assert_eq!(dummy_values(&blocks[0]), vec!["foo", "bar"]);
}

#[test]
fn dummy_in_array_of_objects() {
    let blocks = parse(r#"test("seeds users", () => { seed([{ name: "baz" }]) })"#);
    assert_eq!(dummy_values(&blocks[0]), vec!["baz"]);
}

#[test]
fn dummy_parenthesized_expect_arg_suppressed() {
    let blocks = parse(r#"test("checks literal", () => { expect(("foo")).toBe(x) })"#);
    assert!(blocks[0].dummy_literals.is_empty());
}

#[test]
fn dummy_in_spread_argument() {
    let blocks = parse(r#"test("creates a user", () => { createUser(...["foo"]) })"#);
    assert_eq!(dummy_values(&blocks[0]), vec!["foo"]);
}

#[test]
fn dummy_in_return_statement() {
    let blocks = parse(r#"test("returns a user", () => { return createUser("foo") })"#);
    assert_eq!(dummy_values(&blocks[0]), vec!["foo"]);
}

#[test]
fn dummy_in_else_branch() {
    let blocks =
        parse(r#"test("branches", () => { if (cond) { run() } else { createUser("foo") } })"#);
    assert_eq!(dummy_values(&blocks[0]), vec!["foo"]);
}

#[test]
fn dummy_in_for_body() {
    let blocks =
        parse(r#"test("loops", () => { for (let i = 0; i < 1; i++) { createUser("foo") } })"#);
    assert_eq!(dummy_values(&blocks[0]), vec!["foo"]);
}

#[test]
fn dummy_in_for_in_body() {
    let blocks = parse(r#"test("loops", () => { for (const k in o) { createUser("foo") } })"#);
    assert_eq!(dummy_values(&blocks[0]), vec!["foo"]);
}

#[test]
fn dummy_in_while_body() {
    let blocks = parse(r#"test("loops", () => { while (cond) { createUser("foo") } })"#);
    assert_eq!(dummy_values(&blocks[0]), vec!["foo"]);
}

#[test]
fn dummy_in_do_while_body() {
    let blocks = parse(r#"test("loops", () => { do { createUser("foo") } while (cond) })"#);
    assert_eq!(dummy_values(&blocks[0]), vec!["foo"]);
}

#[test]
fn dummy_in_switch_case() {
    let blocks =
        parse(r#"test("switches", () => { switch (x) { case 1: createUser("foo") } })"#);
    assert_eq!(dummy_values(&blocks[0]), vec!["foo"]);
}

#[test]
fn dummy_in_object_variable_init() {
    let blocks = parse(r#"test("builds a user", () => { const u = { name: "foo" }; use(u) })"#);
    assert_eq!(dummy_values(&blocks[0]), vec!["foo"]);
}

#[test]
fn dummy_in_parenthesized_variable_init() {
    let blocks = parse(r#"test("builds a value", () => { const u = ("foo"); use(u) })"#);
    assert_eq!(dummy_values(&blocks[0]), vec!["foo"]);
}

#[test]
fn dummy_in_computed_member_object() {
    let blocks = parse(r#"test("reads a field", () => { getUser("foo")["id"] })"#);
    assert_eq!(dummy_values(&blocks[0]), vec!["foo"]);
}

#[test]
fn dummy_in_object_spread() {
    let blocks = parse(r#"test("builds a user", () => { createUser({ ...["foo"] }) })"#);
    assert_eq!(dummy_values(&blocks[0]), vec!["foo"]);
}

#[test]
fn dummy_in_array_element_call() {
    let blocks = parse(r#"test("seeds users", () => { seed([makeUser("foo")]) })"#);
    assert_eq!(dummy_values(&blocks[0]), vec!["foo"]);
}

#[test]
fn dummy_in_nested_array() {
    let blocks = parse(r#"test("seeds users", () => { seed([["foo"]]) })"#);
    assert_eq!(dummy_values(&blocks[0]), vec!["foo"]);
}

#[test]
fn dummy_in_array_spread_element() {
    let blocks = parse(r#"test("seeds users", () => { seed([...["foo"]]) })"#);
    assert_eq!(dummy_values(&blocks[0]), vec!["foo"]);
}

#[test]
fn dummy_in_computed_member_argument() {
    let blocks =
        parse(r#"test("reads a field", () => { expect(getUser("foo")["id"]).toBe(1) })"#);
    assert_eq!(dummy_values(&blocks[0]), vec!["foo"]);
}

#[test]
fn non_string_array_element_skipped() {
    let blocks = parse(r#"test("seeds users", () => { seed([1, "foo"]) })"#);
    assert_eq!(dummy_values(&blocks[0]), vec!["foo"]);
}

#[test]
fn has_act_false_for_arrange_only() {
    let blocks = parse(r#"test("x", () => { const v = 42; expect(v).toBe(42) })"#);
    assert!(!blocks[0].has_act);
    assert_eq!(blocks[0].bound_names, vec!["v"]);
}

#[test]
fn has_act_true_for_bare_call() {
    let blocks = parse(r#"test("x", () => { doThing(); expect(x).toBe(1) })"#);
    assert!(blocks[0].has_act);
}

#[test]
fn has_act_true_for_call_in_initializer() {
    let blocks = parse(r#"test("x", () => { const r = compute(2); expect(r).toBe(4) })"#);
    assert!(blocks[0].has_act);
    assert_eq!(blocks[0].bound_names, vec!["r"]);
}

#[test]
fn has_act_true_for_new_expression() {
    let blocks = parse(r#"test("x", () => { const u = new User(); expect(u.id).toBe(1) })"#);
    assert!(blocks[0].has_act);
}

#[test]
fn has_act_true_for_tagged_template() {
    let blocks =
        parse(r#"test("x", () => { const q = sql`SELECT 1`; expect(q).toBeDefined() })"#);
    assert!(blocks[0].has_act);
}

#[test]
fn has_act_true_for_awaited_call() {
    let blocks = parse(
        r#"test("x", async () => { const r = await fetchUser(1); expect(r).toBeDefined() })"#,
    );
    assert!(blocks[0].has_act);
}

#[test]
fn has_act_true_for_assignment_rhs_call() {
    let blocks = parse(r#"test("x", () => { let r; r = compute(); expect(r).toBe(1) })"#);
    assert!(blocks[0].has_act);
}

#[test]
fn has_act_true_for_ternary_call() {
    let blocks = parse(r#"test("x", () => { const r = cond ? run() : 0; expect(r).toBe(1) })"#);
    assert!(blocks[0].has_act);
}

#[test]
fn has_act_true_for_object_value_call() {
    let blocks =
        parse(r#"test("x", () => { const o = { id: makeId() }; expect(o.id).toBe(1) })"#);
    assert!(blocks[0].has_act);
}

#[test]
fn has_act_true_for_cast_call() {
    let blocks = parse(r#"test("x", () => { const r = run() as number; expect(r).toBe(1) })"#);
    assert!(blocks[0].has_act);
}

#[test]
fn has_act_true_for_chain_call() {
    let blocks = parse(r#"test("x", () => { const r = svc?.run(); expect(r).toBe(1) })"#);
    assert!(blocks[0].has_act);
}

#[test]
fn has_act_true_for_array_element_call() {
    let blocks = parse(r#"test("x", () => { const xs = [run()]; expect(xs[0]).toBe(1) })"#);
    assert!(blocks[0].has_act);
}

#[test]
fn has_act_false_for_assertion_only() {
    let blocks = parse(r#"test("x", () => { expect(result).toBe(1) })"#);
    assert!(!blocks[0].has_act);
    assert!(blocks[0].bound_names.is_empty());
}

#[test]
fn has_act_false_for_mock_setup_only() {
    let blocks = parse(r#"test("x", () => { const m = vi.fn(); expect(m).toBeDefined() })"#);
    assert!(!blocks[0].has_act);
    assert_eq!(blocks[0].bound_names, vec!["m"]);
}

#[test]
fn bound_names_collected_in_nested_block() {
    let blocks = parse(r#"test("x", () => { if (c) { const v = 1; expect(v).toBe(1) } })"#);
    assert_eq!(blocks[0].bound_names, vec!["v"]);
}

#[test]
fn bound_names_from_destructuring() {
    let blocks = parse(r#"test("x", () => { const { a, b } = obj; const [c] = arr })"#);
    assert_eq!(blocks[0].bound_names, vec!["a", "b", "c"]);
}

#[test]
fn target_root_is_member_chain_head() {
    let blocks = parse(r#"test("x", () => { expect(user.profile.name).toBe("a") })"#);
    assert_eq!(blocks[0].assertions[0].target_root.as_deref(), Some("user"));
}

#[test]
fn target_root_none_for_literal() {
    let blocks = parse(r#"test("x", () => { expect(42).toBe(42) })"#);
    assert_eq!(blocks[0].assertions[0].target_root, None);
}

#[test]
fn bound_name_matches_asserted_root() {
    let fires = parse(r#"test("x", () => { const total = 42; expect(total).toBe(42) })"#);
    assert!(fires[0].bound_names.iter().any(|n| n == "total"));
    assert_eq!(fires[0].assertions[0].target_root.as_deref(), Some("total"));

    let safe = parse(
        r#"test("x", () => { const expected = "a"; expect(result.name).toBe(expected) })"#,
    );
    assert_eq!(safe[0].assertions[0].target_root.as_deref(), Some("result"));
    assert!(!safe[0].bound_names.iter().any(|n| n == "result"));
}

fn parse_ts(source: &str) -> Vec<TestBlock> {
    parse_test_file(source, "test.ts").unwrap()
}

#[test]
fn target_root_through_non_null() {
    let blocks = parse(r#"test("x", () => { expect(user!.name).toBe("a") })"#);
    assert_eq!(blocks[0].assertions[0].target_root.as_deref(), Some("user"));
}

#[test]
fn target_root_through_as_cast() {
    let blocks = parse(r#"test("x", () => { expect((x as Foo).bar).toBe(1) })"#);
    assert_eq!(blocks[0].assertions[0].target_root.as_deref(), Some("x"));
}

#[test]
fn transparent_wrappers_stay_synced_across_traversals() {
    let wrappers: &[(&str, &str, &str)] = &[
        ("paren", "(", ")"),
        ("as", "", " as any"),
        ("satisfies", "", " satisfies unknown"),
        ("non-null", "", "!"),
        ("type-assertion", "<any>", ""),
    ];

    for (label, pre, suf) in wrappers {
        let blocks = parse_ts(&format!(
            r#"test("t", () => {{ {pre}expect(v).toBe(1){suf} }})"#
        ));
        assert_eq!(
            blocks[0].assertions.len(),
            1,
            "scan_expr lost the assertion through `{label}`"
        );

        let blocks = parse_ts(&format!(
            r#"test("t", () => {{ ({pre}expect(user.name){suf}).toBe(1) }})"#
        ));
        assert_eq!(
            blocks[0].assertions[0].target, "user.name",
            "find_expect_target lost the target through `{label}`"
        );

        let blocks = parse_ts(&format!(
            r#"test("t", () => {{ expect({pre}user{suf}.name).toBe(1) }})"#
        ));
        assert_eq!(
            blocks[0].assertions[0].target_root.as_deref(),
            Some("user"),
            "expr_root_ident lost the root through `{label}`"
        );

        let blocks = parse_ts(&format!(r#"test("t", () => {{ {pre}doWork(){suf} }})"#));
        assert!(
            blocks[0].has_act,
            "expr_has_act lost the act through `{label}`"
        );
    }
}

#[test]
fn unknown_vi_call_is_act() {
    let blocks = parse(r#"test("x", () => { vi.useFakeTimers(); expect(x).toBe(1) })"#);
    assert!(blocks[0].has_act);
    assert!(blocks[0].mock_calls.is_empty());
}

#[test]
fn bound_names_object_rest() {
    let blocks = parse(r#"test("x", () => { const { a, ...rest } = obj })"#);
    assert_eq!(blocks[0].bound_names, vec!["a", "rest"]);
}

#[test]
fn bound_names_array_rest() {
    let blocks = parse(r#"test("x", () => { const [first, ...others] = arr })"#);
    assert_eq!(blocks[0].bound_names, vec!["first", "others"]);
}

#[test]
fn bound_names_assignment_pattern() {
    let blocks = parse(r#"test("x", () => { const { a = 1 } = obj })"#);
    assert_eq!(blocks[0].bound_names, vec!["a"]);
}

#[test]
fn has_act_true_for_throw_argument() {
    let blocks = parse(r#"test("x", () => { if (cond) throw boom(); expect(x).toBe(1) })"#);
    assert!(blocks[0].has_act);
}

#[test]
fn has_act_false_for_empty_statement() {
    let blocks = parse(r#"test("x", () => { ; const v = 1; expect(v).toBe(1) })"#);
    assert!(!blocks[0].has_act);
}

#[test]
fn has_act_true_for_unary_operand_call() {
    let blocks = parse(r#"test("x", () => { const r = !isReady(); expect(r).toBe(false) })"#);
    assert!(blocks[0].has_act);
}

#[test]
fn has_act_true_for_logical_operand_call() {
    let blocks = parse(r#"test("x", () => { const r = a || compute(); expect(r).toBe(1) })"#);
    assert!(blocks[0].has_act);
}

#[test]
fn has_act_true_for_sequence_call() {
    let blocks = parse(r#"test("x", () => { const r = (setup(), 42); expect(r).toBe(42) })"#);
    assert!(blocks[0].has_act);
}

#[test]
fn has_act_true_for_template_interpolation_call() {
    let blocks = parse(r#"test("x", () => { const s = `${makeId()}`; expect(s).toBe("1") })"#);
    assert!(blocks[0].has_act);
}

#[test]
fn has_act_true_for_satisfies_call() {
    let blocks =
        parse(r#"test("x", () => { const r = run() satisfies Foo; expect(r).toBe(1) })"#);
    assert!(blocks[0].has_act);
}

#[test]
fn has_act_true_for_non_null_call() {
    let blocks = parse(r#"test("x", () => { const r = run()!; expect(r).toBe(1) })"#);
    assert!(blocks[0].has_act);
}

#[test]
fn has_act_true_for_type_assertion_call() {
    let blocks = parse_ts(r#"test("x", () => { const r = <number>run(); expect(r).toBe(1) })"#);
    assert!(blocks[0].has_act);
}

#[test]
fn has_act_true_for_optional_static_member_call() {
    let blocks = parse(r#"test("x", () => { const r = make()?.prop; expect(r).toBe(1) })"#);
    assert!(blocks[0].has_act);
}

#[test]
fn has_act_true_for_optional_computed_member_call() {
    let blocks = parse(r#"test("x", () => { const r = arr()?.[0]; expect(r).toBe(1) })"#);
    assert!(blocks[0].has_act);
}

#[test]
fn has_act_true_for_spread_argument_call() {
    let blocks = parse(r#"test("x", () => { const r = wrap(...gen()); expect(r).toBe(1) })"#);
    assert!(blocks[0].has_act);
}

#[test]
fn has_act_true_for_array_spread_call() {
    let blocks = parse(r#"test("x", () => { const xs = [...gen()]; expect(xs[0]).toBe(1) })"#);
    assert!(blocks[0].has_act);
}

#[test]
fn has_act_true_with_array_elision() {
    let blocks = parse(r#"test("x", () => { const xs = [, run()]; expect(xs[1]).toBe(1) })"#);
    assert!(blocks[0].has_act);
}

#[test]
fn has_act_true_for_object_spread_call() {
    let blocks = parse(r#"test("x", () => { const o = { ...gen() }; expect(o.a).toBe(1) })"#);
    assert!(blocks[0].has_act);
}

#[test]
fn has_act_true_for_destructuring_default_call() {
    let blocks = parse(r#"test("x", () => { const { a = run() } = obj; expect(a).toBe(1) })"#);
    assert!(blocks[0].has_act);
}

#[test]
fn has_act_true_for_array_destructuring_default_call() {
    let blocks = parse(r#"test("x", () => { const [a = run()] = arr; expect(a).toBe(1) })"#);
    assert!(blocks[0].has_act);
}

#[test]
fn has_act_true_for_computed_destructuring_key_call() {
    let blocks = parse(r#"test("x", () => { const { [run()]: a } = obj; expect(a).toBe(1) })"#);
    assert!(blocks[0].has_act);
}
