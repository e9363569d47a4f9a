use litmus::blocks::test_blocks;
use litmus::json::{escape, render_fragments};
use litmus::parse::{
    blocks_of_program, parse_test_file, Assertion, AssertionContext, TargetKind, TestBlock,
    TestModifier,
};
use litmus::parser::parse_program;
use litmus::rules::{check_all, Check, Issue, Severity, CHECKS, RULE_CATALOG};
use litmus::source::Source;
use litmus::syntax::{Call, Declarator, Expr, Handler, Item, Part, Pattern, Stmt};
use litmus::text::{starts_with, word_count};
use litmus::{analyze_files, analyze_source, AnalysisResult, FileErrorKind, SourceFile};

fn assertion(matcher: &str, context: AssertionContext) -> Assertion {
    Assertion {
        line: 2,
        target: "x".to_owned(),
        target_kind: TargetKind::Identifier,
        target_root: Some("x".to_owned()),
        matcher: matcher.to_owned(),
        is_weak: false,
        context,
    }
}

fn block(name: &str, assertions: Vec<Assertion>) -> TestBlock {
    TestBlock {
        name: name.to_owned(),
        line: 1,
        assertions,
        mock_calls: Vec::new(),
        modifier: None,
        has_empty_body: false,
        has_act: true,
        bound_names: Vec::new(),
        catch_swallows: Vec::new(),
        catch_masks: Vec::new(),
        dummy_literals: Vec::new(),
    }
}

fn rules_of(issues: &[Issue]) -> Vec<&'static str> {
    issues.iter().map(|i| i.rule).collect()
}

#[test]
fn every_check_is_named_in_the_catalog() {
    let mut names: Vec<&str> = CHECKS.iter().map(|c| c.rule_name()).collect();
    names.sort_unstable();
    assert_eq!(names, RULE_CATALOG.to_vec());
}

#[test]
fn only_three_rules_are_advisory() {
    let advisory: Vec<&str> = RULE_CATALOG
        .into_iter()
        .filter(|rule| {
            let issue = Issue {
                rule,
                file: "a.test.ts".to_owned(),
                line: 1,
                test_name: "t".to_owned(),
                detail: String::new(),
            };
            issue.severity() == Severity::Warning
        })
        .collect();
    assert_eq!(advisory, vec!["dummy-data", "missing-act", "snapshot-external"]);
}

#[test]
fn findings_name_their_file_and_test() {
    let blocks = vec![block("one two three", vec![]), block("short", vec![])];
    let issues = check_all(&blocks, "dir/a.test.ts");
    assert_eq!(
        rules_of(&issues),
        vec!["weak-assertion", "weak-assertion", "test-name-quality"]
    );
    assert!(issues.iter().all(|i| i.file == "dir/a.test.ts"));
    assert_eq!(issues[0].test_name, "one two three");
    assert_eq!(issues[2].test_name, "short");
}

#[test]
fn todo_is_skipped_and_not_empty() {
    for source in [
        r#"test.todo("writes the audit log")"#,
        r#"test.todo("writes the audit log", () => {})"#,
    ] {
        let issues = analyze_source(source, "a.test.ts").unwrap();
        assert_eq!(rules_of(&issues), vec!["skipped-test"]);
        assert_eq!(issues[0].detail, "todo");
    }
    let skipped = analyze_source(r#"test.skip("writes the audit log", () => {})"#, "a.test.ts");
    assert_eq!(
        rules_of(&skipped.unwrap()),
        vec!["empty-test", "skipped-test"]
    );
}

#[test]
fn conditional_and_catch_only_never_meet() {
    for context in [
        AssertionContext::TopLevel,
        AssertionContext::IfBranch,
        AssertionContext::TryBlock,
        AssertionContext::CatchBlock,
    ] {
        let blocks = vec![block("one two three", vec![assertion("toBe", context)])];
        let conditional = Check::ConditionalAssertion.run(&blocks, "a.test.ts").len();
        let catch_only = Check::CatchOnlyAssertion.run(&blocks, "a.test.ts").len();
        assert_eq!(conditional, usize::from(context == AssertionContext::IfBranch));
        assert_eq!(catch_only, usize::from(context == AssertionContext::CatchBlock));
    }
}

#[test]
fn order_of_assertions_only_changes_the_detail() {
    let mut weak = assertion("toBeDefined", AssertionContext::IfBranch);
    weak.is_weak = true;
    let mut literal = assertion("toMatchSnapshot", AssertionContext::IfBranch);
    literal.target_kind = TargetKind::Literal;
    let forward = vec![block("one two three", vec![weak.clone(), literal.clone()])];
    let backward = vec![block("one two three", vec![literal, weak])];
    for check in CHECKS {
        assert_eq!(
            check.run(&forward, "a.test.ts").len(),
            check.run(&backward, "a.test.ts").len()
        );
    }
}

#[test]
fn tests_are_judged_one_by_one() {
    let a = block("works", vec![]);
    let b = block("returns the sum of both", vec![assertion("toBe", AssertionContext::IfBranch)]);
    for check in CHECKS {
        let mut apart = check.run(std::slice::from_ref(&a), "a.test.ts");
        apart.extend(check.run(std::slice::from_ref(&b), "a.test.ts"));
        assert_eq!(check.run(&[a.clone(), b.clone()], "a.test.ts"), apart);
    }
}

#[test]
fn no_tests_no_findings() {
    assert!(check_all(&[], "a.test.ts").is_empty());
    assert!(analyze_source("const x = 1;", "a.test.ts").unwrap().is_empty());
}

#[test]
fn escape_covers_every_control_character() {
    for code in 0u32..0x20 {
        let c = char::from_u32(code).unwrap();
        let escaped = escape(&c.to_string());
        assert!(escaped.starts_with('\\'), "{code:#x}: {escaped}");
        assert!(escaped.chars().all(|c| c >= ' '), "{code:#x}: {escaped}");
    }
    assert_eq!(escape("\u{1f}\u{10}\u{0}"), "\\u001f\\u0010\\u0000");
    assert_eq!(escape("\r\u{8}\u{c}"), "\\r\\b\\f");
    assert_eq!(escape("日本 \u{7f}é"), "日本 \u{7f}é");
}

#[test]
fn fragments_hold_no_line_feed() {
    let result = AnalysisResult {
        issues: vec![Issue {
            rule: "weak-assertion",
            file: "a\nb.test.ts".to_owned(),
            line: 10,
            test_name: "first\r\nsecond".to_owned(),
            detail: "\u{1}".to_owned(),
        }],
        errors: Vec::new(),
    };
    let (issues, errors) = render_fragments(&result);
    assert_eq!(
        issues,
        r#"{"rule":"weak-assertion","severity":"blocking","file":"a\nb.test.ts","line":10,"test_name":"first\r\nsecond","detail":"\u0001"}"#
    );
    assert_eq!(errors, "");
}

#[test]
fn one_file_does_not_affect_another() {
    let file = |path: &str, content: Result<&str, &str>| SourceFile {
        path: path.to_owned(),
        content: content.map(str::to_owned).map_err(str::to_owned),
    };
    let result = analyze_files(&[
        file("a.test.ts", Ok("const = ;")),
        file("b.test.ts", Err("permission denied")),
        file("c.test.ts", Ok(r#"it("works", () => { expect(f()).toBe(1) })"#)),
    ]);
    assert_eq!(result.errors.len(), 2);
    assert_eq!(result.errors[0].file, "a.test.ts");
    assert_eq!(result.errors[0].kind, FileErrorKind::Parse);
    assert_eq!(
        result.errors[1].to_string(),
        "litmus: read error: b.test.ts: permission denied"
    );
    assert_eq!(rules_of(&result.issues), vec!["test-name-quality"]);
    assert_eq!(
        result.issues[0].to_string(),
        "test-name-quality: c.test.ts:1 works (words: 1)"
    );
}

fn parse(source: &str) -> Vec<TestBlock> {
    parse_test_file(source, "test.tsx").unwrap()
}

#[test]
fn wrappers_are_transparent() {
    let plain = parse(r#"test("x", () => { expect(user.name).toBe(1) })"#);
    for source in [
        r#"test("x", () => { (expect(user.name).toBe(1)) })"#,
        r#"test("x", () => { (expect(user.name)).toBe(1) })"#,
        r#"test("x", () => { expect(user.name)!.toBe(1) })"#,
        r#"test("x", () => { (expect(user.name) as any).toBe(1) })"#,
        r#"test("x", () => { (expect(user.name) satisfies any).toBe(1) })"#,
    ] {
        let wrapped = parse(source);
        assert_eq!(wrapped[0].assertions.len(), 1, "{source}");
        assert_eq!(wrapped[0].assertions[0].target, "user.name");
        assert_eq!(wrapped[0].assertions[0].target_root, plain[0].assertions[0].target_root);
        assert_eq!(wrapped[0].has_act, plain[0].has_act);
    }
    let asserted = parse_test_file(
        r#"test("x", () => { (<any>expect(user.name)).toBe(1) })"#,
        "test.ts",
    );
    assert_eq!(asserted.unwrap()[0].assertions.len(), 1);
}

#[test]
fn suites_give_their_tests_in_order() {
    let blocks = parse(
        r#"
it("first", () => {})
describe("outer", { retry: 2 }, () => {
  it.only("second", () => {})
  describe.each([1, 2])("inner", function () {
    test.each([[1]])("third", { timeout: 5 }, () => {})
  })
})
describe("no callback")
helper(() => { it("hidden", () => {}) })
test.todo("fourth")
test("without a callback")
test(name, () => {})
"#,
    );
    let names: Vec<&str> = blocks.iter().map(|b| b.name.as_str()).collect();
    assert_eq!(names, vec!["first", "second", "third", "fourth"]);
    assert_eq!(blocks[1].modifier, Some(TestModifier::Only));
    assert_eq!(blocks[2].line, 6);
    assert_eq!(blocks[3].modifier, Some(TestModifier::Todo));
}

#[test]
fn masking_and_swallowing_exclude_each_other() {
    let body = |inner: &str| format!("test(\"x\", () => {{ try {{ expect(a).toBe(1) }} catch (e) {{ {inner} }} }})");
    let swallow = parse(&body("log(e)"));
    assert_eq!((swallow[0].catch_swallows.len(), swallow[0].catch_masks.len()), (1, 0));
    let mask = parse(&body("expect(e).toBe(2)"));
    assert_eq!((mask[0].catch_swallows.len(), mask[0].catch_masks.len()), (0, 1));
    let rethrow = parse(&body("expect(e).toBe(2); throw e"));
    assert_eq!((rethrow[0].catch_swallows.len(), rethrow[0].catch_masks.len()), (0, 0));
}

#[test]
fn masked_assertion_in_a_callback_handler_can_be_catch_only() {
    let issues = analyze_source(
        r#"test("reports every failure twice", () => {
  try {
    run(() => { try { act() } catch (e) { expect(e).toBe(1); throw e } })
  } catch (e) {
    expect(e).toBe(2)
  }
})"#,
        "a.test.ts",
    )
    .unwrap();
    assert_eq!(
        rules_of(&issues),
        vec!["catch-masks-assertion", "catch-only-assertion"]
    );
}

#[test]
fn lines_ascend() {
    let source = Source::new("α\n\nβγ\r\nδ");
    let lines: Vec<u32> = (0..14).map(|offset| source.line(offset)).collect();
    assert_eq!(lines, vec![1, 1, 1, 2, 3, 3, 3, 3, 3, 3, 4, 4, 4, 4]);
    assert_eq!(source.line(u32::MAX), 4);
}

#[test]
fn slices_are_whole_characters() {
    let source = Source::new("aβγ");
    assert_eq!(source.slice(1, 3), "β");
    assert_eq!(source.slice(0, 5), "aβγ");
    assert_eq!(source.slice(3, 3), "");
    assert_eq!(source.slice(2, 3), "");
    assert_eq!(source.slice(1, 4), "");
    assert_eq!(source.slice(3, 1), "");
    assert_eq!(source.slice(0, 6), "");
}

#[test]
fn targets_are_taken_by_byte_range() {
    let blocks = parse(r#"test("日本", () => { expect(naïve.größe).toBe(1) })"#);
    assert_eq!(blocks[0].name, "日本");
    assert_eq!(blocks[0].assertions[0].target, "naïve.größe");
    assert_eq!(blocks[0].assertions[0].target_root.as_deref(), Some("naïve"));
}

#[test]
fn diagnostics_are_joined_in_one_message() {
    let messages = vec!["first".to_owned(), "second".to_owned()];
    assert_eq!(
        blocks_of_program(Err(messages), "").unwrap_err(),
        "first; second"
    );
    let err = parse_test_file("test(\"x\", () => {", "a.test.ts").unwrap_err();
    assert!(!err.is_empty());
}

#[test]
fn nesting_message_names_the_limit() {
    let source = "(".repeat(501);
    assert_eq!(
        parse_test_file(&source, "a.test.ts").unwrap_err(),
        "bracket nesting depth exceeds limit of 500"
    );
}

#[test]
fn path_tells_the_language() {
    let typed = "const f = <T>(x: T): T => x as T;";
    assert!(parse_program(typed, "a.test.ts").is_ok());
    assert!(parse_program(typed, "a.test.js").is_err());
    assert!(parse_program(typed, "no extension").is_ok());
    assert!(parse_program("const a = <b>c</b>;", "a.test.tsx").is_ok());
    assert!(parse_program("const a = <b>c</b>;", "a.test.ts").is_err());
}

#[test]
fn long_chains_outside_tests_do_not_exhaust_the_stack() {
    let n = 200_000;
    let test = "test(\"x\", () => { expect(x).toBe(1) })";
    for chain in [
        format!("const z = {}a;", "a + ".repeat(n)),
        format!("{}a;", "a && ".repeat(n)),
        format!("const z = a{};", ".b".repeat(n)),
        format!("a{};", ".b()".repeat(n)),
        format!("a{};", "[b]".repeat(n)),
        format!("a{};", "!".repeat(n)),
        format!("a?.b{};", "()".repeat(n)),
        format!("if (a) {{ {}a }}", "a || ".repeat(n)),
        format!("f({}a);", "a + ".repeat(n)),
        format!("const {{ z = {}a }} = o;", "a + ".repeat(n)),
        "f(a);\n".repeat(n),
    ] {
        let source = format!("{chain}\n{test}");
        let blocks = parse_test_file(&source, "a.test.ts").unwrap();
        assert_eq!(blocks.len(), 1);
        assert_eq!(blocks[0].assertions.len(), 1);
    }
}

#[test]
fn long_chain_in_a_test_is_walked_to_its_end() {
    let n = 200_000;
    let chain = format!(
        "test(\"x\", () => {{ act(); {}expect(x).toBe(1) }})",
        "a && ".repeat(n)
    );
    let blocks = parse_test_file(&chain, "a.test.ts").unwrap();
    assert!(blocks[0].has_act);
    assert_eq!(blocks[0].assertions.len(), 1);
    assert_eq!(blocks[0].assertions[0].context, AssertionContext::IfBranch);
}

#[test]
fn right_associative_chains_are_parsed() {
    let n = 500;
    for chain in [
        format!("const z = {}x{};", "c?".repeat(n), ":y".repeat(n)),
        format!("const z = {}x;", "c?y:".repeat(n)),
        format!("{}x;", "a = ".repeat(n)),
        format!("{}x;", "a ** ".repeat(n)),
        format!("{}x;", "!".repeat(n)),
        format!("const z = {}x;", "a => ".repeat(n)),
        format!("{}x;", "if (a) b; else ".repeat(n)),
        format!("{}x;", "for (;a;) ".repeat(n)),
    ] {
        assert!(parse_test_file(&chain, "a.test.ts").unwrap().is_empty());
    }
}

fn name(s: &str) -> Expr {
    Expr::Identifier(s.to_owned())
}

fn item(value: Expr) -> Item {
    Item {
        start: 0,
        end: 0,
        spread: false,
        value,
    }
}

fn call(callee: Expr, arguments: Vec<Item>) -> Expr {
    Expr::Call(Call {
        start: 0,
        callee: Box::new(callee),
        arguments,
    })
}

fn member(object: Expr, property: &str) -> Expr {
    Expr::Member {
        object: Box::new(object),
        property: property.to_owned(),
    }
}

fn text(value: &str, start: u32) -> Expr {
    Expr::Text {
        value: value.to_owned(),
        start,
    }
}

#[test]
fn program_is_walked_without_a_parser() {
    let source = "expected\nvalue";
    let target = Item {
        start: 9,
        end: 14,
        spread: false,
        value: name("value"),
    };
    let body = vec![
        Stmt::Declaration(vec![Declarator {
            id: Pattern::Group(vec![
                Part {
                    key: Some(call(name("run"), vec![])),
                    value: Pattern::Name("a".to_owned()),
                },
                Part {
                    key: None,
                    value: Pattern::Default {
                        target: Box::new(Pattern::Name("b".to_owned())),
                        value: Expr::Constant,
                    },
                },
                Part {
                    key: None,
                    value: Pattern::Hole,
                },
            ]),
            init: Some(Expr::Object(vec![text("qux", 9)])),
        }]),
        Stmt::Try {
            block: vec![Stmt::Expression(call(
                member(call(name("expect"), vec![target]), "toBe"),
                vec![],
            ))],
            handler: Some(Handler {
                start: 10,
                body: vec![],
            }),
            finalizer: None,
        },
        Stmt::Return(Some(call(member(name("vi"), "fn"), vec![]))),
    ];
    let program = vec![Stmt::Expression(call(
        member(name("it"), "skip"),
        vec![item(text("title", 0)), item(Expr::Function(body))],
    ))];
    let blocks = test_blocks(&program, source);
    assert_eq!(blocks.len(), 1);
    let block = &blocks[0];
    assert_eq!(block.name, "title");
    assert_eq!(block.modifier, Some(TestModifier::Skip));
    assert!(!block.has_empty_body);
    assert!(block.has_act);
    assert_eq!(block.bound_names, vec!["a", "b"]);
    assert_eq!(block.catch_swallows, vec![2]);
    assert_eq!(block.dummy_literals.len(), 1);
    assert_eq!(block.dummy_literals[0].line, 2);
    assert_eq!(block.mock_calls.len(), 1);
    assert_eq!(block.assertions.len(), 1);
    assert_eq!(block.assertions[0].target, "value");
    assert_eq!(block.assertions[0].context, AssertionContext::TryBlock);
}

#[test]
fn every_shape_of_expression_is_read() {
    for (expression, acts) in [
        ("x?.run()", true),
        ("x?.y", false),
        ("run()?.y", true),
        ("x?.[run()]", true),
        ("run()?.[0]", true),
        ("(run() as any)?.y!", true),
        ("new Thing()", true),
        ("tag`a`", true),
        ("`${run()}`", true),
        ("`plain`", false),
        ("[...run()]", true),
        ("[, run()]", true),
        ("[, 1]", false),
        ("({ ...run() })", true),
        ("({ a: run() })", true),
        ("(1, run())", true),
        ("-run()", true),
        ("1 + run()", true),
        ("x ?? run()", true),
        ("x ? 1 : run()", true),
        ("x = run()", true),
        ("x[run()]", true),
        ("run() satisfies number", true),
        ("await run()", true),
        ("() => run()", false),
        ("function () { run() }", false),
        ("/re/", false),
        ("this", false),
    ] {
        let source = format!("test(\"x\", async () => {{ const y = {expression}; }})");
        assert_eq!(parse(&source)[0].has_act, acts, "{expression}");
    }
}

#[test]
fn every_shape_of_statement_is_read() {
    for statement in [
        "run()",
        "return run()",
        "throw run()",
        "{ run() }",
        "if (run()) {}",
        "if (x) {} else run()",
        "for (; run(); ) {}",
        "for (const k in run()) {}",
        "for (const k of run()) {}",
        "while (run()) {}",
        "do {} while (run())",
        "while (x) run()",
        "switch (run()) {}",
        "switch (x) { case 1: break; default: run() }",
        "try { run() } catch {}",
        "try {} catch { run() }",
        "try {} finally { run() }",
        "const { a = run() } = x",
        "const { [run()]: a } = x",
        "const { ...a } = run()",
        "const [, [a = run()], ...b] = x",
    ] {
        let source = format!("test(\"x\", () => {{ {statement} }})");
        assert!(parse(&source)[0].has_act, "{statement}");
    }
    let bound = parse("test(\"x\", () => { const { a, b: [c, , d = 1], ...e } = x; for (;;) { let f } })");
    assert_eq!(bound[0].bound_names, vec!["a", "c", "d", "e", "f"]);
    assert!(!bound[0].has_act);
}

#[test]
fn words_are_split_at_unicode_space() {
    assert_eq!(word_count("a\u{3000}b\u{a0}c\u{2003}d"), 4);
    assert_eq!(word_count("a\u{200b}b"), 1);
    assert_eq!(word_count("\t\u{b} a \r\n"), 1);
    assert!(starts_with("getByText", "getBy"));
    assert!(!starts_with("get", "getBy"));
}
