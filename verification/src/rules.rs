//! The rules: each turns the test blocks of a file into findings.

use crate::parse;
use crate::parse::{
    Assertion, AssertionContext, AssertionModel, BlockModel, TargetKind, TestBlock, TestModifier,
};
use crate::text;
use vstd::prelude::*;

verus! {

/// A finding.
#[derive(Debug, PartialEq)]
pub struct Issue {
    pub rule: &'static str,
    pub file: String,
    pub line: u32,
    pub test_name: String,
    pub detail: String,
}

#[derive(Debug, PartialEq, Eq, Clone, Copy, Structural)]
pub enum Severity {
    Warning,
    Blocking,
}

#[verifier::ext_equal]
pub ghost struct IssueModel {
    pub rule: Seq<char>,
    pub file: Seq<char>,
    pub line: u32,
    pub test_name: Seq<char>,
    pub detail: Seq<char>,
}

impl View for Issue {
    type V = IssueModel;

    open spec fn view(&self) -> IssueModel {
        IssueModel {
            rule: self.rule@,
            file: self.file@,
            line: self.line,
            test_name: self.test_name@,
            detail: self.detail@,
        }
    }
}

pub open spec fn issue_models(s: Seq<Issue>) -> Seq<IssueModel> {
    Seq::new(s.len(), |i: int| s[i]@)
}

/// Every rule name that a finding can carry.
pub const RULE_CATALOG: [&'static str; 14] = [
    "catch-masks-assertion",
    "catch-only-assertion",
    "catch-swallow",
    "conditional-assertion",
    "dummy-data",
    "empty-test",
    "missing-act",
    "mock-only",
    "mock-overuse",
    "skipped-test",
    "snapshot-external",
    "tautological",
    "test-name-quality",
    "weak-assertion",
];

/// Rules whose findings are advisory rather than blocking. Severity is a
/// property of the rule, not of the single finding.
pub const WARNING_RULES: [&'static str; 3] = ["dummy-data", "missing-act", "snapshot-external"];

pub const MOCK_MATCHERS: [&'static str; 19] = [
    "toHaveBeenCalled",
    "toHaveBeenCalledWith",
    "toHaveBeenCalledTimes",
    "toHaveBeenCalledOnce",
    "toHaveBeenCalledExactlyOnceWith",
    "toHaveBeenCalledBefore",
    "toHaveBeenCalledAfter",
    "toHaveBeenLastCalledWith",
    "toHaveBeenNthCalledWith",
    "toHaveReturned",
    "toHaveReturnedWith",
    "toHaveReturnedTimes",
    "toHaveLastReturnedWith",
    "toHaveNthReturnedWith",
    "toHaveResolved",
    "toHaveResolvedWith",
    "toHaveResolvedTimes",
    "toHaveLastResolvedWith",
    "toHaveNthResolvedWith",
];

/// Matchers that compare with a snapshot file, out of sight of the test.
/// `toMatchInlineSnapshot` keeps the expected value beside the assertion and
/// is not one of them.
pub const SNAPSHOT_MATCHERS: [&'static str; 1] = ["toMatchSnapshot"];

/// The rules, one variant each.
#[derive(Debug, Clone, Copy, PartialEq, Eq, Structural)]
pub enum Check {
    EmptyTest,
    SkippedTest,
    CatchSwallow,
    CatchMasksAssertion,
    ConditionalAssertion,
    CatchOnlyAssertion,
    WeakAssertions,
    MockOveruse,
    Tautological,
    MockOnly,
    TestName,
    DummyData,
    MissingAct,
    SnapshotExternal,
}

/// The rules in the order in which the analysis applies them.
pub const CHECKS: [Check; 14] = [
    Check::EmptyTest,
    Check::SkippedTest,
    Check::CatchSwallow,
    Check::CatchMasksAssertion,
    Check::ConditionalAssertion,
    Check::CatchOnlyAssertion,
    Check::WeakAssertions,
    Check::MockOveruse,
    Check::Tautological,
    Check::MockOnly,
    Check::TestName,
    Check::DummyData,
    Check::MissingAct,
    Check::SnapshotExternal,
];

impl Check {
    /// The name that the findings of the rule carry.
    pub open spec fn rule(self) -> Seq<char> {
        match self {
            Check::EmptyTest => "empty-test"@,
            Check::SkippedTest => "skipped-test"@,
            Check::CatchSwallow => "catch-swallow"@,
            Check::CatchMasksAssertion => "catch-masks-assertion"@,
            Check::ConditionalAssertion => "conditional-assertion"@,
            Check::CatchOnlyAssertion => "catch-only-assertion"@,
            Check::WeakAssertions => "weak-assertion"@,
            Check::MockOveruse => "mock-overuse"@,
            Check::Tautological => "tautological"@,
            Check::MockOnly => "mock-only"@,
            Check::TestName => "test-name-quality"@,
            Check::DummyData => "dummy-data"@,
            Check::MissingAct => "missing-act"@,
            Check::SnapshotExternal => "snapshot-external"@,
        }
    }

    /// What the rule says of one test block: for each finding its line and
    /// its detail.
    pub open spec fn notes(self, block: BlockModel) -> Seq<(u32, Seq<char>)> {
        match self {
            Check::EmptyTest => if block.has_empty_body && block.modifier != Some(
                TestModifier::Todo,
            ) {
                seq![(block.line, seq![])]
            } else {
                seq![]
            },
            Check::SkippedTest => match block.modifier {
                Some(TestModifier::Skip) => seq![(block.line, "skip"@)],
                Some(TestModifier::Todo) => seq![(block.line, "todo"@)],
                _ => seq![],
            },
            Check::CatchSwallow => Seq::new(
                block.catch_swallows.len(),
                |i: int| (block.catch_swallows[i], "catch block has no assertions and no throw"@),
            ),
            Check::CatchMasksAssertion => Seq::new(
                block.catch_masks.len(),
                |i: int|
                    (
                        block.catch_masks[i],
                        "try assertion swallowed by catch; use .toThrow()/.rejects.toThrow()"@,
                    ),
            ),
            Check::ConditionalAssertion => if block.assertions.len() > 0 && all_in_context(
                block.assertions,
                AssertionContext::IfBranch,
            ) {
                seq![
                    (
                        block.line,
                        "all "@ + text::decimal(block.assertions.len())
                            + " assertions inside if"@,
                    ),
                ]
            } else {
                seq![]
            },
            Check::CatchOnlyAssertion => if block.assertions.len() > 0 && all_in_context(
                block.assertions,
                AssertionContext::CatchBlock,
            ) {
                seq![
                    (
                        block.line,
                        "all "@ + text::decimal(block.assertions.len())
                            + " assertions inside catch"@,
                    ),
                ]
            } else {
                seq![]
            },
            Check::WeakAssertions => if !block.has_empty_body && all_weak(block.assertions) {
                seq![
                    (
                        block.line,
                        if block.assertions.len() == 0 {
                            "no assertions"@
                        } else {
                            "only weak: "@ + text::joined(matchers(block.assertions), ", "@)
                        },
                    ),
                ]
            } else {
                seq![]
            },
            Check::MockOveruse => if block.mock_calls.len() > block.assertions.len() {
                seq![
                    (
                        block.line,
                        "mocks: "@ + text::decimal(block.mock_calls.len()) + ", assertions: "@
                            + text::decimal(block.assertions.len()),
                    ),
                ]
            } else {
                seq![]
            },
            Check::Tautological => tautologies(block.assertions),
            Check::MockOnly => if block.assertions.len() > 0 && all_mock_matchers(
                block.assertions,
            ) {
                seq![
                    (
                        block.line,
                        "matchers: "@ + text::joined(matchers(block.assertions), ", "@),
                    ),
                ]
            } else {
                seq![]
            },
            Check::TestName => if text::words(block.name) <= 2 {
                seq![(block.line, "words: "@ + text::decimal(text::words(block.name)))]
            } else {
                seq![]
            },
            Check::DummyData => Seq::new(
                block.dummy_literals.len(),
                |i: int|
                    (
                        block.dummy_literals[i].line,
                        "dummy value: "@ + block.dummy_literals[i].value,
                    ),
            ),
            Check::MissingAct => if !block.has_empty_body && !block.has_act && asserts_arranged(
                block,
            ) {
                seq![(block.line, "assertions present but no Act (SUT call)"@)]
            } else {
                seq![]
            },
            Check::SnapshotExternal => snapshots(block.assertions),
        }
    }

    /// The findings of the rule in one test block of `file`.
    pub open spec fn findings(self, block: BlockModel, file: Seq<char>) -> Seq<IssueModel> {
        Seq::new(
            self.notes(block).len(),
            |i: int|
                IssueModel {
                    rule: self.rule(),
                    file,
                    line: self.notes(block)[i].0,
                    test_name: block.name,
                    detail: self.notes(block)[i].1,
                },
        )
    }

    /// The findings of the rule in every test block of `file`, in order.
    pub open spec fn issues(self, blocks: Seq<BlockModel>, file: Seq<char>) -> Seq<IssueModel>
        decreases blocks.len(),
    {
        if blocks.len() == 0 {
            seq![]
        } else {
            self.issues(blocks.drop_last(), file) + self.findings(blocks.last(), file)
        }
    }
}

pub open spec fn all_in_context(
    assertions: Seq<AssertionModel>,
    context: AssertionContext,
) -> bool {
    forall|i: int| 0 <= i < assertions.len() ==> (#[trigger] assertions[i]).context == context
}

pub open spec fn all_weak(assertions: Seq<AssertionModel>) -> bool {
    forall|i: int| 0 <= i < assertions.len() ==> (#[trigger] assertions[i]).is_weak
}

pub open spec fn all_mock_matchers(assertions: Seq<AssertionModel>) -> bool {
    forall|i: int|
        0 <= i < assertions.len() ==> text::is_listed(
            MOCK_MATCHERS@,
            (#[trigger] assertions[i]).matcher,
        )
}

pub open spec fn matchers(assertions: Seq<AssertionModel>) -> Seq<Seq<char>> {
    Seq::new(assertions.len(), |i: int| assertions[i].matcher)
}

/// A note for each assertion that is made about a literal.
pub open spec fn tautologies(assertions: Seq<AssertionModel>) -> Seq<(u32, Seq<char>)>
    decreases assertions.len(),
{
    if assertions.len() == 0 {
        seq![]
    } else {
        let a = assertions.last();
        let before = tautologies(assertions.drop_last());
        if a.target_kind == TargetKind::Literal {
            before.push((a.line, "target: "@ + a.target))
        } else {
            before
        }
    }
}

/// A note for each assertion against an external snapshot.
pub open spec fn snapshots(assertions: Seq<AssertionModel>) -> Seq<(u32, Seq<char>)>
    decreases assertions.len(),
{
    if assertions.len() == 0 {
        seq![]
    } else {
        let a = assertions.last();
        let before = snapshots(assertions.drop_last());
        if text::is_listed(SNAPSHOT_MATCHERS@, a.matcher) {
            before.push((a.line, "matcher: "@ + a.matcher))
        } else {
            before
        }
    }
}

/// Whether a strong assertion about something other than a literal reads
/// from a name that the body binds.
pub open spec fn asserts_arranged(block: BlockModel) -> bool {
    exists|i: int|
        0 <= i < block.assertions.len() && targets_binding(#[trigger] block.assertions[i], block)
}

pub open spec fn targets_binding(a: AssertionModel, block: BlockModel) -> bool {
    &&& !a.is_weak
    &&& a.target_kind != TargetKind::Literal
    &&& a.target_root is Some
    &&& block.bound_names.contains(a.target_root->0)
}

proof fn lemma_next_block(check: Check, blocks: Seq<BlockModel>, i: int, file: Seq<char>)
    requires
        0 <= i < blocks.len(),
    ensures
        check.issues(blocks.take(i + 1), file) == check.issues(blocks.take(i), file)
            + check.findings(blocks[i], file),
{
    assert(blocks.take(i + 1).drop_last() =~= blocks.take(i));
    assert(blocks.take(i + 1).last() == blocks[i]);
}

impl IssueModel {
    pub open spec fn severity(self) -> Severity {
        if text::is_listed(WARNING_RULES@, self.rule) {
            Severity::Warning
        } else {
            Severity::Blocking
        }
    }

    /// `rule: file:line name`, followed by ` (detail)` unless the detail is
    /// empty.
    pub open spec fn line_of_text(self) -> Seq<char> {
        let head = self.rule + ": "@ + self.file + ":"@ + text::decimal(self.line as nat) + " "@
            + self.test_name;
        if self.detail.len() == 0 {
            head
        } else {
            head + " ("@ + self.detail + ")"@
        }
    }
}

impl Issue {
    fn new(rule: &'static str, file: &str, line: u32, test_name: &str, detail: String) -> (r: Self)
        ensures
            r@ == (IssueModel {
                rule: rule@,
                file: file@,
                line,
                test_name: test_name@,
                detail: detail@,
            }),
    {
        Issue { rule, file: file.to_owned(), line, test_name: test_name.to_owned(), detail }
    }

    pub fn severity(&self) -> (r: Severity)
        ensures
            r == self@.severity(),
    {
        if text::listed(&WARNING_RULES, self.rule) {
            Severity::Warning
        } else {
            Severity::Blocking
        }
    }

    /// The finding as one line of text.
    pub fn to_string(&self) -> (r: String)
        ensures
            r@ == self@.line_of_text(),
    {
        let mut out: String = self.rule.to_owned();
        out.append(": ");
        out.append(self.file.as_str());
        out.append(":");
        text::push_decimal(&mut out, self.line as u64);
        out.append(" ");
        out.append(self.test_name.as_str());
        if !self.detail.as_str().is_empty() {
            out.append(" (");
            out.append(self.detail.as_str());
            out.append(")");
        }
        out
    }
}


pub open spec fn note_models(s: Seq<(u32, String)>) -> Seq<(u32, Seq<char>)> {
    Seq::new(s.len(), |i: int| (s[i].0, s[i].1@))
}

fn single(line: u32, detail: String) -> (r: Vec<(u32, String)>)
    ensures
        note_models(r@) == seq![(line, detail@)],
{
    let mut out: Vec<(u32, String)> = Vec::new();
    out.push((line, detail));
    assert(note_models(out@) =~= seq![(line, detail@)]);
    out
}

fn none() -> (r: Vec<(u32, String)>)
    ensures
        note_models(r@) == Seq::<(u32, Seq<char>)>::empty(),
{
    let out: Vec<(u32, String)> = Vec::new();
    assert(note_models(out@) =~= Seq::empty());
    out
}

fn empty_test_notes(block: &TestBlock) -> (r: Vec<(u32, String)>)
    ensures
        note_models(r@) == Check::EmptyTest.notes(block@),
{
    // A test marked todo is meant to be empty; skipped-test reports it.
    let todo: bool = match block.modifier {
        Some(TestModifier::Todo) => true,
        _ => false,
    };
    if block.has_empty_body && !todo {
        single(block.line, String::new())
    } else {
        none()
    }
}

fn skipped_test_notes(block: &TestBlock) -> (r: Vec<(u32, String)>)
    ensures
        note_models(r@) == Check::SkippedTest.notes(block@),
{
    match block.modifier {
        Some(TestModifier::Skip) => single(block.line, "skip".to_owned()),
        Some(TestModifier::Todo) => single(block.line, "todo".to_owned()),
        _ => none(),
    }
}

/// One note with the same detail for each line.
fn line_notes(lines: &Vec<u32>, detail: &str) -> (r: Vec<(u32, String)>)
    ensures
        note_models(r@) == Seq::new(lines@.len(), |i: int| (lines@[i], detail@)),
{
    let mut out: Vec<(u32, String)> = Vec::new();
    let mut i: usize = 0;
    while i < lines.len()
        invariant
            0 <= i <= lines@.len(),
            out@.len() == i,
            forall|j: int| 0 <= j < i ==> (#[trigger] out@[j]).0 == lines@[j] && out@[j].1@ == detail@,
        decreases lines@.len() - i,
    {
        out.push((lines[i], detail.to_owned()));
        i += 1;
    }
    assert(note_models(out@) =~= Seq::new(lines@.len(), |i: int| (lines@[i], detail@)));
    out
}

fn catch_swallow_notes(block: &TestBlock) -> (r: Vec<(u32, String)>)
    ensures
        note_models(r@) == Check::CatchSwallow.notes(block@),
{
    line_notes(&block.catch_swallows, "catch block has no assertions and no throw")
}

fn catch_masks_notes(block: &TestBlock) -> (r: Vec<(u32, String)>)
    ensures
        note_models(r@) == Check::CatchMasksAssertion.notes(block@),
{
    line_notes(
        &block.catch_masks,
        "try assertion swallowed by catch; use .toThrow()/.rejects.toThrow()",
    )
}

fn in_context(assertions: &Vec<Assertion>, context: AssertionContext) -> (r: bool)
    ensures
        r == all_in_context(parse::assertion_models(assertions@), context),
{
    let ghost models = parse::assertion_models(assertions@);
    let mut i: usize = 0;
    while i < assertions.len()
        invariant
            0 <= i <= assertions@.len(),
            models == parse::assertion_models(assertions@),
            forall|j: int| 0 <= j < i ==> (#[trigger] models[j]).context == context,
        decreases assertions@.len() - i,
    {
        if assertions[i].context != context {
            assert(models[i as int].context != context);
            return false;
        }
        i += 1;
    }
    true
}

/// `all <count> assertions inside <place>`.
fn all_inside(block: &TestBlock, place: &str) -> (r: String)
    ensures
        r@ == "all "@ + text::decimal(block.assertions@.len()) + place@,
{
    let mut out: String = "all ".to_owned();
    text::push_decimal(&mut out, block.assertions.len() as u64);
    out.append(place);
    out
}

fn conditional_notes(block: &TestBlock) -> (r: Vec<(u32, String)>)
    ensures
        note_models(r@) == Check::ConditionalAssertion.notes(block@),
{
    if block.assertions.len() > 0 && in_context(&block.assertions, AssertionContext::IfBranch) {
        single(block.line, all_inside(block, " assertions inside if"))
    } else {
        none()
    }
}

fn catch_only_notes(block: &TestBlock) -> (r: Vec<(u32, String)>)
    ensures
        note_models(r@) == Check::CatchOnlyAssertion.notes(block@),
{
    if block.assertions.len() > 0 && in_context(&block.assertions, AssertionContext::CatchBlock) {
        single(block.line, all_inside(block, " assertions inside catch"))
    } else {
        none()
    }
}

/// The matchers of the assertions, separated by `, `.
fn joined_matchers(assertions: &Vec<Assertion>) -> (r: String)
    ensures
        r@ == text::joined(matchers(parse::assertion_models(assertions@)), ", "@),
{
    let mut names: Vec<String> = Vec::new();
    let mut i: usize = 0;
    while i < assertions.len()
        invariant
            0 <= i <= assertions@.len(),
            names@.len() == i,
            forall|j: int| 0 <= j < i ==> (#[trigger] names@[j])@ == assertions@[j].matcher@,
        decreases assertions@.len() - i,
    {
        names.push(assertions[i].matcher.clone());
        i += 1;
    }
    assert(text::views(names@) =~= matchers(parse::assertion_models(assertions@)));
    text::join(&names, ", ")
}

fn weak_notes(block: &TestBlock) -> (r: Vec<(u32, String)>)
    ensures
        note_models(r@) == Check::WeakAssertions.notes(block@),
{
    // empty-test takes priority over weak-assertion.
    if block.has_empty_body {
        return none();
    }
    let ghost models = parse::assertion_models(block.assertions@);
    let mut i: usize = 0;
    while i < block.assertions.len()
        invariant
            0 <= i <= block.assertions@.len(),
            models == parse::assertion_models(block.assertions@),
            models == block@.assertions,
            forall|j: int| 0 <= j < i ==> (#[trigger] models[j]).is_weak,
        decreases block.assertions@.len() - i,
    {
        if !block.assertions[i].is_weak {
            assert(!models[i as int].is_weak);
            return none();
        }
        i += 1;
    }
    if block.assertions.len() == 0 {
        single(block.line, "no assertions".to_owned())
    } else {
        single(block.line, "only weak: ".to_owned().concat(joined_matchers(&block.assertions).as_str()))
    }
}

fn mock_overuse_notes(block: &TestBlock) -> (r: Vec<(u32, String)>)
    ensures
        note_models(r@) == Check::MockOveruse.notes(block@),
{
    let mocks: usize = block.mock_calls.len();
    let assertions: usize = block.assertions.len();
    if mocks > assertions {
        let mut detail: String = "mocks: ".to_owned();
        text::push_decimal(&mut detail, mocks as u64);
        detail.append(", assertions: ");
        text::push_decimal(&mut detail, assertions as u64);
        single(block.line, detail)
    } else {
        none()
    }
}

fn tautological_notes(block: &TestBlock) -> (r: Vec<(u32, String)>)
    ensures
        note_models(r@) == Check::Tautological.notes(block@),
{
    let ghost models = parse::assertion_models(block.assertions@);
    let mut out: Vec<(u32, String)> = Vec::new();
    let mut i: usize = 0;
    assert(note_models(out@) =~= tautologies(models.take(0)));
    while i < block.assertions.len()
        invariant
            0 <= i <= block.assertions@.len(),
            models == parse::assertion_models(block.assertions@),
            note_models(out@) == tautologies(models.take(i as int)),
        decreases block.assertions@.len() - i,
    {
        proof {
            assert(models.take(i + 1).drop_last() =~= models.take(i as int));
            assert(models.take(i + 1).last() == block.assertions@[i as int]@);
        }
        let a: &Assertion = &block.assertions[i];
        if a.target_kind == TargetKind::Literal {
            let ghost before = out@;
            let detail: String = "target: ".to_owned().concat(a.target.as_str());
            out.push((a.line, detail));
            assert(note_models(out@) =~= note_models(before).push((a.line, detail@)));
        }
        i += 1;
    }
    assert(models.take(models.len() as int) =~= models);
    out
}

fn mock_only_notes(block: &TestBlock) -> (r: Vec<(u32, String)>)
    ensures
        note_models(r@) == Check::MockOnly.notes(block@),
{
    if block.assertions.len() == 0 {
        return none();
    }
    let ghost models = parse::assertion_models(block.assertions@);
    let mut i: usize = 0;
    while i < block.assertions.len()
        invariant
            0 <= i <= block.assertions@.len(),
            models == parse::assertion_models(block.assertions@),
            models == block@.assertions,
            forall|j: int|
                0 <= j < i ==> text::is_listed(MOCK_MATCHERS@, (#[trigger] models[j]).matcher),
        decreases block.assertions@.len() - i,
    {
        if !text::listed(&MOCK_MATCHERS, block.assertions[i].matcher.as_str()) {
            assert(!text::is_listed(MOCK_MATCHERS@, models[i as int].matcher));
            return none();
        }
        i += 1;
    }
    single(block.line, "matchers: ".to_owned().concat(joined_matchers(&block.assertions).as_str()))
}

fn test_name_notes(block: &TestBlock) -> (r: Vec<(u32, String)>)
    ensures
        note_models(r@) == Check::TestName.notes(block@),
{
    let count: usize = text::word_count(block.name.as_str());
    if count <= 2 {
        let mut detail: String = "words: ".to_owned();
        text::push_decimal(&mut detail, count as u64);
        single(block.line, detail)
    } else {
        none()
    }
}

fn dummy_notes(block: &TestBlock) -> (r: Vec<(u32, String)>)
    ensures
        note_models(r@) == Check::DummyData.notes(block@),
{
    let ghost models = parse::dummy_models(block.dummy_literals@);
    let mut out: Vec<(u32, String)> = Vec::new();
    let mut i: usize = 0;
    while i < block.dummy_literals.len()
        invariant
            0 <= i <= block.dummy_literals@.len(),
            models == parse::dummy_models(block.dummy_literals@),
            out@.len() == i,
            forall|j: int|
                0 <= j < i ==> (#[trigger] out@[j]).0 == models[j].line && out@[j].1@
                    == "dummy value: "@ + models[j].value,
        decreases block.dummy_literals@.len() - i,
    {
        let dummy = &block.dummy_literals[i];
        out.push((dummy.line, "dummy value: ".to_owned().concat(dummy.value.as_str())));
        i += 1;
    }
    assert(note_models(out@) =~= Check::DummyData.notes(block@));
    out
}

/// Whether `names` holds `name`.
fn bound(names: &Vec<String>, name: &String) -> (r: bool)
    ensures
        r == text::views(names@).contains(name@),
{
    let mut i: usize = 0;
    while i < names.len()
        invariant
            0 <= i <= names@.len(),
            forall|j: int| 0 <= j < i ==> (#[trigger] text::views(names@)[j]) != name@,
        decreases names@.len() - i,
    {
        if text::same(names[i].as_str(), name.as_str()) {
            assert(text::views(names@)[i as int] == name@);
            return true;
        }
        i += 1;
    }
    false
}

fn missing_act_notes(block: &TestBlock) -> (r: Vec<(u32, String)>)
    ensures
        note_models(r@) == Check::MissingAct.notes(block@),
{
    if block.has_empty_body || block.has_act {
        return none();
    }
    let mut i: usize = 0;
    while i < block.assertions.len()
        invariant
            0 <= i <= block.assertions@.len(),
            !block.has_empty_body,
            !block.has_act,
            forall|j: int| 0 <= j < i ==> !targets_binding(#[trigger] block@.assertions[j], block@),
        decreases block.assertions@.len() - i,
    {
        let a: &Assertion = &block.assertions[i];
        assert(block@.assertions[i as int] == a@);
        if !a.is_weak && a.target_kind != TargetKind::Literal {
            if let Some(root) = &a.target_root {
                if bound(&block.bound_names, root) {
                    assert(targets_binding(block@.assertions[i as int], block@));
                    return single(
                        block.line,
                        "assertions present but no Act (SUT call)".to_owned(),
                    );
                }
            }
        }
        i += 1;
    }
    none()
}

fn snapshot_notes(block: &TestBlock) -> (r: Vec<(u32, String)>)
    ensures
        note_models(r@) == Check::SnapshotExternal.notes(block@),
{
    let ghost models = parse::assertion_models(block.assertions@);
    let mut out: Vec<(u32, String)> = Vec::new();
    let mut i: usize = 0;
    assert(note_models(out@) =~= snapshots(models.take(0)));
    while i < block.assertions.len()
        invariant
            0 <= i <= block.assertions@.len(),
            models == parse::assertion_models(block.assertions@),
            note_models(out@) == snapshots(models.take(i as int)),
        decreases block.assertions@.len() - i,
    {
        proof {
            assert(models.take(i + 1).drop_last() =~= models.take(i as int));
            assert(models.take(i + 1).last() == block.assertions@[i as int]@);
        }
        let a: &Assertion = &block.assertions[i];
        if text::listed(&SNAPSHOT_MATCHERS, a.matcher.as_str()) {
            let ghost before = out@;
            let detail: String = "matcher: ".to_owned().concat(a.matcher.as_str());
            out.push((a.line, detail));
            assert(note_models(out@) =~= note_models(before).push((a.line, detail@)));
        }
        i += 1;
    }
    assert(models.take(models.len() as int) =~= models);
    out
}

impl Check {
    /// The name that the findings of the rule carry.
    pub fn rule_name(self) -> (r: &'static str)
        ensures
            r@ == self.rule(),
    {
        match self {
            Check::EmptyTest => "empty-test",
            Check::SkippedTest => "skipped-test",
            Check::CatchSwallow => "catch-swallow",
            Check::CatchMasksAssertion => "catch-masks-assertion",
            Check::ConditionalAssertion => "conditional-assertion",
            Check::CatchOnlyAssertion => "catch-only-assertion",
            Check::WeakAssertions => "weak-assertion",
            Check::MockOveruse => "mock-overuse",
            Check::Tautological => "tautological",
            Check::MockOnly => "mock-only",
            Check::TestName => "test-name-quality",
            Check::DummyData => "dummy-data",
            Check::MissingAct => "missing-act",
            Check::SnapshotExternal => "snapshot-external",
        }
    }

    fn notes_of(self, block: &TestBlock) -> (r: Vec<(u32, String)>)
        ensures
            note_models(r@) == self.notes(block@),
    {
        match self {
            Check::EmptyTest => empty_test_notes(block),
            Check::SkippedTest => skipped_test_notes(block),
            Check::CatchSwallow => catch_swallow_notes(block),
            Check::CatchMasksAssertion => catch_masks_notes(block),
            Check::ConditionalAssertion => conditional_notes(block),
            Check::CatchOnlyAssertion => catch_only_notes(block),
            Check::WeakAssertions => weak_notes(block),
            Check::MockOveruse => mock_overuse_notes(block),
            Check::Tautological => tautological_notes(block),
            Check::MockOnly => mock_only_notes(block),
            Check::TestName => test_name_notes(block),
            Check::DummyData => dummy_notes(block),
            Check::MissingAct => missing_act_notes(block),
            Check::SnapshotExternal => snapshot_notes(block),
        }
    }

    /// Applies the rule to every test block of `file`.
    pub fn run(self, blocks: &[TestBlock], file: &str) -> (r: Vec<Issue>)
        ensures
            issue_models(r@) == self.issues(parse::block_models(blocks@), file@),
    {
        let ghost models = parse::block_models(blocks@);
        let mut out: Vec<Issue> = Vec::new();
        let mut i: usize = 0;
        assert(issue_models(out@) =~= self.issues(models.take(0), file@));
        while i < blocks.len()
            invariant
                0 <= i <= blocks@.len(),
                models == parse::block_models(blocks@),
                issue_models(out@) == self.issues(models.take(i as int), file@),
            decreases blocks@.len() - i,
        {
            let notes: Vec<(u32, String)> = self.notes_of(&blocks[i]);
            let ghost found = self.findings(models[i as int], file@);
            let ghost before = issue_models(out@);
            let mut j: usize = 0;
            while j < notes.len()
                invariant
                    0 <= j <= notes@.len(),
                    i < blocks@.len(),
                    models == parse::block_models(blocks@),
                    note_models(notes@) == self.notes(models[i as int]),
                    found == self.findings(models[i as int], file@),
                    issue_models(out@) == before + found.take(j as int),
                decreases notes@.len() - j,
            {
                let ghost old_out = out@;
                assert(note_models(notes@)[j as int] == (notes@[j as int].0, notes@[j as int].1@));
                let issue: Issue = Issue::new(
                    self.rule_name(),
                    file,
                    notes[j].0,
                    blocks[i].name.as_str(),
                    notes[j].1.clone(),
                );
                out.push(issue);
                assert(issue@ == found[j as int]);
                assert(issue_models(out@) =~= issue_models(old_out).push(issue@));
                assert(found.take(j + 1) =~= found.take(j as int).push(found[j as int]));
                assert(issue_models(out@) =~= before + found.take(j + 1));
                j += 1;
            }
            proof {
                assert(found.take(found.len() as int) =~= found);
                lemma_next_block(self, models, i as int, file@);
            }
            i += 1;
        }
        assert(models.take(models.len() as int) =~= models);
        out
    }
}

/// A test that does not verify anything: it has no assertion, or only weak ones.
/// An empty test is left to empty-test.
pub fn check_weak_assertions(blocks: &[TestBlock], file: &str) -> (r: Vec<Issue>)
    ensures
        issue_models(r@) == Check::WeakAssertions.issues(parse::block_models(blocks@), file@),
{
    Check::WeakAssertions.run(blocks, file)
}

/// A test that sets up more mocks than it makes assertions.
pub fn check_mock_overuse(blocks: &[TestBlock], file: &str) -> (r: Vec<Issue>)
    ensures
        issue_models(r@) == Check::MockOveruse.issues(parse::block_models(blocks@), file@),
{
    Check::MockOveruse.run(blocks, file)
}

/// An assertion about a literal, which always holds.
pub fn check_tautological(blocks: &[TestBlock], file: &str) -> (r: Vec<Issue>)
    ensures
        issue_models(r@) == Check::Tautological.issues(parse::block_models(blocks@), file@),
{
    Check::Tautological.run(blocks, file)
}

/// A test whose assertions are all about mock interactions.
pub fn check_mock_only(blocks: &[TestBlock], file: &str) -> (r: Vec<Issue>)
    ensures
        issue_models(r@) == Check::MockOnly.issues(parse::block_models(blocks@), file@),
{
    Check::MockOnly.run(blocks, file)
}

/// A test with an empty body, unless it is marked todo.
pub fn check_empty_test(blocks: &[TestBlock], file: &str) -> (r: Vec<Issue>)
    ensures
        issue_models(r@) == Check::EmptyTest.issues(parse::block_models(blocks@), file@),
{
    Check::EmptyTest.run(blocks, file)
}

/// A test that is skipped or marked todo.
pub fn check_skipped_test(blocks: &[TestBlock], file: &str) -> (r: Vec<Issue>)
    ensures
        issue_models(r@) == Check::SkippedTest.issues(parse::block_models(blocks@), file@),
{
    Check::SkippedTest.run(blocks, file)
}

/// A catch handler that neither asserts nor rethrows.
pub fn check_catch_swallow(blocks: &[TestBlock], file: &str) -> (r: Vec<Issue>)
    ensures
        issue_models(r@) == Check::CatchSwallow.issues(parse::block_models(blocks@), file@),
{
    Check::CatchSwallow.run(blocks, file)
}

/// A catch handler that asserts without rethrowing, beside a try block that
/// asserts: the failure of the try assertion never reaches the test runner.
pub fn check_catch_masks_assertion(blocks: &[TestBlock], file: &str) -> (r: Vec<Issue>)
    ensures
        issue_models(r@) == Check::CatchMasksAssertion.issues(parse::block_models(blocks@), file@),
{
    Check::CatchMasksAssertion.run(blocks, file)
}

/// A test whose assertions are all inside a conditional branch.
pub fn check_conditional_assertion(blocks: &[TestBlock], file: &str) -> (r: Vec<Issue>)
    ensures
        issue_models(r@) == Check::ConditionalAssertion.issues(parse::block_models(blocks@), file@),
{
    Check::ConditionalAssertion.run(blocks, file)
}

/// A test whose assertions are all inside a catch handler.
pub fn check_catch_only_assertion(blocks: &[TestBlock], file: &str) -> (r: Vec<Issue>)
    ensures
        issue_models(r@) == Check::CatchOnlyAssertion.issues(parse::block_models(blocks@), file@),
{
    Check::CatchOnlyAssertion.run(blocks, file)
}

/// A test whose name has at most two words.
pub fn check_test_name(blocks: &[TestBlock], file: &str) -> (r: Vec<Issue>)
    ensures
        issue_models(r@) == Check::TestName.issues(parse::block_models(blocks@), file@),
{
    Check::TestName.run(blocks, file)
}

/// A placeholder string in a test body.
pub fn check_dummy_data(blocks: &[TestBlock], file: &str) -> (r: Vec<Issue>)
    ensures
        issue_models(r@) == Check::DummyData.issues(parse::block_models(blocks@), file@),
{
    Check::DummyData.run(blocks, file)
}

/// A test that asserts on data that it arranged itself, without ever invoking
/// production code.
pub fn check_missing_act(blocks: &[TestBlock], file: &str) -> (r: Vec<Issue>)
    ensures
        issue_models(r@) == Check::MissingAct.issues(parse::block_models(blocks@), file@),
{
    Check::MissingAct.run(blocks, file)
}

/// An assertion against an external snapshot file.
pub fn check_snapshot_external(blocks: &[TestBlock], file: &str) -> (r: Vec<Issue>)
    ensures
        issue_models(r@) == Check::SnapshotExternal.issues(parse::block_models(blocks@), file@),
{
    Check::SnapshotExternal.run(blocks, file)
}

/// The findings of several rules, one rule after the other.
pub open spec fn all_issues(
    checks: Seq<Check>,
    blocks: Seq<BlockModel>,
    file: Seq<char>,
) -> Seq<IssueModel>
    decreases checks.len(),
{
    if checks.len() == 0 {
        seq![]
    } else {
        all_issues(checks.drop_last(), blocks, file) + checks.last().issues(blocks, file)
    }
}

/// Applies every rule to the test blocks of `file`.
pub fn check_all(blocks: &[TestBlock], file: &str) -> (r: Vec<Issue>)
    ensures
        issue_models(r@) == all_issues(CHECKS@, parse::block_models(blocks@), file@),
{
    let ghost models = parse::block_models(blocks@);
    let mut out: Vec<Issue> = Vec::new();
    let mut i: usize = 0;
    assert(issue_models(out@) =~= all_issues(CHECKS@.take(0), models, file@));
    while i < 14
        invariant
            0 <= i <= 14,
            models == parse::block_models(blocks@),
            issue_models(out@) == all_issues(CHECKS@.take(i as int), models, file@),
        decreases 14 - i,
    {
        let ghost before = out@;
        let mut found: Vec<Issue> = CHECKS[i].run(blocks, file);
        let ghost more = found@;
        out.append(&mut found);
        assert(CHECKS@.take(i + 1).drop_last() =~= CHECKS@.take(i as int));
        assert(issue_models(out@) =~= issue_models(before) + issue_models(more));
        i += 1;
    }
    assert(CHECKS@.take(14) =~= CHECKS@);
    out
}

} // verus!
