//! Laws of the single rules: what each reports of a test block, told by the
//! fields of the block alone.

use crate::parse::{
    AssertionContext, AssertionModel, BlockModel, MockCall, Outcome, TargetKind, TestModifier,
};
use crate::rules;
use crate::rules::{Check, IssueModel, Severity, CHECKS, MOCK_MATCHERS, SNAPSHOT_MATCHERS};
use crate::text;
use crate::Verdict;
use vstd::prelude::*;

verus! {

/// The matchers that look at the calls of a mock and at nothing else.
pub open spec fn is_about_calls(matcher: Seq<char>) -> bool {
    ||| matcher == "toHaveBeenCalled"@
    ||| matcher == "toHaveBeenCalledWith"@
    ||| matcher == "toHaveBeenCalledTimes"@
    ||| matcher == "toHaveBeenCalledOnce"@
    ||| matcher == "toHaveBeenCalledExactlyOnceWith"@
    ||| matcher == "toHaveBeenCalledBefore"@
    ||| matcher == "toHaveBeenCalledAfter"@
    ||| matcher == "toHaveBeenLastCalledWith"@
    ||| matcher == "toHaveBeenNthCalledWith"@
    ||| matcher == "toHaveReturned"@
    ||| matcher == "toHaveReturnedWith"@
    ||| matcher == "toHaveReturnedTimes"@
    ||| matcher == "toHaveLastReturnedWith"@
    ||| matcher == "toHaveNthReturnedWith"@
    ||| matcher == "toHaveResolved"@
    ||| matcher == "toHaveResolvedWith"@
    ||| matcher == "toHaveResolvedTimes"@
    ||| matcher == "toHaveLastResolvedWith"@
    ||| matcher == "toHaveNthResolvedWith"@
}

proof fn lemma_mock_matchers(matcher: Seq<char>)
    ensures
        text::is_listed(MOCK_MATCHERS@, matcher) == is_about_calls(matcher),
{
    let list = MOCK_MATCHERS@;
    assert(list.len() == 19);
    if is_about_calls(matcher) {
        assert(list[0]@ == matcher || list[1]@ == matcher || list[2]@ == matcher || list[3]@
            == matcher || list[4]@ == matcher || list[5]@ == matcher || list[6]@ == matcher
            || list[7]@ == matcher || list[8]@ == matcher || list[9]@ == matcher || list[10]@
            == matcher || list[11]@ == matcher || list[12]@ == matcher || list[13]@ == matcher
            || list[14]@ == matcher || list[15]@ == matcher || list[16]@ == matcher || list[17]@
            == matcher || list[18]@ == matcher);
    }
    if text::is_listed(list, matcher) {
        let i = choose|i: int| 0 <= i < list.len() && (#[trigger] list[i])@ == matcher;
        assert(i == 0 || i == 1 || i == 2 || i == 3 || i == 4 || i == 5 || i == 6 || i == 7 || i
            == 8 || i == 9 || i == 10 || i == 11 || i == 12 || i == 13 || i == 14 || i == 15 || i
            == 16 || i == 17 || i == 18);
    }
}

/// Exactly a test that has a body and no strong assertion is weak, however
/// many weak assertions it makes, none included.
pub proof fn law_weak_means_no_strong_assertion(block: BlockModel)
    ensures
        Check::WeakAssertions.notes(block).len() == (if !block.has_empty_body && (forall|i: int|
            0 <= i < block.assertions.len() ==> (#[trigger] block.assertions[i]).is_weak) {
            1nat
        } else {
            0nat
        }),
        Check::WeakAssertions.notes(block).len() == 1 ==> Check::WeakAssertions.notes(block)[0].0
            == block.line,
        Check::WeakAssertions.notes(block).len() == 1 && block.assertions.len() == 0
            ==> Check::WeakAssertions.notes(block)[0].1 == "no assertions"@,
        Check::WeakAssertions.notes(block).len() == 1 && block.assertions.len() == 1
            ==> Check::WeakAssertions.notes(block)[0].1 == "only weak: "@
            + block.assertions[0].matcher,
{
}

/// A weak assertion more, wherever it stands, neither takes a finding of
/// weak-assertion away nor gives one; a strong one takes it away.
pub proof fn law_only_a_strong_assertion_helps(block: BlockModel, at: int, a: AssertionModel)
    requires
        0 <= at <= block.assertions.len(),
    ensures
        Check::WeakAssertions.notes(
            BlockModel { assertions: block.assertions.insert(at, a), ..block },
        ).len() == (if a.is_weak {
            Check::WeakAssertions.notes(block).len()
        } else {
            0
        }),
{
    let s = block.assertions;
    let t = s.insert(at, a);
    let after = BlockModel { assertions: t, ..block };
    law_weak_means_no_strong_assertion(block);
    law_weak_means_no_strong_assertion(after);
    assert(t[at] == a);
    assert forall|i: int| 0 <= i < s.len() implies #[trigger] s[i] == t[if i < at {
        i
    } else {
        i + 1
    }] by {}
    assert forall|i: int| 0 <= i < t.len() && i != at implies #[trigger] t[i] == s[if i < at {
        i
    } else {
        i - 1
    }] by {}
}

/// The detail of weak-assertion and of mock-only names every matcher, in
/// order: one assertion more adds its matcher behind the others.
pub proof fn law_details_name_every_matcher(block: BlockModel, a: AssertionModel)
    requires
        block.assertions.len() > 0,
    ensures
        ({
            let after = BlockModel { assertions: block.assertions.push(a), ..block };
            let weak = Check::WeakAssertions;
            let mock = Check::MockOnly;
            &&& weak.notes(block).len() == 1 && weak.notes(after).len() == 1 ==> weak.notes(
                after,
            )[0].1 == weak.notes(block)[0].1 + ", "@ + a.matcher
            &&& mock.notes(block).len() == 1 && mock.notes(after).len() == 1 ==> mock.notes(
                after,
            )[0].1 == mock.notes(block)[0].1 + ", "@ + a.matcher
        }),
{
    let s = block.assertions;
    let t = s.push(a);
    assert(rules::matchers(t).drop_last() =~= rules::matchers(s));
    assert(rules::matchers(t).last() == a.matcher);
    let names = text::joined(rules::matchers(s), ", "@);
    assert("only weak: "@ + (names + ", "@ + a.matcher) =~= "only weak: "@ + names + ", "@
        + a.matcher);
    assert("matchers: "@ + (names + ", "@ + a.matcher) =~= "matchers: "@ + names + ", "@
        + a.matcher);
}

/// Exactly an empty test that is not marked todo is reported as empty, on its
/// line.
pub proof fn law_empty_test_is_reported(block: BlockModel)
    ensures
        Check::EmptyTest.notes(block) == (if block.has_empty_body && block.modifier != Some(
            TestModifier::Todo,
        ) {
            seq![(block.line, Seq::<char>::empty())]
        } else {
            seq![]
        }),
{
}

/// Exactly a test marked skip or todo is reported as skipped, by the name of
/// its modifier, whatever it holds.
pub proof fn law_skipped_test_is_reported(block: BlockModel)
    ensures
        block.modifier == Some(TestModifier::Skip) ==> Check::SkippedTest.notes(block) == seq![
            (block.line, "skip"@),
        ],
        block.modifier == Some(TestModifier::Todo) ==> Check::SkippedTest.notes(block) == seq![
            (block.line, "todo"@),
        ],
        block.modifier is None || block.modifier == Some(TestModifier::Only)
            ==> Check::SkippedTest.notes(block).len() == 0,
{
}

/// Every catch handler that was found to swallow or to mask is reported, each
/// on its own line and in order.
pub proof fn law_every_catch_handler_is_reported(block: BlockModel)
    ensures
        Check::CatchSwallow.notes(block).len() == block.catch_swallows.len(),
        forall|i: int|
            0 <= i < block.catch_swallows.len() ==> (#[trigger] Check::CatchSwallow.notes(block)[i])
                == (block.catch_swallows[i], "catch block has no assertions and no throw"@),
        Check::CatchMasksAssertion.notes(block).len() == block.catch_masks.len(),
        forall|i: int|
            0 <= i < block.catch_masks.len() ==> (#[trigger] Check::CatchMasksAssertion.notes(
                block,
            )[i]) == (
                block.catch_masks[i],
                "try assertion swallowed by catch; use .toThrow()/.rejects.toThrow()"@,
            ),
{
}

/// Exactly a test that asserts, and asserts under a condition only, is
/// reported by conditional-assertion, however many assertions it makes; and
/// likewise for catch handlers and catch-only-assertion.
pub proof fn law_sheltered_assertions_are_reported(block: BlockModel)
    ensures
        Check::ConditionalAssertion.notes(block).len() == (if block.assertions.len() > 0 && (
        forall|i: int|
            0 <= i < block.assertions.len() ==> (#[trigger] block.assertions[i]).context
                == AssertionContext::IfBranch) {
            1nat
        } else {
            0nat
        }),
        Check::CatchOnlyAssertion.notes(block).len() == (if block.assertions.len() > 0 && (forall|
            i: int,
        |
            0 <= i < block.assertions.len() ==> (#[trigger] block.assertions[i]).context
                == AssertionContext::CatchBlock) {
            1nat
        } else {
            0nat
        }),
        Check::ConditionalAssertion.notes(block).len() == 1 ==> Check::ConditionalAssertion.notes(
            block,
        )[0] == (
            block.line,
            "all "@ + text::decimal(block.assertions.len()) + " assertions inside if"@,
        ),
        Check::CatchOnlyAssertion.notes(block).len() == 1 ==> Check::CatchOnlyAssertion.notes(
            block,
        )[0] == (
            block.line,
            "all "@ + text::decimal(block.assertions.len()) + " assertions inside catch"@,
        ),
{
}

/// Exactly a test that sets up more mocks than it makes assertions is
/// reported by mock-overuse. A mock more never takes the finding away, an
/// assertion more never gives one, and both together change nothing.
pub proof fn law_mocks_are_weighed_against_assertions(
    block: BlockModel,
    m: MockCall,
    a: AssertionModel,
)
    ensures
        Check::MockOveruse.notes(block).len() == (if block.mock_calls.len()
            > block.assertions.len() {
            1nat
        } else {
            0nat
        }),
        Check::MockOveruse.notes(block).len() == 1 ==> Check::MockOveruse.notes(block)[0] == (
            block.line,
            "mocks: "@ + text::decimal(block.mock_calls.len()) + ", assertions: "@ + text::decimal(
                block.assertions.len(),
            ),
        ),
        Check::MockOveruse.notes(
            BlockModel { mock_calls: block.mock_calls.push(m), ..block },
        ).len() >= Check::MockOveruse.notes(block).len(),
        Check::MockOveruse.notes(
            BlockModel { assertions: block.assertions.push(a), ..block },
        ).len() <= Check::MockOveruse.notes(block).len(),
        Check::MockOveruse.notes(
            BlockModel {
                mock_calls: block.mock_calls.push(m),
                assertions: block.assertions.push(a),
                ..block
            },
        ).len() == Check::MockOveruse.notes(block).len(),
{
}

/// Every assertion about a literal is reported by tautological, and every one
/// with the matcher `toMatchSnapshot` by snapshot-external, on its own line:
/// one assertion more adds its own note, if it has one, behind the others.
pub proof fn law_assertions_are_noted_one_by_one(block: BlockModel, a: AssertionModel)
    ensures
        ({
            let after = BlockModel { assertions: block.assertions.push(a), ..block };
            let none = BlockModel { assertions: seq![], ..block };
            &&& Check::Tautological.notes(none).len() == 0
            &&& Check::Tautological.notes(after) == Check::Tautological.notes(block) + (
            if a.target_kind == TargetKind::Literal {
                seq![(a.line, "target: "@ + a.target)]
            } else {
                seq![]
            })
            &&& Check::SnapshotExternal.notes(none).len() == 0
            &&& Check::SnapshotExternal.notes(after) == Check::SnapshotExternal.notes(block) + (
            if a.matcher == "toMatchSnapshot"@ {
                seq![(a.line, "matcher: "@ + a.matcher)]
            } else {
                seq![]
            })
        }),
{
    let s = block.assertions;
    assert(s.push(a).drop_last() =~= s);
    assert(SNAPSHOT_MATCHERS@.len() == 1);
    assert(SNAPSHOT_MATCHERS@[0]@ == "toMatchSnapshot"@);
    assert(text::is_listed(SNAPSHOT_MATCHERS@, a.matcher) == (a.matcher == "toMatchSnapshot"@));
    let after = BlockModel { assertions: s.push(a), ..block };
    assert(Check::Tautological.notes(after) =~= Check::Tautological.notes(block) + (
    if a.target_kind == TargetKind::Literal {
        seq![(a.line, "target: "@ + a.target)]
    } else {
        seq![]
    }));
    assert(Check::SnapshotExternal.notes(after) =~= Check::SnapshotExternal.notes(block) + (
    if a.matcher == "toMatchSnapshot"@ {
        seq![(a.line, "matcher: "@ + a.matcher)]
    } else {
        seq![]
    }));
}

/// Exactly a test that asserts, and asserts about the calls of mocks only, is
/// reported by mock-only.
pub proof fn law_mock_only_means_no_other_matcher(block: BlockModel)
    ensures
        Check::MockOnly.notes(block).len() == (if block.assertions.len() > 0 && (forall|i: int|
            0 <= i < block.assertions.len() ==> is_about_calls(
                (#[trigger] block.assertions[i]).matcher,
            )) {
            1nat
        } else {
            0nat
        }),
        Check::MockOnly.notes(block).len() == 1 ==> Check::MockOnly.notes(block)[0].0
            == block.line,
        Check::MockOnly.notes(block).len() == 1 && block.assertions.len() == 1
            ==> Check::MockOnly.notes(block)[0].1 == "matchers: "@ + block.assertions[0].matcher,
{
    assert forall|i: int| 0 <= i < block.assertions.len() implies text::is_listed(
        MOCK_MATCHERS@,
        (#[trigger] block.assertions[i]).matcher,
    ) == is_about_calls(block.assertions[i].matcher) by {
        lemma_mock_matchers(block.assertions[i].matcher);
    }
}

/// A test name is too short if it has at most two words, whatever stands in
/// the test.
pub proof fn law_short_names_are_reported(block: BlockModel)
    ensures
        Check::TestName.notes(block) == (if text::words(block.name) <= 2 {
            seq![(block.line, "words: "@ + text::decimal(text::words(block.name)))]
        } else {
            seq![]
        }),
{
}

/// Words are what white space parts: white space between two texts adds up
/// their words, a text without white space is one word, and white space alone
/// is none.
pub proof fn law_white_space_parts_words(a: Seq<char>, space: char, b: Seq<char>)
    requires
        text::is_space(space),
    ensures
        text::words(a + seq![space] + b) == text::words(a) + text::words(b),
        text::words(seq![]) == 0,
        text::words(seq![space]) == 0,
        a.len() > 0 && (forall|i: int| 0 <= i < a.len() ==> !text::is_space(#[trigger] a[i]))
            ==> text::words(a) == 1,
    decreases b.len(),
{
    lemma_words_of_one(a);
    assert(seq![space].drop_last() =~= seq![]);
    let whole = a + seq![space] + b;
    if b.len() == 0 {
        assert(whole.drop_last() =~= a);
    } else {
        law_white_space_parts_words(a, space, b.drop_last());
        assert(whole.drop_last() =~= a + seq![space] + b.drop_last());
        assert(whole.last() == b.last());
        if b.len() == 1 {
            assert(whole[whole.len() - 2] == space);
        } else {
            assert(whole[whole.len() - 2] == b[b.len() - 2]);
        }
    }
}

proof fn lemma_words_of_one(a: Seq<char>)
    ensures
        a.len() > 0 && (forall|i: int| 0 <= i < a.len() ==> !text::is_space(#[trigger] a[i]))
            ==> text::words(a) == 1,
    decreases a.len(),
{
    if a.len() > 0 && (forall|i: int| 0 <= i < a.len() ==> !text::is_space(#[trigger] a[i])) {
        let before = a.drop_last();
        assert(!text::is_space(a[a.len() - 1]));
        if a.len() == 1 {
            assert(before =~= seq![]);
            assert(text::words(before) == 0);
        } else {
            assert forall|i: int| 0 <= i < before.len() implies !text::is_space(
                #[trigger] before[i],
            ) by {
                assert(before[i] == a[i]);
            }
            lemma_words_of_one(before);
            assert(!text::is_space(a[a.len() - 2]));
        }
    }
}

/// White space is what Unicode calls so: the blank, the control characters
/// from the tab to the carriage return, and the blanks beyond ASCII.
pub proof fn law_white_space_is_that_of_unicode(c: char)
    ensures
        text::is_space(c) <==> ({
            let code = c as int;
            ||| 0x09 <= code <= 0x0d
            ||| code == 0x20
            ||| code == 0x85
            ||| code == 0xa0
            ||| code == 0x1680
            ||| 0x2000 <= code <= 0x200a
            ||| code == 0x2028
            ||| code == 0x2029
            ||| code == 0x202f
            ||| code == 0x205f
            ||| code == 0x3000
        }),
{
}

/// Every placeholder of a test is reported by dummy-data, on its own line and
/// in order.
pub proof fn law_every_placeholder_is_reported(block: BlockModel)
    ensures
        Check::DummyData.notes(block).len() == block.dummy_literals.len(),
        forall|i: int|
            0 <= i < block.dummy_literals.len() ==> (#[trigger] Check::DummyData.notes(block)[i])
                == (
                block.dummy_literals[i].line,
                "dummy value: "@ + block.dummy_literals[i].value,
            ),
{
}

/// Exactly a test that has a body, does not act, and makes a strong assertion
/// on something that it bound itself and that is no literal, is reported by
/// missing-act. Other assertions beside that one do not matter.
pub proof fn law_missing_act_is_reported(block: BlockModel)
    ensures
        Check::MissingAct.notes(block) == (if !block.has_empty_body && !block.has_act && (exists|
            i: int,
            k: int,
        |
            #![trigger block.assertions[i], block.bound_names[k]]
            0 <= i < block.assertions.len() && 0 <= k < block.bound_names.len()
                && !block.assertions[i].is_weak && block.assertions[i].target_kind
                != TargetKind::Literal && block.assertions[i].target_root == Some(
                block.bound_names[k],
            )) {
            seq![(block.line, "assertions present but no Act (SUT call)"@)]
        } else {
            seq![]
        }),
{
    let s = block.assertions;
    let names = block.bound_names;
    if rules::asserts_arranged(block) {
        let i = choose|i: int|
            0 <= i < s.len() && rules::targets_binding(#[trigger] s[i], block);
        let k = choose|k: int| 0 <= k < names.len() && names[k] == s[i].target_root->0;
        assert(s[i].target_root == Some(names[k]));
    }
    if exists|i: int, k: int|
        #![trigger s[i], names[k]]
        0 <= i < s.len() && 0 <= k < names.len() && !s[i].is_weak && s[i].target_kind
            != TargetKind::Literal && s[i].target_root == Some(names[k]) {
        let (i, k) = choose|i: int, k: int|
            #![trigger s[i], names[k]]
            0 <= i < s.len() && 0 <= k < names.len() && !s[i].is_weak && s[i].target_kind
                != TargetKind::Literal && s[i].target_root == Some(names[k]);
        assert(names.contains(names[k]));
        assert(rules::targets_binding(s[i], block));
    }
}

/// A finding is its note, under the name of the rule, with the file and the
/// name of the test; a rule has one finding for each of its notes.
pub proof fn law_notes_become_findings(check: Check, block: BlockModel, file: Seq<char>, i: int)
    ensures
        check.findings(block, file).len() == check.notes(block).len(),
        0 <= i < check.notes(block).len() ==> check.findings(block, file)[i] == (IssueModel {
            rule: check.rule(),
            file,
            line: check.notes(block)[i].0,
            test_name: block.name,
            detail: check.notes(block)[i].1,
        }),
        check.issues(seq![block], file) == check.findings(block, file),
{
    assert(seq![block].drop_last() =~= seq![]);
    assert(check.issues(seq![block].drop_last(), file) =~= seq![]);
    assert(check.issues(seq![block], file) =~= check.findings(block, file));
}

/// Every test is put to every rule, and nothing else is reported: the findings
/// of a file are those of each rule in turn.
pub proof fn law_every_rule_reports(tests: Seq<BlockModel>, file: Seq<char>)
    ensures
        crate::verdict_of(Outcome::Blocks(tests), file) == Verdict::Issues(
            Check::EmptyTest.issues(tests, file) + Check::SkippedTest.issues(tests, file)
                + Check::CatchSwallow.issues(tests, file) + Check::CatchMasksAssertion.issues(
                tests,
                file,
            ) + Check::ConditionalAssertion.issues(tests, file) + Check::CatchOnlyAssertion.issues(
                tests,
                file,
            ) + Check::WeakAssertions.issues(tests, file) + Check::MockOveruse.issues(tests, file)
                + Check::Tautological.issues(tests, file) + Check::MockOnly.issues(tests, file)
                + Check::TestName.issues(tests, file) + Check::DummyData.issues(tests, file)
                + Check::MissingAct.issues(tests, file) + Check::SnapshotExternal.issues(
                tests,
                file,
            ),
        ),
{
    let c = CHECKS@;
    assert(c.take(0) =~= seq![]);
    let none = rules::all_issues(c.take(0), tests, file);
    let first = Check::EmptyTest.issues(tests, file);
    lemma_next_rule(c, 0, tests, file);
    assert(none + first =~= first);
    lemma_next_rule(c, 1, tests, file);
    lemma_next_rule(c, 2, tests, file);
    lemma_next_rule(c, 3, tests, file);
    lemma_next_rule(c, 4, tests, file);
    lemma_next_rule(c, 5, tests, file);
    lemma_next_rule(c, 6, tests, file);
    lemma_next_rule(c, 7, tests, file);
    lemma_next_rule(c, 8, tests, file);
    lemma_next_rule(c, 9, tests, file);
    lemma_next_rule(c, 10, tests, file);
    lemma_next_rule(c, 11, tests, file);
    lemma_next_rule(c, 12, tests, file);
    lemma_next_rule(c, 13, tests, file);
    assert(c.take(14) =~= c);
}

proof fn lemma_next_rule(checks: Seq<Check>, i: int, tests: Seq<BlockModel>, file: Seq<char>)
    requires
        0 <= i < checks.len(),
    ensures
        rules::all_issues(checks.take(i + 1), tests, file) == rules::all_issues(
            checks.take(i),
            tests,
            file,
        ) + checks[i].issues(tests, file),
{
    assert(checks.take(i + 1).drop_last() =~= checks.take(i));
    assert(checks.take(i + 1).last() == checks[i]);
}

/// Every note of every rule on every test of a file is among the findings of
/// the file, whatever the other tests are.
pub proof fn law_no_finding_is_lost(
    check: Check,
    tests: Seq<BlockModel>,
    file: Seq<char>,
    k: int,
    j: int,
)
    requires
        0 <= k < tests.len(),
        0 <= j < check.notes(tests[k]).len(),
    ensures
        check.issues(tests, file).contains(
            IssueModel {
                rule: check.rule(),
                file,
                line: check.notes(tests[k])[j].0,
                test_name: tests[k].name,
                detail: check.notes(tests[k])[j].1,
            },
        ),
    decreases tests.len(),
{
    let before = check.issues(tests.drop_last(), file);
    let last = check.findings(tests.last(), file);
    let all = check.issues(tests, file);
    if k == tests.len() - 1 {
        assert(all[before.len() + j] == last[j]);
    } else {
        law_no_finding_is_lost(check, tests.drop_last(), file, k, j);
        let issue = IssueModel {
            rule: check.rule(),
            file,
            line: check.notes(tests[k])[j].0,
            test_name: tests[k].name,
            detail: check.notes(tests[k])[j].1,
        };
        assert(tests.drop_last()[k] == tests[k]);
        let i = choose|i: int| 0 <= i < before.len() && before[i] == issue;
        assert(all[i] == issue);
    }
}

/// The three advisory rules, by their names; every other name is blocking.
pub proof fn law_severity_by_name(issue: IssueModel)
    ensures
        issue.severity() == Severity::Warning <==> (issue.rule == "dummy-data"@ || issue.rule
            == "missing-act"@ || issue.rule == "snapshot-external"@),
{
    let list = rules::WARNING_RULES@;
    assert(list[0]@ == "dummy-data"@ && list[1]@ == "missing-act"@ && list[2]@
        == "snapshot-external"@);
    if text::is_listed(list, issue.rule) {
        let i = choose|i: int| 0 <= i < list.len() && (#[trigger] list[i])@ == issue.rule;
        assert(i == 0 || i == 1 || i == 2);
    }
}

/// The name under which each rule reports.
pub proof fn law_rules_have_these_names()
    ensures
        Check::EmptyTest.rule() == "empty-test"@,
        Check::SkippedTest.rule() == "skipped-test"@,
        Check::CatchSwallow.rule() == "catch-swallow"@,
        Check::CatchMasksAssertion.rule() == "catch-masks-assertion"@,
        Check::ConditionalAssertion.rule() == "conditional-assertion"@,
        Check::CatchOnlyAssertion.rule() == "catch-only-assertion"@,
        Check::WeakAssertions.rule() == "weak-assertion"@,
        Check::MockOveruse.rule() == "mock-overuse"@,
        Check::Tautological.rule() == "tautological"@,
        Check::MockOnly.rule() == "mock-only"@,
        Check::TestName.rule() == "test-name-quality"@,
        Check::DummyData.rule() == "dummy-data"@,
        Check::MissingAct.rule() == "missing-act"@,
        Check::SnapshotExternal.rule() == "snapshot-external"@,
{
}

/// A finding as a line: rule, file, line and test; its detail, where it has
/// one, in parentheses behind them.
pub proof fn law_finding_line_names_everything(issue: IssueModel)
    ensures
        (IssueModel { detail: seq![], ..issue }).line_of_text() == issue.rule + ": "@ + issue.file
            + ":"@ + text::decimal(issue.line as nat) + " "@ + issue.test_name,
        issue.detail.len() > 0 ==> issue.line_of_text() == (IssueModel {
            detail: seq![],
            ..issue
        }).line_of_text() + " ("@ + issue.detail + ")"@,
{
}

} // verus!
