//! Laws of the rules and their findings.

use crate::parse;
use crate::parse::{AssertionContext, AssertionModel, BlockModel, TestModifier};
use crate::rules;
use crate::rules::{Check, IssueModel, Severity, CHECKS, RULE_CATALOG, WARNING_RULES};
use crate::text;
use vstd::prelude::*;

verus! {

/// The rules and the catalog name each other one for one: every rule has a
/// name in the catalog, every name in the catalog is the name of a rule, and
/// no two rules share a name.
pub proof fn law_catalog_names_every_rule(check: Check, other: Check, i: int)
    requires
        0 <= i < RULE_CATALOG@.len(),
    ensures
        text::is_listed(RULE_CATALOG@, check.rule()),
        exists|c: Check| #[trigger] c.rule() == RULE_CATALOG@[i]@,
        check.rule() == other.rule() ==> check == other,
        exists|k: int| 0 <= k < CHECKS@.len() && #[trigger] CHECKS@[k] == check,
{
    let position = match check {
        Check::CatchMasksAssertion => 0int,
        Check::CatchOnlyAssertion => 1,
        Check::CatchSwallow => 2,
        Check::ConditionalAssertion => 3,
        Check::DummyData => 4,
        Check::EmptyTest => 5,
        Check::MissingAct => 6,
        Check::MockOnly => 7,
        Check::MockOveruse => 8,
        Check::SkippedTest => 9,
        Check::SnapshotExternal => 10,
        Check::Tautological => 11,
        Check::TestName => 12,
        Check::WeakAssertions => 13,
    };
    assert(RULE_CATALOG@[position]@ == check.rule());
    let named = if i == 0 {
        Check::CatchMasksAssertion
    } else if i == 1 {
        Check::CatchOnlyAssertion
    } else if i == 2 {
        Check::CatchSwallow
    } else if i == 3 {
        Check::ConditionalAssertion
    } else if i == 4 {
        Check::DummyData
    } else if i == 5 {
        Check::EmptyTest
    } else if i == 6 {
        Check::MissingAct
    } else if i == 7 {
        Check::MockOnly
    } else if i == 8 {
        Check::MockOveruse
    } else if i == 9 {
        Check::SkippedTest
    } else if i == 10 {
        Check::SnapshotExternal
    } else if i == 11 {
        Check::Tautological
    } else if i == 12 {
        Check::TestName
    } else {
        Check::WeakAssertions
    };
    assert(named.rule() == RULE_CATALOG@[i]@);
    let place = match check {
        Check::EmptyTest => 0int,
        Check::SkippedTest => 1,
        Check::CatchSwallow => 2,
        Check::CatchMasksAssertion => 3,
        Check::ConditionalAssertion => 4,
        Check::CatchOnlyAssertion => 5,
        Check::WeakAssertions => 6,
        Check::MockOveruse => 7,
        Check::Tautological => 8,
        Check::MockOnly => 9,
        Check::TestName => 10,
        Check::DummyData => 11,
        Check::MissingAct => 12,
        Check::SnapshotExternal => 13,
    };
    assert(CHECKS@[place] == check);
    lemma_rule_names();
}

/// The rule names differ from each other: by length, or by the character at
/// some place.
proof fn lemma_rule_names()
    ensures
        forall|a: Check, b: Check| #![trigger a.rule(), b.rule()] a.rule() == b.rule() ==> a == b,
{
    reveal_strlit("empty-test");
    reveal_strlit("skipped-test");
    reveal_strlit("catch-swallow");
    reveal_strlit("catch-masks-assertion");
    reveal_strlit("conditional-assertion");
    reveal_strlit("catch-only-assertion");
    reveal_strlit("weak-assertion");
    reveal_strlit("mock-overuse");
    reveal_strlit("tautological");
    reveal_strlit("mock-only");
    reveal_strlit("test-name-quality");
    reveal_strlit("dummy-data");
    reveal_strlit("missing-act");
    reveal_strlit("snapshot-external");
    assert forall|a: Check, b: Check| #![trigger a.rule(), b.rule()] a.rule() == b.rule() implies a
        == b by {
        let (x, y) = (a.rule(), b.rule());
        assert(x.len() == y.len());
        assert(x[0] == y[0] && x[1] == y[1] && x[6] == y[6] && x[7] == y[7]);
    }
}

/// Exactly the findings of dummy-data, missing-act and snapshot-external are
/// advisory; those of every other rule are blocking.
pub proof fn law_severity_follows_the_rule(
    check: Check,
    block: BlockModel,
    file: Seq<char>,
    i: int,
)
    requires
        0 <= i < check.findings(block, file).len(),
    ensures
        check.findings(block, file)[i].severity() == Severity::Warning <==> (check
            == Check::DummyData || check == Check::MissingAct || check == Check::SnapshotExternal),
{
    lemma_rule_names();
    assert(WARNING_RULES@[0]@ == Check::DummyData.rule());
    assert(WARNING_RULES@[1]@ == Check::MissingAct.rule());
    assert(WARNING_RULES@[2]@ == Check::SnapshotExternal.rule());
    assert(check.findings(block, file)[i].rule == check.rule());
}

/// Every advisory rule is in the catalog.
pub proof fn law_warning_rules_are_in_the_catalog(rule: Seq<char>)
    requires
        text::is_listed(WARNING_RULES@, rule),
    ensures
        text::is_listed(RULE_CATALOG@, rule),
{
    assert(RULE_CATALOG@[4]@ == WARNING_RULES@[0]@);
    assert(RULE_CATALOG@[6]@ == WARNING_RULES@[1]@);
    assert(RULE_CATALOG@[10]@ == WARNING_RULES@[2]@);
}

/// Every finding is about the analyzed file and one of its tests, and carries
/// a rule of the catalog.
pub proof fn law_findings_name_file_test_and_rule(
    checks: Seq<Check>,
    tests: Seq<BlockModel>,
    file: Seq<char>,
    i: int,
)
    requires
        0 <= i < rules::all_issues(checks, tests, file).len(),
    ensures
        rules::all_issues(checks, tests, file)[i].file == file,
        text::is_listed(RULE_CATALOG@, rules::all_issues(checks, tests, file)[i].rule),
        exists|k: int|
            0 <= k < tests.len() && (#[trigger] tests[k]).name == rules::all_issues(
                checks,
                tests,
                file,
            )[i].test_name,
    decreases checks.len(),
{
    let before = rules::all_issues(checks.drop_last(), tests, file);
    let last = checks.last().issues(tests, file);
    if i < before.len() {
        law_findings_name_file_test_and_rule(checks.drop_last(), tests, file, i);
    } else {
        assert(rules::all_issues(checks, tests, file)[i] == last[i - before.len()]);
        lemma_issues_name_file_and_test(checks.last(), tests, file, i - before.len());
        law_catalog_names_every_rule(checks.last(), checks.last(), 0);
    }
}

proof fn lemma_issues_name_file_and_test(
    check: Check,
    tests: Seq<BlockModel>,
    file: Seq<char>,
    i: int,
)
    requires
        0 <= i < check.issues(tests, file).len(),
    ensures
        check.issues(tests, file)[i].file == file,
        check.issues(tests, file)[i].rule == check.rule(),
        exists|k: int|
            0 <= k < tests.len() && (#[trigger] tests[k]).name == check.issues(
                tests,
                file,
            )[i].test_name,
    decreases tests.len(),
{
    let before = check.issues(tests.drop_last(), file);
    if i < before.len() {
        lemma_issues_name_file_and_test(check, tests.drop_last(), file, i);
        let k = choose|k: int|
            0 <= k < tests.drop_last().len() && (#[trigger] tests.drop_last()[k]).name
                == before[i].test_name;
        assert(tests[k].name == before[i].test_name);
    } else {
        assert(check.issues(tests, file)[i] == check.findings(tests.last(), file)[i
            - before.len()]);
        assert(tests[tests.len() - 1].name == check.issues(tests, file)[i].test_name);
    }
}

/// An empty test is reported as empty, or as todo, and never as weak or as
/// missing its act.
pub proof fn law_empty_test_takes_priority(block: BlockModel)
    requires
        block.has_empty_body,
    ensures
        Check::WeakAssertions.notes(block).len() == 0,
        Check::MissingAct.notes(block).len() == 0,
        block.modifier != Some(TestModifier::Todo) ==> Check::EmptyTest.notes(block).len() == 1,
        block.modifier == Some(TestModifier::Todo) ==> Check::EmptyTest.notes(block).len() == 0
            && Check::SkippedTest.notes(block).len() == 1,
{
}

/// A test that makes assertions has them all inside a branch or all inside a
/// catch handler, but not both.
pub proof fn law_conditional_and_catch_only_exclude_each_other(block: BlockModel)
    ensures
        Check::ConditionalAssertion.notes(block).len() == 0 || Check::CatchOnlyAssertion.notes(
            block,
        ).len() == 0,
{
    if block.assertions.len() > 0 {
        assert(block.assertions[0].context != AssertionContext::IfBranch
            || block.assertions[0].context != AssertionContext::CatchBlock);
    }
}

/// A test whose assertions are all weak is left to weak-assertion, and one
/// whose assertions are all about literals to tautological: missing-act does
/// not report either.
pub proof fn law_missing_act_defers(block: BlockModel)
    ensures
        Check::WeakAssertions.notes(block).len() == 0 || Check::MissingAct.notes(block).len() == 0,
        (forall|i: int|
            0 <= i < block.assertions.len() ==> (#[trigger] block.assertions[i]).target_kind
                == parse::TargetKind::Literal) ==> Check::MissingAct.notes(block).len() == 0,
        block.has_act ==> Check::MissingAct.notes(block).len() == 0,
        block.bound_names.len() == 0 ==> Check::MissingAct.notes(block).len() == 0,
{
}

/// Findings of a test do not depend on the other tests of the file: the
/// findings of two lists of tests are those of the first and those of the
/// second.
pub proof fn law_tests_are_judged_one_by_one(
    check: Check,
    a: Seq<BlockModel>,
    b: Seq<BlockModel>,
    file: Seq<char>,
)
    ensures
        check.issues(a + b, file) == check.issues(a, file) + check.issues(b, file),
    decreases b.len(),
{
    if b.len() == 0 {
        assert(a + b =~= a);
        assert(check.issues(a, file) + check.issues(b, file) =~= check.issues(a, file));
    } else {
        assert((a + b).drop_last() =~= a + b.drop_last());
        law_tests_are_judged_one_by_one(check, a, b.drop_last(), file);
        assert(check.issues(a + b, file) =~= check.issues(a, file) + check.issues(b, file));
    }
}

/// A file without tests has no findings.
pub proof fn law_no_tests_no_findings(checks: Seq<Check>, file: Seq<char>)
    ensures
        rules::all_issues(checks, seq![], file) == Seq::<IssueModel>::empty(),
    decreases checks.len(),
{
    if checks.len() > 0 {
        law_no_tests_no_findings(checks.drop_last(), file);
        assert(rules::all_issues(checks, seq![], file) =~= seq![]);
    }
}

/// How many assertions satisfy `p`.
spec fn count(s: Seq<AssertionModel>, p: spec_fn(AssertionModel) -> bool) -> nat
    decreases s.len(),
{
    if s.len() == 0 {
        0
    } else {
        count(s.drop_last(), p) + (if p(s.last()) {
            1nat
        } else {
            0nat
        })
    }
}

proof fn lemma_count_remove(s: Seq<AssertionModel>, k: int, p: spec_fn(AssertionModel) -> bool)
    requires
        0 <= k < s.len(),
    ensures
        count(s, p) == count(s.remove(k), p) + (if p(s[k]) {
            1nat
        } else {
            0nat
        }),
    decreases s.len(),
{
    if k == s.len() - 1 {
        assert(s.remove(k) =~= s.drop_last());
    } else {
        lemma_count_remove(s.drop_last(), k, p);
        assert(s.remove(k).drop_last() =~= s.drop_last().remove(k));
        assert(s.remove(k).last() == s.last());
    }
}

proof fn lemma_count_permuted(
    s: Seq<AssertionModel>,
    t: Seq<AssertionModel>,
    p: spec_fn(AssertionModel) -> bool,
)
    requires
        s.to_multiset() == t.to_multiset(),
    ensures
        count(s, p) == count(t, p),
        s.len() == t.len(),
    decreases s.len(),
{
    broadcast use vstd::seq_lib::group_to_multiset_ensures;

    assert(s.len() == s.to_multiset().len());
    assert(t.len() == t.to_multiset().len());
    if s.len() > 0 {
        let x = s.last();
        assert(s.contains(x));
        assert(t.to_multiset().count(x) > 0);
        assert(t.contains(x));
        let k = choose|k: int| 0 <= k < t.len() && t[k] == x;
        assert(s.remove(s.len() - 1) =~= s.drop_last());
        assert(s.drop_last().to_multiset() =~= t.remove(k).to_multiset());
        lemma_count_permuted(s.drop_last(), t.remove(k), p);
        lemma_count_remove(t, k, p);
    }
}

proof fn lemma_all_by_count(s: Seq<AssertionModel>, p: spec_fn(AssertionModel) -> bool)
    ensures
        count(s, p) <= s.len(),
        (count(s, p) == s.len()) == (forall|i: int| 0 <= i < s.len() ==> p(#[trigger] s[i])),
    decreases s.len(),
{
    if s.len() > 0 {
        lemma_all_by_count(s.drop_last(), p);
        if forall|i: int| 0 <= i < s.len() ==> p(#[trigger] s[i]) {
            assert forall|i: int| 0 <= i < s.drop_last().len() implies p(
                #[trigger] s.drop_last()[i],
            ) by {
                assert(p(s[i]));
            }
            assert(p(s[s.len() - 1]));
        } else if count(s, p) == s.len() {
            assert forall|i: int| 0 <= i < s.len() implies p(#[trigger] s[i]) by {
                if i < s.len() - 1 {
                    assert(p(s.drop_last()[i]));
                }
            }
        }
    }
}

proof fn lemma_notes_by_count(s: Seq<AssertionModel>)
    ensures
        rules::tautologies(s).len() == count(
            s,
            |a: AssertionModel| a.target_kind == parse::TargetKind::Literal,
        ),
        rules::snapshots(s).len() == count(
            s,
            |a: AssertionModel| text::is_listed(rules::SNAPSHOT_MATCHERS@, a.matcher),
        ),
    decreases s.len(),
{
    if s.len() > 0 {
        lemma_notes_by_count(s.drop_last());
    }
}

/// Rules read assertions without regard to their order: a rule has as many
/// findings in a test as in the same test with its assertions in any other
/// order.
pub proof fn law_order_of_assertions_does_not_matter(
    check: Check,
    block: BlockModel,
    order: Seq<AssertionModel>,
)
    requires
        block.assertions.to_multiset() == order.to_multiset(),
    ensures
        check.notes(block).len() == check.notes(BlockModel { assertions: order, ..block }).len(),
{
    let s = block.assertions;
    let other = BlockModel { assertions: order, ..block };
    let if_branch = |a: AssertionModel| a.context == AssertionContext::IfBranch;
    let in_catch = |a: AssertionModel| a.context == AssertionContext::CatchBlock;
    let weak = |a: AssertionModel| a.is_weak;
    let mock = |a: AssertionModel| text::is_listed(rules::MOCK_MATCHERS@, a.matcher);
    let unrelated = |a: AssertionModel| !rules::targets_binding(a, block);
    lemma_count_permuted(s, order, if_branch);
    lemma_count_permuted(s, order, in_catch);
    lemma_count_permuted(s, order, weak);
    lemma_count_permuted(s, order, mock);
    lemma_count_permuted(s, order, unrelated);
    lemma_count_permuted(
        s,
        order,
        |a: AssertionModel| a.target_kind == parse::TargetKind::Literal,
    );
    lemma_count_permuted(
        s,
        order,
        |a: AssertionModel| text::is_listed(rules::SNAPSHOT_MATCHERS@, a.matcher),
    );
    lemma_all_by_count(s, if_branch);
    lemma_all_by_count(order, if_branch);
    lemma_all_by_count(s, in_catch);
    lemma_all_by_count(order, in_catch);
    lemma_all_by_count(s, weak);
    lemma_all_by_count(order, weak);
    lemma_all_by_count(s, mock);
    lemma_all_by_count(order, mock);
    lemma_all_by_count(s, unrelated);
    lemma_all_by_count(order, unrelated);
    lemma_notes_by_count(s);
    lemma_notes_by_count(order);
    assert(rules::all_in_context(s, AssertionContext::IfBranch) == rules::all_in_context(
        order,
        AssertionContext::IfBranch,
    )) by {
        lemma_all_in_context(s, AssertionContext::IfBranch, if_branch);
        lemma_all_in_context(order, AssertionContext::IfBranch, if_branch);
    }
    assert(rules::all_in_context(s, AssertionContext::CatchBlock) == rules::all_in_context(
        order,
        AssertionContext::CatchBlock,
    )) by {
        lemma_all_in_context(s, AssertionContext::CatchBlock, in_catch);
        lemma_all_in_context(order, AssertionContext::CatchBlock, in_catch);
    }
    assert(rules::all_weak(s) == (forall|i: int| 0 <= i < s.len() ==> weak(#[trigger] s[i])));
    assert(rules::all_weak(order) == (forall|i: int|
        0 <= i < order.len() ==> weak(#[trigger] order[i])));
    assert(rules::all_mock_matchers(s) == (forall|i: int|
        0 <= i < s.len() ==> mock(#[trigger] s[i])));
    assert(rules::all_mock_matchers(order) == (forall|i: int|
        0 <= i < order.len() ==> mock(#[trigger] order[i])));
    assert(rules::asserts_arranged(block) == !(forall|i: int|
        0 <= i < s.len() ==> unrelated(#[trigger] s[i])));
    assert(rules::asserts_arranged(other) == !(forall|i: int|
        0 <= i < order.len() ==> unrelated(#[trigger] order[i]))) by {
        assert forall|a: AssertionModel| #[trigger]
            rules::targets_binding(a, other) == rules::targets_binding(a, block) by {}
    }
}

proof fn lemma_all_in_context(
    s: Seq<AssertionModel>,
    context: AssertionContext,
    p: spec_fn(AssertionModel) -> bool,
)
    requires
        forall|a: AssertionModel| #[trigger] p(a) == (a.context == context),
    ensures
        rules::all_in_context(s, context) == (forall|i: int|
            0 <= i < s.len() ==> p(#[trigger] s[i])),
{
}

} // verus!
