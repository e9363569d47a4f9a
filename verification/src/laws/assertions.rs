//! Laws of single calls: which of them assert, and what; which set up a mock.

use crate::calls;
use crate::calls::{THROWING_QUERIES, WEAK_MATCHERS};
use crate::parse::{AssertionContext, AssertionModel, MockKind, TargetKind};
use crate::source;
use crate::syntax::{CallTree, ExprTree, ItemTree};
use crate::text;
use vstd::prelude::*;
use vstd::utf8::*;

verus! {

/// A call of `expect` starts an assertion whatever it is called on, and is
/// reached through members, parentheses and type wrappers, and through nothing
/// else.
pub proof fn law_expect_is_reached_through_members(
    call: CallTree,
    e: ExprTree,
    property: Seq<char>,
)
    ensures
        ExprTree::Call(call).expect_call() == (match call.callee.callee_name() {
            Some((name, _)) => if name == "expect"@ {
                Some(call)
            } else {
                None
            },
            None => None,
        }),
        (ExprTree::Member { object: Box::new(e), property }).expect_call() == e.expect_call(),
        ExprTree::Paren(Box::new(e)).expect_call() == e.expect_call(),
        ExprTree::TypeWrapped(Box::new(e)).expect_call() == e.expect_call(),
        !(e is Call) && !(e is Member) && !(e is Paren) && !(e is TypeWrapped)
            ==> e.expect_call() is None,
{
}

/// The matchers that pass for almost any value.
pub open spec fn is_weak_matcher(matcher: Seq<char>) -> bool {
    matcher == "toBeTruthy"@ || matcher == "toBeDefined"@ || matcher == "toBeFalsy"@
}

proof fn lemma_weak_matchers(matcher: Seq<char>)
    ensures
        text::is_listed(WEAK_MATCHERS@, matcher) == is_weak_matcher(matcher),
{
    let list = WEAK_MATCHERS@;
    assert(list[0]@ == "toBeTruthy"@ && list[1]@ == "toBeDefined"@ && list[2]@ == "toBeFalsy"@);
    if text::is_listed(list, matcher) {
        let i = choose|i: int| 0 <= i < list.len() && (#[trigger] list[i])@ == matcher;
        assert(i == 0 || i == 1 || i == 2);
    }
}

/// Whether a text begins with another.
pub open spec fn begins_with(s: Seq<char>, start: Seq<char>) -> bool {
    start.len() <= s.len() && forall|i: int| 0 <= i < start.len() ==> s[i] == #[trigger] start[i]
}

/// The queries that throw where nothing matches, by their names.
pub open spec fn throws_if_missing(query: Seq<char>) -> bool {
    begins_with(query, "getBy"@) || begins_with(query, "getAllBy"@) || begins_with(
        query,
        "findBy"@,
    ) || begins_with(query, "findAllBy"@)
}

proof fn lemma_prefix(s: Seq<char>, start: Seq<char>)
    ensures
        text::has_prefix(s, start) == begins_with(s, start),
{
    if begins_with(s, start) {
        assert(s.take(start.len() as int) =~= start);
    }
    if text::has_prefix(s, start) {
        assert forall|i: int| 0 <= i < start.len() implies s[i] == #[trigger] start[i] by {
            assert(s.take(start.len() as int)[i] == start[i]);
        }
    }
}

proof fn lemma_throwing_queries(query: Seq<char>)
    ensures
        calls::is_throwing_query(query) == throws_if_missing(query),
{
    let list = THROWING_QUERIES@;
    lemma_prefix(query, "getBy"@);
    lemma_prefix(query, "getAllBy"@);
    lemma_prefix(query, "findBy"@);
    lemma_prefix(query, "findAllBy"@);
    assert(list[0]@ == "getBy"@ && list[1]@ == "getAllBy"@ && list[2]@ == "findBy"@ && list[3]@
        == "findAllBy"@);
    if calls::is_throwing_query(query) {
        let i = choose|i: int|
            0 <= i < list.len() && text::has_prefix(query, (#[trigger] list[i])@);
        assert(i == 0 || i == 1 || i == 2 || i == 3);
    }
}

/// A call of a matcher on a call of `expect` is an assertion, whatever the
/// matcher, its arguments and the members between them are. It is made about
/// the first argument of `expect`, on the line and in the context where it
/// stands, and it is weak only with a weak matcher and an argument that is no
/// query that throws.
pub proof fn law_matcher_on_expect_asserts(
    call: CallTree,
    object: ExprTree,
    matcher: Seq<char>,
    expect: CallTree,
    source: Seq<char>,
    context: AssertionContext,
)
    requires
        *call.callee == (ExprTree::Member { object: Box::new(object), property: matcher }),
        object.expect_call() == Some(expect),
    ensures
        call.assertion(source, context) is Some,
        ({
            let a = call.assertion(source, context)->0;
            &&& a.line == source::line_at(source, call.start)
            &&& a.matcher == matcher
            &&& a.context == context
            &&& expect.arguments.len() == 0 ==> a.is_weak == is_weak_matcher(matcher)
                && a.target.len() == 0 && a.target_kind == TargetKind::Other && a.target_root is None
            &&& expect.arguments.len() > 0 ==> ({
                let item = expect.arguments[0];
                &&& a.target == source::text_between(source, item.start, item.end)
                &&& item.spread ==> a.is_weak == is_weak_matcher(matcher) && a.target_kind
                    == TargetKind::Other && a.target_root is None
                &&& !item.spread ==> ({
                    &&& a.is_weak == (is_weak_matcher(matcher) && !(item.value.query_name()
                        matches Some(query) && throws_if_missing(query)))
                    &&& a.target_kind == item.value.target_kind()
                    &&& a.target_root == item.value.root_ident()
                })
            })
        }),
{
    lemma_weak_matchers(matcher);
    if object == ExprTree::Identifier("assert"@) {
        assert(object.expect_call() is None);
    }
    if expect.arguments.len() > 0 {
        match expect.arguments[0].value.query_name() {
            Some(query) => {
                lemma_throwing_queries(query);
            },
            None => {},
        }
    }
}

/// `assert(x)` is a weak assertion about `x`.
pub proof fn law_assert_is_weak(call: CallTree, source: Seq<char>, context: AssertionContext)
    requires
        *call.callee == ExprTree::Identifier("assert"@),
    ensures
        call.assertion(source, context) is Some,
        ({
            let a = call.assertion(source, context)->0;
            &&& a.line == source::line_at(source, call.start)
            &&& a.matcher == "assert"@
            &&& a.is_weak
            &&& a.context == context
            &&& call.arguments.len() > 0 ==> a.target == source::text_between(
                source,
                call.arguments[0].start,
                call.arguments[0].end,
            )
            &&& call.arguments.len() == 0 ==> a.target.len() == 0
            &&& call.arguments.len() == 0 || call.arguments[0].spread ==> a.target_kind
                == TargetKind::Other && a.target_root is None
            &&& call.arguments.len() > 0 && !call.arguments[0].spread ==> a.target_kind
                == call.arguments[0].value.target_kind() && a.target_root
                == call.arguments[0].value.root_ident()
        }),
{
    reveal_strlit("assert");
    reveal_strlit("fail");
    assert("assert"@.len() == 6 && "fail"@.len() == 4);
}

/// Every method of `assert` asserts; `assert.ok` and `assert.fail` are weak,
/// every other is strong. `assert.fail` is made about nothing, any other about
/// its first argument.
pub proof fn law_methods_of_assert(
    call: CallTree,
    method: Seq<char>,
    source: Seq<char>,
    context: AssertionContext,
)
    requires
        *call.callee == (ExprTree::Member {
            object: Box::new(ExprTree::Identifier("assert"@)),
            property: method,
        }),
    ensures
        call.assertion(source, context) is Some,
        ({
            let a = call.assertion(source, context)->0;
            &&& a.line == source::line_at(source, call.start)
            &&& a.matcher == method
            &&& a.is_weak == (method == "ok"@ || method == "fail"@)
            &&& a.context == context
            &&& method == "fail"@ || call.arguments.len() == 0 ==> a.target.len() == 0
                && a.target_kind == TargetKind::Other && a.target_root is None
            &&& method != "fail"@ && call.arguments.len() > 0 ==> ({
                let item = call.arguments[0];
                &&& a.target == source::text_between(source, item.start, item.end)
                &&& item.spread ==> a.target_kind == TargetKind::Other && a.target_root is None
                &&& !item.spread ==> a.target_kind == item.value.target_kind() && a.target_root
                    == item.value.root_ident()
            })
        }),
{
}

/// Nothing else asserts.
pub proof fn law_other_calls_do_not_assert(
    call: CallTree,
    source: Seq<char>,
    context: AssertionContext,
)
    requires
        *call.callee != ExprTree::Identifier("assert"@),
        *call.callee matches ExprTree::Member { object, .. } ==> *object != ExprTree::Identifier(
            "assert"@,
        ) && object.expect_call() is None,
    ensures
        call.assertion(source, context) is None,
{
}

/// What an assertion says does not depend on its context, but for the context
/// itself.
pub proof fn law_assertion_is_the_same_in_every_context(
    call: CallTree,
    source: Seq<char>,
    a: AssertionContext,
    b: AssertionContext,
)
    ensures
        (call.assertion(source, a) is Some) == (call.assertion(source, b) is Some),
        call.assertion(source, a) matches Some(x) ==> x.context == a && call.assertion(source, b)
            == Some(AssertionModel { context: b, ..x }),
{
}

/// The query that an argument calls: the function or method called, whatever
/// it is called on and with, seen through `await`.
pub proof fn law_query_is_the_function_called(
    call: CallTree,
    e: ExprTree,
    name: Seq<char>,
    object: ExprTree,
)
    ensures
        *call.callee == ExprTree::Identifier(name) ==> ExprTree::Call(call).query_name() == Some(
            name,
        ),
        *call.callee == (ExprTree::Member { object: Box::new(object), property: name })
            ==> ExprTree::Call(call).query_name() == Some(name),
        !(*call.callee is Identifier) && !(*call.callee is Member) ==> ExprTree::Call(
            call,
        ).query_name() is None,
        ExprTree::Await(Box::new(e)).query_name() == e.query_name(),
        !(e is Call) && !(e is Await) ==> e.query_name() is None,
{
}

/// Strings, numbers, booleans and null are literals, also behind `await` and
/// in parentheses.
pub proof fn law_kinds_of_targets(e: ExprTree)
    ensures
        e is Constant || e is Text ==> e.target_kind() == TargetKind::Literal,
        e is Identifier ==> e.target_kind() == TargetKind::Identifier,
        e is Call ==> e.target_kind() == TargetKind::CallResult,
        ExprTree::Await(Box::new(e)).target_kind() == e.target_kind(),
        ExprTree::Paren(Box::new(e)).target_kind() == e.target_kind(),
        !(e is Constant) && !(e is Text) && !(e is Identifier) && !(e is Call) && !(e is Await)
            && !(e is Paren) ==> e.target_kind() == TargetKind::Other,
{
}

/// An expression reads from the variable that its chain of members and indices
/// starts from.
pub proof fn law_members_read_from_their_root(
    e: ExprTree,
    index: ExprTree,
    name: Seq<char>,
    property: Seq<char>,
)
    ensures
        ExprTree::Identifier(name).root_ident() == Some(name),
        (ExprTree::Member { object: Box::new(e), property }).root_ident() == e.root_ident(),
        ExprTree::Element(Box::new(e), Box::new(index)).root_ident() == e.root_ident(),
        ExprTree::Paren(Box::new(e)).root_ident() == e.root_ident(),
        ExprTree::TypeWrapped(Box::new(e)).root_ident() == e.root_ident(),
        !(e is Identifier) && !(e is Member) && !(e is Element) && !(e is Paren)
            && !(e is TypeWrapped) ==> e.root_ident() is None,
{
}

/// `vi.fn`, `vi.mock` and `vi.spyOn`, the same of `jest`, and `mock` set up a
/// mock, whatever their arguments are; nothing else does.
pub proof fn law_calls_that_set_up_a_mock(call: CallTree)
    ensures
        call.mock_kind() == (match *call.callee {
            ExprTree::Identifier(name) => if name == "mock"@ {
                Some(MockKind::BunMock)
            } else {
                None
            },
            ExprTree::Member { object, property } => match *object {
                ExprTree::Identifier(library) => if library != "vi"@ && library != "jest"@ {
                    None
                } else if property == "fn"@ {
                    Some(MockKind::ViFn)
                } else if property == "mock"@ {
                    Some(MockKind::ViMock)
                } else if property == "spyOn"@ {
                    Some(MockKind::ViSpyOn)
                } else {
                    None
                },
                _ => None,
            },
            _ => None,
        }),
        call.mock_kind() matches Some(kind) ==> forall|source: Seq<char>|
            #[trigger] call.mock(source) matches Some(m) && m.kind == kind && m.line
                == source::line_at(source, call.start),
        call.mock_kind() is None ==> forall|source: Seq<char>|
            #[trigger] call.mock(source) is None,
{
}

} // verus!
