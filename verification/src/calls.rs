//! Recognition of single calls: tests and suites by the name that is called,
//! assertions, and mock set-ups.

use crate::parse::{
    Assertion, AssertionContext, AssertionModel, MockKind, TargetKind, TestModifier,
};
use crate::source;
use crate::source::Source;
use crate::syntax::{Call, CallTree, Expr, ExprTree, Item, ItemTree};
use crate::text;
use vstd::prelude::*;

verus! {

/// Matchers that any value of the right truthiness passes. `toBeNull` and
/// `toBeUndefined` check for one value and are not among them.
pub const WEAK_MATCHERS: [&'static str; 3] = ["toBeTruthy", "toBeDefined", "toBeFalsy"];

/// Prefixes of the Testing Library queries that throw when nothing matches.
pub const THROWING_QUERIES: [&'static str; 4] = ["getBy", "getAllBy", "findBy", "findAllBy"];

/// The modifier that a member of `test`, `it` or `describe` stands for.
pub open spec fn modifier_named(property: Seq<char>) -> Option<TestModifier> {
    if property == "skip"@ {
        Some(TestModifier::Skip)
    } else if property == "todo"@ {
        Some(TestModifier::Todo)
    } else if property == "only"@ {
        Some(TestModifier::Only)
    } else {
        None
    }
}

pub open spec fn is_suite_name(name: Seq<char>) -> bool {
    name == "it"@ || name == "test"@ || name == "describe"@
}

impl ExprTree {
    /// The name that a call of this expression goes by, and its modifier:
    /// `f` for `f(...)`, `f` with a modifier for `f.skip(...)`, `f.todo(...)`
    /// and `f.only(...)`, and `it`, `test` or `describe` for
    /// `it.each(table)(...)` and its like.
    pub open spec fn callee_name(self) -> Option<(Seq<char>, Option<TestModifier>)> {
        match self {
            ExprTree::Identifier(name) => Some((name, None)),
            ExprTree::Member { object, property } => match (modifier_named(property), *object) {
                (Some(modifier), ExprTree::Identifier(name)) => Some((name, Some(modifier))),
                _ => None,
            },
            ExprTree::Call(inner) => match *inner.callee {
                ExprTree::Member { object, property } => match *object {
                    ExprTree::Identifier(name) => if property == "each"@ && is_suite_name(name) {
                        Some((name, None))
                    } else {
                        None
                    },
                    _ => None,
                },
                _ => None,
            },
            _ => None,
        }
    }

    /// Whether a call of this expression is a call of `expect`.
    pub open spec fn names_expect(self) -> bool {
        match self.callee_name() {
            Some((name, _)) => name == "expect"@,
            None => false,
        }
    }

    /// The call of `expect` that a chain of members starts from, seen through
    /// parentheses and type wrappers.
    pub open spec fn expect_call(self) -> Option<CallTree>
        decreases self,
    {
        match self {
            ExprTree::Call(call) => if call.callee.names_expect() {
                Some(call)
            } else {
                None
            },
            ExprTree::Member { object, .. } => object.expect_call(),
            ExprTree::Paren(e) => e.expect_call(),
            ExprTree::TypeWrapped(e) => e.expect_call(),
            _ => None,
        }
    }

    /// The name of the function that an `expect` argument calls, seen through
    /// `await`.
    pub open spec fn query_name(self) -> Option<Seq<char>>
        decreases self,
    {
        match self {
            ExprTree::Call(call) => match *call.callee {
                ExprTree::Identifier(name) => Some(name),
                ExprTree::Member { property, .. } => Some(property),
                _ => None,
            },
            ExprTree::Await(e) => e.query_name(),
            _ => None,
        }
    }

    /// The variable that the expression reads from, e.g. `user` in
    /// `user.profile.name` or `user[0]`.
    pub open spec fn root_ident(self) -> Option<Seq<char>>
        decreases self,
    {
        match self {
            ExprTree::Identifier(name) => Some(name),
            ExprTree::Member { object, .. } => object.root_ident(),
            ExprTree::Element(object, _) => object.root_ident(),
            ExprTree::Paren(e) => e.root_ident(),
            ExprTree::TypeWrapped(e) => e.root_ident(),
            _ => None,
        }
    }

    /// What kind of assertion target the expression is, seen through `await`
    /// and parentheses.
    pub open spec fn target_kind(self) -> TargetKind
        decreases self,
    {
        match self {
            ExprTree::Constant => TargetKind::Literal,
            ExprTree::Text { .. } => TargetKind::Literal,
            ExprTree::Identifier(_) => TargetKind::Identifier,
            ExprTree::Call(_) => TargetKind::CallResult,
            ExprTree::Await(e) => e.target_kind(),
            ExprTree::Paren(e) => e.target_kind(),
            _ => TargetKind::Other,
        }
    }
}

/// Whether a query throws when no element matches, so that the element that
/// it returns is known to exist.
pub open spec fn is_throwing_query(name: Seq<char>) -> bool {
    exists|i: int|
        0 <= i < THROWING_QUERIES@.len() && text::has_prefix(
            name,
            (#[trigger] THROWING_QUERIES@[i])@,
        )
}

/// What an assertion records of its first argument: the text, the kind and
/// the root identifier.
pub open spec fn target_of(arg: Option<ItemTree>, source: Seq<char>) -> (
    Seq<char>,
    TargetKind,
    Option<Seq<char>>,
) {
    match arg {
        Some(item) => {
            let range = source::text_between(source, item.start, item.end);
            if item.spread {
                (range, TargetKind::Other, None)
            } else {
                (range, item.value.target_kind(), item.value.root_ident())
            }
        },
        None => (seq![], TargetKind::Other, None),
    }
}

/// Whether an `expect` argument calls a throwing query.
pub open spec fn queries_throwing(arg: Option<ItemTree>) -> bool {
    match arg {
        Some(item) => !item.spread && (match item.value.query_name() {
            Some(name) => is_throwing_query(name),
            None => false,
        }),
        None => false,
    }
}

pub open spec fn first_argument(call: CallTree) -> Option<ItemTree> {
    if call.arguments.len() > 0 {
        Some(call.arguments[0])
    } else {
        None
    }
}

impl CallTree {
    /// Whether this is `assert(x)` or `assert.equal(a, b)` and its like.
    pub open spec fn is_node_assert(self) -> bool {
        match *self.callee {
            ExprTree::Member { object, .. } => *object == ExprTree::Identifier("assert"@),
            ExprTree::Identifier(name) => name == "assert"@,
            _ => false,
        }
    }

    /// The assertion that a call of `assert` makes. `assert(x)`, `assert.ok(x)`
    /// and `assert.fail()` are weak: the first two check truthiness only, the
    /// third compares nothing, and its argument is a message, not a target.
    pub open spec fn node_assertion(
        self,
        source: Seq<char>,
        context: AssertionContext,
    ) -> Option<AssertionModel> {
        if !self.is_node_assert() {
            None
        } else {
            let (matcher, is_weak) = match *self.callee {
                ExprTree::Member { property, .. } => (
                    property,
                    property == "ok"@ || property == "fail"@,
                ),
                _ => ("assert"@, true),
            };
            let arg = if matcher == "fail"@ {
                None
            } else {
                first_argument(self)
            };
            let (target, target_kind, target_root) = target_of(arg, source);
            Some(
                AssertionModel {
                    line: source::line_at(source, self.start),
                    target,
                    target_kind,
                    target_root,
                    matcher,
                    is_weak,
                    context,
                },
            )
        }
    }

    /// The assertion that a matcher on `expect(...)` makes. A weak matcher on
    /// a throwing query verifies that the element exists and is not weak.
    pub open spec fn expect_assertion(
        self,
        source: Seq<char>,
        context: AssertionContext,
    ) -> Option<AssertionModel> {
        match *self.callee {
            ExprTree::Member { object, property } => match object.expect_call() {
                Some(expect) => {
                    let arg = first_argument(expect);
                    let (target, target_kind, target_root) = target_of(arg, source);
                    Some(
                        AssertionModel {
                            line: source::line_at(source, self.start),
                            target,
                            target_kind,
                            target_root,
                            matcher: property,
                            is_weak: text::is_listed(WEAK_MATCHERS@, property)
                                && !queries_throwing(arg),
                            context,
                        },
                    )
                },
                None => None,
            },
            _ => None,
        }
    }

    /// The assertion that the call makes, if it makes one.
    pub open spec fn assertion(
        self,
        source: Seq<char>,
        context: AssertionContext,
    ) -> Option<AssertionModel> {
        match self.node_assertion(source, context) {
            Some(a) => Some(a),
            None => self.expect_assertion(source, context),
        }
    }

    /// The mock that the call sets up: `vi.fn()`, `vi.mock()` or `vi.spyOn()`,
    /// the same of `jest`, or a bare `mock()`.
    pub open spec fn mock_kind(self) -> Option<MockKind> {
        match *self.callee {
            ExprTree::Member { object, property } => if *object == ExprTree::Identifier("vi"@)
                || *object == ExprTree::Identifier("jest"@) {
                if property == "fn"@ {
                    Some(MockKind::ViFn)
                } else if property == "mock"@ {
                    Some(MockKind::ViMock)
                } else if property == "spyOn"@ {
                    Some(MockKind::ViSpyOn)
                } else {
                    None
                }
            } else {
                None
            },
            ExprTree::Identifier(name) => if name == "mock"@ {
                Some(MockKind::BunMock)
            } else {
                None
            },
            _ => None,
        }
    }
}

/// Whether the expression is a reference to the variable `name`.
fn is_identifier(e: &Expr, name: &str) -> (r: bool)
    ensures
        r == (e.view() == ExprTree::Identifier(name@)),
{
    match e {
        Expr::Identifier(id) => text::same(id.as_str(), name),
        _ => false,
    }
}

fn modifier_of(property: &str) -> (r: Option<TestModifier>)
    ensures
        r == modifier_named(property@),
{
    if text::same(property, "skip") {
        Some(TestModifier::Skip)
    } else if text::same(property, "todo") {
        Some(TestModifier::Todo)
    } else if text::same(property, "only") {
        Some(TestModifier::Only)
    } else {
        None
    }
}

/// The name that a call of `e` goes by, and its modifier.
pub fn callee_name(e: &Expr) -> (r: Option<(&str, Option<TestModifier>)>)
    ensures
        match r {
            Some((name, modifier)) => e.view().callee_name() == Some((name@, modifier)),
            None => e.view().callee_name() is None,
        },
{
    proof {
        reveal_with_fuel(Expr::view, 5);
        reveal_with_fuel(Call::view, 5);
    }
    match e {
        Expr::Identifier(id) => Some((id.as_str(), None)),
        Expr::Member { object, property } => match modifier_of(property.as_str()) {
            Some(modifier) => match &**object {
                Expr::Identifier(id) => Some((id.as_str(), Some(modifier))),
                _ => None,
            },
            None => None,
        },
        Expr::Call(inner) => match &*inner.callee {
            Expr::Member { object, property } => match &**object {
                Expr::Identifier(id) => if text::same(property.as_str(), "each") && (text::same(
                    id.as_str(),
                    "it",
                ) || text::same(id.as_str(), "test") || text::same(id.as_str(), "describe")) {
                    Some((id.as_str(), None))
                } else {
                    None
                },
                _ => None,
            },
            _ => None,
        },
        _ => None,
    }
}

/// Whether a call of `e` is a call of `expect`.
pub fn names_expect(e: &Expr) -> (r: bool)
    ensures
        r == e.view().names_expect(),
{
    match callee_name(e) {
        Some((name, _)) => text::same(name, "expect"),
        None => false,
    }
}

/// The call of `expect` that a chain of members starts from.
pub fn find_expect_call(e: &Expr) -> (r: Option<&Call>)
    ensures
        match r {
            Some(call) => e.view().expect_call() == Some(call.view()),
            None => e.view().expect_call() is None,
        },
    decreases e,
{
    proof {
        reveal_with_fuel(Expr::view, 5);
        reveal_with_fuel(Call::view, 5);
    }
    match e {
        Expr::Call(call) => if names_expect(&call.callee) {
            Some(call)
        } else {
            None
        },
        Expr::Member { object, .. } => find_expect_call(object),
        Expr::Paren(inner) => find_expect_call(inner),
        Expr::TypeWrapped(inner) => find_expect_call(inner),
        _ => None,
    }
}

/// The name of the function that an `expect` argument calls.
pub fn arg_query_name(e: &Expr) -> (r: Option<&str>)
    ensures
        match r {
            Some(name) => e.view().query_name() == Some(name@),
            None => e.view().query_name() is None,
        },
    decreases e,
{
    proof {
        reveal_with_fuel(Expr::view, 5);
        reveal_with_fuel(Call::view, 5);
    }
    match e {
        Expr::Call(call) => match &*call.callee {
            Expr::Identifier(id) => Some(id.as_str()),
            Expr::Member { property, .. } => Some(property.as_str()),
            _ => None,
        },
        Expr::Await(inner) => arg_query_name(inner),
        _ => None,
    }
}

/// Whether a query throws when no element matches.
pub fn is_throwing_query_name(name: &str) -> (r: bool)
    ensures
        r == is_throwing_query(name@),
{
    let mut i: usize = 0;
    while i < 4
        invariant
            0 <= i <= 4,
            forall|j: int|
                0 <= j < i ==> !text::has_prefix(name@, (#[trigger] THROWING_QUERIES@[j])@),
        decreases 4 - i,
    {
        if text::starts_with(name, THROWING_QUERIES[i]) {
            assert(text::has_prefix(name@, THROWING_QUERIES@[i as int]@));
            return true;
        }
        i += 1;
    }
    false
}

/// The variable that the expression reads from.
pub fn expr_root_ident(e: &Expr) -> (r: Option<String>)
    ensures
        match r {
            Some(name) => e.view().root_ident() == Some(name@),
            None => e.view().root_ident() is None,
        },
    decreases e,
{
    match e {
        Expr::Identifier(id) => Some(id.clone()),
        Expr::Member { object, .. } => expr_root_ident(object),
        Expr::Element(object, _) => expr_root_ident(object),
        Expr::Paren(inner) => expr_root_ident(inner),
        Expr::TypeWrapped(inner) => expr_root_ident(inner),
        _ => None,
    }
}

/// What kind of assertion target the expression is.
pub fn classify_expression(e: &Expr) -> (r: TargetKind)
    ensures
        r == e.view().target_kind(),
    decreases e,
{
    match e {
        Expr::Constant => TargetKind::Literal,
        Expr::Text { .. } => TargetKind::Literal,
        Expr::Identifier(_) => TargetKind::Identifier,
        Expr::Call(_) => TargetKind::CallResult,
        Expr::Await(inner) => classify_expression(inner),
        Expr::Paren(inner) => classify_expression(inner),
        _ => TargetKind::Other,
    }
}

pub open spec fn item_tree(arg: Option<&Item>) -> Option<ItemTree> {
    match arg {
        Some(item) => Some(item.view()),
        None => None,
    }
}

pub open spec fn optional_text(s: Option<String>) -> Option<Seq<char>> {
    match s {
        Some(x) => Some(x@),
        None => None,
    }
}

/// What an assertion records of its first argument, shared by the matchers of
/// `expect` and the methods of `assert`.
fn target_from_arg(arg: Option<&Item>, src: &Source) -> (r: (String, TargetKind, Option<String>))
    ensures
        (r.0@, r.1, optional_text(r.2)) == target_of(item_tree(arg), src.view()),
{
    match arg {
        Some(item) => {
            let range: String = src.slice(item.start, item.end).to_owned();
            if item.spread {
                (range, TargetKind::Other, None)
            } else {
                (range, classify_expression(&item.value), expr_root_ident(&item.value))
            }
        },
        None => (String::new(), TargetKind::Other, None),
    }
}

fn first_arg(call: &Call) -> (r: Option<&Item>)
    ensures
        item_tree(r) == first_argument(call.view()),
{
    if call.arguments.len() > 0 {
        Some(&call.arguments[0])
    } else {
        None
    }
}

/// Whether this is `assert(x)` or `assert.equal(a, b)` and its like.
pub fn is_node_assert_call(call: &Call) -> (r: bool)
    ensures
        r == call.view().is_node_assert(),
{
    match &*call.callee {
        Expr::Member { object, .. } => is_identifier(object, "assert"),
        Expr::Identifier(id) => text::same(id.as_str(), "assert"),
        _ => false,
    }
}

pub open spec fn assertion_model(a: Option<Assertion>) -> Option<AssertionModel> {
    match a {
        Some(x) => Some(x@),
        None => None,
    }
}

fn try_node_assert_call(call: &Call, src: &Source, context: AssertionContext) -> (r: Option<
    Assertion,
>)
    ensures
        assertion_model(r) == call.view().node_assertion(src.view(), context),
{
    if !is_node_assert_call(call) {
        return None;
    }
    let (matcher, is_weak): (String, bool) = match &*call.callee {
        Expr::Member { property, .. } => (
            property.clone(),
            text::same(property.as_str(), "ok") || text::same(property.as_str(), "fail"),
        ),
        _ => ("assert".to_owned(), true),
    };
    let arg: Option<&Item> = if text::same(matcher.as_str(), "fail") {
        None
    } else {
        first_arg(call)
    };
    let (target, target_kind, target_root) = target_from_arg(arg, src);
    let line: u32 = src.line(call.start);
    Some(Assertion { line, target, target_kind, target_root, matcher, is_weak, context })
}

/// The assertion that the call makes, if it makes one.
pub fn try_assertion(call: &Call, src: &Source, context: AssertionContext) -> (r: Option<Assertion>)
    ensures
        assertion_model(r) == call.view().assertion(src.view(), context),
{
    if let Some(assertion) = try_node_assert_call(call, src, context) {
        return Some(assertion);
    }
    match &*call.callee {
        Expr::Member { object, property } => match find_expect_call(object) {
            Some(expect) => {
                let arg: Option<&Item> = first_arg(expect);
                let (target, target_kind, target_root) = target_from_arg(arg, src);
                let throwing: bool = match arg {
                    Some(item) => !item.spread && (match arg_query_name(&item.value) {
                        Some(name) => is_throwing_query_name(name),
                        None => false,
                    }),
                    None => false,
                };
                let is_weak: bool = text::listed(&WEAK_MATCHERS, property.as_str()) && !throwing;
                let line: u32 = src.line(call.start);
                Some(
                    Assertion {
                        line,
                        target,
                        target_kind,
                        target_root,
                        matcher: property.clone(),
                        is_weak,
                        context,
                    },
                )
            },
            None => None,
        },
        _ => None,
    }
}

/// The mock that the call sets up, if it sets one up.
pub fn mock_kind(call: &Call) -> (r: Option<MockKind>)
    ensures
        r == call.view().mock_kind(),
{
    match &*call.callee {
        Expr::Member { object, property } => {
            if !is_identifier(object, "vi") && !is_identifier(object, "jest") {
                return None;
            }
            if text::same(property.as_str(), "fn") {
                Some(MockKind::ViFn)
            } else if text::same(property.as_str(), "mock") {
                Some(MockKind::ViMock)
            } else if text::same(property.as_str(), "spyOn") {
                Some(MockKind::ViSpyOn)
            } else {
                None
            }
        },
        Expr::Identifier(id) => if text::same(id.as_str(), "mock") {
            Some(MockKind::BunMock)
        } else {
            None
        },
        _ => None,
    }
}

} // verus!
