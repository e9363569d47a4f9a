//! The steps of a test: the names that its body arranges, whether it acts on
//! production code, and whether it rethrows.
//!
//! An act is a call into production code. Calls that belong to an assertion
//! or set up a mock are not acts; every other call is, and so are `new` and a
//! tagged template. Every position is searched in which such a call can hide.

use crate::calls;
use crate::syntax;
use crate::syntax::{
    Call, CallTree, Declarator, DeclaratorTree, Expr, ExprTree, Item, ItemTree, Part, PartTree,
    Pattern, PatternTree, Stmt, StmtTree,
};
use crate::text;
use vstd::prelude::*;

verus! {

impl ExprTree {
    /// Whether the expression is a chain of members on a call of `expect`.
    pub open spec fn is_expect_chain(self) -> bool
        decreases self,
    {
        match self {
            ExprTree::Call(call) => call.callee.names_expect(),
            ExprTree::Member { object, .. } => object.is_expect_chain(),
            _ => false,
        }
    }

    /// Whether evaluating the expression invokes production code.
    pub open spec fn has_act(self) -> bool
        decreases self,
    {
        match self {
            ExprTree::Call(call) => call.has_act(),
            ExprTree::Invocation => true,
            ExprTree::Paren(e) => e.has_act(),
            ExprTree::TypeWrapped(e) => e.has_act(),
            ExprTree::Await(e) => e.has_act(),
            ExprTree::Unary(e) => e.has_act(),
            ExprTree::Assignment(e) => e.has_act(),
            ExprTree::Binary(a, b) => a.has_act() || b.has_act(),
            ExprTree::Logical(a, b) => a.has_act() || b.has_act(),
            ExprTree::Conditional(a, b, c) => a.has_act() || b.has_act() || c.has_act(),
            ExprTree::Sequence(s) => any_expr_acts(s),
            ExprTree::Template(s) => any_expr_acts(s),
            ExprTree::Object(s) => any_expr_acts(s),
            ExprTree::Array(s) => any_item_acts(s),
            ExprTree::Member { object, .. } => object.has_act(),
            ExprTree::Element(a, b) => a.has_act() || b.has_act(),
            ExprTree::ChainCall(call) => call.has_act(),
            ExprTree::ChainMember(e) => e.has_act(),
            ExprTree::ChainElement(a, b) => a.has_act() || b.has_act(),
            _ => false,
        }
    }
}

impl CallTree {
    /// Whether the call belongs to an assertion.
    pub open spec fn is_assertion_call(self) -> bool {
        self.callee.names_expect() || self.callee.is_expect_chain() || self.is_node_assert()
    }

    /// Whether the call or a part of it invokes production code. A call that
    /// belongs to an assertion is no act itself, but `sut()` inside
    /// `expect(sut())` is.
    pub open spec fn has_act(self) -> bool
        decreases self,
    {
        ||| !self.is_assertion_call() && self.mock_kind() is None
        ||| self.callee.has_act()
        ||| any_item_acts(self.arguments)
    }
}

impl ItemTree {
    pub open spec fn has_act(self) -> bool
        decreases self,
    {
        self.value.has_act()
    }
}

pub open spec fn any_expr_acts(s: Seq<ExprTree>) -> bool
    decreases s,
{
    exists|i: int| 0 <= i < s.len() && (#[trigger] s[i]).has_act()
}

pub open spec fn any_item_acts(s: Seq<ItemTree>) -> bool
    decreases s,
{
    exists|i: int| 0 <= i < s.len() && (#[trigger] s[i]).has_act()
}

pub open spec fn optional_acts(e: Option<ExprTree>) -> bool {
    match e {
        Some(x) => x.has_act(),
        None => false,
    }
}

impl PatternTree {
    /// Whether destructuring invokes production code: in a default, as in
    /// `{ a = run() }`, or in a computed key, as in `{ [run()]: a }`.
    pub open spec fn has_act(self) -> bool
        decreases self,
    {
        match self {
            PatternTree::Group(parts) => any_part_acts(parts),
            PatternTree::Default { target, value } => value.has_act() || target.has_act(),
            _ => false,
        }
    }

    /// The names that the pattern binds, in source order.
    pub open spec fn names(self) -> Seq<Seq<char>>
        decreases self,
    {
        match self {
            PatternTree::Name(name) => seq![name],
            PatternTree::Group(parts) => part_names(parts),
            PatternTree::Default { target, .. } => target.names(),
            PatternTree::Hole => seq![],
        }
    }
}

impl PartTree {
    pub open spec fn has_act(self) -> bool
        decreases self,
    {
        optional_acts(self.key) || self.value.has_act()
    }
}

pub open spec fn any_part_acts(s: Seq<PartTree>) -> bool
    decreases s,
{
    exists|i: int| 0 <= i < s.len() && (#[trigger] s[i]).has_act()
}

pub open spec fn part_names(s: Seq<PartTree>) -> Seq<Seq<char>>
    decreases s,
{
    if s.len() == 0 {
        seq![]
    } else {
        part_names(s.drop_last()) + s.last().value.names()
    }
}

pub open spec fn declared_names(s: Seq<DeclaratorTree>) -> Seq<Seq<char>>
    decreases s.len(),
{
    if s.len() == 0 {
        seq![]
    } else {
        declared_names(s.drop_last()) + s.last().id.names()
    }
}

impl DeclaratorTree {
    pub open spec fn has_act(self) -> bool {
        optional_acts(self.init) || self.id.has_act()
    }
}

pub open spec fn any_declarator_acts(s: Seq<DeclaratorTree>) -> bool {
    exists|i: int| 0 <= i < s.len() && (#[trigger] s[i]).has_act()
}

impl StmtTree {
    /// Whether running the statement invokes production code.
    pub open spec fn has_act(self) -> bool
        decreases self,
    {
        match self {
            StmtTree::Expression(e) => e.has_act(),
            StmtTree::Declaration(s) => any_declarator_acts(s),
            StmtTree::Return(e) => optional_acts(e),
            StmtTree::Block(s) => any_stmt_acts(s),
            StmtTree::If { test, consequent, alternate } => {
                ||| test.has_act()
                ||| consequent.has_act()
                ||| (match alternate {
                    Some(a) => a.has_act(),
                    None => false,
                })
            },
            StmtTree::Loop { head, body } => optional_acts(head) || body.has_act(),
            StmtTree::Try { block, handler, finalizer } => {
                ||| any_stmt_acts(block)
                ||| (match handler {
                    Some(h) => any_stmt_acts(h.body),
                    None => false,
                })
                ||| (match finalizer {
                    Some(f) => any_stmt_acts(f),
                    None => false,
                })
            },
            StmtTree::Switch { discriminant, cases } => {
                ||| discriminant.has_act()
                ||| any_case_acts(cases)
            },
            StmtTree::Throw(e) => e.has_act(),
            StmtTree::Other => false,
        }
    }

    /// The names that the statement binds, in source order. A loop is
    /// searched in its body, not in its head.
    pub open spec fn names(self) -> Seq<Seq<char>>
        decreases self,
    {
        match self {
            StmtTree::Declaration(s) => declared_names(s),
            StmtTree::Block(s) => stmt_names(s),
            StmtTree::If { consequent, alternate, .. } => consequent.names() + (match alternate {
                Some(a) => a.names(),
                None => seq![],
            }),
            StmtTree::Loop { body, .. } => body.names(),
            StmtTree::Try { block, handler, finalizer } => stmt_names(block) + (match handler {
                Some(h) => stmt_names(h.body),
                None => seq![],
            }) + (match finalizer {
                Some(f) => stmt_names(f),
                None => seq![],
            }),
            StmtTree::Switch { cases, .. } => case_names(cases),
            _ => seq![],
        }
    }

    /// Whether the statement holds a `throw` outside nested functions.
    pub open spec fn throws(self) -> bool
        decreases self,
    {
        match self {
            StmtTree::Throw(_) => true,
            StmtTree::Block(s) => any_stmt_throws(s),
            StmtTree::If { consequent, alternate, .. } => {
                ||| consequent.throws()
                ||| (match alternate {
                    Some(a) => a.throws(),
                    None => false,
                })
            },
            StmtTree::Loop { body, .. } => body.throws(),
            StmtTree::Try { block, handler, finalizer } => {
                ||| any_stmt_throws(block)
                ||| (match handler {
                    Some(h) => any_stmt_throws(h.body),
                    None => false,
                })
                ||| (match finalizer {
                    Some(f) => any_stmt_throws(f),
                    None => false,
                })
            },
            StmtTree::Switch { cases, .. } => any_case_throws(cases),
            _ => false,
        }
    }
}

pub open spec fn any_stmt_acts(s: Seq<StmtTree>) -> bool
    decreases s,
{
    exists|i: int| 0 <= i < s.len() && (#[trigger] s[i]).has_act()
}

pub open spec fn any_stmt_throws(s: Seq<StmtTree>) -> bool
    decreases s,
{
    exists|i: int| 0 <= i < s.len() && (#[trigger] s[i]).throws()
}

pub open spec fn any_case_acts(s: Seq<Seq<StmtTree>>) -> bool
    decreases s,
{
    exists|i: int| 0 <= i < s.len() && any_stmt_acts(#[trigger] s[i])
}

pub open spec fn any_case_throws(s: Seq<Seq<StmtTree>>) -> bool
    decreases s,
{
    exists|i: int| 0 <= i < s.len() && any_stmt_throws(#[trigger] s[i])
}

pub open spec fn stmt_names(s: Seq<StmtTree>) -> Seq<Seq<char>>
    decreases s,
{
    if s.len() == 0 {
        seq![]
    } else {
        stmt_names(s.drop_last()) + s.last().names()
    }
}

pub open spec fn case_names(s: Seq<Seq<StmtTree>>) -> Seq<Seq<char>>
    decreases s,
{
    if s.len() == 0 {
        seq![]
    } else {
        case_names(s.drop_last()) + stmt_names(s.last())
    }
}

fn is_expect_chain(e: &Expr) -> (r: bool)
    ensures
        r == e.view().is_expect_chain(),
    decreases e,
{
    proof {
        reveal_with_fuel(Expr::view, 3);
        reveal_with_fuel(Call::view, 3);
    }
    match e {
        Expr::Call(call) => calls::names_expect(&call.callee),
        Expr::Member { object, .. } => is_expect_chain(object),
        _ => false,
    }
}

fn is_assertion_call(call: &Call) -> (r: bool)
    ensures
        r == call.view().is_assertion_call(),
{
    calls::names_expect(&call.callee) || is_expect_chain(&call.callee)
        || calls::is_node_assert_call(call)
}

fn call_has_act(call: &Call) -> (r: bool)
    ensures
        r == call.view().has_act(),
    decreases call,
{
    if !is_assertion_call(call) && calls::mock_kind(call).is_none() {
        return true;
    }
    expr_has_act(&call.callee) || items_have_act(&call.arguments)
}

fn items_have_act(items: &Vec<Item>) -> (r: bool)
    ensures
        r == any_item_acts(syntax::item_trees(items@)),
    decreases items,
{
    let ghost trees = syntax::item_trees(items@);
    let mut i: usize = 0;
    while i < items.len()
        invariant
            0 <= i <= items@.len(),
            trees == syntax::item_trees(items@),
            forall|j: int| 0 <= j < i ==> !(#[trigger] trees[j]).has_act(),
        decreases items@.len() - i,
    {
        assert(trees[i as int] == items@[i as int].view());
        if expr_has_act(&items[i].value) {
            assert(trees[i as int].has_act());
            return true;
        }
        i += 1;
    }
    false
}

fn exprs_have_act(exprs: &Vec<Expr>) -> (r: bool)
    ensures
        r == any_expr_acts(syntax::expr_trees(exprs@)),
    decreases exprs,
{
    let ghost trees = syntax::expr_trees(exprs@);
    let mut i: usize = 0;
    while i < exprs.len()
        invariant
            0 <= i <= exprs@.len(),
            trees == syntax::expr_trees(exprs@),
            forall|j: int| 0 <= j < i ==> !(#[trigger] trees[j]).has_act(),
        decreases exprs@.len() - i,
    {
        assert(trees[i as int] == exprs@[i as int].view());
        if expr_has_act(&exprs[i]) {
            return true;
        }
        i += 1;
    }
    false
}

/// Whether evaluating the expression invokes production code.
pub fn expr_has_act(e: &Expr) -> (r: bool)
    ensures
        r == e.view().has_act(),
    decreases e,
{
    match e {
        Expr::Call(call) => call_has_act(call),
        Expr::Invocation => true,
        Expr::Paren(inner) => expr_has_act(inner),
        Expr::TypeWrapped(inner) => expr_has_act(inner),
        Expr::Await(inner) => expr_has_act(inner),
        Expr::Unary(inner) => expr_has_act(inner),
        Expr::Assignment(inner) => expr_has_act(inner),
        Expr::Binary(a, b) => expr_has_act(a) || expr_has_act(b),
        Expr::Logical(a, b) => expr_has_act(a) || expr_has_act(b),
        Expr::Conditional(a, b, c) => expr_has_act(a) || expr_has_act(b) || expr_has_act(c),
        Expr::Sequence(s) => exprs_have_act(s),
        Expr::Template(s) => exprs_have_act(s),
        Expr::Object(s) => exprs_have_act(s),
        Expr::Array(s) => items_have_act(s),
        Expr::Member { object, .. } => expr_has_act(object),
        Expr::Element(a, b) => expr_has_act(a) || expr_has_act(b),
        Expr::ChainCall(call) => call_has_act(call),
        Expr::ChainMember(inner) => expr_has_act(inner),
        Expr::ChainElement(a, b) => expr_has_act(a) || expr_has_act(b),
        _ => false,
    }
}

fn optional_has_act(e: &Option<Expr>) -> (r: bool)
    ensures
        r == optional_acts(
            match *e {
                Some(x) => Some(x.view()),
                None => None,
            },
        ),
{
    match e {
        Some(x) => expr_has_act(x),
        None => false,
    }
}

fn parts_have_act(parts: &Vec<Part>) -> (r: bool)
    ensures
        r == any_part_acts(syntax::part_trees(parts@)),
    decreases parts,
{
    let ghost trees = syntax::part_trees(parts@);
    let mut i: usize = 0;
    while i < parts.len()
        invariant
            0 <= i <= parts@.len(),
            trees == syntax::part_trees(parts@),
            forall|j: int| 0 <= j < i ==> !(#[trigger] trees[j]).has_act(),
        decreases parts@.len() - i,
    {
        assert(trees[i as int] == parts@[i as int].view());
        if optional_has_act(&parts[i].key) || pattern_has_act(&parts[i].value) {
            assert(trees[i as int].has_act());
            return true;
        }
        i += 1;
    }
    false
}

/// Whether destructuring invokes production code.
pub fn pattern_has_act(pattern: &Pattern) -> (r: bool)
    ensures
        r == pattern.view().has_act(),
    decreases pattern,
{
    match pattern {
        Pattern::Group(parts) => parts_have_act(parts),
        Pattern::Default { target, value } => expr_has_act(value) || pattern_has_act(target),
        _ => false,
    }
}

fn declarators_have_act(declarators: &Vec<Declarator>) -> (r: bool)
    ensures
        r == any_declarator_acts(syntax::declarator_trees(declarators@)),
{
    let ghost trees = syntax::declarator_trees(declarators@);
    let mut i: usize = 0;
    while i < declarators.len()
        invariant
            0 <= i <= declarators@.len(),
            trees == syntax::declarator_trees(declarators@),
            forall|j: int| 0 <= j < i ==> !(#[trigger] trees[j]).has_act(),
        decreases declarators@.len() - i,
    {
        assert(trees[i as int] == declarators@[i as int].view());
        if optional_has_act(&declarators[i].init) || pattern_has_act(&declarators[i].id) {
            assert(trees[i as int].has_act());
            return true;
        }
        i += 1;
    }
    false
}

/// Whether running the statements invokes production code.
pub fn body_has_act(stmts: &Vec<Stmt>) -> (r: bool)
    ensures
        r == any_stmt_acts(syntax::stmt_trees(stmts@)),
    decreases stmts,
{
    let ghost trees = syntax::stmt_trees(stmts@);
    let mut i: usize = 0;
    while i < stmts.len()
        invariant
            0 <= i <= stmts@.len(),
            trees == syntax::stmt_trees(stmts@),
            forall|j: int| 0 <= j < i ==> !(#[trigger] trees[j]).has_act(),
        decreases stmts@.len() - i,
    {
        assert(trees[i as int] == stmts@[i as int].view());
        if stmt_has_act(&stmts[i]) {
            return true;
        }
        i += 1;
    }
    false
}

fn cases_have_act(cases: &Vec<Vec<Stmt>>) -> (r: bool)
    ensures
        r == any_case_acts(syntax::case_trees(cases@)),
    decreases cases,
{
    let ghost trees = syntax::case_trees(cases@);
    let mut i: usize = 0;
    while i < cases.len()
        invariant
            0 <= i <= cases@.len(),
            trees == syntax::case_trees(cases@),
            forall|j: int| 0 <= j < i ==> !any_stmt_acts(#[trigger] trees[j]),
        decreases cases@.len() - i,
    {
        assert(trees[i as int] == syntax::stmt_trees(cases@[i as int]@));
        if body_has_act(&cases[i]) {
            return true;
        }
        i += 1;
    }
    false
}

/// Whether running the statement invokes production code.
pub fn stmt_has_act(stmt: &Stmt) -> (r: bool)
    ensures
        r == stmt.view().has_act(),
    decreases stmt,
{
    match stmt {
        Stmt::Expression(e) => expr_has_act(e),
        Stmt::Declaration(s) => declarators_have_act(s),
        Stmt::Return(e) => optional_has_act(e),
        Stmt::Block(s) => body_has_act(s),
        Stmt::If { test, consequent, alternate } => expr_has_act(test) || stmt_has_act(consequent)
            || (match alternate {
            Some(a) => stmt_has_act(a),
            None => false,
        }),
        Stmt::Loop { head, body } => optional_has_act(head) || stmt_has_act(body),
        Stmt::Try { block, handler, finalizer } => {
            if body_has_act(block) {
                return true;
            }
            if let Some(h) = handler {
                assert(h.view().body == syntax::stmt_trees(h.body@));
                if body_has_act(&h.body) {
                    return true;
                }
            }
            match finalizer {
                Some(f) => body_has_act(f),
                None => false,
            }
        },
        Stmt::Switch { discriminant, cases } => expr_has_act(discriminant) || cases_have_act(cases),
        Stmt::Throw(e) => expr_has_act(e),
        Stmt::Other => false,
    }
}

/// Whether the statements hold a `throw`. Control flow is walked, but not
/// nested functions: a throw inside a callback does not rethrow from here.
pub fn body_contains_throw(stmts: &Vec<Stmt>) -> (r: bool)
    ensures
        r == any_stmt_throws(syntax::stmt_trees(stmts@)),
    decreases stmts,
{
    let ghost trees = syntax::stmt_trees(stmts@);
    let mut i: usize = 0;
    while i < stmts.len()
        invariant
            0 <= i <= stmts@.len(),
            trees == syntax::stmt_trees(stmts@),
            forall|j: int| 0 <= j < i ==> !(#[trigger] trees[j]).throws(),
        decreases stmts@.len() - i,
    {
        assert(trees[i as int] == stmts@[i as int].view());
        if stmt_contains_throw(&stmts[i]) {
            return true;
        }
        i += 1;
    }
    false
}

fn cases_contain_throw(cases: &Vec<Vec<Stmt>>) -> (r: bool)
    ensures
        r == any_case_throws(syntax::case_trees(cases@)),
    decreases cases,
{
    let ghost trees = syntax::case_trees(cases@);
    let mut i: usize = 0;
    while i < cases.len()
        invariant
            0 <= i <= cases@.len(),
            trees == syntax::case_trees(cases@),
            forall|j: int| 0 <= j < i ==> !any_stmt_throws(#[trigger] trees[j]),
        decreases cases@.len() - i,
    {
        assert(trees[i as int] == syntax::stmt_trees(cases@[i as int]@));
        if body_contains_throw(&cases[i]) {
            return true;
        }
        i += 1;
    }
    false
}

fn stmt_contains_throw(stmt: &Stmt) -> (r: bool)
    ensures
        r == stmt.view().throws(),
    decreases stmt,
{
    match stmt {
        Stmt::Throw(_) => true,
        Stmt::Block(s) => body_contains_throw(s),
        Stmt::If { consequent, alternate, .. } => stmt_contains_throw(consequent) || (
        match alternate {
            Some(a) => stmt_contains_throw(a),
            None => false,
        }),
        Stmt::Loop { body, .. } => stmt_contains_throw(body),
        Stmt::Try { block, handler, finalizer } => {
            if body_contains_throw(block) {
                return true;
            }
            if let Some(h) = handler {
                assert(h.view().body == syntax::stmt_trees(h.body@));
                if body_contains_throw(&h.body) {
                    return true;
                }
            }
            match finalizer {
                Some(f) => body_contains_throw(f),
                None => false,
            }
        },
        Stmt::Switch { cases, .. } => cases_contain_throw(cases),
        _ => false,
    }
}

/// Appends the names that a pattern binds.
fn collect_pattern_names(pattern: &Pattern, out: &mut Vec<String>)
    ensures
        text::views(final(out)@) == text::views(old(out)@) + pattern.view().names(),
    decreases pattern,
{
    match pattern {
        Pattern::Name(name) => {
            out.push(name.clone());
        },
        Pattern::Group(parts) => {
            collect_part_names(parts, out);
        },
        Pattern::Default { target, .. } => {
            collect_pattern_names(target, out);
        },
        Pattern::Hole => {},
    }
    assert(text::views(out@) =~= text::views(old(out)@) + pattern.view().names());
}

fn collect_part_names(parts: &Vec<Part>, out: &mut Vec<String>)
    ensures
        text::views(final(out)@) == text::views(old(out)@) + part_names(syntax::part_trees(parts@)),
    decreases parts,
{
    let ghost trees = syntax::part_trees(parts@);
    let ghost before = text::views(out@);
    let mut i: usize = 0;
    assert(text::views(out@) =~= before + part_names(trees.take(0)));
    while i < parts.len()
        invariant
            0 <= i <= parts@.len(),
            trees == syntax::part_trees(parts@),
            text::views(out@) == before + part_names(trees.take(i as int)),
        decreases parts@.len() - i,
    {
        assert(trees[i as int] == parts@[i as int].view());
        assert(trees.take(i + 1).drop_last() =~= trees.take(i as int));
        collect_pattern_names(&parts[i].value, out);
        assert(text::views(out@) =~= before + part_names(trees.take(i + 1)));
        i += 1;
    }
    assert(trees.take(trees.len() as int) =~= trees);
}

fn collect_declared_names(declarators: &Vec<Declarator>, out: &mut Vec<String>)
    ensures
        text::views(final(out)@) == text::views(old(out)@) + declared_names(
            syntax::declarator_trees(declarators@),
        ),
{
    let ghost trees = syntax::declarator_trees(declarators@);
    let ghost before = text::views(out@);
    let mut i: usize = 0;
    assert(text::views(out@) =~= before + declared_names(trees.take(0)));
    while i < declarators.len()
        invariant
            0 <= i <= declarators@.len(),
            trees == syntax::declarator_trees(declarators@),
            text::views(out@) == before + declared_names(trees.take(i as int)),
        decreases declarators@.len() - i,
    {
        assert(trees[i as int] == declarators@[i as int].view());
        assert(trees.take(i + 1).drop_last() =~= trees.take(i as int));
        collect_pattern_names(&declarators[i].id, out);
        assert(text::views(out@) =~= before + declared_names(trees.take(i + 1)));
        i += 1;
    }
    assert(trees.take(trees.len() as int) =~= trees);
}

fn collect_bound_names(stmts: &Vec<Stmt>, out: &mut Vec<String>)
    ensures
        text::views(final(out)@) == text::views(old(out)@) + stmt_names(syntax::stmt_trees(stmts@)),
    decreases stmts,
{
    let ghost trees = syntax::stmt_trees(stmts@);
    let ghost before = text::views(out@);
    let mut i: usize = 0;
    assert(text::views(out@) =~= before + stmt_names(trees.take(0)));
    while i < stmts.len()
        invariant
            0 <= i <= stmts@.len(),
            trees == syntax::stmt_trees(stmts@),
            text::views(out@) == before + stmt_names(trees.take(i as int)),
        decreases stmts@.len() - i,
    {
        assert(trees[i as int] == stmts@[i as int].view());
        assert(trees.take(i + 1).drop_last() =~= trees.take(i as int));
        stmt_bound_names(&stmts[i], out);
        assert(text::views(out@) =~= before + stmt_names(trees.take(i + 1)));
        i += 1;
    }
    assert(trees.take(trees.len() as int) =~= trees);
}

fn collect_case_names(cases: &Vec<Vec<Stmt>>, out: &mut Vec<String>)
    ensures
        text::views(final(out)@) == text::views(old(out)@) + case_names(syntax::case_trees(cases@)),
    decreases cases,
{
    let ghost trees = syntax::case_trees(cases@);
    let ghost before = text::views(out@);
    let mut i: usize = 0;
    assert(text::views(out@) =~= before + case_names(trees.take(0)));
    while i < cases.len()
        invariant
            0 <= i <= cases@.len(),
            trees == syntax::case_trees(cases@),
            text::views(out@) == before + case_names(trees.take(i as int)),
        decreases cases@.len() - i,
    {
        assert(trees[i as int] == syntax::stmt_trees(cases@[i as int]@));
        assert(trees.take(i + 1).drop_last() =~= trees.take(i as int));
        collect_bound_names(&cases[i], out);
        assert(text::views(out@) =~= before + case_names(trees.take(i + 1)));
        i += 1;
    }
    assert(trees.take(trees.len() as int) =~= trees);
}

fn stmt_bound_names(stmt: &Stmt, out: &mut Vec<String>)
    ensures
        text::views(final(out)@) == text::views(old(out)@) + stmt.view().names(),
    decreases stmt,
{
    match stmt {
        Stmt::Declaration(s) => {
            collect_declared_names(s, out);
        },
        Stmt::Block(s) => {
            collect_bound_names(s, out);
        },
        Stmt::If { consequent, alternate, .. } => {
            stmt_bound_names(consequent, out);
            if let Some(a) = alternate {
                stmt_bound_names(a, out);
            }
        },
        Stmt::Loop { body, .. } => {
            stmt_bound_names(body, out);
        },
        Stmt::Try { block, handler, finalizer } => {
            collect_bound_names(block, out);
            if let Some(h) = handler {
                assert(h.view().body == syntax::stmt_trees(h.body@));
                collect_bound_names(&h.body, out);
            }
            if let Some(f) = finalizer {
                collect_bound_names(f, out);
            }
        },
        Stmt::Switch { cases, .. } => {
            collect_case_names(cases, out);
        },
        _ => {},
    }
    assert(text::views(out@) =~= text::views(old(out)@) + stmt.view().names());
}

/// The names that the statements bind, in source order.
pub fn body_bound_names(stmts: &Vec<Stmt>) -> (r: Vec<String>)
    ensures
        text::views(r@) == stmt_names(syntax::stmt_trees(stmts@)),
{
    let mut names: Vec<String> = Vec::new();
    collect_bound_names(stmts, &mut names);
    assert(text::views(names@) =~= stmt_names(syntax::stmt_trees(stmts@)));
    names
}

} // verus!
