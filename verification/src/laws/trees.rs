//! Laws of the trees: each value is the tree of its own kind, with all of its
//! parts in their places.

use crate::syntax;
use crate::syntax::{
    Call, Declarator, Expr, ExprTree, Handler, Item, Part, Pattern, PatternTree, Stmt, StmtTree,
};
use vstd::prelude::*;

verus! {

/// Expressions with at most three operands.
pub proof fn law_operands_are_kept(
    a: Expr,
    b: Expr,
    c: Expr,
    name: String,
    start: u32,
)
    ensures
        Expr::Identifier(name).view() == ExprTree::Identifier(name@),
        (Expr::Text { value: name, start }).view() == (ExprTree::Text { value: name@, start }),
        Expr::Constant.view() == ExprTree::Constant,
        Expr::Invocation.view() == ExprTree::Invocation,
        Expr::Other.view() == ExprTree::Other,
        Expr::Paren(Box::new(a)).view() == ExprTree::Paren(Box::new(a.view())),
        Expr::TypeWrapped(Box::new(a)).view() == ExprTree::TypeWrapped(Box::new(a.view())),
        Expr::Await(Box::new(a)).view() == ExprTree::Await(Box::new(a.view())),
        Expr::Unary(Box::new(a)).view() == ExprTree::Unary(Box::new(a.view())),
        Expr::Assignment(Box::new(a)).view() == ExprTree::Assignment(Box::new(a.view())),
        Expr::ChainMember(Box::new(a)).view() == ExprTree::ChainMember(Box::new(a.view())),
        (Expr::Member { object: Box::new(a), property: name }).view() == (ExprTree::Member {
            object: Box::new(a.view()),
            property: name@,
        }),
        Expr::Binary(Box::new(a), Box::new(b)).view() == ExprTree::Binary(
            Box::new(a.view()),
            Box::new(b.view()),
        ),
        Expr::Logical(Box::new(a), Box::new(b)).view() == ExprTree::Logical(
            Box::new(a.view()),
            Box::new(b.view()),
        ),
        Expr::Element(Box::new(a), Box::new(b)).view() == ExprTree::Element(
            Box::new(a.view()),
            Box::new(b.view()),
        ),
        Expr::ChainElement(Box::new(a), Box::new(b)).view() == ExprTree::ChainElement(
            Box::new(a.view()),
            Box::new(b.view()),
        ),
        Expr::Conditional(Box::new(a), Box::new(b), Box::new(c)).view() == ExprTree::Conditional(
            Box::new(a.view()),
            Box::new(b.view()),
            Box::new(c.view()),
        ),
{
}

/// Calls and functions, and lists of expressions, arguments and statements.
pub proof fn law_lists_are_kept(
    call: Call,
    s: Vec<Expr>,
    items: Vec<Item>,
    body: Vec<Stmt>,
    i: int,
)
    ensures
        Expr::Sequence(s).view() == ExprTree::Sequence(syntax::expr_trees(s@)),
        Expr::Template(s).view() == ExprTree::Template(syntax::expr_trees(s@)),
        Expr::Object(s).view() == ExprTree::Object(syntax::expr_trees(s@)),
        Expr::Array(items).view() == ExprTree::Array(syntax::item_trees(items@)),
        Expr::Function(body).view() == ExprTree::Function(syntax::stmt_trees(body@)),
        Expr::Call(call).view() == ExprTree::Call(call.view()),
        Expr::ChainCall(call).view() == ExprTree::ChainCall(call.view()),
        call.view().start == call.start,
        *call.view().callee == call.callee.view(),
        call.view().arguments == syntax::item_trees(call.arguments@),
        syntax::expr_trees(s@).len() == s@.len(),
        0 <= i < s@.len() ==> syntax::expr_trees(s@)[i] == s@[i].view(),
        syntax::item_trees(items@).len() == items@.len(),
        0 <= i < items@.len() ==> ({
            let item = syntax::item_trees(items@)[i];
            &&& item.start == items@[i].start
            &&& item.end == items@[i].end
            &&& item.spread == items@[i].spread
            &&& item.value == items@[i].value.view()
        }),
        syntax::stmt_trees(body@).len() == body@.len(),
        0 <= i < body@.len() ==> syntax::stmt_trees(body@)[i] == body@[i].view(),
{
    if 0 <= i < items@.len() {
        assert(syntax::item_trees(items@)[i] == items@[i].view());
        assert(items@[i].view().value == items@[i].value.view());
    }
}

/// Statements with expressions, blocks, branches and loops.
pub proof fn law_statements_are_kept(e: Expr, a: Stmt, b: Stmt, s: Vec<Stmt>, d: Vec<Declarator>)
    ensures
        Stmt::Expression(e).view() == StmtTree::Expression(e.view()),
        Stmt::Throw(e).view() == StmtTree::Throw(e.view()),
        Stmt::Return(Some(e)).view() == StmtTree::Return(Some(e.view())),
        Stmt::Return(None).view() == StmtTree::Return(None),
        Stmt::Other.view() == StmtTree::Other,
        Stmt::Block(s).view() == StmtTree::Block(syntax::stmt_trees(s@)),
        Stmt::Declaration(d).view() == StmtTree::Declaration(syntax::declarator_trees(d@)),
        (Stmt::If {
            test: e,
            consequent: Box::new(a),
            alternate: Some(Box::new(b)),
        }).view() == (StmtTree::If {
            test: e.view(),
            consequent: Box::new(a.view()),
            alternate: Some(Box::new(b.view())),
        }),
        (Stmt::If { test: e, consequent: Box::new(a), alternate: None }).view() == (StmtTree::If {
            test: e.view(),
            consequent: Box::new(a.view()),
            alternate: None,
        }),
        (Stmt::Loop { head: Some(e), body: Box::new(a) }).view() == (StmtTree::Loop {
            head: Some(e.view()),
            body: Box::new(a.view()),
        }),
        (Stmt::Loop { head: None, body: Box::new(a) }).view() == (StmtTree::Loop {
            head: None,
            body: Box::new(a.view()),
        }),
{
}

/// Try and switch statements.
pub proof fn law_compound_statements_are_kept(
    e: Expr,
    s: Vec<Stmt>,
    h: Handler,
    f: Vec<Stmt>,
    cases: Vec<Vec<Stmt>>,
    i: int,
)
    ensures
        (Stmt::Try { block: s, handler: Some(h), finalizer: Some(f) }).view() == (StmtTree::Try {
            block: syntax::stmt_trees(s@),
            handler: Some(h.view()),
            finalizer: Some(syntax::stmt_trees(f@)),
        }),
        (Stmt::Try { block: s, handler: Some(h), finalizer: None }).view() == (StmtTree::Try {
            block: syntax::stmt_trees(s@),
            handler: Some(h.view()),
            finalizer: None,
        }),
        (Stmt::Try { block: s, handler: None, finalizer: Some(f) }).view() == (StmtTree::Try {
            block: syntax::stmt_trees(s@),
            handler: None,
            finalizer: Some(syntax::stmt_trees(f@)),
        }),
        h.view().start == h.start,
        h.view().body == syntax::stmt_trees(h.body@),
        (Stmt::Switch { discriminant: e, cases }).view() == (StmtTree::Switch {
            discriminant: e.view(),
            cases: syntax::case_trees(cases@),
        }),
        syntax::case_trees(cases@).len() == cases@.len(),
        0 <= i < cases@.len() ==> syntax::case_trees(cases@)[i] == syntax::stmt_trees(cases@[i]@),
{
}

/// Declarators and patterns.
pub proof fn law_patterns_are_kept(
    name: String,
    p: Pattern,
    e: Expr,
    d: Vec<Declarator>,
    parts: Vec<Part>,
    i: int,
)
    ensures
        Pattern::Name(name).view() == PatternTree::Name(name@),
        Pattern::Hole.view() == PatternTree::Hole,
        Pattern::Group(parts).view() == PatternTree::Group(syntax::part_trees(parts@)),
        (Pattern::Default { target: Box::new(p), value: e }).view() == (PatternTree::Default {
            target: Box::new(p.view()),
            value: e.view(),
        }),
        syntax::part_trees(parts@).len() == parts@.len(),
        0 <= i < parts@.len() ==> syntax::part_trees(parts@)[i].value == parts@[i].value.view(),
        0 <= i < parts@.len() && parts@[i].key is None ==> syntax::part_trees(parts@)[i].key is None,
        0 <= i < parts@.len() && parts@[i].key == Some(e) ==> syntax::part_trees(parts@)[i].key
            == Some(e.view()),
        syntax::declarator_trees(d@).len() == d@.len(),
        0 <= i < d@.len() ==> syntax::declarator_trees(d@)[i].id == d@[i].id.view(),
        0 <= i < d@.len() && d@[i].init is None ==> syntax::declarator_trees(d@)[i].init is None,
        0 <= i < d@.len() && d@[i].init == Some(e) ==> syntax::declarator_trees(d@)[i].init == Some(
            e.view(),
        ),
{
    if 0 <= i < parts@.len() {
        assert(syntax::part_trees(parts@)[i] == parts@[i].view());
        assert(parts@[i].view().value == parts@[i].value.view());
    }
    if 0 <= i < d@.len() {
        assert(syntax::declarator_trees(d@)[i] == d@[i].view());
        assert(d@[i].view().id == d@[i].id.view());
    }
}

} // verus!
