//! Freeing a syntax tree. Dropping a tree descends into it recursively, and
//! chains of operators have no brackets that would bound their length. Here a
//! tree is taken apart node by node, with the nodes that are left in a list.

use crate::syntax;
use crate::syntax::{Call, Declarator, Expr, Item, Part, Pattern, Stmt};
use vstd::prelude::*;

verus! {

/// A part of a tree that is still whole.
enum Piece {
    Expr(Expr),
    Stmt(Stmt),
    Pattern(Pattern),
}

impl Piece {
    spec fn size(self) -> nat {
        match self {
            Piece::Expr(e) => e.view().size(),
            Piece::Stmt(s) => s.view().size(),
            Piece::Pattern(p) => p.view().size(),
        }
    }
}

spec fn pieces_size(s: Seq<Piece>) -> nat
    decreases s.len(),
{
    if s.len() == 0 {
        0
    } else {
        pieces_size(s.drop_last()) + s.last().size()
    }
}

fn push_piece(piece: Piece, pieces: &mut Vec<Piece>)
    ensures
        pieces_size(final(pieces)@) == pieces_size(old(pieces)@) + piece.size(),
{
    pieces.push(piece);
    assert(pieces@.drop_last() =~= old(pieces)@);
}

fn push_optional(e: Option<Expr>, pieces: &mut Vec<Piece>)
    ensures
        pieces_size(final(pieces)@) == pieces_size(old(pieces)@) + (match e {
            Some(x) => x.view().size(),
            None => 0,
        }),
{
    if let Some(x) = e {
        push_piece(Piece::Expr(x), pieces);
    }
}

fn push_exprs(s: Vec<Expr>, pieces: &mut Vec<Piece>)
    ensures
        pieces_size(final(pieces)@) < pieces_size(old(pieces)@) + syntax::exprs_size(
            syntax::expr_trees(s@),
        ),
{
    let ghost start = pieces_size(pieces@) + syntax::exprs_size(syntax::expr_trees(s@));
    let mut s: Vec<Expr> = s;
    loop
        invariant
            pieces_size(pieces@) + syntax::exprs_size(syntax::expr_trees(s@)) <= start,
        ensures
            pieces_size(pieces@) < start,
        decreases s@.len(),
    {
        let ghost whole = s@;
        match s.pop() {
            Some(x) => {
                assert(syntax::expr_trees(whole).drop_last() =~= syntax::expr_trees(s@));
                assert(syntax::expr_trees(whole).last() == x.view());
                push_piece(Piece::Expr(x), pieces);
            },
            None => {
                assert(syntax::expr_trees(s@) =~= seq![]);
                break;
            },
        }
    }
}

fn push_items(s: Vec<Item>, pieces: &mut Vec<Piece>)
    ensures
        pieces_size(final(pieces)@) < pieces_size(old(pieces)@) + syntax::items_size(
            syntax::item_trees(s@),
        ),
{
    let ghost start = pieces_size(pieces@) + syntax::items_size(syntax::item_trees(s@));
    let mut s: Vec<Item> = s;
    loop
        invariant
            pieces_size(pieces@) + syntax::items_size(syntax::item_trees(s@)) <= start,
        ensures
            pieces_size(pieces@) < start,
        decreases s@.len(),
    {
        let ghost whole = s@;
        match s.pop() {
            Some(x) => {
                assert(syntax::item_trees(whole).drop_last() =~= syntax::item_trees(s@));
                assert(syntax::item_trees(whole).last() == x.view());
                assert(x.view().size() == 1 + x.value.view().size());
                push_piece(Piece::Expr(x.value), pieces);
            },
            None => {
                assert(syntax::item_trees(s@) =~= seq![]);
                break;
            },
        }
    }
}

fn push_stmts(s: Vec<Stmt>, pieces: &mut Vec<Piece>)
    ensures
        pieces_size(final(pieces)@) < pieces_size(old(pieces)@) + syntax::stmts_size(
            syntax::stmt_trees(s@),
        ),
{
    let ghost start = pieces_size(pieces@) + syntax::stmts_size(syntax::stmt_trees(s@));
    let mut s: Vec<Stmt> = s;
    loop
        invariant
            pieces_size(pieces@) + syntax::stmts_size(syntax::stmt_trees(s@)) <= start,
        ensures
            pieces_size(pieces@) < start,
        decreases s@.len(),
    {
        let ghost whole = s@;
        match s.pop() {
            Some(x) => {
                assert(syntax::stmt_trees(whole).drop_last() =~= syntax::stmt_trees(s@));
                assert(syntax::stmt_trees(whole).last() == x.view());
                push_piece(Piece::Stmt(x), pieces);
            },
            None => {
                assert(syntax::stmt_trees(s@) =~= seq![]);
                break;
            },
        }
    }
}

fn push_declarators(s: Vec<Declarator>, pieces: &mut Vec<Piece>)
    ensures
        pieces_size(final(pieces)@) < pieces_size(old(pieces)@) + syntax::declarators_size(
            syntax::declarator_trees(s@),
        ),
{
    let ghost start = pieces_size(pieces@) + syntax::declarators_size(syntax::declarator_trees(s@));
    let mut s: Vec<Declarator> = s;
    loop
        invariant
            pieces_size(pieces@) + syntax::declarators_size(syntax::declarator_trees(s@)) <= start,
        ensures
            pieces_size(pieces@) < start,
        decreases s@.len(),
    {
        let ghost whole = s@;
        match s.pop() {
            Some(x) => {
                assert(syntax::declarator_trees(whole).drop_last() =~= syntax::declarator_trees(s@));
                assert(syntax::declarator_trees(whole).last() == x.view());
                assert(x.view().size() == 1 + x.id.view().size() + (match x.init {
                    Some(y) => y.view().size(),
                    None => 0,
                }));
                push_piece(Piece::Pattern(x.id), pieces);
                push_optional(x.init, pieces);
            },
            None => {
                assert(syntax::declarator_trees(s@) =~= seq![]);
                break;
            },
        }
    }
}

fn push_parts(s: Vec<Part>, pieces: &mut Vec<Piece>)
    ensures
        pieces_size(final(pieces)@) < pieces_size(old(pieces)@) + syntax::parts_size(
            syntax::part_trees(s@),
        ),
{
    let ghost start = pieces_size(pieces@) + syntax::parts_size(syntax::part_trees(s@));
    let mut s: Vec<Part> = s;
    loop
        invariant
            pieces_size(pieces@) + syntax::parts_size(syntax::part_trees(s@)) <= start,
        ensures
            pieces_size(pieces@) < start,
        decreases s@.len(),
    {
        let ghost whole = s@;
        match s.pop() {
            Some(x) => {
                assert(syntax::part_trees(whole).drop_last() =~= syntax::part_trees(s@));
                assert(syntax::part_trees(whole).last() == x.view());
                assert(x.view().size() == 1 + x.value.view().size() + (match x.key {
                    Some(y) => y.view().size(),
                    None => 0,
                }));
                push_piece(Piece::Pattern(x.value), pieces);
                push_optional(x.key, pieces);
            },
            None => {
                assert(syntax::part_trees(s@) =~= seq![]);
                break;
            },
        }
    }
}

fn push_cases(s: Vec<Vec<Stmt>>, pieces: &mut Vec<Piece>)
    ensures
        pieces_size(final(pieces)@) < pieces_size(old(pieces)@) + syntax::cases_size(
            syntax::case_trees(s@),
        ),
{
    let ghost start = pieces_size(pieces@) + syntax::cases_size(syntax::case_trees(s@));
    let mut s: Vec<Vec<Stmt>> = s;
    loop
        invariant
            pieces_size(pieces@) + syntax::cases_size(syntax::case_trees(s@)) <= start,
        ensures
            pieces_size(pieces@) < start,
        decreases s@.len(),
    {
        let ghost whole = s@;
        match s.pop() {
            Some(x) => {
                assert(syntax::case_trees(whole).drop_last() =~= syntax::case_trees(s@));
                assert(syntax::case_trees(whole).last() == syntax::stmt_trees(x@));
                push_stmts(x, pieces);
            },
            None => {
                assert(syntax::case_trees(s@) =~= seq![]);
                break;
            },
        }
    }
}

/// Puts the parts of an expression into the list.
fn split_expr(e: Expr, pieces: &mut Vec<Piece>)
    ensures
        pieces_size(final(pieces)@) < pieces_size(old(pieces)@) + e.view().size(),
{
    proof {
        syntax::lemma_expr_size_positive(e.view());
    }
    match e {
        Expr::Paren(x) => push_piece(Piece::Expr(*x), pieces),
        Expr::TypeWrapped(x) => push_piece(Piece::Expr(*x), pieces),
        Expr::Await(x) => push_piece(Piece::Expr(*x), pieces),
        Expr::Unary(x) => push_piece(Piece::Expr(*x), pieces),
        Expr::Assignment(x) => push_piece(Piece::Expr(*x), pieces),
        Expr::ChainMember(x) => push_piece(Piece::Expr(*x), pieces),
        Expr::Member { object, .. } => push_piece(Piece::Expr(*object), pieces),
        Expr::Binary(a, b) => push_two(*a, *b, pieces),
        Expr::Logical(a, b) => push_two(*a, *b, pieces),
        Expr::Element(a, b) => push_two(*a, *b, pieces),
        Expr::ChainElement(a, b) => push_two(*a, *b, pieces),
        Expr::Conditional(a, b, c) => {
            push_two(*a, *b, pieces);
            push_piece(Piece::Expr(*c), pieces);
        },
        Expr::Sequence(s) => push_exprs(s, pieces),
        Expr::Template(s) => push_exprs(s, pieces),
        Expr::Object(s) => push_exprs(s, pieces),
        Expr::Array(s) => push_items(s, pieces),
        Expr::Call(call) => push_call(call, pieces),
        Expr::ChainCall(call) => push_call(call, pieces),
        Expr::Function(body) => push_stmts(body, pieces),
        _ => {},
    }
}

fn push_two(a: Expr, b: Expr, pieces: &mut Vec<Piece>)
    ensures
        pieces_size(final(pieces)@) == pieces_size(old(pieces)@) + a.view().size()
            + b.view().size(),
{
    push_piece(Piece::Expr(a), pieces);
    push_piece(Piece::Expr(b), pieces);
}

fn push_call(call: Call, pieces: &mut Vec<Piece>)
    ensures
        pieces_size(final(pieces)@) < pieces_size(old(pieces)@) + call.view().size(),
{
    push_piece(Piece::Expr(*call.callee), pieces);
    push_items(call.arguments, pieces);
}

/// Puts the parts of a statement into the list.
fn split_stmt(s: Stmt, pieces: &mut Vec<Piece>)
    ensures
        pieces_size(final(pieces)@) < pieces_size(old(pieces)@) + s.view().size(),
{
    match s {
        Stmt::Expression(e) => push_piece(Piece::Expr(e), pieces),
        Stmt::Throw(e) => push_piece(Piece::Expr(e), pieces),
        Stmt::Return(e) => push_optional(e, pieces),
        Stmt::Declaration(d) => push_declarators(d, pieces),
        Stmt::Block(body) => push_stmts(body, pieces),
        Stmt::If { test, consequent, alternate } => {
            push_piece(Piece::Expr(test), pieces);
            push_piece(Piece::Stmt(*consequent), pieces);
            if let Some(x) = alternate {
                push_piece(Piece::Stmt(*x), pieces);
            }
        },
        Stmt::Loop { head, body } => {
            push_optional(head, pieces);
            push_piece(Piece::Stmt(*body), pieces);
        },
        Stmt::Try { block, handler, finalizer } => {
            push_stmts(block, pieces);
            if let Some(x) = handler {
                assert(x.view().size() == 1 + syntax::stmts_size(syntax::stmt_trees(x.body@)));
                push_stmts(x.body, pieces);
            }
            if let Some(x) = finalizer {
                push_stmts(x, pieces);
            }
        },
        Stmt::Switch { discriminant, cases } => {
            push_piece(Piece::Expr(discriminant), pieces);
            push_cases(cases, pieces);
        },
        Stmt::Other => {},
    }
}

/// Puts the parts of a pattern into the list.
fn split_pattern(p: Pattern, pieces: &mut Vec<Piece>)
    ensures
        pieces_size(final(pieces)@) < pieces_size(old(pieces)@) + p.view().size(),
{
    match p {
        Pattern::Group(parts) => push_parts(parts, pieces),
        Pattern::Default { target, value } => {
            push_piece(Piece::Pattern(*target), pieces);
            push_piece(Piece::Expr(value), pieces);
        },
        _ => {},
    }
}

/// Frees a program, however deep its trees are.
pub(crate) fn discard(program: Vec<Stmt>) {
    let mut pieces: Vec<Piece> = Vec::new();
    push_stmts(program, &mut pieces);
    loop
        decreases pieces_size(pieces@),
    {
        let ghost whole = pieces@;
        match pieces.pop() {
            Some(piece) => {
                assert(whole.drop_last() =~= pieces@);
                match piece {
                    Piece::Expr(e) => split_expr(e, &mut pieces),
                    Piece::Stmt(s) => split_stmt(s, &mut pieces),
                    Piece::Pattern(p) => split_pattern(p, &mut pieces),
                }
            },
            None => {
                return;
            },
        }
    }
}

} // verus!
