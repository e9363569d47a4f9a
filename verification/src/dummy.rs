//! Placeholder strings in test data.

use crate::calls;
use crate::parse;
use crate::parse::{DummyLiteral, DummyModel};
use crate::source;
use crate::source::Source;
use crate::syntax;
use crate::syntax::{Call, CallTree, Expr, ExprTree, Item, ItemTree};
use crate::text;
use vstd::prelude::*;

verus! {

/// Values that are almost never legitimate test inputs. Common words such as
/// `test` or `abc` are left out on purpose.
pub const DUMMY_STRINGS: [&'static str; 6] = ["foo", "bar", "baz", "qux", "hoge", "fuga"];

impl ExprTree {
    /// The placeholders among the data of the expression, in source order:
    /// string literals in arguments, elements and property values, but not in
    /// property keys, operators or nested functions.
    pub open spec fn dummies(self, source: Seq<char>) -> Seq<DummyModel>
        decreases self,
    {
        match self {
            ExprTree::Text { value, start } => if text::is_listed(DUMMY_STRINGS@, value) {
                seq![DummyModel { value, line: source::line_at(source, start) }]
            } else {
                seq![]
            },
            ExprTree::Call(call) => call.dummies(source),
            ExprTree::Object(s) => value_dummies(s, source),
            ExprTree::Array(s) => element_dummies(s, source),
            ExprTree::Member { object, .. } => object.dummies(source),
            ExprTree::Element(object, _) => object.dummies(source),
            ExprTree::Await(e) => e.dummies(source),
            ExprTree::Paren(e) => e.dummies(source),
            _ => seq![],
        }
    }

    /// Whether the expression is a string literal, or one in parentheses.
    pub open spec fn is_direct_text(self) -> bool {
        match self {
            ExprTree::Text { .. } => true,
            ExprTree::Paren(e) => *e is Text,
            _ => false,
        }
    }

    /// Whether an array element of this shape is searched.
    pub open spec fn is_searched_element(self) -> bool {
        self is Text || self is Call || self is Object || self is Array
    }
}

impl CallTree {
    pub open spec fn dummies(self, source: Seq<char>) -> Seq<DummyModel>
        decreases self,
    {
        self.callee.dummies(source) + argument_dummies(
            self.arguments,
            self.callee.names_expect(),
            source,
        )
    }
}

/// The placeholders among the arguments of a call. The literal of
/// `expect("foo")` is left to the rule on tautologies.
pub open spec fn argument_dummies(
    s: Seq<ItemTree>,
    of_expect: bool,
    source: Seq<char>,
) -> Seq<DummyModel>
    decreases s,
{
    if s.len() == 0 {
        seq![]
    } else {
        let item = s.last();
        argument_dummies(s.drop_last(), of_expect, source) + (if of_expect && !item.spread
            && item.value.is_direct_text() {
            seq![]
        } else {
            item.value.dummies(source)
        })
    }
}

pub open spec fn element_dummies(s: Seq<ItemTree>, source: Seq<char>) -> Seq<DummyModel>
    decreases s,
{
    if s.len() == 0 {
        seq![]
    } else {
        let item = s.last();
        element_dummies(s.drop_last(), source) + (if item.spread
            || item.value.is_searched_element() {
            item.value.dummies(source)
        } else {
            seq![]
        })
    }
}

pub open spec fn value_dummies(s: Seq<ExprTree>, source: Seq<char>) -> Seq<DummyModel>
    decreases s,
{
    if s.len() == 0 {
        seq![]
    } else {
        value_dummies(s.drop_last(), source) + s.last().dummies(source)
    }
}

fn push_if_dummy(value: &String, start: u32, src: &Source, out: &mut Vec<DummyLiteral>)
    ensures
        parse::dummy_models(final(out)@) == parse::dummy_models(old(out)@) + (ExprTree::Text {
            value: value@,
            start,
        }).dummies(src.view()),
{
    if text::listed(&DUMMY_STRINGS, value.as_str()) {
        out.push(DummyLiteral { value: value.clone(), line: src.line(start) });
    }
    assert(parse::dummy_models(out@) =~= parse::dummy_models(old(out)@) + (ExprTree::Text {
        value: value@,
        start,
    }).dummies(src.view()));
}

fn is_direct_string(e: &Expr) -> (r: bool)
    ensures
        r == e.view().is_direct_text(),
{
    proof {
        reveal_with_fuel(Expr::view, 2);
    }
    match e {
        Expr::Text { .. } => true,
        Expr::Paren(inner) => match &**inner {
            Expr::Text { .. } => true,
            _ => false,
        },
        _ => false,
    }
}

fn is_searched(e: &Expr) -> (r: bool)
    ensures
        r == e.view().is_searched_element(),
{
    match e {
        Expr::Text { .. } => true,
        Expr::Call(_) => true,
        Expr::Object(_) => true,
        Expr::Array(_) => true,
        _ => false,
    }
}

/// Appends the placeholders among the data of the expression.
pub fn collect_dummies_expr(e: &Expr, src: &Source, out: &mut Vec<DummyLiteral>)
    ensures
        parse::dummy_models(final(out)@) == parse::dummy_models(old(out)@) + e.view().dummies(
            src.view(),
        ),
    decreases e,
{
    match e {
        Expr::Text { value, start } => {
            push_if_dummy(value, *start, src, out);
        },
        Expr::Call(call) => {
            collect_dummies_call(call, src, out);
        },
        Expr::Object(s) => {
            collect_dummies_object(s, src, out);
        },
        Expr::Array(s) => {
            collect_dummies_array(s, src, out);
        },
        Expr::Member { object, .. } => {
            collect_dummies_expr(object, src, out);
        },
        Expr::Element(object, _) => {
            collect_dummies_expr(object, src, out);
        },
        Expr::Await(inner) => {
            collect_dummies_expr(inner, src, out);
        },
        Expr::Paren(inner) => {
            collect_dummies_expr(inner, src, out);
        },
        _ => {},
    }
    assert(parse::dummy_models(out@) =~= parse::dummy_models(old(out)@) + e.view().dummies(
        src.view(),
    ));
}

fn collect_dummies_object(values: &Vec<Expr>, src: &Source, out: &mut Vec<DummyLiteral>)
    ensures
        parse::dummy_models(final(out)@) == parse::dummy_models(old(out)@) + value_dummies(
            syntax::expr_trees(values@),
            src.view(),
        ),
    decreases values,
{
    let ghost trees = syntax::expr_trees(values@);
    let ghost before = parse::dummy_models(out@);
    let mut i: usize = 0;
    assert(parse::dummy_models(out@) =~= before + value_dummies(trees.take(0), src.view()));
    while i < values.len()
        invariant
            0 <= i <= values@.len(),
            trees == syntax::expr_trees(values@),
            parse::dummy_models(out@) == before + value_dummies(trees.take(i as int), src.view()),
        decreases values@.len() - i,
    {
        assert(trees[i as int] == values@[i as int].view());
        assert(trees.take(i + 1).drop_last() =~= trees.take(i as int));
        collect_dummies_expr(&values[i], src, out);
        assert(parse::dummy_models(out@) =~= before + value_dummies(trees.take(i + 1), src.view()));
        i += 1;
    }
    assert(trees.take(trees.len() as int) =~= trees);
}

fn collect_dummies_array(items: &Vec<Item>, src: &Source, out: &mut Vec<DummyLiteral>)
    ensures
        parse::dummy_models(final(out)@) == parse::dummy_models(old(out)@) + element_dummies(
            syntax::item_trees(items@),
            src.view(),
        ),
    decreases items,
{
    let ghost trees = syntax::item_trees(items@);
    let ghost before = parse::dummy_models(out@);
    let mut i: usize = 0;
    assert(parse::dummy_models(out@) =~= before + element_dummies(trees.take(0), src.view()));
    while i < items.len()
        invariant
            0 <= i <= items@.len(),
            trees == syntax::item_trees(items@),
            parse::dummy_models(out@) == before + element_dummies(trees.take(i as int), src.view()),
        decreases items@.len() - i,
    {
        assert(trees[i as int] == items@[i as int].view());
        assert(trees.take(i + 1).drop_last() =~= trees.take(i as int));
        if items[i].spread || is_searched(&items[i].value) {
            collect_dummies_expr(&items[i].value, src, out);
        }
        assert(parse::dummy_models(out@) =~= before + element_dummies(
            trees.take(i + 1),
            src.view(),
        ));
        i += 1;
    }
    assert(trees.take(trees.len() as int) =~= trees);
}

fn collect_dummies_call(call: &Call, src: &Source, out: &mut Vec<DummyLiteral>)
    ensures
        parse::dummy_models(final(out)@) == parse::dummy_models(old(out)@) + call.view().dummies(
            src.view(),
        ),
    decreases call,
{
    let suppress: bool = calls::names_expect(&call.callee);
    collect_dummies_expr(&call.callee, src, out);
    let ghost trees = syntax::item_trees(call.arguments@);
    let ghost before = parse::dummy_models(out@);
    let mut i: usize = 0;
    assert(parse::dummy_models(out@) =~= before + argument_dummies(
        trees.take(0),
        suppress,
        src.view(),
    ));
    while i < call.arguments.len()
        invariant
            0 <= i <= call.arguments@.len(),
            trees == syntax::item_trees(call.arguments@),
            parse::dummy_models(out@) == before + argument_dummies(
                trees.take(i as int),
                suppress,
                src.view(),
            ),
        decreases call.arguments@.len() - i,
    {
        assert(trees[i as int] == call.arguments@[i as int].view());
        assert(trees.take(i + 1).drop_last() =~= trees.take(i as int));
        let item: &Item = &call.arguments[i];
        if !(suppress && !item.spread && is_direct_string(&item.value)) {
            collect_dummies_expr(&item.value, src, out);
        }
        assert(parse::dummy_models(out@) =~= before + argument_dummies(
            trees.take(i + 1),
            suppress,
            src.view(),
        ));
        i += 1;
    }
    assert(trees.take(trees.len() as int) =~= trees);
    assert(parse::dummy_models(out@) =~= parse::dummy_models(old(out)@) + call.view().dummies(
        src.view(),
    ));
}

} // verus!
