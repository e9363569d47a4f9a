//! Laws of the steps of a test: in every position an act counts, every name
//! that is bound is known, every throw is seen, and every placeholder is
//! found.

use crate::act;
use crate::dummy;
use crate::dummy::DUMMY_STRINGS;
use crate::parse::DummyModel;
use crate::source;
use crate::syntax::{
    CallTree, DeclaratorTree, ExprTree, HandlerTree, ItemTree, PartTree, PatternTree, StmtTree,
};
use crate::text;
use vstd::prelude::*;

verus! {

/// A call acts if it is no assertion and no mock set-up, or if what it is
/// called on or one of its arguments acts, spread or not; and only then.
pub proof fn law_calls_act(call: CallTree)
    ensures
        ExprTree::Call(call).has_act() <==> ({
            ||| !call.is_assertion_call() && call.mock_kind() is None
            ||| call.callee.has_act()
            ||| exists|i: int|
                0 <= i < call.arguments.len() && (#[trigger] call.arguments[i]).value.has_act()
        }),
        ExprTree::ChainCall(call).has_act() == ExprTree::Call(call).has_act(),
{
    assert(call.has_act() == ExprTree::Call(call).has_act());
    assert(call.has_act() == ExprTree::ChainCall(call).has_act());
    lemma_items_act(call.arguments);
    assert(call.has_act() <==> ({
        ||| !call.is_assertion_call() && call.mock_kind() is None
        ||| call.callee.has_act()
        ||| act::any_item_acts(call.arguments)
    }));
}

proof fn lemma_items_act(s: Seq<ItemTree>)
    ensures
        act::any_item_acts(s) <==> exists|i: int|
            0 <= i < s.len() && (#[trigger] s[i]).value.has_act(),
{
    if act::any_item_acts(s) {
        let i = choose|i: int| 0 <= i < s.len() && (#[trigger] s[i]).has_act();
        assert(s[i].value.has_act());
    }
    if exists|i: int| 0 <= i < s.len() && (#[trigger] s[i]).value.has_act() {
        let i = choose|i: int| 0 <= i < s.len() && (#[trigger] s[i]).value.has_act();
        assert(s[i].has_act());
    }
}

/// The calls that belong to an assertion: those of `expect`, those of a
/// matcher on it, and those of `assert` and its methods.
pub proof fn law_calls_of_an_assertion(call: CallTree, e: ExprTree, property: Seq<char>)
    ensures
        call.is_assertion_call() <==> ({
            ||| call.callee.callee_name() matches Some((name, _)) && name == "expect"@
            ||| call.callee.is_expect_chain()
            ||| *call.callee == ExprTree::Identifier("assert"@)
            ||| (*call.callee matches ExprTree::Member { object, .. } && *object
                == ExprTree::Identifier("assert"@))
        }),
        ExprTree::Call(call).is_expect_chain() <==> (call.callee.callee_name() matches Some(
            (name, _),
        ) && name == "expect"@),
        (ExprTree::Member { object: Box::new(e), property }).is_expect_chain()
            == e.is_expect_chain(),
        !(e is Call) && !(e is Member) ==> !e.is_expect_chain(),
{
}

/// An expression acts if one of its operands does, in whichever position;
/// `new` and tagged templates always act; variables, literals and functions
/// that are only defined never do.
pub proof fn law_expressions_act(a: ExprTree, b: ExprTree, c: ExprTree, property: Seq<char>)
    ensures
        ExprTree::Invocation.has_act(),
        ExprTree::Paren(Box::new(a)).has_act() == a.has_act(),
        ExprTree::TypeWrapped(Box::new(a)).has_act() == a.has_act(),
        ExprTree::Await(Box::new(a)).has_act() == a.has_act(),
        ExprTree::Unary(Box::new(a)).has_act() == a.has_act(),
        ExprTree::Assignment(Box::new(a)).has_act() == a.has_act(),
        ExprTree::ChainMember(Box::new(a)).has_act() == a.has_act(),
        (ExprTree::Member { object: Box::new(a), property }).has_act() == a.has_act(),
        ExprTree::Binary(Box::new(a), Box::new(b)).has_act() == (a.has_act() || b.has_act()),
        ExprTree::Logical(Box::new(a), Box::new(b)).has_act() == (a.has_act() || b.has_act()),
        ExprTree::Element(Box::new(a), Box::new(b)).has_act() == (a.has_act() || b.has_act()),
        ExprTree::ChainElement(Box::new(a), Box::new(b)).has_act() == (a.has_act() || b.has_act()),
        ExprTree::Conditional(Box::new(a), Box::new(b), Box::new(c)).has_act() == (a.has_act()
            || b.has_act() || c.has_act()),
        a is Identifier || a is Text || a is Constant || a is Function || a is Other
            ==> !a.has_act(),
{
}

/// A comma expression, a template and an object act if any of their
/// expressions does, and an array if any of its elements does.
pub proof fn law_lists_act(s: Seq<ExprTree>, items: Seq<ItemTree>)
    ensures
        ExprTree::Sequence(s).has_act() <==> exists|i: int|
            0 <= i < s.len() && (#[trigger] s[i]).has_act(),
        ExprTree::Template(s).has_act() == ExprTree::Sequence(s).has_act(),
        ExprTree::Object(s).has_act() == ExprTree::Sequence(s).has_act(),
        ExprTree::Array(items).has_act() <==> exists|i: int|
            0 <= i < items.len() && (#[trigger] items[i]).value.has_act(),
{
    assert(ExprTree::Sequence(s).has_act() == act::any_expr_acts(s));
    assert(ExprTree::Template(s).has_act() == act::any_expr_acts(s));
    assert(ExprTree::Object(s).has_act() == act::any_expr_acts(s));
    lemma_items_act(items);
    assert(ExprTree::Array(items).has_act() == act::any_item_acts(items));
}

/// A statement acts if anything in it does: the expression of a statement, an
/// initial value or a pattern of a declaration, a condition, a head, a branch,
/// a body, a handler or a finalizer.
pub proof fn law_statements_act(
    e: ExprTree,
    a: StmtTree,
    b: StmtTree,
    s: Seq<StmtTree>,
    t: Seq<StmtTree>,
    f: Seq<StmtTree>,
    d: Seq<DeclaratorTree>,
    cases: Seq<Seq<StmtTree>>,
    start: u32,
)
    ensures
        ({
            let s_acts = exists|i: int| 0 <= i < s.len() && (#[trigger] s[i]).has_act();
            let t_acts = exists|i: int| 0 <= i < t.len() && (#[trigger] t[i]).has_act();
            let f_acts = exists|i: int| 0 <= i < f.len() && (#[trigger] f[i]).has_act();
            let caught = Some(HandlerTree { start, body: t });
            &&& StmtTree::Expression(e).has_act() == e.has_act()
            &&& StmtTree::Throw(e).has_act() == e.has_act()
            &&& StmtTree::Return(Some(e)).has_act() == e.has_act()
            &&& !StmtTree::Return(None).has_act()
            &&& !StmtTree::Other.has_act()
            &&& StmtTree::Block(s).has_act() == s_acts
            &&& (StmtTree::If {
                test: e,
                consequent: Box::new(a),
                alternate: Some(Box::new(b)),
            }).has_act() == (e.has_act() || a.has_act() || b.has_act())
            &&& (StmtTree::If { test: e, consequent: Box::new(a), alternate: None }).has_act() == (
            e.has_act() || a.has_act())
            &&& (StmtTree::Loop { head: Some(e), body: Box::new(a) }).has_act() == (e.has_act()
                || a.has_act())
            &&& (StmtTree::Loop { head: None, body: Box::new(a) }).has_act() == a.has_act()
            &&& (StmtTree::Try { block: s, handler: caught, finalizer: Some(f) }).has_act() == (
            s_acts || t_acts || f_acts)
            &&& (StmtTree::Try { block: s, handler: caught, finalizer: None }).has_act() == (s_acts
                || t_acts)
            &&& (StmtTree::Try { block: s, handler: None, finalizer: Some(f) }).has_act() == (s_acts
                || f_acts)
            &&& (StmtTree::Try { block: s, handler: None, finalizer: None }).has_act() == s_acts
            &&& (StmtTree::Switch { discriminant: e, cases }).has_act() == (e.has_act() || exists|
                i: int,
                k: int,
            |
                #![trigger cases[i][k]]
                0 <= i < cases.len() && 0 <= k < cases[i].len() && cases[i][k].has_act())
            &&& StmtTree::Declaration(d).has_act() == exists|i: int|
                0 <= i < d.len() && ((#[trigger] d[i]).id.has_act() || (d[i].init matches Some(x)
                    && x.has_act()))
        }),
{
    let caught = Some(HandlerTree { start, body: t });
    assert(StmtTree::Block(s).has_act() == act::any_stmt_acts(s));
    assert((StmtTree::Try { block: s, handler: caught, finalizer: Some(f) }).has_act() == (
    act::any_stmt_acts(s) || act::any_stmt_acts(t) || act::any_stmt_acts(f)));
    assert((StmtTree::Try { block: s, handler: caught, finalizer: None }).has_act() == (
    act::any_stmt_acts(s) || act::any_stmt_acts(t)));
    assert((StmtTree::Try { block: s, handler: None, finalizer: Some(f) }).has_act() == (
    act::any_stmt_acts(s) || act::any_stmt_acts(f)));
    assert((StmtTree::Try { block: s, handler: None, finalizer: None }).has_act()
        == act::any_stmt_acts(s));
    lemma_cases_act(cases);
    assert((StmtTree::Switch { discriminant: e, cases }).has_act() == (e.has_act()
        || act::any_case_acts(cases)));
    lemma_declarators_act(d);
}

proof fn lemma_declarators_act(d: Seq<DeclaratorTree>)
    ensures
        StmtTree::Declaration(d).has_act() == exists|i: int|
            0 <= i < d.len() && ((#[trigger] d[i]).id.has_act() || (d[i].init matches Some(x)
                && x.has_act())),
{
    assert(StmtTree::Declaration(d).has_act() == act::any_declarator_acts(d));
    if act::any_declarator_acts(d) {
        let i = choose|i: int| 0 <= i < d.len() && (#[trigger] d[i]).has_act();
        assert(d[i].id.has_act() || (d[i].init matches Some(x) && x.has_act()));
    }
    if exists|i: int|
        0 <= i < d.len() && ((#[trigger] d[i]).id.has_act() || (d[i].init matches Some(x)
            && x.has_act())) {
        let i = choose|i: int|
            0 <= i < d.len() && ((#[trigger] d[i]).id.has_act() || (d[i].init matches Some(x)
                && x.has_act()));
        assert(d[i].has_act());
    }
}

proof fn lemma_cases_act(cases: Seq<Seq<StmtTree>>)
    ensures
        act::any_case_acts(cases) == exists|i: int, k: int|
            #![trigger cases[i][k]]
            0 <= i < cases.len() && 0 <= k < cases[i].len() && cases[i][k].has_act(),
{
    if act::any_case_acts(cases) {
        let i = choose|i: int| 0 <= i < cases.len() && act::any_stmt_acts(#[trigger] cases[i]);
        let k = choose|k: int| 0 <= k < cases[i].len() && (#[trigger] cases[i][k]).has_act();
        assert(cases[i][k].has_act());
    }
    if exists|i: int, k: int|
        #![trigger cases[i][k]]
        0 <= i < cases.len() && 0 <= k < cases[i].len() && cases[i][k].has_act() {
        let (i, k) = choose|i: int, k: int|
            #![trigger cases[i][k]]
            0 <= i < cases.len() && 0 <= k < cases[i].len() && cases[i][k].has_act();
        assert(act::any_stmt_acts(cases[i]));
    }
}

/// Destructuring acts if a default or a computed key in it does, however deep
/// it stands.
pub proof fn law_patterns_act(
    target: PatternTree,
    value: ExprTree,
    parts: Seq<PartTree>,
    name: Seq<char>,
)
    ensures
        !PatternTree::Name(name).has_act(),
        !PatternTree::Hole.has_act(),
        (PatternTree::Default { target: Box::new(target), value }).has_act() == (value.has_act()
            || target.has_act()),
        PatternTree::Group(parts).has_act() == exists|i: int|
            0 <= i < parts.len() && ((#[trigger] parts[i]).value.has_act() || (
            parts[i].key matches Some(key) && key.has_act())),
{
    assert(PatternTree::Group(parts).has_act() == act::any_part_acts(parts));
    if act::any_part_acts(parts) {
        let i = choose|i: int| 0 <= i < parts.len() && (#[trigger] parts[i]).has_act();
        assert(parts[i].value.has_act() || (parts[i].key matches Some(key) && key.has_act()));
    }
    if exists|i: int|
        0 <= i < parts.len() && ((#[trigger] parts[i]).value.has_act() || (
        parts[i].key matches Some(key) && key.has_act())) {
        let i = choose|i: int|
            0 <= i < parts.len() && ((#[trigger] parts[i]).value.has_act() || (
            parts[i].key matches Some(key) && key.has_act()));
        assert(parts[i].has_act());
    }
}

/// Every name of a pattern is bound, in order: those of its parts, of a
/// pattern with a default those of the pattern.
pub proof fn law_patterns_bind_their_names(
    name: Seq<char>,
    target: PatternTree,
    value: ExprTree,
    parts: Seq<PartTree>,
    part: PartTree,
)
    ensures
        PatternTree::Name(name).names() == seq![name],
        PatternTree::Hole.names().len() == 0,
        (PatternTree::Default { target: Box::new(target), value }).names() == target.names(),
        PatternTree::Group(seq![]).names().len() == 0,
        PatternTree::Group(parts.push(part)).names() == PatternTree::Group(parts).names()
            + part.value.names(),
{
    assert(parts.push(part).drop_last() =~= parts);
    assert(act::part_names(parts.push(part)) == act::part_names(parts) + part.value.names());
    assert(PatternTree::Group(parts.push(part)).names() == act::part_names(parts.push(part)));
    assert(PatternTree::Group(parts).names() == act::part_names(parts));
    assert(act::part_names(seq![]) =~= seq![]);
    assert(PatternTree::Group(seq![]).names() == act::part_names(seq![]));
}

/// Every declarator binds the names of its pattern, and every statement inside
/// another binds its own, in order; what is no declaration binds none itself.
pub proof fn law_statements_bind_their_names(
    e: ExprTree,
    head: Option<ExprTree>,
    a: StmtTree,
    b: StmtTree,
    s: Seq<StmtTree>,
    t: Seq<StmtTree>,
    f: Seq<StmtTree>,
    d: Seq<DeclaratorTree>,
    one: DeclaratorTree,
    cases: Seq<Seq<StmtTree>>,
    start: u32,
)
    ensures
        act::stmt_names(seq![]).len() == 0,
        act::stmt_names(s.push(a)) == act::stmt_names(s) + a.names(),
        StmtTree::Declaration(seq![]).names().len() == 0,
        StmtTree::Declaration(d.push(one)).names() == StmtTree::Declaration(d).names()
            + one.id.names(),
        StmtTree::Block(s).names() == act::stmt_names(s),
        (StmtTree::If {
            test: e,
            consequent: Box::new(a),
            alternate: Some(Box::new(b)),
        }).names() == a.names() + b.names(),
        (StmtTree::If { test: e, consequent: Box::new(a), alternate: None }).names() == a.names(),
        (StmtTree::Loop { head, body: Box::new(a) }).names() == a.names(),
        (StmtTree::Try {
            block: s,
            handler: Some(HandlerTree { start, body: t }),
            finalizer: Some(f),
        }).names() == act::stmt_names(s) + act::stmt_names(t) + act::stmt_names(f),
        (StmtTree::Try {
            block: s,
            handler: Some(HandlerTree { start, body: t }),
            finalizer: None,
        }).names() == act::stmt_names(s) + act::stmt_names(t),
        (StmtTree::Try { block: s, handler: None, finalizer: Some(f) }).names() == act::stmt_names(
            s,
        ) + act::stmt_names(f),
        (StmtTree::Try { block: s, handler: None, finalizer: None }).names() == act::stmt_names(
            s,
        ),
        (StmtTree::Switch { discriminant: e, cases: seq![] }).names().len() == 0,
        (StmtTree::Switch { discriminant: e, cases: cases.push(s) }).names() == (
        StmtTree::Switch { discriminant: e, cases }).names() + act::stmt_names(s),
        a is Expression || a is Return || a is Throw || a is Other ==> a.names().len() == 0,
{
    assert(s.push(a).drop_last() =~= s);
    assert(act::stmt_names(s.push(a)) == act::stmt_names(s) + a.names());
    assert(d.push(one).drop_last() =~= d);
    assert(act::declared_names(d.push(one)) == act::declared_names(d) + one.id.names());
    assert(StmtTree::Declaration(d.push(one)).names() == act::declared_names(d.push(one)));
    assert(StmtTree::Declaration(d).names() == act::declared_names(d));
    assert(StmtTree::Declaration(seq![]).names() == act::declared_names(seq![]));
    assert(StmtTree::Block(s).names() == act::stmt_names(s));
    let none = Seq::<Seq<char>>::empty();
    assert(a.names() + none =~= a.names());
    let caught = Some(HandlerTree { start, body: t });
    assert((StmtTree::Try { block: s, handler: caught, finalizer: Some(f) }).names()
        == act::stmt_names(s) + act::stmt_names(t) + act::stmt_names(f));
    assert((StmtTree::Try { block: s, handler: caught, finalizer: None }).names()
        =~= act::stmt_names(s) + act::stmt_names(t));
    assert((StmtTree::Try { block: s, handler: None, finalizer: Some(f) }).names()
        =~= act::stmt_names(s) + act::stmt_names(f));
    assert((StmtTree::Try { block: s, handler: None, finalizer: None }).names()
        =~= act::stmt_names(s));
    assert(cases.push(s).drop_last() =~= cases);
    assert(act::case_names(cases.push(s)) == act::case_names(cases) + act::stmt_names(s));
    assert((StmtTree::Switch { discriminant: e, cases: cases.push(s) }).names()
        == act::case_names(cases.push(s)));
    assert((StmtTree::Switch { discriminant: e, cases }).names() == act::case_names(cases));
    assert((StmtTree::Switch { discriminant: e, cases: seq![] }).names() == act::case_names(
        seq![],
    ));
}

/// A throw is seen wherever it stands in a statement: in a block, a branch, a
/// loop, a case, and in each part of a try statement.
pub proof fn law_statements_throw(
    e: ExprTree,
    head: Option<ExprTree>,
    a: StmtTree,
    b: StmtTree,
    s: Seq<StmtTree>,
    t: Seq<StmtTree>,
    f: Seq<StmtTree>,
    cases: Seq<Seq<StmtTree>>,
    start: u32,
)
    ensures
        ({
            let s_throws = exists|i: int| 0 <= i < s.len() && (#[trigger] s[i]).throws();
            let t_throws = exists|i: int| 0 <= i < t.len() && (#[trigger] t[i]).throws();
            let f_throws = exists|i: int| 0 <= i < f.len() && (#[trigger] f[i]).throws();
            let caught = Some(HandlerTree { start, body: t });
            &&& StmtTree::Throw(e).throws()
            &&& StmtTree::Block(s).throws() == s_throws
            &&& (StmtTree::If {
                test: e,
                consequent: Box::new(a),
                alternate: Some(Box::new(b)),
            }).throws() == (a.throws() || b.throws())
            &&& (StmtTree::If { test: e, consequent: Box::new(a), alternate: None }).throws()
                == a.throws()
            &&& (StmtTree::Loop { head, body: Box::new(a) }).throws() == a.throws()
            &&& (StmtTree::Try { block: s, handler: caught, finalizer: Some(f) }).throws() == (
            s_throws || t_throws || f_throws)
            &&& (StmtTree::Try { block: s, handler: caught, finalizer: None }).throws() == (s_throws
                || t_throws)
            &&& (StmtTree::Try { block: s, handler: None, finalizer: Some(f) }).throws() == (s_throws
                || f_throws)
            &&& (StmtTree::Try { block: s, handler: None, finalizer: None }).throws() == s_throws
            &&& (StmtTree::Switch { discriminant: e, cases }).throws() == exists|i: int, k: int|
                #![trigger cases[i][k]]
                0 <= i < cases.len() && 0 <= k < cases[i].len() && cases[i][k].throws()
            &&& a is Expression || a is Declaration || a is Return || a is Other ==> !a.throws()
        }),
{
    let caught = Some(HandlerTree { start, body: t });
    assert(StmtTree::Block(s).throws() == act::any_stmt_throws(s));
    assert((StmtTree::Try { block: s, handler: caught, finalizer: Some(f) }).throws() == (
    act::any_stmt_throws(s) || act::any_stmt_throws(t) || act::any_stmt_throws(f)));
    assert((StmtTree::Try { block: s, handler: caught, finalizer: None }).throws() == (
    act::any_stmt_throws(s) || act::any_stmt_throws(t)));
    assert((StmtTree::Try { block: s, handler: None, finalizer: Some(f) }).throws() == (
    act::any_stmt_throws(s) || act::any_stmt_throws(f)));
    assert((StmtTree::Try { block: s, handler: None, finalizer: None }).throws()
        == act::any_stmt_throws(s));
    lemma_cases_throw(cases);
    assert((StmtTree::Switch { discriminant: e, cases }).throws() == act::any_case_throws(cases));
}

proof fn lemma_cases_throw(cases: Seq<Seq<StmtTree>>)
    ensures
        act::any_case_throws(cases) == exists|i: int, k: int|
            #![trigger cases[i][k]]
            0 <= i < cases.len() && 0 <= k < cases[i].len() && cases[i][k].throws(),
{
    if act::any_case_throws(cases) {
        let i = choose|i: int| 0 <= i < cases.len() && act::any_stmt_throws(#[trigger] cases[i]);
        let k = choose|k: int| 0 <= k < cases[i].len() && (#[trigger] cases[i][k]).throws();
        assert(cases[i][k].throws());
    }
    if exists|i: int, k: int|
        #![trigger cases[i][k]]
        0 <= i < cases.len() && 0 <= k < cases[i].len() && cases[i][k].throws() {
        let (i, k) = choose|i: int, k: int|
            #![trigger cases[i][k]]
            0 <= i < cases.len() && 0 <= k < cases[i].len() && cases[i][k].throws();
        assert(act::any_stmt_throws(cases[i]));
    }
}

/// The placeholders.
pub open spec fn is_placeholder(value: Seq<char>) -> bool {
    value == "foo"@ || value == "bar"@ || value == "baz"@ || value == "qux"@ || value == "hoge"@
        || value == "fuga"@
}

/// A string literal is found exactly if it is one of the placeholders, with
/// its line. Members, indices, `await` and parentheses do not hide what they
/// are put around; operators and functions hide what is in them.
pub proof fn law_placeholders_are_found(
    value: Seq<char>,
    start: u32,
    e: ExprTree,
    index: ExprTree,
    property: Seq<char>,
    source: Seq<char>,
)
    ensures
        (ExprTree::Text { value, start }).dummies(source) == (if is_placeholder(value) {
            seq![DummyModel { value, line: source::line_at(source, start) }]
        } else {
            seq![]
        }),
        (ExprTree::Member { object: Box::new(e), property }).dummies(source) == e.dummies(source),
        ExprTree::Element(Box::new(e), Box::new(index)).dummies(source) == e.dummies(source),
        ExprTree::Await(Box::new(e)).dummies(source) == e.dummies(source),
        ExprTree::Paren(Box::new(e)).dummies(source) == e.dummies(source),
        e is Identifier || e is Constant || e is Invocation || e is TypeWrapped || e is Unary
            || e is Assignment || e is Binary || e is Logical || e is Conditional || e is Sequence
            || e is Template || e is ChainCall || e is ChainMember || e is ChainElement
            || e is Function || e is Other ==> e.dummies(source).len() == 0,
{
    let list = DUMMY_STRINGS@;
    assert(list[0]@ == "foo"@ && list[1]@ == "bar"@ && list[2]@ == "baz"@ && list[3]@ == "qux"@
        && list[4]@ == "hoge"@ && list[5]@ == "fuga"@);
    if text::is_listed(list, value) {
        let i = choose|i: int| 0 <= i < list.len() && (#[trigger] list[i])@ == value;
        assert(i == 0 || i == 1 || i == 2 || i == 3 || i == 4 || i == 5);
    }
}

/// Every argument of a call is searched, behind what it is called on. Only the
/// string, in parentheses or not, that is handed to `expect` itself is left
/// out.
pub proof fn law_arguments_are_searched_for_placeholders(
    call: CallTree,
    item: ItemTree,
    source: Seq<char>,
)
    ensures
        ({
            let none = CallTree { arguments: seq![], ..call };
            let more = CallTree { arguments: call.arguments.push(item), ..call };
            let of_expect = call.callee.callee_name() matches Some((name, _)) && name == "expect"@;
            let is_string = item.value is Text || (item.value matches ExprTree::Paren(e)
                && *e is Text);
            &&& ExprTree::Call(none).dummies(source) == call.callee.dummies(source)
            &&& ExprTree::Call(more).dummies(source) == ExprTree::Call(call).dummies(source) + (
            if of_expect && !item.spread && is_string {
                seq![]
            } else {
                item.value.dummies(source)
            })
        }),
{
    let none = CallTree { arguments: seq![], ..call };
    let more = CallTree { arguments: call.arguments.push(item), ..call };
    let expect = call.callee.names_expect();
    assert(call.arguments.push(item).drop_last() =~= call.arguments);
    assert(ExprTree::Call(none).dummies(source) == none.dummies(source));
    assert(ExprTree::Call(more).dummies(source) == more.dummies(source));
    assert(ExprTree::Call(call).dummies(source) == call.dummies(source));
    assert(dummy::argument_dummies(seq![], expect, source) =~= seq![]);
    assert(none.dummies(source) =~= call.callee.dummies(source));
    let own = if expect && !item.spread && item.value.is_direct_text() {
        seq![]
    } else {
        item.value.dummies(source)
    };
    let before = dummy::argument_dummies(call.arguments, expect, source);
    assert(dummy::argument_dummies(more.arguments, expect, source) == before + own);
    assert(call.callee.dummies(source) + (before + own) =~= call.callee.dummies(source) + before
        + own);
    assert(more.dummies(source) == call.callee.dummies(source) + (before + own));
    assert(call.dummies(source) == call.callee.dummies(source) + before);
}

/// Every value of an object is searched, and every element of an array that is
/// a spread, a string, a call, an object or an array.
pub proof fn law_data_is_searched_for_placeholders(
    s: Seq<ExprTree>,
    e: ExprTree,
    items: Seq<ItemTree>,
    item: ItemTree,
    source: Seq<char>,
)
    ensures
        ExprTree::Object(seq![]).dummies(source).len() == 0,
        ExprTree::Object(s.push(e)).dummies(source) == ExprTree::Object(s).dummies(source)
            + e.dummies(source),
        ExprTree::Array(seq![]).dummies(source).len() == 0,
        ExprTree::Array(items.push(item)).dummies(source) == ExprTree::Array(items).dummies(source)
            + (if item.spread || item.value is Text || item.value is Call || item.value is Object
            || item.value is Array {
            item.value.dummies(source)
        } else {
            seq![]
        }),
{
    assert(s.push(e).drop_last() =~= s);
    assert(items.push(item).drop_last() =~= items);
    assert(ExprTree::Object(s.push(e)).dummies(source) == dummy::value_dummies(s.push(e), source));
    assert(ExprTree::Object(s).dummies(source) == dummy::value_dummies(s, source));
    assert(ExprTree::Object(seq![]).dummies(source) == dummy::value_dummies(seq![], source));
    assert(ExprTree::Array(items.push(item)).dummies(source) == dummy::element_dummies(
        items.push(item),
        source,
    ));
    assert(ExprTree::Array(items).dummies(source) == dummy::element_dummies(items, source));
    assert(ExprTree::Array(seq![]).dummies(source) == dummy::element_dummies(seq![], source));
    assert(dummy::value_dummies(s.push(e), source) == dummy::value_dummies(s, source) + e.dummies(
        source,
    ));
    assert(dummy::element_dummies(items.push(item), source) == dummy::element_dummies(
        items,
        source,
    ) + (if item.spread || item.value.is_searched_element() {
        item.value.dummies(source)
    } else {
        seq![]
    }));
}

} // verus!
