//! Laws of the search through a test body: nothing that runs is passed over,
//! and every assertion is found in the context that shelters it.

use crate::act;
use crate::blocks;
use crate::collect;
use crate::collect::Found;
use crate::laws::walk;
use crate::parse::{AssertionContext, AssertionModel, TestModifier};
use crate::rules::Check;
use crate::source;
use crate::syntax::{CallTree, DeclaratorTree, ExprTree, HandlerTree, ItemTree, StmtTree};
use vstd::prelude::*;

verus! {

/// What is found in two places, one after the other, is all that is found in
/// both.
pub proof fn law_nothing_found_is_lost(a: Found, b: Found)
    ensures
        a.then_find(b).assertions == a.assertions + b.assertions,
        a.then_find(b).mocks == a.mocks + b.mocks,
        a.then_find(b).catch_swallows == a.catch_swallows + b.catch_swallows,
        a.then_find(b).catch_masks == a.catch_masks + b.catch_masks,
        a.then_find(b).dummies == a.dummies + b.dummies,
        a.then_find(Found::nothing()) == a,
        Found::nothing().then_find(a) == a,
        Found::nothing().assertions.len() == 0,
        Found::nothing().mocks.len() == 0,
        Found::nothing().catch_swallows.len() == 0,
        Found::nothing().catch_masks.len() == 0,
        Found::nothing().dummies.len() == 0,
{
    assert(a.then_find(Found::nothing()) =~= a);
    assert(Found::nothing().then_find(a) =~= a);
}

/// A call that asserts is one assertion, a call that sets up a mock is one
/// mock, and nothing more is sought in either. In any other call, all of its
/// callbacks and what it is called on are searched.
pub proof fn law_calls_are_searched(call: CallTree, source: Seq<char>, context: AssertionContext)
    ensures
        call.assertion(source, context) matches Some(a) ==> ExprTree::Call(call).found(
            source,
            context,
        ) == (Found {
            assertions: seq![a],
            mocks: seq![],
            catch_swallows: seq![],
            catch_masks: seq![],
            dummies: seq![],
        }),
        call.assertion(source, context) is None ==> (call.mock(source) matches Some(m)
            ==> ExprTree::Call(call).found(source, context) == (Found {
            assertions: seq![],
            mocks: seq![m],
            catch_swallows: seq![],
            catch_masks: seq![],
            dummies: seq![],
        })),
        call.assertion(source, context) is None && call.mock(source) is None ==> ExprTree::Call(
            call,
        ).found(source, context) == collect::callbacks_found(
            call.arguments,
            source,
            context,
        ).then_find(call.callee.found(source, context)),
{
    assert(ExprTree::Call(call).found(source, context) == call.found(source, context));
}

/// Every function among the arguments of a call is searched, in the context
/// of the call: one argument more adds what stands in it, if it is a function,
/// and nothing otherwise.
pub proof fn law_every_callback_is_searched(
    args: Seq<ItemTree>,
    item: ItemTree,
    source: Seq<char>,
    context: AssertionContext,
)
    ensures
        collect::callbacks_found(seq![], source, context) == Found::nothing(),
        !item.spread ==> (item.value matches ExprTree::Function(body) ==> collect::callbacks_found(
            args.push(item),
            source,
            context,
        ) == collect::callbacks_found(args, source, context).then_find(
            collect::stmts_found(body, source, context),
        )),
        item.spread || !(item.value is Function) ==> collect::callbacks_found(
            args.push(item),
            source,
            context,
        ) == collect::callbacks_found(args, source, context),
{
    assert(args.push(item).drop_last() =~= args);
    assert(args.push(item).last() == item);
}

/// Members, `await`, parentheses and type wrappers do not hide what they are
/// put around. The right side of `&&`, `||` and `??` and the branches of a
/// conditional are found under a condition, whatever is around them; the left
/// side and the test are not.
pub proof fn law_expressions_are_searched(
    a: ExprTree,
    b: ExprTree,
    c: ExprTree,
    property: Seq<char>,
    source: Seq<char>,
    context: AssertionContext,
)
    ensures
        (ExprTree::Member { object: Box::new(a), property }).found(source, context) == a.found(
            source,
            context,
        ),
        ExprTree::Await(Box::new(a)).found(source, context) == a.found(source, context),
        ExprTree::Paren(Box::new(a)).found(source, context) == a.found(source, context),
        ExprTree::TypeWrapped(Box::new(a)).found(source, context) == a.found(source, context),
        ExprTree::Logical(Box::new(a), Box::new(b)).found(source, context) == a.found(
            source,
            context,
        ).then_find(b.found(source, AssertionContext::IfBranch)),
        ExprTree::Conditional(Box::new(a), Box::new(b), Box::new(c)).found(source, context)
            == a.found(source, context).then_find(
            b.found(source, AssertionContext::IfBranch),
        ).then_find(c.found(source, AssertionContext::IfBranch)),
        a is Identifier || a is Text || a is Constant || a is Invocation || a is Unary
            || a is Assignment || a is Binary || a is Template || a is Array || a is Object
            || a is Element || a is ChainCall || a is ChainMember || a is ChainElement
            || a is Function || a is Other ==> a.found(source, context) == Found::nothing(),
{
    let (x, y, z) = (
        a.found(source, context),
        b.found(source, AssertionContext::IfBranch),
        c.found(source, AssertionContext::IfBranch),
    );
    assert(x.then_find(y.then_find(z)) =~= x.then_find(y).then_find(z));
}

/// All expressions of a comma expression are searched, in the context of the
/// whole.
pub proof fn law_sequences_are_searched(
    s: Seq<ExprTree>,
    e: ExprTree,
    source: Seq<char>,
    context: AssertionContext,
)
    ensures
        ExprTree::Sequence(seq![]).found(source, context) == Found::nothing(),
        ExprTree::Sequence(s.push(e)).found(source, context) == ExprTree::Sequence(s).found(
            source,
            context,
        ).then_find(e.found(source, context)),
{
    assert(s.push(e).drop_last() =~= s);
    assert(collect::exprs_found(s.push(e), source, context) == collect::exprs_found(
        s,
        source,
        context,
    ).then_find(e.found(source, context)));
    assert(collect::exprs_found(seq![], source, context) == Found::nothing());
}

/// What an expression statement, a `return` or the initial value of a
/// declaration finds: what its expression finds, and the placeholders of that
/// expression. Every declarator is searched.
pub proof fn law_values_are_searched(
    e: ExprTree,
    s: Seq<DeclaratorTree>,
    d: DeclaratorTree,
    source: Seq<char>,
    context: AssertionContext,
)
    ensures
        ({
            let all = e.found(source, context);
            let found = StmtTree::Expression(e).found(source, context);
            &&& found.assertions == all.assertions
            &&& found.mocks == all.mocks
            &&& found.catch_swallows == all.catch_swallows
            &&& found.catch_masks == all.catch_masks
            &&& found.dummies == all.dummies + e.dummies(source)
            &&& StmtTree::Return(Some(e)).found(source, context) == found
            &&& d.init == Some(e) ==> StmtTree::Declaration(s.push(d)).found(source, context)
                == StmtTree::Declaration(s).found(source, context).then_find(found)
        }),
        d.init is None ==> StmtTree::Declaration(s.push(d)).found(source, context)
            == StmtTree::Declaration(s).found(source, context),
        StmtTree::Declaration(seq![]).found(source, context) == Found::nothing(),
{
    let all = e.found(source, context);
    let value = collect::value_found(e, source, context);
    assert(value == all.then_find(Found::dummies(e.dummies(source))));
    assert(value.assertions =~= all.assertions);
    assert(value.mocks =~= all.mocks);
    assert(value.catch_swallows =~= all.catch_swallows);
    assert(value.catch_masks =~= all.catch_masks);
    assert(StmtTree::Expression(e).found(source, context) == value);
    assert(StmtTree::Return(Some(e)).found(source, context) == value);
    assert(s.push(d).drop_last() =~= s);
    let before = collect::declarators_found(s, source, context);
    let after = collect::declarators_found(s.push(d), source, context);
    if d.init == Some(e) {
        assert(after == before.then_find(value));
    }
    if d.init is None {
        assert(after == before.then_find(Found::nothing()));
        law_nothing_found_is_lost(before, before);
    }
    assert(collect::declarators_found(seq![], source, context) == Found::nothing());
}

/// What an if statement finds does not depend on what is around it: all that
/// its consequent and its alternate find, each under a condition.
pub proof fn law_branches_are_conditional(
    test: ExprTree,
    consequent: StmtTree,
    alternate: StmtTree,
    source: Seq<char>,
    context: AssertionContext,
    other: AssertionContext,
)
    ensures
        ({
            let both = StmtTree::If {
                test,
                consequent: Box::new(consequent),
                alternate: Some(Box::new(alternate)),
            };
            let one = StmtTree::If { test, consequent: Box::new(consequent), alternate: None };
            let flipped = StmtTree::If {
                test,
                consequent: Box::new(alternate),
                alternate: Some(Box::new(consequent)),
            };
            let yes = consequent.found(source, AssertionContext::IfBranch);
            let no = alternate.found(source, AssertionContext::IfBranch);
            &&& both.found(source, context) == both.found(source, other)
            &&& one.found(source, context) == one.found(source, other)
            &&& both.found(source, context) == yes.then_find(no)
            &&& flipped.found(source, context) == no.then_find(yes)
            &&& one.found(source, context) == yes
        }),
{
    let yes = consequent.found(source, AssertionContext::IfBranch);
    law_nothing_found_is_lost(yes, yes);
}

/// Blocks and loops are searched in the context around them, a loop in its
/// body; every case of a switch is searched. Other statements hold nothing.
pub proof fn law_statements_are_searched(
    s: Seq<StmtTree>,
    body: StmtTree,
    head: Option<ExprTree>,
    discriminant: ExprTree,
    cases: Seq<Seq<StmtTree>>,
    source: Seq<char>,
    context: AssertionContext,
)
    ensures
        StmtTree::Block(s).found(source, context) == collect::stmts_found(s, source, context),
        collect::stmts_found(seq![body], source, context) == body.found(source, context),
        collect::stmts_found(seq![], source, context) == Found::nothing(),
        (StmtTree::Loop { head, body: Box::new(body) }).found(source, context) == body.found(
            source,
            context,
        ),
        (StmtTree::Switch { discriminant, cases: seq![] }).found(source, context)
            == Found::nothing(),
        (StmtTree::Switch { discriminant, cases: cases.push(s) }).found(source, context) == (
        StmtTree::Switch { discriminant, cases }).found(source, context).then_find(
            collect::stmts_found(s, source, context),
        ),
        body is Throw || body is Other || body == StmtTree::Return(None) ==> body.found(
            source,
            context,
        ) == Found::nothing(),
{
    let one = seq![body];
    assert(one.drop_last() =~= seq![]);
    assert(collect::stmts_found(one.drop_last(), source, context) == Found::nothing());
    assert(collect::stmts_found(one, source, context) == Found::nothing().then_find(
        body.found(source, context),
    ));
    law_nothing_found_is_lost(body.found(source, context), Found::nothing());
    assert(cases.push(s).drop_last() =~= cases);
    assert(collect::cases_found(cases.push(s), source, context) == collect::cases_found(
        cases,
        source,
        context,
    ).then_find(collect::stmts_found(s, source, context)));
    assert(collect::cases_found(seq![], source, context) == Found::nothing());
}

/// A try statement is searched in its block, its handler and its finalizer.
/// What stands in the block is found as such, what stands in the handler as in
/// a catch handler, and the finalizer in the context around the statement.
pub proof fn law_try_statements_are_searched(
    block: Seq<StmtTree>,
    handler: Option<HandlerTree>,
    finalizer: Option<Seq<StmtTree>>,
    source: Seq<char>,
    context: AssertionContext,
)
    ensures
        ({
            let all = (StmtTree::Try { block, handler, finalizer }).found(source, context);
            let tried = collect::stmts_found(block, source, AssertionContext::TryBlock);
            let caught = match handler {
                Some(h) => h.found(collect::asserts_directly(block, source), source),
                None => Found::nothing(),
            };
            let last = match finalizer {
                Some(f) => collect::stmts_found(f, source, context),
                None => Found::nothing(),
            };
            all == tried.then_find(caught).then_find(last)
        }),
        collect::asserts_directly(block, source) <==> exists|i: int|
            0 <= i < block.len() && (#[trigger] block[i] matches StmtTree::Expression(e) && e.found(
                source,
                AssertionContext::TryBlock,
            ).assertions.len() > 0),
{
    if collect::asserts_directly(block, source) {
        let i = choose|i: int|
            0 <= i < block.len() && collect::stmt_asserts_directly(#[trigger] block[i], source);
        assert(block[i] matches StmtTree::Expression(e) && e.found(
            source,
            AssertionContext::TryBlock,
        ).assertions.len() > 0);
    }
    if exists|i: int|
        0 <= i < block.len() && (#[trigger] block[i] matches StmtTree::Expression(e) && e.found(
            source,
            AssertionContext::TryBlock,
        ).assertions.len() > 0) {
        let i = choose|i: int|
            0 <= i < block.len() && (#[trigger] block[i] matches StmtTree::Expression(e) && e.found(
                source,
                AssertionContext::TryBlock,
            ).assertions.len() > 0);
        assert(collect::stmt_asserts_directly(block[i], source));
    }
}

/// A catch handler is reported once as swallowing if nothing in its body
/// asserts or throws, however much else stands in it, and never otherwise. It
/// is reported once as masking if its body asserts and does not throw while
/// the try block asserts, and never otherwise. Either is on the line of the
/// handler, behind what was found inside.
pub proof fn law_handler_swallows_unless_it_asserts_or_throws(
    handler: HandlerTree,
    try_asserts: bool,
    source: Seq<char>,
)
    ensures
        ({
            let inside = collect::stmts_found(handler.body, source, AssertionContext::CatchBlock);
            let all = handler.found(try_asserts, source);
            let line = source::line_at(source, handler.start);
            let throws = exists|i: int|
                0 <= i < handler.body.len() && (#[trigger] handler.body[i]).throws();
            &&& inside.assertions.len() == 0 && !throws ==> all.catch_swallows
                == inside.catch_swallows + seq![line] && all.catch_masks == inside.catch_masks
            &&& inside.assertions.len() > 0 && !throws && try_asserts ==> all.catch_masks
                == inside.catch_masks + seq![line] && all.catch_swallows == inside.catch_swallows
            &&& throws || (inside.assertions.len() > 0 && !try_asserts) ==> all == inside
            &&& all.assertions == inside.assertions
            &&& all.mocks == inside.mocks
            &&& all.dummies == inside.dummies
        }),
{
    let inside = collect::stmts_found(handler.body, source, AssertionContext::CatchBlock);
    let all = handler.found(try_asserts, source);
    assert(all.assertions =~= inside.assertions);
    assert(all.mocks =~= inside.mocks);
    assert(all.dummies =~= inside.dummies);
    if inside.assertions.len() > 0 || act::any_stmt_throws(handler.body) {
        assert(all.catch_swallows =~= inside.catch_swallows);
    }
    if !(try_asserts && inside.assertions.len() > 0 && !act::any_stmt_throws(handler.body)) {
        assert(all.catch_masks =~= inside.catch_masks);
    }
}

/// Statements that neither assert nor throw change nothing of whether a
/// handler swallows or masks, however many stand behind the others.
pub proof fn law_idle_statements_do_not_help_a_handler(
    start: u32,
    body: Seq<StmtTree>,
    idle: Seq<StmtTree>,
    try_asserts: bool,
    source: Seq<char>,
)
    requires
        collect::stmts_found(idle, source, AssertionContext::CatchBlock).assertions.len() == 0,
        forall|i: int| 0 <= i < idle.len() ==> !(#[trigger] idle[i]).throws(),
    ensures
        ({
            let short = HandlerTree { start, body };
            let long = HandlerTree { start, body: body + idle };
            let in_short = collect::stmts_found(short.body, source, AssertionContext::CatchBlock);
            let in_long = collect::stmts_found(long.body, source, AssertionContext::CatchBlock);
            &&& long.found(try_asserts, source).catch_swallows.len() - in_long.catch_swallows.len()
                == short.found(try_asserts, source).catch_swallows.len()
                - in_short.catch_swallows.len()
            &&& long.found(try_asserts, source).catch_masks.len() - in_long.catch_masks.len()
                == short.found(try_asserts, source).catch_masks.len() - in_short.catch_masks.len()
        }),
{
    let short = HandlerTree { start, body };
    let long = HandlerTree { start, body: body + idle };
    walk::law_statements_are_walked_in_order(body, idle, source, AssertionContext::CatchBlock);
    law_handler_swallows_unless_it_asserts_or_throws(short, try_asserts, source);
    law_handler_swallows_unless_it_asserts_or_throws(long, try_asserts, source);
    let all = body + idle;
    assert forall|i: int| 0 <= i < body.len() implies #[trigger] body[i] == all[i] by {}
    assert forall|i: int| body.len() <= i < all.len() implies #[trigger] all[i] == idle[i
        - body.len()] by {}
}

/// Whether every assertion is in the context `context` or in a narrower one.
pub open spec fn are_within(s: Seq<AssertionModel>, context: AssertionContext) -> bool {
    forall|i: int|
        0 <= i < s.len() ==> (#[trigger] s[i]).context == context || s[i].context
            != AssertionContext::TopLevel
}

proof fn lemma_within_concat(
    a: Seq<AssertionModel>,
    b: Seq<AssertionModel>,
    context: AssertionContext,
)
    requires
        are_within(a, context),
        are_within(b, context),
    ensures
        are_within(a + b, context),
{
    assert forall|i: int| 0 <= i < (a + b).len() implies (#[trigger] (a + b)[i]).context == context
        || (a + b)[i].context != AssertionContext::TopLevel by {
        if i < a.len() {
            assert((a + b)[i] == a[i]);
        } else {
            assert((a + b)[i] == b[i - a.len()]);
        }
    }
}

/// Contexts only narrow: what an expression finds in a context is in that
/// context, or in a branch, a try block or a catch handler inside it.
pub proof fn law_expressions_only_narrow_the_context(
    e: ExprTree,
    source: Seq<char>,
    context: AssertionContext,
)
    ensures
        are_within(e.found(source, context).assertions, context),
    decreases e, 0nat,
{
    match e {
        ExprTree::Call(call) => {
            assert(e.found(source, context) == call.found(source, context));
            match call.assertion(source, context) {
                Some(a) => {
                    assert(a.context == context);
                },
                None => match call.mock(source) {
                    Some(m) => {},
                    None => {
                        lemma_callbacks_within(call.arguments, source, context);
                        law_expressions_only_narrow_the_context(*call.callee, source, context);
                        lemma_within_concat(
                            collect::callbacks_found(call.arguments, source, context).assertions,
                            call.callee.found(source, context).assertions,
                            context,
                        );
                    },
                },
            }
        },
        ExprTree::Member { object, .. } => {
            law_expressions_only_narrow_the_context(*object, source, context);
        },
        ExprTree::Await(x) => {
            law_expressions_only_narrow_the_context(*x, source, context);
        },
        ExprTree::Paren(x) => {
            law_expressions_only_narrow_the_context(*x, source, context);
        },
        ExprTree::TypeWrapped(x) => {
            law_expressions_only_narrow_the_context(*x, source, context);
        },
        ExprTree::Logical(a, b) => {
            law_expressions_only_narrow_the_context(*a, source, context);
            law_expressions_only_narrow_the_context(*b, source, AssertionContext::IfBranch);
            lemma_within_concat(
                a.found(source, context).assertions,
                b.found(source, AssertionContext::IfBranch).assertions,
                context,
            );
        },
        ExprTree::Conditional(a, b, c) => {
            law_expressions_only_narrow_the_context(*a, source, context);
            law_expressions_only_narrow_the_context(*b, source, AssertionContext::IfBranch);
            law_expressions_only_narrow_the_context(*c, source, AssertionContext::IfBranch);
            lemma_within_concat(
                b.found(source, AssertionContext::IfBranch).assertions,
                c.found(source, AssertionContext::IfBranch).assertions,
                context,
            );
            lemma_within_concat(
                a.found(source, context).assertions,
                b.found(source, AssertionContext::IfBranch).assertions + c.found(
                    source,
                    AssertionContext::IfBranch,
                ).assertions,
                context,
            );
        },
        ExprTree::Sequence(s) => {
            assert(e.found(source, context) == collect::exprs_found(s, source, context));
            lemma_exprs_within(s, source, context);
        },
        _ => {},
    }
}

proof fn lemma_exprs_within(s: Seq<ExprTree>, source: Seq<char>, context: AssertionContext)
    ensures
        are_within(collect::exprs_found(s, source, context).assertions, context),
    decreases s, 0nat,
{
    if s.len() > 0 {
        lemma_exprs_within(s.drop_last(), source, context);
        law_expressions_only_narrow_the_context(s.last(), source, context);
        lemma_within_concat(
            collect::exprs_found(s.drop_last(), source, context).assertions,
            s.last().found(source, context).assertions,
            context,
        );
    }
}

proof fn lemma_callbacks_within(s: Seq<ItemTree>, source: Seq<char>, context: AssertionContext)
    ensures
        are_within(collect::callbacks_found(s, source, context).assertions, context),
    decreases s, 0nat,
{
    if s.len() > 0 {
        lemma_callbacks_within(s.drop_last(), source, context);
        let item = s.last();
        if !item.spread {
            match item.value {
                ExprTree::Function(body) => {
                    law_bodies_only_narrow_the_context(body, source, context);
                    lemma_within_concat(
                        collect::callbacks_found(s.drop_last(), source, context).assertions,
                        collect::stmts_found(body, source, context).assertions,
                        context,
                    );
                },
                _ => {},
            }
        }
    }
}

/// Contexts only narrow: what some statements find in a context is in that
/// context, or in a branch, a try block or a catch handler inside it.
pub proof fn law_bodies_only_narrow_the_context(
    s: Seq<StmtTree>,
    source: Seq<char>,
    context: AssertionContext,
)
    ensures
        are_within(collect::stmts_found(s, source, context).assertions, context),
    decreases s, 0nat,
{
    if s.len() > 0 {
        law_bodies_only_narrow_the_context(s.drop_last(), source, context);
        law_statements_only_narrow_the_context(s.last(), source, context);
        lemma_within_concat(
            collect::stmts_found(s.drop_last(), source, context).assertions,
            s.last().found(source, context).assertions,
            context,
        );
    }
}

proof fn lemma_value_within(e: ExprTree, source: Seq<char>, context: AssertionContext)
    ensures
        are_within(collect::value_found(e, source, context).assertions, context),
    decreases e, 1nat,
{
    law_expressions_only_narrow_the_context(e, source, context);
    let all = e.found(source, context);
    assert(collect::value_found(e, source, context).assertions =~= all.assertions);
}

proof fn lemma_declarators_within(
    s: Seq<DeclaratorTree>,
    source: Seq<char>,
    context: AssertionContext,
)
    ensures
        are_within(collect::declarators_found(s, source, context).assertions, context),
    decreases s, 0nat,
{
    if s.len() > 0 {
        lemma_declarators_within(s.drop_last(), source, context);
        let before = collect::declarators_found(s.drop_last(), source, context);
        match s.last().init {
            Some(x) => {
                lemma_value_within(x, source, context);
                lemma_within_concat(
                    before.assertions,
                    collect::value_found(x, source, context).assertions,
                    context,
                );
            },
            None => {
                assert(before.then_find(Found::nothing()).assertions =~= before.assertions);
            },
        }
    }
}

proof fn lemma_cases_within(s: Seq<Seq<StmtTree>>, source: Seq<char>, context: AssertionContext)
    ensures
        are_within(collect::cases_found(s, source, context).assertions, context),
    decreases s, 0nat,
{
    if s.len() > 0 {
        lemma_cases_within(s.drop_last(), source, context);
        law_bodies_only_narrow_the_context(s.last(), source, context);
        lemma_within_concat(
            collect::cases_found(s.drop_last(), source, context).assertions,
            collect::stmts_found(s.last(), source, context).assertions,
            context,
        );
    }
}

/// Contexts only narrow: what a statement finds in a context is in that
/// context, or in a branch, a try block or a catch handler inside it.
pub proof fn law_statements_only_narrow_the_context(
    s: StmtTree,
    source: Seq<char>,
    context: AssertionContext,
)
    ensures
        are_within(s.found(source, context).assertions, context),
    decreases s, 0nat,
{
    match s {
        StmtTree::Expression(e) => {
            lemma_value_within(e, source, context);
            assert(s.found(source, context) == collect::value_found(e, source, context));
        },
        StmtTree::Return(Some(e)) => {
            lemma_value_within(e, source, context);
            assert(s.found(source, context) == collect::value_found(e, source, context));
        },
        StmtTree::Declaration(d) => {
            lemma_declarators_within(d, source, context);
            assert(s.found(source, context) == collect::declarators_found(d, source, context));
        },
        StmtTree::Block(b) => {
            law_bodies_only_narrow_the_context(b, source, context);
            assert(s.found(source, context) == collect::stmts_found(b, source, context));
        },
        StmtTree::If { consequent, alternate, .. } => {
            law_statements_only_narrow_the_context(
                *consequent,
                source,
                AssertionContext::IfBranch,
            );
            let yes = consequent.found(source, AssertionContext::IfBranch);
            match alternate {
                Some(a) => {
                    law_statements_only_narrow_the_context(
                        *a,
                        source,
                        AssertionContext::IfBranch,
                    );
                    lemma_within_concat(
                        yes.assertions,
                        a.found(source, AssertionContext::IfBranch).assertions,
                        context,
                    );
                },
                None => {
                    assert(yes.then_find(Found::nothing()).assertions =~= yes.assertions);
                },
            }
        },
        StmtTree::Loop { body, .. } => {
            law_statements_only_narrow_the_context(*body, source, context);
        },
        StmtTree::Try { block, handler, finalizer } => {
            law_bodies_only_narrow_the_context(block, source, AssertionContext::TryBlock);
            let tried = collect::stmts_found(block, source, AssertionContext::TryBlock);
            let caught = match handler {
                Some(h) => h.found(collect::asserts_directly(block, source), source),
                None => Found::nothing(),
            };
            let last = match finalizer {
                Some(f) => collect::stmts_found(f, source, context),
                None => Found::nothing(),
            };
            match handler {
                Some(h) => {
                    law_bodies_only_narrow_the_context(
                        h.body,
                        source,
                        AssertionContext::CatchBlock,
                    );
                    law_handler_swallows_unless_it_asserts_or_throws(
                        h,
                        collect::asserts_directly(block, source),
                        source,
                    );
                },
                None => {},
            }
            match finalizer {
                Some(f) => {
                    law_bodies_only_narrow_the_context(f, source, context);
                },
                None => {},
            }
            lemma_within_concat(tried.assertions, caught.assertions, context);
            lemma_within_concat(
                tried.assertions + caught.assertions,
                last.assertions,
                context,
            );
            assert(s.found(source, context) == tried.then_find(caught).then_find(last));
        },
        StmtTree::Switch { cases, .. } => {
            lemma_cases_within(cases, source, context);
            assert(s.found(source, context) == collect::cases_found(cases, source, context));
        },
        _ => {},
    }
}

/// No assertion in either branch of an if statement counts as unconditional,
/// wherever the statement stands.
pub proof fn law_no_branch_is_top_level(
    test: ExprTree,
    consequent: StmtTree,
    alternate: Option<Box<StmtTree>>,
    source: Seq<char>,
    context: AssertionContext,
    i: int,
)
    ensures
        ({
            let branch = StmtTree::If { test, consequent: Box::new(consequent), alternate };
            let all = branch.found(source, context).assertions;
            0 <= i < all.len() ==> all[i].context != AssertionContext::TopLevel
        }),
{
    let branch = StmtTree::If { test, consequent: Box::new(consequent), alternate };
    law_statements_only_narrow_the_context(branch, source, AssertionContext::IfBranch);
    match alternate {
        Some(a) => {
            law_branches_are_conditional(
                test,
                consequent,
                *a,
                source,
                context,
                AssertionContext::IfBranch,
            );
        },
        None => {
            law_branches_are_conditional(
                test,
                consequent,
                consequent,
                source,
                context,
                AssertionContext::IfBranch,
            );
        },
    }
}

/// A test whose assertions all stand in the two branches of one if statement,
/// however they are split between them, is reported by
/// conditional-assertion.
pub proof fn law_split_assertions_are_conditional(
    test: ExprTree,
    consequent: StmtTree,
    alternate: StmtTree,
    start: u32,
    name: Seq<char>,
    modifier: Option<TestModifier>,
    source: Seq<char>,
)
    requires
        consequent.found(source, AssertionContext::IfBranch).assertions.len() + alternate.found(
            source,
            AssertionContext::IfBranch,
        ).assertions.len() > 0,
        forall|i: int|
            0 <= i < consequent.found(source, AssertionContext::IfBranch).assertions.len() ==> (
            #[trigger] consequent.found(source, AssertionContext::IfBranch).assertions[i]).context
                == AssertionContext::IfBranch,
        forall|i: int|
            0 <= i < alternate.found(source, AssertionContext::IfBranch).assertions.len() ==> (
            #[trigger] alternate.found(source, AssertionContext::IfBranch).assertions[i]).context
                == AssertionContext::IfBranch,
    ensures
        ({
            let branch = StmtTree::If {
                test,
                consequent: Box::new(consequent),
                alternate: Some(Box::new(alternate)),
            };
            let block = blocks::block_of(start, name, seq![branch], modifier, source);
            Check::ConditionalAssertion.notes(block).len() == 1
        }),
{
    let branch = StmtTree::If {
        test,
        consequent: Box::new(consequent),
        alternate: Some(Box::new(alternate)),
    };
    let context = AssertionContext::TopLevel;
    law_branches_are_conditional(test, consequent, alternate, source, context, context);
    law_statements_are_searched(seq![], branch, None, test, seq![], source, context);
    let yes = consequent.found(source, AssertionContext::IfBranch).assertions;
    let no = alternate.found(source, AssertionContext::IfBranch).assertions;
    let block = blocks::block_of(start, name, seq![branch], modifier, source);
    assert(block.assertions == yes + no);
    assert forall|i: int| 0 <= i < block.assertions.len() implies (
    #[trigger] block.assertions[i]).context == AssertionContext::IfBranch by {
        if i < yes.len() {
            assert(block.assertions[i] == yes[i]);
        } else {
            assert(block.assertions[i] == no[i - yes.len()]);
        }
    }
}

} // verus!
