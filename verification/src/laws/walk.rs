//! Laws of the walk over a test file.

use crate::act;
use crate::blocks;
use crate::calls;
use crate::collect;
use crate::collect::Found;
use crate::parse;
use crate::parse::{AssertionContext, Outcome};
use crate::parser;
use crate::rules;
use crate::source;
use crate::syntax::{CallTree, ExprTree, HandlerTree, ItemTree, StmtTree};
use vstd::prelude::*;
use vstd::utf8::*;

verus! {

/// Parentheses around an expression, and type wrappers, change nothing of
/// what is found in it, of what it asserts on, and of whether it acts.
pub proof fn law_wrappers_are_transparent(
    e: ExprTree,
    wrapper: ExprTree,
    source: Seq<char>,
    context: AssertionContext,
)
    requires
        wrapper == ExprTree::Paren(Box::new(e)) || wrapper == ExprTree::TypeWrapped(Box::new(e)),
    ensures
        wrapper.found(source, context) == e.found(source, context),
        wrapper.expect_call() == e.expect_call(),
        wrapper.root_ident() == e.root_ident(),
        wrapper.has_act() == e.has_act(),
{
}

/// What two pieces of a body hold, one after the other, is what the first
/// holds and then what the second holds.
pub proof fn law_statements_are_walked_in_order(
    a: Seq<StmtTree>,
    b: Seq<StmtTree>,
    source: Seq<char>,
    context: AssertionContext,
)
    ensures
        collect::stmts_found(a + b, source, context) == collect::stmts_found(
            a,
            source,
            context,
        ).then_find(collect::stmts_found(b, source, context)),
    decreases b.len(),
{
    let first = collect::stmts_found(a, source, context);
    if b.len() == 0 {
        assert(a + b =~= a);
        assert(first.then_find(Found::nothing()) =~= first);
    } else {
        assert((a + b).drop_last() =~= a + b.drop_last());
        law_statements_are_walked_in_order(a, b.drop_last(), source, context);
        assert(collect::stmts_found(a + b, source, context) =~= first.then_find(
            collect::stmts_found(b, source, context),
        ));
    }
}

/// The tests of two pieces of a file or suite, one after the other, are those
/// of the first and then those of the second.
pub proof fn law_tests_are_found_in_order(a: Seq<StmtTree>, b: Seq<StmtTree>, source: Seq<char>)
    ensures
        blocks::suite_blocks(a + b, source) == blocks::suite_blocks(a, source)
            + blocks::suite_blocks(b, source),
    decreases b.len(),
{
    let first = blocks::suite_blocks(a, source);
    if b.len() == 0 {
        assert(a + b =~= a);
        assert(first + blocks::suite_blocks(b, source) =~= first);
    } else {
        assert((a + b).drop_last() =~= a + b.drop_last());
        law_tests_are_found_in_order(a, b.drop_last(), source);
        assert(blocks::suite_blocks(a + b, source) =~= first + blocks::suite_blocks(b, source));
    }
}

/// Only calls of `test`, `it` and `describe`, with or without a modifier or
/// `each`, give tests.
pub proof fn law_only_test_calls_give_tests(e: ExprTree, source: Seq<char>)
    requires
        e.blocks(source).len() > 0,
    ensures
        e is Call,
        e->Call_0.callee.callee_name() matches Some((name, _)) && calls::is_suite_name(name),
{
}

/// A catch handler that swallows a failure does not mask one, and the other
/// way round; one that rethrows does neither.
pub proof fn law_swallowing_and_masking_exclude_each_other(
    handler: HandlerTree,
    try_asserts: bool,
    source: Seq<char>,
)
    ensures
        ({
            let inside = collect::stmts_found(handler.body, source, AssertionContext::CatchBlock);
            let all = handler.found(try_asserts, source);
            &&& all.catch_swallows.len() + all.catch_masks.len() <= inside.catch_swallows.len()
                + inside.catch_masks.len() + 1
            &&& act::any_stmt_throws(handler.body) ==> all == inside
            &&& all.catch_masks.len() > inside.catch_masks.len() ==> try_asserts
                && inside.assertions.len() > 0
            &&& all.catch_swallows.len() > inside.catch_swallows.len() ==> inside.assertions.len()
                == 0
        }),
{
    let inside = collect::stmts_found(handler.body, source, AssertionContext::CatchBlock);
    let all = handler.found(try_asserts, source);
    if act::any_stmt_throws(handler.body) {
        assert(all =~= inside);
    }
}

/// A try statement whose catch handler masks a failure has an assertion of
/// its own outside every catch handler, so catch-only-assertion does not
/// report the test. This is so where some assertion that the try block makes
/// directly is not itself inside a catch handler, of a callback say.
pub proof fn law_masked_assertion_is_not_catch_only(
    block: Seq<StmtTree>,
    handler: Option<HandlerTree>,
    finalizer: Option<Seq<StmtTree>>,
    source: Seq<char>,
    context: AssertionContext,
    i: int,
    k: int,
)
    requires
        0 <= i < block.len(),
        block[i] is Expression,
        0 <= k < block[i]->Expression_0.found(source, AssertionContext::TryBlock).assertions.len(),
        block[i]->Expression_0.found(source, AssertionContext::TryBlock).assertions[k].context
            != AssertionContext::CatchBlock,
    ensures
        collect::asserts_directly(block, source),
        !rules::all_in_context(
            (StmtTree::Try { block, handler, finalizer }).found(source, context).assertions,
            AssertionContext::CatchBlock,
        ),
{
    assert(collect::stmt_asserts_directly(block[i], source));
    let direct = block[i]->Expression_0.found(source, AssertionContext::TryBlock).assertions;
    let tried = collect::stmts_found(block, source, AssertionContext::TryBlock).assertions;
    let all = (StmtTree::Try { block, handler, finalizer }).found(source, context).assertions;
    assert(block =~= block.take(i) + (seq![block[i]] + block.skip(i + 1)));
    law_statements_are_walked_in_order(
        block.take(i),
        seq![block[i]] + block.skip(i + 1),
        source,
        AssertionContext::TryBlock,
    );
    law_statements_are_walked_in_order(
        seq![block[i]],
        block.skip(i + 1),
        source,
        AssertionContext::TryBlock,
    );
    let before = collect::stmts_found(block.take(i), source, AssertionContext::TryBlock);
    let one = seq![block[i]];
    assert(one.drop_last() =~= seq![]);
    assert(collect::stmts_found(one.drop_last(), source, AssertionContext::TryBlock)
        == Found::nothing());
    assert(collect::stmts_found(one, source, AssertionContext::TryBlock) == Found::nothing().then_find(
        block[i].found(source, AssertionContext::TryBlock),
    ));
    assert(collect::value_found(
        block[i]->Expression_0,
        source,
        AssertionContext::TryBlock,
    ).assertions =~= direct);
    assert(tried[before.assertions.len() + k] == direct[k]);
    assert(all[before.assertions.len() + k] == direct[k]);
}

/// Line numbers do not decrease along a file, and start at 1.
pub proof fn law_lines_ascend(text: Seq<char>, a: u32, b: u32)
    requires
        a <= b,
    ensures
        1 <= source::line_at(text, a) <= source::line_at(text, b),
{
    lemma_newlines_ascend(encode_utf8(text), a as nat, b as nat);
}

proof fn lemma_newlines_ascend(bytes: Seq<u8>, a: nat, b: nat)
    requires
        a <= b,
    ensures
        source::newlines(bytes, a) <= source::newlines(bytes, b),
    decreases b,
{
    if a < b {
        lemma_newlines_ascend(bytes, a, (b - 1) as nat);
    }
}

/// A text that is nested deeper than the limit is an error, whatever the
/// parser would make of it, and its message names the limit.
pub proof fn law_deep_nesting_is_rejected(text: Seq<char>, path: Seq<char>)
    requires
        source::bracket_depth(encode_utf8(text)) > parser::BRACKET_DEPTH_LIMIT,
    ensures
        parse::file_outcome(text, path) == Outcome::Message(parse::nesting_message()),
{
}

/// The callback of a test or suite is the first function among its arguments,
/// wherever it stands.
pub proof fn law_callback_is_the_first_function(args: Seq<ItemTree>)
    ensures
        match blocks::callback_at(args) {
            Some(i) => {
                &&& 0 <= i < args.len()
                &&& args[i].function_body() is Some
                &&& forall|j: int| 0 <= j < i ==> (#[trigger] args[j]).function_body() is None
            },
            None => forall|j: int|
                0 <= j < args.len() ==> (#[trigger] args[j]).function_body() is None,
        },
    decreases args.len(),
{
    if args.len() > 0 {
        let before = args.drop_last();
        law_callback_is_the_first_function(before);
        assert forall|j: int| 0 <= j < before.len() implies #[trigger] args[j] == before[j] by {}
    }
}

/// A function that is only defined is not walked and does not act: it runs
/// when it is called, or as a callback.
pub proof fn law_defined_functions_are_not_walked(
    body: Seq<StmtTree>,
    source: Seq<char>,
    context: AssertionContext,
)
    ensures
        ExprTree::Function(body).found(source, context) == Found::nothing(),
        ExprTree::Function(body).dummies(source).len() == 0,
        !ExprTree::Function(body).has_act(),
{
}

/// A throw inside an expression, of a callback say, does not rethrow from the
/// statement that the expression stands in.
pub proof fn law_throw_in_a_callback_does_not_rethrow(e: ExprTree)
    ensures
        !StmtTree::Expression(e).throws(),
        !StmtTree::Return(Some(e)).throws(),
{
}

/// A call acts where its callee or one of its arguments acts, even if the
/// call itself is an assertion or sets up a mock.
pub proof fn law_act_inside_a_call_counts(call: CallTree, i: int)
    requires
        call.callee.has_act() || (0 <= i < call.arguments.len() && call.arguments[i].has_act()),
    ensures
        call.has_act(),
        ExprTree::Call(call).has_act(),
{
    if !call.callee.has_act() {
        assert(act::any_item_acts(call.arguments));
    }
    assert(call.has_act());
}

/// `jest` and `vi` set up mocks alike.
pub proof fn law_vi_and_jest_are_alike(vi: CallTree, jest: CallTree, property: Seq<char>)
    requires
        *vi.callee == (ExprTree::Member {
            object: Box::new(ExprTree::Identifier("vi"@)),
            property,
        }),
        *jest.callee == (ExprTree::Member {
            object: Box::new(ExprTree::Identifier("jest"@)),
            property,
        }),
    ensures
        vi.mock_kind() == jest.mock_kind(),
{
}

} // verus!
