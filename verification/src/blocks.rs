//! Extraction of test blocks from the statements of a file.

use crate::act;
use crate::calls;
use crate::collect;
use crate::collect::{Collector, Found};
use crate::parse;
use crate::parse::{AssertionContext, BlockModel, TestBlock, TestModifier};
use crate::source;
use crate::source::Source;
use crate::syntax;
use crate::syntax::{Call, CallTree, Expr, ExprTree, Item, ItemTree, Stmt, StmtTree};
use crate::text;
use vstd::prelude::*;

verus! {

/// The first argument, if it is a string literal.
pub open spec fn title(args: Seq<ItemTree>) -> Option<Seq<char>> {
    if args.len() > 0 && !args[0].spread {
        match args[0].value {
            ExprTree::Text { value, .. } => Some(value),
            _ => None,
        }
    } else {
        None
    }
}

/// Where the callback stands among the arguments of a test or suite: it is
/// the first function, so that options may stand before it.
pub open spec fn callback_at(args: Seq<ItemTree>) -> Option<int>
    decreases args.len(),
{
    if args.len() == 0 {
        None
    } else {
        match callback_at(args.drop_last()) {
            Some(i) => Some(i),
            None => if args.last().function_body() is Some {
                Some(args.len() - 1)
            } else {
                None
            },
        }
    }
}

/// The block of a test with the given title and body.
pub open spec fn block_of(
    start: u32,
    name: Seq<char>,
    body: Seq<StmtTree>,
    modifier: Option<TestModifier>,
    source: Seq<char>,
) -> BlockModel {
    let found = collect::stmts_found(body, source, AssertionContext::TopLevel);
    BlockModel {
        name,
        line: source::line_at(source, start),
        assertions: found.assertions,
        mock_calls: found.mocks,
        modifier,
        has_empty_body: body.len() == 0,
        has_act: act::any_stmt_acts(body),
        bound_names: act::stmt_names(body),
        catch_swallows: found.catch_swallows,
        catch_masks: found.catch_masks,
        dummy_literals: found.dummies,
    }
}

/// The block of `test.todo(name)`, which has no body.
pub open spec fn todo_block(start: u32, name: Seq<char>, source: Seq<char>) -> BlockModel {
    BlockModel {
        name,
        line: source::line_at(source, start),
        assertions: seq![],
        mock_calls: seq![],
        modifier: Some(TestModifier::Todo),
        has_empty_body: true,
        has_act: false,
        bound_names: seq![],
        catch_swallows: seq![],
        catch_masks: seq![],
        dummy_literals: seq![],
    }
}

impl CallTree {
    /// The block of a call of `test` or `it`, if it is a test.
    pub open spec fn test_block(
        self,
        modifier: Option<TestModifier>,
        source: Seq<char>,
    ) -> Option<BlockModel> {
        match title(self.arguments) {
            Some(name) => match callback_at(self.arguments) {
                Some(i) => Some(
                    block_of(
                        self.start,
                        name,
                        self.arguments[i].function_body()->0,
                        modifier,
                        source,
                    ),
                ),
                None => if modifier == Some(TestModifier::Todo) {
                    Some(todo_block(self.start, name, source))
                } else {
                    None
                },
            },
            None => None,
        }
    }
}

impl ExprTree {
    /// The test blocks of an expression statement of a file or suite.
    pub open spec fn blocks(self, source: Seq<char>) -> Seq<BlockModel>
        decreases self,
    {
        match self {
            ExprTree::Call(call) => match call.callee.callee_name() {
                Some((name, modifier)) => if name == "test"@ || name == "it"@ {
                    match call.test_block(modifier, source) {
                        Some(block) => seq![block],
                        None => seq![],
                    }
                } else if name == "describe"@ {
                    match callback_at(call.arguments) {
                        Some(i) => if 0 <= i < call.arguments.len() {
                            match call.arguments[i].value {
                                ExprTree::Function(body) => suite_blocks(body, source),
                                _ => seq![],
                            }
                        } else {
                            seq![]
                        },
                        None => seq![],
                    }
                } else {
                    seq![]
                },
                None => seq![],
            },
            _ => seq![],
        }
    }
}

/// The test blocks of a file or suite, in source order: only its own
/// expression statements are searched, and the suites among them.
pub open spec fn suite_blocks(s: Seq<StmtTree>, source: Seq<char>) -> Seq<BlockModel>
    decreases s,
{
    if s.len() == 0 {
        seq![]
    } else {
        suite_blocks(s.drop_last(), source) + (match s.last() {
            StmtTree::Expression(e) => e.blocks(source),
            _ => seq![],
        })
    }
}

proof fn lemma_callback_at(args: Seq<ItemTree>)
    ensures
        callback_at(args) matches Some(i) ==> 0 <= i < args.len() && args[i].function_body() is Some,
    decreases args.len(),
{
    if args.len() > 0 {
        lemma_callback_at(args.drop_last());
    }
}

/// Once found, the callback stays where more arguments follow.
proof fn lemma_callback_stays(args: Seq<ItemTree>, n: int)
    requires
        0 <= n <= args.len(),
        callback_at(args.take(n)) is Some,
    ensures
        callback_at(args) == callback_at(args.take(n)),
    decreases args.len(),
{
    if n < args.len() {
        assert(args.drop_last().take(n) =~= args.take(n));
        lemma_callback_stays(args.drop_last(), n);
    } else {
        assert(args.take(n) =~= args);
    }
}

fn is_callback(item: &Item) -> (r: bool)
    ensures
        r == (item.view().function_body() is Some),
{
    if item.spread {
        return false;
    }
    match &item.value {
        Expr::Function(_) => true,
        _ => false,
    }
}

fn callback_index(args: &Vec<Item>) -> (r: Option<usize>)
    ensures
        match r {
            Some(i) => i < args@.len() && callback_at(syntax::item_trees(args@)) == Some(i as int),
            None => callback_at(syntax::item_trees(args@)) is None,
        },
{
    let ghost trees = syntax::item_trees(args@);
    let mut i: usize = 0;
    while i < args.len()
        invariant
            0 <= i <= args@.len(),
            trees == syntax::item_trees(args@),
            callback_at(trees.take(i as int)) is None,
        decreases args@.len() - i,
    {
        proof {
            assert(trees[i as int] == args@[i as int].view());
            assert(trees.take(i + 1).drop_last() =~= trees.take(i as int));
            assert(trees.take(i + 1).last() == trees[i as int]);
        }
        if is_callback(&args[i]) {
            proof {
                lemma_callback_stays(trees, i + 1);
            }
            return Some(i);
        }
        i += 1;
    }
    assert(trees.take(trees.len() as int) =~= trees);
    None
}

fn first_string_arg(args: &Vec<Item>) -> (r: Option<String>)
    ensures
        match r {
            Some(name) => title(syntax::item_trees(args@)) == Some(name@),
            None => title(syntax::item_trees(args@)) is None,
        },
{
    if args.len() == 0 {
        return None;
    }
    assert(syntax::item_trees(args@)[0] == args@[0].view());
    if args[0].spread {
        return None;
    }
    match &args[0].value {
        Expr::Text { value, .. } => Some(value.clone()),
        _ => None,
    }
}

fn extract_test_block(
    start: u32,
    name: String,
    body: &Vec<Stmt>,
    modifier: Option<TestModifier>,
    src: &Source,
) -> (r: TestBlock)
    ensures
        r@ == block_of(start, name@, syntax::stmt_trees(body@), modifier, src.view()),
{
    let mut collector = Collector::new(src);
    collector.scan_body(body, AssertionContext::TopLevel);
    let ghost found = collect::stmts_found(
        syntax::stmt_trees(body@),
        src.view(),
        AssertionContext::TopLevel,
    );
    assert(Found::nothing().then_find(found) =~= found);
    TestBlock {
        name,
        line: src.line(start),
        assertions: collector.assertions,
        mock_calls: collector.mocks,
        modifier,
        has_empty_body: body.len() == 0,
        has_act: act::body_has_act(body),
        bound_names: act::body_bound_names(body),
        catch_swallows: collector.catch_swallows,
        catch_masks: collector.catch_masks,
        dummy_literals: collector.dummies,
    }
}

fn minimal_block(start: u32, name: String, src: &Source) -> (r: TestBlock)
    ensures
        r@ == todo_block(start, name@, src.view()),
{
    let r = TestBlock {
        name,
        line: src.line(start),
        assertions: Vec::new(),
        mock_calls: Vec::new(),
        modifier: Some(TestModifier::Todo),
        has_empty_body: true,
        has_act: false,
        bound_names: Vec::new(),
        catch_swallows: Vec::new(),
        catch_masks: Vec::new(),
        dummy_literals: Vec::new(),
    };
    assert(r@ =~= todo_block(start, name@, src.view()));
    r
}

fn test_block_of(call: &Call, modifier: Option<TestModifier>, src: &Source) -> (r: Option<TestBlock>)
    ensures
        match r {
            Some(block) => call.view().test_block(modifier, src.view()) == Some(block@),
            None => call.view().test_block(modifier, src.view()) is None,
        },
{
    let ghost trees = syntax::item_trees(call.arguments@);
    assert(call.view().arguments == trees);
    match first_string_arg(&call.arguments) {
        Some(name) => match callback_index(&call.arguments) {
            Some(i) => {
                proof {
                    lemma_callback_at(trees);
                    assert(trees[i as int] == call.arguments@[i as int].view());
                }
                match &call.arguments[i].value {
                    Expr::Function(body) => {
                        assert(call.arguments@[i as int].value.view() == ExprTree::Function(
                            syntax::stmt_trees(body@),
                        ));
                        Some(extract_test_block(call.start, name, body, modifier, src))
                    },
                    _ => None,
                }
            },
            None => match modifier {
                Some(TestModifier::Todo) => Some(minimal_block(call.start, name, src)),
                _ => None,
            },
        },
        None => None,
    }
}

/// Appends the test blocks of an expression statement.
fn check_test_call(e: &Expr, src: &Source, blocks: &mut Vec<TestBlock>)
    ensures
        parse::block_models(final(blocks)@) == parse::block_models(old(blocks)@)
            + e.view().blocks(src.view()),
    decreases e,
{
    let ghost before = parse::block_models(blocks@);
    assert(before + Seq::<BlockModel>::empty() =~= before);
    if let Expr::Call(call) = e {
        assert(e.view() == ExprTree::Call(call.view()));
        assert(*call.view().callee == call.callee.view());
        assert(call.view().arguments == syntax::item_trees(call.arguments@));
        if let Some((name, modifier)) = calls::callee_name(&call.callee) {
            if text::same(name, "test") || text::same(name, "it") {
                if let Some(block) = test_block_of(call, modifier, src) {
                    blocks.push(block);
                    assert(parse::block_models(blocks@) =~= before + seq![block@]);
                }
            } else if text::same(name, "describe") {
                if let Some(i) = callback_index(&call.arguments) {
                    assert(syntax::item_trees(call.arguments@)[i as int]
                        == call.arguments@[i as int].view());
                    if let Expr::Function(body) = &call.arguments[i].value {
                        assert(call.arguments@[i as int].value.view() == ExprTree::Function(
                            syntax::stmt_trees(body@),
                        ));
                        walk_statements(body, src, blocks);
                    }
                }
            }
        }
    }
}

/// Appends the test blocks of the statements of a file or suite.
fn walk_statements(stmts: &Vec<Stmt>, src: &Source, blocks: &mut Vec<TestBlock>)
    ensures
        parse::block_models(final(blocks)@) == parse::block_models(old(blocks)@) + suite_blocks(
            syntax::stmt_trees(stmts@),
            src.view(),
        ),
    decreases stmts,
{
    let ghost trees = syntax::stmt_trees(stmts@);
    let ghost before = parse::block_models(blocks@);
    let mut i: usize = 0;
    assert(before + suite_blocks(trees.take(0), src.view()) =~= before);
    while i < stmts.len()
        invariant
            0 <= i <= stmts@.len(),
            trees == syntax::stmt_trees(stmts@),
            parse::block_models(blocks@) == before + suite_blocks(
                trees.take(i as int),
                src.view(),
            ),
        decreases stmts@.len() - i,
    {
        assert(trees[i as int] == stmts@[i as int].view());
        assert(trees.take(i + 1).drop_last() =~= trees.take(i as int));
        if let Stmt::Expression(e) = &stmts[i] {
            check_test_call(e, src, blocks);
        }
        assert(parse::block_models(blocks@) =~= before + suite_blocks(
            trees.take(i + 1),
            src.view(),
        ));
        i += 1;
    }
    assert(trees.take(trees.len() as int) =~= trees);
}

/// The test blocks of a parsed file, in source order. `source` is the text
/// that the offsets of `program` point into.
pub fn test_blocks(program: &Vec<Stmt>, source: &str) -> (r: Vec<TestBlock>)
    ensures
        parse::block_models(r@) == suite_blocks(syntax::stmt_trees(program@), source@),
{
    let src = Source::new(source);
    let mut blocks: Vec<TestBlock> = Vec::new();
    walk_statements(program, &src, &mut blocks);
    assert(parse::block_models(blocks@) =~= suite_blocks(
        syntax::stmt_trees(program@),
        source@,
    ));
    blocks
}

} // verus!
