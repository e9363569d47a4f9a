//! The walk over a test body that collects assertions, mocks, catch handlers
//! and placeholders.

use crate::act;
use crate::calls;
use crate::dummy;
use crate::parse;
use crate::parse::{
    Assertion, AssertionContext, AssertionModel, DummyLiteral, DummyModel, MockCall,
};
use crate::source;
use crate::source::Source;
use crate::syntax;
use crate::syntax::{
    Call, CallTree, Declarator, DeclaratorTree, Expr, ExprTree, Handler, HandlerTree, Item,
    ItemTree, Stmt, StmtTree,
};
use vstd::prelude::*;

verus! {

/// What a walk finds, each kind in the order in which it is found.
#[verifier::ext_equal]
pub ghost struct Found {
    pub assertions: Seq<AssertionModel>,
    pub mocks: Seq<MockCall>,
    pub catch_swallows: Seq<u32>,
    pub catch_masks: Seq<u32>,
    pub dummies: Seq<DummyModel>,
}

impl Found {
    pub open spec fn nothing() -> Found {
        Found {
            assertions: seq![],
            mocks: seq![],
            catch_swallows: seq![],
            catch_masks: seq![],
            dummies: seq![],
        }
    }

    pub open spec fn assertion(a: AssertionModel) -> Found {
        Found { assertions: seq![a], ..Found::nothing() }
    }

    pub open spec fn mock(m: MockCall) -> Found {
        Found { mocks: seq![m], ..Found::nothing() }
    }

    pub open spec fn dummies(d: Seq<DummyModel>) -> Found {
        Found { dummies: d, ..Found::nothing() }
    }

    pub open spec fn catches(swallows: Seq<u32>, masks: Seq<u32>) -> Found {
        Found { catch_swallows: swallows, catch_masks: masks, ..Found::nothing() }
    }

    /// This and then `more`.
    pub open spec fn then_find(self, more: Found) -> Found {
        Found {
            assertions: self.assertions + more.assertions,
            mocks: self.mocks + more.mocks,
            catch_swallows: self.catch_swallows + more.catch_swallows,
            catch_masks: self.catch_masks + more.catch_masks,
            dummies: self.dummies + more.dummies,
        }
    }
}

impl CallTree {
    /// The mock call that the call is, if it is one.
    pub open spec fn mock(self, source: Seq<char>) -> Option<MockCall> {
        match self.mock_kind() {
            Some(kind) => Some(MockCall { line: source::line_at(source, self.start), kind }),
            None => None,
        }
    }

    /// An assertion or a mock set-up is recorded as a whole. Any other call
    /// may run its callbacks, so their bodies are walked; a function that is
    /// only defined or returned is not an argument and is not walked.
    pub open spec fn found(self, source: Seq<char>, context: AssertionContext) -> Found
        decreases self, 0nat,
    {
        match self.assertion(source, context) {
            Some(a) => Found::assertion(a),
            None => match self.mock(source) {
                Some(m) => Found::mock(m),
                None => callbacks_found(self.arguments, source, context).then_find(
                    self.callee.found(source, context),
                ),
            },
        }
    }
}

impl ItemTree {
    /// The statements of a callback, if the item is one.
    pub open spec fn function_body(self) -> Option<Seq<StmtTree>> {
        if self.spread {
            None
        } else {
            match self.value {
                ExprTree::Function(body) => Some(body),
                _ => None,
            }
        }
    }
}

/// What the callbacks among the arguments of a call hold.
pub open spec fn callbacks_found(
    s: Seq<ItemTree>,
    source: Seq<char>,
    context: AssertionContext,
) -> Found
    decreases s, 0nat,
{
    if s.len() == 0 {
        Found::nothing()
    } else {
        let before = callbacks_found(s.drop_last(), source, context);
        let item = s.last();
        if item.spread {
            before
        } else {
            match item.value {
                ExprTree::Function(body) => before.then_find(stmts_found(body, source, context)),
                _ => before,
            }
        }
    }
}

impl ExprTree {
    /// What evaluating the expression finds. Operands that run only under a
    /// condition are in a conditional branch.
    pub open spec fn found(self, source: Seq<char>, context: AssertionContext) -> Found
        decreases self, 0nat,
    {
        match self {
            ExprTree::Call(call) => call.found(source, context),
            ExprTree::Member { object, .. } => object.found(source, context),
            ExprTree::Await(e) => e.found(source, context),
            ExprTree::Logical(left, right) => left.found(source, context).then_find(
                right.found(source, AssertionContext::IfBranch),
            ),
            ExprTree::Conditional(test, consequent, alternate) => test.found(
                source,
                context,
            ).then_find(
                consequent.found(source, AssertionContext::IfBranch).then_find(
                    alternate.found(source, AssertionContext::IfBranch),
                ),
            ),
            ExprTree::Paren(e) => e.found(source, context),
            ExprTree::Sequence(s) => exprs_found(s, source, context),
            ExprTree::TypeWrapped(e) => e.found(source, context),
            _ => Found::nothing(),
        }
    }
}

pub open spec fn exprs_found(
    s: Seq<ExprTree>,
    source: Seq<char>,
    context: AssertionContext,
) -> Found
    decreases s, 0nat,
{
    if s.len() == 0 {
        Found::nothing()
    } else {
        exprs_found(s.drop_last(), source, context).then_find(s.last().found(source, context))
    }
}

/// What an expression finds whose value the test uses: with its placeholders.
pub open spec fn value_found(e: ExprTree, source: Seq<char>, context: AssertionContext) -> Found
    decreases e, 1nat,
{
    e.found(source, context).then_find(Found::dummies(e.dummies(source)))
}

pub open spec fn declarators_found(
    s: Seq<DeclaratorTree>,
    source: Seq<char>,
    context: AssertionContext,
) -> Found
    decreases s, 0nat,
{
    if s.len() == 0 {
        Found::nothing()
    } else {
        declarators_found(s.drop_last(), source, context).then_find(
            match s.last().init {
                Some(x) => value_found(x, source, context),
                None => Found::nothing(),
            },
        )
    }
}

/// Whether a statement of a try block asserts directly, not inside nested
/// control flow.
pub open spec fn asserts_directly(s: Seq<StmtTree>, source: Seq<char>) -> bool
    decreases s, 0nat,
{
    exists|i: int| 0 <= i < s.len() && stmt_asserts_directly(#[trigger] s[i], source)
}

pub open spec fn stmt_asserts_directly(s: StmtTree, source: Seq<char>) -> bool
    decreases s, 0nat,
{
    match s {
        StmtTree::Expression(e) => e.found(source, AssertionContext::TryBlock).assertions.len() > 0,
        _ => false,
    }
}

impl HandlerTree {
    /// What a catch handler finds: what is in its body, then the handler
    /// itself. It swallows when it neither asserts nor rethrows; it masks when
    /// it asserts without rethrowing beside a try block that asserts.
    pub open spec fn found(self, try_asserts: bool, source: Seq<char>) -> Found
        decreases self, 0nat,
    {
        let inside = stmts_found(self.body, source, AssertionContext::CatchBlock);
        let line = source::line_at(source, self.start);
        let asserts = inside.assertions.len() > 0;
        let rethrows = act::any_stmt_throws(self.body);
        inside.then_find(
            Found::catches(
                if !asserts && !rethrows {
                    seq![line]
                } else {
                    seq![]
                },
                if try_asserts && asserts && !rethrows {
                    seq![line]
                } else {
                    seq![]
                },
            ),
        )
    }
}

impl StmtTree {
    /// What running the statement finds. The conditions of `if` and the heads
    /// of loops and `switch` are not searched.
    pub open spec fn found(self, source: Seq<char>, context: AssertionContext) -> Found
        decreases self, 0nat,
    {
        match self {
            StmtTree::Expression(e) => value_found(e, source, context),
            StmtTree::Declaration(s) => declarators_found(s, source, context),
            StmtTree::Return(Some(e)) => value_found(e, source, context),
            StmtTree::Block(s) => stmts_found(s, source, context),
            StmtTree::If { consequent, alternate, .. } => consequent.found(
                source,
                AssertionContext::IfBranch,
            ).then_find(
                match alternate {
                    Some(a) => a.found(source, AssertionContext::IfBranch),
                    None => Found::nothing(),
                },
            ),
            StmtTree::Loop { body, .. } => body.found(source, context),
            StmtTree::Try { block, handler, finalizer } => stmts_found(
                block,
                source,
                AssertionContext::TryBlock,
            ).then_find(
                match handler {
                    Some(h) => h.found(asserts_directly(block, source), source),
                    None => Found::nothing(),
                },
            ).then_find(
                match finalizer {
                    Some(f) => stmts_found(f, source, context),
                    None => Found::nothing(),
                },
            ),
            StmtTree::Switch { cases, .. } => cases_found(cases, source, context),
            _ => Found::nothing(),
        }
    }
}

pub open spec fn stmts_found(
    s: Seq<StmtTree>,
    source: Seq<char>,
    context: AssertionContext,
) -> Found
    decreases s, 0nat,
{
    if s.len() == 0 {
        Found::nothing()
    } else {
        stmts_found(s.drop_last(), source, context).then_find(s.last().found(source, context))
    }
}

pub open spec fn cases_found(
    s: Seq<Seq<StmtTree>>,
    source: Seq<char>,
    context: AssertionContext,
) -> Found
    decreases s, 0nat,
{
    if s.len() == 0 {
        Found::nothing()
    } else {
        cases_found(s.drop_last(), source, context).then_find(
            stmts_found(s.last(), source, context),
        )
    }
}


proof fn lemma_assoc(a: Found, b: Found, c: Found)
    ensures
        a.then_find(b).then_find(c) == a.then_find(b.then_find(c)),
{
    assert(a.then_find(b).then_find(c) =~= a.then_find(b.then_find(c)));
}

proof fn lemma_nothing(a: Found)
    ensures
        a.then_find(Found::nothing()) == a,
        Found::nothing().then_find(a) == a,
{
    assert(a.then_find(Found::nothing()) =~= a);
    assert(Found::nothing().then_find(a) =~= a);
}

/// What the expressions on a stack find, from the top down.
spec fn pending(stack: Seq<(&Expr, AssertionContext)>, source: Seq<char>) -> Found
    decreases stack.len(),
{
    if stack.len() == 0 {
        Found::nothing()
    } else {
        stack.last().0.view().found(source, stack.last().1).then_find(
            pending(stack.drop_last(), source),
        )
    }
}

/// How many nodes the expressions on a stack have.
spec fn stack_size(stack: Seq<(&Expr, AssertionContext)>) -> nat
    decreases stack.len(),
{
    if stack.len() == 0 {
        0
    } else {
        stack.last().0.view().size() + stack_size(stack.drop_last())
    }
}

proof fn lemma_push(
    stack: Seq<(&Expr, AssertionContext)>,
    e: &Expr,
    context: AssertionContext,
    source: Seq<char>,
)
    ensures
        pending(stack.push((e, context)), source) == e.view().found(source, context).then_find(
            pending(stack, source),
        ),
        stack_size(stack.push((e, context))) == e.view().size() + stack_size(stack),
{
    assert(stack.push((e, context)).drop_last() =~= stack);
}

/// Gathers what the walk over one test body finds.
pub struct Collector<'s, 'a> {
    pub src: &'s Source<'a>,
    pub assertions: Vec<Assertion>,
    pub mocks: Vec<MockCall>,
    pub catch_swallows: Vec<u32>,
    pub catch_masks: Vec<u32>,
    pub dummies: Vec<DummyLiteral>,
}

impl<'s, 'a> Collector<'s, 'a> {
    pub open spec fn found(&self) -> Found {
        Found {
            assertions: parse::assertion_models(self.assertions@),
            mocks: self.mocks@,
            catch_swallows: self.catch_swallows@,
            catch_masks: self.catch_masks@,
            dummies: parse::dummy_models(self.dummies@),
        }
    }

    /// Whether `self` found `more` after what `before` had found, in the same
    /// source.
    pub open spec fn extends(&self, before: &Self, more: Found) -> bool {
        self.src == before.src && self.found() == before.found().then_find(more)
    }

    pub fn new(src: &'s Source<'a>) -> (r: Self)
        ensures
            r.src == src,
            r.found() == Found::nothing(),
    {
        let r = Collector {
            src,
            assertions: Vec::new(),
            mocks: Vec::new(),
            catch_swallows: Vec::new(),
            catch_masks: Vec::new(),
            dummies: Vec::new(),
        };
        assert(r.found() =~= Found::nothing());
        r
    }

    /// Walks the statements of a body.
    pub fn scan_body(&mut self, stmts: &Vec<Stmt>, context: AssertionContext)
        ensures
            final(self).extends(
                old(self),
                stmts_found(syntax::stmt_trees(stmts@), old(self).src.view(), context),
            ),
        decreases syntax::stmts_size(syntax::stmt_trees(stmts@)), 0nat,
    {
        let ghost trees = syntax::stmt_trees(stmts@);
        let ghost source = self.src.view();
        let ghost start = self.found();
        let mut i: usize = 0;
        proof {
            lemma_nothing(start);
            assert(trees.take(0) =~= seq![]);
        }
        while i < stmts.len()
            invariant
                0 <= i <= stmts@.len(),
                trees == syntax::stmt_trees(stmts@),
                source == self.src.view(),
                self.src == old(self).src,
                self.found() == start.then_find(
                    stmts_found(trees.take(i as int), source, context),
                ),
            decreases stmts@.len() - i,
        {
            proof {
                assert(trees[i as int] == stmts@[i as int].view());
                assert(trees.take(i + 1).drop_last() =~= trees.take(i as int));
                syntax::lemma_stmt_in(trees, i as int);
                lemma_assoc(
                    start,
                    stmts_found(trees.take(i as int), source, context),
                    trees[i as int].found(source, context),
                );
            }
            self.scan_statement(&stmts[i], context);
            i += 1;
        }
        assert(trees.take(trees.len() as int) =~= trees);
    }

    /// Walks an expression whose value the test uses.
    fn scan_value(&mut self, e: &Expr, context: AssertionContext)
        ensures
            final(self).extends(old(self), value_found(e.view(), old(self).src.view(), context)),
        decreases e.view().size(), 2nat,
    {
        self.scan_expr(e, context);
        let ghost middle = self.found();
        dummy::collect_dummies_expr(e, self.src, &mut self.dummies);
        proof {
            let source = old(self).src.view();
            assert(self.found() =~= middle.then_find(Found::dummies(e.view().dummies(source))));
            lemma_assoc(
                old(self).found(),
                e.view().found(source, context),
                Found::dummies(e.view().dummies(source)),
            );
        }
    }

    fn scan_declarators(&mut self, declarators: &Vec<Declarator>, context: AssertionContext)
        ensures
            final(self).extends(
                old(self),
                declarators_found(
                    syntax::declarator_trees(declarators@),
                    old(self).src.view(),
                    context,
                ),
            ),
        decreases syntax::declarators_size(syntax::declarator_trees(declarators@)), 0nat,
    {
        let ghost trees = syntax::declarator_trees(declarators@);
        let ghost source = self.src.view();
        let ghost start = self.found();
        let mut i: usize = 0;
        proof {
            lemma_nothing(start);
            assert(trees.take(0) =~= seq![]);
        }
        while i < declarators.len()
            invariant
                0 <= i <= declarators@.len(),
                trees == syntax::declarator_trees(declarators@),
                source == self.src.view(),
                self.src == old(self).src,
                self.found() == start.then_find(
                    declarators_found(trees.take(i as int), source, context),
                ),
            decreases declarators@.len() - i,
        {
            let ghost before = declarators_found(trees.take(i as int), source, context);
            proof {
                assert(trees[i as int] == declarators@[i as int].view());
                assert(trees.take(i + 1).drop_last() =~= trees.take(i as int));
                syntax::lemma_declarator_in(trees, i as int);
                lemma_nothing(start.then_find(before));
            }
            match &declarators[i].init {
                Some(init) => {
                    self.scan_value(init, context);
                    proof {
                        lemma_assoc(start, before, value_found(init.view(), source, context));
                    }
                },
                None => {
                    proof {
                        lemma_nothing(before);
                    }
                },
            }
            i += 1;
        }
        assert(trees.take(trees.len() as int) =~= trees);
    }

    fn scan_cases(&mut self, cases: &Vec<Vec<Stmt>>, context: AssertionContext)
        ensures
            final(self).extends(
                old(self),
                cases_found(syntax::case_trees(cases@), old(self).src.view(), context),
            ),
        decreases syntax::cases_size(syntax::case_trees(cases@)), 0nat,
    {
        let ghost trees = syntax::case_trees(cases@);
        let ghost source = self.src.view();
        let ghost start = self.found();
        let mut i: usize = 0;
        proof {
            lemma_nothing(start);
            assert(trees.take(0) =~= seq![]);
        }
        while i < cases.len()
            invariant
                0 <= i <= cases@.len(),
                trees == syntax::case_trees(cases@),
                source == self.src.view(),
                self.src == old(self).src,
                self.found() == start.then_find(
                    cases_found(trees.take(i as int), source, context),
                ),
            decreases cases@.len() - i,
        {
            proof {
                assert(trees[i as int] == syntax::stmt_trees(cases@[i as int]@));
                assert(trees.take(i + 1).drop_last() =~= trees.take(i as int));
                syntax::lemma_case_in(trees, i as int);
                lemma_assoc(
                    start,
                    cases_found(trees.take(i as int), source, context),
                    stmts_found(trees[i as int], source, context),
                );
            }
            self.scan_body(&cases[i], context);
            i += 1;
        }
        assert(trees.take(trees.len() as int) =~= trees);
    }

    fn scan_statement(&mut self, stmt: &Stmt, context: AssertionContext)
        ensures
            final(self).extends(old(self), stmt.view().found(old(self).src.view(), context)),
        decreases stmt.view().size(), 0nat,
    {
        let ghost source = self.src.view();
        let ghost start = self.found();
        proof {
            lemma_nothing(start);
        }
        match stmt {
            Stmt::Expression(e) => {
                self.scan_value(e, context);
            },
            Stmt::Declaration(s) => {
                self.scan_declarators(s, context);
            },
            Stmt::Return(Some(e)) => {
                self.scan_value(e, context);
            },
            Stmt::Block(s) => {
                self.scan_body(s, context);
            },
            Stmt::If { consequent, alternate, .. } => {
                self.scan_statement(consequent, AssertionContext::IfBranch);
                let ghost first = consequent.view().found(source, AssertionContext::IfBranch);
                proof {
                    lemma_nothing(first);
                }
                if let Some(a) = alternate {
                    self.scan_statement(a, AssertionContext::IfBranch);
                    proof {
                        lemma_assoc(
                            start,
                            first,
                            a.view().found(source, AssertionContext::IfBranch),
                        );
                    }
                }
            },
            Stmt::Loop { body, .. } => {
                self.scan_statement(body, context);
            },
            Stmt::Try { block, handler, finalizer } => {
                self.scan_try_statement(block, handler, finalizer, context);
            },
            Stmt::Switch { cases, .. } => {
                self.scan_cases(cases, context);
            },
            _ => {},
        }
    }

    /// Walks a `try` statement.
    fn scan_try_statement(
        &mut self,
        block: &Vec<Stmt>,
        handler: &Option<Handler>,
        finalizer: &Option<Vec<Stmt>>,
        context: AssertionContext,
    )
        ensures
            final(self).extends(
                old(self),
                try_found(
                    syntax::stmt_trees(block@),
                    handler_tree(*handler),
                    finalizer_tree(*finalizer),
                    old(self).src.view(),
                    context,
                ),
            ),
        decreases
                1 + syntax::stmts_size(syntax::stmt_trees(block@)) + handler_size(*handler)
                    + finalizer_size(*finalizer),
                0nat,
    {
        let ghost source = self.src.view();
        let ghost start = self.found();
        let try_has_assertion: bool = try_block_has_top_level_assertion(block, self.src);
        self.scan_body(block, AssertionContext::TryBlock);
        let ghost first = stmts_found(
            syntax::stmt_trees(block@),
            source,
            AssertionContext::TryBlock,
        );
        let ghost second = match handler_tree(*handler) {
            Some(h) => h.found(asserts_directly(syntax::stmt_trees(block@), source), source),
            None => Found::nothing(),
        };
        let ghost third = match finalizer_tree(*finalizer) {
            Some(f) => stmts_found(f, source, context),
            None => Found::nothing(),
        };
        proof {
            lemma_nothing(start.then_find(first));
        }
        if let Some(h) = handler {
            self.scan_handler(h, try_has_assertion);
        }
        assert(self.found() == start.then_find(first).then_find(second));
        proof {
            lemma_nothing(self.found());
            lemma_assoc(start, first, second);
            lemma_assoc(start, first.then_find(second), third);
        }
        if let Some(f) = finalizer {
            self.scan_body(f, context);
        }
        assert(self.found() == start.then_find(first).then_find(second).then_find(third));
    }

    /// Walks a catch handler. Its assertions are gathered apart, so that the
    /// verdict on the handler reads its own assertions only.
    fn scan_handler(&mut self, handler: &Handler, try_has_assertion: bool)
        ensures
            final(self).extends(
                old(self),
                handler.view().found(try_has_assertion, old(self).src.view()),
            ),
        decreases handler.view().size(), 0nat,
    {
        let ghost source = self.src.view();
        let ghost start = self.found();
        let ghost inside = stmts_found(
            syntax::stmt_trees(handler.body@),
            source,
            AssertionContext::CatchBlock,
        );
        let mut saved: Vec<Assertion> = Vec::new();
        std::mem::swap(&mut self.assertions, &mut saved);
        let ghost apart = self.found();
        self.scan_body(&handler.body, AssertionContext::CatchBlock);
        assert(parse::assertion_models(self.assertions@) =~= inside.assertions);
        let asserts: bool = self.assertions.len() > 0;
        saved.append(&mut self.assertions);
        std::mem::swap(&mut self.assertions, &mut saved);
        assert(parse::assertion_models(self.assertions@) =~= start.assertions + inside.assertions);
        assert(self.found() =~= start.then_find(inside));
        let rethrows: bool = act::body_contains_throw(&handler.body);
        if !asserts && !rethrows {
            self.catch_swallows.push(self.src.line(handler.start));
        }
        if try_has_assertion && asserts && !rethrows {
            self.catch_masks.push(self.src.line(handler.start));
        }
        assert(self.found() =~= start.then_find(
            handler.view().found(try_has_assertion, source),
        ));
    }

    /// Walks the callbacks among the arguments of a call.
    fn scan_callbacks(&mut self, items: &Vec<Item>, context: AssertionContext)
        ensures
            final(self).extends(
                old(self),
                callbacks_found(syntax::item_trees(items@), old(self).src.view(), context),
            ),
        decreases syntax::items_size(syntax::item_trees(items@)), 0nat,
    {
        let ghost trees = syntax::item_trees(items@);
        let ghost source = self.src.view();
        let ghost start = self.found();
        let mut i: usize = 0;
        proof {
            lemma_nothing(start);
            assert(trees.take(0) =~= seq![]);
        }
        while i < items.len()
            invariant
                0 <= i <= items@.len(),
                trees == syntax::item_trees(items@),
                source == self.src.view(),
                self.src == old(self).src,
                self.found() == start.then_find(
                    callbacks_found(trees.take(i as int), source, context),
                ),
            decreases items@.len() - i,
        {
            let ghost before = callbacks_found(trees.take(i as int), source, context);
            proof {
                assert(trees[i as int] == items@[i as int].view());
                assert(trees.take(i + 1).drop_last() =~= trees.take(i as int));
                syntax::lemma_item_in(trees, i as int);
            }
            if !items[i].spread {
                if let Expr::Function(body) = &items[i].value {
                    assert(items@[i as int].value.view() == ExprTree::Function(
                        syntax::stmt_trees(body@),
                    ));
                    self.scan_body(body, context);
                    proof {
                        lemma_assoc(
                            start,
                            before,
                            stmts_found(syntax::stmt_trees(body@), source, context),
                        );
                    }
                }
            }
            i += 1;
        }
        assert(trees.take(trees.len() as int) =~= trees);
    }

    /// Takes one expression off the stack: records it, or pushes its operands.
    fn scan_step<'e>(
        &mut self,
        e: &'e Expr,
        context: AssertionContext,
        stack: &mut Vec<(&'e Expr, AssertionContext)>,
    )
        ensures
            final(self).src == old(self).src,
            final(self).found().then_find(pending(final(stack)@, old(self).src.view()))
                == old(self).found().then_find(
                e.view().found(old(self).src.view(), context).then_find(
                    pending(old(stack)@, old(self).src.view()),
                ),
            ),
            stack_size(final(stack)@) < e.view().size() + stack_size(old(stack)@),
        decreases e.view().size(), 0nat,
    {
        let ghost source = self.src.view();
        let ghost rest = pending(stack@, source);
        let ghost start = self.found();
        match e {
            Expr::Call(call) => {
                let ghost tree = call.view();
                assert(e.view() == ExprTree::Call(tree));
                assert(tree.arguments == syntax::item_trees(call.arguments@));
                assert(*tree.callee == call.callee.view());
                assert(e.view().size() == 1 + tree.size());
                assert(tree.size() == 1 + tree.callee.size() + syntax::items_size(tree.arguments));
                assert(e.view().found(source, context) == tree.found(source, context));
                if let Some(a) = calls::try_assertion(call, self.src, context) {
                    self.assertions.push(a);
                    proof {
                        assert(self.found() =~= start.then_find(Found::assertion(a@)));
                        lemma_assoc(start, Found::assertion(a@), rest);
                    }
                } else if let Some(kind) = calls::mock_kind(call) {
                    let m = MockCall { line: self.src.line(call.start), kind };
                    self.mocks.push(m);
                    proof {
                        assert(self.found() =~= start.then_find(Found::mock(m)));
                        lemma_assoc(start, Found::mock(m), rest);
                    }
                } else {
                    self.scan_callbacks(&call.arguments, context);
                    proof {
                        let inside = callbacks_found(
                            syntax::item_trees(call.arguments@),
                            source,
                            context,
                        );
                        let callee = call.callee.view().found(source, context);
                        lemma_push(stack@, &call.callee, context, source);
                        lemma_assoc(start, inside, callee.then_find(rest));
                        lemma_assoc(inside, callee, rest);
                    }
                    stack.push((&call.callee, context));
                }
            },
            Expr::Member { object, .. } => {
                proof {
                    lemma_push(stack@, object, context, source);
                }
                stack.push((object, context));
            },
            Expr::Await(inner) => {
                proof {
                    lemma_push(stack@, inner, context, source);
                }
                stack.push((inner, context));
            },
            Expr::Logical(left, right) => {
                proof {
                    lemma_push(stack@, right, AssertionContext::IfBranch, source);
                    lemma_assoc(
                        left.view().found(source, context),
                        right.view().found(source, AssertionContext::IfBranch),
                        rest,
                    );
                }
                stack.push((right, AssertionContext::IfBranch));
                proof {
                    lemma_push(stack@, left, context, source);
                }
                stack.push((left, context));
            },
            Expr::Conditional(test, consequent, alternate) => {
                proof {
                    let a = test.view().found(source, context);
                    let b = consequent.view().found(source, AssertionContext::IfBranch);
                    let c = alternate.view().found(source, AssertionContext::IfBranch);
                    lemma_push(stack@, alternate, AssertionContext::IfBranch, source);
                    lemma_assoc(a, b.then_find(c), rest);
                    lemma_assoc(b, c, rest);
                }
                stack.push((alternate, AssertionContext::IfBranch));
                proof {
                    lemma_push(stack@, consequent, AssertionContext::IfBranch, source);
                }
                stack.push((consequent, AssertionContext::IfBranch));
                proof {
                    lemma_push(stack@, test, context, source);
                }
                stack.push((test, context));
            },
            Expr::Paren(inner) => {
                proof {
                    lemma_push(stack@, inner, context, source);
                }
                stack.push((inner, context));
            },
            Expr::Sequence(exprs) => {
                let ghost trees = syntax::expr_trees(exprs@);
                let ghost whole = exprs_found(trees, source, context).then_find(rest);
                let ghost total = syntax::exprs_size(trees) + stack_size(stack@);
                let mut k: usize = exprs.len();
                assert(trees.take(trees.len() as int) =~= trees);
                while k > 0
                    invariant
                        0 <= k <= exprs@.len(),
                        trees == syntax::expr_trees(exprs@),
                        exprs_found(trees.take(k as int), source, context).then_find(
                            pending(stack@, source),
                        ) == whole,
                        syntax::exprs_size(trees.take(k as int)) + stack_size(stack@) == total,
                    decreases k,
                {
                    k -= 1;
                    proof {
                        assert(trees[k as int] == exprs@[k as int].view());
                        assert(trees.take(k + 1).drop_last() =~= trees.take(k as int));
                        lemma_push(stack@, &exprs@[k as int], context, source);
                        lemma_assoc(
                            exprs_found(trees.take(k as int), source, context),
                            trees[k as int].found(source, context),
                            pending(stack@, source),
                        );
                    }
                    stack.push((&exprs[k], context));
                }
                proof {
                    assert(trees.take(0) =~= seq![]);
                    lemma_nothing(pending(stack@, source));
                }
            },
            Expr::TypeWrapped(inner) => {
                proof {
                    lemma_push(stack@, inner, context, source);
                }
                stack.push((inner, context));
            },
            _ => {
                proof {
                    lemma_nothing(rest);
                    syntax::lemma_expr_size_positive(e.view());
                }
            },
        }
    }

    /// Walks an expression with a stack of its own instead of recursion, so
    /// that long chains of operators and members cannot exhaust the call
    /// stack. Operands are pushed last first, so that they are walked in
    /// source order.
    pub fn scan_expr(&mut self, e: &Expr, context: AssertionContext)
        ensures
            final(self).extends(old(self), e.view().found(old(self).src.view(), context)),
        decreases e.view().size(), 1nat,
    {
        let ghost source = self.src.view();
        let ghost start = self.found();
        let ghost goal = start.then_find(e.view().found(source, context));
        let mut stack: Vec<(&Expr, AssertionContext)> = Vec::new();
        proof {
            lemma_push(stack@, e, context, source);
            lemma_nothing(e.view().found(source, context));
        }
        stack.push((e, context));
        while stack.len() > 0
            invariant
                source == self.src.view(),
                self.src == old(self).src,
                self.found().then_find(pending(stack@, source)) == goal,
                stack_size(stack@) <= e.view().size(),
            decreases stack_size(stack@),
        {
            let ghost full = stack@;
            let (top, here) = stack.pop().unwrap();
            let ghost rest = stack@;
            let ghost now = self.found();
            proof {
                assert(full.drop_last() =~= rest);
                assert(full.last() == (top, here));
                lemma_nothing(pending(rest, source));
                lemma_assoc(now, top.view().found(source, here), pending(rest, source));
            }
            self.scan_step(top, here, &mut stack);
        }
        proof {
            lemma_nothing(self.found());
        }
    }
}

pub open spec fn handler_tree(h: Option<Handler>) -> Option<HandlerTree> {
    match h {
        Some(x) => Some(x.view()),
        None => None,
    }
}

pub open spec fn finalizer_tree(f: Option<Vec<Stmt>>) -> Option<Seq<StmtTree>> {
    match f {
        Some(x) => Some(syntax::stmt_trees(x@)),
        None => None,
    }
}

spec fn handler_size(h: Option<Handler>) -> nat {
    match h {
        Some(x) => x.view().size(),
        None => 0,
    }
}

spec fn finalizer_size(f: Option<Vec<Stmt>>) -> nat {
    match f {
        Some(x) => syntax::stmts_size(syntax::stmt_trees(x@)),
        None => 0,
    }
}

/// What a `try` statement finds.
pub open spec fn try_found(
    block: Seq<StmtTree>,
    handler: Option<HandlerTree>,
    finalizer: Option<Seq<StmtTree>>,
    source: Seq<char>,
    context: AssertionContext,
) -> Found {
    (StmtTree::Try { block, handler, finalizer }).found(source, context)
}

/// Whether a statement of a try block asserts directly.
fn try_block_has_top_level_assertion(body: &Vec<Stmt>, src: &Source) -> (r: bool)
    ensures
        r == asserts_directly(syntax::stmt_trees(body@), src.view()),
    decreases syntax::stmts_size(syntax::stmt_trees(body@)), 0nat,
{
    let ghost trees = syntax::stmt_trees(body@);
    let mut i: usize = 0;
    while i < body.len()
        invariant
            0 <= i <= body@.len(),
            trees == syntax::stmt_trees(body@),
            forall|j: int|
                0 <= j < i ==> !stmt_asserts_directly(#[trigger] trees[j], src.view()),
        decreases body@.len() - i,
    {
        assert(trees[i as int] == body@[i as int].view());
        if let Stmt::Expression(e) = &body[i] {
            proof {
                syntax::lemma_stmt_in(trees, i as int);
                lemma_nothing(e.view().found(src.view(), AssertionContext::TryBlock));
            }
            let mut probe = Collector::new(src);
            probe.scan_expr(e, AssertionContext::TryBlock);
            if probe.assertions.len() > 0 {
                assert(probe.found().assertions.len() > 0);
                assert(stmt_asserts_directly(trees[i as int], src.view()));
                return true;
            }
            assert(probe.found().assertions.len() == 0);
        }
        i += 1;
    }
    false
}

} // verus!
