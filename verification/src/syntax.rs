//! The part of a TypeScript or JavaScript program that the analysis reads,
//! once as values to compute with (`Expr`, `Stmt`, `Pattern` and what they
//! hold) and once as mathematical trees (`ExprTree`, `StmtTree`, ...) over
//! which contracts are stated. `view` takes the first to the second.
//!
//! Offsets are byte offsets into the source text.

use vstd::prelude::*;

verus! {

/// An expression.
pub enum Expr {
    /// A reference to a variable.
    Identifier(String),
    /// A string literal: its value, and where it starts.
    Text { value: String, start: u32 },
    /// A boolean, numeric or null literal.
    Constant,
    /// A `new` expression or a tagged template.
    Invocation,
    /// `(e)`.
    Paren(Box<Expr>),
    /// `e as T`, `e satisfies T`, `e!` or `<T>e`.
    TypeWrapped(Box<Expr>),
    /// `await e`.
    Await(Box<Expr>),
    /// A unary operator and its operand.
    Unary(Box<Expr>),
    /// An assignment, of which only the assigned value is kept.
    Assignment(Box<Expr>),
    /// A binary operator other than the logical ones.
    Binary(Box<Expr>, Box<Expr>),
    /// `a && b`, `a || b` or `a ?? b`.
    Logical(Box<Expr>, Box<Expr>),
    /// `test ? consequent : alternate`.
    Conditional(Box<Expr>, Box<Expr>, Box<Expr>),
    /// `(a, b, c)`.
    Sequence(Vec<Expr>),
    /// A template literal: the expressions it interpolates.
    Template(Vec<Expr>),
    /// An array literal.
    Array(Vec<Item>),
    /// An object literal: the values of its properties and the operands of
    /// its spreads, in source order.
    Object(Vec<Expr>),
    /// `object.property`.
    Member { object: Box<Expr>, property: String },
    /// `object[index]`.
    Element(Box<Expr>, Box<Expr>),
    /// A call outside an optional chain.
    Call(Call),
    /// An optional chain that ends in a call.
    ChainCall(Call),
    /// An optional chain that ends in a property, a private field or a
    /// non-null mark: what stands before it.
    ChainMember(Box<Expr>),
    /// An optional chain that ends in `object[index]`.
    ChainElement(Box<Expr>, Box<Expr>),
    /// An arrow function, or a function expression that has a body.
    Function(Vec<Stmt>),
    /// Any other expression.
    Other,
}

/// A call: where it starts, what it calls, and with which arguments.
pub struct Call {
    pub start: u32,
    pub callee: Box<Expr>,
    pub arguments: Vec<Item>,
}

/// An argument of a call or an element of an array literal, with the range of
/// the source that it spans. A hole of an array is an `Other` expression.
pub struct Item {
    pub start: u32,
    pub end: u32,
    /// Whether it is a spread (`...value`).
    pub spread: bool,
    pub value: Expr,
}

/// A statement.
pub enum Stmt {
    Expression(Expr),
    /// `const`, `let`, `var` or `using` with its declarators.
    Declaration(Vec<Declarator>),
    Return(Option<Expr>),
    Block(Vec<Stmt>),
    If { test: Expr, consequent: Box<Stmt>, alternate: Option<Box<Stmt>> },
    /// Any loop. The head is the condition of a `for`, `while` or `do` loop,
    /// or what a `for-in` or `for-of` loop walks.
    Loop { head: Option<Expr>, body: Box<Stmt> },
    Try { block: Vec<Stmt>, handler: Option<Handler>, finalizer: Option<Vec<Stmt>> },
    /// A `switch` with the statements of each of its cases.
    Switch { discriminant: Expr, cases: Vec<Vec<Stmt>> },
    Throw(Expr),
    /// Any other statement.
    Other,
}

/// A `catch` clause.
pub struct Handler {
    pub start: u32,
    pub body: Vec<Stmt>,
}

/// One `pattern = init` of a declaration.
pub struct Declarator {
    pub id: Pattern,
    pub init: Option<Expr>,
}

/// A binding pattern.
pub enum Pattern {
    Name(String),
    /// An object or array pattern: its properties or elements in source
    /// order, its rest element last.
    Group(Vec<Part>),
    /// `target = value`, a pattern with a default.
    Default { target: Box<Pattern>, value: Expr },
    /// A hole of an array pattern.
    Hole,
}

/// One property or element of a pattern. The key is there for a computed
/// property only.
pub struct Part {
    pub key: Option<Expr>,
    pub value: Pattern,
}

pub ghost enum ExprTree {
    Identifier(Seq<char>),
    Text { value: Seq<char>, start: u32 },
    Constant,
    Invocation,
    Paren(Box<ExprTree>),
    TypeWrapped(Box<ExprTree>),
    Await(Box<ExprTree>),
    Unary(Box<ExprTree>),
    Assignment(Box<ExprTree>),
    Binary(Box<ExprTree>, Box<ExprTree>),
    Logical(Box<ExprTree>, Box<ExprTree>),
    Conditional(Box<ExprTree>, Box<ExprTree>, Box<ExprTree>),
    Sequence(Seq<ExprTree>),
    Template(Seq<ExprTree>),
    Array(Seq<ItemTree>),
    Object(Seq<ExprTree>),
    Member { object: Box<ExprTree>, property: Seq<char> },
    Element(Box<ExprTree>, Box<ExprTree>),
    Call(CallTree),
    ChainCall(CallTree),
    ChainMember(Box<ExprTree>),
    ChainElement(Box<ExprTree>, Box<ExprTree>),
    Function(Seq<StmtTree>),
    Other,
}

pub ghost struct CallTree {
    pub start: u32,
    pub callee: Box<ExprTree>,
    pub arguments: Seq<ItemTree>,
}

pub ghost struct ItemTree {
    pub start: u32,
    pub end: u32,
    pub spread: bool,
    pub value: ExprTree,
}

pub ghost enum StmtTree {
    Expression(ExprTree),
    Declaration(Seq<DeclaratorTree>),
    Return(Option<ExprTree>),
    Block(Seq<StmtTree>),
    If { test: ExprTree, consequent: Box<StmtTree>, alternate: Option<Box<StmtTree>> },
    Loop { head: Option<ExprTree>, body: Box<StmtTree> },
    Try { block: Seq<StmtTree>, handler: Option<HandlerTree>, finalizer: Option<Seq<StmtTree>> },
    Switch { discriminant: ExprTree, cases: Seq<Seq<StmtTree>> },
    Throw(ExprTree),
    Other,
}

pub ghost struct HandlerTree {
    pub start: u32,
    pub body: Seq<StmtTree>,
}

pub ghost struct DeclaratorTree {
    pub id: PatternTree,
    pub init: Option<ExprTree>,
}

pub ghost enum PatternTree {
    Name(Seq<char>),
    Group(Seq<PartTree>),
    Default { target: Box<PatternTree>, value: ExprTree },
    Hole,
}

pub ghost struct PartTree {
    pub key: Option<ExprTree>,
    pub value: PatternTree,
}

impl Expr {
    pub open spec fn view(self) -> ExprTree
        decreases self,
    {
        match self {
            Expr::Identifier(name) => ExprTree::Identifier(name@),
            Expr::Text { value, start } => ExprTree::Text { value: value@, start },
            Expr::Constant => ExprTree::Constant,
            Expr::Invocation => ExprTree::Invocation,
            Expr::Paren(e) => ExprTree::Paren(Box::new(e.view())),
            Expr::TypeWrapped(e) => ExprTree::TypeWrapped(Box::new(e.view())),
            Expr::Await(e) => ExprTree::Await(Box::new(e.view())),
            Expr::Unary(e) => ExprTree::Unary(Box::new(e.view())),
            Expr::Assignment(e) => ExprTree::Assignment(Box::new(e.view())),
            Expr::Binary(a, b) => ExprTree::Binary(Box::new(a.view()), Box::new(b.view())),
            Expr::Logical(a, b) => ExprTree::Logical(Box::new(a.view()), Box::new(b.view())),
            Expr::Conditional(a, b, c) => ExprTree::Conditional(
                Box::new(a.view()),
                Box::new(b.view()),
                Box::new(c.view()),
            ),
            Expr::Sequence(s) => ExprTree::Sequence(expr_trees(s@)),
            Expr::Template(s) => ExprTree::Template(expr_trees(s@)),
            Expr::Array(s) => ExprTree::Array(item_trees(s@)),
            Expr::Object(s) => ExprTree::Object(expr_trees(s@)),
            Expr::Member { object, property } => ExprTree::Member {
                object: Box::new(object.view()),
                property: property@,
            },
            Expr::Element(a, b) => ExprTree::Element(Box::new(a.view()), Box::new(b.view())),
            Expr::Call(c) => ExprTree::Call(c.view()),
            Expr::ChainCall(c) => ExprTree::ChainCall(c.view()),
            Expr::ChainMember(e) => ExprTree::ChainMember(Box::new(e.view())),
            Expr::ChainElement(a, b) => ExprTree::ChainElement(
                Box::new(a.view()),
                Box::new(b.view()),
            ),
            Expr::Function(body) => ExprTree::Function(stmt_trees(body@)),
            Expr::Other => ExprTree::Other,
        }
    }
}

impl Call {
    pub open spec fn view(self) -> CallTree
        decreases self,
    {
        CallTree {
            start: self.start,
            callee: Box::new(self.callee.view()),
            arguments: item_trees(self.arguments@),
        }
    }
}

impl Item {
    pub open spec fn view(self) -> ItemTree
        decreases self,
    {
        ItemTree {
            start: self.start,
            end: self.end,
            spread: self.spread,
            value: self.value.view(),
        }
    }
}

impl Stmt {
    pub open spec fn view(self) -> StmtTree
        decreases self,
    {
        match self {
            Stmt::Expression(e) => StmtTree::Expression(e.view()),
            Stmt::Declaration(s) => StmtTree::Declaration(declarator_trees(s@)),
            Stmt::Return(e) => StmtTree::Return(
                match e {
                    Some(x) => Some(x.view()),
                    None => None,
                },
            ),
            Stmt::Block(s) => StmtTree::Block(stmt_trees(s@)),
            Stmt::If { test, consequent, alternate } => StmtTree::If {
                test: test.view(),
                consequent: Box::new(consequent.view()),
                alternate: match alternate {
                    Some(x) => Some(Box::new(x.view())),
                    None => None,
                },
            },
            Stmt::Loop { head, body } => StmtTree::Loop {
                head: match head {
                    Some(x) => Some(x.view()),
                    None => None,
                },
                body: Box::new(body.view()),
            },
            Stmt::Try { block, handler, finalizer } => StmtTree::Try {
                block: stmt_trees(block@),
                handler: match handler {
                    Some(x) => Some(x.view()),
                    None => None,
                },
                finalizer: match finalizer {
                    Some(x) => Some(stmt_trees(x@)),
                    None => None,
                },
            },
            Stmt::Switch { discriminant, cases } => StmtTree::Switch {
                discriminant: discriminant.view(),
                cases: case_trees(cases@),
            },
            Stmt::Throw(e) => StmtTree::Throw(e.view()),
            Stmt::Other => StmtTree::Other,
        }
    }
}

impl Handler {
    pub open spec fn view(self) -> HandlerTree
        decreases self,
    {
        HandlerTree { start: self.start, body: stmt_trees(self.body@) }
    }
}

impl Declarator {
    pub open spec fn view(self) -> DeclaratorTree
        decreases self,
    {
        DeclaratorTree {
            id: self.id.view(),
            init: match self.init {
                Some(x) => Some(x.view()),
                None => None,
            },
        }
    }
}

impl Pattern {
    pub open spec fn view(self) -> PatternTree
        decreases self,
    {
        match self {
            Pattern::Name(name) => PatternTree::Name(name@),
            Pattern::Group(parts) => PatternTree::Group(part_trees(parts@)),
            Pattern::Default { target, value } => PatternTree::Default {
                target: Box::new(target.view()),
                value: value.view(),
            },
            Pattern::Hole => PatternTree::Hole,
        }
    }
}

impl Part {
    pub open spec fn view(self) -> PartTree
        decreases self,
    {
        PartTree {
            key: match self.key {
                Some(x) => Some(x.view()),
                None => None,
            },
            value: self.value.view(),
        }
    }
}

pub open spec fn expr_trees(s: Seq<Expr>) -> Seq<ExprTree>
    decreases s,
{
    Seq::new(
        s.len(),
        |i: int|
            if 0 <= i < s.len() {
                s[i].view()
            } else {
                arbitrary()
            },
    )
}

pub open spec fn item_trees(s: Seq<Item>) -> Seq<ItemTree>
    decreases s,
{
    Seq::new(
        s.len(),
        |i: int|
            if 0 <= i < s.len() {
                s[i].view()
            } else {
                arbitrary()
            },
    )
}

pub open spec fn stmt_trees(s: Seq<Stmt>) -> Seq<StmtTree>
    decreases s,
{
    Seq::new(
        s.len(),
        |i: int|
            if 0 <= i < s.len() {
                s[i].view()
            } else {
                arbitrary()
            },
    )
}

pub open spec fn declarator_trees(s: Seq<Declarator>) -> Seq<DeclaratorTree>
    decreases s,
{
    Seq::new(
        s.len(),
        |i: int|
            if 0 <= i < s.len() {
                s[i].view()
            } else {
                arbitrary()
            },
    )
}

pub open spec fn part_trees(s: Seq<Part>) -> Seq<PartTree>
    decreases s,
{
    Seq::new(
        s.len(),
        |i: int|
            if 0 <= i < s.len() {
                s[i].view()
            } else {
                arbitrary()
            },
    )
}

pub open spec fn case_trees(s: Seq<Vec<Stmt>>) -> Seq<Seq<StmtTree>>
    decreases s,
{
    Seq::new(
        s.len(),
        |i: int|
            if 0 <= i < s.len() {
                stmt_trees(s[i]@)
            } else {
                arbitrary()
            },
    )
}

impl ExprTree {
    /// How many nodes the tree has, sequences counted as one node more.
    pub open spec fn size(self) -> nat
        decreases self,
    {
        match self {
            ExprTree::Identifier(_) => 1,
            ExprTree::Text { .. } => 1,
            ExprTree::Constant => 1,
            ExprTree::Invocation => 1,
            ExprTree::Paren(e) => 1 + e.size(),
            ExprTree::TypeWrapped(e) => 1 + e.size(),
            ExprTree::Await(e) => 1 + e.size(),
            ExprTree::Unary(e) => 1 + e.size(),
            ExprTree::Assignment(e) => 1 + e.size(),
            ExprTree::Binary(a, b) => 1 + a.size() + b.size(),
            ExprTree::Logical(a, b) => 1 + a.size() + b.size(),
            ExprTree::Conditional(a, b, c) => 1 + a.size() + b.size() + c.size(),
            ExprTree::Sequence(s) => 1 + exprs_size(s),
            ExprTree::Template(s) => 1 + exprs_size(s),
            ExprTree::Array(s) => 1 + items_size(s),
            ExprTree::Object(s) => 1 + exprs_size(s),
            ExprTree::Member { object, .. } => 1 + object.size(),
            ExprTree::Element(a, b) => 1 + a.size() + b.size(),
            ExprTree::Call(c) => 1 + c.size(),
            ExprTree::ChainCall(c) => 1 + c.size(),
            ExprTree::ChainMember(e) => 1 + e.size(),
            ExprTree::ChainElement(a, b) => 1 + a.size() + b.size(),
            ExprTree::Function(body) => 1 + stmts_size(body),
            ExprTree::Other => 1,
        }
    }
}

impl CallTree {
    pub open spec fn size(self) -> nat
        decreases self,
    {
        1 + self.callee.size() + items_size(self.arguments)
    }
}

impl ItemTree {
    pub open spec fn size(self) -> nat
        decreases self,
    {
        1 + self.value.size()
    }
}

impl StmtTree {
    pub open spec fn size(self) -> nat
        decreases self,
    {
        match self {
            StmtTree::Expression(e) => 1 + e.size(),
            StmtTree::Declaration(s) => 1 + declarators_size(s),
            StmtTree::Return(e) => 1 + (match e {
                Some(x) => x.size(),
                None => 0,
            }),
            StmtTree::Block(s) => 1 + stmts_size(s),
            StmtTree::If { test, consequent, alternate } => 1 + test.size() + consequent.size() + (
            match alternate {
                Some(x) => x.size(),
                None => 0,
            }),
            StmtTree::Loop { head, body } => 1 + body.size() + (match head {
                Some(x) => x.size(),
                None => 0,
            }),
            StmtTree::Try { block, handler, finalizer } => 2 + stmts_size(block) + (match handler {
                Some(x) => x.size(),
                None => 0,
            }) + (match finalizer {
                Some(x) => stmts_size(x),
                None => 0,
            }),
            StmtTree::Switch { discriminant, cases } => 1 + discriminant.size() + cases_size(cases),
            StmtTree::Throw(e) => 1 + e.size(),
            StmtTree::Other => 1,
        }
    }
}

impl HandlerTree {
    pub open spec fn size(self) -> nat
        decreases self,
    {
        1 + stmts_size(self.body)
    }
}

impl DeclaratorTree {
    pub open spec fn size(self) -> nat
        decreases self,
    {
        1 + self.id.size() + (match self.init {
            Some(x) => x.size(),
            None => 0,
        })
    }
}

impl PatternTree {
    pub open spec fn size(self) -> nat
        decreases self,
    {
        match self {
            PatternTree::Name(_) => 1,
            PatternTree::Group(parts) => 1 + parts_size(parts),
            PatternTree::Default { target, value } => 1 + target.size() + value.size(),
            PatternTree::Hole => 1,
        }
    }
}

impl PartTree {
    pub open spec fn size(self) -> nat
        decreases self,
    {
        1 + self.value.size() + (match self.key {
            Some(x) => x.size(),
            None => 0,
        })
    }
}

pub open spec fn exprs_size(s: Seq<ExprTree>) -> nat
    decreases s,
{
    if s.len() == 0 {
        1
    } else {
        exprs_size(s.drop_last()) + s.last().size()
    }
}

pub open spec fn items_size(s: Seq<ItemTree>) -> nat
    decreases s,
{
    if s.len() == 0 {
        1
    } else {
        items_size(s.drop_last()) + s.last().size()
    }
}

pub open spec fn stmts_size(s: Seq<StmtTree>) -> nat
    decreases s,
{
    if s.len() == 0 {
        1
    } else {
        stmts_size(s.drop_last()) + s.last().size()
    }
}

pub open spec fn declarators_size(s: Seq<DeclaratorTree>) -> nat
    decreases s,
{
    if s.len() == 0 {
        1
    } else {
        declarators_size(s.drop_last()) + s.last().size()
    }
}

pub open spec fn parts_size(s: Seq<PartTree>) -> nat
    decreases s,
{
    if s.len() == 0 {
        1
    } else {
        parts_size(s.drop_last()) + s.last().size()
    }
}

pub open spec fn cases_size(s: Seq<Seq<StmtTree>>) -> nat
    decreases s,
{
    if s.len() == 0 {
        1
    } else {
        cases_size(s.drop_last()) + stmts_size(s.last())
    }
}

/// Every expression has at least one node.
pub proof fn lemma_expr_size_positive(e: ExprTree)
    ensures
        e.size() > 0,
{
}

/// Every statement has at least one node.
pub proof fn lemma_stmt_size_positive(s: StmtTree)
    ensures
        s.size() > 0,
{
}

/// A call is larger than its callee and its arguments together.
pub proof fn lemma_call_size(call: CallTree)
    ensures
        ExprTree::Call(call).size() == 2 + call.callee.size() + items_size(call.arguments),
        ExprTree::ChainCall(call).size() == 2 + call.callee.size() + items_size(call.arguments),
{
    assert(call.size() == 1 + call.callee.size() + items_size(call.arguments));
}

/// What stands in a sequence is smaller than the sequence.
pub proof fn lemma_expr_in(s: Seq<ExprTree>, i: int)
    requires
        0 <= i < s.len(),
    ensures
        s[i].size() < exprs_size(s),
    decreases s.len(),
{
    lemma_exprs_size_positive(s.drop_last());
    if i < s.len() - 1 {
        lemma_expr_in(s.drop_last(), i);
    }
}

pub proof fn lemma_exprs_size_positive(s: Seq<ExprTree>)
    ensures
        exprs_size(s) > 0,
    decreases s.len(),
{
    if s.len() > 0 {
        lemma_exprs_size_positive(s.drop_last());
    }
}

/// What stands in a sequence is smaller than the sequence.
pub proof fn lemma_item_in(s: Seq<ItemTree>, i: int)
    requires
        0 <= i < s.len(),
    ensures
        s[i].size() < items_size(s),
    decreases s.len(),
{
    lemma_items_size_positive(s.drop_last());
    if i < s.len() - 1 {
        lemma_item_in(s.drop_last(), i);
    }
}

pub proof fn lemma_items_size_positive(s: Seq<ItemTree>)
    ensures
        items_size(s) > 0,
    decreases s.len(),
{
    if s.len() > 0 {
        lemma_items_size_positive(s.drop_last());
    }
}

/// What stands in a sequence is smaller than the sequence.
pub proof fn lemma_stmt_in(s: Seq<StmtTree>, i: int)
    requires
        0 <= i < s.len(),
    ensures
        s[i].size() < stmts_size(s),
    decreases s.len(),
{
    lemma_stmts_size_positive(s.drop_last());
    if i < s.len() - 1 {
        lemma_stmt_in(s.drop_last(), i);
    }
}

pub proof fn lemma_stmts_size_positive(s: Seq<StmtTree>)
    ensures
        stmts_size(s) > 0,
    decreases s.len(),
{
    if s.len() > 0 {
        lemma_stmts_size_positive(s.drop_last());
    }
}

/// What stands in a sequence is smaller than the sequence.
pub proof fn lemma_declarator_in(s: Seq<DeclaratorTree>, i: int)
    requires
        0 <= i < s.len(),
    ensures
        s[i].size() < declarators_size(s),
    decreases s.len(),
{
    lemma_declarators_size_positive(s.drop_last());
    if i < s.len() - 1 {
        lemma_declarator_in(s.drop_last(), i);
    }
}

pub proof fn lemma_declarators_size_positive(s: Seq<DeclaratorTree>)
    ensures
        declarators_size(s) > 0,
    decreases s.len(),
{
    if s.len() > 0 {
        lemma_declarators_size_positive(s.drop_last());
    }
}

/// What stands in a sequence is smaller than the sequence.
pub proof fn lemma_part_in(s: Seq<PartTree>, i: int)
    requires
        0 <= i < s.len(),
    ensures
        s[i].size() < parts_size(s),
    decreases s.len(),
{
    lemma_parts_size_positive(s.drop_last());
    if i < s.len() - 1 {
        lemma_part_in(s.drop_last(), i);
    }
}

pub proof fn lemma_parts_size_positive(s: Seq<PartTree>)
    ensures
        parts_size(s) > 0,
    decreases s.len(),
{
    if s.len() > 0 {
        lemma_parts_size_positive(s.drop_last());
    }
}

/// The statements of a case are smaller than the cases.
pub proof fn lemma_case_in(s: Seq<Seq<StmtTree>>, i: int)
    requires
        0 <= i < s.len(),
    ensures
        stmts_size(s[i]) < cases_size(s),
    decreases s.len(),
{
    lemma_cases_size_positive(s.drop_last());
    lemma_stmts_size_positive(s.last());
    if i < s.len() - 1 {
        lemma_case_in(s.drop_last(), i);
    }
}

pub proof fn lemma_cases_size_positive(s: Seq<Seq<StmtTree>>)
    ensures
        cases_size(s) > 0,
    decreases s.len(),
{
    if s.len() > 0 {
        lemma_cases_size_positive(s.drop_last());
    }
}

} // verus!
