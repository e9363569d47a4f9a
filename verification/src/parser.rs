//! Parsing with oxc, and the step from oxc's tree to the trees of `syntax`.
//!
//! oxc's nodes are opaque here. Each node type has a name for the tree that a
//! node stands for (`expression_tree` and its like). The functions marked
//! `external_body` open one node: they tell which variant it is and hand out
//! its children, and their contracts say how the tree of the node is made of
//! the trees of its children. Everything else is verified.

use crate::source;
use crate::syntax;
use crate::syntax::{
    Call, CallTree, Declarator, DeclaratorTree, Expr, ExprTree, Handler, HandlerTree, Item,
    ItemTree, Part, PartTree, Pattern, PatternTree, Stmt, StmtTree,
};
use crate::text;
use oxc_allocator::Allocator;
use oxc_ast::ast::{
    Argument, ArrayExpressionElement, BindingPattern, BindingProperty, ChainElement, Expression,
    ObjectPropertyKind, Statement, SwitchCase, VariableDeclarator,
};
use oxc_parser::{Parser, ParserReturn};
use oxc_span::{GetSpan, SourceType};
use vstd::prelude::*;
use vstd::utf8::*;

verus! {

/// The deepest bracket nesting that is handed to the parser. oxc descends
/// recursively, and input nested without bound would exhaust its stack.
pub const BRACKET_DEPTH_LIMIT: usize = 500;

/// The arena that oxc allocates a syntax tree in.
#[verifier::external_type_specification]
#[verifier::external_body]
pub struct ExAllocator(oxc_allocator::Allocator);

/// The language of a file: TypeScript or JavaScript, module or script.
#[verifier::external_type_specification]
#[verifier::external_body]
pub struct ExSourceType(oxc_span::SourceType);

/// What oxc's parser returns: the program and the diagnostics.
#[verifier::external_type_specification]
#[verifier::external_body]
pub struct ExParserReturn<'a>(oxc_parser::ParserReturn<'a>);

/// oxc's expression node.
#[verifier::external_type_specification]
#[verifier::external_body]
pub struct ExExpression<'a>(oxc_ast::ast::Expression<'a>);

/// oxc's node for an argument of a call.
#[verifier::external_type_specification]
#[verifier::external_body]
pub struct ExArgument<'a>(oxc_ast::ast::Argument<'a>);

/// oxc's node for an element of an array literal.
#[verifier::external_type_specification]
#[verifier::external_body]
pub struct ExArrayExpressionElement<'a>(oxc_ast::ast::ArrayExpressionElement<'a>);

/// oxc's node for a property or spread of an object literal.
#[verifier::external_type_specification]
#[verifier::external_body]
pub struct ExObjectPropertyKind<'a>(oxc_ast::ast::ObjectPropertyKind<'a>);

/// oxc's statement node.
#[verifier::external_type_specification]
#[verifier::external_body]
pub struct ExStatement<'a>(oxc_ast::ast::Statement<'a>);

/// oxc's node for one declarator of a declaration.
#[verifier::external_type_specification]
#[verifier::external_body]
pub struct ExVariableDeclarator<'a>(oxc_ast::ast::VariableDeclarator<'a>);

/// oxc's node for one case of a `switch`.
#[verifier::external_type_specification]
#[verifier::external_body]
pub struct ExSwitchCase<'a>(oxc_ast::ast::SwitchCase<'a>);

/// oxc's binding pattern node.
#[verifier::external_type_specification]
#[verifier::external_body]
pub struct ExBindingPattern<'a>(oxc_ast::ast::BindingPattern<'a>);

/// oxc's node for one property of an object pattern.
#[verifier::external_type_specification]
#[verifier::external_body]
pub struct ExBindingProperty<'a>(oxc_ast::ast::BindingProperty<'a>);

/// The tree that an expression node stands for.
pub uninterp spec fn expression_tree(e: Expression<'_>) -> ExprTree;

/// The tree that an argument stands for.
pub uninterp spec fn argument_tree(a: Argument<'_>) -> ItemTree;

/// The tree that an array element stands for.
pub uninterp spec fn element_tree(x: ArrayExpressionElement<'_>) -> ItemTree;

/// The tree of the value of an object property, or of the operand of a spread.
pub uninterp spec fn property_tree(p: ObjectPropertyKind<'_>) -> ExprTree;

/// The tree that a statement node stands for.
pub uninterp spec fn statement_tree(s: Statement<'_>) -> StmtTree;

/// The tree that a declarator stands for.
pub uninterp spec fn declarator_tree(d: VariableDeclarator<'_>) -> DeclaratorTree;

/// The trees of the statements of a case.
pub uninterp spec fn case_tree(c: SwitchCase<'_>) -> Seq<StmtTree>;

/// The tree that a binding pattern stands for.
pub uninterp spec fn pattern_tree(p: BindingPattern<'_>) -> PatternTree;

/// The tree that a property of an object pattern stands for.
pub uninterp spec fn part_tree(p: BindingProperty<'_>) -> PartTree;

pub open spec fn expression_trees(s: Seq<Expression<'_>>) -> Seq<ExprTree> {
    Seq::new(s.len(), |i: int| expression_tree(s[i]))
}

pub open spec fn argument_trees(s: Seq<Argument<'_>>) -> Seq<ItemTree> {
    Seq::new(s.len(), |i: int| argument_tree(s[i]))
}

pub open spec fn element_trees(s: Seq<ArrayExpressionElement<'_>>) -> Seq<ItemTree> {
    Seq::new(s.len(), |i: int| element_tree(s[i]))
}

pub open spec fn property_trees(s: Seq<ObjectPropertyKind<'_>>) -> Seq<ExprTree> {
    Seq::new(s.len(), |i: int| property_tree(s[i]))
}

pub open spec fn statement_trees(s: Seq<Statement<'_>>) -> Seq<StmtTree> {
    Seq::new(s.len(), |i: int| statement_tree(s[i]))
}

pub open spec fn declared_trees(s: Seq<VariableDeclarator<'_>>) -> Seq<DeclaratorTree> {
    Seq::new(s.len(), |i: int| declarator_tree(s[i]))
}

pub open spec fn alternative_trees(s: Seq<SwitchCase<'_>>) -> Seq<Seq<StmtTree>> {
    Seq::new(s.len(), |i: int| case_tree(s[i]))
}

pub open spec fn object_parts(s: Seq<BindingProperty<'_>>) -> Seq<PartTree> {
    Seq::new(s.len(), |i: int| part_tree(s[i]))
}

pub open spec fn array_parts(s: Seq<Option<BindingPattern<'_>>>) -> Seq<PartTree> {
    Seq::new(s.len(), |i: int| element_part(s[i]))
}

/// An element of an array pattern, which may be a hole.
pub open spec fn element_part(p: Option<BindingPattern<'_>>) -> PartTree {
    PartTree {
        key: None,
        value: match p {
            Some(x) => pattern_tree(x),
            None => PatternTree::Hole,
        },
    }
}

/// The rest element of a pattern, if it has one.
pub open spec fn rest_parts(rest: Option<&BindingPattern<'_>>) -> Seq<PartTree> {
    match rest {
        Some(p) => seq![PartTree { key: None, value: pattern_tree(*p) }],
        None => seq![],
    }
}

pub open spec fn optional_expression_tree(e: Option<&Expression<'_>>) -> Option<ExprTree> {
    match e {
        Some(x) => Some(expression_tree(*x)),
        None => None,
    }
}

pub open spec fn optional_statement_tree(s: Option<&Statement<'_>>) -> Option<Box<StmtTree>> {
    match s {
        Some(x) => Some(Box::new(statement_tree(*x))),
        None => None,
    }
}

/// Reads an `Expression` without children: an identifier, a string, boolean,
/// numeric or null literal, a `new` expression or a tagged template. Of the
/// last two nothing inside is kept.
#[verifier::external_body]
fn leaf(e: &Expression<'_>) -> (r: Option<Expr>)
    ensures
        match r {
            Some(x) => expression_tree(*e) == x.view(),
            None => {
                &&& !(expression_tree(*e) is Identifier)
                &&& !(expression_tree(*e) is Text)
                &&& !(expression_tree(*e) is Constant)
                &&& !(expression_tree(*e) is Invocation)
            },
        },
{
    match e {
        Expression::Identifier(x) => Some(Expr::Identifier(x.name.to_string())),
        Expression::StringLiteral(x) => {
            Some(Expr::Text { value: x.value.to_string(), start: x.span.start })
        },
        Expression::BooleanLiteral(_) => Some(Expr::Constant),
        Expression::NumericLiteral(_) => Some(Expr::Constant),
        Expression::NullLiteral(_) => Some(Expr::Constant),
        Expression::NewExpression(_) => Some(Expr::Invocation),
        Expression::TaggedTemplateExpression(_) => Some(Expr::Invocation),
        _ => None,
    }
}

/// What stands around a single operand.
#[derive(Clone, Copy)]
enum Wrapping {
    Paren,
    TypeWrapped,
    Await,
    Unary,
    Assignment,
    ChainMember,
}

impl Wrapping {
    spec fn around(self, inner: ExprTree) -> ExprTree {
        match self {
            Wrapping::Paren => ExprTree::Paren(Box::new(inner)),
            Wrapping::TypeWrapped => ExprTree::TypeWrapped(Box::new(inner)),
            Wrapping::Await => ExprTree::Await(Box::new(inner)),
            Wrapping::Unary => ExprTree::Unary(Box::new(inner)),
            Wrapping::Assignment => ExprTree::Assignment(Box::new(inner)),
            Wrapping::ChainMember => ExprTree::ChainMember(Box::new(inner)),
        }
    }

    fn wrap(self, inner: Expr) -> (r: Expr)
        ensures
            r.view() == self.around(inner.view()),
    {
        match self {
            Wrapping::Paren => Expr::Paren(Box::new(inner)),
            Wrapping::TypeWrapped => Expr::TypeWrapped(Box::new(inner)),
            Wrapping::Await => Expr::Await(Box::new(inner)),
            Wrapping::Unary => Expr::Unary(Box::new(inner)),
            Wrapping::Assignment => Expr::Assignment(Box::new(inner)),
            Wrapping::ChainMember => Expr::ChainMember(Box::new(inner)),
        }
    }
}

/// Opens an `Expression` with one operand: parentheses, `as`, `satisfies`,
/// `!`, `<T>`, `await`, a unary operator, or an assignment, of which the
/// operand is the right-hand side.
#[verifier::external_body]
fn wrapped<'a>(e: &'a Expression<'a>) -> (r: Option<(Wrapping, &'a Expression<'a>)>)
    ensures
        match r {
            Some((wrapping, inner)) => expression_tree(*e) == wrapping.around(
                expression_tree(*inner),
            ),
            None => {
                &&& !(expression_tree(*e) is Paren)
                &&& !(expression_tree(*e) is TypeWrapped)
                &&& !(expression_tree(*e) is Await)
                &&& !(expression_tree(*e) is Unary)
                &&& !(expression_tree(*e) is Assignment)
            },
        },
{
    match e {
        Expression::ParenthesizedExpression(x) => Some((Wrapping::Paren, &x.expression)),
        Expression::TSAsExpression(x) => Some((Wrapping::TypeWrapped, &x.expression)),
        Expression::TSSatisfiesExpression(x) => Some((Wrapping::TypeWrapped, &x.expression)),
        Expression::TSNonNullExpression(x) => Some((Wrapping::TypeWrapped, &x.expression)),
        Expression::TSTypeAssertion(x) => Some((Wrapping::TypeWrapped, &x.expression)),
        Expression::AwaitExpression(x) => Some((Wrapping::Await, &x.argument)),
        Expression::UnaryExpression(x) => Some((Wrapping::Unary, &x.argument)),
        Expression::AssignmentExpression(x) => Some((Wrapping::Assignment, &x.right)),
        _ => None,
    }
}

/// What stands between two operands.
#[derive(Clone, Copy)]
enum Pairing {
    Binary,
    Logical,
    Element,
    ChainElement,
}

impl Pairing {
    spec fn of(self, a: ExprTree, b: ExprTree) -> ExprTree {
        match self {
            Pairing::Binary => ExprTree::Binary(Box::new(a), Box::new(b)),
            Pairing::Logical => ExprTree::Logical(Box::new(a), Box::new(b)),
            Pairing::Element => ExprTree::Element(Box::new(a), Box::new(b)),
            Pairing::ChainElement => ExprTree::ChainElement(Box::new(a), Box::new(b)),
        }
    }

    fn join(self, a: Expr, b: Expr) -> (r: Expr)
        ensures
            r.view() == self.of(a.view(), b.view()),
    {
        match self {
            Pairing::Binary => Expr::Binary(Box::new(a), Box::new(b)),
            Pairing::Logical => Expr::Logical(Box::new(a), Box::new(b)),
            Pairing::Element => Expr::Element(Box::new(a), Box::new(b)),
            Pairing::ChainElement => Expr::ChainElement(Box::new(a), Box::new(b)),
        }
    }
}

/// Opens an `Expression` with two operands: a binary or logical operator, or
/// a computed member access with its object and index.
#[verifier::external_body]
fn pair<'a>(e: &'a Expression<'a>) -> (r: Option<
    (Pairing, &'a Expression<'a>, &'a Expression<'a>),
>)
    ensures
        match r {
            Some((pairing, a, b)) => expression_tree(*e) == pairing.of(
                expression_tree(*a),
                expression_tree(*b),
            ),
            None => {
                &&& !(expression_tree(*e) is Binary)
                &&& !(expression_tree(*e) is Logical)
                &&& !(expression_tree(*e) is Element)
            },
        },
{
    match e {
        Expression::BinaryExpression(x) => Some((Pairing::Binary, &x.left, &x.right)),
        Expression::LogicalExpression(x) => Some((Pairing::Logical, &x.left, &x.right)),
        Expression::ComputedMemberExpression(x) => {
            Some((Pairing::Element, &x.object, &x.expression))
        },
        _ => None,
    }
}

/// Opens a `ConditionalExpression`: test, consequent and alternate.
#[verifier::external_body]
fn conditional<'a>(e: &'a Expression<'a>) -> (r: Option<
    (&'a Expression<'a>, &'a Expression<'a>, &'a Expression<'a>),
>)
    ensures
        match r {
            Some((a, b, c)) => expression_tree(*e) == ExprTree::Conditional(
                Box::new(expression_tree(*a)),
                Box::new(expression_tree(*b)),
                Box::new(expression_tree(*c)),
            ),
            None => !(expression_tree(*e) is Conditional),
        },
{
    match e {
        Expression::ConditionalExpression(x) => Some((&x.test, &x.consequent, &x.alternate)),
        _ => None,
    }
}

/// Opens a `StaticMemberExpression`: its object and the name of its property.
#[verifier::external_body]
fn member<'a>(e: &'a Expression<'a>) -> (r: Option<(&'a Expression<'a>, String)>)
    ensures
        match r {
            Some((object, property)) => expression_tree(*e) == (ExprTree::Member {
                object: Box::new(expression_tree(*object)),
                property: property@,
            }),
            None => !(expression_tree(*e) is Member),
        },
{
    match e {
        Expression::StaticMemberExpression(x) => Some((&x.object, x.property.name.to_string())),
        _ => None,
    }
}

/// Opens a `SequenceExpression`: its expressions.
#[verifier::external_body]
fn sequence<'a>(e: &'a Expression<'a>) -> (r: Option<&'a [Expression<'a>]>)
    ensures
        match r {
            Some(s) => expression_tree(*e) == ExprTree::Sequence(expression_trees(s@)),
            None => !(expression_tree(*e) is Sequence),
        },
{
    match e {
        Expression::SequenceExpression(x) => Some(&x.expressions),
        _ => None,
    }
}

/// Opens a `TemplateLiteral`: the expressions that it interpolates.
#[verifier::external_body]
fn template<'a>(e: &'a Expression<'a>) -> (r: Option<&'a [Expression<'a>]>)
    ensures
        match r {
            Some(s) => expression_tree(*e) == ExprTree::Template(expression_trees(s@)),
            None => !(expression_tree(*e) is Template),
        },
{
    match e {
        Expression::TemplateLiteral(x) => Some(&x.expressions),
        _ => None,
    }
}

/// Opens an `ObjectExpression`: its properties and spreads.
#[verifier::external_body]
fn object<'a>(e: &'a Expression<'a>) -> (r: Option<&'a [ObjectPropertyKind<'a>]>)
    ensures
        match r {
            Some(s) => expression_tree(*e) == ExprTree::Object(property_trees(s@)),
            None => !(expression_tree(*e) is Object),
        },
{
    match e {
        Expression::ObjectExpression(x) => Some(&x.properties),
        _ => None,
    }
}

/// The value of a property or the operand of a spread of an object literal.
#[verifier::external_body]
fn property_value<'a>(p: &'a ObjectPropertyKind<'a>) -> (r: &'a Expression<'a>)
    ensures
        property_tree(*p) == expression_tree(*r),
{
    match p {
        ObjectPropertyKind::ObjectProperty(x) => &x.value,
        ObjectPropertyKind::SpreadProperty(x) => &x.argument,
    }
}

/// Opens an `ArrayExpression`: its elements.
#[verifier::external_body]
fn array<'a>(e: &'a Expression<'a>) -> (r: Option<&'a [ArrayExpressionElement<'a>]>)
    ensures
        match r {
            Some(s) => expression_tree(*e) == ExprTree::Array(element_trees(s@)),
            None => !(expression_tree(*e) is Array),
        },
{
    match e {
        Expression::ArrayExpression(x) => Some(&x.elements),
        _ => None,
    }
}

/// Opens an element of an array literal: its span, whether it is a spread, and
/// its expression (`as_expression`), which a hole does not have.
#[verifier::external_body]
fn element<'a>(x: &'a ArrayExpressionElement<'a>) -> (r: (
    u32,
    u32,
    bool,
    Option<&'a Expression<'a>>,
))
    ensures
        element_tree(*x) == (ItemTree {
            start: r.0,
            end: r.1,
            spread: r.2,
            value: match r.3 {
                Some(e) => expression_tree(*e),
                None => ExprTree::Other,
            },
        }),
{
    match x {
        ArrayExpressionElement::SpreadElement(s) => {
            (s.span.start, s.span.end, true, Some(&s.argument))
        },
        _ => (x.span().start, x.span().end, false, x.as_expression()),
    }
}

/// Opens a `CallExpression`: its start, its callee and its arguments.
#[verifier::external_body]
fn call<'a>(e: &'a Expression<'a>) -> (r: Option<
    (u32, &'a Expression<'a>, &'a [Argument<'a>]),
>)
    ensures
        match r {
            Some((start, callee, arguments)) => expression_tree(*e) == ExprTree::Call(
                CallTree {
                    start,
                    callee: Box::new(expression_tree(*callee)),
                    arguments: argument_trees(arguments@),
                },
            ),
            None => !(expression_tree(*e) is Call),
        },
{
    match e {
        Expression::CallExpression(x) => Some((x.span.start, &x.callee, &x.arguments)),
        _ => None,
    }
}

/// Opens an argument: its span, whether it is a spread, and its expression
/// (`to_expression`, which every argument but a spread converts to).
#[verifier::external_body]
fn argument<'a>(a: &'a Argument<'a>) -> (r: (u32, u32, bool, &'a Expression<'a>))
    ensures
        argument_tree(*a) == (ItemTree {
            start: r.0,
            end: r.1,
            spread: r.2,
            value: expression_tree(*r.3),
        }),
{
    match a {
        Argument::SpreadElement(s) => (s.span.start, s.span.end, true, &s.argument),
        _ => (a.span().start, a.span().end, false, a.to_expression()),
    }
}

/// What an optional chain ends in.
enum Link<'a> {
    Call(u32, &'a Expression<'a>, &'a [Argument<'a>]),
    Member(&'a Expression<'a>),
    Element(&'a Expression<'a>, &'a Expression<'a>),
}

impl<'a> Link<'a> {
    spec fn tree(self) -> ExprTree {
        match self {
            Link::Call(start, callee, arguments) => ExprTree::ChainCall(
                CallTree {
                    start,
                    callee: Box::new(expression_tree(*callee)),
                    arguments: argument_trees(arguments@),
                },
            ),
            Link::Member(object) => ExprTree::ChainMember(Box::new(expression_tree(*object))),
            Link::Element(object, index) => ExprTree::ChainElement(
                Box::new(expression_tree(*object)),
                Box::new(expression_tree(*index)),
            ),
        }
    }
}

/// Opens a `ChainExpression`: what the chain ends in, and its parts.
#[verifier::external_body]
fn chain<'a>(e: &'a Expression<'a>) -> (r: Option<Link<'a>>)
    ensures
        match r {
            Some(link) => expression_tree(*e) == link.tree(),
            None => {
                &&& !(expression_tree(*e) is ChainCall)
                &&& !(expression_tree(*e) is ChainMember)
                &&& !(expression_tree(*e) is ChainElement)
            },
        },
{
    let Expression::ChainExpression(c) = e else {
        return None;
    };
    Some(
        match &c.expression {
            ChainElement::CallExpression(x) => Link::Call(x.span.start, &x.callee, &x.arguments),
            ChainElement::TSNonNullExpression(x) => Link::Member(&x.expression),
            ChainElement::StaticMemberExpression(x) => Link::Member(&x.object),
            ChainElement::PrivateFieldExpression(x) => Link::Member(&x.object),
            ChainElement::ComputedMemberExpression(x) => Link::Element(&x.object, &x.expression),
        },
    )
}

/// Opens an arrow function, or a function expression that has a body: the
/// statements of its body. The body of `() => e` is one expression statement.
#[verifier::external_body]
fn function<'a>(e: &'a Expression<'a>) -> (r: Option<&'a [Statement<'a>]>)
    ensures
        match r {
            Some(s) => expression_tree(*e) == ExprTree::Function(statement_trees(s@)),
            None => !(expression_tree(*e) is Function),
        },
{
    match e {
        Expression::ArrowFunctionExpression(x) => Some(&x.body.statements),
        Expression::FunctionExpression(x) => x.body.as_deref().map(|b| &b.statements[..]),
        _ => None,
    }
}

/// A statement that holds one expression or one block.
enum Simple<'a> {
    Expression(&'a Expression<'a>),
    Return(Option<&'a Expression<'a>>),
    Throw(&'a Expression<'a>),
    Block(&'a [Statement<'a>]),
}

impl<'a> Simple<'a> {
    spec fn tree(self) -> StmtTree {
        match self {
            Simple::Expression(e) => StmtTree::Expression(expression_tree(*e)),
            Simple::Return(e) => StmtTree::Return(optional_expression_tree(e)),
            Simple::Throw(e) => StmtTree::Throw(expression_tree(*e)),
            Simple::Block(s) => StmtTree::Block(statement_trees(s@)),
        }
    }
}

/// Opens an expression statement, a `return`, a `throw` or a block.
#[verifier::external_body]
fn simple<'a>(s: &'a Statement<'a>) -> (r: Option<Simple<'a>>)
    ensures
        match r {
            Some(x) => statement_tree(*s) == x.tree(),
            None => {
                &&& !(statement_tree(*s) is Expression)
                &&& !(statement_tree(*s) is Return)
                &&& !(statement_tree(*s) is Throw)
                &&& !(statement_tree(*s) is Block)
            },
        },
{
    match s {
        Statement::ExpressionStatement(x) => Some(Simple::Expression(&x.expression)),
        Statement::ReturnStatement(x) => Some(Simple::Return(x.argument.as_ref())),
        Statement::ThrowStatement(x) => Some(Simple::Throw(&x.argument)),
        Statement::BlockStatement(x) => Some(Simple::Block(&x.body)),
        _ => None,
    }
}

/// Opens a `VariableDeclaration`: its declarators.
#[verifier::external_body]
fn declaration<'a>(s: &'a Statement<'a>) -> (r: Option<&'a [VariableDeclarator<'a>]>)
    ensures
        match r {
            Some(d) => statement_tree(*s) == StmtTree::Declaration(declared_trees(d@)),
            None => !(statement_tree(*s) is Declaration),
        },
{
    match s {
        Statement::VariableDeclaration(x) => Some(&x.declarations),
        _ => None,
    }
}

/// Opens a declarator: its pattern and its initial value.
#[verifier::external_body]
fn declarator<'a>(d: &'a VariableDeclarator<'a>) -> (r: (
    &'a BindingPattern<'a>,
    Option<&'a Expression<'a>>,
))
    ensures
        declarator_tree(*d) == (DeclaratorTree {
            id: pattern_tree(*r.0),
            init: optional_expression_tree(r.1),
        }),
{
    (&d.id, d.init.as_ref())
}

/// Opens an `IfStatement`: test, consequent and alternate.
#[verifier::external_body]
fn branch<'a>(s: &'a Statement<'a>) -> (r: Option<
    (&'a Expression<'a>, &'a Statement<'a>, Option<&'a Statement<'a>>),
>)
    ensures
        match r {
            Some((test, consequent, alternate)) => statement_tree(*s) == (StmtTree::If {
                test: expression_tree(*test),
                consequent: Box::new(statement_tree(*consequent)),
                alternate: optional_statement_tree(alternate),
            }),
            None => !(statement_tree(*s) is If),
        },
{
    match s {
        Statement::IfStatement(x) => Some((&x.test, &x.consequent, x.alternate.as_ref())),
        _ => None,
    }
}

/// Opens a loop: the condition of a `for`, `while` or `do` loop, or what a
/// `for-in` or `for-of` loop walks, and the body.
#[verifier::external_body]
fn repetition<'a>(s: &'a Statement<'a>) -> (r: Option<
    (Option<&'a Expression<'a>>, &'a Statement<'a>),
>)
    ensures
        match r {
            Some((head, body)) => statement_tree(*s) == (StmtTree::Loop {
                head: optional_expression_tree(head),
                body: Box::new(statement_tree(*body)),
            }),
            None => !(statement_tree(*s) is Loop),
        },
{
    match s {
        Statement::ForStatement(x) => Some((x.test.as_ref(), &x.body)),
        Statement::ForInStatement(x) => Some((Some(&x.right), &x.body)),
        Statement::ForOfStatement(x) => Some((Some(&x.right), &x.body)),
        Statement::WhileStatement(x) => Some((Some(&x.test), &x.body)),
        Statement::DoWhileStatement(x) => Some((Some(&x.test), &x.body)),
        _ => None,
    }
}

spec fn caught_tree(h: Option<(u32, &[Statement<'_>])>) -> Option<HandlerTree> {
    match h {
        Some((start, body)) => Some(HandlerTree { start, body: statement_trees(body@) }),
        None => None,
    }
}

spec fn final_tree(f: Option<&[Statement<'_>]>) -> Option<Seq<StmtTree>> {
    match f {
        Some(body) => Some(statement_trees(body@)),
        None => None,
    }
}

/// Opens a `TryStatement`: the statements of its block, the start and the
/// statements of its handler, and the statements of its finalizer.
#[verifier::external_body]
fn attempt<'a>(s: &'a Statement<'a>) -> (r: Option<
    (&'a [Statement<'a>], Option<(u32, &'a [Statement<'a>])>, Option<&'a [Statement<'a>]>),
>)
    ensures
        match r {
            Some((block, handler, finalizer)) => statement_tree(*s) == (StmtTree::Try {
                block: statement_trees(block@),
                handler: caught_tree(handler),
                finalizer: final_tree(finalizer),
            }),
            None => !(statement_tree(*s) is Try),
        },
{
    match s {
        Statement::TryStatement(x) => {
            let handler = x.handler.as_ref().map(|h| (h.span.start, &h.body.body[..]));
            Some((&x.block.body, handler, x.finalizer.as_ref().map(|f| &f.body[..])))
        },
        _ => None,
    }
}

/// Opens a `SwitchStatement`: its discriminant and its cases.
#[verifier::external_body]
fn selection<'a>(s: &'a Statement<'a>) -> (r: Option<(&'a Expression<'a>, &'a [SwitchCase<'a>])>)
    ensures
        match r {
            Some((discriminant, cases)) => statement_tree(*s) == (StmtTree::Switch {
                discriminant: expression_tree(*discriminant),
                cases: alternative_trees(cases@),
            }),
            None => !(statement_tree(*s) is Switch),
        },
{
    match s {
        Statement::SwitchStatement(x) => Some((&x.discriminant, &x.cases)),
        _ => None,
    }
}

/// The statements of a case.
#[verifier::external_body]
fn case_body<'a>(c: &'a SwitchCase<'a>) -> (r: &'a [Statement<'a>])
    ensures
        case_tree(*c) == statement_trees(r@),
{
    &c.consequent
}

/// A binding pattern and its parts.
enum Binding<'a> {
    Name(String),
    Object(&'a [BindingProperty<'a>], Option<&'a BindingPattern<'a>>),
    Array(&'a [Option<BindingPattern<'a>>], Option<&'a BindingPattern<'a>>),
    Default(&'a BindingPattern<'a>, &'a Expression<'a>),
}

impl<'a> Binding<'a> {
    spec fn tree(self) -> PatternTree {
        match self {
            Binding::Name(name) => PatternTree::Name(name@),
            Binding::Object(properties, rest) => PatternTree::Group(
                object_parts(properties@) + rest_parts(rest),
            ),
            Binding::Array(elements, rest) => PatternTree::Group(
                array_parts(elements@) + rest_parts(rest),
            ),
            Binding::Default(target, value) => PatternTree::Default {
                target: Box::new(pattern_tree(*target)),
                value: expression_tree(*value),
            },
        }
    }
}

/// Opens a `BindingPattern` of any of its four kinds.
#[verifier::external_body]
fn binding<'a>(p: &'a BindingPattern<'a>) -> (r: Binding<'a>)
    ensures
        pattern_tree(*p) == r.tree(),
{
    match p {
        BindingPattern::BindingIdentifier(x) => Binding::Name(x.name.to_string()),
        BindingPattern::ObjectPattern(x) => {
            Binding::Object(&x.properties, x.rest.as_ref().map(|y| &y.argument))
        },
        BindingPattern::ArrayPattern(x) => {
            Binding::Array(&x.elements, x.rest.as_ref().map(|y| &y.argument))
        },
        BindingPattern::AssignmentPattern(x) => Binding::Default(&x.left, &x.right),
    }
}

/// Opens a property of an object pattern: whether it is computed, its key as
/// an expression (`as_expression`), and its value. The key of a property that
/// is not computed is a name and is not kept.
#[verifier::external_body]
fn binding_property<'a>(p: &'a BindingProperty<'a>) -> (r: (
    bool,
    Option<&'a Expression<'a>>,
    &'a BindingPattern<'a>,
))
    ensures
        part_tree(*p) == (PartTree {
            key: if r.0 {
                optional_expression_tree(r.1)
            } else {
                None
            },
            value: pattern_tree(*r.2),
        }),
{
    (p.computed, p.key.as_expression(), &p.value)
}

/// What the wrappers say of a node: each operator is the tree of that
/// operator, with all of its operands in their places.
proof fn law_operators_keep_their_operands(a: ExprTree, b: ExprTree)
    ensures
        Wrapping::Paren.around(a) == ExprTree::Paren(Box::new(a)),
        Wrapping::TypeWrapped.around(a) == ExprTree::TypeWrapped(Box::new(a)),
        Wrapping::Await.around(a) == ExprTree::Await(Box::new(a)),
        Wrapping::Unary.around(a) == ExprTree::Unary(Box::new(a)),
        Wrapping::Assignment.around(a) == ExprTree::Assignment(Box::new(a)),
        Wrapping::ChainMember.around(a) == ExprTree::ChainMember(Box::new(a)),
        Pairing::Binary.of(a, b) == ExprTree::Binary(Box::new(a), Box::new(b)),
        Pairing::Logical.of(a, b) == ExprTree::Logical(Box::new(a), Box::new(b)),
        Pairing::Element.of(a, b) == ExprTree::Element(Box::new(a), Box::new(b)),
        Pairing::ChainElement.of(a, b) == ExprTree::ChainElement(Box::new(a), Box::new(b)),
{
}

/// The end of an optional chain keeps what stands before it, and a call all of
/// its arguments.
proof fn law_chains_keep_their_links(
    start: u32,
    callee: &Expression<'_>,
    index: &Expression<'_>,
    arguments: &[Argument<'_>],
    i: int,
)
    ensures
        Link::Call(start, callee, arguments).tree() matches ExprTree::ChainCall(call) && call.start
            == start && *call.callee == expression_tree(*callee) && call.arguments.len()
            == arguments@.len() && (0 <= i < arguments@.len() ==> call.arguments[i]
            == argument_tree(arguments@[i])),
        Link::Member(callee).tree() == ExprTree::ChainMember(Box::new(expression_tree(*callee))),
        Link::Element(callee, index).tree() == ExprTree::ChainElement(
            Box::new(expression_tree(*callee)),
            Box::new(expression_tree(*index)),
        ),
{
}

/// A statement keeps its expression or all of its statements.
proof fn law_simple_statements_keep_what_they_hold(
    e: &Expression<'_>,
    s: &[Statement<'_>],
    start: u32,
    i: int,
)
    ensures
        Simple::Expression(e).tree() == StmtTree::Expression(expression_tree(*e)),
        Simple::Return(Some(e)).tree() == StmtTree::Return(Some(expression_tree(*e))),
        Simple::Return(None).tree() == StmtTree::Return(None),
        Simple::Throw(e).tree() == StmtTree::Throw(expression_tree(*e)),
        Simple::Block(s).tree() matches StmtTree::Block(trees) && trees.len() == s@.len() && (0 <= i
            < s@.len() ==> trees[i] == statement_tree(s@[i])),
        caught_tree(Some((start, s))) matches Some(handler) && handler.start == start
            && handler.body == statement_trees(s@),
        caught_tree(None) is None,
        final_tree(Some(s)) == Some(statement_trees(s@)),
        final_tree(None) is None,
{
}

/// A binding pattern keeps all of its parts, its rest element last, and a
/// default both the pattern and the value.
proof fn law_patterns_keep_their_parts(
    properties: &[BindingProperty<'_>],
    elements: &[Option<BindingPattern<'_>>],
    rest: &BindingPattern<'_>,
    value: &Expression<'_>,
    name: String,
    i: int,
)
    ensures
        Binding::Name(name).tree() == PatternTree::Name(name@),
        Binding::Default(rest, value).tree() == (PatternTree::Default {
            target: Box::new(pattern_tree(*rest)),
            value: expression_tree(*value),
        }),
        Binding::Object(properties, None).tree() matches PatternTree::Group(parts) && parts.len()
            == properties@.len() && (0 <= i < properties@.len() ==> parts[i] == part_tree(
            properties@[i],
        )),
        Binding::Object(properties, Some(rest)).tree() matches PatternTree::Group(parts)
            && parts.len() == properties@.len() + 1 && parts.last().value == pattern_tree(*rest)
            && (0 <= i < properties@.len() ==> parts[i] == part_tree(properties@[i])),
        Binding::Array(elements, None).tree() matches PatternTree::Group(parts) && parts.len()
            == elements@.len() && (0 <= i < elements@.len() ==> parts[i].key is None && (
        match elements@[i] {
            Some(p) => parts[i].value == pattern_tree(p),
            None => parts[i].value is Hole,
        })),
        Binding::Array(elements, Some(rest)).tree() matches PatternTree::Group(parts) && parts.len()
            == elements@.len() + 1 && parts.last().value == pattern_tree(*rest) && (0 <= i
            < elements@.len() ==> parts[i] == element_part(elements@[i])),
{
}

/// What oxc makes of a source text.
pub ghost struct Parsed {
    /// The diagnostics, each as a line of text.
    pub diagnostics: Seq<Seq<char>>,
    /// The statements of the program.
    pub statements: Seq<StmtTree>,
}

/// The language that `SourceType::from_path` finds for a path.
pub uninterp spec fn language_of(path: Seq<char>) -> Option<SourceType>;

/// What `Parser::parse` makes of a source text in a language.
pub uninterp spec fn parsed(source: Seq<char>, language: SourceType) -> Parsed;

/// What a `ParserReturn` holds.
pub uninterp spec fn contents(r: ParserReturn<'_>) -> Parsed;

/// `Allocator::default` makes an empty arena.
#[verifier::external_body]
fn new_allocator() -> Allocator {
    Allocator::default()
}

/// `SourceType::from_path` finds the language of a file from the extension of
/// its name; it knows the extension `ts`, among others.
#[verifier::external_body]
fn language_from_path(path: &str) -> (r: Option<SourceType>)
    ensures
        r == language_of(path@),
        path@ == "test.ts"@ ==> r is Some,
{
    SourceType::from_path(path).ok()
}

/// `Parser::parse` parses a source text. It descends recursively, so the
/// bracket nesting of the text must be bounded. Chains of right-associative
/// operators have no brackets: how long they may be depends on the stack of
/// the thread, and nothing is said of it here.
#[verifier::external_body]
fn parse<'a>(allocator: &'a Allocator, source: &'a str, language: SourceType) -> (r: ParserReturn<
    'a,
>)
    requires
        source::bracket_depth(encode_utf8(source@)) <= BRACKET_DEPTH_LIMIT,
    ensures
        contents(r) == parsed(source@, language),
{
    Parser::new(allocator, source, language).parse()
}

/// How many diagnostics a `ParserReturn` holds.
#[verifier::external_body]
fn diagnostic_count(r: &ParserReturn<'_>) -> (n: usize)
    ensures
        n == contents(*r).diagnostics.len(),
{
    r.diagnostics.len()
}

/// A diagnostic of a `ParserReturn`, as `Display` renders it.
#[verifier::external_body]
fn diagnostic(r: &ParserReturn<'_>, i: usize) -> (d: String)
    requires
        i < contents(*r).diagnostics.len(),
    ensures
        d@ == contents(*r).diagnostics[i as int],
{
    r.diagnostics[i].to_string()
}

/// The statements of the program of a `ParserReturn`.
#[verifier::external_body]
fn statements<'b, 'a>(r: &'b ParserReturn<'a>) -> (s: &'b [Statement<'a>])
    ensures
        statement_trees(s@) == contents(*r).statements,
{
    &r.program.body
}

fn build_exprs<'a>(s: &'a [Expression<'a>]) -> (r: Vec<Expr>)
    ensures
        syntax::expr_trees(r@) == expression_trees(s@),
    decreases syntax::exprs_size(expression_trees(s@)), 0nat,
{
    let ghost trees = expression_trees(s@);
    let mut out: Vec<Expr> = Vec::new();
    let mut i: usize = 0;
    while i < s.len()
        invariant
            0 <= i <= s@.len(),
            trees == expression_trees(s@),
            out@.len() == i,
            forall|j: int| 0 <= j < i ==> (#[trigger] out@[j]).view() == trees[j],
        decreases s@.len() - i,
    {
        proof {
            syntax::lemma_expr_in(trees, i as int);
        }
        out.push(build_expr(&s[i]));
        i += 1;
    }
    assert(syntax::expr_trees(out@) =~= trees);
    out
}

fn build_arguments<'a>(s: &'a [Argument<'a>]) -> (r: Vec<Item>)
    ensures
        syntax::item_trees(r@) == argument_trees(s@),
    decreases syntax::items_size(argument_trees(s@)), 0nat,
{
    let ghost trees = argument_trees(s@);
    let mut out: Vec<Item> = Vec::new();
    let mut i: usize = 0;
    while i < s.len()
        invariant
            0 <= i <= s@.len(),
            trees == argument_trees(s@),
            out@.len() == i,
            forall|j: int| 0 <= j < i ==> (#[trigger] out@[j]).view() == trees[j],
        decreases s@.len() - i,
    {
        proof {
            syntax::lemma_item_in(trees, i as int);
        }
        let (start, end, spread, value) = argument(&s[i]);
        out.push(Item { start, end, spread, value: build_expr(value) });
        i += 1;
    }
    assert(syntax::item_trees(out@) =~= trees);
    out
}

fn build_elements<'a>(s: &'a [ArrayExpressionElement<'a>]) -> (r: Vec<Item>)
    ensures
        syntax::item_trees(r@) == element_trees(s@),
    decreases syntax::items_size(element_trees(s@)), 0nat,
{
    let ghost trees = element_trees(s@);
    let mut out: Vec<Item> = Vec::new();
    let mut i: usize = 0;
    while i < s.len()
        invariant
            0 <= i <= s@.len(),
            trees == element_trees(s@),
            out@.len() == i,
            forall|j: int| 0 <= j < i ==> (#[trigger] out@[j]).view() == trees[j],
        decreases s@.len() - i,
    {
        proof {
            syntax::lemma_item_in(trees, i as int);
        }
        let (start, end, spread, inner) = element(&s[i]);
        let value: Expr = match inner {
            Some(e) => build_expr(e),
            None => Expr::Other,
        };
        out.push(Item { start, end, spread, value });
        i += 1;
    }
    assert(syntax::item_trees(out@) =~= trees);
    out
}

fn build_properties<'a>(s: &'a [ObjectPropertyKind<'a>]) -> (r: Vec<Expr>)
    ensures
        syntax::expr_trees(r@) == property_trees(s@),
    decreases syntax::exprs_size(property_trees(s@)), 0nat,
{
    let ghost trees = property_trees(s@);
    let mut out: Vec<Expr> = Vec::new();
    let mut i: usize = 0;
    while i < s.len()
        invariant
            0 <= i <= s@.len(),
            trees == property_trees(s@),
            out@.len() == i,
            forall|j: int| 0 <= j < i ==> (#[trigger] out@[j]).view() == trees[j],
        decreases s@.len() - i,
    {
        proof {
            syntax::lemma_expr_in(trees, i as int);
        }
        out.push(build_expr(property_value(&s[i])));
        i += 1;
    }
    assert(syntax::expr_trees(out@) =~= trees);
    out
}

/// An expression of which all is built but one operand, and what else is not
/// built yet. Chains of operators have no brackets that would bound their
/// length, so what stands around the node in hand is kept in a list of frames,
/// not on the stack.
enum Frame<'a> {
    Operand(Wrapping),
    /// The first operand is missing; the second is not built.
    First(Pairing, &'a Expression<'a>),
    /// The second operand is missing.
    Second(Pairing, Expr),
    Object(String),
    Test(&'a Expression<'a>, &'a Expression<'a>),
    Consequent(Expr, &'a Expression<'a>),
    Alternate(Expr, Expr),
    /// The callee is missing, of a call that ends an optional chain or not.
    Callee(bool, u32, &'a [Argument<'a>]),
    /// The only statement of a function is the missing expression.
    Body,
}

impl<'a> Frame<'a> {
    /// The tree of the expression, given that of the missing operand.
    spec fn fill(self, hole: ExprTree) -> ExprTree {
        match self {
            Frame::Operand(wrapping) => wrapping.around(hole),
            Frame::First(pairing, b) => pairing.of(hole, expression_tree(*b)),
            Frame::Second(pairing, a) => pairing.of(a.view(), hole),
            Frame::Object(property) => ExprTree::Member {
                object: Box::new(hole),
                property: property@,
            },
            Frame::Test(b, c) => ExprTree::Conditional(
                Box::new(hole),
                Box::new(expression_tree(*b)),
                Box::new(expression_tree(*c)),
            ),
            Frame::Consequent(a, c) => ExprTree::Conditional(
                Box::new(a.view()),
                Box::new(hole),
                Box::new(expression_tree(*c)),
            ),
            Frame::Alternate(a, b) => ExprTree::Conditional(
                Box::new(a.view()),
                Box::new(b.view()),
                Box::new(hole),
            ),
            Frame::Callee(chained, start, arguments) => {
                let call = CallTree {
                    start,
                    callee: Box::new(hole),
                    arguments: argument_trees(arguments@),
                };
                if chained {
                    ExprTree::ChainCall(call)
                } else {
                    ExprTree::Call(call)
                }
            },
            Frame::Body => ExprTree::Function(seq![StmtTree::Expression(hole)]),
        }
    }

    /// The size of what is not built yet, the missing operand aside.
    spec fn pending(self) -> nat {
        match self {
            Frame::First(_, b) => expression_tree(*b).size(),
            Frame::Test(b, c) => expression_tree(*b).size() + expression_tree(*c).size(),
            Frame::Consequent(_, c) => expression_tree(*c).size(),
            Frame::Callee(_, _, arguments) => syntax::items_size(argument_trees(arguments@)),
            _ => 0,
        }
    }
}

/// The tree that comes out when `hole` is put into the last frame, the result
/// into the frame before it, and so on.
spec fn filled(frames: Seq<Frame<'_>>, hole: ExprTree) -> ExprTree
    decreases frames.len(),
{
    if frames.len() == 0 {
        hole
    } else {
        filled(frames.drop_last(), frames.last().fill(hole))
    }
}

spec fn all_pending(frames: Seq<Frame<'_>>) -> nat
    decreases frames.len(),
{
    if frames.len() == 0 {
        0
    } else {
        all_pending(frames.drop_last()) + frames.last().pending()
    }
}

/// The expression in hand: still a node of oxc, or built.
enum Focus<'a> {
    Node(&'a Expression<'a>),
    Built(Expr),
}

impl<'a> Focus<'a> {
    spec fn tree(self) -> ExprTree {
        match self {
            Focus::Node(e) => expression_tree(*e),
            Focus::Built(x) => x.view(),
        }
    }

    spec fn pending(self) -> nat {
        match self {
            Focus::Node(e) => expression_tree(*e).size(),
            Focus::Built(_) => 0,
        }
    }
}

/// Turns to the first operand of an expression and a frame around it. What has
/// no such operand is built at once.
fn open_expr<'a>(e: &'a Expression<'a>) -> (r: (Option<Frame<'a>>, Focus<'a>))
    ensures
        match r.0 {
            Some(frame) => {
                &&& frame.fill(r.1.tree()) == expression_tree(*e)
                &&& r.1 is Node
                &&& frame.pending() + r.1.pending() < expression_tree(*e).size()
            },
            None => r.1 is Built && r.1.tree() == expression_tree(*e),
        },
    decreases expression_tree(*e).size(), 1nat,
{
    if let Some(x) = leaf(e) {
        return (None, Focus::Built(x));
    }
    if let Some((wrapping, inner)) = wrapped(e) {
        return (Some(Frame::Operand(wrapping)), Focus::Node(inner));
    }
    if let Some((pairing, a, b)) = pair(e) {
        return (Some(Frame::First(pairing, b)), Focus::Node(a));
    }
    if let Some((object, property)) = member(e) {
        return (Some(Frame::Object(property)), Focus::Node(object));
    }
    if let Some((start, callee, arguments)) = call(e) {
        proof {
            syntax::lemma_call_size(expression_tree(*e)->Call_0);
        }
        return (Some(Frame::Callee(false, start, arguments)), Focus::Node(callee));
    }
    if let Some((test, consequent, alternate)) = conditional(e) {
        return (Some(Frame::Test(consequent, alternate)), Focus::Node(test));
    }
    if let Some(body) = function(e) {
        return open_function(e, body);
    }
    if let Some(s) = object(e) {
        return (None, Focus::Built(Expr::Object(build_properties(s))));
    }
    if let Some(s) = array(e) {
        return (None, Focus::Built(Expr::Array(build_elements(s))));
    }
    if let Some(s) = sequence(e) {
        return (None, Focus::Built(Expr::Sequence(build_exprs(s))));
    }
    if let Some(s) = template(e) {
        return (None, Focus::Built(Expr::Template(build_exprs(s))));
    }
    match chain(e) {
        Some(Link::Call(start, callee, arguments)) => {
            proof {
                syntax::lemma_call_size(expression_tree(*e)->ChainCall_0);
            }
            (Some(Frame::Callee(true, start, arguments)), Focus::Node(callee))
        },
        Some(Link::Member(object)) => {
            (Some(Frame::Operand(Wrapping::ChainMember)), Focus::Node(object))
        },
        Some(Link::Element(object, index)) => {
            (Some(Frame::First(Pairing::ChainElement, index)), Focus::Node(object))
        },
        None => (None, Focus::Built(Expr::Other)),
    }
}

/// A function whose body is one expression, as that of `a => b => c` is, is
/// taken for its operand. Any other body is built at once.
fn open_function<'a>(e: &'a Expression<'a>, body: &'a [Statement<'a>]) -> (r: (
    Option<Frame<'a>>,
    Focus<'a>,
))
    requires
        expression_tree(*e) == ExprTree::Function(statement_trees(body@)),
    ensures
        match r.0 {
            Some(frame) => {
                &&& frame.fill(r.1.tree()) == expression_tree(*e)
                &&& r.1 is Node
                &&& frame.pending() + r.1.pending() < expression_tree(*e).size()
            },
            None => r.1 is Built && r.1.tree() == expression_tree(*e),
        },
    decreases syntax::stmts_size(statement_trees(body@)), 1nat,
{
    if body.len() == 1 {
        if let Some(Simple::Expression(inner)) = simple(&body[0]) {
            proof {
                let trees = statement_trees(body@);
                assert(trees =~= seq![StmtTree::Expression(expression_tree(*inner))]);
                syntax::lemma_stmt_in(trees, 0);
            }
            return (Some(Frame::Body), Focus::Node(inner));
        }
    }
    (None, Focus::Built(Expr::Function(build_stmts(body))))
}

/// Puts the missing operand into a frame: the expression is built, or the next
/// operand is turned to.
fn close_expr<'a>(frame: Frame<'a>, built: Expr) -> (r: (Option<Frame<'a>>, Focus<'a>))
    ensures
        match r.0 {
            Some(next) => {
                &&& next.fill(r.1.tree()) == frame.fill(built.view())
                &&& r.1 is Node
                &&& next.pending() + r.1.pending() == frame.pending()
            },
            None => r.1 is Built && r.1.tree() == frame.fill(built.view()),
        },
    decreases frame.pending(), 1nat,
{
    match frame {
        Frame::Operand(wrapping) => (None, Focus::Built(wrapping.wrap(built))),
        Frame::First(pairing, b) => (Some(Frame::Second(pairing, built)), Focus::Node(b)),
        Frame::Second(pairing, a) => (None, Focus::Built(pairing.join(a, built))),
        Frame::Object(property) => {
            (None, Focus::Built(Expr::Member { object: Box::new(built), property }))
        },
        Frame::Test(b, c) => (Some(Frame::Consequent(built, c)), Focus::Node(b)),
        Frame::Consequent(a, c) => (Some(Frame::Alternate(a, built)), Focus::Node(c)),
        Frame::Alternate(a, b) => (
            None,
            Focus::Built(Expr::Conditional(Box::new(a), Box::new(b), Box::new(built))),
        ),
        Frame::Callee(chained, start, arguments) => {
            let call: Call = Call {
                start,
                callee: Box::new(built),
                arguments: build_arguments(arguments),
            };
            assert(call.view() == (CallTree {
                start,
                callee: Box::new(built.view()),
                arguments: argument_trees(arguments@),
            }));
            if chained {
                (None, Focus::Built(Expr::ChainCall(call)))
            } else {
                (None, Focus::Built(Expr::Call(call)))
            }
        },
        Frame::Body => {
            let mut body: Vec<Stmt> = Vec::new();
            body.push(Stmt::Expression(built));
            assert(body@[0].view() == StmtTree::Expression(built.view()));
            assert(syntax::stmt_trees(body@) =~= seq![StmtTree::Expression(built.view())]);
            (None, Focus::Built(Expr::Function(body)))
        },
    }
}

/// The expression that a node of oxc stands for.
fn build_expr<'a>(e: &'a Expression<'a>) -> (r: Expr)
    ensures
        r.view() == expression_tree(*e),
    decreases expression_tree(*e).size(), 2nat,
{
    let mut frames: Vec<Frame<'a>> = Vec::new();
    let mut focus: Focus<'a> = Focus::Node(e);
    loop
        invariant
            filled(frames@, focus.tree()) == expression_tree(*e),
            all_pending(frames@) + focus.pending() <= expression_tree(*e).size(),
        decreases
                3 * (all_pending(frames@) + focus.pending()) + frames@.len() + (if focus is Built {
                    1int
                } else {
                    0int
                }),
    {
        let ghost before = frames@;
        let (next, turned): (Option<Frame<'a>>, Focus<'a>) = match focus {
            Focus::Node(node) => {
                proof {
                    syntax::lemma_expr_size_positive(expression_tree(*node));
                }
                open_expr(node)
            },
            Focus::Built(built) => match frames.pop() {
                Some(frame) => close_expr(frame, built),
                None => {
                    return built;
                },
            },
        };
        focus = turned;
        if let Some(frame) = next {
            frames.push(frame);
            assert(frames@.drop_last() =~= if before.len() == frames@.len() {
                before.drop_last()
            } else {
                before
            });
        }
    }
}

fn build_optional_expr<'a>(e: Option<&'a Expression<'a>>) -> (r: Option<Expr>)
    ensures
        match r {
            Some(x) => optional_expression_tree(e) == Some(x.view()),
            None => optional_expression_tree(e) is None,
        },
    decreases
            (match e {
                Some(x) => expression_tree(*x).size(),
                None => 0,
            }),
            3nat,
{
    match e {
        Some(x) => Some(build_expr(x)),
        None => None,
    }
}

fn build_stmts<'a>(s: &'a [Statement<'a>]) -> (r: Vec<Stmt>)
    ensures
        syntax::stmt_trees(r@) == statement_trees(s@),
    decreases syntax::stmts_size(statement_trees(s@)), 0nat,
{
    let ghost trees = statement_trees(s@);
    let mut out: Vec<Stmt> = Vec::new();
    let mut i: usize = 0;
    while i < s.len()
        invariant
            0 <= i <= s@.len(),
            trees == statement_trees(s@),
            out@.len() == i,
            forall|j: int| 0 <= j < i ==> (#[trigger] out@[j]).view() == trees[j],
        decreases s@.len() - i,
    {
        proof {
            syntax::lemma_stmt_in(trees, i as int);
        }
        out.push(build_stmt(&s[i]));
        i += 1;
    }
    assert(syntax::stmt_trees(out@) =~= trees);
    out
}

fn build_cases<'a>(s: &'a [SwitchCase<'a>]) -> (r: Vec<Vec<Stmt>>)
    ensures
        syntax::case_trees(r@) == alternative_trees(s@),
    decreases syntax::cases_size(alternative_trees(s@)), 0nat,
{
    let ghost trees = alternative_trees(s@);
    let mut out: Vec<Vec<Stmt>> = Vec::new();
    let mut i: usize = 0;
    while i < s.len()
        invariant
            0 <= i <= s@.len(),
            trees == alternative_trees(s@),
            out@.len() == i,
            forall|j: int| 0 <= j < i ==> syntax::stmt_trees((#[trigger] out@[j])@) == trees[j],
        decreases s@.len() - i,
    {
        proof {
            syntax::lemma_case_in(trees, i as int);
        }
        out.push(build_stmts(case_body(&s[i])));
        i += 1;
    }
    assert(syntax::case_trees(out@) =~= trees);
    out
}

fn build_declarators<'a>(s: &'a [VariableDeclarator<'a>]) -> (r: Vec<Declarator>)
    ensures
        syntax::declarator_trees(r@) == declared_trees(s@),
    decreases syntax::declarators_size(declared_trees(s@)), 0nat,
{
    let ghost trees = declared_trees(s@);
    let mut out: Vec<Declarator> = Vec::new();
    let mut i: usize = 0;
    while i < s.len()
        invariant
            0 <= i <= s@.len(),
            trees == declared_trees(s@),
            out@.len() == i,
            forall|j: int| 0 <= j < i ==> (#[trigger] out@[j]).view() == trees[j],
        decreases s@.len() - i,
    {
        proof {
            syntax::lemma_declarator_in(trees, i as int);
        }
        let (pattern, value) = declarator(&s[i]);
        let id: Pattern = build_pattern(pattern);
        let init: Option<Expr> = build_optional_expr(value);
        out.push(Declarator { id, init });
        i += 1;
    }
    assert(syntax::declarator_trees(out@) =~= trees);
    out
}

/// Appends the rest element of a pattern.
fn push_rest<'a>(rest: Option<&'a BindingPattern<'a>>, parts: &mut Vec<Part>)
    ensures
        syntax::part_trees(final(parts)@) == syntax::part_trees(old(parts)@) + rest_parts(rest),
    decreases syntax::parts_size(rest_parts(rest)), 0nat,
{
    if let Some(p) = rest {
        proof {
            syntax::lemma_part_in(rest_parts(rest), 0);
        }
        parts.push(Part { key: None, value: build_pattern(p) });
    }
    assert(syntax::part_trees(parts@) =~= syntax::part_trees(old(parts)@) + rest_parts(rest));
}

fn build_object_parts<'a>(s: &'a [BindingProperty<'a>]) -> (r: Vec<Part>)
    ensures
        syntax::part_trees(r@) == object_parts(s@),
    decreases syntax::parts_size(object_parts(s@)), 0nat,
{
    let ghost trees = object_parts(s@);
    let mut out: Vec<Part> = Vec::new();
    let mut i: usize = 0;
    while i < s.len()
        invariant
            0 <= i <= s@.len(),
            trees == object_parts(s@),
            out@.len() == i,
            forall|j: int| 0 <= j < i ==> (#[trigger] out@[j]).view() == trees[j],
        decreases s@.len() - i,
    {
        proof {
            syntax::lemma_part_in(trees, i as int);
        }
        let (computed, name, pattern) = binding_property(&s[i]);
        let key: Option<Expr> = if computed {
            build_optional_expr(name)
        } else {
            None
        };
        let value: Pattern = build_pattern(pattern);
        out.push(Part { key, value });
        i += 1;
    }
    assert(syntax::part_trees(out@) =~= trees);
    out
}

fn build_array_parts<'a>(s: &'a [Option<BindingPattern<'a>>]) -> (r: Vec<Part>)
    ensures
        syntax::part_trees(r@) == array_parts(s@),
    decreases syntax::parts_size(array_parts(s@)), 0nat,
{
    let ghost trees = array_parts(s@);
    let mut out: Vec<Part> = Vec::new();
    let mut i: usize = 0;
    while i < s.len()
        invariant
            0 <= i <= s@.len(),
            trees == array_parts(s@),
            out@.len() == i,
            forall|j: int| 0 <= j < i ==> (#[trigger] out@[j]).view() == trees[j],
        decreases s@.len() - i,
    {
        proof {
            syntax::lemma_part_in(trees, i as int);
        }
        let value: Pattern = match &s[i] {
            Some(pattern) => build_pattern(pattern),
            None => Pattern::Hole,
        };
        out.push(Part { key: None, value });
        i += 1;
    }
    assert(syntax::part_trees(out@) =~= trees);
    out
}

proof fn lemma_parts_size_concat(a: Seq<PartTree>, b: Seq<PartTree>)
    ensures
        syntax::parts_size(a + b) + 1 == syntax::parts_size(a) + syntax::parts_size(b),
    decreases b.len(),
{
    if b.len() == 0 {
        assert(a + b =~= a);
    } else {
        assert((a + b).drop_last() =~= a + b.drop_last());
        lemma_parts_size_concat(a, b.drop_last());
    }
}

/// The pattern that a node of oxc stands for.
fn build_pattern<'a>(p: &'a BindingPattern<'a>) -> (r: Pattern)
    ensures
        r.view() == pattern_tree(*p),
    decreases pattern_tree(*p).size(), 0nat,
{
    match binding(p) {
        Binding::Name(name) => Pattern::Name(name),
        Binding::Object(properties, rest) => {
            proof {
                let head = object_parts(properties@);
                lemma_parts_size_concat(head, rest_parts(rest));
                syntax::lemma_parts_size_positive(head);
                syntax::lemma_parts_size_positive(rest_parts(rest));
            }
            let mut parts: Vec<Part> = build_object_parts(properties);
            push_rest(rest, &mut parts);
            Pattern::Group(parts)
        },
        Binding::Array(elements, rest) => {
            proof {
                let head = array_parts(elements@);
                lemma_parts_size_concat(head, rest_parts(rest));
                syntax::lemma_parts_size_positive(head);
                syntax::lemma_parts_size_positive(rest_parts(rest));
            }
            let mut parts: Vec<Part> = build_array_parts(elements);
            push_rest(rest, &mut parts);
            Pattern::Group(parts)
        },
        Binding::Default(target, value) => {
            let target: Box<Pattern> = Box::new(build_pattern(target));
            let value: Expr = build_expr(value);
            Pattern::Default { target, value }
        },
    }
}

/// A statement of which all is built but one statement inside it, and what
/// else is not built yet. As with expressions, `else if` chains and loops whose
/// body is a loop have no brackets that would bound their length.
enum StmtFrame<'a> {
    Consequent(Expr, Option<&'a Statement<'a>>),
    Alternate(Expr, Stmt),
    LoopBody(Option<Expr>),
}

impl<'a> StmtFrame<'a> {
    /// The tree of the statement, given that of the missing one.
    spec fn fill(self, hole: StmtTree) -> StmtTree {
        match self {
            StmtFrame::Consequent(test, alternate) => StmtTree::If {
                test: test.view(),
                consequent: Box::new(hole),
                alternate: optional_statement_tree(alternate),
            },
            StmtFrame::Alternate(test, consequent) => StmtTree::If {
                test: test.view(),
                consequent: Box::new(consequent.view()),
                alternate: Some(Box::new(hole)),
            },
            StmtFrame::LoopBody(head) => StmtTree::Loop {
                head: match head {
                    Some(x) => Some(x.view()),
                    None => None,
                },
                body: Box::new(hole),
            },
        }
    }

    /// The size of what is not built yet, the missing statement aside.
    spec fn pending(self) -> nat {
        match self {
            StmtFrame::Consequent(_, Some(s)) => statement_tree(*s).size(),
            _ => 0,
        }
    }
}

/// The tree that comes out when `hole` is put into the last frame, the result
/// into the frame before it, and so on.
spec fn stmt_filled(frames: Seq<StmtFrame<'_>>, hole: StmtTree) -> StmtTree
    decreases frames.len(),
{
    if frames.len() == 0 {
        hole
    } else {
        stmt_filled(frames.drop_last(), frames.last().fill(hole))
    }
}

spec fn all_stmts_pending(frames: Seq<StmtFrame<'_>>) -> nat
    decreases frames.len(),
{
    if frames.len() == 0 {
        0
    } else {
        all_stmts_pending(frames.drop_last()) + frames.last().pending()
    }
}

/// The statement in hand: still a node of oxc, or built.
enum StmtFocus<'a> {
    Node(&'a Statement<'a>),
    Built(Stmt),
}

impl<'a> StmtFocus<'a> {
    spec fn tree(self) -> StmtTree {
        match self {
            StmtFocus::Node(s) => statement_tree(*s),
            StmtFocus::Built(x) => x.view(),
        }
    }

    spec fn pending(self) -> nat {
        match self {
            StmtFocus::Node(s) => statement_tree(*s).size(),
            StmtFocus::Built(_) => 0,
        }
    }
}

/// Turns to the consequent of a branch or the body of a loop and a frame
/// around it. Any other statement is built at once.
fn open_stmt<'a>(s: &'a Statement<'a>) -> (r: (Option<StmtFrame<'a>>, StmtFocus<'a>))
    ensures
        match r.0 {
            Some(frame) => {
                &&& frame.fill(r.1.tree()) == statement_tree(*s)
                &&& r.1 is Node
                &&& frame.pending() + r.1.pending() < statement_tree(*s).size()
            },
            None => r.1 is Built && r.1.tree() == statement_tree(*s),
        },
    decreases statement_tree(*s).size(), 0nat,
{
    if let Some(x) = simple(s) {
        let built: Stmt = match x {
            Simple::Expression(e) => Stmt::Expression(build_expr(e)),
            Simple::Return(e) => Stmt::Return(build_optional_expr(e)),
            Simple::Throw(e) => Stmt::Throw(build_expr(e)),
            Simple::Block(body) => Stmt::Block(build_stmts(body)),
        };
        return (None, StmtFocus::Built(built));
    }
    if let Some(d) = declaration(s) {
        return (None, StmtFocus::Built(Stmt::Declaration(build_declarators(d))));
    }
    if let Some((condition, yes, no)) = branch(s) {
        return (Some(StmtFrame::Consequent(build_expr(condition), no)), StmtFocus::Node(yes));
    }
    if let Some((condition, inner)) = repetition(s) {
        let head: Option<Expr> = build_optional_expr(condition);
        return (Some(StmtFrame::LoopBody(head)), StmtFocus::Node(inner));
    }
    if let Some((tried, caught, last)) = attempt(s) {
        let block: Vec<Stmt> = build_stmts(tried);
        let handler: Option<Handler> = match caught {
            Some((start, body)) => {
                let ghost tree = HandlerTree { start, body: statement_trees(body@) };
                assert(tree.size() == 1 + syntax::stmts_size(tree.body));
                let handler: Handler = Handler { start, body: build_stmts(body) };
                assert(handler.view() == tree);
                Some(handler)
            },
            None => None,
        };
        let finalizer: Option<Vec<Stmt>> = match last {
            Some(body) => Some(build_stmts(body)),
            None => None,
        };
        return (None, StmtFocus::Built(Stmt::Try { block, handler, finalizer }));
    }
    if let Some((value, choices)) = selection(s) {
        let discriminant: Expr = build_expr(value);
        let cases: Vec<Vec<Stmt>> = build_cases(choices);
        return (None, StmtFocus::Built(Stmt::Switch { discriminant, cases }));
    }
    (None, StmtFocus::Built(Stmt::Other))
}

/// Puts the missing statement into a frame: the statement around it is built,
/// or its alternate is turned to.
fn close_stmt<'a>(frame: StmtFrame<'a>, built: Stmt) -> (r: (
    Option<StmtFrame<'a>>,
    StmtFocus<'a>,
))
    ensures
        match r.0 {
            Some(next) => {
                &&& next.fill(r.1.tree()) == frame.fill(built.view())
                &&& r.1 is Node
                &&& next.pending() + r.1.pending() == frame.pending()
            },
            None => r.1 is Built && r.1.tree() == frame.fill(built.view()),
        },
{
    match frame {
        StmtFrame::Consequent(test, Some(s)) => {
            (Some(StmtFrame::Alternate(test, built)), StmtFocus::Node(s))
        },
        StmtFrame::Consequent(test, None) => {
            let consequent: Box<Stmt> = Box::new(built);
            (None, StmtFocus::Built(Stmt::If { test, consequent, alternate: None }))
        },
        StmtFrame::Alternate(test, first) => {
            let consequent: Box<Stmt> = Box::new(first);
            let alternate: Option<Box<Stmt>> = Some(Box::new(built));
            (None, StmtFocus::Built(Stmt::If { test, consequent, alternate }))
        },
        StmtFrame::LoopBody(head) => {
            (None, StmtFocus::Built(Stmt::Loop { head, body: Box::new(built) }))
        },
    }
}

/// The statement that a node of oxc stands for.
fn build_stmt<'a>(s: &'a Statement<'a>) -> (r: Stmt)
    ensures
        r.view() == statement_tree(*s),
    decreases statement_tree(*s).size(), 1nat,
{
    let mut frames: Vec<StmtFrame<'a>> = Vec::new();
    let mut focus: StmtFocus<'a> = StmtFocus::Node(s);
    loop
        invariant
            stmt_filled(frames@, focus.tree()) == statement_tree(*s),
            all_stmts_pending(frames@) + focus.pending() <= statement_tree(*s).size(),
        decreases
                3 * (all_stmts_pending(frames@) + focus.pending()) + frames@.len() + (if focus is Built {
                    1int
                } else {
                    0int
                }),
    {
        let ghost before = frames@;
        let (next, turned): (Option<StmtFrame<'a>>, StmtFocus<'a>) = match focus {
            StmtFocus::Node(node) => {
                proof {
                    syntax::lemma_stmt_size_positive(statement_tree(*node));
                }
                open_stmt(node)
            },
            StmtFocus::Built(built) => match frames.pop() {
                Some(frame) => close_stmt(frame, built),
                None => {
                    return built;
                },
            },
        };
        focus = turned;
        if let Some(frame) = next {
            frames.push(frame);
            assert(frames@.drop_last() =~= if before.len() == frames@.len() {
                before.drop_last()
            } else {
                before
            });
        }
    }
}

fn diagnostic_texts(r: &ParserReturn<'_>) -> (d: Vec<String>)
    ensures
        text::views(d@) == contents(*r).diagnostics,
{
    let n: usize = diagnostic_count(r);
    let mut out: Vec<String> = Vec::new();
    let mut i: usize = 0;
    while i < n
        invariant
            0 <= i <= n,
            n == contents(*r).diagnostics.len(),
            out@.len() == i,
            forall|j: int| 0 <= j < i ==> (#[trigger] out@[j])@ == contents(*r).diagnostics[j],
        decreases n - i,
    {
        out.push(diagnostic(r, i));
        i += 1;
    }
    assert(text::views(out@) =~= contents(*r).diagnostics);
    out
}

/// The language of a file: what its path says, or else TypeScript.
pub open spec fn language(path: Seq<char>) -> SourceType {
    match language_of(path) {
        Some(x) => x,
        None => language_of("test.ts"@)->0,
    }
}

/// Parses a source text. The statements of the program, or the diagnostics
/// where there are any.
pub fn parse_program(source: &str, path: &str) -> (r: Result<Vec<Stmt>, Vec<String>>)
    requires
        source::bracket_depth(encode_utf8(source@)) <= BRACKET_DEPTH_LIMIT,
    ensures
        match r {
            Ok(program) => {
                &&& parsed(source@, language(path@)).diagnostics.len() == 0
                &&& syntax::stmt_trees(program@) == parsed(source@, language(path@)).statements
            },
            Err(messages) => {
                &&& messages@.len() > 0
                &&& text::views(messages@) == parsed(source@, language(path@)).diagnostics
            },
        },
{
    let allocator: Allocator = new_allocator();
    let language: SourceType = match language_from_path(path) {
        Some(x) => x,
        None => language_from_path("test.ts").unwrap(),
    };
    let parsed: ParserReturn<'_> = parse(&allocator, source, language);
    if diagnostic_count(&parsed) > 0 {
        return Err(diagnostic_texts(&parsed));
    }
    let program: Vec<Stmt> = build_stmts(statements(&parsed));
    Ok(program)
}

} // verus!
