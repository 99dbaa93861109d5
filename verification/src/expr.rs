//! The part of a PHP expression tree that the analyzer's identifier, guard
//! and loop logic reads, with the identifiers it derives from expressions.
use vstd::prelude::*;

verus! {

/// A byte range in the analyzed file.
#[derive(Clone, Copy, PartialEq, Eq, Structural, Debug)]
pub struct Span {
    pub start: u32,
    pub end: u32,
}

/// A variable: `$name`, `${expr}` or `$$name`.
#[derive(Debug)]
pub enum Variable {
    Direct(Vec<u8>),
    Indirect,
    Nested,
}

/// The member after `->` or `::`: a name, a variable, `{expr}`, or nothing.
#[derive(Debug)]
pub enum MemberSelector {
    Identifier(Vec<u8>),
    Variable(Variable),
    Expression(Box<Expr>),
    Missing,
}

/// The constant after `::`: a name, `{expr}`, or nothing.
#[derive(Debug)]
pub enum ConstantSelector {
    Identifier(Vec<u8>),
    Expression(Box<Expr>),
    Missing,
}

#[derive(Clone, Copy, PartialEq, Eq, Structural, Debug)]
pub enum UnaryPrefixOperator {
    Not,
    PreIncrement,
    PreDecrement,
    Reference,
    /// Negation, plus, bitwise not, casts and error control.
    Other,
}

#[derive(Clone, Copy, PartialEq, Eq, Structural, Debug)]
pub enum UnaryPostfixOperator {
    PostIncrement,
    PostDecrement,
}

#[derive(Clone, Copy, PartialEq, Eq, Structural, Debug)]
pub enum BinaryOperator {
    And,
    Or,
    LowAnd,
    LowOr,
    LowXor,
    Equal,
    NotEqual,
    Identical,
    NotIdentical,
    AngledNotEqual,
    LessThan,
    LessThanOrEqual,
    GreaterThan,
    GreaterThanOrEqual,
    Instanceof,
    NullCoalesce,
    /// Arithmetic, bitwise, concatenation, spaceship and the other operators.
    Other,
}

#[derive(Debug)]
pub enum Literal {
    String(Vec<u8>),
    Integer(Vec<u8>),
    Float,
    True,
    False,
    Null,
}

/// An expression with its span.
#[derive(Debug)]
pub struct Expr {
    pub span: Span,
    pub kind: ExprKind,
}

#[derive(Debug)]
pub enum ExprKind {
    Parenthesized(Box<Expr>),
    Variable(Variable),
    Literal(Literal),
    /// A name; `resolved` is the fully qualified name it resolves to, `local`
    /// tells whether it was written without namespace qualification.
    Identifier { value: Vec<u8>, resolved: Vec<u8>, local: bool },
    Assignment { lhs: Box<Expr>, rhs: Box<Expr> },
    UnaryPrefix { operator: UnaryPrefixOperator, operand: Box<Expr> },
    UnaryPostfix { operator: UnaryPostfixOperator, operand: Box<Expr> },
    Binary { operator: BinaryOperator, lhs: Box<Expr>, rhs: Box<Expr> },
    Conditional { condition: Box<Expr>, then: Option<Box<Expr>>, otherwise: Box<Expr> },
    PropertyAccess { object: Box<Expr>, property: MemberSelector, null_safe: bool },
    StaticPropertyAccess { class: Box<Expr>, property: Variable },
    ClassConstantAccess { class: Box<Expr>, constant: ConstantSelector },
    ArrayAccess { array: Box<Expr>, index: Box<Expr> },
    MethodCall { object: Box<Expr>, method: MemberSelector, arguments: Vec<Expr>, null_safe: bool },
    StaticMethodCall { class: Box<Expr>, method: MemberSelector, arguments: Vec<Expr> },
    FunctionCall { function: Box<Expr>, arguments: Vec<Expr> },
    Isset(Vec<Expr>),
    Empty(Box<Expr>),
    SelfKeyword,
    ParentKeyword,
    StaticKeyword,
    Throw(Box<Expr>),
    /// `yield`, with its key and value when it has them.
    Yield(Vec<Expr>),
    Clone(Box<Expr>),
    /// `new class(arguments)`.
    Instantiation { class: Box<Expr>, arguments: Vec<Expr> },
    /// `object->method(...)`.
    MethodPartialApplication { object: Box<Expr>, method: MemberSelector },
    /// An array literal or `list(...)`.
    Array(Vec<ArrayElement>),
    /// A closure; its body is not part of this model.
    Closure,
    /// An arrow function; its body is not part of this model.
    ArrowFunction,
    /// Any other expression, with the expressions it holds, in order.
    Other(Vec<Expr>),
}

/// An element of an array literal or `list(...)`: its key when it has one,
/// and its value, which a skipped element (`list(, $b)`) lacks.
#[derive(Debug)]
pub struct ArrayElement {
    pub key: Option<Box<Expr>>,
    pub value: Option<Box<Expr>>,
}

pub open spec fn opt_view(o: Option<Vec<u8>>) -> Option<Seq<u8>> {
    match o {
        Some(v) => Some(v@),
        None => None,
    }
}

/// The expression inside any number of parentheses.
pub open spec fn unwrapped(e: Expr) -> Expr
    decreases e,
{
    match e.kind {
        ExprKind::Parenthesized(inner) => unwrapped(*inner),
        _ => e,
    }
}

/// How many nodes the identifier functions can visit below an expression.
pub open spec fn expr_size(e: Expr) -> nat
    decreases e,
{
    1 + match e.kind {
        ExprKind::Parenthesized(inner) => expr_size(*inner),
        ExprKind::Assignment { lhs, rhs } => expr_size(*lhs) + expr_size(*rhs),
        ExprKind::UnaryPrefix { operand, .. } => expr_size(*operand),
        ExprKind::UnaryPostfix { operand, .. } => expr_size(*operand),
        ExprKind::PropertyAccess { object, property, .. } => expr_size(*object) + selector_size(property),
        ExprKind::StaticPropertyAccess { class, .. } => expr_size(*class),
        ExprKind::ClassConstantAccess { class, constant } => expr_size(*class) + constant_selector_size(constant),
        ExprKind::ArrayAccess { array, index } => expr_size(*array) + expr_size(*index),
        ExprKind::MethodCall { object, method, .. } => expr_size(*object) + selector_size(method),
        _ => 0,
    }
}

pub open spec fn selector_size(s: MemberSelector) -> nat
    decreases s,
{
    1 + match s {
        MemberSelector::Expression(e) => expr_size(*e),
        _ => 0,
    }
}

pub open spec fn constant_selector_size(s: ConstantSelector) -> nat
    decreases s,
{
    1 + match s {
        ConstantSelector::Expression(e) => expr_size(*e),
        _ => 0,
    }
}

pub proof fn lemma_unwrapped(e: Expr)
    ensures
        expr_size(unwrapped(e)) <= expr_size(e),
        !(unwrapped(e).kind is Parenthesized),
    decreases e,
{
    if let ExprKind::Parenthesized(inner) = e.kind {
        lemma_unwrapped(*inner);
    }
}

/// Strips parentheses around an expression.
pub fn unwrap_expression(expression: &Expr) -> (inner: &Expr)
    ensures
        *inner == unwrapped(*expression),
        expr_size(*inner) <= expr_size(*expression),
        !(inner.kind is Parenthesized),
    decreases expression,
{
    proof { lemma_unwrapped(*expression); }
    match &expression.kind {
        ExprKind::Parenthesized(inner) => unwrap_expression(inner),
        _ => expression,
    }
}

pub open spec fn variable_id(variable: Variable) -> Option<Seq<u8>> {
    match variable {
        Variable::Direct(name) => Some(name@),
        _ => None,
    }
}

pub open spec fn word_self() -> Seq<u8> {
    seq![115u8, 101, 108, 102]
}

pub open spec fn word_parent() -> Seq<u8> {
    seq![112u8, 97, 114, 101, 110, 116]
}

pub open spec fn word_static() -> Seq<u8> {
    seq![115u8, 116, 97, 116, 105, 99]
}

/// `->`
pub open spec fn arrow() -> Seq<u8> {
    seq![45u8, 62]
}

/// `?->`
pub open spec fn null_safe_arrow() -> Seq<u8> {
    seq![63u8, 45, 62]
}

/// `::`
pub open spec fn double_colon() -> Seq<u8> {
    seq![58u8, 58]
}

/// The identifier of an expression. With `solve`, the class keywords
/// `parent` and `static` and plain names are resolved too.
pub open spec fn spec_extended_id(e: Expr, this: Option<Seq<u8>>, solve: bool) -> Option<Seq<u8>>
    decreases expr_size(e), 0nat,
{
    match e.kind {
        ExprKind::Parenthesized(inner) => spec_extended_id(*inner, this, solve),
        ExprKind::Assignment { lhs, .. } => spec_extended_id(*lhs, this, false),
        ExprKind::UnaryPrefix { operator: UnaryPrefixOperator::Reference, operand } => spec_extended_id(
            *operand,
            this,
            false,
        ),
        ExprKind::Variable(v) => variable_id(v),
        ExprKind::PropertyAccess { object, property, null_safe } => {
            match (spec_extended_id(*object, this, false), spec_selector_id(property, this)) {
                (Some(o), Some(p)) => Some(o + (if null_safe { null_safe_arrow() } else { arrow() }) + p),
                _ => None,
            }
        },
        ExprKind::StaticPropertyAccess { class, property } => {
            match (spec_extended_id(*class, this, true), variable_id(property)) {
                (Some(c), Some(p)) => Some(c + double_colon() + p),
                _ => None,
            }
        },
        ExprKind::ClassConstantAccess { class, constant } => {
            match (spec_extended_id(*class, this, true), spec_constant_selector_id(constant, this)) {
                (Some(c), Some(k)) => Some(c + double_colon() + k),
                _ => None,
            }
        },
        ExprKind::ArrayAccess { array, index } => {
            match (spec_extended_id(*array, this, false), spec_index_id(*index, this)) {
                (Some(a), Some(i)) => Some(a + seq![91u8] + i + seq![93u8]),
                _ => None,
            }
        },
        ExprKind::SelfKeyword => Some(this.unwrap_or(word_self())),
        ExprKind::ParentKeyword => if solve { Some(this.unwrap_or(word_parent())) } else { None },
        ExprKind::StaticKeyword => if solve { Some(this.unwrap_or(word_static())) } else { None },
        ExprKind::Identifier { resolved, .. } => if solve { Some(resolved@) } else { None },
        _ => None,
    }
}

/// The identifier of a member selector; `{expr}` selectors are braced.
pub open spec fn spec_selector_id(s: MemberSelector, this: Option<Seq<u8>>) -> Option<Seq<u8>>
    decreases selector_size(s), 1nat,
{
    match s {
        MemberSelector::Identifier(name) => Some(name@),
        MemberSelector::Variable(v) => variable_id(v),
        MemberSelector::Expression(e) => match spec_extended_id(*e, this, false) {
            Some(id) => Some(seq![123u8] + id + seq![125u8]),
            None => None,
        },
        MemberSelector::Missing => None,
    }
}

pub open spec fn spec_constant_selector_id(s: ConstantSelector, this: Option<Seq<u8>>) -> Option<Seq<u8>>
    decreases constant_selector_size(s), 1nat,
{
    match s {
        ConstantSelector::Identifier(name) => Some(name@),
        ConstantSelector::Expression(e) => match spec_extended_id(*e, this, false) {
            Some(id) => Some(seq![123u8] + id + seq![125u8]),
            None => None,
        },
        ConstantSelector::Missing => None,
    }
}

/// The identifier of an array index: a literal's source text, the index of
/// an increment, or the index expression's identifier.
pub open spec fn spec_index_id(e: Expr, this: Option<Seq<u8>>) -> Option<Seq<u8>>
    decreases expr_size(e), 1nat,
{
    match e.kind {
        ExprKind::Literal(Literal::String(raw)) => Some(raw@),
        ExprKind::Literal(Literal::Integer(raw)) => Some(raw@),
        ExprKind::UnaryPostfix { operand, .. } => spec_index_id(*operand, this),
        _ => spec_extended_id(e, this, false),
    }
}

pub open spec fn spec_expression_id(e: Expr, this: Option<Seq<u8>>) -> Option<Seq<u8>> {
    spec_extended_id(e, this, false)
}

} // verus!
