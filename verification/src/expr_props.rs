//! Syntactic properties of expressions and the identifiers of called functions.
use vstd::prelude::*;
use crate::expr::{unwrap_expression, unwrapped, BinaryOperator, Expr, ExprKind, MemberSelector, Span, UnaryPostfixOperator, UnaryPrefixOperator};
use crate::expr_id::bytes_of;

verus! {

impl BinaryOperator {
    pub open spec fn spec_is_equality(self) -> bool {
        self is Equal || self is NotEqual || self is Identical || self is NotIdentical || self is AngledNotEqual
    }

    pub open spec fn spec_is_logical(self) -> bool {
        self is And || self is Or || self is LowAnd || self is LowOr || self is LowXor
    }

    /// `==`, `!=`, `===`, `!==` and `<>`.
    pub fn is_equality(&self) -> (r: bool)
        ensures
            r == self.spec_is_equality(),
    {
        matches!(
            self,
            BinaryOperator::Equal | BinaryOperator::NotEqual | BinaryOperator::Identical | BinaryOperator::NotIdentical
                | BinaryOperator::AngledNotEqual
        )
    }

    /// `&&`, `||`, `and`, `or` and `xor`.
    pub fn is_logical(&self) -> (r: bool)
        ensures
            r == self.spec_is_logical(),
    {
        matches!(
            self,
            BinaryOperator::And | BinaryOperator::Or | BinaryOperator::LowAnd | BinaryOperator::LowOr
                | BinaryOperator::LowXor
        )
    }
}

/// Whether evaluating the expression can change state: assignments, throws,
/// yields, clones, increments, decrements and references, anywhere in an
/// operator tree.
pub open spec fn spec_has_observable_side_effect(e: Expr) -> bool
    decreases e,
{
    match e.kind {
        ExprKind::Parenthesized(inner) => spec_has_observable_side_effect(*inner),
        ExprKind::Assignment { .. } | ExprKind::Throw(..) | ExprKind::Yield(..) | ExprKind::Clone(..) => true,
        ExprKind::UnaryPrefix { operator, operand } => operator is PreIncrement || operator is PreDecrement
            || operator is Reference || spec_has_observable_side_effect(*operand),
        ExprKind::UnaryPostfix { operator, .. } => operator is PostIncrement || operator is PostDecrement,
        ExprKind::Binary { lhs, rhs, .. } => spec_has_observable_side_effect(*lhs) || spec_has_observable_side_effect(*rhs),
        ExprKind::Conditional { condition, then, otherwise } => (match then {
            Some(t) => spec_has_observable_side_effect(*t),
            None => false,
        }) || spec_has_observable_side_effect(*otherwise) || spec_has_observable_side_effect(*condition),
        _ => false,
    }
}

pub fn expression_has_observable_side_effect(expression: &Expr) -> (r: bool)
    ensures
        r == spec_has_observable_side_effect(*expression),
    decreases expression,
{
    match &expression.kind {
        ExprKind::Parenthesized(inner) => expression_has_observable_side_effect(inner),
        ExprKind::Assignment { .. } | ExprKind::Throw(..) | ExprKind::Yield(..) | ExprKind::Clone(..) => true,
        ExprKind::UnaryPrefix { operator, operand } => {
            matches!(
                operator,
                UnaryPrefixOperator::PreIncrement | UnaryPrefixOperator::PreDecrement | UnaryPrefixOperator::Reference
            ) || expression_has_observable_side_effect(operand)
        },
        ExprKind::UnaryPostfix { operator, .. } => {
            matches!(operator, UnaryPostfixOperator::PostIncrement | UnaryPostfixOperator::PostDecrement)
        },
        ExprKind::Binary { lhs, rhs, .. } => {
            expression_has_observable_side_effect(lhs) || expression_has_observable_side_effect(rhs)
        },
        ExprKind::Conditional { condition, then, otherwise } => {
            (match then {
                Some(t) => expression_has_observable_side_effect(t),
                None => false,
            }) || expression_has_observable_side_effect(otherwise) || expression_has_observable_side_effect(condition)
        },
        _ => false,
    }
}

/// Whether a `?->` appears along the access chain of the expression.
pub open spec fn spec_is_nullsafe(e: Expr) -> bool
    decreases e,
{
    match e.kind {
        ExprKind::ArrayAccess { array, .. } => spec_is_nullsafe(*array),
        ExprKind::MethodCall { object, null_safe, .. } => null_safe || spec_is_nullsafe(*object),
        ExprKind::StaticMethodCall { class, .. } => spec_is_nullsafe(*class),
        ExprKind::PropertyAccess { object, null_safe, .. } => null_safe || spec_is_nullsafe(*object),
        ExprKind::StaticPropertyAccess { class, .. } => spec_is_nullsafe(*class),
        ExprKind::Parenthesized(inner) => spec_is_nullsafe(*inner),
        _ => false,
    }
}

pub fn expression_is_nullsafe(expression: &Expr) -> (r: bool)
    ensures
        r == spec_is_nullsafe(*expression),
    decreases expression,
{
    match &expression.kind {
        ExprKind::ArrayAccess { array, .. } => expression_is_nullsafe(array),
        ExprKind::MethodCall { object, null_safe, .. } => {
            if *null_safe {
                true
            } else {
                expression_is_nullsafe(object)
            }
        },
        ExprKind::StaticMethodCall { class, .. } => expression_is_nullsafe(class),
        ExprKind::PropertyAccess { object, null_safe, .. } => {
            if *null_safe {
                true
            } else {
                expression_is_nullsafe(object)
            }
        },
        ExprKind::StaticPropertyAccess { class, .. } => expression_is_nullsafe(class),
        ExprKind::Parenthesized(inner) => expression_is_nullsafe(inner),
        _ => false,
    }
}

/// Whether the expression, without its parentheses, is an `instanceof`, an
/// equality, a logical operation or a `??`.
pub open spec fn spec_has_logic(e: Expr) -> bool {
    match unwrapped(e).kind {
        ExprKind::Binary { operator, .. } => operator is Instanceof || operator.spec_is_equality()
            || operator.spec_is_logical() || operator is NullCoalesce,
        _ => false,
    }
}

pub fn expression_has_logic(expression: &Expr) -> (r: bool)
    ensures
        r == spec_has_logic(*expression),
{
    match &unwrap_expression(expression).kind {
        ExprKind::Binary { operator, .. } => {
            matches!(operator, BinaryOperator::Instanceof) || operator.is_equality() || operator.is_logical()
                || matches!(operator, BinaryOperator::NullCoalesce)
        },
        _ => false,
    }
}

/// A function, or a method of a class.
#[derive(Debug, PartialEq, Eq)]
pub enum FunctionLikeIdentifier {
    Function(Vec<u8>),
    Method(Vec<u8>, Vec<u8>),
}

/// The view of a function-like identifier: `(class, name)` for a method, `(None, name)` for a function.
pub open spec fn function_like_view(id: FunctionLikeIdentifier) -> (Option<Seq<u8>>, Seq<u8>) {
    match id {
        FunctionLikeIdentifier::Function(name) => (None, name@),
        FunctionLikeIdentifier::Method(class, name) => (Some(class@), name@),
    }
}

pub open spec fn opt_function_like_view(id: Option<FunctionLikeIdentifier>) -> Option<(Option<Seq<u8>>, Seq<u8>)> {
    match id {
        Some(i) => Some(function_like_view(i)),
        None => None,
    }
}

/// The function or method a call names statically: `name(...)` gives the
/// resolved function name, `Name::method(...)` the resolved class and the method.
pub open spec fn spec_static_functionlike_id(call: Expr) -> Option<(Option<Seq<u8>>, Seq<u8>)> {
    match call.kind {
        ExprKind::FunctionCall { function, .. } => match function.kind {
            ExprKind::Identifier { resolved, .. } => Some((None, resolved@)),
            _ => None,
        },
        ExprKind::StaticMethodCall { class, method, .. } => match (class.kind, method) {
            (ExprKind::Identifier { resolved, .. }, MemberSelector::Identifier(m)) => Some((Some(resolved@), m@)),
            _ => None,
        },
        _ => None,
    }
}

pub fn get_static_functionlike_id_from_call(call: &Expr) -> (id: Option<FunctionLikeIdentifier>)
    ensures
        opt_function_like_view(id) == spec_static_functionlike_id(*call),
{
    match &call.kind {
        ExprKind::FunctionCall { function, .. } => match &function.kind {
            ExprKind::Identifier { resolved, .. } => Some(FunctionLikeIdentifier::Function(bytes_of(resolved.as_slice()))),
            _ => None,
        },
        ExprKind::StaticMethodCall { class, method, .. } => match (&class.kind, method) {
            (ExprKind::Identifier { resolved, .. }, MemberSelector::Identifier(m)) => Some(
                FunctionLikeIdentifier::Method(bytes_of(resolved.as_slice()), bytes_of(m.as_slice())),
            ),
            _ => None,
        },
        _ => None,
    }
}

/// The inferred types of analyzed expressions, keyed by span; for each,
/// the class of the named object that is the first part of its type, if it is one.
pub struct ExpressionTypes {
    pub entries: Vec<(Span, Option<Vec<u8>>)>,
}

/// The entry recorded first for a span among `entries`.
pub open spec fn lookup_type(entries: Seq<(Span, Option<Vec<u8>>)>, span: Span) -> Option<Option<Seq<u8>>>
    decreases entries.len(),
{
    if entries.len() == 0 {
        None
    } else if entries[0].0 == span {
        Some(match entries[0].1 {
            Some(n) => Some(n@),
            None => None,
        })
    } else {
        lookup_type(entries.drop_first(), span)
    }
}

/// The method a call `$object->name(...)` (or `?->`) reaches, from the named
/// object class recorded as the first part of the object's type.
pub open spec fn spec_method_id(call: Expr, types: Seq<(Span, Option<Vec<u8>>)>) -> Option<(Option<Seq<u8>>, Seq<u8>)> {
    match call.kind {
        ExprKind::MethodCall { object, method: MemberSelector::Identifier(m), .. } => match lookup_type(types, object.span) {
            Some(Some(class)) => Some((Some(class), m@)),
            _ => None,
        },
        _ => None,
    }
}

fn find_type<'a>(types: &'a ExpressionTypes, span: Span) -> (r: Option<&'a Option<Vec<u8>>>)
    ensures
        lookup_type(types.entries@, span) == (match r {
            Some(Some(n)) => Some(Some(n@)),
            Some(None) => Some(None),
            None => None,
        }),
{
    let mut k: usize = 0;
    assert(types.entries@.subrange(0, types.entries@.len() as int) =~= types.entries@);
    while k < types.entries.len()
        invariant
            k <= types.entries@.len(),
            lookup_type(types.entries@, span) == lookup_type(types.entries@.subrange(k as int, types.entries@.len() as int), span),
        decreases types.entries.len() - k,
    {
        let ghost rest = types.entries@.subrange(k as int, types.entries@.len() as int);
        if types.entries[k].0 == span {
            return Some(&types.entries[k].1);
        }
        assert(rest.drop_first() =~= types.entries@.subrange(k + 1, types.entries@.len() as int));
        k += 1;
    }
    None
}

/// The method a call on an object reaches, when the object's type starts with a named object.
pub fn get_method_id_from_call(call: &Expr, expression_types: &ExpressionTypes) -> (id: Option<FunctionLikeIdentifier>)
    ensures
        opt_function_like_view(id) == spec_method_id(*call, expression_types.entries@),
{
    match &call.kind {
        ExprKind::MethodCall { object, method: MemberSelector::Identifier(m), .. } => match find_type(expression_types, object.span) {
            Some(Some(class)) => Some(FunctionLikeIdentifier::Method(bytes_of(class.as_slice()), bytes_of(m.as_slice()))),
            _ => None,
        },
        _ => None,
    }
}

/// The function or method a call reaches: named statically, or through the object's type.
pub fn get_function_like_id_from_call(call: &Expr, expression_types: &ExpressionTypes) -> (id: Option<FunctionLikeIdentifier>)
    ensures
        opt_function_like_view(id) == (match spec_static_functionlike_id(*call) {
            Some(f) => Some(f),
            None => spec_method_id(*call, expression_types.entries@),
        }),
{
    match get_static_functionlike_id_from_call(call) {
        Some(id) => Some(id),
        None => get_method_id_from_call(call, expression_types),
    }
}

} // verus!
