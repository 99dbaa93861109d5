//! Which part of an `if` condition is certainly evaluated, and the report
//! for conditions whose type makes them constant.
use vstd::prelude::*;
use crate::expr::{BinaryOperator, Expr, ExprKind, Literal, Span, UnaryPrefixOperator};

verus! {

/// The number of nodes along parentheses, operators and prefix operators.
pub open spec fn tree_size(e: Expr) -> nat
    decreases e,
{
    1 + match e.kind {
        ExprKind::Parenthesized(inner) => tree_size(*inner),
        ExprKind::Binary { lhs, rhs, .. } => tree_size(*lhs) + tree_size(*rhs),
        ExprKind::UnaryPrefix { operand, .. } => tree_size(*operand),
        _ => 0,
    }
}

/// `true`, possibly in parentheses.
pub open spec fn spec_is_true_literal(e: Expr) -> bool
    decreases e,
{
    match e.kind {
        ExprKind::Parenthesized(inner) => spec_is_true_literal(*inner),
        ExprKind::Literal(Literal::True) => true,
        _ => false,
    }
}

pub fn is_true_literal(expression: &Expr) -> (r: bool)
    ensures
        r == spec_is_true_literal(*expression),
    decreases expression,
{
    match &expression.kind {
        ExprKind::Parenthesized(inner) => is_true_literal(inner),
        ExprKind::Literal(Literal::True) => true,
        _ => false,
    }
}

/// The part of a condition that has certainly been evaluated once the
/// condition is known to hold: the left side of `&&`, `and` and `xor`, the
/// other side of a comparison with `true`, inside parentheses; for `!c`,
/// what is certainly evaluated inside `c` when it is a proper part of `c`.
pub open spec fn spec_evaluated_after_if(e: Expr) -> Expr
    decreases e, 0nat,
{
    match e.kind {
        ExprKind::Parenthesized(inner) => spec_evaluated_after_if(*inner),
        ExprKind::Binary { operator, lhs, rhs } => {
            if operator is Equal || operator is Identical {
                if spec_is_true_literal(*lhs) {
                    spec_evaluated_after_if(*rhs)
                } else if spec_is_true_literal(*rhs) {
                    spec_evaluated_after_if(*lhs)
                } else {
                    e
                }
            } else if operator is And || operator is LowAnd || operator is LowXor {
                spec_evaluated_after_if(*lhs)
            } else {
                e
            }
        },
        ExprKind::UnaryPrefix { operator: UnaryPrefixOperator::Not, operand } => {
            let inner = spec_evaluated_inside_if(*operand);
            if inner != *operand { inner } else { e }
        },
        _ => e,
    }
}

/// The part of a condition certainly evaluated before the body of the `if`
/// runs: like [`spec_evaluated_after_if`], but descending into the left side of
/// `||`, `or` and `xor`.
pub open spec fn spec_evaluated_inside_if(e: Expr) -> Expr
    decreases e, 0nat,
{
    match e.kind {
        ExprKind::Parenthesized(inner) => spec_evaluated_inside_if(*inner),
        ExprKind::Binary { operator, lhs, rhs } => {
            if operator is Equal || operator is Identical {
                if spec_is_true_literal(*lhs) {
                    spec_evaluated_inside_if(*rhs)
                } else if spec_is_true_literal(*rhs) {
                    spec_evaluated_inside_if(*lhs)
                } else {
                    e
                }
            } else if operator is Or || operator is LowOr || operator is LowXor {
                spec_evaluated_inside_if(*lhs)
            } else {
                e
            }
        },
        ExprKind::UnaryPrefix { operator: UnaryPrefixOperator::Not, operand } => {
            let inner = spec_evaluated_after_if(*operand);
            if inner != *operand { inner } else { e }
        },
        _ => e,
    }
}

/// What is certainly evaluated is the condition itself or a proper part of it.
pub proof fn lemma_evaluated_part_is_smaller(e: Expr)
    ensures
        spec_evaluated_after_if(e) == e || tree_size(spec_evaluated_after_if(e)) < tree_size(e),
        spec_evaluated_inside_if(e) == e || tree_size(spec_evaluated_inside_if(e)) < tree_size(e),
    decreases e,
{
    match e.kind {
        ExprKind::Parenthesized(inner) => {
            lemma_evaluated_part_is_smaller(*inner);
        },
        ExprKind::Binary { lhs, rhs, .. } => {
            lemma_evaluated_part_is_smaller(*lhs);
            lemma_evaluated_part_is_smaller(*rhs);
        },
        ExprKind::UnaryPrefix { operand, .. } => {
            lemma_evaluated_part_is_smaller(*operand);
        },
        _ => {},
    }
}

fn evaluated_after_if(condition: &Expr) -> (r: (&Expr, bool))
    ensures
        *r.0 == spec_evaluated_after_if(*condition),
        r.1 == (spec_evaluated_after_if(*condition) != *condition),
    decreases condition,
{
    proof { lemma_evaluated_part_is_smaller(*condition); }
    match &condition.kind {
        ExprKind::Parenthesized(inner) => {
            proof { lemma_evaluated_part_is_smaller(**inner); }
            (evaluated_after_if(inner).0, true)
        },
        ExprKind::Binary { operator, lhs, rhs } => {
            proof {
                lemma_evaluated_part_is_smaller(**lhs);
                lemma_evaluated_part_is_smaller(**rhs);
            }
            if matches!(operator, BinaryOperator::Equal | BinaryOperator::Identical) {
                if is_true_literal(lhs) {
                    return (evaluated_after_if(rhs).0, true);
                }
                if is_true_literal(rhs) {
                    return (evaluated_after_if(lhs).0, true);
                }
                return (condition, false);
            }
            if matches!(operator, BinaryOperator::And | BinaryOperator::LowAnd | BinaryOperator::LowXor) {
                return (evaluated_after_if(lhs).0, true);
            }
            (condition, false)
        },
        ExprKind::UnaryPrefix { operator: UnaryPrefixOperator::Not, operand } => {
            proof { lemma_evaluated_part_is_smaller(**operand); }
            let (inner, changed) = evaluated_inside_if(operand);
            if changed {
                (inner, true)
            } else {
                (condition, false)
            }
        },
        _ => (condition, false),
    }
}

fn evaluated_inside_if(condition: &Expr) -> (r: (&Expr, bool))
    ensures
        *r.0 == spec_evaluated_inside_if(*condition),
        r.1 == (spec_evaluated_inside_if(*condition) != *condition),
    decreases condition,
{
    proof { lemma_evaluated_part_is_smaller(*condition); }
    match &condition.kind {
        ExprKind::Parenthesized(inner) => {
            proof { lemma_evaluated_part_is_smaller(**inner); }
            (evaluated_inside_if(inner).0, true)
        },
        ExprKind::Binary { operator, lhs, rhs } => {
            proof {
                lemma_evaluated_part_is_smaller(**lhs);
                lemma_evaluated_part_is_smaller(**rhs);
            }
            if matches!(operator, BinaryOperator::Equal | BinaryOperator::Identical) {
                if is_true_literal(lhs) {
                    return (evaluated_inside_if(rhs).0, true);
                }
                if is_true_literal(rhs) {
                    return (evaluated_inside_if(lhs).0, true);
                }
                return (condition, false);
            }
            if matches!(operator, BinaryOperator::Or | BinaryOperator::LowOr | BinaryOperator::LowXor) {
                return (evaluated_inside_if(lhs).0, true);
            }
            (condition, false)
        },
        ExprKind::UnaryPrefix { operator: UnaryPrefixOperator::Not, operand } => {
            proof { lemma_evaluated_part_is_smaller(**operand); }
            let (inner, changed) = evaluated_after_if(operand);
            if changed {
                (inner, true)
            } else {
                (condition, false)
            }
        },
        _ => (condition, false),
    }
}

/// The part of an `if` condition certainly evaluated after the condition held.
pub fn get_definitely_evaluated_expression_after_if(condition: &Expr) -> (r: &Expr)
    ensures
        *r == spec_evaluated_after_if(*condition),
{
    evaluated_after_if(condition).0
}

/// The part of an `if` condition certainly evaluated before its body runs.
pub fn get_definitely_evaluated_expression_inside_if(condition: &Expr) -> (r: &Expr)
    ensures
        *r == spec_evaluated_inside_if(*condition),
{
    evaluated_inside_if(condition).0
}

/// What a constant condition is reported as.
#[derive(Clone, Copy, PartialEq, Eq, Structural, Debug)]
pub enum ParadoxKind {
    /// The condition is always false: its block never runs.
    ImpossibleCondition,
    /// The condition is always true: the check may be redundant.
    RedundantCondition,
}

/// A warning about a condition whose type decides it.
#[derive(Debug)]
pub struct ParadoxReport {
    pub kind: ParadoxKind,
    /// The identifier of the condition's type, quoted in the message.
    pub type_id: Vec<u8>,
    pub span: Span,
}

/// Decides the warning for a condition from its type: an always-falsy type
/// makes it impossible, an always-truthy type redundant, any other none.
pub fn handle_paradoxical_condition(span: Span, type_id: Vec<u8>, is_always_falsy: bool, is_always_truthy: bool) -> (report: Option<ParadoxReport>)
    ensures
        match report {
            Some(r) => r.span == span && r.type_id@ == type_id@ && (if is_always_falsy {
                r.kind == ParadoxKind::ImpossibleCondition
            } else {
                is_always_truthy && r.kind == ParadoxKind::RedundantCondition
            }),
            None => !is_always_falsy && !is_always_truthy,
        },
{
    if is_always_falsy {
        Some(ParadoxReport { kind: ParadoxKind::ImpossibleCondition, type_id, span })
    } else if is_always_truthy {
        Some(ParadoxReport { kind: ParadoxKind::RedundantCondition, type_id, span })
    } else {
        None
    }
}

} // verus!
