use std::collections::{BTreeMap, BTreeSet};

use mago_analyzer::expr::{BinaryOperator, Expr, ExprKind, Span, Variable};
use mago_analyzer::loops::{
    can_condition_be_initially_false, get_and_expressions, get_assignment_map_depth,
    is_iteration_dependent_truthiness_issue, IntegerBounds, LoopCondition,
};

fn graph(edges: &[(u64, &[u64])]) -> BTreeMap<u64, BTreeSet<u64>> {
    edges.iter().map(|(k, vs)| (*k, vs.iter().copied().collect())).collect()
}

#[test]
fn depth_of_a_chain() {
    let mut map = graph(&[(1, &[2]), (2, &[3]), (3, &[4])]);
    assert_eq!(get_assignment_map_depth(1, &mut map, 10), 3);
    assert!(map.is_empty());
}

#[test]
fn depth_is_clamped() {
    let mut map = graph(&[(1, &[2]), (2, &[3]), (3, &[4])]);
    assert_eq!(get_assignment_map_depth(1, &mut map, 2), 2);
    let mut map = graph(&[(1, &[2])]);
    assert_eq!(get_assignment_map_depth(1, &mut map, 0), 0);
    assert_eq!(map.len(), 1);
}

#[test]
fn depth_of_missing_variable() {
    let mut map = graph(&[(1, &[2])]);
    assert_eq!(get_assignment_map_depth(5, &mut map, 10), 0);
}

#[test]
fn depth_of_self_assignment() {
    let mut map = graph(&[(1, &[1])]);
    assert_eq!(get_assignment_map_depth(1, &mut map, 10), 1);
}

#[test]
fn visited_variables_are_not_walked_twice() {
    // 1 <- {2, 3}, 2 <- {3}, 3 <- {4}: 2 is walked first, through 3.
    let mut map = graph(&[(1, &[2, 3]), (2, &[3]), (3, &[4])]);
    assert_eq!(get_assignment_map_depth(1, &mut map, 10), 3);
    // 2 is walked (and removed) before 3, so the longer path 1 <- 3 <- 2 <- 9 is cut.
    let mut map = graph(&[(1, &[2, 3]), (2, &[9]), (3, &[2])]);
    assert_eq!(get_assignment_map_depth(1, &mut map, 10), 2);
}

#[test]
fn truthiness_issue_codes() {
    assert!(is_iteration_dependent_truthiness_issue(Some("impossible-condition")));
    assert!(is_iteration_dependent_truthiness_issue(Some("redundant-type-comparison")));
    assert!(is_iteration_dependent_truthiness_issue(Some("unreachable-else-clause")));
    assert!(!is_iteration_dependent_truthiness_issue(Some("possibly-null-argument")));
    assert!(!is_iteration_dependent_truthiness_issue(None));
}

fn bounds(lower: Option<i64>, upper: Option<i64>) -> Option<Option<IntegerBounds>> {
    Some(Some(IntegerBounds { lower, upper }))
}

#[test]
fn initially_false_conditions() {
    let zero = bounds(Some(0), Some(0));
    let non_negative = bounds(Some(0), None);
    let less = LoopCondition::Binary { operator: BinaryOperator::LessThan, left: zero, right: non_negative };
    assert!(can_condition_be_initially_false(&less));
    let positive = bounds(Some(1), None);
    let surely_less = LoopCondition::Binary { operator: BinaryOperator::LessThan, left: zero, right: positive };
    assert!(!can_condition_be_initially_false(&surely_less));
    let ge = LoopCondition::Binary { operator: BinaryOperator::GreaterThanOrEqual, left: bounds(Some(5), Some(9)), right: bounds(Some(1), Some(5)) };
    assert!(!can_condition_be_initially_false(&ge));
    let unknown = LoopCondition::Binary { operator: BinaryOperator::LessThan, left: None, right: zero };
    assert!(!can_condition_be_initially_false(&unknown));
    let not_integer = LoopCondition::Binary { operator: BinaryOperator::LessThan, left: Some(None), right: zero };
    assert!(!can_condition_be_initially_false(&not_integer));
    let equality = LoopCondition::Binary { operator: BinaryOperator::Equal, left: zero, right: zero };
    assert!(!can_condition_be_initially_false(&equality));
    assert!(can_condition_be_initially_false(&LoopCondition::Other { always_truthy: None }));
    assert!(can_condition_be_initially_false(&LoopCondition::Other { always_truthy: Some(false) }));
    assert!(!can_condition_be_initially_false(&LoopCondition::Other { always_truthy: Some(true) }));
}

fn var(name: &str) -> Expr {
    Expr { span: Span { start: 0, end: 0 }, kind: ExprKind::Variable(Variable::Direct(name.as_bytes().to_vec())) }
}

fn binary(operator: BinaryOperator, lhs: Expr, rhs: Expr) -> Expr {
    Expr { span: Span { start: 0, end: 0 }, kind: ExprKind::Binary { operator, lhs: Box::new(lhs), rhs: Box::new(rhs) } }
}

#[test]
fn disjuncts_of_a_condition() {
    let cond = binary(BinaryOperator::Or, binary(BinaryOperator::LowOr, var("$a"), var("$b")), binary(BinaryOperator::And, var("$c"), var("$d")));
    let parts = get_and_expressions(&cond);
    assert_eq!(parts.len(), 3);
    assert_eq!(format!("{:?}", parts[0]), format!("{:?}", var("$a")));
    assert_eq!(format!("{:?}", parts[1]), format!("{:?}", var("$b")));
    let single = var("$x");
    assert_eq!(get_and_expressions(&single).len(), 1);
}
