use std::collections::HashSet;

use mago_analyzer::conditional::{
    get_definitely_evaluated_expression_after_if, get_definitely_evaluated_expression_inside_if,
    handle_paradoxical_condition, is_true_literal, ParadoxKind,
};
use mago_analyzer::expr::{BinaryOperator, Expr, ExprKind, Literal, MemberSelector, Span, UnaryPrefixOperator, Variable};
use mago_analyzer::guards::{
    add_guarded_expression_advice, record_true_branch_guards, GuardContext, GuardedExpression,
    GuardedExpressionKind, GuardedExpressions,
};

fn at(start: u32, kind: ExprKind) -> Expr {
    Expr { span: Span { start, end: start + 1 }, kind }
}

fn var(name: &str) -> Expr {
    at(0, ExprKind::Variable(Variable::Direct(name.as_bytes().to_vec())))
}

fn prop_at(start: u32, object: &str, name: &str) -> Expr {
    at(start, ExprKind::PropertyAccess {
        object: Box::new(var(object)),
        property: MemberSelector::Identifier(name.as_bytes().to_vec()),
        null_safe: false,
    })
}

fn binary(operator: BinaryOperator, lhs: Expr, rhs: Expr) -> Expr {
    at(0, ExprKind::Binary { operator, lhs: Box::new(lhs), rhs: Box::new(rhs) })
}

fn not(operand: Expr) -> Expr {
    at(0, ExprKind::UnaryPrefix { operator: UnaryPrefixOperator::Not, operand: Box::new(operand) })
}

fn lit(l: Literal) -> Expr {
    at(0, ExprKind::Literal(l))
}

fn call(name: &str, local: bool, argument: Expr) -> Expr {
    at(0, ExprKind::FunctionCall {
        function: Box::new(at(0, ExprKind::Identifier {
            value: name.as_bytes().to_vec(),
            resolved: format!("App\\{name}").into_bytes(),
            local,
        })),
        arguments: vec![argument],
    })
}

fn context() -> GuardContext {
    GuardContext { this_class_name: None, stable_method_call_offsets: HashSet::new() }
}

fn guard_at(guards: &GuardedExpressions, id: &str) -> Option<GuardedExpression> {
    guards.get(id.as_bytes())
}

#[test]
fn truthy_property_fetch_is_guarded() {
    let mut guards = GuardedExpressions::new();
    record_true_branch_guards(&prop_at(7, "$a", "b"), &context(), &mut guards);
    assert_eq!(
        guard_at(&guards, "$a->b"),
        Some(GuardedExpression { condition_span: Span { start: 7, end: 8 }, kind: GuardedExpressionKind::PropertyFetch })
    );
    assert!(!guards.is_empty());
}

#[test]
fn conjunction_guards_both_sides() {
    let mut guards = GuardedExpressions::new();
    let condition = binary(BinaryOperator::And, prop_at(1, "$a", "b"), prop_at(2, "$c", "d"));
    record_true_branch_guards(&condition, &context(), &mut guards);
    assert!(guard_at(&guards, "$a->b").is_some());
    assert!(guard_at(&guards, "$c->d").is_some());
}

#[test]
fn disjunction_in_true_branch_guards_nothing() {
    let mut guards = GuardedExpressions::new();
    let condition = binary(BinaryOperator::Or, prop_at(1, "$a", "b"), prop_at(2, "$c", "d"));
    record_true_branch_guards(&condition, &context(), &mut guards);
    assert!(guards.is_empty());
}

#[test]
fn negated_disjunction_guards_nothing_either() {
    let mut guards = GuardedExpressions::new();
    let condition = not(binary(BinaryOperator::Or, prop_at(1, "$a", "b"), prop_at(2, "$c", "d")));
    record_true_branch_guards(&condition, &context(), &mut guards);
    assert!(guards.is_empty());
}

#[test]
fn literal_comparisons() {
    let mut guards = GuardedExpressions::new();
    let not_null = binary(BinaryOperator::NotIdentical, prop_at(3, "$a", "b"), lit(Literal::Null));
    record_true_branch_guards(&not_null, &context(), &mut guards);
    assert!(guard_at(&guards, "$a->b").is_some());
    let mut guards = GuardedExpressions::new();
    let equals_string = binary(BinaryOperator::Identical, lit(Literal::String(b"'x'".to_vec())), prop_at(4, "$a", "c"));
    record_true_branch_guards(&equals_string, &context(), &mut guards);
    assert!(guard_at(&guards, "$a->c").is_some());
    let mut guards = GuardedExpressions::new();
    let equals_null = binary(BinaryOperator::Identical, prop_at(5, "$a", "d"), lit(Literal::Null));
    record_true_branch_guards(&equals_null, &context(), &mut guards);
    assert!(guards.is_empty());
}

#[test]
fn type_guard_calls() {
    let mut guards = GuardedExpressions::new();
    record_true_branch_guards(&call("IS_STRING", true, prop_at(6, "$a", "b")), &context(), &mut guards);
    assert!(guard_at(&guards, "$a->b").is_some());
    let mut guards = GuardedExpressions::new();
    record_true_branch_guards(&call("my_check", true, prop_at(6, "$a", "b")), &context(), &mut guards);
    assert!(guards.is_empty());
    let mut guards = GuardedExpressions::new();
    record_true_branch_guards(&not(call("is_null", true, prop_at(6, "$a", "b"))), &context(), &mut guards);
    assert!(guard_at(&guards, "$a->b").is_some());
}

#[test]
fn isset_and_empty() {
    let mut guards = GuardedExpressions::new();
    let isset = at(0, ExprKind::Isset(vec![prop_at(1, "$a", "b"), var("$x"), prop_at(2, "$c", "d")]));
    record_true_branch_guards(&isset, &context(), &mut guards);
    assert!(guard_at(&guards, "$a->b").is_some());
    assert!(guard_at(&guards, "$c->d").is_some());
    assert!(guard_at(&guards, "$x").is_none());
    let mut guards = GuardedExpressions::new();
    let not_empty = not(at(0, ExprKind::Empty(Box::new(prop_at(9, "$e", "f")))));
    record_true_branch_guards(&not_empty, &context(), &mut guards);
    assert!(guard_at(&guards, "$e->f").is_some());
}

#[test]
fn later_guard_replaces_earlier() {
    let mut guards = GuardedExpressions::new();
    record_true_branch_guards(&prop_at(1, "$a", "b"), &context(), &mut guards);
    record_true_branch_guards(&prop_at(2, "$a", "b"), &context(), &mut guards);
    assert_eq!(guard_at(&guards, "$a->b").map(|g| g.condition_span.start), Some(2));
}

#[test]
fn advice_for_guarded_expression() {
    let mut guards = GuardedExpressions::new();
    assert!(add_guarded_expression_advice(&prop_at(1, "$a", "b"), &context(), &guards).is_none());
    record_true_branch_guards(&prop_at(4, "$a", "b"), &context(), &mut guards);
    let advice = add_guarded_expression_advice(&prop_at(8, "$a", "b"), &context(), &guards).unwrap();
    assert_eq!(advice.condition_span, Span { start: 4, end: 5 });
    assert_eq!(advice.expression_id, b"$a->b".to_vec());
    assert_eq!(advice.kind, GuardedExpressionKind::PropertyFetch);
    assert!(add_guarded_expression_advice(&prop_at(8, "$a", "z"), &context(), &guards).is_none());
}

#[test]
fn stable_method_call_guard() {
    let mut offsets = HashSet::new();
    offsets.insert(3u32);
    let ctx = GuardContext { this_class_name: None, stable_method_call_offsets: offsets };
    let method = at(3, ExprKind::MethodCall {
        object: Box::new(var("$a")),
        method: MemberSelector::Identifier(b"get".to_vec()),
        arguments: vec![],
        null_safe: false,
    });
    let mut guards = GuardedExpressions::new();
    record_true_branch_guards(&method, &ctx, &mut guards);
    assert_eq!(guard_at(&guards, "$a->get()").map(|g| g.kind), Some(GuardedExpressionKind::MethodCall));
}

#[test]
fn evaluated_parts_of_conditions() {
    let cond = binary(BinaryOperator::And, var("$a"), var("$b"));
    assert_eq!(format!("{:?}", get_definitely_evaluated_expression_after_if(&cond)), format!("{:?}", var("$a")));
    assert_eq!(format!("{:?}", get_definitely_evaluated_expression_inside_if(&cond)), format!("{:?}", cond));
    let or = binary(BinaryOperator::Or, var("$a"), var("$b"));
    assert_eq!(format!("{:?}", get_definitely_evaluated_expression_inside_if(&or)), format!("{:?}", var("$a")));
    let true_eq = binary(BinaryOperator::Identical, lit(Literal::True), binary(BinaryOperator::LowAnd, var("$x"), var("$y")));
    assert_eq!(format!("{:?}", get_definitely_evaluated_expression_after_if(&true_eq)), format!("{:?}", var("$x")));
    let negated = not(binary(BinaryOperator::Or, var("$p"), var("$q")));
    assert_eq!(format!("{:?}", get_definitely_evaluated_expression_after_if(&negated)), format!("{:?}", var("$p")));
    let negated_plain = not(var("$p"));
    assert_eq!(format!("{:?}", get_definitely_evaluated_expression_after_if(&negated_plain)), format!("{:?}", negated_plain));
    assert!(is_true_literal(&at(0, ExprKind::Parenthesized(Box::new(lit(Literal::True))))));
    assert!(!is_true_literal(&lit(Literal::False)));
}

#[test]
fn paradoxical_conditions() {
    let span = Span { start: 1, end: 2 };
    let falsy = handle_paradoxical_condition(span, b"false".to_vec(), true, false).unwrap();
    assert_eq!(falsy.kind, ParadoxKind::ImpossibleCondition);
    assert_eq!(falsy.type_id, b"false".to_vec());
    let truthy = handle_paradoxical_condition(span, b"true".to_vec(), false, true).unwrap();
    assert_eq!(truthy.kind, ParadoxKind::RedundantCondition);
    assert!(handle_paradoxical_condition(span, b"bool".to_vec(), false, false).is_none());
}

#[test]
fn recording_more_conditions_keeps_earlier_guards() {
    let ctx = context();
    let mut guards = GuardedExpressions::new();
    record_true_branch_guards(&prop_at(3, "$a", "x"), &ctx, &mut guards);
    record_true_branch_guards(&not(prop_at(9, "$b", "y")), &ctx, &mut guards);
    record_true_branch_guards(&prop_at(12, "$a", "x"), &ctx, &mut guards);
    let first = guard_at(&guards, "$a->x").unwrap();
    assert_eq!(first.condition_span.start, 12);
    assert_eq!(first.kind, GuardedExpressionKind::PropertyFetch);
    assert!(guard_at(&guards, "$b->y").is_none());
}
