use mago_analyzer::assignments::{get_assignment_map, get_self_referential_pre_condition_variables, Stmt};
use mago_analyzer::expr::{
    ArrayElement, BinaryOperator, Expr, ExprKind, Literal, MemberSelector, Span, UnaryPostfixOperator,
    UnaryPrefixOperator, Variable,
};

fn e(kind: ExprKind) -> Expr {
    Expr { span: Span { start: 0, end: 0 }, kind }
}

fn var(name: &str) -> Expr {
    e(ExprKind::Variable(Variable::Direct(name.as_bytes().to_vec())))
}

fn number(n: &str) -> Expr {
    e(ExprKind::Literal(Literal::Integer(n.as_bytes().to_vec())))
}

fn assign(lhs: Expr, rhs: Expr) -> Expr {
    e(ExprKind::Assignment { lhs: Box::new(lhs), rhs: Box::new(rhs) })
}

fn edge(from: &str, to: &str) -> (Vec<u8>, Vec<u8>) {
    (from.as_bytes().to_vec(), to.as_bytes().to_vec())
}

fn method_call(object: Expr, name: &str, arguments: Vec<Expr>, null_safe: bool) -> Expr {
    e(ExprKind::MethodCall {
        object: Box::new(object),
        method: MemberSelector::Identifier(name.as_bytes().to_vec()),
        arguments,
        null_safe,
    })
}

#[test]
fn for_loop_counter() {
    let pre = vec![assign(var("$i"), number("0"))];
    let post = vec![e(ExprKind::UnaryPostfix { operator: UnaryPostfixOperator::PostIncrement, operand: Box::new(var("$i")) })];
    let edges = get_assignment_map(&pre, &vec![], &post);
    assert_eq!(edges, vec![edge("$i", "isset"), edge("$i", "$i")]);
}

#[test]
fn assignments_in_the_body() {
    let body = vec![
        Stmt::Expression(assign(var("$a"), var("$b"))),
        Stmt::Expression(assign(
            e(ExprKind::ArrayAccess { array: Box::new(var("$c")), index: Box::new(number("1")) }),
            e(ExprKind::PropertyAccess {
                object: Box::new(var("$d")),
                property: MemberSelector::Identifier(b"p".to_vec()),
                null_safe: false,
            }),
        )),
        Stmt::Expression(assign(
            e(ExprKind::Array(vec![
                ArrayElement { key: None, value: Some(Box::new(var("$x"))) },
                ArrayElement { key: None, value: None },
                ArrayElement { key: Some(Box::new(number("2"))), value: Some(Box::new(var("$y"))) },
            ])),
            var("$pair"),
        )),
    ];
    let edges = get_assignment_map(&vec![], &body, &vec![]);
    assert_eq!(edges, vec![edge("$a", "$b"), edge("$c", "$d"), edge("$x", "$pair"), edge("$y", "$pair")]);
}

#[test]
fn assignment_parts_are_not_walked() {
    let nested = assign(var("$a"), e(ExprKind::Parenthesized(Box::new(assign(var("$b"), var("$c"))))));
    let edges = get_assignment_map(&vec![], &vec![Stmt::Expression(nested)], &vec![]);
    assert_eq!(edges, vec![edge("$a", "isset")]);
}

#[test]
fn calls_and_their_arguments() {
    let call = method_call(var("$obj"), "m", vec![var("$arg"), assign(var("$z"), var("$w"))], false);
    let edges = get_assignment_map(&vec![call], &vec![], &vec![]);
    assert_eq!(edges, vec![edge("$arg", "$arg"), edge("$z", "$w"), edge("$obj", "isset")]);
    let null_safe = method_call(var("$obj"), "m", vec![], true);
    assert!(get_assignment_map(&vec![null_safe], &vec![], &vec![]).is_empty());
    let function = e(ExprKind::FunctionCall {
        function: Box::new(e(ExprKind::Identifier { value: b"f".to_vec(), resolved: b"f".to_vec(), local: true })),
        arguments: vec![var("$v")],
    });
    assert_eq!(get_assignment_map(&vec![function], &vec![], &vec![]), vec![edge("$v", "$v")]);
    let instantiation = e(ExprKind::Instantiation {
        class: Box::new(e(ExprKind::Identifier { value: b"C".to_vec(), resolved: b"C".to_vec(), local: true })),
        arguments: vec![var("$n")],
    });
    assert_eq!(get_assignment_map(&vec![instantiation], &vec![], &vec![]), vec![edge("$n", "$n")]);
}

#[test]
fn increments_unsets_and_closures() {
    let body = vec![
        Stmt::Expression(e(ExprKind::UnaryPrefix { operator: UnaryPrefixOperator::PreDecrement, operand: Box::new(var("$k")) })),
        Stmt::Expression(e(ExprKind::UnaryPrefix {
            operator: UnaryPrefixOperator::Not,
            operand: Box::new(assign(var("$m"), var("$n"))),
        })),
        Stmt::Unset(vec![e(ExprKind::ArrayAccess { array: Box::new(var("$u")), index: Box::new(number("0")) })]),
        Stmt::Expression(e(ExprKind::Closure)),
        Stmt::Other {
            expressions: vec![e(ExprKind::Binary {
                operator: BinaryOperator::LessThan,
                lhs: Box::new(assign(var("$p"), var("$q"))),
                rhs: Box::new(var("$r")),
            })],
            statements: vec![Stmt::Expression(assign(var("$s"), var("$t")))],
        },
    ];
    let edges = get_assignment_map(&vec![], &body, &vec![]);
    assert_eq!(edges, vec![edge("$k", "$k"), edge("$m", "$n"), edge("$u", "$u"), edge("$p", "$q"), edge("$s", "$t")]);
}

fn names(list: &[&str]) -> Vec<Vec<u8>> {
    list.iter().map(|n| n.as_bytes().to_vec()).collect()
}

#[test]
fn self_referential_pre_conditions() {
    let pre = vec![
        assign(var("$line"), e(ExprKind::FunctionCall { function: Box::new(var("$next")), arguments: vec![var("$line")] })),
        e(ExprKind::Parenthesized(Box::new(assign(
            e(ExprKind::ArrayAccess { array: Box::new(var("$node")), index: Box::new(number("0")) }),
            var("$node"),
        )))),
        assign(var("$x"), var("$y")),
        var("$z"),
    ];
    let rhs = vec![names(&["$next", "$line"]), names(&["$node"]), names(&["$y"]), names(&["$z"])];
    let vars = get_self_referential_pre_condition_variables(&pre, &rhs);
    assert_eq!(vars, names(&["$line", "$node"]));
    assert!(get_self_referential_pre_condition_variables(&vec![], &vec![]).is_empty());
}
