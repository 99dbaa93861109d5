use std::collections::HashSet;

use mago_analyzer::expr::{
    BinaryOperator, ConstantSelector, Expr, ExprKind, Literal, MemberSelector, Span, UnaryPostfixOperator,
    UnaryPrefixOperator, Variable,
};
use mago_analyzer::expr_id::{
    get_array_access_id, get_constant_selector_id, get_expression_id, get_index_id, get_member_selector_id,
    get_property_access_expression_id, get_root_expression_id, get_stable_method_call_advisory_id,
    get_static_property_access_expression_id, get_variable_id, is_derived_access_path,
};
use mago_analyzer::expr_props::{
    expression_has_logic, expression_has_observable_side_effect, expression_is_nullsafe, get_function_like_id_from_call,
    get_method_id_from_call, get_static_functionlike_id_from_call, ExpressionTypes, FunctionLikeIdentifier,
};

fn at(start: u32, kind: ExprKind) -> Expr {
    Expr { span: Span { start, end: start + 1 }, kind }
}

fn e(kind: ExprKind) -> Expr {
    at(0, kind)
}

fn var(name: &str) -> Expr {
    e(ExprKind::Variable(Variable::Direct(name.as_bytes().to_vec())))
}

fn prop(object: Expr, name: &str) -> Expr {
    e(ExprKind::PropertyAccess {
        object: Box::new(object),
        property: MemberSelector::Identifier(name.as_bytes().to_vec()),
        null_safe: false,
    })
}

fn ident(value: &str, resolved: &str) -> Expr {
    e(ExprKind::Identifier { value: value.as_bytes().to_vec(), resolved: resolved.as_bytes().to_vec(), local: true })
}

fn paren(inner: Expr) -> Expr {
    e(ExprKind::Parenthesized(Box::new(inner)))
}

fn id(expr: &Expr) -> Option<String> {
    get_expression_id(expr, None).map(|v| String::from_utf8(v).unwrap())
}

#[test]
fn variable_ids() {
    assert_eq!(get_variable_id(&Variable::Direct(b"$x".to_vec())), Some(&b"$x"[..]));
    assert_eq!(get_variable_id(&Variable::Indirect), None);
    assert_eq!(id(&var("$x")), Some("$x".to_string()));
    assert_eq!(id(&paren(paren(var("$x")))), Some("$x".to_string()));
}

#[test]
fn property_ids() {
    assert_eq!(id(&prop(var("$a"), "b")), Some("$a->b".to_string()));
    let null_safe = e(ExprKind::PropertyAccess {
        object: Box::new(var("$a")),
        property: MemberSelector::Identifier(b"b".to_vec()),
        null_safe: true,
    });
    assert_eq!(id(&null_safe), Some("$a?->b".to_string()));
    let braced = e(ExprKind::PropertyAccess {
        object: Box::new(var("$a")),
        property: MemberSelector::Expression(Box::new(var("$k"))),
        null_safe: false,
    });
    assert_eq!(id(&braced), Some("$a->{$k}".to_string()));
    let missing = e(ExprKind::PropertyAccess {
        object: Box::new(var("$a")),
        property: MemberSelector::Missing,
        null_safe: false,
    });
    assert_eq!(id(&missing), None);
    let direct = get_property_access_expression_id(&var("$o"), &MemberSelector::Identifier(b"p".to_vec()), true, None);
    assert_eq!(direct, Some(b"$o?->p".to_vec()));
}

#[test]
fn array_and_index_ids() {
    let access = e(ExprKind::ArrayAccess {
        array: Box::new(var("$a")),
        index: Box::new(e(ExprKind::Literal(Literal::String(b"'k'".to_vec())))),
    });
    assert_eq!(id(&access), Some("$a['k']".to_string()));
    let by_int = get_array_access_id(&var("$a"), &e(ExprKind::Literal(Literal::Integer(b"0".to_vec()))), None);
    assert_eq!(by_int, Some(b"$a[0]".to_vec()));
    let incremented = e(ExprKind::UnaryPostfix {
        operator: UnaryPostfixOperator::PostIncrement,
        operand: Box::new(var("$i")),
    });
    assert_eq!(get_index_id(&incremented, None), Some(b"$i".to_vec()));
    assert_eq!(get_index_id(&e(ExprKind::Literal(Literal::Float)), None), None);
}

#[test]
fn static_and_constant_ids() {
    let class = ident("Foo", "App\\Foo");
    let static_prop = e(ExprKind::StaticPropertyAccess {
        class: Box::new(class),
        property: Variable::Direct(b"$bar".to_vec()),
    });
    assert_eq!(id(&static_prop), Some("App\\Foo::$bar".to_string()));
    let self_const = e(ExprKind::ClassConstantAccess {
        class: Box::new(e(ExprKind::SelfKeyword)),
        constant: ConstantSelector::Identifier(b"C".to_vec()),
    });
    assert_eq!(id(&self_const), Some("self::C".to_string()));
    assert_eq!(get_expression_id(&self_const, Some(b"App\\Foo")), Some(b"App\\Foo::C".to_vec()));
    let static_const = e(ExprKind::ClassConstantAccess {
        class: Box::new(e(ExprKind::StaticKeyword)),
        constant: ConstantSelector::Identifier(b"C".to_vec()),
    });
    assert_eq!(id(&static_const), Some("static::C".to_string()));
    assert_eq!(id(&e(ExprKind::StaticKeyword)), None);
    assert_eq!(id(&ident("Foo", "App\\Foo")), None);
    let direct = get_static_property_access_expression_id(&e(ExprKind::ParentKeyword), &Variable::Direct(b"$p".to_vec()), None);
    assert_eq!(direct, Some(b"parent::$p".to_vec()));
    assert_eq!(
        get_constant_selector_id(&ConstantSelector::Expression(Box::new(var("$c"))), None),
        Some(b"{$c}".to_vec())
    );
    assert_eq!(get_member_selector_id(&MemberSelector::Variable(Variable::Nested), None), None);
}

#[test]
fn assignment_and_reference_ids() {
    let assignment = e(ExprKind::Assignment { lhs: Box::new(var("$a")), rhs: Box::new(var("$b")) });
    assert_eq!(id(&assignment), Some("$a".to_string()));
    let reference = e(ExprKind::UnaryPrefix { operator: UnaryPrefixOperator::Reference, operand: Box::new(var("$r")) });
    assert_eq!(id(&reference), Some("$r".to_string()));
    assert_eq!(get_root_expression_id(&assignment), None);
}

#[test]
fn root_ids() {
    let deep = e(ExprKind::ArrayAccess {
        array: Box::new(prop(var("$a"), "b")),
        index: Box::new(e(ExprKind::Literal(Literal::Integer(b"1".to_vec())))),
    });
    assert_eq!(get_root_expression_id(&deep), Some(b"$a".to_vec()));
    assert_eq!(get_root_expression_id(&e(ExprKind::SelfKeyword)), None);
}

#[test]
fn derived_paths() {
    assert!(is_derived_access_path(b"$a->b", b"$a"));
    assert!(is_derived_access_path(b"$a[0]", b"$a"));
    assert!(is_derived_access_path(b"A::$b", b"A"));
    assert!(!is_derived_access_path(b"$a", b"$a"));
    assert!(!is_derived_access_path(b"$ab", b"$a"));
    assert!(!is_derived_access_path(b"$a?->b", b"$a"));
    assert!(!is_derived_access_path(b"$b->c", b"$a"));
}

fn method_call(start: u32, object: Expr, name: &str, arguments: Vec<Expr>) -> Expr {
    at(start, ExprKind::MethodCall {
        object: Box::new(object),
        method: MemberSelector::Identifier(name.as_bytes().to_vec()),
        arguments,
        null_safe: false,
    })
}

#[test]
fn stable_method_call_ids() {
    let mut offsets = HashSet::new();
    offsets.insert(10u32);
    offsets.insert(20u32);
    let call = method_call(10, var("$a"), "get", vec![]);
    assert_eq!(get_stable_method_call_advisory_id(&call, None, &offsets), Some(b"$a->get()".to_vec()));
    let chained = method_call(20, method_call(10, var("$a"), "get", vec![]), "next", vec![]);
    assert_eq!(get_stable_method_call_advisory_id(&chained, None, &offsets), Some(b"$a->get()->next()".to_vec()));
    let unstable = method_call(30, var("$a"), "get", vec![]);
    assert_eq!(get_stable_method_call_advisory_id(&unstable, None, &offsets), None);
    let with_argument = method_call(10, var("$a"), "get", vec![var("$x")]);
    assert_eq!(get_stable_method_call_advisory_id(&with_argument, None, &offsets), None);
}

#[test]
fn side_effects_and_logic() {
    let assignment = e(ExprKind::Assignment { lhs: Box::new(var("$a")), rhs: Box::new(var("$b")) });
    let sum = e(ExprKind::Binary { operator: BinaryOperator::Other, lhs: Box::new(var("$a")), rhs: Box::new(assignment) });
    assert!(expression_has_observable_side_effect(&sum));
    assert!(!expression_has_observable_side_effect(&var("$a")));
    let incremented = e(ExprKind::UnaryPrefix { operator: UnaryPrefixOperator::PreIncrement, operand: Box::new(var("$i")) });
    assert!(expression_has_observable_side_effect(&incremented));
    let conditional = e(ExprKind::Conditional {
        condition: Box::new(var("$c")),
        then: None,
        otherwise: Box::new(e(ExprKind::Throw(Box::new(e(ExprKind::Literal(Literal::Null)))))),
    });
    assert!(expression_has_observable_side_effect(&conditional));
    let eq = paren(e(ExprKind::Binary { operator: BinaryOperator::Identical, lhs: Box::new(var("$a")), rhs: Box::new(var("$b")) }));
    assert!(expression_has_logic(&eq));
    let plus = e(ExprKind::Binary { operator: BinaryOperator::Other, lhs: Box::new(var("$a")), rhs: Box::new(var("$b")) });
    assert!(!expression_has_logic(&plus));
    let coalesce = e(ExprKind::Binary { operator: BinaryOperator::NullCoalesce, lhs: Box::new(var("$a")), rhs: Box::new(var("$b")) });
    assert!(expression_has_logic(&coalesce));
}

#[test]
fn null_safe_chains() {
    let inner = e(ExprKind::PropertyAccess {
        object: Box::new(var("$a")),
        property: MemberSelector::Identifier(b"b".to_vec()),
        null_safe: true,
    });
    let outer = e(ExprKind::ArrayAccess { array: Box::new(prop(inner, "c")), index: Box::new(var("$i")) });
    assert!(expression_is_nullsafe(&outer));
    assert!(!expression_is_nullsafe(&prop(var("$a"), "b")));
}

#[test]
fn call_identifiers() {
    let function_call = e(ExprKind::FunctionCall { function: Box::new(ident("strlen", "strlen")), arguments: vec![] });
    assert_eq!(
        get_static_functionlike_id_from_call(&function_call),
        Some(FunctionLikeIdentifier::Function(b"strlen".to_vec()))
    );
    let static_call = e(ExprKind::StaticMethodCall {
        class: Box::new(ident("Foo", "App\\Foo")),
        method: MemberSelector::Identifier(b"make".to_vec()),
        arguments: vec![],
    });
    assert_eq!(
        get_static_functionlike_id_from_call(&static_call),
        Some(FunctionLikeIdentifier::Method(b"App\\Foo".to_vec(), b"make".to_vec()))
    );
    let object = at(5, ExprKind::Variable(Variable::Direct(b"$o".to_vec())));
    let call = e(ExprKind::MethodCall {
        object: Box::new(object),
        method: MemberSelector::Identifier(b"run".to_vec()),
        arguments: vec![],
        null_safe: false,
    });
    let types = ExpressionTypes { entries: vec![(Span { start: 5, end: 6 }, Some(b"App\\Runner".to_vec()))] };
    assert_eq!(
        get_method_id_from_call(&call, &types),
        Some(FunctionLikeIdentifier::Method(b"App\\Runner".to_vec(), b"run".to_vec()))
    );
    assert_eq!(get_function_like_id_from_call(&call, &types), get_method_id_from_call(&call, &types));
    let untyped = ExpressionTypes { entries: vec![(Span { start: 5, end: 6 }, None)] };
    assert_eq!(get_method_id_from_call(&call, &untyped), None);
}
