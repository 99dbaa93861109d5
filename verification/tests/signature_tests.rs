use mago_analyzer::signature::{
    is_visibility_narrowed, validate_method_signature_compatibility, MethodInfo, MethodSignature, ParameterInfo,
    SignatureCompatibilityIssue, SignatureTypeChecks, TypeCheck, Visibility,
};

fn param(name: &str, has_default: bool) -> ParameterInfo {
    ParameterInfo { name: name.as_bytes().to_vec(), has_default, has_type: true }
}

fn method(visibility: Visibility, is_static: bool, is_final: bool, parameters: Vec<ParameterInfo>) -> MethodSignature {
    MethodSignature {
        is_user_defined: true,
        method: Some(MethodInfo { is_final, is_static, visibility }),
        parameters,
        has_return_type_declaration: true,
        return_type_from_docblock: Some(false),
    }
}

fn check(compatible: bool, child: &str, parent: &str) -> TypeCheck {
    TypeCheck { compatible, child_type: child.as_bytes().to_vec(), parent_type: parent.as_bytes().to_vec() }
}

fn all_compatible(n: usize) -> SignatureTypeChecks {
    SignatureTypeChecks {
        parameters: (0..n).map(|_| check(true, "int", "int")).collect(),
        return_declaration: check(true, "int", "int"),
        docblock_return: None,
    }
}

#[test]
fn compatible_override_has_no_issues() {
    let parent = method(Visibility::Protected, false, false, vec![param("a", false)]);
    let child = method(Visibility::Public, false, false, vec![param("a", false), param("b", true)]);
    assert!(validate_method_signature_compatibility(&child, &parent, &all_compatible(1)).is_empty());
}

#[test]
fn final_parent() {
    let parent = method(Visibility::Public, false, true, vec![]);
    let child = method(Visibility::Private, true, false, vec![]);
    let issues = validate_method_signature_compatibility(&child, &parent, &all_compatible(0));
    assert!(matches!(issues.as_slice(), [SignatureCompatibilityIssue::FinalMethodOverride]));
}

#[test]
fn static_mismatch() {
    let parent = method(Visibility::Public, true, false, vec![]);
    let child = method(Visibility::Public, false, false, vec![]);
    let issues = validate_method_signature_compatibility(&child, &parent, &all_compatible(0));
    assert!(matches!(
        issues.as_slice(),
        [SignatureCompatibilityIssue::StaticModifierMismatch { child_is_static: false, parent_is_static: true }]
    ));
}

#[test]
fn narrowed_visibility() {
    let parent = method(Visibility::Public, false, false, vec![]);
    let child = method(Visibility::Protected, false, false, vec![]);
    let issues = validate_method_signature_compatibility(&child, &parent, &all_compatible(0));
    assert!(matches!(issues.as_slice(), [SignatureCompatibilityIssue::VisibilityNarrowed { .. }]));
    assert!(is_visibility_narrowed(Visibility::Private, Visibility::Protected));
    assert!(!is_visibility_narrowed(Visibility::Public, Visibility::Private));
    assert!(!is_visibility_narrowed(Visibility::Protected, Visibility::Protected));
}

#[test]
fn parameter_counts() {
    let parent = method(Visibility::Public, false, false, vec![param("a", false), param("b", true)]);
    let fewer = method(Visibility::Public, false, false, vec![param("a", false)]);
    let issues = validate_method_signature_compatibility(&fewer, &parent, &all_compatible(2));
    assert!(issues.is_empty());
    let too_few = method(Visibility::Public, false, false, vec![]);
    let issues = validate_method_signature_compatibility(&too_few, &parent, &all_compatible(2));
    assert!(matches!(
        issues.as_slice(),
        [SignatureCompatibilityIssue::ParameterCountMismatch { child_required_count: 0, parent_required_count: 1 }]
    ));
    let renamed_fewer = method(Visibility::Public, false, false, vec![param("x", false)]);
    let issues = validate_method_signature_compatibility(&renamed_fewer, &parent, &all_compatible(2));
    assert!(matches!(issues.as_slice(), [SignatureCompatibilityIssue::ParameterNameMismatch { parameter_index: 0, .. }]));
    let lost_default = method(Visibility::Public, false, false, vec![param("a", false), param("b", false)]);
    let issues = validate_method_signature_compatibility(&lost_default, &parent, &all_compatible(2));
    assert!(matches!(
        issues.as_slice(),
        [SignatureCompatibilityIssue::ParameterCountMismatch { child_required_count: 2, parent_required_count: 1 }]
    ));
    let extra_required = method(Visibility::Public, false, false, vec![param("a", false), param("b", true), param("c", false)]);
    let issues = validate_method_signature_compatibility(&extra_required, &parent, &all_compatible(2));
    assert!(matches!(
        issues.as_slice(),
        [SignatureCompatibilityIssue::ParameterCountMismatch { child_required_count: 2, parent_required_count: 1 }]
    ));
}

#[test]
fn incompatible_parameter_type() {
    let parent = method(Visibility::Public, false, false, vec![param("a", false), param("b", false)]);
    let child = method(Visibility::Public, false, false, vec![param("a", false), param("b", false)]);
    let mut checks = all_compatible(2);
    checks.parameters[1] = check(false, "int", "string");
    let issues = validate_method_signature_compatibility(&child, &parent, &checks);
    match issues.as_slice() {
        [SignatureCompatibilityIssue::IncompatibleParameterType { parameter_index: 1, child_type, parent_type }] => {
            assert_eq!(child_type, b"int");
            assert_eq!(parent_type, b"string");
        }
        other => panic!("unexpected issues: {other:?}"),
    }
}

#[test]
fn untyped_parameters_are_not_compared() {
    let mut a = param("a", false);
    a.has_type = false;
    let parent = method(Visibility::Public, false, false, vec![a]);
    let child = method(Visibility::Public, false, false, vec![param("a", false)]);
    let mut checks = all_compatible(1);
    checks.parameters[0] = check(false, "int", "string");
    assert!(validate_method_signature_compatibility(&child, &parent, &checks).is_empty());
}

#[test]
fn errors_come_before_name_warnings() {
    let parent = method(Visibility::Public, false, false, vec![param("a", false), param("b", false)]);
    let child = method(Visibility::Public, false, false, vec![param("x", false), param("b", false)]);
    let mut checks = all_compatible(2);
    checks.return_declaration = check(false, "string", "int");
    let issues = validate_method_signature_compatibility(&child, &parent, &checks);
    assert_eq!(issues.len(), 2);
    assert!(matches!(issues[0], SignatureCompatibilityIssue::IncompatibleReturnType { .. }));
    assert!(matches!(issues[1], SignatureCompatibilityIssue::ParameterNameMismatch { parameter_index: 0, .. }));
    let checks = all_compatible(2);
    let issues = validate_method_signature_compatibility(&child, &parent, &checks);
    assert!(matches!(issues.as_slice(), [SignatureCompatibilityIssue::ParameterNameMismatch { parameter_index: 0, .. }]));
}

#[test]
fn docblock_return_type() {
    let parent = method(Visibility::Public, false, false, vec![]);
    let mut child = method(Visibility::Public, false, false, vec![]);
    child.return_type_from_docblock = Some(true);
    let mut checks = all_compatible(0);
    checks.docblock_return = Some(check(false, "list<int>", "list<string>"));
    let issues = validate_method_signature_compatibility(&child, &parent, &checks);
    assert!(matches!(issues.as_slice(), [SignatureCompatibilityIssue::IncompatibleReturnType { .. }]));
    child.return_type_from_docblock = Some(false);
    assert!(validate_method_signature_compatibility(&child, &parent, &checks).is_empty());
}

#[test]
fn non_user_defined_child_is_skipped() {
    let parent = method(Visibility::Public, false, true, vec![]);
    let mut child = method(Visibility::Public, false, false, vec![]);
    child.is_user_defined = false;
    assert!(validate_method_signature_compatibility(&child, &parent, &all_compatible(0)).is_empty());
}
