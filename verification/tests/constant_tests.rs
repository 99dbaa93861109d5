use mago_analyzer::constants::{
    find_constant_in_class, get_class_like, handle_class_magic_constant, is_valid_trait_constant_access,
    resolve_class_constants, ClassLikeInfo, ResolvedConstant, ClassLikeKind, Codebase, ConstantInfo, ConstantIssue, ConstantType,
    ResolutionOrigin, ResolvedClassname, ResolvedSelector, SymbolReference, TypeMetadata,
};

fn b(s: &str) -> Vec<u8> {
    s.as_bytes().to_vec()
}

fn class_like(name: &str, kind: ClassLikeKind, constants: Vec<ConstantInfo>, cases: Vec<&str>) -> ClassLikeInfo {
    ClassLikeInfo {
        name: b(&name.to_lowercase()),
        original_name: b(name),
        kind,
        constants,
        enum_cases: cases.into_iter().map(b).collect(),
        require_extends: vec![],
        require_implements: vec![],
    }
}

fn constant(name: &str, declared: Option<(&str, bool)>, inferred: Option<&str>) -> ConstantInfo {
    ConstantInfo {
        name: b(name),
        type_metadata: declared.map(|(t, from_docblock)| TypeMetadata { type_id: b(t), from_docblock }),
        inferred_type: inferred.map(b),
    }
}

fn named(fqcn: &str) -> ResolvedClassname {
    ResolvedClassname {
        fqcn: Some(b(fqcn)),
        origin: ResolutionOrigin::Named { is_self: false, is_parent: false },
        is_final: false,
        is_possibly_invalid: false,
        is_static: false,
        is_from_literal_class_string: false,
        is_named: true,
        generic_parameter: None,
    }
}

fn ident(name: &str) -> ResolvedSelector {
    ResolvedSelector { name: Some(b(name)), is_identifier: true, is_dynamic: false }
}

fn codebase() -> Codebase {
    let mut status = class_like("Status", ClassLikeKind::Enum, vec![constant("DEFAULT", None, Some("enum(Status::Active)"))], vec!["Active", "Inactive"]);
    status.name = b("status");
    let mut child = class_like("Child", ClassLikeKind::Class, vec![], vec![]);
    child.require_extends = vec![b("missing"), b("base")];
    Codebase {
        class_likes: vec![
            class_like("Base", ClassLikeKind::Class, vec![constant("LIMIT", Some(("int", false)), Some("10")), constant("NAME", Some(("non-empty-string", true)), Some("'x'"))], vec![]),
            class_like("Helper", ClassLikeKind::Trait, vec![constant("T", None, None)], vec![]),
            status,
            child,
        ],
    }
}

#[test]
fn trait_constants_are_reached_through_self_parent_static_or_this() {
    assert!(is_valid_trait_constant_access(&ResolutionOrigin::Named { is_self: true, is_parent: false }));
    assert!(is_valid_trait_constant_access(&ResolutionOrigin::Named { is_self: false, is_parent: true }));
    assert!(is_valid_trait_constant_access(&ResolutionOrigin::Static));
    assert!(is_valid_trait_constant_access(&ResolutionOrigin::Object { is_this: true }));
    assert!(!is_valid_trait_constant_access(&ResolutionOrigin::Named { is_self: false, is_parent: false }));
    assert!(!is_valid_trait_constant_access(&ResolutionOrigin::Object { is_this: false }));
    assert!(!is_valid_trait_constant_access(&ResolutionOrigin::AnyString));
    assert!(!is_valid_trait_constant_access(&ResolutionOrigin::Invalid));
}

#[test]
fn class_like_lookup_by_name() {
    let cb = codebase();
    assert_eq!(get_class_like(&cb, b"base").map(|c| c.original_name.clone()), Some(b("Base")));
    assert!(get_class_like(&cb, b"nothing").is_none());
}

#[test]
fn constant_type_prefers_docblock_then_inferred_then_declared() {
    let cb = codebase();
    let base = get_class_like(&cb, b"base").unwrap();
    let mut issues = vec![];
    let origin = ResolutionOrigin::Named { is_self: false, is_parent: false };
    match find_constant_in_class(&cb, base, b"NAME", &origin, &mut issues).map(|c| c.const_type) {
        Some(ConstantType::Constant { type_id, expanded_in }) => {
            assert_eq!(type_id, Some(b("non-empty-string")));
            assert_eq!(expanded_in, b("base"));
        }
        _ => panic!("expected a constant"),
    }
    match find_constant_in_class(&cb, base, b"LIMIT", &origin, &mut issues).map(|c| c.const_type) {
        Some(ConstantType::Constant { type_id, .. }) => assert_eq!(type_id, Some(b("10"))),
        _ => panic!("expected a constant"),
    }
    let helper = get_class_like(&cb, b"helper").unwrap();
    match find_constant_in_class(&cb, helper, b"T", &ResolutionOrigin::Static, &mut issues).map(|c| c.const_type) {
        Some(ConstantType::Constant { type_id, .. }) => assert_eq!(type_id, None),
        _ => panic!("expected a constant"),
    }
    assert!(issues.is_empty());
}

#[test]
fn enum_cases_and_missing_constants() {
    let cb = codebase();
    let status = get_class_like(&cb, b"status").unwrap();
    let mut issues = vec![];
    let origin = ResolutionOrigin::Named { is_self: false, is_parent: false };
    match find_constant_in_class(&cb, status, b"Inactive", &origin, &mut issues).map(|c| c.const_type) {
        Some(ConstantType::EnumCase { enum_name, case_name }) => {
            assert_eq!(enum_name, b("Status"));
            assert_eq!(case_name, b("Inactive"));
        }
        _ => panic!("expected an enum case"),
    }
    assert!(find_constant_in_class(&cb, status, b"Unknown", &origin, &mut issues).is_none());
    assert_eq!(issues.len(), 1);
    match &issues[0] {
        ConstantIssue::NonExistentClassConstant { class, constant, is_enum } => {
            assert_eq!(class, &b("Status"));
            assert_eq!(constant, &b("Unknown"));
            assert!(*is_enum);
        }
        _ => panic!("expected a missing constant"),
    }
}

#[test]
fn direct_trait_access_is_reported_before_the_missing_constant() {
    let cb = codebase();
    let helper = get_class_like(&cb, b"helper").unwrap();
    let mut issues = vec![];
    let origin = ResolutionOrigin::Named { is_self: false, is_parent: false };
    assert!(find_constant_in_class(&cb, helper, b"T", &origin, &mut issues).is_some());
    assert!(find_constant_in_class(&cb, helper, b"U", &origin, &mut issues).is_none());
    assert_eq!(issues.len(), 3);
    assert!(matches!(issues[0], ConstantIssue::DirectTraitConstantAccess { .. }));
    assert!(matches!(issues[1], ConstantIssue::DirectTraitConstantAccess { .. }));
    assert!(matches!(issues[2], ConstantIssue::NonExistentClassConstant { is_enum: false, .. }));
}

#[test]
fn constants_are_found_in_required_parents() {
    let cb = codebase();
    let child = get_class_like(&cb, b"child").unwrap();
    let mut issues = vec![];
    match find_constant_in_class(&cb, child, b"LIMIT", &ResolutionOrigin::Static, &mut issues).map(|c| c.const_type) {
        Some(ConstantType::Constant { expanded_in, .. }) => assert_eq!(expanded_in, b("base")),
        _ => panic!("expected the parent's constant"),
    }
    assert!(issues.is_empty());
}

#[test]
fn class_magic_constant_on_named_final_and_open_classes() {
    let cb = codebase();
    let mut issues = vec![];
    let mut refs = vec![];
    match handle_class_magic_constant(&cb, &named("base"), &mut issues, &mut refs) {
        Some(ConstantType::LiteralClassString(c)) => assert_eq!(c, b("base")),
        _ => panic!("expected a literal class-string"),
    }
    let mut object = named("base");
    object.origin = ResolutionOrigin::Object { is_this: false };
    object.is_named = false;
    match handle_class_magic_constant(&cb, &object, &mut issues, &mut refs) {
        Some(ConstantType::ClassStringOf(c)) => assert_eq!(c, b("base")),
        _ => panic!("expected a class-string of the class"),
    }
    object.is_final = true;
    assert!(matches!(handle_class_magic_constant(&cb, &object, &mut issues, &mut refs), Some(ConstantType::LiteralClassString(_))));
    object.is_static = true;
    assert!(matches!(handle_class_magic_constant(&cb, &object, &mut issues, &mut refs), Some(ConstantType::ClassStringOf(_))));
    assert!(issues.is_empty());
    assert_eq!(refs.len(), 4);
    assert!(matches!(&refs[0], SymbolReference::Symbol(s) if s == &b("base")));
}

#[test]
fn class_magic_constant_errors_and_unknown_classes() {
    let cb = codebase();
    let mut issues = vec![];
    let mut refs = vec![];
    let mut any = named("x");
    any.origin = ResolutionOrigin::AnyString;
    assert!(handle_class_magic_constant(&cb, &any, &mut issues, &mut refs).is_none());
    assert!(matches!(issues[0], ConstantIssue::InvalidClassConstantOnString));
    assert!(refs.is_empty());
    assert!(matches!(handle_class_magic_constant(&cb, &named("ghost"), &mut issues, &mut refs), Some(ConstantType::LiteralClassString(_))));
    assert!(matches!(&issues[1], ConstantIssue::NonExistentClassLike { class } if class == &b("ghost")));
    let mut generic = named("x");
    generic.fqcn = None;
    generic.generic_parameter = Some((b("T"), b("fn-foo")));
    match handle_class_magic_constant(&cb, &generic, &mut issues, &mut refs) {
        Some(ConstantType::GenericClassString { parameter, defining_entity }) => {
            assert_eq!(parameter, b("T"));
            assert_eq!(defining_entity, b("fn-foo"));
        }
        _ => panic!("expected a generic class-string"),
    }
    generic.generic_parameter = None;
    assert!(matches!(handle_class_magic_constant(&cb, &generic, &mut issues, &mut refs), Some(ConstantType::ClassString)));
}

#[test]
fn resolving_constants_of_several_classes_and_selectors() {
    let cb = codebase();
    let mut issues = vec![];
    let mut refs = vec![];
    let classes = vec![named("base"), named("status")];
    let selectors = vec![ident("LIMIT"), ident("CLASS")];
    let result = resolve_class_constants(&cb, &classes, &selectors, &mut issues, &mut refs);
    assert_eq!(result.constants.len(), 3);
    assert!(matches!(result.constants[0], ResolvedConstant { const_type: ConstantType::Constant { .. } }));
    assert!(matches!(result.constants[1].const_type, ConstantType::LiteralClassString(_)));
    assert!(matches!(result.constants[2].const_type, ConstantType::LiteralClassString(_)));
    assert!(!result.has_ambiguous_path);
    assert!(result.has_invalid_path);
    assert_eq!(issues.len(), 1);
    assert!(matches!(&issues[0], ConstantIssue::NonExistentClassConstant { is_enum: true, .. }));
    assert_eq!(refs.len(), 4);
    assert!(matches!(&refs[0], SymbolReference::Member(c, m) if c == &b("base") && m == &b("LIMIT")));
}

#[test]
fn resolving_with_unknown_or_dynamic_parts() {
    let cb = codebase();
    let mut issues = vec![];
    let mut refs = vec![];
    let mut unnamed = named("x");
    unnamed.fqcn = None;
    let mut invalid = named("x");
    invalid.is_possibly_invalid = true;
    invalid.origin = ResolutionOrigin::Invalid;
    let dynamic = ResolvedSelector { name: None, is_identifier: false, is_dynamic: true };
    let result = resolve_class_constants(&cb, &vec![unnamed, invalid], &vec![ident("A"), ident("B")], &mut issues, &mut refs);
    assert!(result.constants.is_empty());
    assert!(result.has_ambiguous_path);
    assert!(result.has_invalid_path);
    assert_eq!(issues.len(), 1);
    assert!(matches!(issues[0], ConstantIssue::AmbiguousClassLikeConstantAccess));

    let mut issues = vec![];
    let result = resolve_class_constants(&cb, &vec![named("ghost"), named("base")], &vec![dynamic], &mut issues, &mut refs);
    assert!(result.has_ambiguous_path);
    assert!(!result.has_invalid_path);
    assert!(issues.is_empty());
    let result = resolve_class_constants(&cb, &vec![named("ghost")], &vec![ident("A")], &mut issues, &mut refs);
    assert!(result.has_invalid_path);
    assert!(matches!(&issues[0], ConstantIssue::NonExistentClassLike { class } if class == &b("ghost")));
}
