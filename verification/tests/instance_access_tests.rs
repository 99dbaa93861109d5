use mago_analyzer::instance_access::{
    resolve_instance_properties, AccessContext, ClassPropertyLookup, KnownProperty, ObjectAtom, PropertyAccessReport,
    ResolvedProperty, SelectorShape,
};
use mago_analyzer::null_access::{NullAccessCode, NullAccessIssue};
use mago_analyzer::resolution::{DeclaredPropertyAccess, UndeclaredPropertyOutcome};

fn ctx() -> AccessContext {
    AccessContext {
        is_null_safe: false,
        has_nullsafe_null: false,
        type_is_mixed: false,
        is_all_null: false,
        inside_isset: false,
        inside_assignment: false,
        mixed_is_nullable: false,
    }
}

const NAMES: [&str; 6] = ["a", "b", "c", "d", "e", "f"];

fn named_at(i: usize) -> SelectorShape {
    SelectorShape { is_dynamic: false, name: Some(NAMES[i].as_bytes().to_vec()) }
}

fn named() -> SelectorShape {
    named_at(0)
}

fn selectors(n: usize) -> Vec<SelectorShape> {
    (0..n).map(named_at).collect()
}

fn hit(index: usize, nullable: bool, is_magic: bool) -> ResolvedProperty {
    ResolvedProperty { property_name: format!("${}", NAMES[index]).into_bytes(), selector_index: index, nullable, is_magic }
}

fn visible() -> DeclaredPropertyAccess {
    DeclaredPropertyAccess { uses_set_hook_type: false, possibly_undefined: false, refused: false }
}

#[test]
fn property_of_a_declared_class_property() {
    let atoms = vec![ObjectAtom::Class {
        has_magic_method: false,
        lookups: vec![ClassPropertyLookup::Declared { access: visible(), nullable: false, is_magic: false }],
    }];
    let r = resolve_instance_properties(&vec![named()], &atoms, false, ctx());
    assert_eq!(r.properties, vec![hit(0, false, false)]);
    assert!(r.reports.is_empty());
    assert!(r.all_properties_non_nullable);
    assert!(!r.has_invalid_path && !r.has_ambiguous_path && !r.encountered_null && !r.redundant_nullsafe);
}

#[test]
fn possibly_null_object() {
    let atoms = vec![
        ObjectAtom::NullLike { is_void: false },
        ObjectAtom::Class {
            has_magic_method: false,
            lookups: vec![ClassPropertyLookup::Declared { access: visible(), nullable: false, is_magic: false }],
        },
    ];
    let r = resolve_instance_properties(&vec![named()], &atoms, true, ctx());
    assert!(r.encountered_null);
    assert_eq!(
        r.reports,
        vec![PropertyAccessReport::AccessOnNull {
            issue: NullAccessIssue { code: NullAccessCode::PossiblyNullPropertyAccess, suggests_nullsafe: true }
        }]
    );
    let nullsafe = AccessContext { is_null_safe: true, ..ctx() };
    let r = resolve_instance_properties(&vec![named()], &atoms, true, nullsafe);
    assert!(r.encountered_null && r.reports.is_empty() && !r.redundant_nullsafe);
    let from_nullsafe = AccessContext { has_nullsafe_null: true, ..ctx() };
    assert!(resolve_instance_properties(&vec![named()], &atoms, true, from_nullsafe).reports.is_empty());
}

#[test]
fn redundant_nullsafe_operator() {
    let atoms = vec![ObjectAtom::AnyObject];
    let nullsafe = AccessContext { is_null_safe: true, ..ctx() };
    assert!(resolve_instance_properties(&vec![named()], &atoms, false, nullsafe).redundant_nullsafe);
    assert!(!resolve_instance_properties(&vec![named()], &atoms, true, nullsafe).redundant_nullsafe);
    let all_null = AccessContext { is_all_null: true, ..nullsafe };
    assert!(!resolve_instance_properties(&vec![named()], &atoms, false, all_null).redundant_nullsafe);
    assert!(!resolve_instance_properties(&vec![named()], &atoms, false, ctx()).redundant_nullsafe);
}

#[test]
fn void_and_always_null_objects() {
    let always_null = AccessContext { is_all_null: true, ..ctx() };
    let r = resolve_instance_properties(&vec![named()], &vec![ObjectAtom::NullLike { is_void: true }], true, always_null);
    assert_eq!(
        r.reports,
        vec![PropertyAccessReport::AccessOnNull {
            issue: NullAccessIssue { code: NullAccessCode::NullPropertyAccess, suggests_nullsafe: false }
        }]
    );
    assert!(r.properties.is_empty() && !r.all_properties_non_nullable);
}

#[test]
fn non_object_parts() {
    let mixed = AccessContext { type_is_mixed: true, ..ctx() };
    let r = resolve_instance_properties(&vec![named()], &vec![ObjectAtom::NonObject { is_mixed: true }], false, mixed);
    assert!(r.has_invalid_path && r.encountered_mixed);
    assert_eq!(r.reports, vec![PropertyAccessReport::AccessOnNonObject { on_mixed: true }]);
    let in_isset = AccessContext { inside_isset: true, ..mixed };
    let r = resolve_instance_properties(&vec![named()], &vec![ObjectAtom::NonObject { is_mixed: true }], false, in_isset);
    assert!(r.has_invalid_path && r.reports.is_empty());
    let in_isset = AccessContext { inside_isset: true, ..ctx() };
    let r = resolve_instance_properties(&vec![named()], &vec![ObjectAtom::NonObject { is_mixed: false }], false, in_isset);
    assert!(!r.encountered_mixed);
    assert_eq!(r.reports, vec![PropertyAccessReport::AccessOnNonObject { on_mixed: false }]);
}

#[test]
fn selectors_and_generic_objects() {
    let selectors = vec![named_at(0), SelectorShape { is_dynamic: true, name: None }, named_at(1)];
    let r = resolve_instance_properties(&selectors, &vec![ObjectAtom::AssertedMethods { all_asserted: true }], false, ctx());
    assert!(r.has_ambiguous_path && r.has_invalid_path);
    assert_eq!(r.properties, vec![hit(0, false, false), hit(1, false, false)]);
    let dynamic_named = vec![SelectorShape { is_dynamic: true, name: Some(b"name".to_vec()) }];
    let r = resolve_instance_properties(&dynamic_named, &vec![ObjectAtom::AssertedMethods { all_asserted: true }], false, ctx());
    assert!(r.has_ambiguous_path && !r.has_invalid_path);
    assert_eq!(r.properties[0].property_name, b"$name".to_vec());
    let nullable_mixed = AccessContext { mixed_is_nullable: true, ..ctx() };
    let r = resolve_instance_properties(&vec![named()], &vec![ObjectAtom::AssertedProperties { all_present: true }], false, nullable_mixed);
    assert_eq!(r.properties, vec![hit(0, true, false)]);
    assert!(!r.all_properties_non_nullable);
    let r = resolve_instance_properties(&vec![named()], &vec![ObjectAtom::AssertedProperties { all_present: false }], false, ctx());
    assert!(r.has_ambiguous_path && r.properties.is_empty());
    assert_eq!(r.reports, vec![PropertyAccessReport::AmbiguousAccess]);
    let in_isset = AccessContext { inside_isset: true, ..ctx() };
    let r = resolve_instance_properties(&vec![named()], &vec![ObjectAtom::AnyObject], false, in_isset);
    assert!(r.has_ambiguous_path && r.reports.is_empty());
}

#[test]
fn shaped_objects() {
    let known = vec![
        Some(KnownProperty { optional: false, nullable: false }),
        Some(KnownProperty { optional: true, nullable: false }),
        None,
    ];
    let selectors = selectors(3);
    let r = resolve_instance_properties(&selectors, &vec![ObjectAtom::Shaped { sealed: true, known: known.clone() }], false, ctx());
    assert_eq!(r.properties, vec![hit(0, false, false), hit(1, true, false)]);
    assert_eq!(
        r.reports,
        vec![PropertyAccessReport::PossiblyNonExistentProperty { index: 1 }, PropertyAccessReport::NonExistentProperty { index: 2 }]
    );
    assert!(r.has_invalid_path && !r.has_ambiguous_path);
    let r = resolve_instance_properties(&selectors, &vec![ObjectAtom::Shaped { sealed: false, known }], false, ctx());
    assert!(!r.has_invalid_path && r.has_ambiguous_path);
    assert_eq!(
        r.reports,
        vec![PropertyAccessReport::PossiblyNonExistentProperty { index: 1 }, PropertyAccessReport::AmbiguousAccess]
    );
}

#[test]
fn class_lookups() {
    let lookups = vec![
        ClassPropertyLookup::EnumBuiltin,
        ClassPropertyLookup::Declared { access: visible(), nullable: true, is_magic: true },
        ClassPropertyLookup::Undeclared { outcome: UndeclaredPropertyOutcome::NonExistentMixinProperty, nullable: false },
        ClassPropertyLookup::Undeclared {
            outcome: UndeclaredPropertyOutcome::NonExistentProperty { possibly_defined: true },
            nullable: false,
        },
        ClassPropertyLookup::Declared {
            access: DeclaredPropertyAccess { uses_set_hook_type: false, possibly_undefined: false, refused: true },
            nullable: false,
            is_magic: false,
        },
        ClassPropertyLookup::UnknownClass,
    ];
    let selectors = selectors(6);
    let r = resolve_instance_properties(&selectors, &vec![ObjectAtom::Class { has_magic_method: false, lookups: lookups.clone() }], false, ctx());
    assert_eq!(r.properties, vec![hit(0, false, false), hit(1, true, true), hit(2, false, false)]);
    assert_eq!(r.reports, vec![PropertyAccessReport::MagicPropertyWithoutMethod { index: 1 }]);
    assert!(r.has_invalid_path && r.has_error_path && r.has_possibly_defined_property);
    let r = resolve_instance_properties(&selectors, &vec![ObjectAtom::Class { has_magic_method: true, lookups }], false, ctx());
    assert!(r.reports.is_empty());
    let undocumented = vec![ClassPropertyLookup::Undeclared { outcome: UndeclaredPropertyOutcome::NonDocumentedProperty, nullable: false }];
    let r = resolve_instance_properties(&vec![named()], &vec![ObjectAtom::Class { has_magic_method: true, lookups: undocumented }], false, ctx());
    assert_eq!(r.properties, vec![hit(0, false, true)]);
    assert!(!r.has_invalid_path && r.all_properties_non_nullable);
}
