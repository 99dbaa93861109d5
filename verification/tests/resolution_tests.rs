use mago_analyzer::resolution::{
    class_candidates, unnamed_object_call, CandidateSource, MixinMethod, OwnMethod,
    declared_property_access, retain_first_per_method, static_call_verdict, static_target_outcome,
    undeclared_property_outcome, DeclaredProperty, MethodIdentifier, PropertyClass, StaticCallIssue, StaticCallTarget,
    StaticCallVerdict, UndeclaredPropertyOutcome,
};

fn id(class: &str, method: &str) -> MethodIdentifier {
    MethodIdentifier { class_name: class.as_bytes().to_vec(), method_name: method.as_bytes().to_vec() }
}

fn target() -> StaticCallTarget {
    StaticCallTarget {
        exists: true,
        is_interface: false,
        is_trait: false,
        is_relative: false,
        from_instance: false,
        from_class_string: false,
        related_to_caller: false,
        trait_static_call_deprecated: false,
    }
}

#[test]
fn duplicate_method_candidates_are_dropped() {
    let kept = retain_first_per_method(&vec![id("A", "f"), id("B", "f"), id("A", "f"), id("A", "g"), id("B", "f")]);
    let names: Vec<(Vec<u8>, Vec<u8>)> = kept.into_iter().map(|m| (m.class_name, m.method_name)).collect();
    assert_eq!(names, vec![(b"A".to_vec(), b"f".to_vec()), (b"B".to_vec(), b"f".to_vec()), (b"A".to_vec(), b"g".to_vec())]);
    assert!(retain_first_per_method(&vec![]).is_empty());
}

#[test]
fn static_calls_on_one_class() {
    let r = static_target_outcome(target(), false, Some(true), true);
    assert!(r.could_exist && r.resolved && !r.reports_interface_call && r.issue.is_none() && !r.invalid);
    let r = static_target_outcome(StaticCallTarget { exists: false, ..target() }, false, Some(true), true);
    assert!(!r.could_exist && !r.resolved);
    let interface = StaticCallTarget { is_interface: true, ..target() };
    let r = static_target_outcome(interface, false, Some(true), true);
    assert!(r.could_exist && !r.resolved && r.reports_interface_call && r.invalid);
    assert!(!static_target_outcome(interface, false, Some(true), false).invalid);
    let r = static_target_outcome(interface, true, Some(true), true);
    assert!(r.resolved && !r.reports_interface_call);
    let r = static_target_outcome(StaticCallTarget { from_class_string: true, ..interface }, false, Some(false), true);
    assert!(r.reports_interface_call && !r.resolved && r.issue == Some(StaticCallIssue::NonStaticAccess));
    let r = static_target_outcome(StaticCallTarget { from_class_string: true, ..interface }, false, None, true);
    assert!(r.reports_interface_call && !r.could_exist);
    assert!(static_target_outcome(StaticCallTarget { related_to_caller: true, ..target() }, false, Some(false), true).resolved);
    assert!(static_target_outcome(StaticCallTarget { is_relative: true, ..target() }, false, Some(false), true).resolved);
    let r = static_target_outcome(StaticCallTarget { is_trait: true, trait_static_call_deprecated: true, ..target() }, false, Some(true), true);
    assert!(r.resolved && r.issue == Some(StaticCallIssue::DeprecatedStaticAccessOnTrait));
}

#[test]
fn static_call_verdicts() {
    assert_eq!(static_call_verdict(true, true, false, false, false, false), StaticCallVerdict::Resolved);
    assert_eq!(static_call_verdict(false, false, false, false, false, false), StaticCallVerdict::Ambiguous);
    assert_eq!(static_call_verdict(false, true, false, false, false, true), StaticCallVerdict::Refused);
    assert_eq!(static_call_verdict(false, true, false, false, true, false), StaticCallVerdict::NonDocumentedMethod);
    assert_eq!(static_call_verdict(false, true, false, false, false, false), StaticCallVerdict::NonExistentMethod);
    assert_eq!(static_call_verdict(false, true, true, true, true, false), StaticCallVerdict::MixinMethod);
    assert_eq!(static_call_verdict(false, true, true, true, false, false), StaticCallVerdict::NonExistentMixinMethod);
    assert_eq!(static_call_verdict(false, true, true, false, false, false), StaticCallVerdict::PossiblyNonExistentMixinMethod);
}

#[test]
fn undeclared_properties() {
    let open = PropertyClass { is_final: false, is_interface: false, is_trait: false };
    let closed = PropertyClass { is_final: true, is_interface: false, is_trait: false };
    assert_eq!(undeclared_property_outcome(closed, true, true, true, true, true), UndeclaredPropertyOutcome::FromRequired);
    assert_eq!(undeclared_property_outcome(closed, false, true, false, true, false), UndeclaredPropertyOutcome::FromMixin);
    assert_eq!(undeclared_property_outcome(closed, false, true, false, false, false), UndeclaredPropertyOutcome::NonExistentMixinProperty);
    assert_eq!(undeclared_property_outcome(open, false, true, false, false, false), UndeclaredPropertyOutcome::PossiblyNonExistentMixinProperty);
    assert_eq!(undeclared_property_outcome(open, false, false, true, true, false), UndeclaredPropertyOutcome::FromIntersection);
    assert_eq!(undeclared_property_outcome(open, false, false, false, true, true), UndeclaredPropertyOutcome::NonDocumentedProperty);
    assert_eq!(undeclared_property_outcome(open, false, false, false, false, true), UndeclaredPropertyOutcome::Asserted);
    assert_eq!(undeclared_property_outcome(closed, false, false, false, false, false), UndeclaredPropertyOutcome::NonExistentProperty { possibly_defined: false });
    assert_eq!(undeclared_property_outcome(open, false, false, false, false, false), UndeclaredPropertyOutcome::NonExistentProperty { possibly_defined: true });
    let final_trait = PropertyClass { is_final: true, is_interface: false, is_trait: true };
    assert_eq!(undeclared_property_outcome(final_trait, false, false, false, false, false), UndeclaredPropertyOutcome::NonExistentProperty { possibly_defined: true });
}

#[test]
fn declared_property_accesses() {
    let typed = DeclaredProperty { has_type_declaration: true, has_default: false, is_promoted: false, is_virtual: false, has_typed_set_hook: true };
    let read = declared_property_access(typed, false, false, false, true);
    assert!(read.possibly_undefined && !read.uses_set_hook_type && !read.refused);
    let write = declared_property_access(typed, false, true, false, true);
    assert!(!write.possibly_undefined && write.uses_set_hook_type);
    assert!(!declared_property_access(typed, false, true, true, true).uses_set_hook_type);
    assert!(declared_property_access(typed, false, false, false, false).refused);
    let virtual_prop = DeclaredProperty { is_virtual: true, ..typed };
    assert!(!declared_property_access(virtual_prop, false, false, false, true).possibly_undefined);
    assert!(declared_property_access(virtual_prop, true, false, false, true).possibly_undefined);
    let defaulted = DeclaredProperty { has_default: true, ..typed };
    assert!(!declared_property_access(defaulted, false, false, false, true).possibly_undefined);
}

#[test]
fn calls_on_objects_of_no_known_class() {
    assert_eq!(unnamed_object_call(true, false, false), (true, true));
    assert_eq!(unnamed_object_call(true, true, false), (true, false));
    assert_eq!(unnamed_object_call(true, false, true), (true, false));
    assert_eq!(unnamed_object_call(false, false, false), (false, false));
}

#[test]
fn method_candidates_on_a_class() {
    let own = OwnMethod { is_visible: true, where_constraints_hold: true, is_static_magic: false };
    let r = class_candidates(false, Some(own), &vec![], &vec![], false);
    assert!(r.candidates.is_empty() && r.class_missing && r.invalid);
    let r = class_candidates(true, Some(own), &vec![Some(true)], &vec![], false);
    assert_eq!(r.candidates, vec![CandidateSource::Own]);
    assert!(!r.invalid && !r.class_missing);
    assert!(class_candidates(true, Some(OwnMethod { is_visible: false, ..own }), &vec![], &vec![], false).invalid);
    assert!(class_candidates(true, Some(OwnMethod { where_constraints_hold: false, ..own }), &vec![], &vec![], false).invalid);
    assert!(class_candidates(true, Some(OwnMethod { is_static_magic: true, ..own }), &vec![], &vec![], false).invalid);
    let visible = Some(MixinMethod { is_visible: true, is_public: true });
    let r = class_candidates(true, None, &vec![None, Some(false), Some(true), Some(true)], &vec![visible], false);
    assert_eq!(r.candidates, vec![CandidateSource::Required { index: 2 }]);
    let r = class_candidates(true, None, &vec![Some(false)], &vec![visible], false);
    assert!(r.candidates.is_empty() && !r.invalid);
    let mixins = vec![
        visible,
        None,
        Some(MixinMethod { is_visible: false, is_public: true }),
        Some(MixinMethod { is_visible: true, is_public: false }),
        visible,
    ];
    let r = class_candidates(true, None, &vec![], &mixins, false);
    assert_eq!(
        r.candidates,
        vec![
            CandidateSource::Mixin { index: 0, without_magic_method: true },
            CandidateSource::Mixin { index: 4, without_magic_method: true },
        ]
    );
    assert!(r.invalid);
    let r = class_candidates(true, None, &vec![], &vec![visible], true);
    assert_eq!(r.candidates, vec![CandidateSource::Mixin { index: 0, without_magic_method: false }]);
    assert!(!r.invalid);
}
