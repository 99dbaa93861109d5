use mago_analyzer::reconcile::{
    assertion_flags, impossible_issue_code, is_class_constant_key, plan_key_update, property_init_update,
    redundant_issue_code, refinement_verdict, trigger_issue_for_impossible, Assertion, AssertionIssueCode, AssertionKind,
    KeyAdjustment, KeyAssertionFlags, PropertyInitUpdate, missing_type, MissingType,
};

fn a(kind: AssertionKind) -> Assertion {
    let is_negation = matches!(
        kind,
        AssertionKind::Falsy
            | AssertionKind::Empty
            | AssertionKind::IsNotIsset
            | AssertionKind::ArrayKeyDoesNotExist
            | AssertionKind::DoesNotHaveArrayKey
            | AssertionKind::IsNotNull
    );
    let has_isset = matches!(kind, AssertionKind::IsIsset | AssertionKind::ArrayKeyExists | AssertionKind::HasNonnullEntryForKey);
    Assertion { kind, is_negation, has_isset }
}

fn no_flags() -> KeyAssertionFlags {
    assertion_flags(&vec![], true)
}

#[test]
fn flags_of_a_key_s_assertions() {
    let f = assertion_flags(&vec![vec![a(AssertionKind::IsNotIsset)], vec![a(AssertionKind::Truthy), a(AssertionKind::Empty)]], true);
    assert!(f.has_negation);
    assert!(!f.has_isset);
    assert!(f.has_inverted_isset);
    assert!(!f.has_inverted_key_exists);
    assert!(f.has_truthy_or_falsy_or_empty);
    assert!(f.has_empty);
    assert!(!f.has_count_check);
    assert!(!f.is_equality);
    let f = assertion_flags(&vec![vec![a(AssertionKind::IsIdentical)], vec![a(AssertionKind::IsIdentical)]], true);
    assert!(f.is_equality);
    let f = assertion_flags(&vec![vec![a(AssertionKind::IsIdentical)]], false);
    assert!(!f.is_equality);
    let f = assertion_flags(&vec![vec![a(AssertionKind::NonEmptyCountable), a(AssertionKind::IsIsset)]], true);
    assert!(f.has_count_check);
    assert!(f.has_isset);
    assert!(!f.has_negation);
}

#[test]
fn class_constant_keys_are_left_alone() {
    assert!(is_class_constant_key(b"Foo::BAR"));
    assert!(!is_class_constant_key(b"Foo::$bar"));
    assert!(!is_class_constant_key(b"Foo::BAR[0]"));
    assert!(!is_class_constant_key(b"$foo"));
}

#[test]
fn no_assertion_counts_as_equality() {
    assert!(no_flags().is_equality);
    assert_eq!(plan_key_update(b"$a['k']", no_flags(), true, false, true).adjustment, KeyAdjustment::OnlyKey);
}

#[test]
fn uninitialized_properties() {
    let inverted = assertion_flags(&vec![vec![a(AssertionKind::IsNotIsset)]], true);
    assert_eq!(property_init_update(b"$this->p", inverted), PropertyInitUpdate::MarkUninitialized);
    assert_eq!(property_init_update(b"$that->p", inverted), PropertyInitUpdate::Keep);
    let isset = assertion_flags(&vec![vec![a(AssertionKind::IsIsset)]], true);
    assert_eq!(property_init_update(b"$this->p", isset), PropertyInitUpdate::MarkInitialized);
    assert_eq!(property_init_update(b"$this->p", no_flags()), PropertyInitUpdate::Keep);
}

#[test]
fn key_update_plans() {
    let f = assertion_flags(&vec![vec![a(AssertionKind::Other)]], true);
    let p = plan_key_update(b"$a['k']", f, true, false, true);
    assert!(p.apply && p.mark_changed && p.prune_descendants);
    assert_eq!(p.adjustment, KeyAdjustment::ArrayItem);
    let p = plan_key_update(b"$a->b", f, true, false, true);
    assert_eq!(p.adjustment, KeyAdjustment::ObjectProperty);
    let p = plan_key_update(b"$this", f, true, false, true);
    assert_eq!(p.adjustment, KeyAdjustment::OnlyKey);
    assert!(!p.prune_descendants);
    let unset = assertion_flags(&vec![vec![a(AssertionKind::IsNotIsset)]], true);
    let p = plan_key_update(b"$a['k']", unset, false, true, true);
    assert!(!p.apply && !p.mark_changed);
    assert_eq!(p.adjustment, KeyAdjustment::RemoveArrayItem);
    let p = plan_key_update(b"$a['k']", unset, true, false, true);
    assert_eq!(p.adjustment, KeyAdjustment::RemoveArrayItem);
    let p = plan_key_update(b"$a", f, false, true, true);
    assert!(!p.apply);
    assert_eq!(p.adjustment, KeyAdjustment::OnlyKey);
    let same = plan_key_update(b"$a", f, true, false, false);
    assert!(same.apply && same.mark_changed && !same.prune_descendants);
    let truthy = assertion_flags(&vec![vec![a(AssertionKind::Truthy)]], true);
    assert!(!plan_key_update(b"$a", truthy, true, false, false).mark_changed);
    let equality = assertion_flags(&vec![vec![a(AssertionKind::IsIdentical)]], true);
    assert_eq!(plan_key_update(b"$a['k']", equality, true, false, true).adjustment, KeyAdjustment::OnlyKey);
    assert_eq!(plan_key_update(b"$a->b", equality, true, false, true).adjustment, KeyAdjustment::OnlyKey);
    let nested = assertion_flags(&vec![vec![a(AssertionKind::IsIsset)]], false);
    assert!(!plan_key_update(b"$a", nested, true, false, true).prune_descendants);
}

#[test]
fn issue_codes_of_assertions() {
    assert_eq!(impossible_issue_code(AssertionKind::Truthy), AssertionIssueCode::ImpossibleCondition);
    assert_eq!(impossible_issue_code(AssertionKind::IsNotNull), AssertionIssueCode::ImpossibleNullTypeComparison);
    assert_eq!(impossible_issue_code(AssertionKind::DoesNotHaveArrayKey), AssertionIssueCode::ImpossibleKeyCheck);
    assert_eq!(impossible_issue_code(AssertionKind::HasNonnullEntryForKey), AssertionIssueCode::ImpossibleNonnullEntryCheck);
    assert_eq!(impossible_issue_code(AssertionKind::IsIsset), AssertionIssueCode::ImpossibleTypeComparison);
    assert_eq!(redundant_issue_code(AssertionKind::IsEqualIsset), AssertionIssueCode::RedundantIssetCheck);
    assert_eq!(redundant_issue_code(AssertionKind::Falsy), AssertionIssueCode::RedundantCondition);
    assert_eq!(redundant_issue_code(AssertionKind::HasArrayKey), AssertionIssueCode::RedundantKeyCheck);
    assert_eq!(redundant_issue_code(AssertionKind::HasNonnullEntryForKey), AssertionIssueCode::RedundantNonnullEntryCheck);
    assert_eq!(redundant_issue_code(AssertionKind::IsNonNullMixed), AssertionIssueCode::RedundantNonnullTypeComparison);
    assert_eq!(redundant_issue_code(AssertionKind::IsNotNonNullMixed), AssertionIssueCode::RedundantTypeComparison);
    assert_eq!(redundant_issue_code(AssertionKind::IsNull), AssertionIssueCode::RedundantTypeComparison);
}

#[test]
fn reports_of_always_true_or_false_assertions() {
    let r = trigger_issue_for_impossible(AssertionKind::Truthy, b"truthy", false, false);
    assert_eq!(r.code, AssertionIssueCode::ImpossibleCondition);
    assert_eq!(r.assertion_atom, b"truthy".to_vec());
    let r = trigger_issue_for_impossible(AssertionKind::Truthy, b"truthy", true, false);
    assert_eq!(r.code, AssertionIssueCode::RedundantCondition);
    let r = trigger_issue_for_impossible(AssertionKind::IsNotNull, b"!null", false, false);
    assert_eq!(r.code, AssertionIssueCode::RedundantTypeComparison);
    assert_eq!(r.assertion_atom, b"null".to_vec());
    let r = trigger_issue_for_impossible(AssertionKind::IsNotNull, b"!null", true, false);
    assert_eq!(r.code, AssertionIssueCode::ImpossibleNullTypeComparison);
    let r = trigger_issue_for_impossible(AssertionKind::IsNotNull, b"!null", true, true);
    assert_eq!(r.code, AssertionIssueCode::ImpossibleNullTypeComparison);
    assert_eq!(r.assertion_atom, b"null".to_vec());
}

#[test]
fn negated_truthiness_flips_to_its_opposite() {
    let r = trigger_issue_for_impossible(AssertionKind::Falsy, b"!falsy", true, false);
    assert_eq!(r.code, AssertionIssueCode::RedundantCondition);
    assert_eq!(r.assertion_atom, b"truthy".to_vec());
    let r = trigger_issue_for_impossible(AssertionKind::Truthy, b"truthy", false, true);
    assert_eq!(r.code, AssertionIssueCode::RedundantCondition);
    assert_eq!(r.assertion_atom, b"falsy".to_vec());
    let r = trigger_issue_for_impossible(AssertionKind::Falsy, b"!falsy", true, true);
    assert_eq!(r.code, AssertionIssueCode::ImpossibleCondition);
    assert_eq!(r.assertion_atom, b"falsy".to_vec());
}

#[test]
fn context_negation_keeps_the_verdict_of_ordinary_assertions() {
    for (atom, kind) in [(&b"string"[..], AssertionKind::Other), (&b"!int"[..], AssertionKind::Other), (&b"isset"[..], AssertionKind::IsIsset)] {
        for redundant in [false, true] {
            let plain = trigger_issue_for_impossible(kind, atom, redundant, false);
            let negated = trigger_issue_for_impossible(kind, atom, redundant, true);
            assert_eq!(plain.code, negated.code);
            assert_eq!(plain.assertion_atom, negated.assertion_atom);
        }
    }
}

#[test]
fn refinement_verdicts() {
    assert_eq!(refinement_verdict(true, false, false, false), Some(true));
    assert_eq!(refinement_verdict(true, false, true, false), None);
    assert_eq!(refinement_verdict(true, false, false, true), None);
    assert_eq!(refinement_verdict(false, true, false, false), Some(false));
    assert_eq!(refinement_verdict(false, false, false, false), None);
}

#[test]
fn types_of_variables_without_one() {
    assert_eq!(missing_type(AssertionKind::IsIsset, Some(b"$a"), true), MissingType::Mixed { from_loop: true });
    assert_eq!(missing_type(AssertionKind::IsEqualIsset, None, false), MissingType::Mixed { from_loop: false });
    assert_eq!(missing_type(AssertionKind::IsNotIsset, Some(b"$a['k']"), false), MissingType::PossiblyUndefinedMixed);
    assert_eq!(missing_type(AssertionKind::ArrayKeyDoesNotExist, Some(b"$a->p"), false), MissingType::PossiblyUndefinedMixed);
    assert_eq!(missing_type(AssertionKind::IsNotIsset, Some(b"$a"), false), MissingType::UndefinedNull);
    assert_eq!(missing_type(AssertionKind::IsNotIsset, Some(b"$a-"), false), MissingType::UndefinedNull);
    assert_eq!(missing_type(AssertionKind::IsNotIsset, None, false), MissingType::UndefinedNull);
    assert_eq!(missing_type(AssertionKind::IsIdentical, Some(b"$a"), true), MissingType::AssertedType);
    assert_eq!(missing_type(AssertionKind::IsType, Some(b"$a"), true), MissingType::AssertedType);
    assert_eq!(missing_type(AssertionKind::IsNull, None, true), MissingType::AssertedType);
    assert_eq!(missing_type(AssertionKind::IsNotNull, None, true), MissingType::Mixed { from_loop: false });
    assert_eq!(missing_type(AssertionKind::Truthy, None, true), MissingType::Mixed { from_loop: false });
}
