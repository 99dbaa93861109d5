use mago_analyzer::integer_narrowing::{narrow_by_integer_comparison, ComparedPart, NarrowedInteger};
use mago_analyzer::literal_equality::{narrow_by_integer_equality, AcceptedPart, EqualityOutcome, EqualityPart};

#[test]
fn comparison_bounds_an_unbounded_int() {
    let r = narrow_by_integer_comparison(&vec![ComparedPart::AnyInteger], 5, true, false);
    assert_eq!(r.integers, vec![NarrowedInteger::AtMost(4)]);
    assert!(r.kept.is_empty() && !r.is_never && r.report.is_none());
    let r = narrow_by_integer_comparison(&vec![ComparedPart::AnyInteger], 5, true, true);
    assert_eq!(r.integers, vec![NarrowedInteger::AtMost(5)]);
    let r = narrow_by_integer_comparison(&vec![ComparedPart::AnyInteger], 5, false, false);
    assert_eq!(r.integers, vec![NarrowedInteger::AtLeast(6)]);
    let r = narrow_by_integer_comparison(&vec![ComparedPart::AnyInteger], i64::MAX, false, false);
    assert_eq!(r.integers, vec![NarrowedInteger::AtLeast(i64::MAX)]);
    let r = narrow_by_integer_comparison(&vec![ComparedPart::AnyInteger], i64::MIN, true, false);
    assert_eq!(r.integers, vec![NarrowedInteger::AtMost(i64::MIN)]);
}

#[test]
fn less_than_zero_drops_null_and_false() {
    let parts = vec![ComparedPart::NullOrFalse, ComparedPart::Other, ComparedPart::Integer { narrowed: Some(true) }];
    let r = narrow_by_integer_comparison(&parts, 0, true, false);
    assert_eq!(r.kept, vec![1]);
    assert_eq!(r.integers, vec![NarrowedInteger::Narrowed { part: 2 }]);
    let r = narrow_by_integer_comparison(&parts, 1, true, false);
    assert_eq!(r.kept, vec![0, 1]);
    let r = narrow_by_integer_comparison(&parts, 0, false, false);
    assert_eq!(r.kept, vec![0, 1]);
}

#[test]
fn comparison_reports() {
    let unchanged = vec![ComparedPart::Integer { narrowed: Some(false) }];
    assert_eq!(narrow_by_integer_comparison(&unchanged, 3, true, false).report, Some(true));
    let r = narrow_by_integer_comparison(&vec![ComparedPart::Integer { narrowed: None }], 3, true, false);
    assert!(r.is_never);
    assert_eq!(r.report, Some(false));
    let r = narrow_by_integer_comparison(&vec![ComparedPart::NullOrFalse], 0, true, false);
    assert!(r.is_never);
    assert_eq!(r.report, Some(false));
    let mixed = vec![ComparedPart::Integer { narrowed: Some(false) }, ComparedPart::Integer { narrowed: Some(true) }];
    assert_eq!(narrow_by_integer_comparison(&mixed, 3, true, false).report, None);
}

#[test]
fn strict_equality_with_an_integer() {
    let parts = vec![EqualityPart::IntegerLiteral(5), EqualityPart::IntegerLiteral(6), EqualityPart::String];
    let r = narrow_by_integer_equality(&parts, 5, false, false);
    assert_eq!(r.outcome, EqualityOutcome::Parts);
    assert_eq!(r.accepted, vec![AcceptedPart::Literal]);
    assert_eq!(r.report, None);
    let r = narrow_by_integer_equality(&vec![EqualityPart::IntegerLiteral(5)], 5, false, false);
    assert_eq!(r.report, Some(true));
    let r = narrow_by_integer_equality(&vec![EqualityPart::Integer { contains_value: false }, EqualityPart::Other], 5, false, false);
    assert!(r.accepted.is_empty());
    assert_eq!(r.report, Some(false));
    assert_eq!(narrow_by_integer_equality(&vec![], 5, false, false).report, Some(true));
}

#[test]
fn loose_equality_with_an_integer() {
    let parts = vec![
        EqualityPart::StringLiteral(b"-12".to_vec()),
        EqualityPart::StringLiteral(b"012".to_vec()),
        EqualityPart::BoolLiteral(true),
        EqualityPart::FloatLiteral { equals_value: true },
        EqualityPart::Bool,
        EqualityPart::Integer { contains_value: true },
    ];
    let r = narrow_by_integer_equality(&parts, -12, true, false);
    assert_eq!(
        r.accepted,
        vec![
            AcceptedPart::Unchanged { part: 0 },
            AcceptedPart::Unchanged { part: 3 },
            AcceptedPart::Unchanged { part: 4 },
            AcceptedPart::Literal,
        ]
    );
    let bools = vec![EqualityPart::BoolLiteral(false), EqualityPart::BoolLiteral(true)];
    assert_eq!(narrow_by_integer_equality(&bools, 0, true, false).accepted, vec![AcceptedPart::Unchanged { part: 0 }]);
    assert_eq!(narrow_by_integer_equality(&bools, 1, true, false).accepted, vec![AcceptedPart::Unchanged { part: 1 }]);
    assert!(narrow_by_integer_equality(&bools, 1, false, false).accepted.is_empty());
    let r = narrow_by_integer_equality(&vec![EqualityPart::StringLiteral(b"0".to_vec())], 0, true, false);
    assert_eq!(r.accepted, vec![AcceptedPart::Unchanged { part: 0 }]);
}

#[test]
fn equality_on_wide_types_and_generics() {
    let r = narrow_by_integer_equality(&vec![EqualityPart::Other], 1, true, true);
    assert_eq!(r.outcome, EqualityOutcome::Unchanged);
    let r = narrow_by_integer_equality(&vec![EqualityPart::Other], 1, false, true);
    assert_eq!(r.outcome, EqualityOutcome::OnlyLiteral);
    assert!(r.accepted.is_empty() && r.report.is_none());
    let generic = vec![EqualityPart::GenericParameter { constraint_is_mixed: true, constraint_kept: false }];
    assert_eq!(narrow_by_integer_equality(&generic, 1, false, false).accepted, vec![AcceptedPart::Generic { part: 0 }]);
    let gone = vec![EqualityPart::GenericParameter { constraint_is_mixed: false, constraint_kept: false }];
    let r = narrow_by_integer_equality(&gone, 1, false, false);
    assert!(r.accepted.is_empty());
    assert_eq!(r.report, Some(false));
}
