use mago_analyzer::null_access::{report_access_on_null, NullAccessCode, NullAccessIssue};

#[test]
fn null_property_access_issues() {
    let null = Some(NullAccessIssue { code: NullAccessCode::NullPropertyAccess, suggests_nullsafe: false });
    assert_eq!(report_access_on_null(true, true, false, false), null);
    assert_eq!(report_access_on_null(false, true, true, true), null);
    assert_eq!(
        report_access_on_null(true, false, true, false),
        Some(NullAccessIssue { code: NullAccessCode::PossiblyNullPropertyAccess, suggests_nullsafe: false })
    );
    assert_eq!(report_access_on_null(false, false, true, false), None);
    assert_eq!(
        report_access_on_null(false, false, false, true),
        Some(NullAccessIssue { code: NullAccessCode::PossiblyNullPropertyAccess, suggests_nullsafe: false })
    );
    assert_eq!(
        report_access_on_null(false, false, false, false),
        Some(NullAccessIssue { code: NullAccessCode::PossiblyNullPropertyAccess, suggests_nullsafe: true })
    );
}
