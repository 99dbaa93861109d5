//! The issue raised by a property access on a value that is or may be
//! `null` (or `void`).
use vstd::prelude::*;

verus! {

#[derive(Clone, Copy, PartialEq, Eq, Structural, Debug)]
pub enum NullAccessCode {
    /// The value is always `null` (or `void`).
    NullPropertyAccess,
    /// The value may be `null` (or `void`).
    PossiblyNullPropertyAccess,
}

/// The issue of a property access on a value that may be `null`: its code,
/// and whether it offers to replace `->` by `?->`.
#[derive(Clone, Copy, PartialEq, Eq, Structural, Debug)]
pub struct NullAccessIssue {
    pub code: NullAccessCode,
    pub suggests_nullsafe: bool,
}

/// A value that is always `null` or `void` raises a null access; one that
/// may be is a possible null access, except inside `isset`, where none is
/// raised. Only a possibly `null` value outside an assignment is offered
/// the null-safe operator.
pub open spec fn spec_null_access_issue(from_void: bool, is_always_null: bool, inside_isset: bool, inside_assignment: bool) -> Option<NullAccessIssue> {
    if is_always_null {
        Some(NullAccessIssue { code: NullAccessCode::NullPropertyAccess, suggests_nullsafe: false })
    } else if from_void {
        Some(NullAccessIssue { code: NullAccessCode::PossiblyNullPropertyAccess, suggests_nullsafe: false })
    } else if inside_isset {
        None
    } else {
        Some(NullAccessIssue { code: NullAccessCode::PossiblyNullPropertyAccess, suggests_nullsafe: !inside_assignment })
    }
}

/// Decides the issue of a property access on a value whose type is or
/// includes `null` (`from_void` when it comes from `void`): none, or its
/// code and whether the null-safe operator is offered.
pub fn report_access_on_null(from_void: bool, is_always_null: bool, inside_isset: bool, inside_assignment: bool) -> (r: Option<NullAccessIssue>)
    ensures
        r == spec_null_access_issue(from_void, is_always_null, inside_isset, inside_assignment),
{
    match (from_void, is_always_null) {
        (true, true) => Some(NullAccessIssue { code: NullAccessCode::NullPropertyAccess, suggests_nullsafe: false }),
        (true, false) => Some(NullAccessIssue { code: NullAccessCode::PossiblyNullPropertyAccess, suggests_nullsafe: false }),
        (false, true) => Some(NullAccessIssue { code: NullAccessCode::NullPropertyAccess, suggests_nullsafe: false }),
        (false, false) => {
            if inside_isset {
                None
            } else if inside_assignment {
                Some(NullAccessIssue { code: NullAccessCode::PossiblyNullPropertyAccess, suggests_nullsafe: false })
            } else {
                Some(NullAccessIssue { code: NullAccessCode::PossiblyNullPropertyAccess, suggests_nullsafe: true })
            }
        },
    }
}

} // verus!
