//! What loop analysis decides between iterations: how the integer range of a
//! loop-carried variable is widened so that the iteration reaches a fixed
//! point, and which issues of a do-while loop's first iteration are kept.
use vstd::prelude::*;
use crate::guards::bytes_eq;
use crate::loops::{is_truthiness_code, spec_is_truthiness_code, IntegerBounds};

verus! {

/// The smallest range holding both ranges: the lower of the lower bounds and
/// the higher of the upper bounds, unbounded when either is.
pub open spec fn join_bounds(a: IntegerBounds, b: IntegerBounds) -> IntegerBounds {
    IntegerBounds {
        lower: match (a.lower, b.lower) {
            (Some(x), Some(y)) => Some(if x <= y { x } else { y }),
            _ => None,
        },
        upper: match (a.upper, b.upper) {
            (Some(x), Some(y)) => Some(if x >= y { x } else { y }),
            _ => None,
        },
    }
}

/// The range of a union of integer types, joined from the first on; `None`
/// for no types.
pub open spec fn joined_bounds(s: Seq<IntegerBounds>) -> Option<IntegerBounds>
    decreases s.len(),
{
    if s.len() == 0 {
        None
    } else {
        match joined_bounds(s.drop_last()) {
            None => Some(s.last()),
            Some(b) => Some(join_bounds(b, s.last())),
        }
    }
}

/// A bound that the loop body moved past the one the variable had before the
/// loop is dropped: an upper bound that grew, or a lower bound that shrank,
/// becomes unbounded. A bound the body left unbounded while the variable had
/// one counts as moved.
pub open spec fn widen_bounds(parent: IntegerBounds, body: IntegerBounds) -> IntegerBounds {
    let upper_grew = match (parent.upper, body.upper) {
        (Some(p), Some(b)) => b > p,
        (Some(_), None) => true,
        _ => false,
    };
    let lower_shrank = match (parent.lower, body.lower) {
        (Some(p), Some(b)) => b < p,
        (Some(_), None) => true,
        _ => false,
    };
    IntegerBounds {
        lower: if lower_shrank { None } else { body.lower },
        upper: if upper_grew { None } else { body.upper },
    }
}

/// The new range of a loop-carried integer variable, when it changes: the
/// variable held one integer type of range `parent` before the loop, and the
/// loop body left it with the integer types of ranges `body`.
pub open spec fn spec_widened_loop_bounds(parent: IntegerBounds, body: Seq<IntegerBounds>) -> Option<IntegerBounds> {
    match joined_bounds(body) {
        None => None,
        Some(b) => if widen_bounds(parent, b) != b {
            Some(widen_bounds(parent, b))
        } else {
            None
        },
    }
}

fn join(a: IntegerBounds, b: IntegerBounds) -> (r: IntegerBounds)
    ensures
        r == join_bounds(a, b),
{
    IntegerBounds {
        lower: match (a.lower, b.lower) {
            (Some(x), Some(y)) => Some(if x <= y { x } else { y }),
            _ => None,
        },
        upper: match (a.upper, b.upper) {
            (Some(x), Some(y)) => Some(if x >= y { x } else { y }),
            _ => None,
        },
    }
}

/// Widens the range of a loop-carried integer variable between iterations:
/// `Some` with the new range when a bound must be dropped, `None` when the
/// body's range stands (or the body gave no integer type).
pub fn widen_loop_integer_bounds(parent: IntegerBounds, body: &Vec<IntegerBounds>) -> (r: Option<IntegerBounds>)
    ensures
        r == spec_widened_loop_bounds(parent, body@),
{
    let mut joined: Option<IntegerBounds> = None;
    let mut k: usize = 0;
    assert(body@.subrange(0, 0) =~= Seq::<IntegerBounds>::empty());
    while k < body.len()
        invariant
            k <= body@.len(),
            joined == joined_bounds(body@.subrange(0, k as int)),
        decreases body.len() - k,
    {
        let b = body[k];
        assert(body@.subrange(0, k + 1).drop_last() =~= body@.subrange(0, k as int));
        joined = match joined {
            None => Some(b),
            Some(j) => Some(join(j, b)),
        };
        k += 1;
    }
    assert(body@.subrange(0, k as int) =~= body@);
    match joined {
        None => None,
        Some(b) => {
            let upper_grew = match (parent.upper, b.upper) {
                (Some(p), Some(u)) => u > p,
                (Some(_), None) => true,
                _ => false,
            };
            let lower_shrank = match (parent.lower, b.lower) {
                (Some(p), Some(l)) => l < p,
                (Some(_), None) => true,
                _ => false,
            };
            let widened = IntegerBounds {
                lower: if lower_shrank { None } else { b.lower },
                upper: if upper_grew { None } else { b.upper },
            };
            if widened != b {
                Some(widened)
            } else {
                None
            }
        },
    }
}

/// `outer` holds every integer that `inner` holds.
pub open spec fn range_contains(outer: IntegerBounds, inner: IntegerBounds) -> bool {
    &&& (match outer.lower {
        Some(o) => match inner.lower {
            Some(i) => o <= i,
            None => false,
        },
        None => true,
    })
    &&& (match outer.upper {
        Some(o) => match inner.upper {
            Some(i) => i <= o,
            None => false,
        },
        None => true,
    })
}

/// Widening never narrows: the widened range holds all the body's values,
/// and each bound it keeps lies within the corresponding bound the variable
/// had before the loop.
pub proof fn lemma_widening_keeps_the_body_range(parent: IntegerBounds, body: IntegerBounds)
    ensures
        range_contains(widen_bounds(parent, body), body),
        parent.upper matches Some(p) ==> (widen_bounds(parent, body).upper matches Some(u) ==> u <= p),
        parent.lower matches Some(p) ==> (widen_bounds(parent, body).lower matches Some(l) ==> p <= l),
{
}

/// An issue found while analyzing a loop body: its code and everything else
/// it holds (message, annotations, notes), in one encoding. Two issues are
/// the same when both are equal.
#[derive(Debug)]
pub struct RecordedIssue {
    pub code: Option<Vec<u8>>,
    pub details: Vec<u8>,
}

pub open spec fn issue_view(i: RecordedIssue) -> (Option<Seq<u8>>, Seq<u8>) {
    (match i.code {
        Some(c) => Some(c@),
        None => None,
    }, i.details@)
}

pub open spec fn issues_view(s: Seq<RecordedIssue>) -> Seq<(Option<Seq<u8>>, Seq<u8>)> {
    s.map_values(|i: RecordedIssue| issue_view(i))
}

/// The issue claims that a condition or comparison is always true or false.
pub open spec fn is_truthiness_issue(i: (Option<Seq<u8>>, Seq<u8>)) -> bool {
    match i.0 {
        Some(c) => spec_is_truthiness_code(c),
        None => false,
    }
}

/// The issues a do-while loop reports: those of its last analyzed iteration,
/// then each issue of its first iteration that does not claim a condition
/// always true or false and is not reported yet.
pub open spec fn merged_issues(recorded: Seq<(Option<Seq<u8>>, Seq<u8>)>, first: Seq<(Option<Seq<u8>>, Seq<u8>)>) -> Seq<(Option<Seq<u8>>, Seq<u8>)>
    decreases first.len(),
{
    if first.len() == 0 {
        recorded
    } else {
        let so_far = merged_issues(recorded, first.drop_last());
        let issue = first.last();
        if !is_truthiness_issue(issue) && !so_far.contains(issue) {
            so_far.push(issue)
        } else {
            so_far
        }
    }
}

fn same_issue(a: &RecordedIssue, b: &RecordedIssue) -> (r: bool)
    ensures
        r == (issue_view(*a) == issue_view(*b)),
{
    let same_code = match (&a.code, &b.code) {
        (Some(x), Some(y)) => bytes_eq(x.as_slice(), y.as_slice()),
        (None, None) => true,
        _ => false,
    };
    same_code && bytes_eq(a.details.as_slice(), b.details.as_slice())
}

fn copy_issue(i: &RecordedIssue) -> (r: RecordedIssue)
    ensures
        issue_view(r) == issue_view(*i),
{
    RecordedIssue {
        code: match &i.code {
            Some(c) => Some(crate::expr_id::bytes_of(c.as_slice())),
            None => None,
        },
        details: crate::expr_id::bytes_of(i.details.as_slice()),
    }
}

fn is_reported(issues: &Vec<RecordedIssue>, issue: &RecordedIssue) -> (r: bool)
    ensures
        r == issues_view(issues@).contains(issue_view(*issue)),
{
    let mut k: usize = 0;
    while k < issues.len()
        invariant
            k <= issues@.len(),
            forall|i: int| 0 <= i < k ==> issue_view(#[trigger] issues@[i]) != issue_view(*issue),
        decreases issues.len() - k,
    {
        if same_issue(&issues[k], issue) {
            assert(issues_view(issues@)[k as int] == issue_view(*issue));
            return true;
        }
        k += 1;
    }
    proof {
        if issues_view(issues@).contains(issue_view(*issue)) {
            let j = choose|j: int| 0 <= j < issues_view(issues@).len() && issues_view(issues@)[j] == issue_view(*issue);
            assert(issue_view(issues@[j]) != issue_view(*issue));
        }
    }
    false
}

/// Adds to the issues of a do-while loop's last analyzed iteration the
/// issues of its first iteration that stand: a safety issue found on the
/// first iteration is real, since a do-while body always runs once, while a
/// claim that a condition is always true or false holds only if the last
/// iteration makes it too.
pub fn merge_do_while_issues(recorded: &mut Vec<RecordedIssue>, first_iteration: &Vec<RecordedIssue>)
    ensures
        issues_view(final(recorded)@) == merged_issues(issues_view(old(recorded)@), issues_view(first_iteration@)),
{
    let ghost start = issues_view(recorded@);
    let mut k: usize = 0;
    assert(issues_view(first_iteration@).subrange(0, 0) =~= Seq::<(Option<Seq<u8>>, Seq<u8>)>::empty());
    while k < first_iteration.len()
        invariant
            k <= first_iteration@.len(),
            issues_view(recorded@) == merged_issues(start, issues_view(first_iteration@).subrange(0, k as int)),
        decreases first_iteration.len() - k,
    {
        let issue = &first_iteration[k];
        let ghost prefix = issues_view(first_iteration@).subrange(0, k + 1);
        assert(prefix.drop_last() =~= issues_view(first_iteration@).subrange(0, k as int));
        assert(prefix.last() == issue_view(*issue));
        let dependent = match &issue.code {
            Some(c) => is_truthiness_code(c.as_slice()),
            None => false,
        };
        if !dependent && !is_reported(recorded, issue) {
            let ghost before = recorded@;
            recorded.push(copy_issue(issue));
            assert(issues_view(recorded@) =~= issues_view(before).push(issue_view(*issue)));
        }
        k += 1;
    }
    assert(issues_view(first_iteration@).subrange(0, k as int) =~= issues_view(first_iteration@));
}

} // verus!
