//! How a comparison with an integer (`$a < 5`, `$a >= 0`, `$a === 5`)
//! narrows a variable's type part by part, and when the comparison is
//! reported as always or never true.
use vstd::prelude::*;

verus! {

/// One part of the compared variable's type.
#[derive(Clone, Copy, PartialEq, Eq, Structural, Debug)]
pub enum ComparedPart {
    /// `null` or `false`.
    NullOrFalse,
    /// `int`, with no bound.
    AnyInteger,
    /// A bounded or literal integer, with what narrowing it by the
    /// comparison gives: `None` when nothing of it is left, else whether
    /// the narrowed integer differs from it.
    Integer { narrowed: Option<bool> },
    /// Anything else.
    Other,
}

/// An integer part of the narrowed type.
#[derive(Clone, Copy, PartialEq, Eq, Structural, Debug)]
pub enum NarrowedInteger {
    /// `int<min, bound>`.
    AtMost(i64),
    /// `int<bound, max>`.
    AtLeast(i64),
    /// The part at this index, narrowed.
    Narrowed { part: usize },
}

/// The outcome of narrowing by a comparison.
#[derive(Debug)]
pub struct ComparisonNarrowing {
    /// The indices of the parts that are not integers and are kept.
    pub kept: Vec<usize>,
    /// The integers of the new type, after the kept parts.
    pub integers: Vec<NarrowedInteger>,
    /// Nothing is left: the type becomes `never`.
    pub is_never: bool,
    /// How the comparison is reported: `Some(true)` always true, `Some(false)` never true.
    pub report: Option<bool>,
}

pub struct NarrowingScan {
    pub kept: Seq<usize>,
    pub integers: Seq<NarrowedInteger>,
    pub redundant: bool,
}

/// `value - 1`, or `value` where that would overflow.
pub open spec fn saturating_pred(value: i64) -> i64 {
    if value == i64::MIN { value } else { (value - 1) as i64 }
}

/// `value + 1`, or `value` where that would overflow.
pub open spec fn saturating_succ(value: i64) -> i64 {
    if value == i64::MAX { value } else { (value + 1) as i64 }
}

/// The bound an unbounded `int` gets.
pub open spec fn spec_bound(value: i64, is_less_than: bool, or_equal: bool) -> NarrowedInteger {
    if is_less_than {
        NarrowedInteger::AtMost(if or_equal { value } else { saturating_pred(value) })
    } else {
        NarrowedInteger::AtLeast(if or_equal { value } else { saturating_succ(value) })
    }
}

/// One part: `< 0` drops `null` and `false`; other non-integers stay; an
/// unbounded `int` gets the comparison's bound; a bounded integer is
/// narrowed, or dropped when nothing of it is left. The comparison stays
/// redundant only while every part is an integer that narrowing leaves as
/// it was.
pub open spec fn narrow_part(st: NarrowingScan, p: ComparedPart, index: nat, value: i64, is_less_than: bool, or_equal: bool) -> NarrowingScan {
    match p {
        ComparedPart::NullOrFalse => NarrowingScan {
            kept: if is_less_than && value == 0 { st.kept } else { st.kept.push(index as usize) },
            redundant: false,
            ..st
        },
        ComparedPart::Other => NarrowingScan { kept: st.kept.push(index as usize), redundant: false, ..st },
        ComparedPart::AnyInteger => NarrowingScan {
            integers: st.integers.push(spec_bound(value, is_less_than, or_equal)),
            redundant: false,
            ..st
        },
        ComparedPart::Integer { narrowed } => match narrowed {
            Some(changed) => NarrowingScan {
                integers: st.integers.push(NarrowedInteger::Narrowed { part: index as usize }),
                redundant: st.redundant && !changed,
                ..st
            },
            None => NarrowingScan { redundant: false, ..st },
        },
    }
}

pub open spec fn narrow_parts(parts: Seq<ComparedPart>, value: i64, is_less_than: bool, or_equal: bool) -> NarrowingScan
    decreases parts.len(),
{
    if parts.len() == 0 {
        NarrowingScan { kept: Seq::empty(), integers: Seq::empty(), redundant: true }
    } else {
        narrow_part(narrow_parts(parts.drop_last(), value, is_less_than, or_equal), parts.last(), (parts.len() - 1) as nat, value, is_less_than, or_equal)
    }
}

/// A comparison that leaves every part as it was is reported as always
/// true; one that leaves nothing is reported as never true, and the type
/// becomes `never`.
pub open spec fn spec_report(st: NarrowingScan) -> Option<bool> {
    let empty = st.kept.len() == 0 && st.integers.len() == 0;
    if st.redundant || empty { Some(st.redundant) } else { None }
}

/// Narrows a type with these parts by the comparison with `value`
/// (`<` or `<=` when `is_less_than`, else `>` or `>=`; `or_equal` for the
/// non-strict ones).
pub fn narrow_by_integer_comparison(parts: &Vec<ComparedPart>, value: i64, is_less_than: bool, or_equal: bool) -> (r: ComparisonNarrowing)
    ensures
        ({
            let st = narrow_parts(parts@, value, is_less_than, or_equal);
            &&& r.kept@ == st.kept
            &&& r.integers@ == st.integers
            &&& r.is_never == (st.kept.len() == 0 && st.integers.len() == 0)
            &&& r.report == spec_report(st)
        }),
{
    let mut kept: Vec<usize> = Vec::new();
    let mut integers: Vec<NarrowedInteger> = Vec::new();
    let mut redundant = true;
    assert(kept@ =~= Seq::<usize>::empty());
    assert(integers@ =~= Seq::<NarrowedInteger>::empty());
    let mut i: usize = 0;
    while i < parts.len()
        invariant
            i <= parts.len(),
            ({
                let st = narrow_parts(parts@.take(i as int), value, is_less_than, or_equal);
                &&& st.kept == kept@
                &&& st.integers == integers@
                &&& st.redundant == redundant
            }),
        decreases parts.len() - i,
    {
        proof {
            assert(parts@.take((i + 1) as int).drop_last() =~= parts@.take(i as int));
        }
        match parts[i] {
            ComparedPart::NullOrFalse => {
                if !(is_less_than && value == 0) {
                    kept.push(i);
                }
                redundant = false;
            },
            ComparedPart::Other => {
                kept.push(i);
                redundant = false;
            },
            ComparedPart::AnyInteger => {
                let bound = if is_less_than {
                    NarrowedInteger::AtMost(if or_equal || value == i64::MIN { value } else { value - 1 })
                } else {
                    NarrowedInteger::AtLeast(if or_equal || value == i64::MAX { value } else { value + 1 })
                };
                integers.push(bound);
                redundant = false;
            },
            ComparedPart::Integer { narrowed } => match narrowed {
                Some(changed) => {
                    integers.push(NarrowedInteger::Narrowed { part: i });
                    if changed {
                        redundant = false;
                    }
                },
                None => {
                    redundant = false;
                },
            },
        }
        i = i + 1;
    }
    proof {
        assert(parts@.take(parts.len() as int) =~= parts@);
    }
    let is_never = kept.len() == 0 && integers.len() == 0;
    let report = if redundant || is_never { Some(redundant) } else { None };
    ComparisonNarrowing { kept, integers, is_never, report }
}

} // verus!
