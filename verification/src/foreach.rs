//! What a `foreach` decides from the type of the expression it iterates:
//! the issues it raises, whether the loop is always entered, and where the
//! key and value types come from.
use vstd::prelude::*;

verus! {

/// One part of the iterated type (a generic parameter read as its
/// constraint), by what iterating it gives.
#[derive(Clone, Copy, PartialEq, Eq, Structural, Debug)]
pub enum IteratorPart {
    /// `null` or `false`.
    NullOrFalse,
    /// An array, and whether it is known to be non-empty.
    Array { non_empty: bool },
    /// `iterable<K, V>`.
    Iterable,
    /// `object` of no known class (or known only by its shape or assertions).
    GenericObject,
    /// An object of a named class, and whether the class is traversable.
    NamedObject { traversable: bool },
    /// An enum case, and whether the enum is backed.
    Enum { backed: bool },
    /// Anything else: not iterable.
    Other,
}

/// What the analysis knows of the iterated type.
#[derive(Debug)]
pub struct IteratorFacts {
    /// The type of the iterated expression is known.
    pub known: bool,
    pub is_never: bool,
    /// The type is only `null`.
    pub is_null: bool,
    /// The type is only `false`.
    pub is_false: bool,
    /// The type may be `null`, and that is not to be ignored.
    pub reports_nullable: bool,
    /// The type may be `false`, and that is not to be ignored.
    pub reports_falsable: bool,
    pub parts: Vec<IteratorPart>,
}

/// The issues a `foreach` raises on what it iterates.
#[derive(Clone, Copy, PartialEq, Eq, Structural, Debug)]
pub enum IteratorIssue {
    UnknownIteratorType,
    NullIterator,
    FalseIterator,
    PossiblyNullIterator,
    PossiblyFalseIterator,
    /// Iterating an object of no known class: its public properties.
    GenericObjectIteration,
    /// Iterating an object of a class that is not traversable (the part's index).
    NonIterableObjectIteration { part: usize },
    /// Iterating an enum case (the part's index, and whether the enum is backed).
    EnumIteration { part: usize, backed: bool },
    /// No part is iterable.
    InvalidIterator,
    /// Some part is not iterable.
    PossiblyInvalidIterator,
}

/// Where the key and value types of one iterable part come from.
#[derive(Clone, Copy, PartialEq, Eq, Structural, Debug)]
pub enum PartTypes {
    /// The array's key and value parameters.
    ArrayParameters,
    /// The iterable's key and value types.
    IterableParameters,
    /// The traversable class's key and value parameters.
    TraversableParameters,
    /// Public properties: `string` keys, `mixed` values.
    PublicProperties,
    /// The enum case's `name` (and `value` when backed).
    EnumCaseProperties { backed: bool },
}

/// The key and value types of the loop.
#[derive(Clone, Copy, PartialEq, Eq, Structural, Debug)]
pub enum IteratedTypes {
    /// `mixed` keys and values.
    Mixed,
    /// `never` keys and values: the body never runs.
    Never,
    /// `array-key` keys and `never` values (iterating `false`).
    ArrayKeysNoValues,
    /// The union of the parts' types (`mixed` where no part gives one).
    FromParts,
}

/// What a `foreach` decides about its iterated expression.
#[derive(Debug)]
pub struct IteratorPlan {
    pub issues: Vec<IteratorIssue>,
    pub always_enters_loop: bool,
    pub types: IteratedTypes,
    /// The source of each iterable part's types, in order.
    pub part_types: Vec<PartTypes>,
    /// The indices of the parts that are not iterable.
    pub invalid_parts: Vec<usize>,
}

/// The state of the scan over the parts.
pub struct IteratorScan {
    pub issues: Seq<IteratorIssue>,
    pub always_enters: bool,
    pub has_valid: bool,
    pub part_types: Seq<PartTypes>,
    pub invalid_parts: Seq<usize>,
}

/// One part: `null`/`false` may skip the loop; arrays, iterables, objects
/// and enums are iterable (an array that may be empty, an iterable or an
/// object may skip the loop); objects of no known class, non-traversable
/// classes and enums are reported; anything else is not iterable.
pub open spec fn scan_part(st: IteratorScan, p: IteratorPart, index: nat) -> IteratorScan {
    match p {
        IteratorPart::NullOrFalse => IteratorScan { always_enters: false, ..st },
        IteratorPart::Array { non_empty } => IteratorScan {
            always_enters: st.always_enters && non_empty,
            has_valid: true,
            part_types: st.part_types.push(PartTypes::ArrayParameters),
            ..st
        },
        IteratorPart::Iterable => IteratorScan {
            always_enters: false,
            has_valid: true,
            part_types: st.part_types.push(PartTypes::IterableParameters),
            ..st
        },
        IteratorPart::GenericObject => IteratorScan {
            issues: st.issues.push(IteratorIssue::GenericObjectIteration),
            always_enters: false,
            has_valid: true,
            part_types: st.part_types.push(PartTypes::PublicProperties),
            ..st
        },
        IteratorPart::NamedObject { traversable } => if traversable {
            IteratorScan {
                always_enters: false,
                has_valid: true,
                part_types: st.part_types.push(PartTypes::TraversableParameters),
                ..st
            }
        } else {
            IteratorScan {
                issues: st.issues.push(IteratorIssue::NonIterableObjectIteration { part: index as usize }),
                always_enters: false,
                has_valid: true,
                part_types: st.part_types.push(PartTypes::PublicProperties),
                ..st
            }
        },
        IteratorPart::Enum { backed } => IteratorScan {
            issues: st.issues.push(IteratorIssue::EnumIteration { part: index as usize, backed }),
            has_valid: true,
            part_types: st.part_types.push(PartTypes::EnumCaseProperties { backed }),
            ..st
        },
        IteratorPart::Other => IteratorScan { invalid_parts: st.invalid_parts.push(index as usize), ..st },
    }
}

pub open spec fn scan_parts(st: IteratorScan, parts: Seq<IteratorPart>) -> IteratorScan
    decreases parts.len(),
{
    if parts.len() == 0 {
        st
    } else {
        scan_part(scan_parts(st, parts.drop_last()), parts.last(), (parts.len() - 1) as nat)
    }
}

/// The model of a plan: issues, whether the loop is always entered, the
/// types, the parts' type sources, the parts that are not iterable.
pub struct PlanModel {
    pub issues: Seq<IteratorIssue>,
    pub always_enters_loop: bool,
    pub types: IteratedTypes,
    pub part_types: Seq<PartTypes>,
    pub invalid_parts: Seq<usize>,
}

pub open spec fn plan_view(p: IteratorPlan) -> PlanModel {
    PlanModel {
        issues: p.issues@,
        always_enters_loop: p.always_enters_loop,
        types: p.types,
        part_types: p.part_types@,
        invalid_parts: p.invalid_parts@,
    }
}

pub open spec fn early_plan(issue: Option<IteratorIssue>, types: IteratedTypes) -> PlanModel {
    PlanModel {
        issues: match issue { Some(i) => seq![i], None => Seq::empty() },
        always_enters_loop: false,
        types,
        part_types: Seq::empty(),
        invalid_parts: Seq::empty(),
    }
}

/// An unknown type is reported and gives `mixed`; `never` gives `never`;
/// `null` and `false` alone are reported and the body never runs. Otherwise
/// a type that may be `null` or `false` is reported, the parts are scanned,
/// and: no iterable part is an error (the body never runs); some part that
/// is not iterable is a warning (`mixed` types); else the parts give the
/// types, and the loop is always entered when every part is a non-empty
/// array or an enum case.
pub open spec fn spec_iterator_plan(known: bool, is_never: bool, is_null: bool, is_false: bool, reports_nullable: bool, reports_falsable: bool, parts: Seq<IteratorPart>) -> PlanModel {
    if !known {
        early_plan(Some(IteratorIssue::UnknownIteratorType), IteratedTypes::Mixed)
    } else if is_never {
        early_plan(None, IteratedTypes::Never)
    } else if is_null {
        early_plan(Some(IteratorIssue::NullIterator), IteratedTypes::Never)
    } else if is_false {
        early_plan(Some(IteratorIssue::FalseIterator), IteratedTypes::ArrayKeysNoValues)
    } else {
        let i0 = Seq::<IteratorIssue>::empty();
        let i1 = if reports_nullable { i0.push(IteratorIssue::PossiblyNullIterator) } else { i0 };
        let i2 = if reports_falsable { i1.push(IteratorIssue::PossiblyFalseIterator) } else { i1 };
        let st = scan_parts(IteratorScan {
            issues: i2,
            always_enters: true,
            has_valid: false,
            part_types: Seq::empty(),
            invalid_parts: Seq::empty(),
        }, parts);
        if !st.has_valid {
            PlanModel {
                issues: st.issues.push(IteratorIssue::InvalidIterator),
                always_enters_loop: false,
                types: IteratedTypes::Never,
                part_types: st.part_types,
                invalid_parts: st.invalid_parts,
            }
        } else if st.invalid_parts.len() > 0 {
            PlanModel {
                issues: st.issues.push(IteratorIssue::PossiblyInvalidIterator),
                always_enters_loop: false,
                types: IteratedTypes::Mixed,
                part_types: st.part_types,
                invalid_parts: st.invalid_parts,
            }
        } else {
            PlanModel {
                issues: st.issues,
                always_enters_loop: st.always_enters,
                types: IteratedTypes::FromParts,
                part_types: st.part_types,
                invalid_parts: st.invalid_parts,
            }
        }
    }
}

pub open spec fn facts_plan(f: IteratorFacts) -> PlanModel {
    spec_iterator_plan(f.known, f.is_never, f.is_null, f.is_false, f.reports_nullable, f.reports_falsable, f.parts@)
}

fn early(issue: Option<IteratorIssue>, types: IteratedTypes) -> (r: IteratorPlan)
    ensures
        plan_view(r) == early_plan(issue, types),
{
    let mut issues: Vec<IteratorIssue> = Vec::new();
    match issue {
        Some(i) => {
            issues.push(i);
            assert(issues@ =~= seq![i]);
        },
        None => {
            assert(issues@ =~= Seq::<IteratorIssue>::empty());
        },
    }
    let r = IteratorPlan { issues, always_enters_loop: false, types, part_types: Vec::new(), invalid_parts: Vec::new() };
    assert(r.part_types@ =~= Seq::<PartTypes>::empty());
    assert(r.invalid_parts@ =~= Seq::<usize>::empty());
    r
}

/// Decides what a `foreach` raises and concludes from what it knows of the
/// iterated type.
pub fn plan_foreach_iterator(facts: &IteratorFacts) -> (r: IteratorPlan)
    ensures
        plan_view(r) == facts_plan(*facts),
{
    if !facts.known {
        return early(Some(IteratorIssue::UnknownIteratorType), IteratedTypes::Mixed);
    }
    if facts.is_never {
        return early(None, IteratedTypes::Never);
    }
    if facts.is_null {
        return early(Some(IteratorIssue::NullIterator), IteratedTypes::Never);
    }
    if facts.is_false {
        return early(Some(IteratorIssue::FalseIterator), IteratedTypes::ArrayKeysNoValues);
    }
    let mut issues: Vec<IteratorIssue> = Vec::new();
    if facts.reports_nullable {
        issues.push(IteratorIssue::PossiblyNullIterator);
    }
    if facts.reports_falsable {
        issues.push(IteratorIssue::PossiblyFalseIterator);
    }
    let ghost st0 = IteratorScan {
        issues: issues@,
        always_enters: true,
        has_valid: false,
        part_types: Seq::empty(),
        invalid_parts: Seq::empty(),
    };
    let mut always_enters = true;
    let mut has_valid = false;
    let mut part_types: Vec<PartTypes> = Vec::new();
    let mut invalid_parts: Vec<usize> = Vec::new();
    assert(part_types@ =~= Seq::<PartTypes>::empty());
    assert(invalid_parts@ =~= Seq::<usize>::empty());
    let parts = &facts.parts;
    let mut i: usize = 0;
    while i < parts.len()
        invariant
            i <= parts.len(),
            ({
                let st = scan_parts(st0, parts@.take(i as int));
                &&& st.issues == issues@
                &&& st.always_enters == always_enters
                &&& st.has_valid == has_valid
                &&& st.part_types == part_types@
                &&& st.invalid_parts == invalid_parts@
            }),
        decreases parts.len() - i,
    {
        proof {
            assert(parts@.take((i + 1) as int).drop_last() =~= parts@.take(i as int));
        }
        match parts[i] {
            IteratorPart::NullOrFalse => {
                always_enters = false;
            },
            IteratorPart::Array { non_empty } => {
                always_enters = always_enters && non_empty;
                has_valid = true;
                part_types.push(PartTypes::ArrayParameters);
            },
            IteratorPart::Iterable => {
                always_enters = false;
                has_valid = true;
                part_types.push(PartTypes::IterableParameters);
            },
            IteratorPart::GenericObject => {
                issues.push(IteratorIssue::GenericObjectIteration);
                always_enters = false;
                has_valid = true;
                part_types.push(PartTypes::PublicProperties);
            },
            IteratorPart::NamedObject { traversable } => {
                always_enters = false;
                has_valid = true;
                if traversable {
                    part_types.push(PartTypes::TraversableParameters);
                } else {
                    issues.push(IteratorIssue::NonIterableObjectIteration { part: i });
                    part_types.push(PartTypes::PublicProperties);
                }
            },
            IteratorPart::Enum { backed } => {
                issues.push(IteratorIssue::EnumIteration { part: i, backed });
                has_valid = true;
                part_types.push(PartTypes::EnumCaseProperties { backed });
            },
            IteratorPart::Other => {
                invalid_parts.push(i);
            },
        }
        i = i + 1;
    }
    proof {
        assert(parts@.take(parts.len() as int) =~= parts@);
    }
    if !has_valid {
        issues.push(IteratorIssue::InvalidIterator);
        IteratorPlan { issues, always_enters_loop: false, types: IteratedTypes::Never, part_types, invalid_parts }
    } else if invalid_parts.len() > 0 {
        issues.push(IteratorIssue::PossiblyInvalidIterator);
        IteratorPlan { issues, always_enters_loop: false, types: IteratedTypes::Mixed, part_types, invalid_parts }
    } else {
        IteratorPlan { issues, always_enters_loop: always_enters, types: IteratedTypes::FromParts, part_types, invalid_parts }
    }
}

/// A part that always yields at least one entry: a non-empty array or an enum case.
pub open spec fn always_yields(p: IteratorPart) -> bool {
    p == IteratorPart::Array { non_empty: true } || p is Enum
}

proof fn lemma_scan_entering(st: IteratorScan, parts: Seq<IteratorPart>)
    ensures
        scan_parts(st, parts).always_enters ==> st.always_enters && forall|i: int| 0 <= i < parts.len() ==> always_yields(#[trigger] parts[i]) || parts[i] is Other,
        scan_parts(st, parts).invalid_parts.len() == 0 ==> forall|i: int| 0 <= i < parts.len() ==> !((#[trigger] parts[i]) is Other),
        scan_parts(st, parts).has_valid ==> st.has_valid || parts.len() > 0,
    decreases parts.len(),
{
    if parts.len() > 0 {
        let prev = scan_parts(st, parts.drop_last());
        lemma_scan_entering(st, parts.drop_last());
        assert(scan_parts(st, parts).invalid_parts.len() >= prev.invalid_parts.len());
        assert forall|i: int| 0 <= i < parts.len() - 1 implies #[trigger] parts[i] == parts.drop_last()[i] by {}
        if scan_parts(st, parts).always_enters {
            assert forall|i: int| 0 <= i < parts.len() implies always_yields(#[trigger] parts[i]) || parts[i] is Other by {
                if i < parts.len() - 1 {
                    assert(parts.drop_last()[i] == parts[i]);
                }
            }
        }
    }
}

/// A `foreach` is concluded to always run its body only when the iterated
/// type has parts and each of them is a non-empty array or an enum case.
pub proof fn lemma_always_entered_only_on_entries(known: bool, is_never: bool, is_null: bool, is_false: bool, reports_nullable: bool, reports_falsable: bool, parts: Seq<IteratorPart>)
    ensures
        spec_iterator_plan(known, is_never, is_null, is_false, reports_nullable, reports_falsable, parts).always_enters_loop
            ==> parts.len() > 0 && forall|i: int| 0 <= i < parts.len() ==> always_yields(#[trigger] parts[i]),
{
    let i0 = Seq::<IteratorIssue>::empty();
    let i1 = if reports_nullable { i0.push(IteratorIssue::PossiblyNullIterator) } else { i0 };
    let i2 = if reports_falsable { i1.push(IteratorIssue::PossiblyFalseIterator) } else { i1 };
    let st0 = IteratorScan {
        issues: i2,
        always_enters: true,
        has_valid: false,
        part_types: Seq::empty(),
        invalid_parts: Seq::empty(),
    };
    lemma_scan_entering(st0, parts);
    let st = scan_parts(st0, parts);
    if spec_iterator_plan(known, is_never, is_null, is_false, reports_nullable, reports_falsable, parts).always_enters_loop {
        assert(st.invalid_parts.len() == 0);
        assert forall|i: int| 0 <= i < parts.len() implies always_yields(#[trigger] parts[i]) by {
            assert(!(parts[i] is Other));
        }
    }
}

} // verus!
