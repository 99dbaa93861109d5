//! How an equality with an integer literal (`$a === 5`, `$a == 5`) narrows
//! a variable's type part by part, and when it is reported as always or
//! never true.
use vstd::prelude::*;
use crate::guards::bytes_eq;
use crate::text::{decimal, format_decimal};

verus! {

/// One part of the compared variable's type.
#[derive(Debug)]
pub enum EqualityPart {
    /// An integer literal.
    IntegerLiteral(i64),
    /// Another integer type, and whether it contains the value.
    Integer { contains_value: bool },
    /// A float literal, and whether it equals the value as a float.
    FloatLiteral { equals_value: bool },
    /// `float`.
    Float,
    /// `true` or `false`.
    BoolLiteral(bool),
    /// `bool`.
    Bool,
    /// A string literal.
    StringLiteral(Vec<u8>),
    /// `string` with no literal value.
    String,
    /// A generic parameter: whether its constraint is `mixed`, and whether
    /// the equality leaves something of its constraint.
    GenericParameter { constraint_is_mixed: bool, constraint_kept: bool },
    /// Anything else.
    Other,
}

/// A part of the narrowed type.
#[derive(Clone, Copy, PartialEq, Eq, Structural, Debug)]
pub enum AcceptedPart {
    /// The asserted integer literal.
    Literal,
    /// The part at this index, as it was.
    Unchanged { part: usize },
    /// The generic parameter at this index, its constraint narrowed (to the
    /// literal where it was `mixed`).
    Generic { part: usize },
}

/// The narrowed type as a whole.
#[derive(Clone, Copy, PartialEq, Eq, Structural, Debug)]
pub enum EqualityOutcome {
    /// The type stays as it was (a loose equality on a type with scalars,
    /// numbers, array keys or `mixed`).
    Unchanged,
    /// Only the asserted literal (a strict equality on such a type).
    OnlyLiteral,
    /// The accepted parts; `never` when there are none.
    Parts,
}

#[derive(Debug)]
pub struct LiteralEquality {
    pub outcome: EqualityOutcome,
    pub accepted: Vec<AcceptedPart>,
    /// How the equality is reported (where the variable has a key):
    /// `Some(true)` always true, `Some(false)` never true.
    pub report: Option<bool>,
}

/// What one part gives: accepted (and how), or removed.
pub open spec fn accepts(p: EqualityPart, index: nat, value: i64, is_loose: bool) -> Option<AcceptedPart> {
    let same = Some(AcceptedPart::Unchanged { part: index as usize });
    match p {
        EqualityPart::IntegerLiteral(n) => if n == value { Some(AcceptedPart::Literal) } else { None },
        EqualityPart::Integer { contains_value } => if contains_value { Some(AcceptedPart::Literal) } else { None },
        EqualityPart::FloatLiteral { equals_value } => if is_loose && equals_value { same } else { None },
        EqualityPart::BoolLiteral(b) => if is_loose && ((!b && value == 0) || (b && value == 1)) { same } else { None },
        EqualityPart::StringLiteral(s) => if is_loose && s@ == decimal(value as int) { same } else { None },
        EqualityPart::Float | EqualityPart::Bool | EqualityPart::String => if is_loose { same } else { None },
        EqualityPart::GenericParameter { constraint_is_mixed, constraint_kept } =>
            if constraint_is_mixed || constraint_kept { Some(AcceptedPart::Generic { part: index as usize }) } else { None },
        EqualityPart::Other => None,
    }
}

pub open spec fn accepted_parts(parts: Seq<EqualityPart>, value: i64, is_loose: bool) -> Seq<AcceptedPart>
    decreases parts.len(),
{
    if parts.len() == 0 {
        Seq::empty()
    } else {
        let before = accepted_parts(parts.drop_last(), value, is_loose);
        match accepts(parts.last(), (parts.len() - 1) as nat, value, is_loose) {
            Some(a) => before.push(a),
            None => before,
        }
    }
}

/// Some part is dropped: a part not accepted, or a generic parameter (whose
/// constraint is replaced).
pub open spec fn some_removed(parts: Seq<EqualityPart>, value: i64, is_loose: bool) -> bool {
    exists|i: int| 0 <= i < parts.len() && ((#[trigger] accepts(parts[i], i as nat, value, is_loose)) is None || parts[i] is GenericParameter)
}

/// A type with scalars, numbers, array keys or `mixed` stays as it is under
/// a loose equality and becomes the literal under a strict one. Otherwise
/// the parts are kept as the equality allows: the literal itself, integers
/// that contain it, and under a loose equality the floats, booleans and
/// strings equal to it (`0` and `false`, `1` and `true`, the decimal
/// string). The equality is always true when the type is just that literal,
/// and never true (unless nothing was dropped: then always) when no part is
/// kept.
pub open spec fn spec_literal_equality(parts: Seq<EqualityPart>, value: i64, is_loose: bool, widens: bool) -> (EqualityOutcome, Seq<AcceptedPart>, Option<bool>) {
    if widens {
        (if is_loose { EqualityOutcome::Unchanged } else { EqualityOutcome::OnlyLiteral }, Seq::empty(), None)
    } else {
        let accepted = accepted_parts(parts, value, is_loose);
        let report = if parts.len() == 1 && (parts[0] matches EqualityPart::IntegerLiteral(n) && n == value) {
            Some(true)
        } else if accepted.len() == 0 {
            Some(!some_removed(parts, value, is_loose))
        } else {
            None
        };
        (EqualityOutcome::Parts, accepted, report)
    }
}

fn accept_part(p: &EqualityPart, index: usize, value: i64, is_loose: bool) -> (r: Option<AcceptedPart>)
    ensures
        r == accepts(*p, index as nat, value, is_loose),
{
    let same = Some(AcceptedPart::Unchanged { part: index });
    match p {
        EqualityPart::IntegerLiteral(n) => if *n == value { Some(AcceptedPart::Literal) } else { None },
        EqualityPart::Integer { contains_value } => if *contains_value { Some(AcceptedPart::Literal) } else { None },
        EqualityPart::FloatLiteral { equals_value } => if is_loose && *equals_value { same } else { None },
        EqualityPart::BoolLiteral(b) => if is_loose && ((!*b && value == 0) || (*b && value == 1)) { same } else { None },
        EqualityPart::StringLiteral(s) => {
            if is_loose {
                let digits = format_decimal(value);
                if bytes_eq(s.as_slice(), digits.as_slice()) { same } else { None }
            } else {
                None
            }
        },
        EqualityPart::Float | EqualityPart::Bool | EqualityPart::String => if is_loose { same } else { None },
        EqualityPart::GenericParameter { constraint_is_mixed, constraint_kept } => {
            if *constraint_is_mixed || *constraint_kept { Some(AcceptedPart::Generic { part: index }) } else { None }
        },
        EqualityPart::Other => None,
    }
}

/// Narrows a type with these parts by an equality with the integer `value`
/// (`is_loose` for `==`; `widens` when the type has scalars, numbers, array
/// keys or `mixed`).
pub fn narrow_by_integer_equality(parts: &Vec<EqualityPart>, value: i64, is_loose: bool, widens: bool) -> (r: LiteralEquality)
    ensures
        (r.outcome, r.accepted@, r.report) == spec_literal_equality(parts@, value, is_loose, widens),
{
    if widens {
        let outcome = if is_loose { EqualityOutcome::Unchanged } else { EqualityOutcome::OnlyLiteral };
        let r = LiteralEquality { outcome, accepted: Vec::new(), report: None };
        assert(r.accepted@ =~= Seq::<AcceptedPart>::empty());
        return r;
    }
    let mut accepted: Vec<AcceptedPart> = Vec::new();
    let mut removed = false;
    assert(accepted@ =~= accepted_parts(parts@.take(0), value, is_loose));
    let mut i: usize = 0;
    while i < parts.len()
        invariant
            i <= parts.len(),
            accepted@ == accepted_parts(parts@.take(i as int), value, is_loose),
            removed == exists|j: int| 0 <= j < i && ((#[trigger] accepts(parts@[j], j as nat, value, is_loose)) is None || parts@[j] is GenericParameter),
        decreases parts.len() - i,
    {
        proof {
            assert(parts@.take((i + 1) as int).drop_last() =~= parts@.take(i as int));
        }
        let a = accept_part(&parts[i], i, value, is_loose);
        match a {
            Some(x) => {
                accepted.push(x);
            },
            None => {
                removed = true;
            },
        }
        if matches!(parts[i], EqualityPart::GenericParameter { .. }) {
            removed = true;
        }
        i = i + 1;
    }
    proof {
        assert(parts@.take(parts.len() as int) =~= parts@);
    }
    let single_match = parts.len() == 1 && match &parts[0] {
        EqualityPart::IntegerLiteral(n) => *n == value,
        _ => false,
    };
    let report = if single_match {
        Some(true)
    } else if accepted.len() == 0 {
        Some(!removed)
    } else {
        None
    };
    LiteralEquality { outcome: EqualityOutcome::Parts, accepted, report }
}

} // verus!
