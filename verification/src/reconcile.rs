//! The decisions of type reconciliation that depend on the shape of the
//! assertions and of the key they are made on: which keys are left alone,
//! what marks a key changed, where the new type of a key is propagated, and
//! how an assertion that is always true or always false is reported.
use vstd::prelude::*;
use crate::expr::arrow;
use crate::expr_id::bytes_of;
use crate::keys::close_bracket;
use crate::text::{contains_byte, contains_bytes, ends_with, has_prefix, has_suffix, occurs_in, starts_with};

verus! {

/// The kinds of assertion that the reconciler's decisions tell apart.
#[derive(Clone, Copy, PartialEq, Eq, Structural, Debug)]
pub enum AssertionKind {
    Truthy,
    Falsy,
    Empty,
    NonEmpty,
    IsIsset,
    IsNotIsset,
    IsEqualIsset,
    ArrayKeyExists,
    ArrayKeyDoesNotExist,
    HasArrayKey,
    DoesNotHaveArrayKey,
    HasNonnullEntryForKey,
    HasIntOrStringArrayAccess,
    NonEmptyCountable,
    /// Identical to a value (`===`).
    IsIdentical,
    /// Is of a type other than `null` and non-null `mixed` (`is_int($a)`, `$a instanceof A`).
    IsType,
    /// Is of type `null`.
    IsNull,
    /// Is not of type `null`.
    IsNotNull,
    /// Is of type `mixed` that excludes `null`.
    IsNonNullMixed,
    /// Is not of type `mixed` that excludes `null`.
    IsNotNonNullMixed,
    /// Any other assertion.
    Other,
}

/// What the reconciler reads of an assertion: its kind, whether it negates
/// (`!is_string($a)`, `empty($a)`, ...) and whether it proves the key set.
#[derive(Clone, Copy, PartialEq, Eq, Structural, Debug)]
pub struct Assertion {
    pub kind: AssertionKind,
    pub is_negation: bool,
    pub has_isset: bool,
}

/// What the assertions made on one key say, taken together.
#[derive(Clone, Copy, PartialEq, Eq, Structural, Debug)]
pub struct KeyAssertionFlags {
    pub has_negation: bool,
    pub has_isset: bool,
    pub has_inverted_isset: bool,
    pub has_inverted_key_exists: bool,
    pub has_truthy_or_falsy_or_empty: bool,
    pub has_count_check: bool,
    pub has_empty: bool,
    /// The assertions are the ones made on the key itself, not ones added for a nested key.
    pub is_real: bool,
    /// The assertions are real and all of them assert identity.
    pub is_equality: bool,
}

pub open spec fn is_truthiness(k: AssertionKind) -> bool {
    k == AssertionKind::Truthy || k == AssertionKind::Falsy || k == AssertionKind::Empty || k == AssertionKind::NonEmpty
}

pub open spec fn some_negation(s: Seq<Assertion>) -> bool {
    exists|i: int| 0 <= i < s.len() && #[trigger] s[i].is_negation
}

pub open spec fn some_isset(s: Seq<Assertion>) -> bool {
    exists|i: int| 0 <= i < s.len() && #[trigger] s[i].has_isset
}

pub open spec fn some_kind(s: Seq<Assertion>, k: AssertionKind) -> bool {
    exists|i: int| 0 <= i < s.len() && #[trigger] s[i].kind == k
}

pub open spec fn some_truthiness(s: Seq<Assertion>) -> bool {
    exists|i: int| 0 <= i < s.len() && is_truthiness(#[trigger] s[i].kind)
}

pub open spec fn all_identical(s: Seq<Assertion>) -> bool {
    forall|i: int| 0 <= i < s.len() ==> #[trigger] s[i].kind == AssertionKind::IsIdentical
}

/// The flags of a key's assertions, read in any order.
pub open spec fn flags_of(s: Seq<Assertion>, is_real: bool) -> KeyAssertionFlags {
    KeyAssertionFlags {
        has_negation: some_negation(s),
        has_isset: some_isset(s),
        has_inverted_isset: some_kind(s, AssertionKind::IsNotIsset),
        has_inverted_key_exists: some_kind(s, AssertionKind::ArrayKeyDoesNotExist),
        has_truthy_or_falsy_or_empty: some_truthiness(s),
        has_count_check: some_kind(s, AssertionKind::NonEmptyCountable),
        has_empty: some_kind(s, AssertionKind::Empty),
        is_real,
        is_equality: is_real && all_identical(s),
    }
}

/// The assertions of a set of clauses, one after the other.
pub open spec fn all_assertions(set: Seq<Vec<Assertion>>) -> Seq<Assertion> {
    set.map_values(|c: Vec<Assertion>| c@).flatten()
}

proof fn lemma_flags_push(s: Seq<Assertion>, a: Assertion, is_real: bool)
    ensures
        flags_of(s.push(a), is_real) == (KeyAssertionFlags {
            has_negation: flags_of(s, is_real).has_negation || a.is_negation,
            has_isset: flags_of(s, is_real).has_isset || a.has_isset,
            has_inverted_isset: flags_of(s, is_real).has_inverted_isset || a.kind == AssertionKind::IsNotIsset,
            has_inverted_key_exists: flags_of(s, is_real).has_inverted_key_exists || a.kind == AssertionKind::ArrayKeyDoesNotExist,
            has_truthy_or_falsy_or_empty: flags_of(s, is_real).has_truthy_or_falsy_or_empty || is_truthiness(a.kind),
            has_count_check: flags_of(s, is_real).has_count_check || a.kind == AssertionKind::NonEmptyCountable,
            has_empty: flags_of(s, is_real).has_empty || a.kind == AssertionKind::Empty,
            is_real,
            is_equality: flags_of(s, is_real).is_equality && a.kind == AssertionKind::IsIdentical,
        }),
{
    let t = s.push(a);
    let n = s.len() as int;
    assert(t[n] == a);
    assert forall|i: int| 0 <= i < n implies #[trigger] t[i] == s[i] by {}
    if some_negation(s) {
        let i = choose|i: int| 0 <= i < s.len() && #[trigger] s[i].is_negation;
        assert(t[i].is_negation);
    }
    if some_negation(t) && !a.is_negation {
        let i = choose|i: int| 0 <= i < t.len() && #[trigger] t[i].is_negation;
        assert(s[i].is_negation);
    }
    if some_isset(s) {
        let i = choose|i: int| 0 <= i < s.len() && #[trigger] s[i].has_isset;
        assert(t[i].has_isset);
    }
    if some_isset(t) && !a.has_isset {
        let i = choose|i: int| 0 <= i < t.len() && #[trigger] t[i].has_isset;
        assert(s[i].has_isset);
    }
    assert forall|k: AssertionKind| #[trigger] some_kind(t, k) == (some_kind(s, k) || a.kind == k) by {
        if some_kind(s, k) {
            let i = choose|i: int| 0 <= i < s.len() && #[trigger] s[i].kind == k;
            assert(t[i].kind == k);
        }
        if some_kind(t, k) && a.kind != k {
            let i = choose|i: int| 0 <= i < t.len() && #[trigger] t[i].kind == k;
            assert(s[i].kind == k);
        }
    }
    if some_truthiness(s) {
        let i = choose|i: int| 0 <= i < s.len() && is_truthiness(#[trigger] s[i].kind);
        assert(is_truthiness(t[i].kind));
    }
    if some_truthiness(t) && !is_truthiness(a.kind) {
        let i = choose|i: int| 0 <= i < t.len() && is_truthiness(#[trigger] t[i].kind);
        assert(is_truthiness(s[i].kind));
    }
    if all_identical(t) {
        assert(t[n].kind == AssertionKind::IsIdentical);
        assert forall|i: int| 0 <= i < s.len() implies #[trigger] s[i].kind == AssertionKind::IsIdentical by {
            assert(t[i] == s[i]);
        }
    }
    if all_identical(s) && a.kind == AssertionKind::IsIdentical {
        assert forall|i: int| 0 <= i < t.len() implies #[trigger] t[i].kind == AssertionKind::IsIdentical by {
            if i < n {
                assert(t[i] == s[i]);
            }
        }
    }
}

/// The assertions of all clauses, in order.
fn flatten_assertions(assertions: &Vec<Vec<Assertion>>) -> (r: Vec<Assertion>)
    ensures
        r@ == all_assertions(assertions@),
{
    let mut r: Vec<Assertion> = Vec::new();
    let mut i: usize = 0;
    assert(assertions@.subrange(0, 0).map_values(|c: Vec<Assertion>| c@) =~= Seq::<Seq<Assertion>>::empty());
    while i < assertions.len()
        invariant
            i <= assertions@.len(),
            r@ == all_assertions(assertions@.subrange(0, i as int)),
        decreases assertions.len() - i,
    {
        let clause = &assertions[i];
        let ghost before = r@;
        let mut j: usize = 0;
        while j < clause.len()
            invariant
                j <= clause@.len(),
                r@ == before + clause@.subrange(0, j as int),
            decreases clause.len() - j,
        {
            r.push(clause[j]);
            j += 1;
            assert(r@ =~= before + clause@.subrange(0, j as int));
        }
        proof {
            assert(clause@.subrange(0, j as int) =~= clause@);
            let prefix = assertions@.subrange(0, i as int).map_values(|c: Vec<Assertion>| c@);
            assert(assertions@.subrange(0, i + 1).map_values(|c: Vec<Assertion>| c@) =~= prefix.push(clause@));
            prefix.lemma_flatten_push(clause@);
        }
        i += 1;
    }
    assert(assertions@.subrange(0, i as int) =~= assertions@);
    r
}

/// Reads the flags of the assertions made on one key, whose clauses are
/// `assertions`; `is_real` tells that they were made on the key itself.
pub fn assertion_flags(assertions: &Vec<Vec<Assertion>>, is_real: bool) -> (f: KeyAssertionFlags)
    ensures
        f == flags_of(all_assertions(assertions@), is_real),
{
    let all = flatten_assertions(assertions);
    let mut f = KeyAssertionFlags {
        has_negation: false,
        has_isset: false,
        has_inverted_isset: false,
        has_inverted_key_exists: false,
        has_truthy_or_falsy_or_empty: false,
        has_count_check: false,
        has_empty: false,
        is_real,
        is_equality: is_real,
    };
    let mut k: usize = 0;
    assert(all@.subrange(0, 0) =~= Seq::<Assertion>::empty());
    while k < all.len()
        invariant
            k <= all@.len(),
            f == flags_of(all@.subrange(0, k as int), is_real),
        decreases all.len() - k,
    {
        let a = all[k];
        proof {
            lemma_flags_push(all@.subrange(0, k as int), a, is_real);
            assert(all@.subrange(0, k + 1) =~= all@.subrange(0, k as int).push(a));
        }
        f = KeyAssertionFlags {
            has_negation: f.has_negation || a.is_negation,
            has_isset: f.has_isset || a.has_isset,
            has_inverted_isset: f.has_inverted_isset || a.kind == AssertionKind::IsNotIsset,
            has_inverted_key_exists: f.has_inverted_key_exists || a.kind == AssertionKind::ArrayKeyDoesNotExist,
            has_truthy_or_falsy_or_empty: f.has_truthy_or_falsy_or_empty || a.kind == AssertionKind::Truthy
                || a.kind == AssertionKind::Falsy || a.kind == AssertionKind::Empty || a.kind == AssertionKind::NonEmpty,
            has_count_check: f.has_count_check || a.kind == AssertionKind::NonEmptyCountable,
            has_empty: f.has_empty || a.kind == AssertionKind::Empty,
            is_real,
            is_equality: f.is_equality && a.kind == AssertionKind::IsIdentical,
        };
        k += 1;
    }
    assert(all@.subrange(0, k as int) =~= all@);
    f
}

/// A key such as `A::B` names a class constant, which assertions leave
/// alone: it holds `::` but no `$` and no `[`.
pub open spec fn spec_is_class_constant_key(key: Seq<u8>) -> bool {
    occurs_in(key, seq![58u8, 58]) && !key.contains(36u8) && !key.contains(91u8)
}

/// Whether assertions on `key` are left alone because it names a class constant.
pub fn is_class_constant_key(key: &[u8]) -> (r: bool)
    ensures
        r == spec_is_class_constant_key(key@),
{
    let colons: [u8; 2] = [58u8, 58u8];
    assert(colons@ =~= seq![58u8, 58]);
    contains_bytes(key, colons.as_slice()) && !contains_byte(key, 36) && !contains_byte(key, 91)
}

/// What happens to a property's place among the properties known to be uninitialized.
#[derive(Clone, Copy, PartialEq, Eq, Structural, Debug)]
pub enum PropertyInitUpdate {
    /// `!isset($this->p)`: the property is known to be uninitialized.
    MarkUninitialized,
    /// An assertion proves the key set: it is no longer known to be uninitialized.
    MarkInitialized,
    Keep,
}

/// `$this->`
pub open spec fn this_arrow() -> Seq<u8> {
    seq![36u8, 116, 104, 105, 115, 45, 62]
}

/// `$this`
pub open spec fn this_variable() -> Seq<u8> {
    seq![36u8, 116, 104, 105, 115]
}

pub open spec fn spec_property_init_update(key: Seq<u8>, f: KeyAssertionFlags) -> PropertyInitUpdate {
    if f.has_inverted_isset && has_prefix(key, this_arrow()) {
        PropertyInitUpdate::MarkUninitialized
    } else if f.has_isset {
        PropertyInitUpdate::MarkInitialized
    } else {
        PropertyInitUpdate::Keep
    }
}

/// How the assertions on `key` change what is known of uninitialized properties.
pub fn property_init_update(key: &[u8], f: KeyAssertionFlags) -> (r: PropertyInitUpdate)
    ensures
        r == spec_property_init_update(key@, f),
{
    let prefix: [u8; 7] = [36u8, 116, 104, 105, 115, 45, 62];
    assert(prefix@ =~= this_arrow());
    if f.has_inverted_isset && starts_with(key, prefix.as_slice()) {
        PropertyInitUpdate::MarkUninitialized
    } else if f.has_isset {
        PropertyInitUpdate::MarkInitialized
    } else {
        PropertyInitUpdate::Keep
    }
}

/// Where the new type of a key is carried to.
#[derive(Clone, Copy, PartialEq, Eq, Structural, Debug)]
pub enum KeyAdjustment {
    /// Only the key itself gets its new type.
    OnlyKey,
    /// Into the item of the array that holds the key (`$a['k']`).
    ArrayItem,
    /// The item is removed from the array that holds the key.
    RemoveArrayItem,
    /// Into the objects that hold the key as a property (`$a->p`).
    ObjectProperty,
}

/// What reconciling one key does after its new type is computed.
#[derive(Clone, Copy, PartialEq, Eq, Structural, Debug)]
pub struct KeyUpdatePlan {
    /// The key gets its new type; when false the key is passed over.
    pub apply: bool,
    /// The key is recorded as changed.
    pub mark_changed: bool,
    pub adjustment: KeyAdjustment,
    /// The keys below this one that no assertion names are dropped.
    pub prune_descendants: bool,
}

/// The plan for a key: a key that had no type and gets none is passed over,
/// though an item that `!isset` or a negated key check removes leaves its
/// array; a changed type marks the key changed, is carried to its array or
/// object, and drops the keys below it; an unchanged type marks the key
/// changed only under assertions that neither negate, test truthiness nor
/// prove it set.
pub open spec fn spec_key_update_plan(key: Seq<u8>, f: KeyAssertionFlags, did_type_exist: bool, result_is_never: bool, type_changed: bool) -> KeyUpdatePlan {
    let is_item = has_suffix(key, close_bracket());
    let removes = f.has_inverted_isset || f.has_inverted_key_exists;
    if !did_type_exist && result_is_never {
        KeyUpdatePlan {
            apply: false,
            mark_changed: false,
            adjustment: if is_item && removes { KeyAdjustment::RemoveArrayItem } else { KeyAdjustment::OnlyKey },
            prune_descendants: false,
        }
    } else if type_changed {
        KeyUpdatePlan {
            apply: true,
            mark_changed: true,
            adjustment: if is_item && !removes && !f.has_empty && !f.is_equality {
                KeyAdjustment::ArrayItem
            } else if is_item && removes {
                KeyAdjustment::RemoveArrayItem
            } else if occurs_in(key, arrow()) && !f.is_equality {
                KeyAdjustment::ObjectProperty
            } else {
                KeyAdjustment::OnlyKey
            },
            prune_descendants: key != this_variable() && f.is_real,
        }
    } else {
        KeyUpdatePlan {
            apply: true,
            mark_changed: !f.has_negation && !f.has_truthy_or_falsy_or_empty && !f.has_isset,
            adjustment: KeyAdjustment::OnlyKey,
            prune_descendants: false,
        }
    }
}

/// Decides what reconciling `key` does once its new type is known: whether
/// the key had a type before, whether its new type is `never`, and whether
/// the type changed.
pub fn plan_key_update(key: &[u8], f: KeyAssertionFlags, did_type_exist: bool, result_is_never: bool, type_changed: bool) -> (r: KeyUpdatePlan)
    ensures
        r == spec_key_update_plan(key@, f, did_type_exist, result_is_never, type_changed),
{
    let bracket: [u8; 1] = [93u8];
    assert(bracket@ =~= close_bracket());
    let is_item = ends_with(key, bracket.as_slice());
    let removes = f.has_inverted_isset || f.has_inverted_key_exists;
    if !did_type_exist && result_is_never {
        return KeyUpdatePlan {
            apply: false,
            mark_changed: false,
            adjustment: if is_item && removes { KeyAdjustment::RemoveArrayItem } else { KeyAdjustment::OnlyKey },
            prune_descendants: false,
        };
    }
    if type_changed {
        let arrow_bytes: [u8; 2] = [45u8, 62u8];
        assert(arrow_bytes@ =~= arrow());
        let adjustment = if is_item && !removes && !f.has_empty && !f.is_equality {
            KeyAdjustment::ArrayItem
        } else if is_item && removes {
            KeyAdjustment::RemoveArrayItem
        } else if contains_bytes(key, arrow_bytes.as_slice()) && !f.is_equality {
            KeyAdjustment::ObjectProperty
        } else {
            KeyAdjustment::OnlyKey
        };
        let this: [u8; 5] = [36u8, 116, 104, 105, 115];
        assert(this@ =~= this_variable());
        let is_this = crate::guards::bytes_eq(key, this.as_slice());
        KeyUpdatePlan { apply: true, mark_changed: true, adjustment, prune_descendants: !is_this && f.is_real }
    } else {
        KeyUpdatePlan {
            apply: true,
            mark_changed: !f.has_negation && !f.has_truthy_or_falsy_or_empty && !f.has_isset,
            adjustment: KeyAdjustment::OnlyKey,
            prune_descendants: false,
        }
    }
}

/// The kinds of issue that an always-true or always-false assertion raises.
#[derive(Clone, Copy, PartialEq, Eq, Structural, Debug)]
pub enum AssertionIssueCode {
    ImpossibleCondition,
    ImpossibleNullTypeComparison,
    ImpossibleKeyCheck,
    ImpossibleNonnullEntryCheck,
    ImpossibleTypeComparison,
    RedundantIssetCheck,
    RedundantCondition,
    RedundantKeyCheck,
    RedundantNonnullEntryCheck,
    RedundantNonnullTypeComparison,
    RedundantTypeComparison,
}

/// The issue of an assertion that can never hold.
pub open spec fn spec_impossible_issue_code(kind: AssertionKind) -> AssertionIssueCode {
    match kind {
        AssertionKind::Truthy | AssertionKind::Falsy => AssertionIssueCode::ImpossibleCondition,
        AssertionKind::IsNull | AssertionKind::IsNotNull => AssertionIssueCode::ImpossibleNullTypeComparison,
        AssertionKind::HasArrayKey | AssertionKind::DoesNotHaveArrayKey => AssertionIssueCode::ImpossibleKeyCheck,
        AssertionKind::HasNonnullEntryForKey => AssertionIssueCode::ImpossibleNonnullEntryCheck,
        _ => AssertionIssueCode::ImpossibleTypeComparison,
    }
}

/// The issue of an assertion that always holds.
pub open spec fn spec_redundant_issue_code(kind: AssertionKind) -> AssertionIssueCode {
    match kind {
        AssertionKind::IsIsset | AssertionKind::IsEqualIsset => AssertionIssueCode::RedundantIssetCheck,
        AssertionKind::Truthy | AssertionKind::Falsy => AssertionIssueCode::RedundantCondition,
        AssertionKind::HasArrayKey | AssertionKind::DoesNotHaveArrayKey => AssertionIssueCode::RedundantKeyCheck,
        AssertionKind::HasNonnullEntryForKey => AssertionIssueCode::RedundantNonnullEntryCheck,
        AssertionKind::IsNonNullMixed => AssertionIssueCode::RedundantNonnullTypeComparison,
        _ => AssertionIssueCode::RedundantTypeComparison,
    }
}

/// The issue an assertion of this kind raises when it can never hold.
pub fn impossible_issue_code(kind: AssertionKind) -> (r: AssertionIssueCode)
    ensures
        r == spec_impossible_issue_code(kind),
{
    match kind {
        AssertionKind::Truthy | AssertionKind::Falsy => AssertionIssueCode::ImpossibleCondition,
        AssertionKind::IsNull | AssertionKind::IsNotNull => AssertionIssueCode::ImpossibleNullTypeComparison,
        AssertionKind::HasArrayKey | AssertionKind::DoesNotHaveArrayKey => AssertionIssueCode::ImpossibleKeyCheck,
        AssertionKind::HasNonnullEntryForKey => AssertionIssueCode::ImpossibleNonnullEntryCheck,
        _ => AssertionIssueCode::ImpossibleTypeComparison,
    }
}

/// The issue an assertion of this kind raises when it always holds.
pub fn redundant_issue_code(kind: AssertionKind) -> (r: AssertionIssueCode)
    ensures
        r == spec_redundant_issue_code(kind),
{
    match kind {
        AssertionKind::IsIsset | AssertionKind::IsEqualIsset => AssertionIssueCode::RedundantIssetCheck,
        AssertionKind::Truthy | AssertionKind::Falsy => AssertionIssueCode::RedundantCondition,
        AssertionKind::HasArrayKey | AssertionKind::DoesNotHaveArrayKey => AssertionIssueCode::RedundantKeyCheck,
        AssertionKind::HasNonnullEntryForKey => AssertionIssueCode::RedundantNonnullEntryCheck,
        AssertionKind::IsNonNullMixed => AssertionIssueCode::RedundantNonnullTypeComparison,
        _ => AssertionIssueCode::RedundantTypeComparison,
    }
}

/// `falsy`
pub open spec fn word_falsy() -> Seq<u8> {
    seq![102u8, 97, 108, 115, 121]
}

/// `truthy`
pub open spec fn word_truthy() -> Seq<u8> {
    seq![116u8, 114, 117, 116, 104, 121]
}

/// The report on an assertion that always or never holds: its issue and the
/// assertion as it is named in the message.
#[derive(Debug)]
pub struct AssertionReport {
    pub code: AssertionIssueCode,
    pub assertion_atom: Vec<u8>,
}

/// The report on an assertion named `atom` (`!` in front when it negates)
/// that the reconciler found always true (`redundant`) or never true, in a
/// context that is itself negated or not. The context's negation flips both
/// the negation and the finding; a negated `truthy` or `falsy` that is
/// redundant is reported as the plain opposite; then a redundant finding is
/// impossible when the assertion negates, and the reverse.
pub open spec fn spec_report(kind: AssertionKind, atom: Seq<u8>, redundant: bool, negated: bool) -> (AssertionIssueCode, Seq<u8>) {
    let not_operator = atom.len() > 0 && atom[0] == 33;
    let name = if not_operator { atom.drop_first() } else { atom };
    let not_operator = if negated { !not_operator } else { not_operator };
    let redundant = if negated { !redundant } else { redundant };
    if redundant {
        let (not_operator, name) = if not_operator && name == word_falsy() {
            (false, word_truthy())
        } else if not_operator && name == word_truthy() {
            (false, word_falsy())
        } else {
            (not_operator, name)
        };
        if not_operator {
            (spec_impossible_issue_code(kind), name)
        } else {
            (spec_redundant_issue_code(kind), name)
        }
    } else if not_operator {
        (spec_redundant_issue_code(kind), atom_name(atom))
    } else {
        (spec_impossible_issue_code(kind), atom_name(atom))
    }
}

/// The name of an assertion without its `!`.
pub open spec fn atom_name(atom: Seq<u8>) -> Seq<u8> {
    if atom.len() > 0 && atom[0] == 33 { atom.drop_first() } else { atom }
}

/// Decides how an assertion that the reconciler found always true or never
/// true is reported: as an impossible or a redundant condition, of which
/// issue, under which name.
pub fn trigger_issue_for_impossible(kind: AssertionKind, atom: &[u8], redundant: bool, negated: bool) -> (r: AssertionReport)
    ensures
        (r.code, r.assertion_atom@) == spec_report(kind, atom@, redundant, negated),
{
    let mut not_operator = atom.len() > 0 && atom[0] == 33;
    let mut name: Vec<u8> = Vec::new();
    let mut k: usize = if not_operator { 1 } else { 0 };
    let start = k;
    while k < atom.len()
        invariant
            start <= k <= atom@.len(),
            start == 0 || start == 1,
            name@ == atom@.subrange(start as int, k as int),
        decreases atom.len() - k,
    {
        name.push(atom[k]);
        k += 1;
        assert(name@ =~= atom@.subrange(start as int, k as int));
    }
    proof {
        if not_operator {
            assert(name@ =~= atom@.drop_first());
        } else {
            assert(name@ =~= atom@);
        }
    }
    let mut redundant = redundant;
    if negated {
        not_operator = !not_operator;
        redundant = !redundant;
    }
    if redundant {
        let falsy: [u8; 5] = [102u8, 97, 108, 115, 121];
        let truthy: [u8; 6] = [116u8, 114, 117, 116, 104, 121];
        assert(falsy@ =~= word_falsy());
        assert(truthy@ =~= word_truthy());
        if not_operator {
            if crate::guards::bytes_eq(name.as_slice(), falsy.as_slice()) {
                not_operator = false;
                name = bytes_of(truthy.as_slice());
            } else if crate::guards::bytes_eq(name.as_slice(), truthy.as_slice()) {
                not_operator = false;
                name = bytes_of(falsy.as_slice());
            }
        }
        if not_operator {
            AssertionReport { code: impossible_issue_code(kind), assertion_atom: name }
        } else {
            AssertionReport { code: redundant_issue_code(kind), assertion_atom: name }
        }
    } else if not_operator {
        AssertionReport { code: redundant_issue_code(kind), assertion_atom: name }
    } else {
        AssertionReport { code: impossible_issue_code(kind), assertion_atom: name }
    }
}

/// For an assertion other than `truthy` and `falsy`, the negation of the
/// context changes nothing in how it is reported: it is reported as
/// impossible exactly when the finding that it always holds agrees with the
/// assertion's own negation.
pub proof fn lemma_context_negation_keeps_the_verdict(kind: AssertionKind, atom: Seq<u8>, redundant: bool)
    requires
        atom_name(atom) != word_falsy(),
        atom_name(atom) != word_truthy(),
    ensures
        spec_report(kind, atom, redundant, true) == spec_report(kind, atom, redundant, false),
        spec_report(kind, atom, redundant, false).0 == (if redundant == (atom.len() > 0 && atom[0] == 33) {
            spec_impossible_issue_code(kind)
        } else {
            spec_redundant_issue_code(kind)
        }),
        spec_report(kind, atom, redundant, false).1 == atom_name(atom),
{
}

/// Whether reconciling an assertion whose asserted type refined the
/// variable's type raises an issue: `Some(true)` (always true) when the
/// refinement left the type as it was, unless the assertion is an equality
/// or asserts `mixed`; `Some(false)` (never true) when it left nothing;
/// `None` otherwise.
pub open spec fn spec_refinement_verdict(unchanged: bool, refined_is_never: bool, has_equality: bool, asserts_mixed: bool) -> Option<bool> {
    if unchanged {
        if !has_equality && !asserts_mixed { Some(true) } else { None }
    } else if refined_is_never {
        Some(false)
    } else {
        None
    }
}

/// Decides whether a refinement by an asserted type is reported as always
/// true (`Some(true)`), never true (`Some(false)`), or not at all.
pub fn refinement_verdict(unchanged: bool, refined_is_never: bool, has_equality: bool, asserts_mixed: bool) -> (r: Option<bool>)
    ensures
        r == spec_refinement_verdict(unchanged, refined_is_never, has_equality, asserts_mixed),
{
    if unchanged {
        if !has_equality && !asserts_mixed { Some(true) } else { None }
    } else if refined_is_never {
        Some(false)
    } else {
        None
    }
}

/// The type a variable is given when an assertion is made on it while it
/// has no type yet.
#[derive(Clone, Copy, PartialEq, Eq, Structural, Debug)]
pub enum MissingType {
    /// `mixed`, marked as coming from a loop when `from_loop`.
    Mixed { from_loop: bool },
    /// `mixed` that may be undefined.
    PossiblyUndefinedMixed,
    /// `null` that may be undefined.
    UndefinedNull,
    /// The asserted type itself, its placeholders removed.
    AssertedType,
}

pub open spec fn opt_view(key: Option<&[u8]>) -> Option<Seq<u8>> {
    match key {
        Some(k) => Some(k@),
        None => None,
    }
}

/// `isset` gives `mixed` (from the loop inside one); `!isset` or a missing
/// array key gives `mixed` that may be undefined on an array item or a
/// property, and undefined `null` otherwise; an identity or type assertion
/// (`null` and non-null `mixed` among them) gives the asserted type; any
/// other assertion gives `mixed`.
pub open spec fn spec_missing_type(kind: AssertionKind, key: Option<Seq<u8>>, inside_loop: bool) -> MissingType {
    match kind {
        AssertionKind::IsIsset | AssertionKind::IsEqualIsset => MissingType::Mixed { from_loop: inside_loop },
        AssertionKind::IsNotIsset | AssertionKind::ArrayKeyDoesNotExist => match key {
            Some(k) => if k.contains(91u8) || occurs_in(k, arrow()) {
                MissingType::PossiblyUndefinedMixed
            } else {
                MissingType::UndefinedNull
            },
            None => MissingType::UndefinedNull,
        },
        AssertionKind::IsIdentical | AssertionKind::IsType | AssertionKind::IsNull | AssertionKind::IsNonNullMixed => MissingType::AssertedType,
        _ => MissingType::Mixed { from_loop: false },
    }
}

/// Decides the type of a variable without one on which an assertion of
/// this kind is made (`key` is the variable's key, where there is one).
pub fn missing_type(kind: AssertionKind, key: Option<&[u8]>, inside_loop: bool) -> (r: MissingType)
    ensures
        r == spec_missing_type(kind, opt_view(key), inside_loop),
{
    match kind {
        AssertionKind::IsIsset | AssertionKind::IsEqualIsset => MissingType::Mixed { from_loop: inside_loop },
        AssertionKind::IsNotIsset | AssertionKind::ArrayKeyDoesNotExist => match key {
            Some(k) => {
                let arrow_bytes: [u8; 2] = [45u8, 62u8];
                assert(arrow_bytes@ =~= arrow());
                if contains_byte(k, 91u8) || contains_bytes(k, arrow_bytes.as_slice()) {
                    MissingType::PossiblyUndefinedMixed
                } else {
                    MissingType::UndefinedNull
                }
            },
            None => MissingType::UndefinedNull,
        },
        AssertionKind::IsIdentical | AssertionKind::IsType | AssertionKind::IsNull | AssertionKind::IsNonNullMixed => MissingType::AssertedType,
        _ => MissingType::Mixed { from_loop: false },
    }
}

} // verus!
