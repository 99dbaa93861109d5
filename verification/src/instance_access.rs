//! Resolution of an instance property access `$obj->name`: what each part of
//! the object's type gives for each selected property, which paths are
//! ambiguous, invalid or erroneous, and which issues the access raises.
//!
//! The object's type is read as a list of parts (generic parameters replaced
//! by the parts of their constraint, in the order they are examined); what
//! a class declares for a property is the outcome of its lookup.
use vstd::prelude::*;
use crate::null_access::{report_access_on_null, spec_null_access_issue, NullAccessIssue};
use crate::resolution::{DeclaredPropertyAccess, UndeclaredPropertyOutcome};

verus! {

/// A property selector: dynamic (`$obj->$name`, `$obj->{expr}`), and the
/// name it selects where that is known.
#[derive(Debug)]
pub struct SelectorShape {
    pub is_dynamic: bool,
    /// The property name it selects, where it is known.
    pub name: Option<Vec<u8>>,
}

/// What the access knows of its surroundings and of the whole object type.
#[derive(Clone, Copy, PartialEq, Eq, Structural, Debug)]
pub struct AccessContext {
    /// The access is written `?->`.
    pub is_null_safe: bool,
    /// The object type's `null` comes from an earlier `?->`.
    pub has_nullsafe_null: bool,
    /// The whole object type is `mixed`.
    pub type_is_mixed: bool,
    /// The object type is only `null` or only `void`.
    pub is_all_null: bool,
    pub inside_isset: bool,
    pub inside_assignment: bool,
    /// Whether the type system counts `mixed` as nullable.
    pub mixed_is_nullable: bool,
}

/// A property that a shaped object lists: whether it is optional, and
/// whether its type is nullable.
#[derive(Clone, Copy, PartialEq, Eq, Structural, Debug)]
pub struct KnownProperty {
    pub optional: bool,
    pub nullable: bool,
}

/// How the lookup of one property in a named object's class (or an enum) ended.
#[derive(Clone, Copy, PartialEq, Eq, Structural, Debug)]
pub enum ClassPropertyLookup {
    /// An enum's builtin `name` or `value`, typed by its cases.
    EnumBuiltin,
    /// The class that would declare the property is unknown.
    UnknownClass,
    /// The class declares it: the access decision, whether the resolved type
    /// is nullable, and whether it is a documented magic property.
    Declared { access: DeclaredPropertyAccess, nullable: bool, is_magic: bool },
    /// The class does not declare it: where the fallbacks ended, and whether
    /// the property they found (if any) has a nullable type.
    Undeclared { outcome: UndeclaredPropertyOutcome, nullable: bool },
}

/// One part of the object's type, with what the resolver reads of it.
#[derive(Debug)]
pub enum ObjectAtom {
    /// `null`, or `void`.
    NullLike { is_void: bool },
    /// A type that is not an object.
    NonObject { is_mixed: bool },
    /// `object`, with nothing more known.
    AnyObject,
    /// An object known by asserted methods: whether its intersected types
    /// assert every selected property.
    AssertedMethods { all_asserted: bool },
    /// An object known to have properties: whether each selected property is
    /// among them or asserted by its intersected types.
    AssertedProperties { all_present: bool },
    /// A shaped object: whether it is sealed, and for each selected property
    /// the entry it lists, if any.
    Shaped { sealed: bool, known: Vec<Option<KnownProperty>> },
    /// A named object or an enum: whether its class has the magic method
    /// (`__set` for a write, `__get` for a read), and each selected
    /// property's lookup.
    Class { has_magic_method: bool, lookups: Vec<ClassPropertyLookup> },
}

/// A property that the access may reach: the index of its selector among
/// the named ones, whether its type is nullable, whether it is magic.
#[derive(Clone, Copy, PartialEq, Eq, Structural, Debug)]
pub struct PropertyHit {
    pub index: usize,
    pub nullable: bool,
    pub is_magic: bool,
}

/// An issue that the access raises itself (those of the class lookups are
/// raised there).
#[derive(Clone, Copy, PartialEq, Eq, Structural, Debug)]
pub enum PropertyAccessReport {
    AccessOnNull { issue: NullAccessIssue },
    /// Access on a non-object (`mixed` or not).
    AccessOnNonObject { on_mixed: bool },
    AmbiguousAccess,
    NonExistentProperty { index: usize },
    PossiblyNonExistentProperty { index: usize },
    /// A magic property of a class without the magic method to serve it.
    MagicPropertyWithoutMethod { index: usize },
}

/// A property that the access reaches: its name (`$` and the selected
/// name), the index of its selector among the named ones, whether its type
/// is nullable, whether it is magic.
#[derive(PartialEq, Eq, Debug)]
pub struct ResolvedProperty {
    pub property_name: Vec<u8>,
    pub selector_index: usize,
    pub nullable: bool,
    pub is_magic: bool,
}

/// The outcome of resolving an instance property access.
#[derive(Debug)]
pub struct PropertyResolutionResult {
    pub properties: Vec<ResolvedProperty>,
    pub reports: Vec<PropertyAccessReport>,
    pub has_ambiguous_path: bool,
    pub has_error_path: bool,
    pub has_invalid_path: bool,
    pub encountered_null: bool,
    pub encountered_mixed: bool,
    pub has_possibly_defined_property: bool,
    /// Some property was reached and none has a nullable type.
    pub all_properties_non_nullable: bool,
    /// `?->` on a value that can never be `null`.
    pub redundant_nullsafe: bool,
}

/// The state of the resolution while the parts are examined.
struct PropertyWalk {
    properties: Vec<PropertyHit>,
    reports: Vec<PropertyAccessReport>,
    has_ambiguous_path: bool,
    has_error_path: bool,
    has_invalid_path: bool,
    encountered_null: bool,
    encountered_mixed: bool,
    has_possibly_defined_property: bool,
}

/// The model of the resolution while the parts are examined.
pub struct ResolutionState {
    pub properties: Seq<PropertyHit>,
    pub reports: Seq<PropertyAccessReport>,
    pub ambiguous: bool,
    pub error: bool,
    pub invalid: bool,
    pub null: bool,
    pub mixed: bool,
    pub possibly_defined: bool,
}

closed spec fn walk_state(r: PropertyWalk) -> ResolutionState {
    ResolutionState {
        properties: r.properties@,
        reports: r.reports@,
        ambiguous: r.has_ambiguous_path,
        error: r.has_error_path,
        invalid: r.has_invalid_path,
        null: r.encountered_null,
        mixed: r.encountered_mixed,
        possibly_defined: r.has_possibly_defined_property,
    }
}

pub open spec fn hit_of(p: ResolvedProperty) -> PropertyHit {
    PropertyHit { index: p.selector_index, nullable: p.nullable, is_magic: p.is_magic }
}

/// The model of a resolution's outcome.
pub open spec fn state_of(r: PropertyResolutionResult) -> ResolutionState {
    ResolutionState {
        properties: r.properties@.map_values(|p: ResolvedProperty| hit_of(p)),
        reports: r.reports@,
        ambiguous: r.has_ambiguous_path,
        error: r.has_error_path,
        invalid: r.has_invalid_path,
        null: r.encountered_null,
        mixed: r.encountered_mixed,
        possibly_defined: r.has_possibly_defined_property,
    }
}

pub open spec fn with_report(s: ResolutionState, r: PropertyAccessReport) -> ResolutionState {
    ResolutionState { reports: s.reports.push(r), ..s }
}

pub open spec fn with_hit(s: ResolutionState, h: PropertyHit) -> ResolutionState {
    ResolutionState { properties: s.properties.push(h), ..s }
}

pub open spec fn marked_invalid(s: ResolutionState) -> ResolutionState {
    ResolutionState { invalid: true, ..s }
}

/// An ambiguous path, reported outside `isset`.
pub open spec fn spec_ambiguous(s: ResolutionState, ctx: AccessContext) -> ResolutionState {
    let s1 = ResolutionState { ambiguous: true, ..s };
    if ctx.inside_isset { s1 } else { with_report(s1, PropertyAccessReport::AmbiguousAccess) }
}

/// The names of the properties selected by name, in order, each with the
/// `$` of a property variable before it.
pub open spec fn property_names(selectors: Seq<SelectorShape>) -> Seq<Seq<u8>>
    decreases selectors.len(),
{
    if selectors.len() == 0 {
        Seq::empty()
    } else {
        let before = property_names(selectors.drop_last());
        match selectors.last().name {
            Some(name) => before.push(seq![36u8] + name@),
            None => before,
        }
    }
}

/// The number of selectors with a name.
pub open spec fn named_count(selectors: Seq<SelectorShape>) -> nat {
    property_names(selectors).len()
}

/// The state before any part is examined: a dynamic selector makes the
/// path ambiguous, one without a name makes it invalid.
pub open spec fn spec_initial_state(selectors: Seq<SelectorShape>) -> ResolutionState {
    ResolutionState {
        properties: Seq::empty(),
        reports: Seq::empty(),
        ambiguous: exists|i: int| 0 <= i < selectors.len() && (#[trigger] selectors[i]).is_dynamic,
        error: false,
        invalid: exists|i: int| 0 <= i < selectors.len() && (#[trigger] selectors[i]).name is None,
        null: false,
        mixed: false,
        possibly_defined: false,
    }
}

/// `n` properties of type `mixed`, after those of `s`.
pub open spec fn spec_mixed_hits(s: ResolutionState, n: nat, ctx: AccessContext) -> ResolutionState {
    ResolutionState {
        properties: s.properties + Seq::new(n, |i: int| PropertyHit { index: i as usize, nullable: ctx.mixed_is_nullable, is_magic: false }),
        ..s
    }
}

/// A property of a shaped object: one it does not list is invalid when it
/// is sealed and ambiguous otherwise; an optional one is reported outside
/// `isset` and its type becomes nullable.
pub open spec fn spec_shaped_property(s: ResolutionState, index: nat, k: Option<KnownProperty>, sealed: bool, ctx: AccessContext) -> ResolutionState {
    match k {
        None => if sealed {
            with_report(marked_invalid(s), PropertyAccessReport::NonExistentProperty { index: index as usize })
        } else {
            spec_ambiguous(s, ctx)
        },
        Some(p) => {
            let s1 = if p.optional && !ctx.inside_isset {
                with_report(s, PropertyAccessReport::PossiblyNonExistentProperty { index: index as usize })
            } else {
                s
            };
            with_hit(s1, PropertyHit { index: index as usize, nullable: p.optional || p.nullable, is_magic: false })
        },
    }
}

pub open spec fn spec_shaped_properties(s: ResolutionState, known: Seq<Option<KnownProperty>>, sealed: bool, ctx: AccessContext) -> ResolutionState
    decreases known.len(),
{
    if known.len() == 0 {
        s
    } else {
        spec_shaped_property(spec_shaped_properties(s, known.drop_last(), sealed, ctx), (known.len() - 1) as nat, known.last(), sealed, ctx)
    }
}

/// A property found in a class, reported when it is magic and the class
/// has no magic method to serve it.
pub open spec fn spec_found(s: ResolutionState, index: nat, nullable: bool, is_magic: bool, has_magic_method: bool) -> ResolutionState {
    let s1 = if is_magic && !has_magic_method {
        with_report(s, PropertyAccessReport::MagicPropertyWithoutMethod { index: index as usize })
    } else {
        s
    };
    with_hit(s1, PropertyHit { index: index as usize, nullable, is_magic })
}

/// A property of a named object or enum, by its lookup: a refused or
/// missing one makes the path invalid (a refused one also erroneous), one
/// that a final class's mixin has is invalid though reached, and one that
/// a subclass could declare marks the property possibly defined.
pub open spec fn spec_class_property(s: ResolutionState, index: nat, l: ClassPropertyLookup, has_magic_method: bool, ctx: AccessContext) -> ResolutionState {
    match l {
        ClassPropertyLookup::EnumBuiltin => with_hit(s, PropertyHit { index: index as usize, nullable: false, is_magic: false }),
        ClassPropertyLookup::UnknownClass => marked_invalid(s),
        ClassPropertyLookup::Declared { access, nullable, is_magic } => if access.refused {
            ResolutionState { error: true, invalid: true, ..s }
        } else {
            spec_found(s, index, nullable, is_magic, has_magic_method)
        },
        ClassPropertyLookup::Undeclared { outcome, nullable } => match outcome {
            UndeclaredPropertyOutcome::NonExistentMixinProperty => spec_found(marked_invalid(s), index, nullable, false, has_magic_method),
            UndeclaredPropertyOutcome::NonDocumentedProperty => spec_found(s, index, ctx.mixed_is_nullable, true, has_magic_method),
            UndeclaredPropertyOutcome::Asserted => spec_found(s, index, ctx.mixed_is_nullable, false, has_magic_method),
            UndeclaredPropertyOutcome::NonExistentProperty { possibly_defined } =>
                ResolutionState { invalid: true, possibly_defined: s.possibly_defined || possibly_defined, ..s },
            _ => spec_found(s, index, nullable, false, has_magic_method),
        },
    }
}

pub open spec fn spec_class_properties(s: ResolutionState, lookups: Seq<ClassPropertyLookup>, has_magic_method: bool, ctx: AccessContext) -> ResolutionState
    decreases lookups.len(),
{
    if lookups.len() == 0 {
        s
    } else {
        spec_class_property(spec_class_properties(s, lookups.drop_last(), has_magic_method, ctx), (lookups.len() - 1) as nat, lookups.last(), has_magic_method, ctx)
    }
}

/// One part of the object type, with `n` named selectors:
/// - `null`/`void` is noted, and reported unless the access is null-safe or
///   the `null` comes from an earlier `?->`;
/// - a non-object makes the path invalid (and notes `mixed` when the whole
///   type is), reported except for `mixed` inside `isset`;
/// - `object` is ambiguous;
/// - an object known by assertions gives `mixed` properties when every
///   selected one is asserted, and is ambiguous otherwise;
/// - shaped objects and classes go property by property.
pub open spec fn spec_atom(s: ResolutionState, atom: ObjectAtom, n: nat, ctx: AccessContext) -> ResolutionState {
    match atom {
        ObjectAtom::NullLike { is_void } => {
            let s1 = ResolutionState { null: true, ..s };
            if !ctx.is_null_safe && !ctx.has_nullsafe_null {
                match spec_null_access_issue(is_void, ctx.is_all_null, ctx.inside_isset, ctx.inside_assignment) {
                    Some(issue) => with_report(s1, PropertyAccessReport::AccessOnNull { issue }),
                    None => s1,
                }
            } else {
                s1
            }
        },
        ObjectAtom::NonObject { is_mixed } => {
            let s1 = ResolutionState { invalid: true, mixed: s.mixed || ctx.type_is_mixed, ..s };
            if !ctx.inside_isset || !is_mixed {
                with_report(s1, PropertyAccessReport::AccessOnNonObject { on_mixed: is_mixed })
            } else {
                s1
            }
        },
        ObjectAtom::AnyObject => spec_ambiguous(s, ctx),
        ObjectAtom::AssertedMethods { all_asserted } => if all_asserted { spec_mixed_hits(s, n, ctx) } else { spec_ambiguous(s, ctx) },
        ObjectAtom::AssertedProperties { all_present } => if all_present { spec_mixed_hits(s, n, ctx) } else { spec_ambiguous(s, ctx) },
        ObjectAtom::Shaped { sealed, known } => spec_shaped_properties(s, known@, sealed, ctx),
        ObjectAtom::Class { has_magic_method, lookups } => spec_class_properties(s, lookups@, has_magic_method, ctx),
    }
}

pub open spec fn spec_atoms(s: ResolutionState, atoms: Seq<ObjectAtom>, n: nat, ctx: AccessContext) -> ResolutionState
    decreases atoms.len(),
{
    if atoms.len() == 0 {
        s
    } else {
        spec_atom(spec_atoms(s, atoms.drop_last(), n, ctx), atoms.last(), n, ctx)
    }
}

/// The resolution of an access with these selectors on an object type with
/// these parts, examined in order.
pub open spec fn spec_resolution(selectors: Seq<SelectorShape>, atoms: Seq<ObjectAtom>, ctx: AccessContext) -> ResolutionState {
    spec_atoms(spec_initial_state(selectors), atoms, named_count(selectors), ctx)
}

pub open spec fn none_nullable(props: Seq<PropertyHit>) -> bool {
    props.len() > 0 && forall|i: int| 0 <= i < props.len() ==> !(#[trigger] props[i]).nullable
}

fn note_ambiguous(r: &mut PropertyWalk, ctx: AccessContext)
    ensures
        walk_state(*final(r)) == spec_ambiguous(walk_state(*old(r)), ctx),
{
    r.has_ambiguous_path = true;
    if !ctx.inside_isset {
        r.reports.push(PropertyAccessReport::AmbiguousAccess);
    }
}

fn push_mixed_hits(r: &mut PropertyWalk, n: usize, ctx: AccessContext)
    ensures
        walk_state(*final(r)) == spec_mixed_hits(walk_state(*old(r)), n as nat, ctx),
{
    let ghost before = walk_state(*r);
    let mut i: usize = 0;
    while i < n
        invariant
            i <= n,
            walk_state(*r) == spec_mixed_hits(before, i as nat, ctx),
        decreases n - i,
    {
        r.properties.push(PropertyHit { index: i, nullable: ctx.mixed_is_nullable, is_magic: false });
        proof {
            let f = |j: int| PropertyHit { index: j as usize, nullable: ctx.mixed_is_nullable, is_magic: false };
            assert(Seq::new((i + 1) as nat, f) =~= Seq::new(i as nat, f).push(f(i as int)));
            assert(r.properties@ =~= before.properties + Seq::new((i + 1) as nat, f));
        }
        i = i + 1;
    }
}

fn resolve_shaped_property(r: &mut PropertyWalk, index: usize, k: Option<KnownProperty>, sealed: bool, ctx: AccessContext)
    ensures
        walk_state(*final(r)) == spec_shaped_property(walk_state(*old(r)), index as nat, k, sealed, ctx),
{
    match k {
        None => {
            if sealed {
                r.has_invalid_path = true;
                r.reports.push(PropertyAccessReport::NonExistentProperty { index });
            } else {
                note_ambiguous(r, ctx);
            }
        },
        Some(p) => {
            if p.optional && !ctx.inside_isset {
                r.reports.push(PropertyAccessReport::PossiblyNonExistentProperty { index });
            }
            r.properties.push(PropertyHit { index, nullable: p.optional || p.nullable, is_magic: false });
        },
    }
}

fn resolve_found(r: &mut PropertyWalk, index: usize, nullable: bool, is_magic: bool, has_magic_method: bool)
    ensures
        walk_state(*final(r)) == spec_found(walk_state(*old(r)), index as nat, nullable, is_magic, has_magic_method),
{
    if is_magic && !has_magic_method {
        r.reports.push(PropertyAccessReport::MagicPropertyWithoutMethod { index });
    }
    r.properties.push(PropertyHit { index, nullable, is_magic });
}

fn resolve_class_property(r: &mut PropertyWalk, index: usize, l: ClassPropertyLookup, has_magic_method: bool, ctx: AccessContext)
    ensures
        walk_state(*final(r)) == spec_class_property(walk_state(*old(r)), index as nat, l, has_magic_method, ctx),
{
    match l {
        ClassPropertyLookup::EnumBuiltin => {
            r.properties.push(PropertyHit { index, nullable: false, is_magic: false });
        },
        ClassPropertyLookup::UnknownClass => {
            r.has_invalid_path = true;
        },
        ClassPropertyLookup::Declared { access, nullable, is_magic } => {
            if access.refused {
                r.has_error_path = true;
                r.has_invalid_path = true;
            } else {
                resolve_found(r, index, nullable, is_magic, has_magic_method);
            }
        },
        ClassPropertyLookup::Undeclared { outcome, nullable } => {
            match outcome {
                UndeclaredPropertyOutcome::NonExistentMixinProperty => {
                    r.has_invalid_path = true;
                    resolve_found(r, index, nullable, false, has_magic_method);
                },
                UndeclaredPropertyOutcome::NonDocumentedProperty => {
                    resolve_found(r, index, ctx.mixed_is_nullable, true, has_magic_method);
                },
                UndeclaredPropertyOutcome::Asserted => {
                    resolve_found(r, index, ctx.mixed_is_nullable, false, has_magic_method);
                },
                UndeclaredPropertyOutcome::NonExistentProperty { possibly_defined } => {
                    r.has_invalid_path = true;
                    r.has_possibly_defined_property = r.has_possibly_defined_property || possibly_defined;
                },
                _ => {
                    resolve_found(r, index, nullable, false, has_magic_method);
                },
            }
        },
    }
}

fn resolve_shaped(r: &mut PropertyWalk, known: &Vec<Option<KnownProperty>>, sealed: bool, ctx: AccessContext)
    ensures
        walk_state(*final(r)) == spec_shaped_properties(walk_state(*old(r)), known@, sealed, ctx),
{
    let ghost before = walk_state(*r);
    let mut i: usize = 0;
    while i < known.len()
        invariant
            i <= known.len(),
            walk_state(*r) == spec_shaped_properties(before, known@.take(i as int), sealed, ctx),
        decreases known.len() - i,
    {
        proof {
            assert(known@.take((i + 1) as int).drop_last() =~= known@.take(i as int));
        }
        resolve_shaped_property(r, i, known[i], sealed, ctx);
        i = i + 1;
    }
    proof {
        assert(known@.take(known.len() as int) =~= known@);
    }
}

fn resolve_class(r: &mut PropertyWalk, lookups: &Vec<ClassPropertyLookup>, has_magic_method: bool, ctx: AccessContext)
    ensures
        walk_state(*final(r)) == spec_class_properties(walk_state(*old(r)), lookups@, has_magic_method, ctx),
{
    let ghost before = walk_state(*r);
    let mut i: usize = 0;
    while i < lookups.len()
        invariant
            i <= lookups.len(),
            walk_state(*r) == spec_class_properties(before, lookups@.take(i as int), has_magic_method, ctx),
        decreases lookups.len() - i,
    {
        proof {
            assert(lookups@.take((i + 1) as int).drop_last() =~= lookups@.take(i as int));
        }
        resolve_class_property(r, i, lookups[i], has_magic_method, ctx);
        i = i + 1;
    }
    proof {
        assert(lookups@.take(lookups.len() as int) =~= lookups@);
    }
}

fn resolve_atom(r: &mut PropertyWalk, atom: &ObjectAtom, n: usize, ctx: AccessContext)
    ensures
        walk_state(*final(r)) == spec_atom(walk_state(*old(r)), *atom, n as nat, ctx),
{
    match atom {
        ObjectAtom::NullLike { is_void } => {
            r.encountered_null = true;
            if !ctx.is_null_safe && !ctx.has_nullsafe_null {
                match report_access_on_null(*is_void, ctx.is_all_null, ctx.inside_isset, ctx.inside_assignment) {
                    Some(issue) => {
                        r.reports.push(PropertyAccessReport::AccessOnNull { issue });
                    },
                    None => {},
                }
            }
        },
        ObjectAtom::NonObject { is_mixed } => {
            r.has_invalid_path = true;
            if ctx.type_is_mixed {
                r.encountered_mixed = true;
            }
            if !ctx.inside_isset || !*is_mixed {
                r.reports.push(PropertyAccessReport::AccessOnNonObject { on_mixed: *is_mixed });
            }
        },
        ObjectAtom::AnyObject => {
            note_ambiguous(r, ctx);
        },
        ObjectAtom::AssertedMethods { all_asserted } => {
            if *all_asserted {
                push_mixed_hits(r, n, ctx);
            } else {
                note_ambiguous(r, ctx);
            }
        },
        ObjectAtom::AssertedProperties { all_present } => {
            if *all_present {
                push_mixed_hits(r, n, ctx);
            } else {
                note_ambiguous(r, ctx);
            }
        },
        ObjectAtom::Shaped { sealed, known } => {
            resolve_shaped(r, known, *sealed, ctx);
        },
        ObjectAtom::Class { has_magic_method, lookups } => {
            resolve_class(r, lookups, *has_magic_method, ctx);
        },
    }
}

/// Every property of `props` comes from one of the first `n` named selectors.
pub open spec fn indices_below(props: Seq<PropertyHit>, n: nat) -> bool {
    forall|i: int| 0 <= i < props.len() ==> (#[trigger] props[i]).index < n
}

/// A shaped object or a class gives one entry or lookup per named selector.
pub open spec fn lookups_per_name(atom: ObjectAtom, n: nat) -> bool {
    match atom {
        ObjectAtom::Shaped { known, .. } => known@.len() == n,
        ObjectAtom::Class { lookups, .. } => lookups@.len() == n,
        _ => true,
    }
}

proof fn lemma_shaped_indices(s: ResolutionState, known: Seq<Option<KnownProperty>>, sealed: bool, ctx: AccessContext, n: nat)
    requires
        indices_below(s.properties, n),
        known.len() <= n,
        n <= usize::MAX,
    ensures
        indices_below(spec_shaped_properties(s, known, sealed, ctx).properties, n),
    decreases known.len(),
{
    if known.len() > 0 {
        lemma_shaped_indices(s, known.drop_last(), sealed, ctx, n);
    }
}

proof fn lemma_class_indices(s: ResolutionState, lookups: Seq<ClassPropertyLookup>, has_magic_method: bool, ctx: AccessContext, n: nat)
    requires
        indices_below(s.properties, n),
        lookups.len() <= n,
        n <= usize::MAX,
    ensures
        indices_below(spec_class_properties(s, lookups, has_magic_method, ctx).properties, n),
    decreases lookups.len(),
{
    if lookups.len() > 0 {
        lemma_class_indices(s, lookups.drop_last(), has_magic_method, ctx, n);
    }
}

proof fn lemma_atoms_indices(s: ResolutionState, atoms: Seq<ObjectAtom>, n: nat, ctx: AccessContext)
    requires
        indices_below(s.properties, n),
        n <= usize::MAX,
        forall|k: int| 0 <= k < atoms.len() ==> lookups_per_name(#[trigger] atoms[k], n),
    ensures
        indices_below(spec_atoms(s, atoms, n, ctx).properties, n),
    decreases atoms.len(),
{
    if atoms.len() > 0 {
        let prev = spec_atoms(s, atoms.drop_last(), n, ctx);
        assert forall|k: int| 0 <= k < atoms.drop_last().len() implies lookups_per_name(#[trigger] atoms.drop_last()[k], n) by {
            assert(atoms.drop_last()[k] == atoms[k]);
        }
        lemma_atoms_indices(s, atoms.drop_last(), n, ctx);
        assert(lookups_per_name(atoms[atoms.len() - 1], n));
        match atoms.last() {
            ObjectAtom::Shaped { sealed, known } => lemma_shaped_indices(prev, known@, sealed, ctx, n),
            ObjectAtom::Class { has_magic_method, lookups } => lemma_class_indices(prev, lookups@, has_magic_method, ctx, n),
            ObjectAtom::AssertedMethods { .. } | ObjectAtom::AssertedProperties { .. } => {
                let r = spec_atom(prev, atoms.last(), n, ctx);
                assert forall|i: int| 0 <= i < r.properties.len() implies (#[trigger] r.properties[i]).index < n by {
                    if i >= prev.properties.len() {
                        assert(r.properties[i].index == (i - prev.properties.len()) as usize);
                    }
                }
            },
            _ => {},
        }
    }
}

/// Resolves an instance property access from its selectors and the parts of
/// the object's type, examined in order (a shaped object or a class giving
/// one entry or lookup per named selector); `is_nullable` says whether the
/// object type can be `null` or undefined. The result lists the properties
/// reached and the issues raised, as `spec_resolution` gives them; each
/// property is named `$` and the name of its selector. `?->` is redundant on
/// a type that can be neither `null` nor undefined and is not only `null`.
pub fn resolve_instance_properties(selectors: &Vec<SelectorShape>, atoms: &Vec<ObjectAtom>, is_nullable: bool, ctx: AccessContext) -> (r: PropertyResolutionResult)
    requires
        forall|k: int| 0 <= k < atoms@.len() ==> lookups_per_name(#[trigger] atoms@[k], named_count(selectors@)),
    ensures
        state_of(r) == spec_resolution(selectors@, atoms@, ctx),
        forall|i: int| 0 <= i < r.properties@.len() ==> {
            &&& (#[trigger] r.properties@[i]).selector_index < named_count(selectors@)
            &&& r.properties@[i].property_name@ == property_names(selectors@)[r.properties@[i].selector_index as int]
        },
        r.all_properties_non_nullable == none_nullable(state_of(r).properties),
        r.redundant_nullsafe == (ctx.is_null_safe && !is_nullable && !ctx.is_all_null),
{
    let mut w = PropertyWalk {
        properties: Vec::new(),
        reports: Vec::new(),
        has_ambiguous_path: false,
        has_error_path: false,
        has_invalid_path: false,
        encountered_null: false,
        encountered_mixed: false,
        has_possibly_defined_property: false,
    };
    let mut names: Vec<Vec<u8>> = Vec::new();
    let mut i: usize = 0;
    while i < selectors.len()
        invariant
            i <= selectors.len(),
            names.len() <= i,
            names@.map_values(|v: Vec<u8>| v@) == property_names(selectors@.take(i as int)),
            walk_state(w) == spec_initial_state(selectors@.take(i as int)),
        decreases selectors.len() - i,
    {
        let sel = &selectors[i];
        proof {
            let t = selectors@.take((i + 1) as int);
            assert(t.drop_last() =~= selectors@.take(i as int));
            assert(t[i as int] == *sel);
            assert forall|j: int| 0 <= j < i implies #[trigger] t[j] == selectors@.take(i as int)[j] by {}
        }
        if sel.is_dynamic {
            w.has_ambiguous_path = true;
        }
        match &sel.name {
            Some(name) => {
                let mut dollar: Vec<u8> = Vec::new();
                dollar.push(36u8);
                crate::expr_id::append(&mut dollar, name.as_slice());
                let ghost before = names@;
                names.push(dollar);
                proof {
                    assert(dollar@ =~= seq![36u8] + name@);
                    assert(names@.map_values(|v: Vec<u8>| v@) =~= before.map_values(|v: Vec<u8>| v@).push(dollar@));
                }
            },
            None => {
                w.has_invalid_path = true;
            },
        }
        i = i + 1;
    }
    proof {
        assert(selectors@.take(selectors.len() as int) =~= selectors@);
    }
    let n = names.len();
    assert(n == named_count(selectors@)) by {
        assert(names@.map_values(|v: Vec<u8>| v@).len() == names@.len());
    }
    let ghost start = walk_state(w);
    let mut k: usize = 0;
    while k < atoms.len()
        invariant
            k <= atoms.len(),
            n == named_count(selectors@),
            walk_state(w) == spec_atoms(start, atoms@.take(k as int), n as nat, ctx),
        decreases atoms.len() - k,
    {
        proof {
            assert(atoms@.take((k + 1) as int).drop_last() =~= atoms@.take(k as int));
        }
        resolve_atom(&mut w, &atoms[k], n, ctx);
        k = k + 1;
    }
    proof {
        assert(atoms@.take(atoms.len() as int) =~= atoms@);
        lemma_atoms_indices(start, atoms@, n as nat, ctx);
    }
    let ghost hits = w.properties@;
    let mut properties: Vec<ResolvedProperty> = Vec::new();
    let mut all_non_nullable = w.properties.len() > 0;
    let mut j: usize = 0;
    while j < w.properties.len()
        invariant
            j <= w.properties.len(),
            hits == w.properties@,
            indices_below(hits, n as nat),
            n == names.len(),
            names@.map_values(|v: Vec<u8>| v@) == property_names(selectors@),
            properties@.map_values(|p: ResolvedProperty| hit_of(p)) == hits.take(j as int),
            forall|m: int| 0 <= m < properties@.len() ==> {
                &&& (#[trigger] properties@[m]).selector_index < n
                &&& properties@[m].property_name@ == property_names(selectors@)[properties@[m].selector_index as int]
            },
            all_non_nullable == (hits.len() > 0 && forall|m: int| 0 <= m < j ==> !(#[trigger] hits[m]).nullable),
        decreases w.properties.len() - j,
    {
        let hit = w.properties[j];
        assert(hits[j as int] == hit);
        let name = crate::expr_id::bytes_of(names[hit.index].as_slice());
        proof {
            assert(names@.map_values(|v: Vec<u8>| v@)[hit.index as int] == names@[hit.index as int]@);
        }
        let ghost before = properties@;
        let resolved = ResolvedProperty { property_name: name, selector_index: hit.index, nullable: hit.nullable, is_magic: hit.is_magic };
        proof {
            assert(hit_of(resolved) == hit);
        }
        properties.push(resolved);
        proof {
            assert(properties@ == before.push(resolved));
            assert(hits.take((j + 1) as int) =~= hits.take(j as int).push(hit));
            assert(before.map_values(|p: ResolvedProperty| hit_of(p)) == hits.take(j as int));
            assert(properties@.map_values(|p: ResolvedProperty| hit_of(p)) =~= before.map_values(|p: ResolvedProperty| hit_of(p)).push(hit_of(resolved)));
        }
        if hit.nullable {
            all_non_nullable = false;
        }
        j = j + 1;
    }
    proof {
        assert(hits.take(hits.len() as int) =~= hits);
    }
    PropertyResolutionResult {
        properties,
        reports: w.reports,
        has_ambiguous_path: w.has_ambiguous_path,
        has_error_path: w.has_error_path,
        has_invalid_path: w.has_invalid_path,
        encountered_null: w.encountered_null,
        encountered_mixed: w.encountered_mixed,
        has_possibly_defined_property: w.has_possibly_defined_property,
        all_properties_non_nullable: all_non_nullable,
        redundant_nullsafe: ctx.is_null_safe && !is_nullable && !ctx.is_all_null,
    }
}

/// No report in `reports` is an access on `null`.
pub open spec fn no_null_report(reports: Seq<PropertyAccessReport>) -> bool {
    forall|i: int| 0 <= i < reports.len() ==> !((#[trigger] reports[i]) is AccessOnNull)
}

proof fn lemma_shaped_keeps_no_null(s: ResolutionState, known: Seq<Option<KnownProperty>>, sealed: bool, ctx: AccessContext)
    requires
        no_null_report(s.reports),
    ensures
        no_null_report(spec_shaped_properties(s, known, sealed, ctx).reports),
    decreases known.len(),
{
    if known.len() > 0 {
        lemma_shaped_keeps_no_null(s, known.drop_last(), sealed, ctx);
    }
}

proof fn lemma_class_keeps_no_null(s: ResolutionState, lookups: Seq<ClassPropertyLookup>, has_magic_method: bool, ctx: AccessContext)
    requires
        no_null_report(s.reports),
    ensures
        no_null_report(spec_class_properties(s, lookups, has_magic_method, ctx).reports),
    decreases lookups.len(),
{
    if lookups.len() > 0 {
        lemma_class_keeps_no_null(s, lookups.drop_last(), has_magic_method, ctx);
    }
}

proof fn lemma_atoms_keep_no_null(s: ResolutionState, atoms: Seq<ObjectAtom>, n: nat, ctx: AccessContext)
    requires
        no_null_report(s.reports),
        ctx.is_null_safe || ctx.has_nullsafe_null,
    ensures
        no_null_report(spec_atoms(s, atoms, n, ctx).reports),
    decreases atoms.len(),
{
    if atoms.len() > 0 {
        let prev = spec_atoms(s, atoms.drop_last(), n, ctx);
        lemma_atoms_keep_no_null(s, atoms.drop_last(), n, ctx);
        match atoms.last() {
            ObjectAtom::Shaped { sealed, known } => lemma_shaped_keeps_no_null(prev, known@, sealed, ctx),
            ObjectAtom::Class { has_magic_method, lookups } => lemma_class_keeps_no_null(prev, lookups@, has_magic_method, ctx),
            _ => {},
        }
    }
}

/// An access written `?->`, or on an object whose `null` comes from an
/// earlier `?->`, never reports an access on `null`, whatever the parts of
/// the object's type and the selectors.
pub proof fn lemma_null_safe_access_reports_no_null(selectors: Seq<SelectorShape>, atoms: Seq<ObjectAtom>, ctx: AccessContext)
    requires
        ctx.is_null_safe || ctx.has_nullsafe_null,
    ensures
        no_null_report(spec_resolution(selectors, atoms, ctx).reports),
{
    lemma_atoms_keep_no_null(spec_initial_state(selectors), atoms, named_count(selectors), ctx);
}

} // verus!
