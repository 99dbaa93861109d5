//! The decisions of method and property resolution that read only class
//! metadata and the outcomes of lookups: which method candidates are kept,
//! what a static call on one class gives, what a static call reports when no
//! method is found, and what a property access gives when the class does or
//! does not declare the property.
use vstd::prelude::*;
use crate::guards::bytes_eq;
use crate::expr_id::bytes_of;

verus! {

/// A method: the class that declares it and its name.
#[derive(Debug)]
pub struct MethodIdentifier {
    pub class_name: Vec<u8>,
    pub method_name: Vec<u8>,
}

pub open spec fn id_view(m: MethodIdentifier) -> (Seq<u8>, Seq<u8>) {
    (m.class_name@, m.method_name@)
}

pub open spec fn ids_view(s: Seq<MethodIdentifier>) -> Seq<(Seq<u8>, Seq<u8>)> {
    s.map_values(|m: MethodIdentifier| id_view(m))
}

/// The candidates kept from `s`: each one whose method no earlier candidate
/// names, in order.
pub open spec fn first_per_method(s: Seq<(Seq<u8>, Seq<u8>)>) -> Seq<(Seq<u8>, Seq<u8>)>
    decreases s.len(),
{
    if s.len() == 0 {
        Seq::empty()
    } else {
        let kept = first_per_method(s.drop_last());
        if s.drop_last().contains(s.last()) { kept } else { kept.push(s.last()) }
    }
}

proof fn lemma_first_per_method_members(s: Seq<(Seq<u8>, Seq<u8>)>, x: (Seq<u8>, Seq<u8>))
    ensures
        first_per_method(s).contains(x) == s.contains(x),
    decreases s.len(),
{
    if s.len() > 0 {
        lemma_first_per_method_members(s.drop_last(), x);
        let kept = first_per_method(s.drop_last());
        if s.contains(x) && x != s.last() {
            let i = choose|i: int| 0 <= i < s.len() && s[i] == x;
            assert(s.drop_last()[i] == x);
        }
        if s.drop_last().contains(x) {
            let i = choose|i: int| 0 <= i < s.drop_last().len() && s.drop_last()[i] == x;
            assert(s[i] == x);
        }
        if !s.drop_last().contains(s.last()) {
            assert(kept.push(s.last()).last() == s.last());
            if kept.push(s.last()).contains(x) && x != s.last() {
                let i = choose|i: int| 0 <= i < kept.push(s.last()).len() && kept.push(s.last())[i] == x;
                assert(kept[i] == x);
            }
            if kept.contains(x) {
                let i = choose|i: int| 0 <= i < kept.len() && kept[i] == x;
                assert(kept.push(s.last())[i] == x);
            }
        }
        assert(s.last() == s[s.len() - 1]);
    }
}

fn is_known(seen: &Vec<MethodIdentifier>, m: &MethodIdentifier) -> (r: bool)
    ensures
        r == ids_view(seen@).contains(id_view(*m)),
{
    let mut k: usize = 0;
    while k < seen.len()
        invariant
            k <= seen@.len(),
            forall|i: int| 0 <= i < k ==> id_view(#[trigger] seen@[i]) != id_view(*m),
        decreases seen.len() - k,
    {
        if bytes_eq(seen[k].class_name.as_slice(), m.class_name.as_slice())
            && bytes_eq(seen[k].method_name.as_slice(), m.method_name.as_slice()) {
            assert(ids_view(seen@)[k as int] == id_view(*m));
            return true;
        }
        k += 1;
    }
    proof {
        if ids_view(seen@).contains(id_view(*m)) {
            let j = choose|j: int| 0 <= j < ids_view(seen@).len() && ids_view(seen@)[j] == id_view(*m);
            assert(id_view(seen@[j]) != id_view(*m));
        }
    }
    false
}

/// Keeps the first candidate for each method, dropping later candidates
/// that name a method already found (through another intersected type, say).
pub fn retain_first_per_method(candidates: &Vec<MethodIdentifier>) -> (kept: Vec<MethodIdentifier>)
    ensures
        ids_view(kept@) == first_per_method(ids_view(candidates@)),
{
    let mut kept: Vec<MethodIdentifier> = Vec::new();
    let mut k: usize = 0;
    assert(ids_view(candidates@).subrange(0, 0) =~= Seq::<(Seq<u8>, Seq<u8>)>::empty());
    assert(ids_view(kept@) =~= Seq::<(Seq<u8>, Seq<u8>)>::empty());
    while k < candidates.len()
        invariant
            k <= candidates@.len(),
            ids_view(kept@) == first_per_method(ids_view(candidates@).subrange(0, k as int)),
        decreases candidates.len() - k,
    {
        let c = &candidates[k];
        let ghost prefix = ids_view(candidates@).subrange(0, k as int);
        let ghost next = ids_view(candidates@).subrange(0, k + 1);
        proof {
            assert(next.drop_last() =~= prefix);
            assert(next.last() == id_view(*c));
            lemma_first_per_method_members(prefix, id_view(*c));
        }
        if !is_known(&kept, c) {
            let ghost before = kept@;
            kept.push(MethodIdentifier { class_name: bytes_of(c.class_name.as_slice()), method_name: bytes_of(c.method_name.as_slice()) });
            assert(ids_view(kept@) =~= ids_view(before).push(id_view(*c)));
        }
        k += 1;
    }
    assert(ids_view(candidates@).subrange(0, k as int) =~= ids_view(candidates@));
    kept
}

/// What a static call `Class::method()` knows of one class it may target.
#[derive(Clone, Copy, PartialEq, Eq, Structural, Debug)]
pub struct StaticCallTarget {
    /// The class exists in the codebase.
    pub exists: bool,
    pub is_interface: bool,
    pub is_trait: bool,
    /// Named relatively: `self`, `static` or `parent`.
    pub is_relative: bool,
    /// Reached through an object (`$object::method()`).
    pub from_instance: bool,
    /// Reached through a class-string.
    pub from_class_string: bool,
    /// The calling class is the class, or extends it.
    pub related_to_caller: bool,
    /// Calling a static method on a trait is deprecated in the analyzed PHP version.
    pub trait_static_call_deprecated: bool,
}

/// The issues of a static call on one class, besides a static call on an interface.
#[derive(Clone, Copy, PartialEq, Eq, Structural, Debug)]
pub enum StaticCallIssue {
    /// A non-static method called statically from outside the class.
    NonStaticAccess,
    /// A static method called on a trait, deprecated.
    DeprecatedStaticAccessOnTrait,
}

/// The outcome of a static call on one class: whether the method could
/// exist there, whether it resolved, whether a static call on an interface
/// is reported, the other issue, and whether the call is invalid.
#[derive(Clone, Copy, PartialEq, Eq, Structural, Debug)]
pub struct StaticTargetOutcome {
    pub could_exist: bool,
    pub resolved: bool,
    pub reports_interface_call: bool,
    pub issue: Option<StaticCallIssue>,
    pub invalid: bool,
}

/// A static call on one class, with `lookup` the method the class gives for
/// the name (`Some(is_static)`), read only when the interface check lets
/// the lookup happen: an unknown class gives nothing; a direct static call
/// on an interface without a magic handler is reported and, unless through
/// a class-string, stops there (invalid when the call records it); a method
/// not found gives nothing more; a non-static method called statically
/// from outside the class is reported and not resolved; a direct static
/// call on a trait may be reported as deprecated.
pub open spec fn spec_static_target_outcome(t: StaticCallTarget, has_magic_static_call: bool, lookup: Option<bool>, records_invalid: bool) -> StaticTargetOutcome {
    let interface_call = !t.from_instance && !t.is_relative && t.is_interface && !has_magic_static_call;
    if !t.exists {
        StaticTargetOutcome { could_exist: false, resolved: false, reports_interface_call: false, issue: None, invalid: false }
    } else if interface_call && !t.from_class_string {
        StaticTargetOutcome { could_exist: true, resolved: false, reports_interface_call: true, issue: None, invalid: records_invalid }
    } else {
        match lookup {
            None => StaticTargetOutcome { could_exist: false, resolved: false, reports_interface_call: interface_call, issue: None, invalid: false },
            Some(is_static) => if !is_static && !t.is_relative && !t.related_to_caller {
                StaticTargetOutcome { could_exist: true, resolved: false, reports_interface_call: interface_call, issue: Some(StaticCallIssue::NonStaticAccess), invalid: false }
            } else if !t.from_instance && !t.is_relative && is_static && t.is_trait && t.trait_static_call_deprecated {
                StaticTargetOutcome { could_exist: true, resolved: true, reports_interface_call: interface_call, issue: Some(StaticCallIssue::DeprecatedStaticAccessOnTrait), invalid: false }
            } else {
                StaticTargetOutcome { could_exist: true, resolved: true, reports_interface_call: interface_call, issue: None, invalid: false }
            },
        }
    }
}

/// Decides a static call on one class. `records_invalid` is false when the
/// call only probes for the magic handler.
pub fn static_target_outcome(t: StaticCallTarget, has_magic_static_call: bool, lookup: Option<bool>, records_invalid: bool) -> (r: StaticTargetOutcome)
    ensures
        r == spec_static_target_outcome(t, has_magic_static_call, lookup, records_invalid),
{
    if !t.exists {
        return StaticTargetOutcome { could_exist: false, resolved: false, reports_interface_call: false, issue: None, invalid: false };
    }
    let interface_call = !t.from_instance && !t.is_relative && t.is_interface && !has_magic_static_call;
    if interface_call && !t.from_class_string {
        return StaticTargetOutcome { could_exist: true, resolved: false, reports_interface_call: true, issue: None, invalid: records_invalid };
    }
    match lookup {
        None => StaticTargetOutcome { could_exist: false, resolved: false, reports_interface_call: interface_call, issue: None, invalid: false },
        Some(is_static) => {
            if !is_static && !t.is_relative && !t.related_to_caller {
                StaticTargetOutcome { could_exist: true, resolved: false, reports_interface_call: interface_call, issue: Some(StaticCallIssue::NonStaticAccess), invalid: false }
            } else if !t.from_instance && !t.is_relative && is_static && t.is_trait && t.trait_static_call_deprecated {
                StaticTargetOutcome { could_exist: true, resolved: true, reports_interface_call: interface_call, issue: Some(StaticCallIssue::DeprecatedStaticAccessOnTrait), invalid: false }
            } else {
                StaticTargetOutcome { could_exist: true, resolved: true, reports_interface_call: interface_call, issue: None, invalid: false }
            }
        },
    }
}

/// What a static call reports once every class it may target was tried.
#[derive(Clone, Copy, PartialEq, Eq, Structural, Debug)]
pub enum StaticCallVerdict {
    /// Some method was resolved.
    Resolved,
    /// No class was named: the target is ambiguous.
    Ambiguous,
    /// A method could exist but was refused (already reported): invalid.
    Refused,
    /// No method, but `__callStatic` exists: the method is not documented.
    NonDocumentedMethod,
    /// No method and no handler.
    NonExistentMethod,
    /// Found in a mixin while the class has a magic handler.
    MixinMethod,
    /// Found in a mixin of a final class without a handler: an error, invalid.
    NonExistentMixinMethod,
    /// Found in a mixin of a class that a subclass could complete: a warning.
    PossiblyNonExistentMixinMethod,
}

/// What the static call concludes from the tries: a resolved method wins;
/// else a method found in the first class's mixins, with its issue when no
/// magic handler could forward the call; else, when a class was named, the
/// call is invalid, reported as undocumented or non-existent unless some
/// class refused a method that could exist; else the target is ambiguous.
pub open spec fn spec_static_call_verdict(any_resolved: bool, named_class: bool, mixin_found: bool, first_class_is_final: bool, magic_call_could_exist: bool, could_method_ever_exist: bool) -> StaticCallVerdict {
    if any_resolved {
        StaticCallVerdict::Resolved
    } else if named_class && mixin_found {
        if magic_call_could_exist {
            StaticCallVerdict::MixinMethod
        } else if first_class_is_final {
            StaticCallVerdict::NonExistentMixinMethod
        } else {
            StaticCallVerdict::PossiblyNonExistentMixinMethod
        }
    } else if named_class {
        if could_method_ever_exist {
            StaticCallVerdict::Refused
        } else if magic_call_could_exist {
            StaticCallVerdict::NonDocumentedMethod
        } else {
            StaticCallVerdict::NonExistentMethod
        }
    } else {
        StaticCallVerdict::Ambiguous
    }
}

/// Decides what a static call concludes: `mixin_found` tells whether the
/// first named class's mixins give the method (looked up only when nothing
/// was resolved).
pub fn static_call_verdict(any_resolved: bool, named_class: bool, mixin_found: bool, first_class_is_final: bool, magic_call_could_exist: bool, could_method_ever_exist: bool) -> (r: StaticCallVerdict)
    ensures
        r == spec_static_call_verdict(any_resolved, named_class, mixin_found, first_class_is_final, magic_call_could_exist, could_method_ever_exist),
{
    if any_resolved {
        StaticCallVerdict::Resolved
    } else if named_class && mixin_found {
        if magic_call_could_exist {
            StaticCallVerdict::MixinMethod
        } else if first_class_is_final {
            StaticCallVerdict::NonExistentMixinMethod
        } else {
            StaticCallVerdict::PossiblyNonExistentMixinMethod
        }
    } else if named_class {
        if could_method_ever_exist {
            StaticCallVerdict::Refused
        } else if magic_call_could_exist {
            StaticCallVerdict::NonDocumentedMethod
        } else {
            StaticCallVerdict::NonExistentMethod
        }
    } else {
        StaticCallVerdict::Ambiguous
    }
}

/// What a class-like is, for a property it does not declare.
#[derive(Clone, Copy, PartialEq, Eq, Structural, Debug)]
pub struct PropertyClass {
    pub is_final: bool,
    pub is_interface: bool,
    pub is_trait: bool,
}

/// Where an undeclared property access ends up.
#[derive(Clone, Copy, PartialEq, Eq, Structural, Debug)]
pub enum UndeclaredPropertyOutcome {
    /// Declared by a class or interface the class requires.
    FromRequired,
    /// Found in a mixin, forwarded by the magic method.
    FromMixin,
    /// Found in a mixin of a final class without the magic method: an error, invalid.
    NonExistentMixinProperty,
    /// Found in a mixin of a class that a subclass could complete: a warning.
    PossiblyNonExistentMixinProperty,
    /// Found on an intersected type.
    FromIntersection,
    /// Handled by `__get`/`__set`: a magic property of type `mixed`, reported as undocumented.
    NonDocumentedProperty,
    /// Asserted by the object's type: a property of type `mixed`.
    Asserted,
    /// Not found: invalid, and possibly defined when a subclass or implementer could declare it.
    NonExistentProperty { possibly_defined: bool },
}

/// The first of the fallbacks that finds the property decides: the
/// required classes, the mixins (with an issue when no magic method can
/// forward), the intersected types, the magic method, a property assertion;
/// else the property does not exist.
pub open spec fn spec_undeclared_property(class: PropertyClass, in_required: bool, in_mixin: bool, in_intersection: bool, has_magic_method: bool, has_property_assertion: bool) -> UndeclaredPropertyOutcome {
    if in_required {
        UndeclaredPropertyOutcome::FromRequired
    } else if in_mixin {
        if has_magic_method {
            UndeclaredPropertyOutcome::FromMixin
        } else if class.is_final {
            UndeclaredPropertyOutcome::NonExistentMixinProperty
        } else {
            UndeclaredPropertyOutcome::PossiblyNonExistentMixinProperty
        }
    } else if in_intersection {
        UndeclaredPropertyOutcome::FromIntersection
    } else if has_magic_method {
        UndeclaredPropertyOutcome::NonDocumentedProperty
    } else if has_property_assertion {
        UndeclaredPropertyOutcome::Asserted
    } else {
        UndeclaredPropertyOutcome::NonExistentProperty {
            possibly_defined: !class.is_final || class.is_interface || class.is_trait,
        }
    }
}

/// Decides where an access to a property that the class does not declare
/// ends up, from what each fallback lookup found (each read only when the
/// ones before it found nothing).
pub fn undeclared_property_outcome(class: PropertyClass, in_required: bool, in_mixin: bool, in_intersection: bool, has_magic_method: bool, has_property_assertion: bool) -> (r: UndeclaredPropertyOutcome)
    ensures
        r == spec_undeclared_property(class, in_required, in_mixin, in_intersection, has_magic_method, has_property_assertion),
{
    if in_required {
        UndeclaredPropertyOutcome::FromRequired
    } else if in_mixin {
        if has_magic_method {
            UndeclaredPropertyOutcome::FromMixin
        } else if class.is_final {
            UndeclaredPropertyOutcome::NonExistentMixinProperty
        } else {
            UndeclaredPropertyOutcome::PossiblyNonExistentMixinProperty
        }
    } else if in_intersection {
        UndeclaredPropertyOutcome::FromIntersection
    } else if has_magic_method {
        UndeclaredPropertyOutcome::NonDocumentedProperty
    } else if has_property_assertion {
        UndeclaredPropertyOutcome::Asserted
    } else {
        UndeclaredPropertyOutcome::NonExistentProperty {
            possibly_defined: !class.is_final || class.is_interface || class.is_trait,
        }
    }
}

/// What a declared property holds, for an access to it.
#[derive(Clone, Copy, PartialEq, Eq, Structural, Debug)]
pub struct DeclaredProperty {
    /// Its type is declared in the signature.
    pub has_type_declaration: bool,
    pub has_default: bool,
    pub is_promoted: bool,
    pub is_virtual: bool,
    /// It has a `set` hook whose parameter is typed.
    pub has_typed_set_hook: bool,
}

/// What an access to a declared property gives.
#[derive(Clone, Copy, PartialEq, Eq, Structural, Debug)]
pub struct DeclaredPropertyAccess {
    /// The type is the `set` hook's parameter type rather than the property's.
    pub uses_set_hook_type: bool,
    /// The value may be undefined (an uninitialized typed property).
    pub possibly_undefined: bool,
    /// The property is not visible here: the access is an error.
    pub refused: bool,
}

/// A write goes through a typed `set` hook unless it writes the backing
/// store from inside the hook; a read of a typed property without default,
/// not promoted, and not virtual (unless declared on an interface) may find
/// it uninitialized; a property not visible here refuses the access.
pub open spec fn spec_declared_property_access(p: DeclaredProperty, declared_on_interface: bool, for_assignment: bool, is_backing_store_access: bool, is_visible: bool) -> DeclaredPropertyAccess {
    DeclaredPropertyAccess {
        uses_set_hook_type: for_assignment && p.has_typed_set_hook && !is_backing_store_access,
        possibly_undefined: !for_assignment && p.has_type_declaration && !p.has_default && !p.is_promoted
            && (!p.is_virtual || declared_on_interface),
        refused: !is_visible,
    }
}

/// Decides what an access to a declared property gives.
pub fn declared_property_access(p: DeclaredProperty, declared_on_interface: bool, for_assignment: bool, is_backing_store_access: bool, is_visible: bool) -> (r: DeclaredPropertyAccess)
    ensures
        r == spec_declared_property_access(p, declared_on_interface, for_assignment, is_backing_store_access, is_visible),
{
    DeclaredPropertyAccess {
        uses_set_hook_type: for_assignment && p.has_typed_set_hook && !is_backing_store_access,
        possibly_undefined: !for_assignment && p.has_type_declaration && !p.has_default && !p.is_promoted
            && (!p.is_virtual || declared_on_interface),
        refused: !is_visible,
    }
}

/// A method call on an object of no known class: it is ambiguous when the
/// object is the one called on (not one of its intersected types), and
/// reported unless the class has `__call` or the type asserts the method.
/// Gives (ambiguous, reported).
pub open spec fn spec_unnamed_object_call(is_outer_object: bool, has_magic_call: bool, has_method_assertion: bool) -> (bool, bool) {
    (is_outer_object, is_outer_object && !has_magic_call && !has_method_assertion)
}

pub fn unnamed_object_call(is_outer_object: bool, has_magic_call: bool, has_method_assertion: bool) -> (r: (bool, bool))
    ensures
        r == spec_unnamed_object_call(is_outer_object, has_magic_call, has_method_assertion),
{
    (is_outer_object, is_outer_object && !has_magic_call && !has_method_assertion)
}

/// A method that the class itself has (declared, inherited or a lexically
/// visible private one).
#[derive(Clone, Copy, PartialEq, Eq, Structural, Debug)]
pub struct OwnMethod {
    pub is_visible: bool,
    /// The method's `@where` constraints hold for the object.
    pub where_constraints_hold: bool,
    /// It is a magic method documented as static, called on an instance.
    pub is_static_magic: bool,
}

/// A method that a mixin class has: whether it is visible here, and whether it is public.
#[derive(Clone, Copy, PartialEq, Eq, Structural, Debug)]
pub struct MixinMethod {
    pub is_visible: bool,
    pub is_public: bool,
}

/// Where a method candidate comes from.
#[derive(Clone, Copy, PartialEq, Eq, Structural, Debug)]
pub enum CandidateSource {
    /// The class itself.
    Own,
    /// The required class (`@require-extends`, `@require-implements`) at this index.
    Required { index: usize },
    /// The mixin at this index; `without_magic_method` when the class has no `__call` to forward to it.
    Mixin { index: usize, without_magic_method: bool },
}

/// The candidates found on one class.
#[derive(Debug)]
pub struct ClassCandidates {
    pub candidates: Vec<CandidateSource>,
    /// The class is unknown: reported, and the target is invalid.
    pub class_missing: bool,
    pub invalid: bool,
}

/// The index of the first required class that has the method.
pub open spec fn first_required_with_method(required: Seq<Option<bool>>) -> Option<nat>
    decreases required.len(),
{
    if required.len() == 0 {
        None
    } else {
        match first_required_with_method(required.drop_last()) {
            Some(i) => Some(i),
            None => if required.last() == Some(true) { Some((required.len() - 1) as nat) } else { None },
        }
    }
}

/// The mixins give a candidate for each method that is visible and public;
/// one that is not visible makes the target invalid.
pub open spec fn mixin_candidates(mixins: Seq<Option<MixinMethod>>, has_magic_call: bool) -> (Seq<CandidateSource>, bool)
    decreases mixins.len(),
{
    if mixins.len() == 0 {
        (Seq::empty(), false)
    } else {
        let (before, invalid) = mixin_candidates(mixins.drop_last(), has_magic_call);
        match mixins.last() {
            Some(m) => if !m.is_visible {
                (before, true)
            } else if !m.is_public {
                (before, invalid)
            } else {
                (before.push(CandidateSource::Mixin { index: (mixins.len() - 1) as usize, without_magic_method: !has_magic_call }), invalid)
            },
            None => (before, invalid),
        }
    }
}

/// An unknown class gives nothing and is invalid; a method of the class
/// itself is the candidate (invalid when not visible, when its `@where`
/// constraints fail, or when it is a static magic method); else, when the
/// class requires classes, the first of them that has the method; else the
/// mixins that have it.
pub open spec fn spec_class_candidates(class_exists: bool, own: Option<OwnMethod>, required: Seq<Option<bool>>, mixins: Seq<Option<MixinMethod>>, has_magic_call: bool) -> (Seq<CandidateSource>, bool, bool) {
    if !class_exists {
        (Seq::empty(), true, true)
    } else {
        match own {
            Some(m) => (seq![CandidateSource::Own], false, !m.is_visible || !m.where_constraints_hold || m.is_static_magic),
            None => if required.len() > 0 {
                match first_required_with_method(required) {
                    Some(i) => (seq![CandidateSource::Required { index: i as usize }], false, false),
                    None => (Seq::empty(), false, false),
                }
            } else {
                let (c, invalid) = mixin_candidates(mixins, has_magic_call);
                (c, false, invalid)
            },
        }
    }
}

/// Finds the method candidates on one named class, from the lookups made
/// in it (`required`: for each required class, `None` when it is unknown,
/// else whether it has the method; `mixins`: for each mixin, its method if
/// it has one).
pub fn class_candidates(class_exists: bool, own: Option<OwnMethod>, required: &Vec<Option<bool>>, mixins: &Vec<Option<MixinMethod>>, has_magic_call: bool) -> (r: ClassCandidates)
    ensures
        (r.candidates@, r.class_missing, r.invalid) == spec_class_candidates(class_exists, own, required@, mixins@, has_magic_call),
{
    let mut candidates: Vec<CandidateSource> = Vec::new();
    if !class_exists {
        assert(candidates@ =~= Seq::<CandidateSource>::empty());
        return ClassCandidates { candidates, class_missing: true, invalid: true };
    }
    match own {
        Some(m) => {
            candidates.push(CandidateSource::Own);
            assert(candidates@ =~= seq![CandidateSource::Own]);
            return ClassCandidates { candidates, class_missing: false, invalid: !m.is_visible || !m.where_constraints_hold || m.is_static_magic };
        },
        None => {},
    }
    if required.len() > 0 {
        let mut i: usize = 0;
        assert(required@.take(0) =~= Seq::<Option<bool>>::empty());
        assert(candidates@ =~= Seq::<CandidateSource>::empty());
        while i < required.len()
            invariant
                i <= required.len(),
                class_exists,
                own is None,
                candidates@ == Seq::<CandidateSource>::empty(),
                first_required_with_method(required@.take(i as int)) is None,
            decreases required.len() - i,
        {
            proof {
                assert(required@.take((i + 1) as int).drop_last() =~= required@.take(i as int));
            }
            match required[i] {
                Some(true) => {
                    proof {
                        assert(required@.take((i + 1) as int).last() == required@[i as int]);
                        assert(first_required_with_method(required@.take((i + 1) as int)) == Some(i as nat));
                        lemma_first_required_prefix(required@, (i + 1) as int);
                    }
                    candidates.push(CandidateSource::Required { index: i });
                    assert(candidates@ =~= seq![CandidateSource::Required { index: i }]);
                    return ClassCandidates { candidates, class_missing: false, invalid: false };
                },
                _ => {},
            }
            i = i + 1;
        }
        proof {
            assert(required@.take(required.len() as int) =~= required@);
        }
        assert(candidates@ =~= Seq::<CandidateSource>::empty());
        return ClassCandidates { candidates, class_missing: false, invalid: false };
    }
    let mut invalid = false;
    let mut k: usize = 0;
    assert(candidates@ =~= mixin_candidates(mixins@.take(0), has_magic_call).0);
    while k < mixins.len()
        invariant
            k <= mixins.len(),
            (candidates@, invalid) == mixin_candidates(mixins@.take(k as int), has_magic_call),
        decreases mixins.len() - k,
    {
        proof {
            assert(mixins@.take((k + 1) as int).drop_last() =~= mixins@.take(k as int));
        }
        match mixins[k] {
            Some(m) => {
                if !m.is_visible {
                    invalid = true;
                } else if m.is_public {
                    candidates.push(CandidateSource::Mixin { index: k, without_magic_method: !has_magic_call });
                }
            },
            None => {},
        }
        k = k + 1;
    }
    proof {
        assert(mixins@.take(mixins.len() as int) =~= mixins@);
    }
    ClassCandidates { candidates, class_missing: false, invalid }
}

/// Where the first entry with the method lies in a prefix, it lies there
/// in the whole sequence too.
proof fn lemma_first_required_prefix(required: Seq<Option<bool>>, n: int)
    requires
        0 <= n <= required.len(),
    ensures
        first_required_with_method(required.take(n)) is Some ==> first_required_with_method(required) == first_required_with_method(required.take(n)),
    decreases required.len() - n,
{
    if n < required.len() {
        assert(required.take(n + 1).drop_last() =~= required.take(n));
        if first_required_with_method(required.take(n)) is Some {
            assert(first_required_with_method(required.take(n + 1)) == first_required_with_method(required.take(n)));
        }
        lemma_first_required_prefix(required, n + 1);
    } else {
        assert(required.take(n) =~= required);
    }
}

/// A read may find a declared property uninitialized only when it is typed
/// (an untyped property starts as `null`), has no default, and is not
/// promoted (a promoted property is set by the constructor); a write never
/// does. A typed, non-virtual property with neither default nor promotion
/// may be read uninitialized.
pub proof fn lemma_uninitialized_reads(p: DeclaredProperty, declared_on_interface: bool, for_assignment: bool, is_backing_store_access: bool, is_visible: bool)
    ensures
        spec_declared_property_access(p, declared_on_interface, for_assignment, is_backing_store_access, is_visible).possibly_undefined
            ==> !for_assignment && p.has_type_declaration && !p.has_default && !p.is_promoted,
        p.is_promoted ==> !spec_declared_property_access(p, declared_on_interface, for_assignment, is_backing_store_access, is_visible).possibly_undefined,
        !for_assignment && p.has_type_declaration && !p.has_default && !p.is_promoted && !p.is_virtual
            ==> spec_declared_property_access(p, declared_on_interface, for_assignment, is_backing_store_access, is_visible).possibly_undefined,
{
}

} // verus!
