//! Resolution of class constants `A::B`, enum cases and `A::class`.
use vstd::prelude::*;
use crate::expr_id::bytes_of;
use crate::guards::bytes_eq;

verus! {

/// How a class name was resolved from an expression.
#[derive(Clone, Copy, PartialEq, Eq, Structural, Debug)]
pub enum ResolutionOrigin {
    /// A written name, `self` or `parent`.
    Named { is_self: bool, is_parent: bool },
    /// `static`.
    Static,
    /// An object; `$this` or another.
    Object { is_this: bool },
    /// A string of unknown content.
    AnyString,
    /// Something that cannot name a class.
    Invalid,
    /// Any other origin (class-strings, generic parameters, ...).
    Other,
}

/// What constant resolution reads of a resolved class name.
#[derive(Debug)]
pub struct ResolvedClassname {
    pub fqcn: Option<Vec<u8>>,
    pub origin: ResolutionOrigin,
    pub is_final: bool,
    pub is_possibly_invalid: bool,
    pub is_static: bool,
    pub is_from_literal_class_string: bool,
    pub is_named: bool,
    /// Without a class name: the first generic parameter in the class
    /// expression's type, as (parameter name, defining entity).
    pub generic_parameter: Option<(Vec<u8>, Vec<u8>)>,
}

/// What constant resolution reads of a resolved constant selector.
#[derive(Debug)]
pub struct ResolvedSelector {
    /// The constant's name, when the selector names one.
    pub name: Option<Vec<u8>>,
    /// The selector is a plain identifier.
    pub is_identifier: bool,
    /// The selector's name is only known at run time.
    pub is_dynamic: bool,
}

#[derive(Clone, Copy, PartialEq, Eq, Structural, Debug)]
pub enum ClassLikeKind {
    Class,
    Interface,
    Trait,
    Enum,
}

/// A type annotation: the type's identifier and whether it comes from the docblock.
#[derive(Debug)]
pub struct TypeMetadata {
    pub type_id: Vec<u8>,
    pub from_docblock: bool,
}

/// A class constant: its name, its declared or docblock type, its inferred type.
#[derive(Debug)]
pub struct ConstantInfo {
    pub name: Vec<u8>,
    pub type_metadata: Option<TypeMetadata>,
    pub inferred_type: Option<Vec<u8>>,
}

/// What constant resolution reads of a class-like's metadata.
#[derive(Debug)]
pub struct ClassLikeInfo {
    pub name: Vec<u8>,
    pub original_name: Vec<u8>,
    pub kind: ClassLikeKind,
    pub constants: Vec<ConstantInfo>,
    pub enum_cases: Vec<Vec<u8>>,
    pub require_extends: Vec<Vec<u8>>,
    pub require_implements: Vec<Vec<u8>>,
}

/// The class-likes of the analyzed code, by name.
#[derive(Debug)]
pub struct Codebase {
    pub class_likes: Vec<ClassLikeInfo>,
}

/// The type of a resolved constant.
#[derive(Debug)]
pub enum ConstantType {
    /// A constant's type (`None` for `mixed`), expanded with `expanded_in` as `self` and `static`.
    Constant { type_id: Option<Vec<u8>>, expanded_in: Vec<u8> },
    /// The enum case itself.
    EnumCase { enum_name: Vec<u8>, case_name: Vec<u8> },
    /// `A::class` for a known class.
    LiteralClassString(Vec<u8>),
    /// `$a::class` for an object of a class that may be extended.
    ClassStringOf(Vec<u8>),
    /// `T::class` for a template type.
    GenericClassString { parameter: Vec<u8>, defining_entity: Vec<u8> },
    /// `::class` on something unknown.
    ClassString,
}

/// A resolved constant: the type of its value, or the enum case itself.
#[derive(Debug)]
pub struct ResolvedConstant {
    pub const_type: ConstantType,
}

/// The diagnostics of constant resolution.
#[derive(Debug)]
pub enum ConstantIssue {
    InvalidClassConstantOnString,
    NonExistentClassLike { class: Vec<u8> },
    DirectTraitConstantAccess { trait_name: Vec<u8>, constant: Vec<u8> },
    NonExistentClassConstant { class: Vec<u8>, constant: Vec<u8>, is_enum: bool },
    AmbiguousClassLikeConstantAccess,
}

/// A reference that constant resolution records: to a class, or to a class member.
#[derive(Debug)]
pub enum SymbolReference {
    Symbol(Vec<u8>),
    Member(Vec<u8>, Vec<u8>),
}

pub enum ConstantTypeView {
    Constant { type_id: Option<Seq<u8>>, expanded_in: Seq<u8> },
    EnumCase { enum_name: Seq<u8>, case_name: Seq<u8> },
    LiteralClassString(Seq<u8>),
    ClassStringOf(Seq<u8>),
    GenericClassString { parameter: Seq<u8>, defining_entity: Seq<u8> },
    ClassString,
}

pub enum ConstantIssueView {
    InvalidClassConstantOnString,
    NonExistentClassLike { class: Seq<u8> },
    DirectTraitConstantAccess { trait_name: Seq<u8>, constant: Seq<u8> },
    NonExistentClassConstant { class: Seq<u8>, constant: Seq<u8>, is_enum: bool },
    AmbiguousClassLikeConstantAccess,
}

pub enum ReferenceView {
    Symbol(Seq<u8>),
    Member(Seq<u8>, Seq<u8>),
}

pub open spec fn opt_bytes(o: Option<Vec<u8>>) -> Option<Seq<u8>> {
    match o {
        Some(v) => Some(v@),
        None => None,
    }
}

pub open spec fn type_view(t: ConstantType) -> ConstantTypeView {
    match t {
        ConstantType::Constant { type_id, expanded_in } => ConstantTypeView::Constant { type_id: opt_bytes(type_id), expanded_in: expanded_in@ },
        ConstantType::EnumCase { enum_name, case_name } => ConstantTypeView::EnumCase { enum_name: enum_name@, case_name: case_name@ },
        ConstantType::LiteralClassString(c) => ConstantTypeView::LiteralClassString(c@),
        ConstantType::ClassStringOf(c) => ConstantTypeView::ClassStringOf(c@),
        ConstantType::GenericClassString { parameter, defining_entity } => ConstantTypeView::GenericClassString { parameter: parameter@, defining_entity: defining_entity@ },
        ConstantType::ClassString => ConstantTypeView::ClassString,
    }
}

pub open spec fn issue_view(i: ConstantIssue) -> ConstantIssueView {
    match i {
        ConstantIssue::InvalidClassConstantOnString => ConstantIssueView::InvalidClassConstantOnString,
        ConstantIssue::NonExistentClassLike { class } => ConstantIssueView::NonExistentClassLike { class: class@ },
        ConstantIssue::DirectTraitConstantAccess { trait_name, constant } => ConstantIssueView::DirectTraitConstantAccess { trait_name: trait_name@, constant: constant@ },
        ConstantIssue::NonExistentClassConstant { class, constant, is_enum } => ConstantIssueView::NonExistentClassConstant { class: class@, constant: constant@, is_enum },
        ConstantIssue::AmbiguousClassLikeConstantAccess => ConstantIssueView::AmbiguousClassLikeConstantAccess,
    }
}

pub open spec fn reference_view(r: SymbolReference) -> ReferenceView {
    match r {
        SymbolReference::Symbol(s) => ReferenceView::Symbol(s@),
        SymbolReference::Member(c, m) => ReferenceView::Member(c@, m@),
    }
}

pub open spec fn issues_view(s: Seq<ConstantIssue>) -> Seq<ConstantIssueView> {
    s.map_values(|i: ConstantIssue| issue_view(i))
}

pub open spec fn references_view(s: Seq<SymbolReference>) -> Seq<ReferenceView> {
    s.map_values(|r: SymbolReference| reference_view(r))
}

/// A trait's constants may be reached through `self`, `parent`, `static`
/// or `$this` only, never through the trait's own name.
pub open spec fn spec_is_valid_trait_constant_access(origin: ResolutionOrigin) -> bool {
    match origin {
        ResolutionOrigin::Named { is_self, is_parent } => is_self || is_parent,
        ResolutionOrigin::Static => true,
        ResolutionOrigin::Object { is_this } => is_this,
        _ => false,
    }
}

/// Checks whether a trait constant access is valid for how the trait is referenced.
pub fn is_valid_trait_constant_access(origin: &ResolutionOrigin) -> (r: bool)
    ensures
        r == spec_is_valid_trait_constant_access(*origin),
{
    match origin {
        ResolutionOrigin::Named { is_self, is_parent } => *is_self || *is_parent,
        ResolutionOrigin::Static => true,
        ResolutionOrigin::Object { is_this } => *is_this,
        _ => false,
    }
}

/// The position of the first class-like from `k` on with the given name.
pub open spec fn class_index_from(classes: Seq<ClassLikeInfo>, name: Seq<u8>, k: int) -> Option<int>
    decreases classes.len() - k,
{
    if k < 0 || k >= classes.len() {
        None
    } else if classes[k].name@ == name {
        Some(k)
    } else {
        class_index_from(classes, name, k + 1)
    }
}

pub open spec fn class_index(classes: Seq<ClassLikeInfo>, name: Seq<u8>) -> Option<int> {
    class_index_from(classes, name, 0)
}

/// The position of the first constant from `k` on with the given name.
pub open spec fn constant_index_from(constants: Seq<ConstantInfo>, name: Seq<u8>, k: int) -> Option<int>
    decreases constants.len() - k,
{
    if k < 0 || k >= constants.len() {
        None
    } else if constants[k].name@ == name {
        Some(k)
    } else {
        constant_index_from(constants, name, k + 1)
    }
}

pub open spec fn constant_index(constants: Seq<ConstantInfo>, name: Seq<u8>) -> Option<int> {
    constant_index_from(constants, name, 0)
}

pub open spec fn has_case(cases: Seq<Vec<u8>>, name: Seq<u8>) -> bool {
    exists|i: int| 0 <= i < cases.len() && cases[i]@ == name
}

/// The type a constant is given: its docblock type when it has one, else
/// its inferred type, else its declared type, else `mixed` (`None`).
pub open spec fn constant_type_id(c: ConstantInfo) -> Option<Seq<u8>> {
    match c.type_metadata {
        Some(t) if t.from_docblock => Some(t.type_id@),
        _ => match c.inferred_type {
            Some(i) => Some(i@),
            None => match c.type_metadata {
                Some(t) => Some(t.type_id@),
                None => None,
            },
        },
    }
}

/// The constant or enum case a class-like itself holds.
pub open spec fn own_member(class: ClassLikeInfo, name: Seq<u8>) -> Option<ConstantTypeView> {
    match constant_index(class.constants@, name) {
        Some(i) => Some(ConstantTypeView::Constant { type_id: constant_type_id(class.constants@[i]), expanded_in: class.name@ }),
        None => if class.kind == ClassLikeKind::Enum && has_case(class.enum_cases@, name) {
            Some(ConstantTypeView::EnumCase { enum_name: class.original_name@, case_name: name })
        } else {
            None
        },
    }
}

/// The member found in the first of the required class-likes that exists and holds it.
pub open spec fn required_member(codebase: Seq<ClassLikeInfo>, required: Seq<Vec<u8>>, name: Seq<u8>, k: int) -> Option<ConstantTypeView>
    decreases required.len() - k,
{
    if k < 0 || k >= required.len() {
        None
    } else {
        match class_index(codebase, required[k]@) {
            Some(c) => match own_member(codebase[c], name) {
                Some(m) => Some(m),
                None => required_member(codebase, required, name, k + 1),
            },
            None => required_member(codebase, required, name, k + 1),
        }
    }
}

/// Finding a constant or enum case in a class-like: in the class-like
/// itself, else in its required parents and interfaces. A trait reached by
/// its own name is reported first; a missing constant is reported last.
pub open spec fn spec_find_constant(codebase: Seq<ClassLikeInfo>, class: ClassLikeInfo, name: Seq<u8>, origin: ResolutionOrigin) -> (Option<ConstantTypeView>, Seq<ConstantIssueView>) {
    let trait_issue: Seq<ConstantIssueView> = if class.kind == ClassLikeKind::Trait && !spec_is_valid_trait_constant_access(origin) {
        seq![ConstantIssueView::DirectTraitConstantAccess { trait_name: class.original_name@, constant: name }]
    } else {
        Seq::empty()
    };
    match own_member(class, name) {
        Some(m) => (Some(m), trait_issue),
        None => match required_member(codebase, class.require_extends@ + class.require_implements@, name, 0) {
            Some(m) => (Some(m), trait_issue),
            None => (None, trait_issue.push(ConstantIssueView::NonExistentClassConstant {
                class: class.original_name@,
                constant: name,
                is_enum: class.kind == ClassLikeKind::Enum,
            })),
        },
    }
}


proof fn lemma_class_index_found(classes: Seq<ClassLikeInfo>, name: Seq<u8>, k: int)
    requires
        0 <= k,
        class_index_from(classes, name, k) is Some,
    ensures
        0 <= class_index_from(classes, name, k).unwrap() < classes.len(),
        classes[class_index_from(classes, name, k).unwrap()].name@ == name,
    decreases classes.len() - k,
{
    if classes[k].name@ != name {
        lemma_class_index_found(classes, name, k + 1);
    }
}

proof fn lemma_constant_index_found(constants: Seq<ConstantInfo>, name: Seq<u8>, k: int)
    requires
        0 <= k,
        constant_index_from(constants, name, k) is Some,
    ensures
        0 <= constant_index_from(constants, name, k).unwrap() < constants.len(),
    decreases constants.len() - k,
{
    if constants[k].name@ != name {
        lemma_constant_index_found(constants, name, k + 1);
    }
}

/// The class-like of the given name, if the codebase has it.
pub fn get_class_like<'a>(codebase: &'a Codebase, name: &[u8]) -> (r: Option<&'a ClassLikeInfo>)
    ensures
        match class_index(codebase.class_likes@, name@) {
            Some(i) => r == Some(&codebase.class_likes@[i]),
            None => r is None,
        },
{
    let mut k: usize = 0;
    while k < codebase.class_likes.len()
        invariant
            k <= codebase.class_likes@.len(),
            class_index(codebase.class_likes@, name@) == class_index_from(codebase.class_likes@, name@, k as int),
        decreases codebase.class_likes.len() - k,
    {
        if bytes_eq(codebase.class_likes[k].name.as_slice(), name) {
            return Some(&codebase.class_likes[k]);
        }
        k += 1;
    }
    None
}

fn find_constant<'a>(constants: &'a Vec<ConstantInfo>, name: &[u8]) -> (r: Option<&'a ConstantInfo>)
    ensures
        match constant_index(constants@, name@) {
            Some(i) => r == Some(&constants@[i]),
            None => r is None,
        },
{
    let mut k: usize = 0;
    while k < constants.len()
        invariant
            k <= constants@.len(),
            constant_index(constants@, name@) == constant_index_from(constants@, name@, k as int),
        decreases constants.len() - k,
    {
        if bytes_eq(constants[k].name.as_slice(), name) {
            return Some(&constants[k]);
        }
        k += 1;
    }
    None
}

fn has_enum_case(cases: &Vec<Vec<u8>>, name: &[u8]) -> (r: bool)
    ensures
        r == has_case(cases@, name@),
{
    let mut k: usize = 0;
    while k < cases.len()
        invariant
            k <= cases@.len(),
            forall|i: int| 0 <= i < k ==> cases@[i]@ != name@,
        decreases cases.len() - k,
    {
        if bytes_eq(cases[k].as_slice(), name) {
            return true;
        }
        k += 1;
    }
    false
}

fn copy_opt(o: &Option<Vec<u8>>) -> (r: Option<Vec<u8>>)
    ensures
        opt_bytes(r) == opt_bytes(*o),
{
    match o {
        Some(v) => Some(bytes_of(v.as_slice())),
        None => None,
    }
}

fn choose_constant_type(constant: &ConstantInfo) -> (r: Option<Vec<u8>>)
    ensures
        opt_bytes(r) == constant_type_id(*constant),
{
    if let Some(t) = &constant.type_metadata {
        if t.from_docblock {
            return Some(bytes_of(t.type_id.as_slice()));
        }
    }
    match &constant.inferred_type {
        Some(i) => Some(bytes_of(i.as_slice())),
        None => match &constant.type_metadata {
            Some(t) => Some(bytes_of(t.type_id.as_slice())),
            None => None,
        },
    }
}

fn find_own_member(class: &ClassLikeInfo, name: &[u8]) -> (r: Option<ConstantType>)
    ensures
        match r {
            Some(t) => own_member(*class, name@) == Some(type_view(t)),
            None => own_member(*class, name@) is None,
        },
{
    if let Some(constant) = find_constant(&class.constants, name) {
        return Some(ConstantType::Constant {
            type_id: choose_constant_type(constant),
            expanded_in: bytes_of(class.name.as_slice()),
        });
    }
    if class.kind == ClassLikeKind::Enum && has_enum_case(&class.enum_cases, name) {
        return Some(ConstantType::EnumCase { enum_name: bytes_of(class.original_name.as_slice()), case_name: bytes_of(name) });
    }
    None
}

fn find_required_member(codebase: &Codebase, required: &Vec<Vec<u8>>, name: &[u8]) -> (r: Option<ConstantType>)
    ensures
        match r {
            Some(t) => required_member(codebase.class_likes@, required@, name@, 0) == Some(type_view(t)),
            None => required_member(codebase.class_likes@, required@, name@, 0) is None,
        },
{
    let mut k: usize = 0;
    while k < required.len()
        invariant
            k <= required@.len(),
            required_member(codebase.class_likes@, required@, name@, 0) == required_member(codebase.class_likes@, required@, name@, k as int),
        decreases required.len() - k,
    {
        if let Some(required_class) = get_class_like(codebase, required[k].as_slice()) {
            if let Some(member) = find_own_member(required_class, name) {
                return Some(member);
            }
        }
        k += 1;
    }
    None
}

/// Finds a constant or enum case in a class-like, reporting a direct trait
/// access and a missing constant.
pub fn find_constant_in_class(
    codebase: &Codebase,
    class: &ClassLikeInfo,
    const_name: &[u8],
    resolution_origin: &ResolutionOrigin,
    issues: &mut Vec<ConstantIssue>,
) -> (r: Option<ResolvedConstant>)
    ensures
        (match r {
            Some(c) => Some(type_view(c.const_type)),
            None => None,
        }, issues_view(final(issues)@)) == (
            spec_find_constant(codebase.class_likes@, *class, const_name@, *resolution_origin).0,
            issues_view(old(issues)@) + spec_find_constant(codebase.class_likes@, *class, const_name@, *resolution_origin).1,
        ),
{
    let ghost start = old(issues)@;
    if class.kind == ClassLikeKind::Trait && !is_valid_trait_constant_access(resolution_origin) {
        issues.push(ConstantIssue::DirectTraitConstantAccess {
            trait_name: bytes_of(class.original_name.as_slice()),
            constant: bytes_of(const_name),
        });
    }
    let ghost after_trait = issues@;
    assert(issues_view(after_trait) =~= issues_view(start) + (if class.kind == ClassLikeKind::Trait && !spec_is_valid_trait_constant_access(*resolution_origin) {
        seq![ConstantIssueView::DirectTraitConstantAccess { trait_name: class.original_name@, constant: const_name@ }]
    } else {
        Seq::<ConstantIssueView>::empty()
    }));
    if let Some(member) = find_own_member(class, const_name) {
        return Some(ResolvedConstant { const_type: member });
    }
    let mut required: Vec<Vec<u8>> = Vec::new();
    let mut k: usize = 0;
    while k < class.require_extends.len()
        invariant
            k <= class.require_extends@.len(),
            required@.len() == k,
            forall|i: int| 0 <= i < k ==> #[trigger] required@[i]@ == class.require_extends@[i]@,
        decreases class.require_extends.len() - k,
    {
        required.push(bytes_of(class.require_extends[k].as_slice()));
        k += 1;
    }
    let mut k: usize = 0;
    while k < class.require_implements.len()
        invariant
            k <= class.require_implements@.len(),
            required@.len() == class.require_extends@.len() + k,
            forall|i: int| 0 <= i < class.require_extends@.len() ==> #[trigger] required@[i]@ == class.require_extends@[i]@,
            forall|i: int| 0 <= i < k ==> #[trigger] required@[class.require_extends@.len() + i]@ == class.require_implements@[i]@,
        decreases class.require_implements.len() - k,
    {
        required.push(bytes_of(class.require_implements[k].as_slice()));
        k += 1;
    }
    proof {
        let joined = class.require_extends@ + class.require_implements@;
        assert forall|i: int| 0 <= i < required@.len() implies #[trigger] required@[i]@ == joined[i]@ by {
            if i >= class.require_extends@.len() {
                let j = i - class.require_extends@.len();
                assert(required@[class.require_extends@.len() + j]@ == class.require_implements@[j]@);
            }
        }
        lemma_required_member_views(codebase.class_likes@, required@, class.require_extends@ + class.require_implements@, const_name@, 0);
    }
    if let Some(member) = find_required_member(codebase, &required, const_name) {
        return Some(ResolvedConstant { const_type: member });
    }
    issues.push(ConstantIssue::NonExistentClassConstant {
        class: bytes_of(class.original_name.as_slice()),
        constant: bytes_of(const_name),
        is_enum: class.kind == ClassLikeKind::Enum,
    });
    assert(issues_view(issues@) =~= issues_view(after_trait).push(issue_view(issues@.last())));
    None
}

/// Lists of names with the same views find the same member.
proof fn lemma_required_member_views(codebase: Seq<ClassLikeInfo>, a: Seq<Vec<u8>>, b: Seq<Vec<u8>>, name: Seq<u8>, k: int)
    requires
        a.len() == b.len(),
        forall|i: int| 0 <= i < a.len() ==> #[trigger] a[i]@ == b[i]@,
    ensures
        required_member(codebase, a, name, k) == required_member(codebase, b, name, k),
    decreases a.len() - k,
{
    if 0 <= k < a.len() {
        lemma_required_member_views(codebase, a, b, name, k + 1);
    }
}


/// `class`
pub open spec fn word_class() -> Seq<u8> {
    seq![99u8, 108, 97, 115, 115]
}

/// The lower-case form of an ASCII byte string.
pub open spec fn lowercase(s: Seq<u8>) -> Seq<u8> {
    s.map_values(|b: u8| if 65 <= b <= 90 { (b + 32) as u8 } else { b })
}

/// What `::class` gives on a resolved class name, with its diagnostics and
/// the references it records. On a string of unknown content it is an
/// error; a known name gives its literal class-string when the class is
/// named, comes from a literal class-string, or is final and not `static`,
/// and otherwise the class-string of its objects; without a name, a
/// template parameter gives its class-string, anything else `class-string`.
pub open spec fn spec_class_magic(codebase: Seq<ClassLikeInfo>, class: ResolvedClassname) -> (Option<ConstantTypeView>, Seq<ConstantIssueView>, Seq<ReferenceView>) {
    if class.origin == ResolutionOrigin::AnyString {
        (None, seq![ConstantIssueView::InvalidClassConstantOnString], Seq::empty())
    } else {
        match class.fqcn {
            Some(c) => {
                let missing: Seq<ConstantIssueView> = if class.origin == (ResolutionOrigin::Named { is_self: false, is_parent: false })
                    && class_index(codebase, c@) is None {
                    seq![ConstantIssueView::NonExistentClassLike { class: c@ }]
                } else {
                    Seq::empty()
                };
                let t = if (class.is_final && !class.is_static) || class.is_from_literal_class_string || class.is_named {
                    ConstantTypeView::LiteralClassString(c@)
                } else {
                    ConstantTypeView::ClassStringOf(c@)
                };
                (Some(t), missing, seq![ReferenceView::Symbol(c@)])
            },
            None => match class.generic_parameter {
                Some((p, e)) => (Some(ConstantTypeView::GenericClassString { parameter: p@, defining_entity: e@ }), Seq::empty(), Seq::empty()),
                None => (Some(ConstantTypeView::ClassString), Seq::empty(), Seq::empty()),
            },
        }
    }
}

/// Resolves `::class` on a resolved class name.
pub fn handle_class_magic_constant(
    codebase: &Codebase,
    class_resolution: &ResolvedClassname,
    issues: &mut Vec<ConstantIssue>,
    references: &mut Vec<SymbolReference>,
) -> (r: Option<ConstantType>)
    ensures
        match r {
            Some(t) => Some(type_view(t)),
            None => None,
        } == spec_class_magic(codebase.class_likes@, *class_resolution).0,
        issues_view(final(issues)@) == issues_view(old(issues)@) + spec_class_magic(codebase.class_likes@, *class_resolution).1,
        references_view(final(references)@) == references_view(old(references)@) + spec_class_magic(codebase.class_likes@, *class_resolution).2,
{
    let ghost issues0 = issues@;
    let ghost refs0 = references@;
    if class_resolution.origin == ResolutionOrigin::AnyString {
        issues.push(ConstantIssue::InvalidClassConstantOnString);
        assert(issues_view(issues@) =~= issues_view(issues0) + seq![ConstantIssueView::InvalidClassConstantOnString]);
        assert(references_view(references@) =~= references_view(refs0) + Seq::<ReferenceView>::empty());
        return None;
    }
    match &class_resolution.fqcn {
        Some(fq_class_id) => {
            if class_resolution.origin == (ResolutionOrigin::Named { is_self: false, is_parent: false })
                && get_class_like(codebase, fq_class_id.as_slice()).is_none() {
                issues.push(ConstantIssue::NonExistentClassLike { class: bytes_of(fq_class_id.as_slice()) });
                assert(issues_view(issues@) =~= issues_view(issues0) + seq![ConstantIssueView::NonExistentClassLike { class: fq_class_id@ }]);
            } else {
                assert(issues_view(issues@) =~= issues_view(issues0) + Seq::<ConstantIssueView>::empty());
            }
            references.push(SymbolReference::Symbol(bytes_of(fq_class_id.as_slice())));
            assert(references_view(references@) =~= references_view(refs0) + seq![ReferenceView::Symbol(fq_class_id@)]);
            if (class_resolution.is_final && !class_resolution.is_static) || class_resolution.is_from_literal_class_string
                || class_resolution.is_named {
                Some(ConstantType::LiteralClassString(bytes_of(fq_class_id.as_slice())))
            } else {
                Some(ConstantType::ClassStringOf(bytes_of(fq_class_id.as_slice())))
            }
        },
        None => {
            assert(issues_view(issues@) =~= issues_view(issues0) + Seq::<ConstantIssueView>::empty());
            assert(references_view(references@) =~= references_view(refs0) + Seq::<ReferenceView>::empty());
            match &class_resolution.generic_parameter {
                Some((parameter, entity)) => Some(ConstantType::GenericClassString {
                    parameter: bytes_of(parameter.as_slice()),
                    defining_entity: bytes_of(entity.as_slice()),
                }),
                None => Some(ConstantType::ClassString),
            }
        },
    }
}

/// The results of resolving class constants.
#[derive(Debug)]
pub struct ConstantResolutionResult {
    pub constants: Vec<ResolvedConstant>,
    /// Some part of the resolution was ambiguous or dynamic.
    pub has_ambiguous_path: bool,
    /// Some part of the resolution was certainly invalid.
    pub has_invalid_path: bool,
}

/// The state of a resolution: constants found, the two flags, and the
/// diagnostics and references recorded so far.
pub struct ResolutionState {
    pub constants: Seq<ConstantTypeView>,
    pub ambiguous: bool,
    pub invalid: bool,
    pub issues: Seq<ConstantIssueView>,
    pub references: Seq<ReferenceView>,
}

/// One selector on one resolved class; `true` when the class must be left
/// for the next one.
pub open spec fn spec_selector_step(codebase: Seq<ClassLikeInfo>, class: ResolvedClassname, selector: ResolvedSelector, st: ResolutionState) -> (ResolutionState, bool) {
    if selector.is_identifier && selector.name is Some && lowercase(selector.name.unwrap()@) == word_class() {
        let (t, issues, refs) = spec_class_magic(codebase, class);
        (match t {
            Some(t) => ResolutionState { constants: st.constants.push(t), issues: st.issues + issues, references: st.references + refs, ..st },
            None => ResolutionState { invalid: true, issues: st.issues + issues, references: st.references + refs, ..st },
        }, false)
    } else if class.fqcn is None {
        (ResolutionState { ambiguous: true, issues: st.issues.push(ConstantIssueView::AmbiguousClassLikeConstantAccess), ..st }, true)
    } else if selector.is_dynamic {
        (ResolutionState { ambiguous: true, ..st }, false)
    } else if selector.name is None {
        (ResolutionState { invalid: true, ..st }, false)
    } else {
        let c = class.fqcn.unwrap()@;
        let name = selector.name.unwrap()@;
        match class_index(codebase, c) {
            None => (ResolutionState { invalid: true, issues: st.issues.push(ConstantIssueView::NonExistentClassLike { class: c }), ..st }, false),
            Some(i) => {
                let (found, issues) = spec_find_constant(codebase, codebase[i], name, class.origin);
                let refs = st.references.push(ReferenceView::Member(c, name));
                (match found {
                    Some(t) => ResolutionState { constants: st.constants.push(t), issues: st.issues + issues, references: refs, ..st },
                    None => ResolutionState { invalid: true, issues: st.issues + issues, references: refs, ..st },
                }, false)
            },
        }
    }
}

pub open spec fn spec_selectors(codebase: Seq<ClassLikeInfo>, class: ResolvedClassname, selectors: Seq<ResolvedSelector>, j: int, st: ResolutionState) -> ResolutionState
    decreases selectors.len() - j,
{
    if j < 0 || j >= selectors.len() {
        st
    } else {
        let (st1, leave) = spec_selector_step(codebase, class, selectors[j], st);
        if leave { st1 } else { spec_selectors(codebase, class, selectors, j + 1, st1) }
    }
}

/// Resolving every combination of class and selector, in order: a class
/// that may be invalid only marks the resolution ambiguous (and invalid when
/// it certainly is), else each selector is tried on it.
pub open spec fn spec_resolve_classes(codebase: Seq<ClassLikeInfo>, classes: Seq<ResolvedClassname>, selectors: Seq<ResolvedSelector>, i: int, st: ResolutionState) -> ResolutionState
    decreases classes.len() - i,
{
    if i < 0 || i >= classes.len() {
        st
    } else {
        let class = classes[i];
        let st1 = if class.is_possibly_invalid {
            ResolutionState { ambiguous: true, invalid: st.invalid || class.origin == ResolutionOrigin::Invalid, ..st }
        } else {
            spec_selectors(codebase, class, selectors, 0, st)
        };
        spec_resolve_classes(codebase, classes, selectors, i + 1, st1)
    }
}

fn is_class_keyword(name: &[u8]) -> (r: bool)
    ensures
        r == (lowercase(name@) == word_class()),
{
    if name.len() != 5 {
        proof {
            assert(lowercase(name@).len() == name@.len());
        }
        return false;
    }
    let expected: [u8; 5] = [99u8, 108, 97, 115, 115];
    let mut k: usize = 0;
    while k < 5
        invariant
            name@.len() == 5,
            expected@ == word_class(),
            k <= 5,
            forall|i: int| 0 <= i < k ==> #[trigger] lowercase(name@)[i] == word_class()[i],
        decreases 5 - k,
    {
        let b = name[k];
        let l = if 65u8 <= b && b <= 90u8 { b + 32 } else { b };
        if l != expected[k] {
            return false;
        }
        k += 1;
    }
    assert(lowercase(name@) =~= word_class());
    true
}

pub open spec fn state_of(result: ConstantResolutionResult, issues: Seq<ConstantIssue>, references: Seq<SymbolReference>) -> ResolutionState {
    ResolutionState {
        constants: result.constants@.map_values(|c: ResolvedConstant| type_view(c.const_type)),
        ambiguous: result.has_ambiguous_path,
        invalid: result.has_invalid_path,
        issues: issues_view(issues),
        references: references_view(references),
    }
}

/// Resolves all possible class constants from the resolved class names and
/// constant selectors of an access `class::selector`.
pub fn resolve_class_constants(
    codebase: &Codebase,
    classnames: &Vec<ResolvedClassname>,
    selectors: &Vec<ResolvedSelector>,
    issues: &mut Vec<ConstantIssue>,
    references: &mut Vec<SymbolReference>,
) -> (result: ConstantResolutionResult)
    ensures
        state_of(result, final(issues)@, final(references)@) == spec_resolve_classes(
            codebase.class_likes@,
            classnames@,
            selectors@,
            0,
            ResolutionState {
                constants: Seq::empty(),
                ambiguous: false,
                invalid: false,
                issues: issues_view(old(issues)@),
                references: references_view(old(references)@),
            },
        ),
{
    let mut result = ConstantResolutionResult { constants: Vec::new(), has_ambiguous_path: false, has_invalid_path: false };
    let ghost target = spec_resolve_classes(codebase.class_likes@, classnames@, selectors@, 0, state_of(result, issues@, references@));
    assert(state_of(result, issues@, references@).constants =~= Seq::<ConstantTypeView>::empty());
    let mut i: usize = 0;
    while i < classnames.len()
        invariant
            i <= classnames@.len(),
            spec_resolve_classes(codebase.class_likes@, classnames@, selectors@, i as int, state_of(result, issues@, references@)) == target,
        decreases classnames.len() - i,
    {
        let class_resolution = &classnames[i];
        if class_resolution.is_possibly_invalid {
            result.has_ambiguous_path = true;
            if class_resolution.origin == ResolutionOrigin::Invalid {
                result.has_invalid_path = true;
            }
        } else {
            let ghost class_target = spec_selectors(codebase.class_likes@, *class_resolution, selectors@, 0, state_of(result, issues@, references@));
            let mut j: usize = 0;
            while j < selectors.len()
                invariant_except_break
                    spec_selectors(codebase.class_likes@, *class_resolution, selectors@, j as int, state_of(result, issues@, references@)) == class_target,
                invariant
                    j <= selectors@.len(),
                    i < classnames@.len(),
                    *class_resolution == classnames@[i as int],
                ensures
                    state_of(result, issues@, references@) == class_target,
                decreases selectors.len() - j,
            {
                let selector = &selectors[j];
                let ghost before = state_of(result, issues@, references@);
                let ghost step = spec_selector_step(codebase.class_likes@, *class_resolution, *selector, before);
                let is_magic = match &selector.name {
                    Some(name) => selector.is_identifier && is_class_keyword(name.as_slice()),
                    None => false,
                };
                if is_magic {
                    let ghost cs0 = result.constants@;
                    match handle_class_magic_constant(codebase, class_resolution, issues, references) {
                        Some(t) => {
                            result.constants.push(ResolvedConstant { const_type: t });
                            assert(result.constants@.map_values(|c: ResolvedConstant| type_view(c.const_type)) =~= cs0.map_values(|c: ResolvedConstant| type_view(c.const_type)).push(type_view(result.constants@.last().const_type)));
                        },
                        None => {
                            result.has_invalid_path = true;
                        },
                    }
                    assert(state_of(result, issues@, references@) == step.0);
                    j += 1;
                    continue;
                }
                let fq_class_id = match &class_resolution.fqcn {
                    Some(c) => c,
                    None => {
                        result.has_ambiguous_path = true;
                        let ghost is0 = issues@;
                        issues.push(ConstantIssue::AmbiguousClassLikeConstantAccess);
                        assert(issues_view(issues@) =~= issues_view(is0).push(ConstantIssueView::AmbiguousClassLikeConstantAccess));
                        assert(state_of(result, issues@, references@) == step.0);
                        break;
                    },
                };
                if selector.is_dynamic {
                    result.has_ambiguous_path = true;
                    assert(state_of(result, issues@, references@) == step.0);
                    j += 1;
                    continue;
                }
                let const_name = match &selector.name {
                    Some(n) => n,
                    None => {
                        result.has_invalid_path = true;
                        assert(state_of(result, issues@, references@) == step.0);
                        j += 1;
                        continue;
                    },
                };
                let metadata = match get_class_like(codebase, fq_class_id.as_slice()) {
                    Some(m) => m,
                    None => {
                        result.has_invalid_path = true;
                        let ghost is0 = issues@;
                        issues.push(ConstantIssue::NonExistentClassLike { class: bytes_of(fq_class_id.as_slice()) });
                        assert(issues_view(issues@) =~= issues_view(is0).push(ConstantIssueView::NonExistentClassLike { class: fq_class_id@ }));
                        assert(state_of(result, issues@, references@) == step.0);
                        j += 1;
                        continue;
                    },
                };
                let ghost rs0 = references@;
                references.push(SymbolReference::Member(bytes_of(fq_class_id.as_slice()), bytes_of(const_name.as_slice())));
                assert(references_view(references@) =~= references_view(rs0).push(ReferenceView::Member(fq_class_id@, const_name@)));
                let ghost cs0 = result.constants@;
                match find_constant_in_class(codebase, metadata, const_name.as_slice(), &class_resolution.origin, issues) {
                    Some(t) => {
                        result.constants.push(t);
                        assert(result.constants@.map_values(|c: ResolvedConstant| type_view(c.const_type)) =~= cs0.map_values(|c: ResolvedConstant| type_view(c.const_type)).push(type_view(result.constants@.last().const_type)));
                    },
                    None => {
                        result.has_invalid_path = true;
                    },
                }
                assert(state_of(result, issues@, references@) == step.0);
                j += 1;
            }
        }
        i += 1;
    }
    result
}

/// The class-like named `n` exists in the codebase and itself holds the
/// constant or enum case `name`.
pub open spec fn holds_member(codebase: Seq<ClassLikeInfo>, n: Seq<u8>, name: Seq<u8>) -> bool {
    match class_index(codebase, n) {
        Some(c) => own_member(codebase[c], name) is Some,
        None => false,
    }
}

proof fn lemma_required_member_found(codebase: Seq<ClassLikeInfo>, required: Seq<Vec<u8>>, name: Seq<u8>, k: int)
    requires
        0 <= k <= required.len(),
    ensures
        required_member(codebase, required, name, k) is Some
            <==> exists|i: int| k <= i < required.len() && holds_member(codebase, (#[trigger] required[i])@, name),
        required_member(codebase, required, name, k) matches Some(m) ==> exists|i: int, c: int| #![trigger required[i], codebase[c]]
            k <= i < required.len() && class_index(codebase, required[i]@) == Some(c) && own_member(codebase[c], name) == Some(m),
    decreases required.len() - k,
{
    if k < required.len() {
        lemma_required_member_found(codebase, required, name, k + 1);
        if holds_member(codebase, required[k]@, name) {
            assert(required_member(codebase, required, name, k) is Some);
        }
        match class_index(codebase, required[k]@) {
            Some(c) => {
                if let Some(m) = own_member(codebase[c], name) {
                    assert(class_index(codebase, required[k]@) == Some(c) && own_member(codebase[c], name) == Some(m));
                }
            },
            None => {},
        }
    }
}

/// A constant is found exactly when the class-like holds it, or one of the
/// class-likes it requires (by `@require-extends` or `@require-implements`)
/// exists and holds it; what is found is held by the class-like or by one of
/// those required ones. A missing constant is reported as missing, and a
/// found one never is.
pub proof fn lemma_constant_found_where_held(codebase: Seq<ClassLikeInfo>, class: ClassLikeInfo, name: Seq<u8>, origin: ResolutionOrigin)
    ensures
        spec_find_constant(codebase, class, name, origin).0 is Some <==> (own_member(class, name) is Some
            || exists|r: Vec<u8>| (class.require_extends@.contains(r) || class.require_implements@.contains(r)) && holds_member(codebase, r@, name)),
        spec_find_constant(codebase, class, name, origin).0 matches Some(m) ==> own_member(class, name) == Some(m)
            || exists|r: Vec<u8>, c: int| #![trigger class_index(codebase, r@), codebase[c]] (class.require_extends@.contains(r) || class.require_implements@.contains(r))
                && class_index(codebase, r@) == Some(c) && own_member(codebase[c], name) == Some(m),
        spec_find_constant(codebase, class, name, origin).0 is Some ==> forall|i: int|
            0 <= i < spec_find_constant(codebase, class, name, origin).1.len() ==> !((#[trigger] spec_find_constant(codebase, class, name, origin).1[i]) is NonExistentClassConstant),
        spec_find_constant(codebase, class, name, origin).0 is None ==>
            spec_find_constant(codebase, class, name, origin).1.last() is NonExistentClassConstant,
{
    let required = class.require_extends@ + class.require_implements@;
    lemma_required_member_found(codebase, required, name, 0);
    assert forall|r: Vec<u8>| required.contains(r) <==> (class.require_extends@.contains(r) || class.require_implements@.contains(r)) by {
        if class.require_implements@.contains(r) {
            let j = choose|j: int| 0 <= j < class.require_implements@.len() && class.require_implements@[j] == r;
            assert(required[class.require_extends@.len() + j] == r);
        }
        if class.require_extends@.contains(r) {
            let j = choose|j: int| 0 <= j < class.require_extends@.len() && class.require_extends@[j] == r;
            assert(required[j] == r);
        }
    }
    if exists|r: Vec<u8>| (class.require_extends@.contains(r) || class.require_implements@.contains(r)) && holds_member(codebase, r@, name) {
        let r = choose|r: Vec<u8>| (class.require_extends@.contains(r) || class.require_implements@.contains(r)) && holds_member(codebase, r@, name);
        assert(required.contains(r));
        let i = choose|i: int| 0 <= i < required.len() && required[i] == r;
        assert(holds_member(codebase, required[i]@, name));
    }
    if required_member(codebase, required, name, 0) is Some {
        let i = choose|i: int| 0 <= i < required.len() && holds_member(codebase, (#[trigger] required[i])@, name);
        assert(required.contains(required[i]));
    }
    if let Some(m) = required_member(codebase, required, name, 0) {
        let (i, c) = choose|i: int, c: int| #![trigger required[i], codebase[c]] 0 <= i < required.len() && class_index(codebase, required[i]@) == Some(c) && own_member(codebase[c], name) == Some(m);
        assert(required.contains(required[i]));
        assert(class_index(codebase, required[i]@) == Some(c) && own_member(codebase[c], name) == Some(m));
    }
}

} // verus!
