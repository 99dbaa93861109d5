//! Whether an overriding method's signature is compatible with the method
//! it overrides or implements (the substitution rules).
use vstd::prelude::*;
use crate::expr_id::bytes_of;
use crate::guards::bytes_eq;

verus! {

#[derive(Clone, Copy, PartialEq, Eq, Structural, Debug)]
pub enum Visibility {
    Public,
    Protected,
    Private,
}

/// How widely a visibility exposes a member: public above protected above private.
pub open spec fn visibility_rank(v: Visibility) -> int {
    match v {
        Visibility::Public => 2,
        Visibility::Protected => 1,
        Visibility::Private => 0,
    }
}

/// The method-specific part of a function's metadata.
#[derive(Clone, Copy, PartialEq, Eq, Structural, Debug)]
pub struct MethodInfo {
    pub is_final: bool,
    pub is_static: bool,
    pub visibility: Visibility,
}

/// A parameter: its name, whether it has a default value, whether it is typed.
#[derive(Debug)]
pub struct ParameterInfo {
    pub name: Vec<u8>,
    pub has_default: bool,
    pub has_type: bool,
}

/// What signature validation reads of a function-like's metadata.
#[derive(Debug)]
pub struct MethodSignature {
    pub is_user_defined: bool,
    /// Present for methods.
    pub method: Option<MethodInfo>,
    pub parameters: Vec<ParameterInfo>,
    /// Whether a return type is declared in the signature.
    pub has_return_type_declaration: bool,
    /// Present when the function has a return type; tells whether it comes from the docblock.
    pub return_type_from_docblock: Option<bool>,
}

/// The outcome of comparing a child type with a parent type (both expanded
/// in the child class), with the identifiers of both types.
#[derive(Debug)]
pub struct TypeCheck {
    pub compatible: bool,
    pub child_type: Vec<u8>,
    pub parent_type: Vec<u8>,
}

/// The type comparisons a validation needs: for each parameter of the
/// parent, whether the parent's parameter type is contained by the child's
/// (or by the constraint of the child's template type); whether the child's
/// declared return type is contained by the parent's; and, when neither
/// return type holds template types, whether the child's docblock return
/// type is contained by the parent's.
#[derive(Debug)]
pub struct SignatureTypeChecks {
    pub parameters: Vec<TypeCheck>,
    pub return_declaration: TypeCheck,
    pub docblock_return: Option<TypeCheck>,
}

/// An incompatibility between an overriding and an overridden method.
#[derive(Debug)]
pub enum SignatureCompatibilityIssue {
    FinalMethodOverride,
    StaticModifierMismatch { child_is_static: bool, parent_is_static: bool },
    VisibilityNarrowed { child_visibility: Visibility, parent_visibility: Visibility },
    ParameterCountMismatch { child_required_count: usize, parent_required_count: usize },
    IncompatibleParameterType { parameter_index: usize, child_type: Vec<u8>, parent_type: Vec<u8> },
    IncompatibleReturnType { child_type: Vec<u8>, parent_type: Vec<u8> },
    ParameterNameMismatch { parameter_index: usize, child_name: Vec<u8>, parent_name: Vec<u8> },
}

/// The view of an issue, with byte strings as sequences.
pub enum IssueView {
    FinalMethodOverride,
    StaticModifierMismatch { child_is_static: bool, parent_is_static: bool },
    VisibilityNarrowed { child_visibility: Visibility, parent_visibility: Visibility },
    ParameterCountMismatch { child_required_count: nat, parent_required_count: nat },
    IncompatibleParameterType { parameter_index: nat, child_type: Seq<u8>, parent_type: Seq<u8> },
    IncompatibleReturnType { child_type: Seq<u8>, parent_type: Seq<u8> },
    ParameterNameMismatch { parameter_index: nat, child_name: Seq<u8>, parent_name: Seq<u8> },
}

pub open spec fn issue_view(i: SignatureCompatibilityIssue) -> IssueView {
    match i {
        SignatureCompatibilityIssue::FinalMethodOverride => IssueView::FinalMethodOverride,
        SignatureCompatibilityIssue::StaticModifierMismatch { child_is_static, parent_is_static } => IssueView::StaticModifierMismatch { child_is_static, parent_is_static },
        SignatureCompatibilityIssue::VisibilityNarrowed { child_visibility, parent_visibility } => IssueView::VisibilityNarrowed { child_visibility, parent_visibility },
        SignatureCompatibilityIssue::ParameterCountMismatch { child_required_count, parent_required_count } => IssueView::ParameterCountMismatch {
            child_required_count: child_required_count as nat,
            parent_required_count: parent_required_count as nat,
        },
        SignatureCompatibilityIssue::IncompatibleParameterType { parameter_index, child_type, parent_type } => IssueView::IncompatibleParameterType {
            parameter_index: parameter_index as nat,
            child_type: child_type@,
            parent_type: parent_type@,
        },
        SignatureCompatibilityIssue::IncompatibleReturnType { child_type, parent_type } => IssueView::IncompatibleReturnType {
            child_type: child_type@,
            parent_type: parent_type@,
        },
        SignatureCompatibilityIssue::ParameterNameMismatch { parameter_index, child_name, parent_name } => IssueView::ParameterNameMismatch {
            parameter_index: parameter_index as nat,
            child_name: child_name@,
            parent_name: parent_name@,
        },
    }
}

pub open spec fn issues_view(issues: Seq<SignatureCompatibilityIssue>) -> Seq<IssueView> {
    issues.map_values(|i: SignatureCompatibilityIssue| issue_view(i))
}

/// Every issue but a parameter name mismatch is an error; name mismatches
/// are warnings, since they only break named arguments.
pub open spec fn is_warning(i: IssueView) -> bool {
    i is ParameterNameMismatch
}

/// The number of parameters without a default value.
pub open spec fn required_count(params: Seq<ParameterInfo>) -> nat
    decreases params.len(),
{
    if params.len() == 0 {
        0
    } else {
        required_count(params.drop_last()) + (if params.last().has_default { 0nat } else { 1nat })
    }
}

/// The first parameter index from `i` on where both parameters are typed
/// and the comparison fails.
pub open spec fn first_incompatible_parameter(child: Seq<ParameterInfo>, parent: Seq<ParameterInfo>, checks: Seq<TypeCheck>, i: int) -> Option<int>
    decreases parent.len() - i,
{
    if i < 0 || i >= parent.len() {
        None
    } else if i < child.len() && parent[i].has_type && child[i].has_type && !checks[i].compatible {
        Some(i)
    } else {
        first_incompatible_parameter(child, parent, checks, i + 1)
    }
}

/// The name mismatches among the first `n` parameters, in order.
pub open spec fn name_mismatches(child: Seq<ParameterInfo>, parent: Seq<ParameterInfo>, n: int) -> Seq<IssueView>
    decreases n,
{
    if n <= 0 {
        Seq::empty()
    } else {
        let rest = name_mismatches(child, parent, n - 1);
        let i = n - 1;
        if i < child.len() && i < parent.len() && child[i].name@ != parent[i].name@ {
            rest.push(IssueView::ParameterNameMismatch { parameter_index: i as nat, child_name: child[i].name@, parent_name: parent[i].name@ })
        } else {
            rest
        }
    }
}

pub open spec fn return_issue(child: MethodSignature, parent: MethodSignature, checks: SignatureTypeChecks) -> Option<IssueView> {
    if parent.has_return_type_declaration && child.has_return_type_declaration && !checks.return_declaration.compatible {
        Some(IssueView::IncompatibleReturnType { child_type: checks.return_declaration.child_type@, parent_type: checks.return_declaration.parent_type@ })
    } else if parent.return_type_from_docblock is Some && child.return_type_from_docblock == Some(true)
        && (checks.docblock_return matches Some(c) && !c.compatible) {
        Some(IssueView::IncompatibleReturnType { child_type: checks.docblock_return.unwrap().child_type@, parent_type: checks.docblock_return.unwrap().parent_type@ })
    } else {
        None
    }
}

/// The issues of an override, errors first: nothing for a method not
/// written by the user or for non-methods; else the first of a final parent,
/// a static mismatch, a narrowed visibility, a parameter count mismatch
/// (fewer parameters than the parent requires, a parameter losing its
/// default, or an extra required parameter) and an incompatible parameter
/// type; else an incompatible
/// return type, if any, followed by the parameter name mismatches.
pub open spec fn spec_signature_issues(child: MethodSignature, parent: MethodSignature, checks: SignatureTypeChecks) -> Seq<IssueView> {
    let cp = child.parameters@;
    let pp = parent.parameters@;
    let count_issue = IssueView::ParameterCountMismatch { child_required_count: required_count(cp), parent_required_count: required_count(pp) };
    if !child.is_user_defined || child.method is None || parent.method is None {
        Seq::empty()
    } else if parent.method.unwrap().is_final {
        seq![IssueView::FinalMethodOverride]
    } else if child.method.unwrap().is_static != parent.method.unwrap().is_static {
        seq![IssueView::StaticModifierMismatch { child_is_static: child.method.unwrap().is_static, parent_is_static: parent.method.unwrap().is_static }]
    } else if visibility_rank(child.method.unwrap().visibility) < visibility_rank(parent.method.unwrap().visibility) {
        seq![IssueView::VisibilityNarrowed { child_visibility: child.method.unwrap().visibility, parent_visibility: parent.method.unwrap().visibility }]
    } else if cp.len() < required_count(pp) {
        seq![count_issue]
    } else if exists|i: int| 0 <= i < pp.len() && i < cp.len() && pp[i].has_default && !cp[i].has_default {
        seq![count_issue]
    } else if exists|i: int| pp.len() <= i < cp.len() && !cp[i].has_default {
        seq![count_issue]
    } else if let Some(i) = first_incompatible_parameter(cp, pp, checks.parameters@, 0) {
        seq![IssueView::IncompatibleParameterType { parameter_index: i as nat, child_type: checks.parameters@[i].child_type@, parent_type: checks.parameters@[i].parent_type@ }]
    } else {
        match return_issue(child, parent, checks) {
            Some(r) => seq![r] + name_mismatches(cp, pp, pp.len() as int),
            None => name_mismatches(cp, pp, pp.len() as int),
        }
    }
}

/// The modifiers of the two methods raise no issue.
pub open spec fn modifiers_compatible(child: MethodSignature, parent: MethodSignature) -> bool {
    &&& child.is_user_defined
    &&& child.method is Some
    &&& parent.method is Some
    &&& !parent.method.unwrap().is_final
    &&& child.method.unwrap().is_static == parent.method.unwrap().is_static
    &&& visibility_rank(child.method.unwrap().visibility) >= visibility_rank(parent.method.unwrap().visibility)
}

/// Whether a child's visibility is narrower than its parent's.
pub fn is_visibility_narrowed(child_visibility: Visibility, parent_visibility: Visibility) -> (r: bool)
    ensures
        r == (visibility_rank(child_visibility) < visibility_rank(parent_visibility)),
{
    match (parent_visibility, child_visibility) {
        (Visibility::Public, Visibility::Protected) | (Visibility::Public, Visibility::Private) => true,
        (Visibility::Protected, Visibility::Private) => true,
        _ => false,
    }
}

/// Narrowing is a strict order on visibilities: never from a visibility to
/// itself, and narrowing twice narrows.
pub proof fn lemma_narrowing_is_strict_order(a: Visibility, b: Visibility, c: Visibility)
    ensures
        !(visibility_rank(a) < visibility_rank(a)),
        visibility_rank(a) < visibility_rank(b) ==> !(visibility_rank(b) < visibility_rank(a)),
        visibility_rank(a) < visibility_rank(b) && visibility_rank(b) < visibility_rank(c) ==> visibility_rank(a) < visibility_rank(c),
        visibility_rank(a) == visibility_rank(b) ==> a == b,
{
}

fn count_required(params: &Vec<ParameterInfo>) -> (n: usize)
    ensures
        n == required_count(params@),
{
    let mut n: usize = 0;
    let mut k: usize = 0;
    while k < params.len()
        invariant
            k <= params@.len(),
            n == required_count(params@.subrange(0, k as int)),
            n <= k,
        decreases params.len() - k,
    {
        assert(params@.subrange(0, k + 1).drop_last() =~= params@.subrange(0, k as int));
        if !params[k].has_default {
            n += 1;
        }
        k += 1;
    }
    assert(params@.subrange(0, k as int) =~= params@);
    n
}

fn count_issue(child: &MethodSignature, parent: &MethodSignature) -> (issue: SignatureCompatibilityIssue)
    ensures
        issue_view(issue) == (IssueView::ParameterCountMismatch {
            child_required_count: required_count(child.parameters@),
            parent_required_count: required_count(parent.parameters@),
        }),
{
    SignatureCompatibilityIssue::ParameterCountMismatch {
        child_required_count: count_required(&child.parameters),
        parent_required_count: count_required(&parent.parameters),
    }
}

/// Validates a child method's signature against its parent's: static
/// modifiers must match, visibility may only widen, parameters are
/// contravariant, return types covariant, the child must accept the
/// parent's parameters, and names should match. Returns the issues found,
/// errors first; an empty list means the signatures are compatible.
pub fn validate_method_signature_compatibility(
    child_method: &MethodSignature,
    parent_method: &MethodSignature,
    type_checks: &SignatureTypeChecks,
) -> (issues: Vec<SignatureCompatibilityIssue>)
    requires
        type_checks.parameters@.len() >= parent_method.parameters@.len(),
    ensures
        issues_view(issues@) == spec_signature_issues(*child_method, *parent_method, *type_checks),
{
    let mut issues: Vec<SignatureCompatibilityIssue> = Vec::new();
    assert(issues_view(issues@) =~= Seq::<IssueView>::empty());
    if !child_method.is_user_defined {
        return issues;
    }
    let child_meta = match child_method.method {
        Some(m) => m,
        None => return issues,
    };
    let parent_meta = match parent_method.method {
        Some(m) => m,
        None => return issues,
    };
    if parent_meta.is_final {
        issues.push(SignatureCompatibilityIssue::FinalMethodOverride);
        assert(issues_view(issues@) =~= seq![IssueView::FinalMethodOverride]);
        return issues;
    }
    if child_meta.is_static != parent_meta.is_static {
        issues.push(SignatureCompatibilityIssue::StaticModifierMismatch {
            child_is_static: child_meta.is_static,
            parent_is_static: parent_meta.is_static,
        });
        assert(issues_view(issues@) =~= spec_signature_issues(*child_method, *parent_method, *type_checks));
        return issues;
    }
    if is_visibility_narrowed(child_meta.visibility, parent_meta.visibility) {
        issues.push(SignatureCompatibilityIssue::VisibilityNarrowed {
            child_visibility: child_meta.visibility,
            parent_visibility: parent_meta.visibility,
        });
        assert(issues_view(issues@) =~= spec_signature_issues(*child_method, *parent_method, *type_checks));
        return issues;
    }
    let parent_param_count = parent_method.parameters.len();
    let child_param_count = child_method.parameters.len();
    let ghost cp = child_method.parameters@;
    let ghost pp = parent_method.parameters@;
    if child_param_count < count_required(&parent_method.parameters) {
        issues.push(count_issue(child_method, parent_method));
        assert(issues_view(issues@) =~= spec_signature_issues(*child_method, *parent_method, *type_checks));
        return issues;
    }
    let mut index: usize = 0;
    while index < parent_param_count
        invariant
            modifiers_compatible(*child_method, *parent_method),
            parent_param_count == pp.len(),
            child_param_count == cp.len(),
            cp.len() >= required_count(pp),
            cp == child_method.parameters@,
            pp == parent_method.parameters@,
            issues@.len() == 0,
            index <= parent_param_count,
            forall|i: int| 0 <= i < index && i < cp.len() ==> !(#[trigger] pp[i].has_default && !cp[i].has_default),
        decreases parent_param_count - index,
    {
        if index < child_param_count && parent_method.parameters[index].has_default
            && !child_method.parameters[index].has_default {
            issues.push(count_issue(child_method, parent_method));
            assert(pp[index as int].has_default && !cp[index as int].has_default);
            assert(issues_view(issues@) =~= spec_signature_issues(*child_method, *parent_method, *type_checks));
            return issues;
        }
        index += 1;
    }
    let mut index: usize = parent_param_count;
    while index < child_param_count
        invariant
            modifiers_compatible(*child_method, *parent_method),
            parent_param_count == pp.len(),
            child_param_count == cp.len(),
            cp.len() >= required_count(pp),
            cp == child_method.parameters@,
            pp == parent_method.parameters@,
            issues@.len() == 0,
            parent_param_count <= index,
            index <= child_param_count || index == parent_param_count,
            forall|i: int| 0 <= i < pp.len() && i < cp.len() ==> !(#[trigger] pp[i].has_default && !cp[i].has_default),
            forall|i: int| pp.len() <= i < index ==> (#[trigger] cp[i]).has_default,
        decreases child_param_count - index,
    {
        if !child_method.parameters[index].has_default {
            issues.push(count_issue(child_method, parent_method));
            assert(issues_view(issues@) =~= spec_signature_issues(*child_method, *parent_method, *type_checks));
            return issues;
        }
        index += 1;
    }
    let ghost checks = type_checks.parameters@;
    let mut index: usize = 0;
    while index < parent_param_count
        invariant
            modifiers_compatible(*child_method, *parent_method),
            parent_param_count == pp.len(),
            child_param_count == cp.len(),
            cp.len() >= required_count(pp),
            checks.len() >= pp.len(),
            checks == type_checks.parameters@,
            forall|i: int| 0 <= i < pp.len() && i < cp.len() ==> !(#[trigger] pp[i].has_default && !cp[i].has_default),
            forall|i: int| pp.len() <= i < cp.len() ==> (#[trigger] cp[i]).has_default,
            cp == child_method.parameters@,
            pp == parent_method.parameters@,
            issues@.len() == 0,
            index <= parent_param_count,
            first_incompatible_parameter(cp, pp, checks, 0) == first_incompatible_parameter(cp, pp, checks, index as int),
        decreases parent_param_count - index,
    {
        if index < child_param_count && parent_method.parameters[index].has_type
            && child_method.parameters[index].has_type && !type_checks.parameters[index].compatible {
            issues.push(SignatureCompatibilityIssue::IncompatibleParameterType {
                parameter_index: index,
                child_type: bytes_of(type_checks.parameters[index].child_type.as_slice()),
                parent_type: bytes_of(type_checks.parameters[index].parent_type.as_slice()),
            });
            assert(issues_view(issues@) =~= spec_signature_issues(*child_method, *parent_method, *type_checks));
            return issues;
        }
        index += 1;
    }
    let mut warnings: Vec<SignatureCompatibilityIssue> = Vec::new();
    let mut index: usize = 0;
    while index < parent_param_count
        invariant
            modifiers_compatible(*child_method, *parent_method),
            parent_param_count == pp.len(),
            child_param_count == cp.len(),
            cp == child_method.parameters@,
            pp == parent_method.parameters@,
            index <= parent_param_count,
            issues_view(warnings@) == name_mismatches(cp, pp, index as int),
        decreases parent_param_count - index,
    {
        let ghost before = warnings@;
        if index < child_param_count
            && !bytes_eq(parent_method.parameters[index].name.as_slice(), child_method.parameters[index].name.as_slice()) {
            warnings.push(SignatureCompatibilityIssue::ParameterNameMismatch {
                parameter_index: index,
                child_name: bytes_of(child_method.parameters[index].name.as_slice()),
                parent_name: bytes_of(parent_method.parameters[index].name.as_slice()),
            });
            assert(issues_view(warnings@) =~= issues_view(before).push(issue_view(warnings@.last())));
        }
        index += 1;
    }
    let mut return_error: Option<SignatureCompatibilityIssue> = None;
    if parent_method.has_return_type_declaration && child_method.has_return_type_declaration
        && !type_checks.return_declaration.compatible {
        return_error = Some(SignatureCompatibilityIssue::IncompatibleReturnType {
            child_type: bytes_of(type_checks.return_declaration.child_type.as_slice()),
            parent_type: bytes_of(type_checks.return_declaration.parent_type.as_slice()),
        });
    } else if parent_method.return_type_from_docblock.is_some() && child_method.return_type_from_docblock == Some(true) {
        if let Some(check) = &type_checks.docblock_return {
            if !check.compatible {
                return_error = Some(SignatureCompatibilityIssue::IncompatibleReturnType {
                    child_type: bytes_of(check.child_type.as_slice()),
                    parent_type: bytes_of(check.parent_type.as_slice()),
                });
            }
        }
    }
    match return_error {
        Some(error) => {
            issues.push(error);
            issues.append(&mut warnings);
        },
        None => {
            issues = warnings;
        },
    }
    assert(issues_view(issues@) =~= spec_signature_issues(*child_method, *parent_method, *type_checks));
    issues
}

/// The issues of an override list every error before any warning.
pub proof fn lemma_errors_before_warnings(child: MethodSignature, parent: MethodSignature, checks: SignatureTypeChecks)
    ensures
        forall|i: int, j: int|
            0 <= i < j < spec_signature_issues(child, parent, checks).len() && is_warning(
                #[trigger] spec_signature_issues(child, parent, checks)[i],
            ) ==> is_warning(#[trigger] spec_signature_issues(child, parent, checks)[j]),
{
    let pp = parent.parameters@;
    let cp = child.parameters@;
    lemma_name_mismatches_are_warnings(cp, pp, pp.len() as int);
}

proof fn lemma_name_mismatches_are_warnings(child: Seq<ParameterInfo>, parent: Seq<ParameterInfo>, n: int)
    ensures
        forall|i: int| 0 <= i < name_mismatches(child, parent, n).len() ==> is_warning(#[trigger] name_mismatches(child, parent, n)[i]),
    decreases n,
{
    if n > 0 {
        lemma_name_mismatches_are_warnings(child, parent, n - 1);
        let rest = name_mismatches(child, parent, n - 1);
        assert forall|i: int| 0 <= i < name_mismatches(child, parent, n).len() implies is_warning(#[trigger] name_mismatches(child, parent, n)[i]) by {
            if i < rest.len() {
                assert(is_warning(rest[i]));
            }
        }
    }
}

/// The parameter index a name mismatch is about.
pub open spec fn mismatch_index(v: IssueView) -> nat {
    match v {
        IssueView::ParameterNameMismatch { parameter_index, .. } => parameter_index,
        _ => 0,
    }
}

/// `v` reports that the parameters at index `i` have different names.
pub open spec fn reports_name_mismatch(v: IssueView, child: Seq<ParameterInfo>, parent: Seq<ParameterInfo>, i: int) -> bool {
    &&& 0 <= i < child.len()
    &&& i < parent.len()
    &&& v == (IssueView::ParameterNameMismatch { parameter_index: i as nat, child_name: child[i].name@, parent_name: parent[i].name@ })
}

proof fn lemma_name_mismatches_exact(child: Seq<ParameterInfo>, parent: Seq<ParameterInfo>, n: int)
    requires
        n >= 0,
    ensures
        forall|k: int| 0 <= k < name_mismatches(child, parent, n).len() ==> {
            let v = #[trigger] name_mismatches(child, parent, n)[k];
            &&& reports_name_mismatch(v, child, parent, mismatch_index(v) as int)
            &&& mismatch_index(v) < n
            &&& child[mismatch_index(v) as int].name@ != parent[mismatch_index(v) as int].name@
        },
        forall|i: int| 0 <= i < n && i < child.len() && i < parent.len() && child[i].name@ != parent[i].name@
            ==> exists|k: int| 0 <= k < name_mismatches(child, parent, n).len()
                && reports_name_mismatch(#[trigger] name_mismatches(child, parent, n)[k], child, parent, i),
        forall|k1: int, k2: int| 0 <= k1 < k2 < name_mismatches(child, parent, n).len()
            ==> mismatch_index(#[trigger] name_mismatches(child, parent, n)[k1]) < mismatch_index(#[trigger] name_mismatches(child, parent, n)[k2]),
    decreases n,
{
    if n > 0 {
        lemma_name_mismatches_exact(child, parent, n - 1);
        let rest = name_mismatches(child, parent, n - 1);
        let all = name_mismatches(child, parent, n);
        assert forall|k: int| 0 <= k < rest.len() implies #[trigger] all[k] == rest[k] by {}
        assert forall|i: int| 0 <= i < n && i < child.len() && i < parent.len() && child[i].name@ != parent[i].name@
            implies exists|k: int| 0 <= k < all.len() && reports_name_mismatch(#[trigger] all[k], child, parent, i) by {
            if i < n - 1 {
                let k = choose|k: int| 0 <= k < rest.len() && reports_name_mismatch(#[trigger] rest[k], child, parent, i);
                assert(all[k] == rest[k]);
            } else {
                assert(reports_name_mismatch(all[rest.len() as int], child, parent, i));
            }
        }
        assert forall|k1: int, k2: int| 0 <= k1 < k2 < all.len()
            implies mismatch_index(#[trigger] all[k1]) < mismatch_index(#[trigger] all[k2]) by {
            if k2 < rest.len() {
                assert(all[k1] == rest[k1] && all[k2] == rest[k2]);
            } else {
                assert(all[k1] == rest[k1]);
                assert(mismatch_index(rest[k1]) < n - 1);
            }
        }
        assert forall|k: int| 0 <= k < all.len() implies ({
            let v = #[trigger] all[k];
            &&& reports_name_mismatch(v, child, parent, mismatch_index(v) as int)
            &&& mismatch_index(v) < n
            &&& child[mismatch_index(v) as int].name@ != parent[mismatch_index(v) as int].name@
        }) by {
            if k < rest.len() {
                assert(all[k] == rest[k]);
            }
        }
    }
}

/// When the modifiers are compatible and nothing but the return type is in
/// error, every parameter position that both methods have and where the
/// names differ is reported as a name mismatch. Whatever the inputs, each
/// name mismatch reported is about a position where both methods have a
/// parameter and the names differ, and name mismatches come in increasing
/// order of position.
pub proof fn lemma_name_mismatches_reported(child: MethodSignature, parent: MethodSignature, checks: SignatureTypeChecks)
    ensures
        ({
            let r = spec_signature_issues(child, parent, checks);
            let cp = child.parameters@;
            let pp = parent.parameters@;
            &&& (modifiers_compatible(child, parent)
                && forall|k: int| 0 <= k < r.len() ==> (#[trigger] r[k] is ParameterNameMismatch || r[k] is IncompatibleReturnType))
                ==> forall|i: int| 0 <= i < cp.len() && i < pp.len() && cp[i].name@ != pp[i].name@
                    ==> exists|k: int| 0 <= k < r.len() && reports_name_mismatch(#[trigger] r[k], cp, pp, i)
            &&& forall|k: int| 0 <= k < r.len() && (#[trigger] r[k] is ParameterNameMismatch) ==> {
                &&& reports_name_mismatch(r[k], cp, pp, mismatch_index(r[k]) as int)
                &&& cp[mismatch_index(r[k]) as int].name@ != pp[mismatch_index(r[k]) as int].name@
            }
            &&& forall|k1: int, k2: int| 0 <= k1 < k2 < r.len() && (#[trigger] r[k1]) is ParameterNameMismatch && (#[trigger] r[k2]) is ParameterNameMismatch
                ==> mismatch_index(r[k1]) < mismatch_index(r[k2])
        }),
{
    let r = spec_signature_issues(child, parent, checks);
    let cp = child.parameters@;
    let pp = parent.parameters@;
    let nm = name_mismatches(cp, pp, pp.len() as int);
    lemma_name_mismatches_exact(cp, pp, pp.len() as int);
    lemma_name_mismatches_are_warnings(cp, pp, pp.len() as int);
    let tail = !(!child.is_user_defined || child.method is None || parent.method is None)
        && !parent.method.unwrap().is_final
        && child.method.unwrap().is_static == parent.method.unwrap().is_static
        && !(visibility_rank(child.method.unwrap().visibility) < visibility_rank(parent.method.unwrap().visibility))
        && !(cp.len() < required_count(pp))
        && !(exists|i: int| 0 <= i < pp.len() && i < cp.len() && pp[i].has_default && !cp[i].has_default)
        && !(exists|i: int| pp.len() <= i < cp.len() && !cp[i].has_default)
        && first_incompatible_parameter(cp, pp, checks.parameters@, 0) is None;
    if tail {
        let off: int = if return_issue(child, parent, checks) is Some { 1 } else { 0 };
        assert(r.len() == nm.len() + off);
        assert forall|k: int| 0 <= k < nm.len() implies #[trigger] r[k + off] == nm[k] by {}
        assert forall|k: int| 0 <= k < r.len() && (#[trigger] r[k] is ParameterNameMismatch) implies k >= off && r[k] == nm[k - off] by {
            if k < off {
                assert(r[k] is IncompatibleReturnType);
            }
        }
        assert forall|i: int| 0 <= i < cp.len() && i < pp.len() && cp[i].name@ != pp[i].name@
            implies exists|k: int| 0 <= k < r.len() && reports_name_mismatch(#[trigger] r[k], cp, pp, i) by {
            let k = choose|k: int| 0 <= k < nm.len() && reports_name_mismatch(#[trigger] nm[k], cp, pp, i);
            assert(r[k + off] == nm[k]);
        }
        assert forall|k1: int, k2: int| 0 <= k1 < k2 < r.len() && (#[trigger] r[k1]) is ParameterNameMismatch && (#[trigger] r[k2]) is ParameterNameMismatch
            implies mismatch_index(r[k1]) < mismatch_index(r[k2]) by {
            assert(r[k1] == nm[k1 - off] && r[k2] == nm[k2 - off]);
        }
    } else {
        assert(forall|k: int| 0 <= k < r.len() ==> !(#[trigger] r[k] is ParameterNameMismatch));
        if modifiers_compatible(child, parent) {
            assert(r.len() == 1);
            assert(!(r[0] is ParameterNameMismatch || r[0] is IncompatibleReturnType));
        }
    }
}

} // verus!
