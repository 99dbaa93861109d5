//! Calls to methods that a class documents with `@method` but does not
//! declare: whether the class can handle them, through `__call` or
//! `__callStatic`.
use vstd::prelude::*;

verus! {

/// What a parent class holds under a method's lower-cased name.
#[derive(Clone, Copy, PartialEq, Eq, Structural, Debug)]
pub struct ParentMethods {
    /// The parent has a method of that name, declared or documented.
    pub has_method: bool,
    /// The parent documents a method of that name with `@method`.
    pub has_pseudo_method: bool,
}

/// What a class is, for a call to a documented magic method on it.
#[derive(Clone, Copy, PartialEq, Eq, Structural, Debug)]
pub struct MagicCallClass {
    pub is_interface: bool,
    pub is_final: bool,
    pub is_abstract: bool,
    /// The class itself documents the method with `@method`.
    pub has_pseudo_method: bool,
}

/// The issue a call to a documented magic method raises.
#[derive(Clone, Copy, PartialEq, Eq, Structural, Debug)]
pub enum MagicCallIssue {
    /// A method documented as static called on an instance: the target is invalid.
    DynamicStaticMethodCall,
    /// The class is final and cannot handle the call: an error.
    MagicCallWithoutCallMethod,
    /// A subclass might handle the call: a warning.
    PossiblyMissingMagicCall,
}

/// The method is documented on the class or one of its parents.
pub open spec fn is_pseudo(class: MagicCallClass, parents: Seq<ParentMethods>) -> bool {
    class.has_pseudo_method || exists|i: int| 0 <= i < parents.len() && #[trigger] parents[i].has_pseudo_method
}

/// A documented method that some parent declares for real is inherited.
pub open spec fn is_inherited(class: MagicCallClass, parents: Seq<ParentMethods>) -> bool {
    is_pseudo(class, parents) && exists|i: int| 0 <= i < parents.len() && #[trigger] parents[i].has_method
        && !parents[i].has_pseudo_method
}

/// A call `$object->method()` to a documented magic method of a class whose
/// existing parents are `parents`: a method documented as static cannot be
/// called on an instance; otherwise, unless `__call` exists, the method is
/// inherited for real, or the class is an interface, the call is an error
/// on a final, concrete class and a warning on any other.
pub open spec fn spec_instance_magic_call_issue(class: MagicCallClass, parents: Seq<ParentMethods>, method_is_static: bool, has_magic_call: bool) -> Option<MagicCallIssue> {
    if method_is_static {
        Some(MagicCallIssue::DynamicStaticMethodCall)
    } else if !has_magic_call && !is_inherited(class, parents) && !class.is_interface {
        if class.is_final && !class.is_abstract {
            Some(MagicCallIssue::MagicCallWithoutCallMethod)
        } else {
            Some(MagicCallIssue::PossiblyMissingMagicCall)
        }
    } else {
        None
    }
}

fn inherited(class: MagicCallClass, parents: &Vec<ParentMethods>) -> (r: bool)
    ensures
        r == is_inherited(class, parents@),
{
    let mut pseudo = class.has_pseudo_method;
    let mut k: usize = 0;
    while k < parents.len()
        invariant
            k <= parents@.len(),
            pseudo == (class.has_pseudo_method || exists|i: int| 0 <= i < k && #[trigger] parents@[i].has_pseudo_method),
        decreases parents.len() - k,
    {
        if parents[k].has_pseudo_method {
            pseudo = true;
        }
        k += 1;
    }
    assert(pseudo == is_pseudo(class, parents@));
    if !pseudo {
        return false;
    }
    let mut k: usize = 0;
    while k < parents.len()
        invariant
            k <= parents@.len(),
            is_pseudo(class, parents@),
            forall|i: int| 0 <= i < k ==> !(#[trigger] parents@[i].has_method && !parents@[i].has_pseudo_method),
        decreases parents.len() - k,
    {
        if parents[k].has_method && !parents[k].has_pseudo_method {
            assert(parents@[k as int].has_method && !parents@[k as int].has_pseudo_method);
            return true;
        }
        k += 1;
    }
    assert(!(exists|i: int| 0 <= i < parents@.len() && #[trigger] parents@[i].has_method && !parents@[i].has_pseudo_method));
    false
}

/// Decides the issue of calling, on an instance, a method that the class
/// documents as magic: `method_is_static` tells whether it is documented as
/// static, `has_magic_call` whether the class has `__call`.
pub fn instance_magic_call_issue(class: MagicCallClass, parents: &Vec<ParentMethods>, method_is_static: bool, has_magic_call: bool) -> (r: Option<MagicCallIssue>)
    ensures
        r == spec_instance_magic_call_issue(class, parents@, method_is_static, has_magic_call),
{
    if method_is_static {
        return Some(MagicCallIssue::DynamicStaticMethodCall);
    }
    if !has_magic_call && !class.is_interface && !inherited(class, parents) {
        if class.is_final && !class.is_abstract {
            Some(MagicCallIssue::MagicCallWithoutCallMethod)
        } else {
            Some(MagicCallIssue::PossiblyMissingMagicCall)
        }
    } else {
        None
    }
}

/// A static call `Class::method()` to a documented magic method: unless
/// `__callStatic` exists, the class is an interface, or an ancestor
/// provides a real accessible method, the call is an error on a final,
/// concrete class and a warning on any other.
pub open spec fn spec_static_magic_call_issue(class: MagicCallClass, has_magic_static_call: bool, has_real_ancestor_method: bool) -> Option<MagicCallIssue> {
    if !has_magic_static_call && !class.is_interface && !has_real_ancestor_method {
        if class.is_final && !class.is_abstract {
            Some(MagicCallIssue::MagicCallWithoutCallMethod)
        } else {
            Some(MagicCallIssue::PossiblyMissingMagicCall)
        }
    } else {
        None
    }
}

/// Decides the issue of a static call to a method that the class documents
/// as magic.
pub fn static_magic_call_issue(class: MagicCallClass, has_magic_static_call: bool, has_real_ancestor_method: bool) -> (r: Option<MagicCallIssue>)
    ensures
        r == spec_static_magic_call_issue(class, has_magic_static_call, has_real_ancestor_method),
{
    if !has_magic_static_call && !class.is_interface && !has_real_ancestor_method {
        if class.is_final && !class.is_abstract {
            Some(MagicCallIssue::MagicCallWithoutCallMethod)
        } else {
            Some(MagicCallIssue::PossiblyMissingMagicCall)
        }
    } else {
        None
    }
}

} // verus!
