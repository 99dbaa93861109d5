//! Identifiers of expressions: `$a`, `$a->b`, `$a?->b`, `A::$b`, `A::B`, `$a['k']`.
use vstd::prelude::*;
use std::collections::HashSet;
use crate::expr::{
    arrow, constant_selector_size, double_colon, expr_size, null_safe_arrow, opt_view, selector_size,
    spec_constant_selector_id, spec_expression_id, spec_extended_id, spec_index_id, spec_selector_id,
    unwrap_expression, unwrapped, variable_id, word_parent, word_self, word_static, ConstantSelector, Expr,
    ExprKind, Literal, MemberSelector, UnaryPrefixOperator, Variable,
};

verus! {

pub open spec fn this_view(this: Option<&[u8]>) -> Option<Seq<u8>> {
    match this {
        Some(t) => Some(t@),
        None => None,
    }
}

/// Appends `src` to `dst`.
pub fn append(dst: &mut Vec<u8>, src: &[u8])
    ensures
        final(dst)@ == old(dst)@ + src@,
{
    let ghost start = dst@;
    let mut k: usize = 0;
    while k < src.len()
        invariant
            k <= src.len(),
            dst@ == start + src@.subrange(0, k as int),
        decreases src.len() - k,
    {
        dst.push(src[k]);
        k += 1;
        assert(dst@ =~= start + src@.subrange(0, k as int));
    }
    assert(src@.subrange(0, src.len() as int) =~= src@);
}

/// A fresh copy of `src`.
pub fn bytes_of(src: &[u8]) -> (v: Vec<u8>)
    ensures
        v@ == src@,
{
    let mut v: Vec<u8> = Vec::new();
    append(&mut v, src);
    assert(v@ =~= src@);
    v
}

proof fn lemma_extended_id_unwrapped(e: Expr, this: Option<Seq<u8>>, solve: bool)
    ensures
        spec_extended_id(unwrapped(e), this, solve) == spec_extended_id(e, this, solve),
    decreases e,
{
    if let ExprKind::Parenthesized(inner) = e.kind {
        lemma_extended_id_unwrapped(*inner, this, solve);
    }
}

/// The name of a direct variable such as `$a`; other variables have none.
pub fn get_variable_id(variable: &Variable) -> (id: Option<&[u8]>)
    ensures
        match id {
            Some(r) => variable_id(*variable) == Some(r@),
            None => variable_id(*variable) is None,
        },
{
    match variable {
        Variable::Direct(name) => Some(name.as_slice()),
        _ => None,
    }
}

fn variable_id_vec(variable: &Variable) -> (id: Option<Vec<u8>>)
    ensures
        opt_view(id) == variable_id(*variable),
{
    match get_variable_id(variable) {
        Some(name) => Some(bytes_of(name)),
        None => None,
    }
}

/// Wraps an identifier in braces: `{id}`.
fn braced(id: Vec<u8>) -> (r: Vec<u8>)
    ensures
        r@ == seq![123u8] + id@ + seq![125u8],
{
    let mut r: Vec<u8> = Vec::new();
    r.push(123u8);
    append(&mut r, id.as_slice());
    r.push(125u8);
    assert(r@ =~= seq![123u8] + id@ + seq![125u8]);
    r
}

/// The identifier of a member selector: its name, its variable's name, or
/// the braced identifier of its expression.
pub fn get_member_selector_id(selector: &MemberSelector, this_class_name: Option<&[u8]>) -> (id: Option<Vec<u8>>)
    ensures
        opt_view(id) == spec_selector_id(*selector, this_view(this_class_name)),
    decreases selector_size(*selector), 2nat,
{
    match selector {
        MemberSelector::Identifier(name) => Some(bytes_of(name.as_slice())),
        MemberSelector::Variable(variable) => variable_id_vec(variable),
        MemberSelector::Expression(expression) => match get_expression_id(expression, this_class_name) {
            Some(id) => Some(braced(id)),
            None => None,
        },
        MemberSelector::Missing => None,
    }
}

/// The identifier of a class constant selector: its name or the braced
/// identifier of its expression.
pub fn get_constant_selector_id(selector: &ConstantSelector, this_class_name: Option<&[u8]>) -> (id: Option<Vec<u8>>)
    ensures
        opt_view(id) == spec_constant_selector_id(*selector, this_view(this_class_name)),
    decreases constant_selector_size(*selector), 2nat,
{
    match selector {
        ConstantSelector::Identifier(name) => Some(bytes_of(name.as_slice())),
        ConstantSelector::Expression(expression) => match get_expression_id(expression, this_class_name) {
            Some(id) => Some(braced(id)),
            None => None,
        },
        ConstantSelector::Missing => None,
    }
}

/// The identifier of an expression, for variables, property and static
/// property fetches, class constants, array accesses and `self`.
pub fn get_expression_id(expression: &Expr, this_class_name: Option<&[u8]>) -> (id: Option<Vec<u8>>)
    ensures
        opt_view(id) == spec_expression_id(*expression, this_view(this_class_name)),
    decreases expr_size(*expression), 1nat,
{
    get_extended_expression_id(expression, this_class_name, false)
}

fn get_extended_expression_id(expression: &Expr, this_class_name: Option<&[u8]>, solve_identifiers: bool) -> (id: Option<Vec<u8>>)
    ensures
        opt_view(id) == spec_extended_id(*expression, this_view(this_class_name), solve_identifiers),
    decreases expr_size(*expression), 0nat,
{
    let ghost this = this_view(this_class_name);
    proof { lemma_extended_id_unwrapped(*expression, this, solve_identifiers); }
    let expression = unwrap_expression(expression);
    match &expression.kind {
        ExprKind::Assignment { lhs, .. } => get_expression_id(lhs, this_class_name),
        ExprKind::UnaryPrefix { operator: UnaryPrefixOperator::Reference, operand } => get_expression_id(
            operand,
            this_class_name,
        ),
        ExprKind::Variable(variable) => variable_id_vec(variable),
        ExprKind::PropertyAccess { object, property, null_safe } => get_property_access_expression_id(
            object,
            property,
            *null_safe,
            this_class_name,
        ),
        ExprKind::StaticPropertyAccess { class, property } => get_static_property_access_expression_id(
            class,
            property,
            this_class_name,
        ),
        ExprKind::ClassConstantAccess { class, constant } => {
            let class_id = match get_extended_expression_id(class, this_class_name, true) {
                Some(c) => c,
                None => return None,
            };
            let constant_id = match get_constant_selector_id(constant, this_class_name) {
                Some(k) => k,
                None => return None,
            };
            let mut id = class_id;
            append(&mut id, &[58u8, 58u8]);
            append(&mut id, constant_id.as_slice());
            assert(seq![58u8, 58u8] =~= double_colon());
            Some(id)
        },
        ExprKind::ArrayAccess { array, index } => get_array_access_id(array, index, this_class_name),
        ExprKind::SelfKeyword => match this_class_name {
            Some(name) => Some(bytes_of(name)),
            None => {
                let w = bytes_of(&[115u8, 101, 108, 102]);
                assert(w@ =~= word_self());
                Some(w)
            },
        },
        ExprKind::ParentKeyword => {
            if !solve_identifiers {
                return None;
            }
            match this_class_name {
                Some(name) => Some(bytes_of(name)),
                None => {
                    let w = bytes_of(&[112u8, 97, 114, 101, 110, 116]);
                    assert(w@ =~= word_parent());
                    Some(w)
                },
            }
        },
        ExprKind::StaticKeyword => {
            if !solve_identifiers {
                return None;
            }
            match this_class_name {
                Some(name) => Some(bytes_of(name)),
                None => {
                    let w = bytes_of(&[115u8, 116, 97, 116, 105, 99]);
                    assert(w@ =~= word_static());
                    Some(w)
                },
            }
        },
        ExprKind::Identifier { resolved, .. } => {
            if solve_identifiers {
                Some(bytes_of(resolved.as_slice()))
            } else {
                None
            }
        },
        _ => None,
    }
}

/// The identifier of `object->property` (or `object?->property`).
pub fn get_property_access_expression_id(
    object_expression: &Expr,
    selector: &MemberSelector,
    is_null_safe: bool,
    this_class_name: Option<&[u8]>,
) -> (id: Option<Vec<u8>>)
    ensures
        opt_view(id) == (match (
            spec_expression_id(*object_expression, this_view(this_class_name)),
            spec_selector_id(*selector, this_view(this_class_name)),
        ) {
            (Some(o), Some(p)) => Some(o + (if is_null_safe { null_safe_arrow() } else { arrow() }) + p),
            _ => None,
        }),
    decreases expr_size(*object_expression) + selector_size(*selector), 2nat,
{
    let object = match get_expression_id(object_expression, this_class_name) {
        Some(o) => o,
        None => return None,
    };
    let property = match get_member_selector_id(selector, this_class_name) {
        Some(p) => p,
        None => return None,
    };
    let mut id = object;
    if is_null_safe {
        append(&mut id, &[63u8, 45u8, 62u8]);
        assert(seq![63u8, 45u8, 62u8] =~= null_safe_arrow());
    } else {
        append(&mut id, &[45u8, 62u8]);
        assert(seq![45u8, 62u8] =~= arrow());
    }
    append(&mut id, property.as_slice());
    Some(id)
}

/// The identifier of `class::$property`.
pub fn get_static_property_access_expression_id(
    class_expr: &Expr,
    property: &Variable,
    this_class_name: Option<&[u8]>,
) -> (id: Option<Vec<u8>>)
    ensures
        opt_view(id) == (match (spec_extended_id(*class_expr, this_view(this_class_name), true), variable_id(*property)) {
            (Some(c), Some(p)) => Some(c + double_colon() + p),
            _ => None,
        }),
    decreases expr_size(*class_expr), 2nat,
{
    let class = match get_extended_expression_id(class_expr, this_class_name, true) {
        Some(c) => c,
        None => return None,
    };
    let property = match get_variable_id(property) {
        Some(p) => p,
        None => return None,
    };
    let mut id = class;
    append(&mut id, &[58u8, 58u8]);
    assert(seq![58u8, 58u8] =~= double_colon());
    append(&mut id, property);
    Some(id)
}

/// The identifier of `array[index]`.
pub fn get_array_access_id(array: &Expr, index: &Expr, this_class_name: Option<&[u8]>) -> (id: Option<Vec<u8>>)
    ensures
        opt_view(id) == (match (
            spec_expression_id(*array, this_view(this_class_name)),
            spec_index_id(*index, this_view(this_class_name)),
        ) {
            (Some(a), Some(i)) => Some(a + seq![91u8] + i + seq![93u8]),
            _ => None,
        }),
    decreases expr_size(*array) + expr_size(*index), 2nat,
{
    let array_id = match get_expression_id(array, this_class_name) {
        Some(a) => a,
        None => return None,
    };
    let index_id = match get_index_id(index, this_class_name) {
        Some(i) => i,
        None => return None,
    };
    let mut id = array_id;
    id.push(91u8);
    append(&mut id, index_id.as_slice());
    id.push(93u8);
    assert(id@ =~= array_id@ + seq![91u8] + index_id@ + seq![93u8]);
    Some(id)
}

/// The identifier of an array index.
pub fn get_index_id(expression: &Expr, this_class_name: Option<&[u8]>) -> (id: Option<Vec<u8>>)
    ensures
        opt_view(id) == spec_index_id(*expression, this_view(this_class_name)),
    decreases expr_size(*expression), 2nat,
{
    match &expression.kind {
        ExprKind::Literal(Literal::String(raw)) => Some(bytes_of(raw.as_slice())),
        ExprKind::Literal(Literal::Integer(raw)) => Some(bytes_of(raw.as_slice())),
        ExprKind::UnaryPostfix { operand, .. } => get_index_id(operand, this_class_name),
        _ => get_expression_id(expression, this_class_name),
    }
}


/// The variable an access path starts from: `$a` for `$a->b['c']` and for `$a::C`.
pub open spec fn spec_root_id(e: Expr) -> Option<Seq<u8>>
    decreases e,
{
    match e.kind {
        ExprKind::Parenthesized(inner) => spec_root_id(*inner),
        ExprKind::Variable(Variable::Direct(name)) => Some(name@),
        ExprKind::ArrayAccess { array, .. } => spec_root_id(*array),
        ExprKind::PropertyAccess { object, .. } => spec_root_id(*object),
        ExprKind::ClassConstantAccess { class, .. } => spec_root_id(*class),
        ExprKind::StaticPropertyAccess { class, .. } => spec_root_id(*class),
        _ => None,
    }
}

/// The root variable of an access path.
pub fn get_root_expression_id(expression: &Expr) -> (id: Option<Vec<u8>>)
    ensures
        opt_view(id) == spec_root_id(*expression),
    decreases expression,
{
    match &expression.kind {
        ExprKind::Parenthesized(inner) => get_root_expression_id(inner),
        ExprKind::Variable(Variable::Direct(name)) => Some(bytes_of(name.as_slice())),
        ExprKind::ArrayAccess { array, .. } => get_root_expression_id(array),
        ExprKind::PropertyAccess { object, .. } => get_root_expression_id(object),
        ExprKind::ClassConstantAccess { class, .. } => get_root_expression_id(class),
        ExprKind::StaticPropertyAccess { class, .. } => get_root_expression_id(class),
        _ => None,
    }
}

/// The diagnostic key of a call `object->method()` without arguments whose
/// start offset is among the stable call offsets: the object's identifier
/// (or its own such key), `->`, the method name and `()`.
pub open spec fn spec_advisory_id(e: Expr, this: Option<Seq<u8>>, offsets: Set<u32>) -> Option<Seq<u8>>
    decreases e,
{
    match e.kind {
        ExprKind::Parenthesized(inner) => spec_advisory_id(*inner, this, offsets),
        ExprKind::MethodCall { object, method: MemberSelector::Identifier(name), arguments, .. } => {
            if !offsets.contains(e.span.start) || arguments@.len() != 0 {
                None
            } else {
                let object_id = match spec_expression_id(*object, this) {
                    Some(o) => Some(o),
                    None => spec_advisory_id(*object, this, offsets),
                };
                match object_id {
                    Some(o) => Some(o + arrow() + name@ + seq![40u8, 41u8]),
                    None => None,
                }
            }
        },
        _ => None,
    }
}

/// Returns the diagnostic key of a stable zero-argument method call. The key
/// never names a local: every invocation is still a separate evaluation.
pub fn get_stable_method_call_advisory_id(
    expression: &Expr,
    this_class_name: Option<&[u8]>,
    stable_method_call_offsets: &HashSet<u32>,
) -> (id: Option<Vec<u8>>)
    ensures
        opt_view(id) == spec_advisory_id(*expression, this_view(this_class_name), stable_method_call_offsets@),
    decreases expression,
{
    broadcast use vstd::std_specs::hash::group_hash_axioms;
    match &expression.kind {
        ExprKind::Parenthesized(inner) => get_stable_method_call_advisory_id(
            inner,
            this_class_name,
            stable_method_call_offsets,
        ),
        ExprKind::MethodCall { object, method, arguments, .. } => {
            if !stable_method_call_offsets.contains(&expression.span.start) {
                return None;
            }
            if arguments.len() != 0 {
                return None;
            }
            let name = match method {
                MemberSelector::Identifier(name) => name,
                _ => return None,
            };
            let object_id = match get_expression_id(object, this_class_name) {
                Some(o) => o,
                None => match get_stable_method_call_advisory_id(object, this_class_name, stable_method_call_offsets) {
                    Some(o) => o,
                    None => return None,
                },
            };
            let mut id = object_id;
            append(&mut id, &[45u8, 62u8]);
            append(&mut id, name.as_slice());
            append(&mut id, &[40u8, 41u8]);
            assert(id@ =~= object_id@ + arrow() + name@ + seq![40u8, 41u8]);
            Some(id)
        },
        _ => None,
    }
}

/// `derived` continues `base` with `:`, `-` or `[` (the first byte of `::`, `->` or `[`).
pub open spec fn spec_is_derived_access_path(derived: Seq<u8>, base: Seq<u8>) -> bool {
    &&& base.len() < derived.len()
    &&& derived.subrange(0, base.len() as int) == base
    &&& (derived[base.len() as int] == 58u8 || derived[base.len() as int] == 45u8 || derived[base.len() as int] == 91u8)
}

/// Tells whether `derived_path` reads a member or an element of `base_path`.
pub fn is_derived_access_path(derived_path: &[u8], base_path: &[u8]) -> (r: bool)
    ensures
        r == spec_is_derived_access_path(derived_path@, base_path@),
{
    if base_path.len() >= derived_path.len() {
        return false;
    }
    let mut k: usize = 0;
    while k < base_path.len()
        invariant
            base_path.len() < derived_path.len(),
            k <= base_path.len(),
            derived_path@.subrange(0, k as int) == base_path@.subrange(0, k as int),
        decreases base_path.len() - k,
    {
        if derived_path[k] != base_path[k] {
            assert(derived_path@.subrange(0, base_path.len() as int)[k as int] != base_path@[k as int]);
            return false;
        }
        k += 1;
        assert(derived_path@.subrange(0, k as int) =~= base_path@.subrange(0, k as int));
    }
    assert(base_path@.subrange(0, base_path.len() as int) =~= base_path@);
    let b = derived_path[base_path.len()];
    b == 58u8 || b == 45u8 || b == 91u8
}

/// The identifier of a property fetch, a static property, a class constant
/// or an array element is an access path derived from the identifier of the
/// object, class or array it reads. A null-safe fetch `$a?->b` is left out:
/// its divider starts with `?`, which the derivation test does not accept.
pub proof fn lemma_access_ids_are_derived(e: Expr, this: Option<Seq<u8>>)
    ensures
        match e.kind {
            ExprKind::PropertyAccess { object, null_safe, .. } => !null_safe ==> (spec_expression_id(e, this) matches Some(id)
                ==> spec_is_derived_access_path(id, spec_expression_id(*object, this).unwrap())),
            ExprKind::ArrayAccess { array, .. } => spec_expression_id(e, this) matches Some(id)
                ==> spec_is_derived_access_path(id, spec_expression_id(*array, this).unwrap()),
            ExprKind::StaticPropertyAccess { class, .. } => spec_expression_id(e, this) matches Some(id)
                ==> spec_is_derived_access_path(id, spec_extended_id(*class, this, true).unwrap()),
            ExprKind::ClassConstantAccess { class, .. } => spec_expression_id(e, this) matches Some(id)
                ==> spec_is_derived_access_path(id, spec_extended_id(*class, this, true).unwrap()),
            _ => true,
        },
{
    match e.kind {
        ExprKind::PropertyAccess { object, property, null_safe } => {
            if let Some(id) = spec_expression_id(e, this) {
                let o = spec_expression_id(*object, this).unwrap();
                let p = spec_selector_id(property, this).unwrap();
                let a = if null_safe { null_safe_arrow() } else { arrow() };
                assert(id == o + a + p);
                assert(id.subrange(0, o.len() as int) =~= o);
                assert(id[o.len() as int] == a[0]);
            }
        },
        ExprKind::ArrayAccess { array, index } => {
            if let Some(id) = spec_expression_id(e, this) {
                let a = spec_expression_id(*array, this).unwrap();
                let i = spec_index_id(*index, this).unwrap();
                assert(id == a + seq![91u8] + i + seq![93u8]);
                assert(id.subrange(0, a.len() as int) =~= a);
                assert(id[a.len() as int] == 91u8);
            }
        },
        ExprKind::StaticPropertyAccess { class, property } => {
            if let Some(id) = spec_expression_id(e, this) {
                let c = spec_extended_id(*class, this, true).unwrap();
                let p = variable_id(property).unwrap();
                assert(id == c + double_colon() + p);
                assert(id.subrange(0, c.len() as int) =~= c);
                assert(id[c.len() as int] == 58u8);
            }
        },
        ExprKind::ClassConstantAccess { class, constant } => {
            if let Some(id) = spec_expression_id(e, this) {
                let c = spec_extended_id(*class, this, true).unwrap();
                let k = spec_constant_selector_id(constant, this).unwrap();
                assert(id == c + double_colon() + k);
                assert(id.subrange(0, c.len() as int) =~= c);
                assert(id[c.len() as int] == 58u8);
            }
        },
        _ => {},
    }
}

/// The root variable of an access path is where its identifier starts: when
/// an expression has both, the root is a prefix of the identifier.
pub proof fn lemma_root_id_prefixes_expression_id(e: Expr, this: Option<Seq<u8>>, solve: bool)
    ensures
        spec_root_id(e) matches Some(r) ==> (spec_extended_id(e, this, solve) matches Some(id) ==> (
            r.len() <= id.len() && id.subrange(0, r.len() as int) == r)),
    decreases e,
{
    match e.kind {
        ExprKind::Parenthesized(inner) => {
            lemma_root_id_prefixes_expression_id(*inner, this, solve);
        },
        ExprKind::Variable(_) => {
            if let Some(id) = spec_extended_id(e, this, solve) {
                assert(id.subrange(0, id.len() as int) =~= id);
            }
        },
        ExprKind::ArrayAccess { array, index } => {
            lemma_root_id_prefixes_expression_id(*array, this, false);
            if let (Some(r), Some(id)) = (spec_root_id(e), spec_extended_id(e, this, solve)) {
                let a = spec_extended_id(*array, this, false).unwrap();
                let i = spec_index_id(*index, this).unwrap();
                assert(id == a + seq![91u8] + i + seq![93u8]);
                assert(id.subrange(0, r.len() as int) =~= a.subrange(0, r.len() as int));
            }
        },
        ExprKind::PropertyAccess { object, property, null_safe } => {
            lemma_root_id_prefixes_expression_id(*object, this, false);
            if let (Some(r), Some(id)) = (spec_root_id(e), spec_extended_id(e, this, solve)) {
                let o = spec_extended_id(*object, this, false).unwrap();
                let p = spec_selector_id(property, this).unwrap();
                let a = if null_safe { null_safe_arrow() } else { arrow() };
                assert(id == o + a + p);
                assert(id.subrange(0, r.len() as int) =~= o.subrange(0, r.len() as int));
            }
        },
        ExprKind::StaticPropertyAccess { class, property } => {
            lemma_root_id_prefixes_expression_id(*class, this, true);
            if let (Some(r), Some(id)) = (spec_root_id(e), spec_extended_id(e, this, solve)) {
                let c = spec_extended_id(*class, this, true).unwrap();
                let p = variable_id(property).unwrap();
                assert(id == c + double_colon() + p);
                assert(id.subrange(0, r.len() as int) =~= c.subrange(0, r.len() as int));
            }
        },
        ExprKind::ClassConstantAccess { class, constant } => {
            lemma_root_id_prefixes_expression_id(*class, this, true);
            if let (Some(r), Some(id)) = (spec_root_id(e), spec_extended_id(e, this, solve)) {
                let c = spec_extended_id(*class, this, true).unwrap();
                let k = spec_constant_selector_id(constant, this).unwrap();
                assert(id == c + double_colon() + k);
                assert(id.subrange(0, r.len() as int) =~= c.subrange(0, r.len() as int));
            }
        },
        _ => {},
    }
}

} // verus!
