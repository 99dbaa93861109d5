//! Variable keys such as `$a['b']->c`: where an assertion on a key lands in
//! the array or object that holds it, and how a key is walked from its root.
use vstd::prelude::*;
use crate::expr::{arrow, double_colon};
use crate::expr_id::{append, bytes_of};
use crate::path::{break_up_path_into_parts, part_views, split_path};
use crate::text::{
    find_bytes, first_occurrence, has_prefix, parse_i64, parse_usize, regex_is_match, spec_parse_i64, all_digits, integer_pattern,
    spec_parse_usize, starts_with,
};

verus! {

/// `[`
pub open spec fn open_bracket() -> Seq<u8> {
    seq![91u8]
}

/// `]`
pub open spec fn close_bracket() -> Seq<u8> {
    seq![93u8]
}

/// `::$`
pub open spec fn static_arrow() -> Seq<u8> {
    seq![58u8, 58, 36]
}

/// The key is written in single or double quotes.
pub open spec fn is_quoted(k: Seq<u8>) -> bool {
    k.len() > 0 && (k[0] == 39 || k[0] == 34)
}

/// The key names a variable: `$i`.
pub open spec fn is_variable_key(k: Seq<u8>) -> bool {
    k.len() > 0 && k[0] == 36
}

/// A quote with nothing after it, which no closing quote ends.
pub open spec fn is_lone_quote(k: Seq<u8>) -> bool {
    k.len() == 1 && is_quoted(k)
}

/// The text between the quotes of a quoted key.
pub open spec fn unquoted(k: Seq<u8>) -> Seq<u8> {
    k.subrange(1, k.len() - 1)
}

/// `base[k]`
pub open spec fn item_key(base: Seq<u8>, k: Seq<u8>) -> Seq<u8> {
    base + open_bracket() + k + close_bracket()
}

/// `base->name`
pub open spec fn property_key(base: Seq<u8>, name: Seq<u8>) -> Seq<u8> {
    base + arrow() + name
}

/// A key of a keyed array.
#[derive(Debug)]
pub enum DictKey {
    String(Vec<u8>),
    Integer(i64),
}

pub enum DictKeyView {
    String(Seq<u8>),
    Integer(i64),
}

pub open spec fn dict_key_view(k: DictKey) -> DictKeyView {
    match k {
        DictKey::String(s) => DictKeyView::String(s@),
        DictKey::Integer(i) => DictKeyView::Integer(i),
    }
}

pub open spec fn opt_dict_key_view(k: Option<DictKey>) -> Option<DictKeyView> {
    match k {
        Some(k) => Some(dict_key_view(k)),
        None => None,
    }
}

/// The array item that an assertion on a key such as `$a['k']` narrows.
#[derive(Debug)]
pub struct ArrayItemTarget {
    /// The key of the array: `$a`.
    pub base_key: Vec<u8>,
    /// The array key as written: `'k'`.
    pub array_key: Vec<u8>,
    /// The array key is a variable (`$i`): no item can be named, only the
    /// array known to be non-empty.
    pub is_variable: bool,
    /// The item's key in a keyed array: the quoted text, else the key as a
    /// decimal `i64`.
    pub dict_key: Option<DictKey>,
    /// The item's position in a list: the key, without its quotes, as a decimal `usize`.
    pub list_index: Option<usize>,
    /// The array is itself an item of another array (`$a['j']['k']`).
    pub is_nested: bool,
}

/// The target of an assertion on the key made of `parts`: its last part closes
/// the access, the one before is the array key, the one before that opens it,
/// and the rest spell the array's key.
pub open spec fn spec_array_item_target(parts: Seq<Seq<u8>>) -> Option<(Seq<u8>, Seq<u8>, bool, Option<DictKeyView>, Option<usize>, bool)> {
    if parts.len() < 2 {
        None
    } else {
        let k = parts[parts.len() - 2];
        let rest = if parts.len() >= 3 { parts.subrange(0, parts.len() - 3) } else { Seq::empty() };
        let offset = if is_quoted(k) { unquoted(k) } else { k };
        let is_variable = is_variable_key(k);
        let dict_key = if is_variable {
            None
        } else if is_quoted(k) {
            Some(DictKeyView::String(offset))
        } else {
            match spec_parse_i64(offset) {
                Some(v) => Some(DictKeyView::Integer(v)),
                None => None,
            }
        };
        let list_index = if is_variable { None } else { spec_parse_usize(offset) };
        let is_nested = rest.len() > 0 && rest.last() == close_bracket();
        Some((rest.flatten(), k, is_variable, dict_key, list_index, is_nested))
    }
}

pub open spec fn target_view(t: ArrayItemTarget) -> (Seq<u8>, Seq<u8>, bool, Option<DictKeyView>, Option<usize>, bool) {
    (t.base_key@, t.array_key@, t.is_variable, opt_dict_key_view(t.dict_key), t.list_index, t.is_nested)
}

pub open spec fn parts_view(parts: Seq<Vec<u8>>) -> Seq<Seq<u8>> {
    parts.map_values(|p: Vec<u8>| p@)
}

/// A part made of one byte.
fn is_single(part: &[u8], b: u8) -> (r: bool)
    ensures
        r == (part@ == seq![b]),
{
    let r = part.len() == 1 && part[0] == b;
    proof {
        if part@.len() == 1 && part@[0] == b {
            assert(part@ =~= seq![b]);
        }
    }
    r
}

fn is_quoted_exec(k: &[u8]) -> (r: bool)
    ensures
        r == is_quoted(k@),
{
    k.len() > 0 && (k[0] == 39 || k[0] == 34)
}

/// The bytes of `k` between its first and last.
fn inner_bytes(k: &[u8]) -> (r: Vec<u8>)
    requires
        k@.len() >= 2,
    ensures
        r@ == unquoted(k@),
{
    let mut r: Vec<u8> = Vec::new();
    let mut i: usize = 1;
    while i < k.len() - 1
        invariant
            k@.len() >= 2,
            1 <= i <= k@.len() - 1,
            r@ == k@.subrange(1, i as int),
        decreases k.len() - i,
    {
        r.push(k[i]);
        i += 1;
        assert(r@ =~= k@.subrange(1, i as int));
    }
    r
}

/// The parts from `0` to `end`, put together.
fn join_parts(parts: &Vec<Vec<u8>>, end: usize) -> (r: Vec<u8>)
    requires
        end <= parts@.len(),
    ensures
        r@ == parts_view(parts@).subrange(0, end as int).flatten(),
{
    broadcast use Seq::lemma_flatten_push;
    let mut r: Vec<u8> = Vec::new();
    let mut i: usize = 0;
    assert(parts_view(parts@).subrange(0, 0) =~= Seq::<Seq<u8>>::empty());
    while i < end
        invariant
            end <= parts@.len(),
            i <= end,
            r@ == parts_view(parts@).subrange(0, i as int).flatten(),
        decreases end - i,
    {
        let ghost before = r@;
        append(&mut r, parts[i].as_slice());
        proof {
            let prefix = parts_view(parts@).subrange(0, i as int);
            assert(parts_view(parts@).subrange(0, i + 1) =~= prefix.push(parts[i as int]@));
            prefix.lemma_flatten_push(parts[i as int]@);
            assert(r@ == before + parts[i as int]@);
        }
        i += 1;
    }
    r
}

/// Where an assertion on the key made of `key_parts` lands when the key
/// accesses an array item: the array's key, the item's key in keyed arrays
/// and its position in lists. `None` when there are fewer than two parts.
pub fn array_item_target(key_parts: &Vec<Vec<u8>>) -> (r: Option<ArrayItemTarget>)
    requires
        key_parts@.len() >= 2 ==> !is_lone_quote(key_parts@[key_parts@.len() - 2]@),
    ensures
        match r {
            Some(t) => spec_array_item_target(parts_view(key_parts@)) == Some(target_view(t)),
            None => spec_array_item_target(parts_view(key_parts@)) is None,
        },
{
    let n = key_parts.len();
    if n < 2 {
        return None;
    }
    let k = key_parts[n - 2].as_slice();
    let rest_len: usize = if n >= 3 { n - 3 } else { 0 };
    let base_key = join_parts(key_parts, rest_len);
    let ghost parts = parts_view(key_parts@);
    proof {
        if n >= 3 {
            assert(parts.subrange(0, rest_len as int) == parts.subrange(0, parts.len() - 3));
        } else {
            assert(parts.subrange(0, 0) =~= Seq::<Seq<u8>>::empty());
        }
        assert(parts[n - 2] == k@);
    }
    let quoted = is_quoted_exec(k);
    let offset: Vec<u8> = if quoted { inner_bytes(k) } else { bytes_of(k) };
    let is_variable = k.len() > 0 && k[0] == 36;
    let dict_key = if is_variable {
        None
    } else if quoted {
        Some(DictKey::String(bytes_of(offset.as_slice())))
    } else {
        match parse_i64(offset.as_slice()) {
            Some(v) => Some(DictKey::Integer(v)),
            None => None,
        }
    };
    let list_index = if is_variable { None } else { parse_usize(offset.as_slice()) };
    let is_nested = rest_len > 0 && is_single(key_parts[rest_len - 1].as_slice(), 93);
    proof {
        if rest_len > 0 {
            assert(parts.subrange(0, rest_len as int).last() == parts[rest_len - 1]);
        }
    }
    Some(ArrayItemTarget { base_key, array_key: bytes_of(k), is_variable, dict_key, list_index, is_nested })
}

/// The object property that an assertion on a key such as `$a->p` narrows:
/// the object's key and the property's name; `None` unless the key ends in
/// `->` and a name.
pub open spec fn spec_property_target(parts: Seq<Seq<u8>>) -> Option<(Seq<u8>, Seq<u8>)> {
    if parts.len() < 2 || parts[parts.len() - 2] != arrow() {
        None
    } else {
        Some((parts.subrange(0, parts.len() - 2).flatten(), parts.last()))
    }
}

/// Where an assertion on the key made of `key_parts` lands when the key
/// reads an object property.
pub fn property_target(key_parts: &Vec<Vec<u8>>) -> (r: Option<(Vec<u8>, Vec<u8>)>)
    ensures
        match r {
            Some((base, name)) => spec_property_target(parts_view(key_parts@)) == Some((base@, name@)),
            None => spec_property_target(parts_view(key_parts@)) is None,
        },
{
    let n = key_parts.len();
    if n < 2 {
        return None;
    }
    let divider = key_parts[n - 2].as_slice();
    let is_arrow = divider.len() == 2 && divider[0] == 45 && divider[1] == 62;
    proof {
        if divider@.len() == 2 && divider@[0] == 45 && divider@[1] == 62 {
            assert(divider@ =~= arrow());
        }
        assert(parts_view(key_parts@)[n - 2] == divider@);
    }
    if !is_arrow {
        return None;
    }
    let base = join_parts(key_parts, n - 2);
    proof {
        assert(parts_view(key_parts@).last() == key_parts@[n - 1]@);
    }
    Some((base, bytes_of(key_parts[n - 1].as_slice())))
}

/// The position that an array key names in lists when a key is walked: a key
/// that the integer pattern matches (one or more ASCII digits), read as a
/// decimal `usize`.
pub open spec fn walk_list_index(k: Seq<u8>) -> Option<usize> {
    if all_digits(k) {
        spec_parse_usize(k)
    } else {
        None
    }
}

/// The key that an array key names in keyed arrays when a key is walked: its
/// position when it names one, else its text without quotes.
pub open spec fn walk_dict_key(k: Seq<u8>) -> DictKeyView {
    match walk_list_index(k) {
        Some(n) => DictKeyView::Integer(n as i64),
        None => if is_quoted(k) {
            DictKeyView::String(unquoted(k))
        } else {
            DictKeyView::String(k)
        },
    }
}

/// One step from a key to the key it holds.
#[derive(Debug)]
pub enum KeyStep {
    /// `[k]`: the key reached, the array key as written, and the item's key
    /// in keyed arrays and position in lists.
    ArrayItem { key: Vec<u8>, array_key: Vec<u8>, dict_key: DictKey, list_index: Option<usize> },
    /// `->name` or `::$name`: the key reached and the property's name.
    Property { key: Vec<u8>, name: Vec<u8> },
}

pub enum KeyStepView {
    ArrayItem { key: Seq<u8>, array_key: Seq<u8>, dict_key: DictKeyView, list_index: Option<usize> },
    Property { key: Seq<u8>, name: Seq<u8> },
}

pub open spec fn step_view(s: KeyStep) -> KeyStepView {
    match s {
        KeyStep::ArrayItem { key, array_key, dict_key, list_index } => KeyStepView::ArrayItem {
            key: key@,
            array_key: array_key@,
            dict_key: dict_key_view(dict_key),
            list_index,
        },
        KeyStep::Property { key, name } => KeyStepView::Property { key: key@, name: name@ },
    }
}

pub open spec fn steps_view(steps: Seq<KeyStep>) -> Seq<KeyStepView> {
    steps.map_values(|s: KeyStep| step_view(s))
}

/// The steps of a walk from part `i` on, from the key `base`, and whether the
/// walk reaches the end of the parts: it stops at a divider that names no
/// step, or at one with nothing after it. After an array key the next part
/// is passed over as its closing bracket.
pub open spec fn spec_walk_steps(parts: Seq<Seq<u8>>, i: int, base: Seq<u8>) -> (Seq<KeyStepView>, bool)
    decreases (if i < parts.len() { parts.len() - i } else { 0 }),
{
    if i < 0 || i >= parts.len() {
        (Seq::empty(), true)
    } else if parts[i] == open_bracket() {
        if i + 1 >= parts.len() {
            (Seq::empty(), false)
        } else {
            let k = parts[i + 1];
            let key = item_key(base, k);
            let rest = spec_walk_steps(parts, i + 3, key);
            (seq![KeyStepView::ArrayItem { key, array_key: k, dict_key: walk_dict_key(k), list_index: walk_list_index(k) }] + rest.0, rest.1)
        }
    } else if parts[i] == arrow() || parts[i] == static_arrow() {
        if i + 1 >= parts.len() {
            (Seq::empty(), false)
        } else {
            let name = parts[i + 1];
            let key = property_key(base, name);
            let rest = spec_walk_steps(parts, i + 2, key);
            (seq![KeyStepView::Property { key, name }] + rest.0, rest.1)
        }
    } else {
        (Seq::empty(), false)
    }
}

/// A walk from part `i` on meets an array key that is a lone quote.
pub open spec fn walk_meets_lone_quote(parts: Seq<Seq<u8>>, i: int) -> bool
    decreases (if i < parts.len() { parts.len() - i } else { 0 }),
{
    if i < 0 || i + 1 >= parts.len() {
        false
    } else if parts[i] == open_bracket() {
        is_lone_quote(parts[i + 1]) || walk_meets_lone_quote(parts, i + 3)
    } else if parts[i] == arrow() || parts[i] == static_arrow() {
        walk_meets_lone_quote(parts, i + 2)
    } else {
        false
    }
}

/// Where a walk starts: the first part, joined with a following `::$` part
/// and the name after it when the first part is not a variable (`A::$b`);
/// and the part the steps begin at.
pub open spec fn walk_base(parts: Seq<Seq<u8>>) -> (Seq<u8>, int) {
    if !is_variable_key(parts[0]) && parts.len() > 3 && has_prefix(parts[1], static_arrow()) {
        (parts[0] + parts[1] + parts[2], 3)
    } else {
        (parts[0], 1)
    }
}

/// The class and constant that a base key such as `A::B` may name: the text
/// before and after its first `::`.
pub open spec fn spec_class_constant(base: Seq<u8>) -> Option<(Seq<u8>, Seq<u8>)> {
    match first_occurrence(base, double_colon()) {
        Some(sep) => Some((base.subrange(0, sep), base.subrange(sep + 2, base.len() as int))),
        None => None,
    }
}

/// How a key of two or more parts is read from its root: the base key, the
/// constant it may name, the steps and whether they reach the key's end.
pub open spec fn spec_key_walk(key: Seq<u8>) -> Option<(Seq<u8>, Option<(Seq<u8>, Seq<u8>)>, Seq<KeyStepView>, bool)> {
    let parts = split_path(key);
    if parts.len() < 2 {
        None
    } else {
        let (base, start) = walk_base(parts);
        let (steps, complete) = spec_walk_steps(parts, start, base);
        Some((base, spec_class_constant(base), steps, complete))
    }
}

/// A key read from its root.
#[derive(Debug)]
pub struct KeyWalk {
    /// The key the walk starts from.
    pub base_key: Vec<u8>,
    /// The class and constant the base key may name, when it has a `::`.
    pub class_constant: Option<(Vec<u8>, Vec<u8>)>,
    pub steps: Vec<KeyStep>,
    /// The steps reach the end of the key.
    pub complete: bool,
}

pub open spec fn opt_pair_view(p: Option<(Vec<u8>, Vec<u8>)>) -> Option<(Seq<u8>, Seq<u8>)> {
    match p {
        Some((a, b)) => Some((a@, b@)),
        None => None,
    }
}

pub open spec fn walk_view(w: KeyWalk) -> (Seq<u8>, Option<(Seq<u8>, Seq<u8>)>, Seq<KeyStepView>, bool) {
    (w.base_key@, opt_pair_view(w.class_constant), steps_view(w.steps@), w.complete)
}

/// The decimal position an array key names, when the integer pattern
/// matches it.
fn walk_index(k: &[u8]) -> (r: Option<usize>)
    ensures
        r == walk_list_index(k@),
{
    let pattern = "^[0-9]+$";
    proof {
        assert(pattern@ == integer_pattern());
    }
    match regex_is_match(pattern, k) {
        Some(true) => parse_usize(k),
        _ => None,
    }
}

fn class_constant_of(base: &[u8]) -> (r: Option<(Vec<u8>, Vec<u8>)>)
    ensures
        opt_pair_view(r) == spec_class_constant(base@),
{
    let colons: [u8; 2] = [58u8, 58u8];
    assert(colons@ =~= double_colon());
    match find_bytes(base, colons.as_slice()) {
        Some(sep) => {
            assert(sep + 2 <= base@.len());
            let mut class: Vec<u8> = Vec::new();
            let mut constant: Vec<u8> = Vec::new();
            let mut k: usize = 0;
            while k < sep
                invariant
                    sep + 2 <= base@.len(),
                    k <= sep,
                    class@ == base@.subrange(0, k as int),
                decreases sep - k,
            {
                class.push(base[k]);
                k += 1;
                assert(class@ =~= base@.subrange(0, k as int));
            }
            let len = base.len();
            assert(sep + 2 <= len);
            let mut k: usize = sep + 2;
            while k < base.len()
                invariant
                    sep + 2 <= k <= base@.len(),
                    constant@ == base@.subrange(sep + 2, k as int),
                decreases base.len() - k,
            {
                constant.push(base[k]);
                k += 1;
                assert(constant@ =~= base@.subrange(sep + 2, k as int));
            }
            Some((class, constant))
        },
        None => None,
    }
}

/// The step into the item `k` of the array at key `base`, and the key it reaches.
fn array_step(base: &[u8], k: &[u8]) -> (r: (KeyStep, Vec<u8>))
    requires
        !is_lone_quote(k@),
    ensures
        r.1@ == item_key(base@, k@),
        step_view(r.0) == (KeyStepView::ArrayItem {
            key: item_key(base@, k@),
            array_key: k@,
            dict_key: walk_dict_key(k@),
            list_index: walk_list_index(k@),
        }),
{
    let index = walk_index(k);
    let dict_key = match index {
        Some(n) => DictKey::Integer(n as i64),
        None => if is_quoted_exec(k) {
            DictKey::String(inner_bytes(k))
        } else {
            DictKey::String(bytes_of(k))
        },
    };
    let mut key_reached = bytes_of(base);
    key_reached.push(91);
    append(&mut key_reached, k);
    key_reached.push(93);
    assert(key_reached@ =~= item_key(base@, k@));
    (KeyStep::ArrayItem { key: bytes_of(key_reached.as_slice()), array_key: bytes_of(k), dict_key, list_index: index }, key_reached)
}

/// The step into the property `name` of the object at key `base`, and the key it reaches.
fn property_step(base: &[u8], name: &[u8]) -> (r: (KeyStep, Vec<u8>))
    ensures
        r.1@ == property_key(base@, name@),
        step_view(r.0) == (KeyStepView::Property { key: property_key(base@, name@), name: name@ }),
{
    let mut key_reached = bytes_of(base);
    key_reached.push(45);
    key_reached.push(62);
    append(&mut key_reached, name);
    assert(key_reached@ =~= property_key(base@, name@));
    (KeyStep::Property { key: bytes_of(key_reached.as_slice()), name: bytes_of(name) }, key_reached)
}

/// Reads a key of two or more parts from its root, as the reconciler does
/// when it looks a key up: the base key (`$a`, or `A::$b` joined), the class
/// constant the base may name, and one step per array item or property
/// until the key ends or a part names no step. `None` for a key of fewer
/// than two parts, which is looked up as it is.
pub fn plan_key_walk(key: &[u8]) -> (r: Option<KeyWalk>)
    requires
        split_path(key@).len() >= 2 ==> !walk_meets_lone_quote(split_path(key@), walk_base(split_path(key@)).1),
    ensures
        match r {
            Some(w) => spec_key_walk(key@) == Some(walk_view(w)),
            None => spec_key_walk(key@) is None,
        },
{
    let parts = break_up_path_into_parts(key);
    let ghost ps = split_path(key@);
    proof {
        assert(part_views(parts@) =~= parts_view(parts@));
    }
    if parts.len() < 2 {
        return None;
    }
    let first = parts[0].as_slice();
    let joined = !(first.len() > 0 && first[0] == 36) && parts.len() > 3 && starts_with(parts[1].as_slice(), &[58u8, 58u8, 36u8]);
    proof {
        assert(ps[0] == first@);
        let lit: [u8; 3] = [58u8, 58u8, 36u8];
        assert(lit@ =~= static_arrow());
    }
    let mut base: Vec<u8> = bytes_of(first);
    let mut i: usize = 1;
    if joined {
        append(&mut base, parts[1].as_slice());
        append(&mut base, parts[2].as_slice());
        i = 3;
    }
    assert(walk_base(ps) == (base@, i as int));
    let class_constant = class_constant_of(base.as_slice());
    let base_key = bytes_of(base.as_slice());
    let ghost target = spec_walk_steps(ps, i as int, base@);
    let mut steps: Vec<KeyStep> = Vec::new();
    let mut complete = true;
    assert(steps_view(steps@) =~= Seq::<KeyStepView>::empty());
    while i < parts.len()
        invariant_except_break
            target.0 == steps_view(steps@) + spec_walk_steps(ps, i as int, base@).0,
            target.1 == spec_walk_steps(ps, i as int, base@).1,
            !walk_meets_lone_quote(ps, i as int),
            complete,
        invariant
            ps == parts_view(parts@),
            1 <= i,
        ensures
            target == (steps_view(steps@), complete),
        decreases parts.len() - i,
    {
        let divider = parts[i].as_slice();
        assert(ps[i as int] == divider@);
        if is_single(divider, 91) {
            if i + 1 >= parts.len() {
                complete = false;
                break;
            }
            let k = parts[i + 1].as_slice();
            assert(ps[i + 1] == k@);
            let (step, key_reached) = array_step(base.as_slice(), k);
            let ghost before = steps@;
            steps.push(step);
            proof {
                assert(steps_view(steps@) =~= steps_view(before).push(step_view(steps@.last())));
            }
            let ghost rest = spec_walk_steps(ps, i + 3, key_reached@);
            proof {
                assert(steps_view(before) + (seq![step_view(steps@.last())] + rest.0) =~= steps_view(steps@) + rest.0);
            }
            base = key_reached;
            i = if parts.len() - i > 3 { i + 3 } else { parts.len() };
            assert(spec_walk_steps(ps, i as int, base@) == rest);
        } else {
            let is_arrow = divider.len() == 2 && divider[0] == 45 && divider[1] == 62;
            let is_static = divider.len() == 3 && divider[0] == 58 && divider[1] == 58 && divider[2] == 36;
            proof {
                if divider@.len() == 2 && divider@[0] == 45 && divider@[1] == 62 {
                    assert(divider@ =~= arrow());
                }
                if divider@.len() == 3 && divider@[0] == 58 && divider@[1] == 58 && divider@[2] == 36 {
                    assert(divider@ =~= static_arrow());
                }
            }
            if !is_arrow && !is_static {
                complete = false;
                break;
            }
            if i + 1 >= parts.len() {
                complete = false;
                break;
            }
            let name = parts[i + 1].as_slice();
            assert(ps[i + 1] == name@);
            let (step, key_reached) = property_step(base.as_slice(), name);
            let ghost before = steps@;
            steps.push(step);
            proof {
                assert(steps_view(steps@) =~= steps_view(before).push(step_view(steps@.last())));
            }
            let ghost rest = spec_walk_steps(ps, i + 2, key_reached@);
            proof {
                assert(steps_view(before) + (seq![step_view(steps@.last())] + rest.0) =~= steps_view(steps@) + rest.0);
            }
            base = key_reached;
            i = i + 2;
        }
    }
    Some(KeyWalk { base_key, class_constant, steps, complete })
}

/// The key a step reaches.
pub open spec fn step_key(s: KeyStepView) -> Seq<u8> {
    match s {
        KeyStepView::ArrayItem { key, .. } => key,
        KeyStepView::Property { key, .. } => key,
    }
}

proof fn lemma_prefix_transitive(a: Seq<u8>, b: Seq<u8>, c: Seq<u8>)
    requires
        has_prefix(a, b),
        has_prefix(b, c),
    ensures
        has_prefix(a, c),
{
    assert(a.subrange(0, c.len() as int) =~= b.subrange(0, c.len() as int));
}

proof fn lemma_extension_prefix(base: Seq<u8>, rest: Seq<u8>)
    ensures
        has_prefix(base + rest, base),
{
    assert((base + rest).subrange(0, base.len() as int) =~= base);
}

/// A walk only ever extends a key: each key it reaches begins with the key
/// it starts from and with every key it reached before.
pub proof fn lemma_walk_extends_keys(parts: Seq<Seq<u8>>, i: int, base: Seq<u8>)
    ensures
        forall|j: int| 0 <= j < spec_walk_steps(parts, i, base).0.len()
            ==> has_prefix(#[trigger] step_key(spec_walk_steps(parts, i, base).0[j]), base),
        forall|j: int, k: int| 0 <= j < k < spec_walk_steps(parts, i, base).0.len()
            ==> has_prefix(#[trigger] step_key(spec_walk_steps(parts, i, base).0[k]), #[trigger] step_key(spec_walk_steps(parts, i, base).0[j])),
    decreases (if i < parts.len() { parts.len() - i } else { 0 }),
{
    let steps = spec_walk_steps(parts, i, base).0;
    if i < 0 || i >= parts.len() {
    } else if parts[i] == open_bracket() {
        if i + 1 < parts.len() {
            let k = parts[i + 1];
            let key = item_key(base, k);
            lemma_walk_extends_keys(parts, i + 3, key);
            let rest = spec_walk_steps(parts, i + 3, key).0;
            assert(key == base + (open_bracket() + k + close_bracket()));
            lemma_extension_prefix(base, open_bracket() + k + close_bracket());
            assert(steps == seq![KeyStepView::ArrayItem { key, array_key: k, dict_key: walk_dict_key(k), list_index: walk_list_index(k) }] + rest);
            assert forall|j: int| 0 <= j < steps.len() implies has_prefix(#[trigger] step_key(steps[j]), base) by {
                if j > 0 {
                    assert(steps[j] == rest[j - 1]);
                    lemma_prefix_transitive(step_key(rest[j - 1]), key, base);
                }
            }
            assert forall|j: int, m: int| 0 <= j < m < steps.len() implies has_prefix(#[trigger] step_key(steps[m]), #[trigger] step_key(steps[j])) by {
                assert(steps[m] == rest[m - 1]);
                if j > 0 {
                    assert(steps[j] == rest[j - 1]);
                }
            }
        }
    } else if parts[i] == arrow() || parts[i] == static_arrow() {
        if i + 1 < parts.len() {
            let name = parts[i + 1];
            let key = property_key(base, name);
            lemma_walk_extends_keys(parts, i + 2, key);
            let rest = spec_walk_steps(parts, i + 2, key).0;
            assert(key == base + (arrow() + name));
            lemma_extension_prefix(base, arrow() + name);
            assert(steps == seq![KeyStepView::Property { key, name }] + rest);
            assert forall|j: int| 0 <= j < steps.len() implies has_prefix(#[trigger] step_key(steps[j]), base) by {
                if j > 0 {
                    assert(steps[j] == rest[j - 1]);
                    lemma_prefix_transitive(step_key(rest[j - 1]), key, base);
                }
            }
            assert forall|j: int, m: int| 0 <= j < m < steps.len() implies has_prefix(#[trigger] step_key(steps[m]), #[trigger] step_key(steps[j])) by {
                assert(steps[m] == rest[m - 1]);
                if j > 0 {
                    assert(steps[j] == rest[j - 1]);
                }
            }
        }
    }
}

} // verus!
