//! The graph of variables bound by reference (`$b = &$a`) that type
//! reconciliation builds before it narrows types, so that a narrowing of one
//! variable reaches the variables that share its value.
use vstd::prelude::*;
use std::collections::BTreeMap;
use std::collections::BTreeSet;
use vstd::std_specs::iter::IteratorSpec;

verus! {

/// For each variable (an interned symbol), the variables it shares its
/// value with.
pub type ReferenceGraph = BTreeMap<u64, BTreeSet<u64>>;

pub open spec fn reference_view(g: ReferenceGraph) -> Map<u64, Set<u64>> {
    g@.map_values(|s: BTreeSet<u64>| s@)
}

/// The variables linked to `k` (none when `k` has no entry).
pub open spec fn linked(g: Map<u64, Set<u64>>, k: u64) -> Set<u64> {
    if g.contains_key(k) { g[k] } else { Set::empty() }
}

/// `x` is linked to `y` (the entry of `x` is made where it is missing).
pub open spec fn with_link(g: Map<u64, Set<u64>>, x: u64, y: u64) -> Map<u64, Set<u64>> {
    g.insert(x, linked(g, x).insert(y))
}

/// Each variable of `others` is linked to `a` and `a` to each of them.
pub open spec fn with_links_to(g: Map<u64, Set<u64>>, a: u64, others: Set<u64>) -> Map<u64, Set<u64>> {
    Map::new(
        |k: u64| g.contains_key(k) || others.contains(k),
        |k: u64| {
            let s = if others.contains(k) { linked(g, k).insert(a) } else { linked(g, k) };
            if k == a { s.union(others) } else { s }
        },
    )
}

/// Recording that `reference` refers to `referenced`: the reference is
/// linked to the referenced variable, the reference and each variable the
/// referenced one is then linked to are linked both ways, and the
/// referenced variable is linked back to the reference.
pub open spec fn with_reference(g: Map<u64, Set<u64>>, reference: u64, referenced: u64) -> Map<u64, Set<u64>> {
    let g1 = with_link(g, reference, referenced);
    with_link(with_links_to(g1, reference, linked(g1, referenced)), referenced, reference)
}

/// The graph built from the references in scope, taken in the given order.
pub open spec fn references_graph(references: Seq<(u64, u64)>) -> Map<u64, Set<u64>>
    decreases references.len(),
{
    if references.len() == 0 {
        Map::empty()
    } else {
        let (reference, referenced) = references.last();
        with_reference(references_graph(references.drop_last()), reference, referenced)
    }
}

proof fn lemma_symbols_totally_ordered()
    ensures
        vstd::laws_cmp::obeys_cmp::<u64>(),
{
    broadcast use vstd::laws_cmp::group_laws_cmp;
}

fn link(g: &mut ReferenceGraph, x: u64, y: u64)
    ensures
        reference_view(*final(g)) == with_link(reference_view(*old(g)), x, y),
{
    broadcast use vstd::std_specs::btree::group_btree_axioms;
    proof { lemma_symbols_totally_ordered(); }
    let mut s = match g.get(&x) {
        Some(s) => s.clone(),
        None => BTreeSet::new(),
    };
    s.insert(y);
    let ghost before = reference_view(*g);
    g.insert(x, s);
    assert(reference_view(*g) =~= with_link(before, x, y));
}

proof fn lemma_links_to_step(g: Map<u64, Set<u64>>, a: u64, others: Set<u64>, x: u64)
    requires
        g.contains_key(a),
    ensures
        with_link(with_link(with_links_to(g, a, others), x, a), a, x) == with_links_to(g, a, others.insert(x)),
{
    let lhs = with_link(with_link(with_links_to(g, a, others), x, a), a, x);
    let rhs = with_links_to(g, a, others.insert(x));
    let l = with_links_to(g, a, others);
    assert(l.contains_key(a));
    assert(lhs.dom() =~= rhs.dom());
    assert forall|k: u64| lhs.contains_key(k) implies lhs[k] =~= rhs[k] by {
        assert(l.contains_key(k) ==> l[k] == (if k == a {
            (if others.contains(k) { linked(g, k).insert(a) } else { linked(g, k) }).union(others)
        } else {
            if others.contains(k) { linked(g, k).insert(a) } else { linked(g, k) }
        }));
    }
    assert(lhs =~= rhs);
}

/// Links `a` and each variable of `others` both ways.
fn link_all(g: &mut ReferenceGraph, a: u64, others: &BTreeSet<u64>)
    requires
        reference_view(*old(g)).contains_key(a),
    ensures
        reference_view(*final(g)) == with_links_to(reference_view(*old(g)), a, others@),
{
    broadcast use vstd::std_specs::btree::group_btree_axioms;
    proof { lemma_symbols_totally_ordered(); }
    let ghost g0 = reference_view(*g);
    assert(with_links_to(g0, a, Set::empty()) =~= g0) by {
        assert forall|k: u64| g0.contains_key(k) implies with_links_to(g0, a, Set::empty())[k] =~= g0[k] by {}
    }
    let others_iter = others.iter();
    let ghost all = others_iter.remaining();
    assert(all.unref().take(0) =~= Seq::<u64>::empty());
    assert(Seq::<u64>::empty().to_set() =~= Set::<u64>::empty());
    for x in it: others_iter
        invariant
            g0.contains_key(a),
            it.seq() == all,
            all.unref().to_set() == others@,
            reference_view(*g) == with_links_to(g0, a, all.unref().take(it.index() as int).to_set()),
    {
        let ghost k = it.index() as int;
        let ghost done = all.unref().take(k).to_set();
        proof {
            assert(*x == all.unref()[k]);
            assert(all.unref().take(k + 1) =~= all.unref().take(k).push(*x));
            all.unref().take(k).lemma_push_to_set_commute(*x);
            lemma_links_to_step(g0, a, done, *x);
        }
        link(g, *x, a);
        link(g, a, *x);
    }
    proof {
        assert(all.unref().take(all.len() as int) =~= all.unref());
    }
}

/// Builds the reference graph from the references in scope, each pair
/// (reference, referenced variable) taken in the order given.
pub fn build_reference_graph(references: &Vec<(u64, u64)>) -> (g: ReferenceGraph)
    ensures
        reference_view(g) == references_graph(references@),
{
    broadcast use vstd::std_specs::btree::group_btree_axioms;
    let mut g: ReferenceGraph = BTreeMap::new();
    assert(reference_view(g) =~= Map::<u64, Set<u64>>::empty());
    let mut i: usize = 0;
    while i < references.len()
        invariant
            i <= references.len(),
            reference_view(g) == references_graph(references@.take(i as int)),
        decreases references.len() - i,
    {
        let (reference, referenced) = references[i];
        proof {
            assert(references@.take((i + 1) as int).drop_last() =~= references@.take(i as int));
        }
        link(&mut g, reference, referenced);
        let linked_now = match g.get(&referenced) {
            Some(s) => s.clone(),
            None => BTreeSet::new(),
        };
        link_all(&mut g, reference, &linked_now);
        link(&mut g, referenced, reference);
        i = i + 1;
    }
    proof {
        assert(references@.take(references.len() as int) =~= references@);
    }
    g
}

/// Every link goes both ways.
pub open spec fn symmetric(g: Map<u64, Set<u64>>) -> bool {
    forall|x: u64, y: u64| #[trigger] linked(g, x).contains(y) ==> #[trigger] linked(g, y).contains(x)
}

proof fn lemma_reference_keeps_symmetry(g: Map<u64, Set<u64>>, a: u64, b: u64)
    requires
        symmetric(g),
    ensures
        symmetric(with_reference(g, a, b)),
{
    let g1 = with_link(g, a, b);
    let e = linked(g1, b);
    let g2 = with_links_to(g1, a, e);
    let g3 = with_link(g2, b, a);
    assert(g1.contains_key(a));
    assert forall|k: u64| #![trigger linked(g2, k)] linked(g2, k) == (if k == a {
        (if e.contains(k) { linked(g1, k).insert(a) } else { linked(g1, k) }).union(e)
    } else {
        if e.contains(k) { linked(g1, k).insert(a) } else { linked(g1, k) }
    }) by {}
    assert forall|x: u64, y: u64| #[trigger] linked(g3, x).contains(y) implies #[trigger] linked(g3, y).contains(x) by {
        assert(linked(g2, x) == (if x == a {
            (if e.contains(x) { linked(g1, x).insert(a) } else { linked(g1, x) }).union(e)
        } else {
            if e.contains(x) { linked(g1, x).insert(a) } else { linked(g1, x) }
        }));
        assert(linked(g2, y) == (if y == a {
            (if e.contains(y) { linked(g1, y).insert(a) } else { linked(g1, y) }).union(e)
        } else {
            if e.contains(y) { linked(g1, y).insert(a) } else { linked(g1, y) }
        }));
        if linked(g, x).contains(y) {
            assert(linked(g, y).contains(x));
        }
        if x == b && !linked(g, b).contains(y) && y != a && linked(g1, b).contains(y) {
            assert(linked(g, b).contains(y));
        }
    }
}

/// Whatever the references in scope and the order they are taken in, a
/// variable linked to another is linked back to it.
pub proof fn lemma_reference_graph_is_symmetric(references: Seq<(u64, u64)>)
    ensures
        symmetric(references_graph(references)),
    decreases references.len(),
{
    if references.len() == 0 {
        assert forall|x: u64, y: u64| #[trigger] linked(references_graph(references), x).contains(y) implies #[trigger] linked(references_graph(references), y).contains(x) by {}
    } else {
        lemma_reference_graph_is_symmetric(references.drop_last());
        let (reference, referenced) = references.last();
        lemma_reference_keeps_symmetry(references_graph(references.drop_last()), reference, referenced);
    }
}

} // verus!
