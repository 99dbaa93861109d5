use mago_analyzer::references::build_reference_graph;
use std::collections::{BTreeMap, BTreeSet};

fn graph(entries: &[(u64, &[u64])]) -> BTreeMap<u64, BTreeSet<u64>> {
    entries.iter().map(|(k, vs)| (*k, vs.iter().copied().collect())).collect()
}

fn is_symmetric(g: &BTreeMap<u64, BTreeSet<u64>>) -> bool {
    g.iter().all(|(x, ys)| ys.iter().all(|y| g.get(y).is_some_and(|back| back.contains(x))))
}

#[test]
fn one_reference_links_both_ways() {
    assert_eq!(build_reference_graph(&vec![(1, 2)]), graph(&[(1, &[2]), (2, &[1])]));
    assert!(build_reference_graph(&vec![]).is_empty());
}

#[test]
fn references_to_one_variable_link_each_other() {
    let g = build_reference_graph(&vec![(1, 2), (3, 2)]);
    assert_eq!(g, graph(&[(1, &[2, 3]), (2, &[1, 3]), (3, &[1, 2])]));
}

#[test]
fn chains_depend_on_the_order_of_the_references() {
    let g = build_reference_graph(&vec![(1, 2), (2, 3)]);
    assert_eq!(g, graph(&[(1, &[2]), (2, &[1, 3]), (3, &[2])]));
    let g = build_reference_graph(&vec![(2, 3), (1, 2)]);
    assert_eq!(g, graph(&[(1, &[2, 3]), (2, &[1, 3]), (3, &[1, 2])]));
    assert!(is_symmetric(&build_reference_graph(&vec![(5, 5), (1, 5), (2, 1), (3, 4), (4, 2)])));
}
