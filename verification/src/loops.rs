//! Decisions of loop analysis: how deep the loop's assignment dependencies
//! go, which issues depend on the iteration, whether a loop condition can
//! fail on entry, and the disjuncts of a condition.
use vstd::prelude::*;
use std::collections::BTreeMap;
use std::collections::BTreeSet;
use vstd::std_specs::cmp::OrdSpec;
use vstd::std_specs::iter::IteratorSpec;
use vstd::string::StringSliceAdditionalSpecFns;
use crate::expr::{BinaryOperator, Expr, ExprKind};
use crate::guards::bytes_eq;

verus! {

/// The variables each variable is assigned from inside a loop, as interned
/// variable symbols.
pub type AssignmentMap = BTreeMap<u64, BTreeSet<u64>>;

pub open spec fn graph_view(m: AssignmentMap) -> Map<u64, Set<u64>> {
    m@.map_values(|s: BTreeSet<u64>| s@)
}

pub open spec fn increasing(q: Seq<u64>) -> bool {
    forall|i: int, j: int| 0 <= i < j < q.len() ==> q[i] < q[j]
}

/// The elements of a finite set in increasing order.
pub open spec fn sorted_elements(s: Set<u64>) -> Seq<u64> {
    choose|q: Seq<u64>| increasing(q) && q.to_set() == s
}

proof fn lemma_increasing_unique(q1: Seq<u64>, q2: Seq<u64>)
    requires
        increasing(q1),
        increasing(q2),
        q1.to_set() == q2.to_set(),
    ensures
        q1 == q2,
    decreases q1.len(),
{
    if q1.len() == 0 {
        if q2.len() > 0 {
            assert(q2.to_set().contains(q2[0]));
        }
        assert(q1 =~= q2);
    } else {
        assert(q1.to_set().contains(q1[0]));
        assert(q2.len() > 0);
        let a = q1[0];
        let b = q2[0];
        assert(q2.to_set().contains(b));
        assert(q1.contains(b));
        assert(q2.contains(a));
        let i = choose|i: int| 0 <= i < q1.len() && q1[i] == b;
        let j = choose|j: int| 0 <= j < q2.len() && q2[j] == a;
        assert(a <= b);
        assert(b <= a);
        let t1 = q1.drop_first();
        let t2 = q2.drop_first();
        assert forall|x: u64| #[trigger] t1.to_set().contains(x) == t2.to_set().contains(x) by {
            if t1.contains(x) {
                let k = choose|k: int| 0 <= k < t1.len() && t1[k] == x;
                assert(q1[k + 1] == x);
                assert(q1.to_set().contains(x));
                assert(q2.contains(x));
                let l = choose|l: int| 0 <= l < q2.len() && q2[l] == x;
                assert(l != 0);
                assert(t2[l - 1] == x);
            }
            if t2.contains(x) {
                let k = choose|k: int| 0 <= k < t2.len() && t2[k] == x;
                assert(q2[k + 1] == x);
                assert(q2.to_set().contains(x));
                assert(q1.contains(x));
                let l = choose|l: int| 0 <= l < q1.len() && q1[l] == x;
                assert(l != 0);
                assert(t1[l - 1] == x);
            }
        }
        assert(t1.to_set() =~= t2.to_set());
        lemma_increasing_unique(t1, t2);
        assert(q1 =~= seq![a] + t1);
        assert(q2 =~= seq![b] + t2);
    }
}

/// The depth reached from `first` within a budget of graph nodes: zero
/// without depth left or when `first` has no assignments; otherwise `first`
/// is taken out of the graph and its sources are explored in increasing
/// order.
pub open spec fn spec_depth(first: u64, g: Map<u64, Set<u64>>, maximum: nat, budget: nat) -> (nat, Map<u64, Set<u64>>)
    decreases budget, 0nat, 0nat,
{
    if maximum == 0 || !g.dom().contains(first) || budget == 0 {
        (0, g)
    } else {
        spec_depth_sources(sorted_elements(g[first]), 0, g.remove(first), maximum, 0, (budget - 1) as nat)
    }
}

/// Exploring the sources of a variable from position `k` on, having reached
/// depth `best` so far. A source still in the graph adds its own depth when
/// depth is left; reaching `maximum` stops the walk.
pub open spec fn spec_depth_sources(
    sources: Seq<u64>,
    k: int,
    g: Map<u64, Set<u64>>,
    maximum: nat,
    best: nat,
    budget: nat,
) -> (nat, Map<u64, Set<u64>>)
    decreases budget, 1nat, sources.len() - k,
{
    if k < 0 || k >= sources.len() {
        (best, g)
    } else {
        let source = sources[k];
        let (depth, g2) = if 1 < maximum && g.dom().contains(source) {
            let (d, g2) = spec_depth(source, g, (maximum - 1) as nat, budget);
            ((1 + d) as nat, g2)
        } else {
            (1nat, g)
        };
        if depth > best {
            if depth >= maximum {
                (maximum, g2)
            } else {
                spec_depth_sources(sources, k + 1, g2, maximum, depth, budget)
            }
        } else {
            spec_depth_sources(sources, k + 1, g2, maximum, best, budget)
        }
    }
}

/// What a walk keeps: the depth never exceeds the maximum, and the graph
/// only loses variables, keeping the sources of the others.
pub proof fn lemma_depth_bounded(first: u64, g: Map<u64, Set<u64>>, maximum: nat, budget: nat)
    ensures
        spec_depth(first, g, maximum, budget).0 <= maximum,
        spec_depth(first, g, maximum, budget).1.dom().subset_of(g.dom()),
        forall|v: u64| #[trigger] spec_depth(first, g, maximum, budget).1.dom().contains(v) ==> spec_depth(
            first,
            g,
            maximum,
            budget,
        ).1[v] == g[v],
    decreases budget, 0nat, 0nat,
{
    if maximum == 0 || !g.dom().contains(first) || budget == 0 {
    } else {
        lemma_sources_bounded(sorted_elements(g[first]), 0, g.remove(first), maximum, 0, (budget - 1) as nat);
    }
}

proof fn lemma_sources_bounded(
    sources: Seq<u64>,
    k: int,
    g: Map<u64, Set<u64>>,
    maximum: nat,
    best: nat,
    budget: nat,
)
    requires
        best <= maximum,
    ensures
        spec_depth_sources(sources, k, g, maximum, best, budget).0 <= maximum,
        spec_depth_sources(sources, k, g, maximum, best, budget).1.dom().subset_of(g.dom()),
        forall|v: u64| #[trigger] spec_depth_sources(sources, k, g, maximum, best, budget).1.dom().contains(v)
            ==> spec_depth_sources(sources, k, g, maximum, best, budget).1[v] == g[v],
    decreases budget, 1nat, sources.len() - k,
{
    if k < 0 || k >= sources.len() {
    } else {
        let source = sources[k];
        if 1 < maximum && g.dom().contains(source) {
            lemma_depth_bounded(source, g, (maximum - 1) as nat, budget);
            let (d, g2) = spec_depth(source, g, (maximum - 1) as nat, budget);
            let depth = (1 + d) as nat;
            if depth > best {
                if depth < maximum {
                    lemma_sources_bounded(sources, k + 1, g2, maximum, depth, budget);
                }
            } else {
                lemma_sources_bounded(sources, k + 1, g2, maximum, best, budget);
            }
        } else {
            if 1 > best {
                if 1 < maximum {
                    lemma_sources_bounded(sources, k + 1, g, maximum, 1, budget);
                }
            } else {
                lemma_sources_bounded(sources, k + 1, g, maximum, best, budget);
            }
        }
    }
}

/// The iteration order of a set of symbols is the increasing order.
proof fn lemma_iteration_order(it_seq: Seq<&u64>, s: Set<u64>)
    requires
        vstd::std_specs::btree::increasing_seq(it_seq),
        it_seq.unref().to_set() == s,
    ensures
        it_seq.unref() == sorted_elements(s),
{
    broadcast use vstd::std_specs::btree::group_btree_axioms, vstd::laws_cmp::group_laws_cmp;
    assert(vstd::laws_cmp::obeys_cmp::<u64>());
    assert(vstd::laws_cmp::obeys_cmp::<&u64>());
    let q = it_seq.unref();
    assert forall|i: int, j: int| 0 <= i < j < q.len() implies q[i] < q[j] by {
        assert(OrdSpec::cmp_spec(&it_seq[i], &it_seq[j]) is Less);
    }
    assert(increasing(q) && q.to_set() == s);
    let c = sorted_elements(s);
    lemma_increasing_unique(q, c);
}

/// Symbols are ordered as the integers they are.
proof fn lemma_symbols_are_ordered()
    ensures
        vstd::laws_cmp::obeys_cmp::<u64>(),
{
    broadcast use vstd::laws_cmp::group_laws_cmp;
}

proof fn lemma_depth_budget(first: u64, g: Map<u64, Set<u64>>, maximum: nat, b1: nat, b2: nat)
    requires
        g.dom().finite(),
        b1 > g.dom().len(),
        b2 > g.dom().len(),
    ensures
        spec_depth(first, g, maximum, b1) == spec_depth(first, g, maximum, b2),
    decreases b1, 0nat, 0nat,
{
    if maximum == 0 || !g.dom().contains(first) {
    } else {
        assert(g.remove(first).dom() =~= g.dom().remove(first));
        lemma_sources_budget(
            sorted_elements(g[first]),
            0,
            g.remove(first),
            maximum,
            0,
            (b1 - 1) as nat,
            (b2 - 1) as nat,
        );
    }
}

proof fn lemma_sources_budget(
    sources: Seq<u64>,
    k: int,
    g: Map<u64, Set<u64>>,
    maximum: nat,
    best: nat,
    b1: nat,
    b2: nat,
)
    requires
        g.dom().finite(),
        b1 > g.dom().len(),
        b2 > g.dom().len(),
    ensures
        spec_depth_sources(sources, k, g, maximum, best, b1) == spec_depth_sources(sources, k, g, maximum, best, b2),
    decreases b1, 1nat, sources.len() - k,
{
    if k < 0 || k >= sources.len() {
    } else {
        let source = sources[k];
        if 1 < maximum && g.dom().contains(source) {
            lemma_depth_budget(source, g, (maximum - 1) as nat, b1, b2);
            lemma_depth_bounded(source, g, (maximum - 1) as nat, b1);
            let (d, g2) = spec_depth(source, g, (maximum - 1) as nat, b1);
            vstd::set_lib::lemma_len_subset(g2.dom(), g.dom());
            let depth = (1 + d) as nat;
            if depth > best {
                if depth < maximum {
                    lemma_sources_budget(sources, k + 1, g2, maximum, depth, b1, b2);
                }
            } else {
                lemma_sources_budget(sources, k + 1, g2, maximum, best, b1, b2);
            }
        } else {
            if 1 > best {
                if 1 < maximum {
                    lemma_sources_budget(sources, k + 1, g, maximum, 1, b1, b2);
                }
            } else {
                lemma_sources_budget(sources, k + 1, g, maximum, best, b1, b2);
            }
        }
    }
}

/// Computes the depth of the loop's assignment dependency graph from
/// `first_variable_id`, clamped to `maximum`. Each visited variable leaves
/// the map, so no chain is walked twice and the walk stops as soon as
/// `maximum` is reached.
pub fn get_assignment_map_depth(first_variable_id: u64, assignment_map: &mut AssignmentMap, maximum: usize) -> (depth: usize)
    ensures
        (depth as nat, graph_view(*final(assignment_map))) == spec_depth(
            first_variable_id,
            graph_view(*old(assignment_map)),
            maximum as nat,
            (graph_view(*old(assignment_map)).dom().len() + 1) as nat,
        ),
        depth <= maximum,
    decreases old(assignment_map)@.dom().len(),
{
    broadcast use vstd::std_specs::btree::group_btree_axioms;
    proof { lemma_symbols_are_ordered(); }
    let ghost g0 = graph_view(*assignment_map);
    let ghost budget = (g0.dom().len() + 1) as nat;
    assert(g0.dom() =~= assignment_map@.dom());
    proof { lemma_depth_bounded(first_variable_id, g0, maximum as nat, budget); }
    if maximum == 0 {
        return 0;
    }
    let assignment_variable_ids = match assignment_map.remove(&first_variable_id) {
        Some(ids) => ids,
        None => return 0,
    };
    let ghost sources = sorted_elements(g0[first_variable_id]);
    assert(graph_view(*assignment_map) =~= g0.remove(first_variable_id));
    assert(g0.remove(first_variable_id).dom() =~= g0.dom().remove(first_variable_id));
    let mut max_depth: usize = 0;
    let sources_iter = assignment_variable_ids.iter();
    proof {
        lemma_iteration_order(sources_iter.remaining(), assignment_variable_ids@);
    }
    for assignment_variable_id in it: sources_iter
        invariant
            it.seq() == sources_iter.remaining(),
            sources_iter.remaining().unref() == sources,
            0 < maximum,
            max_depth < maximum,
            g0 == graph_view(*old(assignment_map)),
            g0.dom().finite(),
            assignment_variable_ids@ == g0[first_variable_id],
            g0.dom() == old(assignment_map)@.dom(),
            budget == g0.dom().len() + 1,
            sources == sorted_elements(g0[first_variable_id]),
            graph_view(*assignment_map).dom() == assignment_map@.dom(),
            graph_view(*assignment_map).dom().subset_of(g0.dom()),
            graph_view(*assignment_map).dom().finite(),
            graph_view(*assignment_map).dom().len() < g0.dom().len(),
            spec_depth_sources(sources, it.index() as int, graph_view(*assignment_map), maximum as nat, max_depth as nat, (budget - 1) as nat)
                == spec_depth(first_variable_id, g0, maximum as nat, budget),
    {
        let ghost g = graph_view(*assignment_map);
        let ghost k = it.index() as int;
        proof {
            assert(*assignment_variable_id == *it.seq()[k]);
            assert(sources[k] == *assignment_variable_id);
        }
        let mut depth: usize = 1;
        if depth < maximum && assignment_map.contains_key(assignment_variable_id) {
            let ghost gb = g;
            let inner = get_assignment_map_depth(*assignment_variable_id, assignment_map, maximum - 1);
            proof {
                lemma_depth_budget(*assignment_variable_id, gb, (maximum - 1) as nat, (gb.dom().len() + 1) as nat, (budget - 1) as nat);
                lemma_depth_bounded(*assignment_variable_id, gb, (maximum - 1) as nat, (gb.dom().len() + 1) as nat);
                vstd::set_lib::lemma_len_subset(graph_view(*assignment_map).dom(), gb.dom());
                assert(graph_view(*assignment_map).dom() =~= assignment_map@.dom());
            }
            depth += inner;
        } else {
            assert(graph_view(*assignment_map) == g);
        }
        if depth > max_depth {
            max_depth = depth;
            if max_depth >= maximum {
                return maximum;
            }
        }
    }
    max_depth
}


/// The issue codes whose claim (a condition or comparison that is always
/// true or false) a later iteration of a do-while loop can refute.
pub open spec fn spec_is_truthiness_code(code: Seq<u8>) -> bool {
    code == seq![105u8, 109, 112, 111, 115, 115, 105, 98, 108, 101, 45, 99, 111, 110, 100, 105, 116, 105, 111, 110]
        || code == seq![114u8, 101, 100, 117, 110, 100, 97, 110, 116, 45, 99, 111, 109, 112, 97, 114, 105, 115, 111, 110]
        || code == seq![114u8, 101, 100, 117, 110, 100, 97, 110, 116, 45, 99, 111, 110, 100, 105, 116, 105, 111, 110]
        || code == seq![114u8, 101, 100, 117, 110, 100, 97, 110, 116, 45, 108, 111, 103, 105, 99, 97, 108, 45, 111, 112, 101, 114, 97, 116, 105, 111, 110]
        || code == seq![114u8, 101, 100, 117, 110, 100, 97, 110, 116, 45, 116, 121, 112, 101, 45, 99, 111, 109, 112, 97, 114, 105, 115, 111, 110]
        || code == seq![117u8, 110, 114, 101, 97, 99, 104, 97, 98, 108, 101, 45, 101, 108, 115, 101, 45, 99, 108, 97, 117, 115, 101]
}

/// Whether an issue's claim can be invalidated by a later do-while
/// iteration: the first iteration runs with the pre-loop types, so safety
/// issues found there stand, but claims that a condition is always true or
/// false only hold if found again once the loop types are stable.
pub fn is_iteration_dependent_truthiness_issue(code: Option<&str>) -> (r: bool)
    ensures
        r == (match code {
            Some(c) => spec_is_truthiness_code(c.spec_bytes()),
            None => false,
        }),
{
    match code {
        Some(c) => is_truthiness_code(c.as_bytes()),
        None => false,
    }
}

/// Whether `code` names an issue whose claim is that a condition or
/// comparison is always true or always false.
pub fn is_truthiness_code(code: &[u8]) -> (r: bool)
    ensures
        r == spec_is_truthiness_code(code@),
{
    bytes_eq(code, &[105u8, 109, 112, 111, 115, 115, 105, 98, 108, 101, 45, 99, 111, 110, 100, 105, 116, 105, 111, 110])
        || bytes_eq(code, &[114u8, 101, 100, 117, 110, 100, 97, 110, 116, 45, 99, 111, 109, 112, 97, 114, 105, 115, 111, 110])
        || bytes_eq(code, &[114u8, 101, 100, 117, 110, 100, 97, 110, 116, 45, 99, 111, 110, 100, 105, 116, 105, 111, 110])
        || bytes_eq(code, &[114u8, 101, 100, 117, 110, 100, 97, 110, 116, 45, 108, 111, 103, 105, 99, 97, 108, 45, 111, 112, 101, 114, 97, 116, 105, 111, 110])
        || bytes_eq(code, &[114u8, 101, 100, 117, 110, 100, 97, 110, 116, 45, 116, 121, 112, 101, 45, 99, 111, 109, 112, 97, 114, 105, 115, 111, 110])
        || bytes_eq(code, &[117u8, 110, 114, 101, 97, 99, 104, 97, 98, 108, 101, 45, 101, 108, 115, 101, 45, 99, 108, 97, 117, 115, 101])
}

/// Bounds of an integer type; `None` is unbounded on that side.
#[derive(Clone, Copy, PartialEq, Eq, Structural, Debug)]
pub struct IntegerBounds {
    pub lower: Option<i64>,
    pub upper: Option<i64>,
}

/// What deciding whether a loop condition can fail on entry reads of the
/// condition: for a binary condition its operator and the types of its
/// sides (for each, `None` if unknown, else the bounds of its first integer
/// part, if any); for any other condition, whether its type (if known) is
/// always truthy.
#[derive(Clone, Copy, PartialEq, Eq, Structural, Debug)]
pub enum LoopCondition {
    Binary { operator: BinaryOperator, left: Option<Option<IntegerBounds>>, right: Option<Option<IntegerBounds>> },
    Other { always_truthy: Option<bool> },
}

/// `a < b` can be false for bounds unless `a`'s upper bound is below `b`'s
/// lower bound; likewise for the other comparisons. Without integer types
/// on both sides, only the non-binary case can be false (when its type is
/// unknown or not always truthy).
pub open spec fn spec_can_be_initially_false(condition: LoopCondition) -> bool {
    match condition {
        LoopCondition::Other { always_truthy } => match always_truthy {
            Some(t) => !t,
            None => true,
        },
        LoopCondition::Binary { operator, left, right } => match (left, right) {
            (Some(Some(l)), Some(Some(r))) => match operator {
                BinaryOperator::LessThan => match (l.upper, r.lower) {
                    (Some(a), Some(b)) => a >= b,
                    _ => true,
                },
                BinaryOperator::LessThanOrEqual => match (l.upper, r.lower) {
                    (Some(a), Some(b)) => a > b,
                    _ => true,
                },
                BinaryOperator::GreaterThan => match (l.lower, r.upper) {
                    (Some(a), Some(b)) => a <= b,
                    _ => true,
                },
                BinaryOperator::GreaterThanOrEqual => match (l.lower, r.upper) {
                    (Some(a), Some(b)) => a < b,
                    _ => true,
                },
                _ => false,
            },
            _ => false,
        },
    }
}

/// Checks whether a loop condition can evaluate to false with the initial
/// types: for `$i < $n` and the like, whether the integer bounds allow the
/// comparison to fail (`int(0) < int<0, max>` fails when `$n` is 0).
pub fn can_condition_be_initially_false(condition: &LoopCondition) -> (r: bool)
    ensures
        r == spec_can_be_initially_false(*condition),
{
    match condition {
        LoopCondition::Other { always_truthy } => match always_truthy {
            Some(t) => !*t,
            None => true,
        },
        LoopCondition::Binary { operator, left, right } => {
            let l = match left {
                Some(Some(l)) => l,
                _ => return false,
            };
            let r = match right {
                Some(Some(r)) => r,
                _ => return false,
            };
            match operator {
                BinaryOperator::LessThan => match (l.upper, r.lower) {
                    (Some(a), Some(b)) => a >= b,
                    _ => true,
                },
                BinaryOperator::LessThanOrEqual => match (l.upper, r.lower) {
                    (Some(a), Some(b)) => a > b,
                    _ => true,
                },
                BinaryOperator::GreaterThan => match (l.lower, r.upper) {
                    (Some(a), Some(b)) => a <= b,
                    _ => true,
                },
                BinaryOperator::GreaterThanOrEqual => match (l.lower, r.upper) {
                    (Some(a), Some(b)) => a < b,
                    _ => true,
                },
                _ => false,
            }
        },
    }
}

/// A value lies within bounds.
pub open spec fn within(x: int, b: IntegerBounds) -> bool {
    &&& (b.lower matches Some(lo) ==> lo <= x)
    &&& (b.upper matches Some(hi) ==> x <= hi)
}

/// Bounds that hold some value.
pub open spec fn inhabited(b: IntegerBounds) -> bool {
    match (b.lower, b.upper) {
        (Some(lo), Some(hi)) => lo <= hi,
        _ => true,
    }
}

/// The comparison that a binary operator makes, on integers.
pub open spec fn compares(operator: BinaryOperator, x: int, y: int) -> bool {
    match operator {
        BinaryOperator::LessThan => x < y,
        BinaryOperator::LessThanOrEqual => x <= y,
        BinaryOperator::GreaterThan => x > y,
        BinaryOperator::GreaterThanOrEqual => x >= y,
        _ => true,
    }
}

/// For an ordering comparison of two integer operands with inhabited
/// bounds, the condition can fail on entry exactly when some values within
/// the bounds make the comparison false.
pub proof fn lemma_initially_false_iff_counterexample(operator: BinaryOperator, l: IntegerBounds, r: IntegerBounds)
    requires
        operator is LessThan || operator is LessThanOrEqual || operator is GreaterThan || operator is GreaterThanOrEqual,
        inhabited(l),
        inhabited(r),
    ensures
        spec_can_be_initially_false(LoopCondition::Binary { operator, left: Some(Some(l)), right: Some(Some(r)) })
            <==> exists|x: int, y: int| within(x, l) && within(y, r) && !compares(operator, x, y),
{
    let c = LoopCondition::Binary { operator, left: Some(Some(l)), right: Some(Some(r)) };
    // A witness pair that is as unfavourable to the comparison as the bounds allow.
    let big = 1 + (match l.lower { Some(v) => if v >= 0 { v as int } else { -v as int }, None => 0 })
        + (match l.upper { Some(v) => if v >= 0 { v as int } else { -v as int }, None => 0 })
        + (match r.lower { Some(v) => if v >= 0 { v as int } else { -v as int }, None => 0 })
        + (match r.upper { Some(v) => if v >= 0 { v as int } else { -v as int }, None => 0 });
    let lx_hi: int = match l.upper { Some(v) => v as int, None => match l.lower { Some(lo) => lo + big, None => big } };
    let lx_lo: int = match l.lower { Some(v) => v as int, None => match l.upper { Some(hi) => hi - big, None => -big } };
    let ry_lo: int = match r.lower { Some(v) => v as int, None => match r.upper { Some(hi) => hi - big, None => -big } };
    let ry_hi: int = match r.upper { Some(v) => v as int, None => match r.lower { Some(lo) => lo + big, None => big } };
    assert(within(lx_hi, l) && within(lx_lo, l) && within(ry_lo, r) && within(ry_hi, r));
    if spec_can_be_initially_false(c) {
        if operator is LessThan || operator is LessThanOrEqual {
            assert(!compares(operator, lx_hi, ry_lo));
        } else {
            assert(!compares(operator, lx_lo, ry_hi));
        }
    }
    if exists|x: int, y: int| within(x, l) && within(y, r) && !compares(operator, x, y) {
        let (x, y) = choose|x: int, y: int| within(x, l) && within(y, r) && !compares(operator, x, y);
    }
}

/// The disjuncts of a condition: the operands of `||` and `or`, flattened
/// from left to right; any other condition is its own single disjunct.
pub open spec fn spec_or_operands(e: Expr) -> Seq<Expr>
    decreases e,
{
    match e.kind {
        ExprKind::Binary { operator, lhs, rhs } => if operator is Or || operator is LowOr {
            spec_or_operands(*lhs) + spec_or_operands(*rhs)
        } else {
            seq![e]
        },
        _ => seq![e],
    }
}

pub open spec fn deref_all(refs: Seq<&Expr>) -> Seq<Expr> {
    refs.map_values(|r: &Expr| *r)
}

/// Splits a loop condition at its `||` and `or` operators.
pub fn get_and_expressions<'a>(cond: &'a Expr) -> (parts: Vec<&'a Expr>)
    ensures
        deref_all(parts@) == spec_or_operands(*cond),
    decreases cond,
{
    if let ExprKind::Binary { operator, lhs, rhs } = &cond.kind {
        if matches!(operator, BinaryOperator::Or | BinaryOperator::LowOr) {
            let mut anded = get_and_expressions(lhs);
            let right = get_and_expressions(rhs);
            let ghost left_view = deref_all(anded@);
            let mut k: usize = 0;
            while k < right.len()
                invariant
                    k <= right@.len(),
                    deref_all(anded@) == left_view + deref_all(right@).subrange(0, k as int),
                decreases right.len() - k,
            {
                let ghost prev = anded@;
                anded.push(right[k]);
                assert(deref_all(prev.push(right@[k as int])) =~= deref_all(prev).push(*right@[k as int]));
                assert(deref_all(right@).subrange(0, k + 1) =~= deref_all(right@).subrange(0, k as int).push(*right@[k as int]));
                k += 1;
                assert(deref_all(anded@) =~= left_view + deref_all(right@).subrange(0, k as int));
            }
            assert(deref_all(right@).subrange(0, k as int) =~= deref_all(right@));
            return anded;
        }
    }
    let mut single: Vec<&'a Expr> = Vec::new();
    single.push(cond);
    assert(deref_all(single@) =~= seq![*cond]);
    single
}

} // verus!
