//! `continue n`: which enclosing loop or switch it targets, which loop scope
//! records it, and when it is an error.
use vstd::prelude::*;

verus! {

/// An enclosing construct that `break` and `continue` count.
#[derive(Clone, Copy, PartialEq, Eq, Structural, Debug)]
pub enum BreakContext {
    Loop,
    Switch,
}

/// The level written after `continue`.
#[derive(Clone, Copy, PartialEq, Eq, Structural, Debug)]
pub enum ContinueLevel {
    /// An integer literal, with its value.
    Integer(u64),
    /// Any other expression.
    Other,
}

/// The errors a `continue` statement can raise.
#[derive(Clone, Copy, PartialEq, Eq, Structural, Debug)]
pub enum ContinueIssue {
    /// The level is not an integer literal; level 1 is assumed.
    NonLiteralLevel,
    /// The level is zero.
    NonPositiveLevel,
    /// The level exceeds the enclosing loops and switches.
    TooManyLevels { requested: u64, available: usize },
    /// No loop scope is there to record the jump.
    OutsideLoop,
}

/// What a `continue` that reaches its target does there.
#[derive(Clone, Copy, PartialEq, Eq, Structural, Debug)]
pub enum ContinueAction {
    /// It continues a loop.
    Continue,
    /// It targets a switch, and so leaves it.
    LeaveSwitch,
}

/// The outcome of analyzing a `continue`: its errors, the loop scope
/// (1 for the innermost) that records its action, when one does, and
/// whether the rest of the enclosing block is unreachable after it.
#[derive(Debug)]
pub struct ContinuePlan {
    pub issues: Vec<ContinueIssue>,
    pub target: Option<(usize, ContinueAction)>,
    pub ends_block: bool,
}

/// How many of the contexts are loops.
pub open spec fn count_loops(s: Seq<BreakContext>) -> nat
    decreases s.len(),
{
    if s.len() == 0 {
        0
    } else {
        count_loops(s.drop_last()) + if s.last() == BreakContext::Loop { 1nat } else { 0nat }
    }
}

/// `continue n` with the enclosing contexts `contexts` (innermost last) and
/// `loop_scopes` loop scopes: it targets the `n`th context from the inside;
/// the loops among the `n` innermost contexts (at least one) tell which loop
/// scope records it; targeting a switch leaves it.
pub open spec fn spec_plan_continue(level: Option<ContinueLevel>, contexts: Seq<BreakContext>, loop_scopes: nat) -> (Seq<ContinueIssue>, Option<(nat, ContinueAction)>) {
    let (levels, first) = match level {
        None => (1u64, Seq::<ContinueIssue>::empty()),
        Some(ContinueLevel::Integer(n)) => (n, Seq::<ContinueIssue>::empty()),
        Some(ContinueLevel::Other) => (1u64, seq![ContinueIssue::NonLiteralLevel]),
    };
    let requested = levels as usize;
    if levels < 1 {
        (first.push(ContinueIssue::NonPositiveLevel), None)
    } else if requested > contexts.len() {
        (first.push(ContinueIssue::TooManyLevels { requested: levels, available: contexts.len() as usize }), None)
    } else {
        let innermost = contexts.subrange(contexts.len() - requested, contexts.len() as int);
        let depth = if count_loops(innermost) >= 1 { count_loops(innermost) } else { 1 };
        if depth > loop_scopes {
            (first.push(ContinueIssue::OutsideLoop), None)
        } else {
            (first, Some((depth, if contexts[contexts.len() - requested] == BreakContext::Switch {
                ContinueAction::LeaveSwitch
            } else {
                ContinueAction::Continue
            })))
        }
    }
}

pub open spec fn target_view(t: Option<(usize, ContinueAction)>) -> Option<(nat, ContinueAction)> {
    match t {
        Some((d, a)) => Some((d as nat, a)),
        None => None,
    }
}

/// Decides what `continue` with the written `level` does inside the
/// enclosing `contexts` (innermost last) when `loop_scopes` loop scopes are
/// open. Whether it reaches its target or raises an error, nothing after it
/// in the block runs.
pub fn plan_continue(level: Option<ContinueLevel>, contexts: &Vec<BreakContext>, loop_scopes: usize) -> (r: ContinuePlan)
    requires
        level matches Some(ContinueLevel::Integer(n)) ==> n <= usize::MAX,
    ensures
        (r.issues@, target_view(r.target)) == spec_plan_continue(level, contexts@, loop_scopes as nat),
        r.ends_block,
{
    let mut issues: Vec<ContinueIssue> = Vec::new();
    let levels: u64 = match level {
        None => 1,
        Some(ContinueLevel::Integer(n)) => n,
        Some(ContinueLevel::Other) => {
            issues.push(ContinueIssue::NonLiteralLevel);
            1
        },
    };
    if levels < 1 {
        issues.push(ContinueIssue::NonPositiveLevel);
        return ContinuePlan { issues, target: None, ends_block: true };
    }
    let requested = levels as usize;
    let available = contexts.len();
    if requested > available {
        issues.push(ContinueIssue::TooManyLevels { requested: levels, available });
        return ContinuePlan { issues, target: None, ends_block: true };
    }
    let target_is_switch = contexts[available - requested] == BreakContext::Switch;
    let mut loops: usize = 0;
    let mut k: usize = available - requested;
    let ghost start = (available - requested) as int;
    assert(contexts@.subrange(start, start) =~= Seq::<BreakContext>::empty());
    while k < available
        invariant
            available == contexts@.len(),
            0 <= start <= k <= available,
            loops == count_loops(contexts@.subrange(start, k as int)),
            loops <= k - start,
        decreases available - k,
    {
        assert(contexts@.subrange(start, k + 1).drop_last() =~= contexts@.subrange(start, k as int));
        if contexts[k] == BreakContext::Loop {
            loops += 1;
        }
        k += 1;
    }
    let depth = if loops >= 1 { loops } else { 1 };
    if depth > loop_scopes {
        issues.push(ContinueIssue::OutsideLoop);
        return ContinuePlan { issues, target: None, ends_block: true };
    }
    let action = if target_is_switch { ContinueAction::LeaveSwitch } else { ContinueAction::Continue };
    ContinuePlan { issues, target: Some((depth, action)), ends_block: true }
}

} // verus!
