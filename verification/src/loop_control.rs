//! How a loop's body is re-analysed until the types of its variables settle:
//! whether one pass is enough, what each pass finds of each variable, when
//! another pass follows, and what a variable that the loop condition assigns
//! is reset to before the next pass.
use vstd::prelude::*;

verus! {

/// How a loop body is analysed.
#[derive(Clone, Copy, PartialEq, Eq, Structural, Debug)]
pub enum LoopMode {
    /// One pass.
    SinglePass,
    /// Passes until the types settle, at most one more than the assignment depth.
    Iterate,
}

/// One pass is enough when no variable assigned in the loop feeds another
/// (assignment depth 0) or when the body always breaks.
pub open spec fn spec_loop_mode(assignment_depth: nat, does_always_break: bool) -> LoopMode {
    if assignment_depth == 0 || does_always_break { LoopMode::SinglePass } else { LoopMode::Iterate }
}

pub fn loop_mode(assignment_depth: usize, does_always_break: bool) -> (r: LoopMode)
    ensures
        r == spec_loop_mode(assignment_depth as nat, does_always_break),
{
    if assignment_depth == 0 || does_always_break { LoopMode::SinglePass } else { LoopMode::Iterate }
}

/// A variable of the context after a pass, by how it compares.
#[derive(Clone, Copy, PartialEq, Eq, Structural, Debug)]
pub enum LoopVariable {
    /// Assigned by the loop condition before every pass: whether its type
    /// differs from the one before the loop (`None`: it had none there).
    AssignedBeforeBody { differs_from_pre_loop: Option<bool> },
    /// Known before the loop: whether its type differs from the one before
    /// the loop, from the one at the loop's start, and whether a
    /// by-reference mutation in the loop gives it another type.
    FromParent { differs_from_parent: bool, differs_from_loop_start: bool, by_reference_differs: bool },
    /// First assigned in the loop: whether the loop condition refers to it
    /// on both sides of an assignment.
    NewInBody { self_referential: bool },
}

/// What a pass finds of one variable.
#[derive(Clone, Copy, PartialEq, Eq, Structural, Debug)]
pub struct VariableVerdict {
    /// Its type has not settled.
    pub changes: bool,
    /// Its type differs from the one before the loop, where the condition assigns it.
    pub different_from_pre_loop: bool,
    /// Its type is joined with the one before the loop, and it is possibly
    /// assigned after the loop.
    pub joined_with_parent: bool,
    /// It is dropped before the next pass.
    pub removed: bool,
}

/// A variable that the condition assigns changes when its type differs
/// from the one before the loop or it had none there; one known before the
/// loop changes when its type differs from the one before the loop, from
/// the one at the loop's start, or from a by-reference mutation's; one new
/// in the body changes when the pass raised issues, and is dropped unless
/// the loop is a do-while or the condition refers to it.
pub open spec fn spec_verdict(v: LoopVariable, has_recorded_issues: bool, is_do: bool) -> VariableVerdict {
    match v {
        LoopVariable::AssignedBeforeBody { differs_from_pre_loop } => VariableVerdict {
            changes: differs_from_pre_loop != Some(false),
            different_from_pre_loop: differs_from_pre_loop == Some(true),
            joined_with_parent: false,
            removed: false,
        },
        LoopVariable::FromParent { differs_from_parent, differs_from_loop_start, by_reference_differs } => VariableVerdict {
            changes: differs_from_parent || differs_from_loop_start || by_reference_differs,
            different_from_pre_loop: false,
            joined_with_parent: differs_from_parent,
            removed: false,
        },
        LoopVariable::NewInBody { self_referential } => VariableVerdict {
            changes: has_recorded_issues,
            different_from_pre_loop: false,
            joined_with_parent: false,
            removed: !is_do && !self_referential,
        },
    }
}

/// What a pass finds: a verdict per variable, and whether the types have
/// not settled.
#[derive(Debug)]
pub struct PassComparison {
    pub verdicts: Vec<VariableVerdict>,
    pub has_changes: bool,
}

/// The types have not settled when a variable known before the loop is
/// missing after the pass, or some variable changes.
pub open spec fn spec_has_changes(vars: Seq<LoopVariable>, pre_loop_variable_missing: bool, has_recorded_issues: bool, is_do: bool) -> bool {
    pre_loop_variable_missing || exists|i: int| 0 <= i < vars.len() && (#[trigger] spec_verdict(vars[i], has_recorded_issues, is_do)).changes
}

pub fn verdict(v: LoopVariable, has_recorded_issues: bool, is_do: bool) -> (r: VariableVerdict)
    ensures
        r == spec_verdict(v, has_recorded_issues, is_do),
{
    match v {
        LoopVariable::AssignedBeforeBody { differs_from_pre_loop } => {
            let (changes, different) = match differs_from_pre_loop {
                Some(d) => (d, d),
                None => (true, false),
            };
            VariableVerdict { changes, different_from_pre_loop: different, joined_with_parent: false, removed: false }
        },
        LoopVariable::FromParent { differs_from_parent, differs_from_loop_start, by_reference_differs } => VariableVerdict {
            changes: differs_from_parent || differs_from_loop_start || by_reference_differs,
            different_from_pre_loop: false,
            joined_with_parent: differs_from_parent,
            removed: false,
        },
        LoopVariable::NewInBody { self_referential } => VariableVerdict {
            changes: has_recorded_issues,
            different_from_pre_loop: false,
            joined_with_parent: false,
            removed: !is_do && !self_referential,
        },
    }
}

/// Compares the variables after a pass with those before the loop.
pub fn compare_pass(vars: &Vec<LoopVariable>, pre_loop_variable_missing: bool, has_recorded_issues: bool, is_do: bool) -> (r: PassComparison)
    ensures
        r.verdicts@ == vars@.map_values(|v: LoopVariable| spec_verdict(v, has_recorded_issues, is_do)),
        r.has_changes == spec_has_changes(vars@, pre_loop_variable_missing, has_recorded_issues, is_do),
{
    let mut verdicts: Vec<VariableVerdict> = Vec::new();
    let mut has_changes = pre_loop_variable_missing;
    let mut i: usize = 0;
    while i < vars.len()
        invariant
            i <= vars.len(),
            verdicts@ == vars@.take(i as int).map_values(|v: LoopVariable| spec_verdict(v, has_recorded_issues, is_do)),
            has_changes == (pre_loop_variable_missing || exists|j: int| 0 <= j < i && (#[trigger] spec_verdict(vars@[j], has_recorded_issues, is_do)).changes),
        decreases vars.len() - i,
    {
        let v = verdict(vars[i], has_recorded_issues, is_do);
        verdicts.push(v);
        if v.changes {
            has_changes = true;
        }
        proof {
            assert(verdicts@ =~= vars@.take((i + 1) as int).map_values(|v: LoopVariable| spec_verdict(v, has_recorded_issues, is_do)));
        }
        i = i + 1;
    }
    proof {
        assert(vars@.take(vars.len() as int) =~= vars@);
    }
    PassComparison { verdicts, has_changes }
}

/// What the iterative analysis does when pass number `pass` (counted from
/// 0) is due.
#[derive(Clone, Copy, PartialEq, Eq, Structural, Debug)]
pub enum IterationStep {
    /// The types settled: the post-expressions are analysed once more, and the loop stops.
    Settle,
    /// Another pass over the body.
    Reexamine,
    /// No pass is left: the loop stops as it is.
    Stop,
}

/// Passes are numbered from 0 up to the assignment depth; a pass that
/// finds no change settles the loop.
pub open spec fn spec_iteration_step(pass: nat, assignment_depth: nat, has_changes: bool) -> IterationStep {
    if pass > assignment_depth {
        IterationStep::Stop
    } else if !has_changes {
        IterationStep::Settle
    } else {
        IterationStep::Reexamine
    }
}

pub fn iteration_step(pass: usize, assignment_depth: usize, has_changes: bool) -> (r: IterationStep)
    ensures
        r == spec_iteration_step(pass as nat, assignment_depth as nat, has_changes),
{
    if pass > assignment_depth {
        IterationStep::Stop
    } else if !has_changes {
        IterationStep::Settle
    } else {
        IterationStep::Reexamine
    }
}

/// The number of re-examinations from pass `pass` on, when the passes find
/// `changes` in turn (a pass for which nothing is listed finds none).
pub open spec fn reexaminations(pass: nat, assignment_depth: nat, changes: Seq<bool>) -> nat
    decreases assignment_depth + 1 - pass,
{
    if pass > assignment_depth {
        0
    } else {
        let has_changes = changes.len() > 0 && changes[0];
        match spec_iteration_step(pass, assignment_depth, has_changes) {
            IterationStep::Reexamine => 1 + reexaminations(pass + 1, assignment_depth, changes.drop_first()),
            _ => 0,
        }
    }
}

proof fn lemma_reexaminations_from(pass: nat, assignment_depth: nat, changes: Seq<bool>)
    requires
        pass <= assignment_depth + 1,
    ensures
        reexaminations(pass, assignment_depth, changes) <= assignment_depth + 1 - pass,
        (forall|k: int| 0 <= k < changes.len() ==> #[trigger] changes[k]) && changes.len() >= assignment_depth + 1 - pass
            ==> reexaminations(pass, assignment_depth, changes) == assignment_depth + 1 - pass,
    decreases assignment_depth + 1 - pass,
{
    if pass <= assignment_depth {
        lemma_reexaminations_from(pass + 1, assignment_depth, changes.drop_first());
        if (forall|k: int| 0 <= k < changes.len() ==> #[trigger] changes[k]) && changes.len() >= assignment_depth + 1 - pass {
            assert(changes[0]);
            assert forall|k: int| 0 <= k < changes.drop_first().len() implies #[trigger] changes.drop_first()[k] by {
                assert(changes.drop_first()[k] == changes[k + 1]);
            }
        }
    }
}

/// Whatever the passes find, the body is re-examined at most one time more
/// than the assignment depth; and exactly that many times when every pass
/// finds a change.
pub proof fn lemma_reexaminations_bounded(assignment_depth: nat, changes: Seq<bool>)
    ensures
        reexaminations(0, assignment_depth, changes) <= assignment_depth + 1,
        (forall|k: int| 0 <= k < changes.len() ==> #[trigger] changes[k]) && changes.len() > assignment_depth
            ==> reexaminations(0, assignment_depth, changes) == assignment_depth + 1,
{
    lemma_reexaminations_from(0, assignment_depth, changes);
}

/// What a variable that the loop condition assigns becomes before the next pass.
#[derive(Clone, Copy, PartialEq, Eq, Structural, Debug)]
pub enum ConditionVariableReset {
    Keep,
    /// Back to its type before the loop.
    PreLoopType,
    /// Dropped: it had no type before the loop.
    Remove,
}

/// It is reset when its type differed from the one before the loop, when
/// the pass lost it, or when it had no type before the loop.
pub open spec fn spec_condition_variable_reset(different_from_pre_loop: bool, in_context_after_pass: bool, has_pre_loop_type: bool) -> ConditionVariableReset {
    if different_from_pre_loop || !in_context_after_pass || !has_pre_loop_type {
        if has_pre_loop_type { ConditionVariableReset::PreLoopType } else { ConditionVariableReset::Remove }
    } else {
        ConditionVariableReset::Keep
    }
}

pub fn condition_variable_reset(different_from_pre_loop: bool, in_context_after_pass: bool, has_pre_loop_type: bool) -> (r: ConditionVariableReset)
    ensures
        r == spec_condition_variable_reset(different_from_pre_loop, in_context_after_pass, has_pre_loop_type),
{
    if different_from_pre_loop || !in_context_after_pass || !has_pre_loop_type {
        if has_pre_loop_type { ConditionVariableReset::PreLoopType } else { ConditionVariableReset::Remove }
    } else {
        ConditionVariableReset::Keep
    }
}

} // verus!
