use mago_analyzer::loop_control::{
    compare_pass, condition_variable_reset, iteration_step, loop_mode, verdict, ConditionVariableReset, IterationStep,
    LoopMode, LoopVariable, VariableVerdict,
};

fn v(changes: bool, different_from_pre_loop: bool, joined_with_parent: bool, removed: bool) -> VariableVerdict {
    VariableVerdict { changes, different_from_pre_loop, joined_with_parent, removed }
}

#[test]
fn single_pass_or_iteration() {
    assert_eq!(loop_mode(0, false), LoopMode::SinglePass);
    assert_eq!(loop_mode(3, true), LoopMode::SinglePass);
    assert_eq!(loop_mode(1, false), LoopMode::Iterate);
}

#[test]
fn variable_verdicts() {
    assert_eq!(verdict(LoopVariable::AssignedBeforeBody { differs_from_pre_loop: Some(true) }, false, false), v(true, true, false, false));
    assert_eq!(verdict(LoopVariable::AssignedBeforeBody { differs_from_pre_loop: Some(false) }, true, false), v(false, false, false, false));
    assert_eq!(verdict(LoopVariable::AssignedBeforeBody { differs_from_pre_loop: None }, false, false), v(true, false, false, false));
    let from_parent = |p, l, b| LoopVariable::FromParent { differs_from_parent: p, differs_from_loop_start: l, by_reference_differs: b };
    assert_eq!(verdict(from_parent(true, false, false), false, false), v(true, false, true, false));
    assert_eq!(verdict(from_parent(false, true, false), false, false), v(true, false, false, false));
    assert_eq!(verdict(from_parent(false, false, true), false, false), v(true, false, false, false));
    assert_eq!(verdict(from_parent(false, false, false), true, false), v(false, false, false, false));
    assert_eq!(verdict(LoopVariable::NewInBody { self_referential: false }, false, false), v(false, false, false, true));
    assert_eq!(verdict(LoopVariable::NewInBody { self_referential: true }, true, false), v(true, false, false, false));
    assert_eq!(verdict(LoopVariable::NewInBody { self_referential: false }, false, true), v(false, false, false, false));
}

#[test]
fn pass_comparison() {
    let settled = vec![
        LoopVariable::AssignedBeforeBody { differs_from_pre_loop: Some(false) },
        LoopVariable::FromParent { differs_from_parent: false, differs_from_loop_start: false, by_reference_differs: false },
        LoopVariable::NewInBody { self_referential: false },
    ];
    let r = compare_pass(&settled, false, false, false);
    assert!(!r.has_changes);
    assert_eq!(r.verdicts, vec![v(false, false, false, false), v(false, false, false, false), v(false, false, false, true)]);
    assert!(compare_pass(&settled, true, false, false).has_changes);
    assert!(compare_pass(&settled, false, true, false).has_changes);
    assert!(!compare_pass(&vec![], false, true, false).has_changes);
}

#[test]
fn iteration_steps() {
    assert_eq!(iteration_step(0, 2, true), IterationStep::Reexamine);
    assert_eq!(iteration_step(2, 2, true), IterationStep::Reexamine);
    assert_eq!(iteration_step(1, 2, false), IterationStep::Settle);
    assert_eq!(iteration_step(3, 2, true), IterationStep::Stop);
    assert_eq!(iteration_step(3, 2, false), IterationStep::Stop);
}

#[test]
fn passes_are_bounded_by_the_assignment_depth() {
    for depth in 0..4usize {
        let mut pass = 0usize;
        let mut reexamined = 0usize;
        loop {
            match iteration_step(pass, depth, true) {
                IterationStep::Reexamine => {
                    reexamined += 1;
                    pass += 1;
                }
                _ => break,
            }
        }
        assert_eq!(reexamined, depth + 1);
    }
}

#[test]
fn condition_variable_resets() {
    assert_eq!(condition_variable_reset(true, true, true), ConditionVariableReset::PreLoopType);
    assert_eq!(condition_variable_reset(false, false, true), ConditionVariableReset::PreLoopType);
    assert_eq!(condition_variable_reset(false, true, false), ConditionVariableReset::Remove);
    assert_eq!(condition_variable_reset(false, true, true), ConditionVariableReset::Keep);
}
