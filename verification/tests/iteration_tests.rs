use mago_analyzer::iteration::{merge_do_while_issues, widen_loop_integer_bounds, RecordedIssue};
use mago_analyzer::jumps::{plan_continue, BreakContext, ContinueAction, ContinueIssue, ContinueLevel};
use mago_analyzer::loops::IntegerBounds;

fn bounds(lower: Option<i64>, upper: Option<i64>) -> IntegerBounds {
    IntegerBounds { lower, upper }
}

fn issue(code: Option<&str>, details: &str) -> RecordedIssue {
    RecordedIssue { code: code.map(|c| c.as_bytes().to_vec()), details: details.as_bytes().to_vec() }
}

#[test]
fn a_growing_counter_loses_its_upper_bound() {
    let parent = bounds(Some(0), Some(0));
    let body = vec![bounds(Some(1), Some(1)), bounds(Some(0), Some(0))];
    assert_eq!(widen_loop_integer_bounds(parent, &body), Some(bounds(Some(0), None)));
}

#[test]
fn a_shrinking_counter_loses_its_lower_bound() {
    let parent = bounds(Some(10), Some(10));
    let body = vec![bounds(Some(9), Some(9))];
    assert_eq!(widen_loop_integer_bounds(parent, &body), Some(bounds(None, Some(9))));
}

#[test]
fn a_range_within_the_parent_range_stands() {
    let parent = bounds(Some(0), Some(100));
    assert_eq!(widen_loop_integer_bounds(parent, &vec![bounds(Some(5), Some(50))]), None);
    assert_eq!(widen_loop_integer_bounds(parent, &vec![]), None);
    let unbounded_parent = bounds(None, None);
    assert_eq!(widen_loop_integer_bounds(unbounded_parent, &vec![bounds(Some(-3), Some(3))]), None);
}

#[test]
fn an_unbounded_body_side_counts_as_moved() {
    let parent = bounds(Some(0), Some(5));
    assert_eq!(widen_loop_integer_bounds(parent, &vec![bounds(Some(1), None)]), None);
    assert_eq!(widen_loop_integer_bounds(parent, &vec![bounds(Some(-1), Some(2)), bounds(Some(1), Some(9))]), Some(bounds(None, None)));
}

#[test]
fn do_while_issues_keep_first_iteration_safety_issues() {
    let mut recorded = vec![issue(Some("possibly-null-argument"), "a")];
    let first = vec![
        issue(Some("redundant-condition"), "b"),
        issue(Some("possibly-null-argument"), "a"),
        issue(Some("invalid-argument"), "c"),
        issue(None, "d"),
        issue(Some("invalid-argument"), "c"),
        issue(Some("impossible-condition"), "e"),
    ];
    merge_do_while_issues(&mut recorded, &first);
    let details: Vec<Vec<u8>> = recorded.iter().map(|i| i.details.clone()).collect();
    assert_eq!(details, vec![b"a".to_vec(), b"c".to_vec(), b"d".to_vec()]);
}

#[test]
fn continue_targets() {
    let contexts = vec![BreakContext::Loop, BreakContext::Switch];
    let plan = plan_continue(None, &contexts, 1);
    assert!(plan.issues.is_empty());
    assert_eq!(plan.target, Some((1, ContinueAction::LeaveSwitch)));
    let plan = plan_continue(Some(ContinueLevel::Integer(2)), &contexts, 1);
    assert!(plan.issues.is_empty());
    assert_eq!(plan.target, Some((1, ContinueAction::Continue)));
    let nested = vec![BreakContext::Loop, BreakContext::Loop];
    let plan = plan_continue(Some(ContinueLevel::Integer(2)), &nested, 2);
    assert_eq!(plan.target, Some((2, ContinueAction::Continue)));
    assert!(plan.ends_block);
}

#[test]
fn continue_errors() {
    let contexts = vec![BreakContext::Loop];
    let plan = plan_continue(Some(ContinueLevel::Integer(0)), &contexts, 1);
    assert_eq!(plan.issues, vec![ContinueIssue::NonPositiveLevel]);
    assert_eq!(plan.target, None);
    assert!(plan.ends_block);
    let plan = plan_continue(Some(ContinueLevel::Integer(3)), &contexts, 1);
    assert_eq!(plan.issues, vec![ContinueIssue::TooManyLevels { requested: 3, available: 1 }]);
    let plan = plan_continue(Some(ContinueLevel::Other), &contexts, 1);
    assert_eq!(plan.issues, vec![ContinueIssue::NonLiteralLevel]);
    assert_eq!(plan.target, Some((1, ContinueAction::Continue)));
    let plan = plan_continue(None, &vec![BreakContext::Switch], 0);
    assert_eq!(plan.issues, vec![ContinueIssue::OutsideLoop]);
    assert!(plan.ends_block);
    let plan = plan_continue(None, &vec![], 0);
    assert_eq!(plan.issues, vec![ContinueIssue::TooManyLevels { requested: 1, available: 0 }]);
}
