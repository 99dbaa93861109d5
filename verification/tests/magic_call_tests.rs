use mago_analyzer::magic_calls::{
    instance_magic_call_issue, static_magic_call_issue, MagicCallClass, MagicCallIssue, ParentMethods,
};

fn class(is_final: bool, is_abstract: bool, is_interface: bool, has_pseudo_method: bool) -> MagicCallClass {
    MagicCallClass { is_interface, is_final, is_abstract, has_pseudo_method }
}

#[test]
fn instance_calls_to_documented_magic_methods() {
    let open = class(false, false, false, true);
    let closed = class(true, false, false, true);
    assert_eq!(instance_magic_call_issue(open, &vec![], true, true), Some(MagicCallIssue::DynamicStaticMethodCall));
    assert_eq!(instance_magic_call_issue(open, &vec![], false, true), None);
    assert_eq!(instance_magic_call_issue(open, &vec![], false, false), Some(MagicCallIssue::PossiblyMissingMagicCall));
    assert_eq!(instance_magic_call_issue(closed, &vec![], false, false), Some(MagicCallIssue::MagicCallWithoutCallMethod));
    assert_eq!(
        instance_magic_call_issue(class(true, true, false, true), &vec![], false, false),
        Some(MagicCallIssue::PossiblyMissingMagicCall)
    );
    assert_eq!(instance_magic_call_issue(class(true, false, true, true), &vec![], false, false), None);
}

#[test]
fn methods_inherited_for_real_need_no_magic_call() {
    let closed = class(true, false, false, true);
    let real_parent = vec![ParentMethods { has_method: true, has_pseudo_method: false }];
    assert_eq!(instance_magic_call_issue(closed, &real_parent, false, false), None);
    let documented_parent = vec![ParentMethods { has_method: true, has_pseudo_method: true }];
    assert_eq!(
        instance_magic_call_issue(closed, &documented_parent, false, false),
        Some(MagicCallIssue::MagicCallWithoutCallMethod)
    );
    let not_documented = class(true, false, false, false);
    assert_eq!(
        instance_magic_call_issue(not_documented, &real_parent, false, false),
        Some(MagicCallIssue::MagicCallWithoutCallMethod)
    );
    let both = vec![
        ParentMethods { has_method: true, has_pseudo_method: true },
        ParentMethods { has_method: true, has_pseudo_method: false },
    ];
    assert_eq!(instance_magic_call_issue(not_documented, &both, false, false), None);
}

#[test]
fn static_calls_to_documented_magic_methods() {
    let closed = class(true, false, false, true);
    assert_eq!(static_magic_call_issue(closed, false, false), Some(MagicCallIssue::MagicCallWithoutCallMethod));
    assert_eq!(static_magic_call_issue(class(false, false, false, true), false, false), Some(MagicCallIssue::PossiblyMissingMagicCall));
    assert_eq!(static_magic_call_issue(closed, true, false), None);
    assert_eq!(static_magic_call_issue(closed, false, true), None);
    assert_eq!(static_magic_call_issue(class(true, false, true, true), false, false), None);
}
