use dbdm::config_parser::Link;
use dbdm::plan::{
    build_plan, classify, confirmation_gate, node_is_empty, plan_is_resolved, plan_report,
    resolve_plan, Action, Choice, DestState, FsNode, LinkFacts,
};

fn link(from: &str, to: &str) -> Link {
    Link { from: String::from(from), to: String::from(to) }
}

fn facts(canon_from: &str, dest: DestState) -> LinkFacts {
    LinkFacts { canon_from: String::from(canon_from), dest }
}

#[test]
fn absent_destination_is_replaced_without_prompt() {
    let (action, needs_prompt) = classify(&DestState::Absent, "/src/example", false);
    assert_eq!(action, Action::Replace);
    assert!(!needs_prompt);
}

#[test]
fn correctly_linked_destination_is_ignored() {
    let dest = DestState::Symlink { canon_target: String::from("/src/example") };
    let (action, needs_prompt) = classify(&dest, "/src/example", false);
    assert_eq!(action, Action::Ignore);
    assert!(!needs_prompt);
}

#[test]
fn symlink_elsewhere_awaits_decision_when_not_forced() {
    let dest = DestState::Symlink { canon_target: String::from("/other/place") };
    let (action, needs_prompt) = classify(&dest, "/src/example", false);
    assert_eq!(action, Action::Pending);
    assert!(needs_prompt);
}

#[test]
fn empty_file_destination_is_replaced_without_prompt() {
    // a source file and an empty destination file, non-forced
    let dest = DestState::Present { node: FsNode::File { len: 0 } };
    let (action, needs_prompt) = classify(&dest, "/src/example", false);
    assert_eq!(action, Action::Replace);
    assert!(!needs_prompt);
}

#[test]
fn empty_nested_directory_is_replaced_without_prompt() {
    // a directory holding only an empty nested directory, non-forced
    let dest = DestState::Present {
        node: FsNode::Dir { entries: vec![FsNode::Dir { entries: vec![] }] },
    };
    let (action, needs_prompt) = classify(&dest, "/src/source_dir", false);
    assert_eq!(action, Action::Replace);
    assert!(!needs_prompt);
}

#[test]
fn non_empty_destination_is_replaced_under_force() {
    let dest = DestState::Present { node: FsNode::File { len: 13 } };
    let (action, needs_prompt) = classify(&dest, "/src/example", true);
    assert_eq!(action, Action::Replace);
    assert!(!needs_prompt);
}

#[test]
fn non_empty_destination_awaits_decision_when_not_forced() {
    let dest = DestState::Present { node: FsNode::File { len: 13 } };
    let (action, needs_prompt) = classify(&dest, "/src/example", false);
    assert_eq!(action, Action::Pending);
    assert!(needs_prompt);
}

#[test]
fn subtree_with_a_symlink_is_not_empty() {
    let node = FsNode::Dir {
        entries: vec![FsNode::Dir { entries: vec![FsNode::Symlink] }, FsNode::File { len: 0 }],
    };
    assert!(!node_is_empty(&node));
}

#[test]
fn subtree_with_a_non_empty_file_is_not_empty() {
    let node = FsNode::Dir {
        entries: vec![FsNode::Dir { entries: vec![FsNode::File { len: 1 }] }],
    };
    assert!(!node_is_empty(&node));
}

#[test]
fn subtree_of_empty_files_and_directories_is_empty() {
    let node = FsNode::Dir {
        entries: vec![
            FsNode::Dir { entries: vec![FsNode::File { len: 0 }] },
            FsNode::File { len: 0 },
            FsNode::Dir { entries: vec![] },
        ],
    };
    assert!(node_is_empty(&node));
}

#[test]
fn forced_run_replaces_two_conflicting_destinations_without_prompt() {
    // one conflicting file and one conflicting directory, forced
    let links = vec![link("/src/source.txt", "/dest/linked.txt"), link("/src/source_dir", "/dest/linked_dir")];
    let all_facts = vec![
        facts("/src/source.txt", DestState::Present { node: FsNode::File { len: 13 } }),
        facts(
            "/src/source_dir",
            DestState::Present {
                node: FsNode::Dir { entries: vec![FsNode::File { len: 7 }] },
            },
        ),
    ];
    let (plan, pending) = build_plan(&links, &all_facts, true);
    assert_eq!(pending.len(), 0);
    assert_eq!(plan.items.len(), 2);
    assert_eq!(plan.items[0].action, Action::Replace);
    assert_eq!(plan.items[1].action, Action::Replace);
    assert!(plan_is_resolved(&plan));
}

#[test]
fn plan_keeps_link_order_and_collects_pending_indices() {
    let links = vec![
        link("/s/a", "/d/a"),
        link("/s/b", "/d/b"),
        link("/s/c", "/d/c"),
    ];
    let all_facts = vec![
        facts("/s/a", DestState::Absent),
        facts("/s/b", DestState::Present { node: FsNode::File { len: 9 } }),
        facts("/s/c", DestState::Present { node: FsNode::File { len: 9 } }),
    ];
    let (plan, pending) = build_plan(&links, &all_facts, false);
    assert_eq!(plan.items[0].action, Action::Replace);
    assert_eq!(plan.items[1].action, Action::Pending);
    assert_eq!(plan.items[2].action, Action::Pending);
    assert_eq!(pending, vec![1, 2]);
    assert_eq!(plan.items[0].from, "/s/a");
    assert_eq!(plan.items[0].to, "/d/a");
    assert!(plan.items[1].reason.is_none());
    assert!(!plan_is_resolved(&plan));
}

#[test]
fn resolution_assigns_decisions_and_leaves_nothing_pending() {
    let links = vec![link("/s/a", "/d/a"), link("/s/b", "/d/b")];
    let all_facts = vec![
        facts("/s/a", DestState::Present { node: FsNode::File { len: 9 } }),
        facts("/s/b", DestState::Present { node: FsNode::File { len: 9 } }),
    ];
    let (mut plan, pending) = build_plan(&links, &all_facts, false);
    let choices = vec![Choice::Backup, Choice::Skip];
    resolve_plan(&mut plan, &pending, &choices);
    assert_eq!(plan.items[0].action, Action::BackupReplace);
    assert_eq!(plan.items[1].action, Action::Skip);
    assert!(plan_is_resolved(&plan));
}

#[test]
fn declined_confirmation_stops_a_conflicted_run() {
    assert!(!confirmation_gate(false, true, false));
    assert!(confirmation_gate(false, true, true));
}

#[test]
fn confirmation_is_not_asked_for_forced_or_clean_runs() {
    assert!(confirmation_gate(true, true, false));
    assert!(confirmation_gate(false, false, false));
}

#[test]
fn report_groups_by_category_in_fixed_order_and_omits_empty_ones() {
    let mut plan = dbdm::plan::Plan { items: Vec::new() };
    plan.items.push(dbdm::plan::PlanItem {
        from: String::from("/s/a"),
        to: String::from("/d/a"),
        action: Action::Replace,
        reason: None,
    });
    plan.items.push(dbdm::plan::PlanItem {
        from: String::from("/s/b"),
        to: String::from("/d/b"),
        action: Action::Skip,
        reason: Some(String::from("replace failed")),
    });
    plan.items.push(dbdm::plan::PlanItem {
        from: String::from("/s/c"),
        to: String::from("/d/c"),
        action: Action::Replace,
        reason: None,
    });
    let report = plan_report(&plan);
    assert_eq!(report.len(), 2);
    assert_eq!(report[0].label, "skipped");
    assert_eq!(report[0].entries.len(), 1);
    assert_eq!(report[0].entries[0].to, "/d/b");
    assert_eq!(report[0].entries[0].reason, Some(String::from("replace failed")));
    assert_eq!(report[1].label, "replaced");
    assert_eq!(report[1].entries.len(), 2);
    assert_eq!(report[1].entries[0].to, "/d/a");
    assert_eq!(report[1].entries[1].to, "/d/c");
    assert_eq!(report[1].entries[0].reason, None);
}
