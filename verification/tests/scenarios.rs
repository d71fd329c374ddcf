//! Whole-run scenarios at the model level: the plan is built from observed
//! facts, conflicts are resolved, and the executor's operation sequences are
//! computed, exactly as the shell drives the library.

use dbdm::config_parser::Link;
use dbdm::executor::{backup_replace_ops, replace_ops, FsOp, PathKind};
use dbdm::plan::{
    build_plan, plan_is_resolved, resolve_plan, Action, Choice, DestState, FsNode, LinkFacts,
};

fn link(from: &str, to: &str) -> Link {
    Link { from: String::from(from), to: String::from(to) }
}

#[test]
fn empty_file_destination_ends_as_symlink_without_prompt() {
    // source file `example`, destination an empty file, non-forced
    let links = vec![link("/src/example", "/dest/linked.txt")];
    let facts = vec![LinkFacts {
        canon_from: String::from("/src/example"),
        dest: DestState::Present { node: FsNode::File { len: 0 } },
    }];
    let (plan, pending) = build_plan(&links, &facts, false);
    assert!(pending.is_empty());
    assert_eq!(plan.items[0].action, Action::Replace);

    // the destination resolves to itself (file source, file destination)
    let ops = replace_ops("/src/example", "/dest/linked.txt", PathKind::IsFile);
    assert_eq!(
        ops.last(),
        Some(&FsOp::MakeSymlink {
            from: String::from("/src/example"),
            at: String::from("/dest/linked.txt"),
        })
    );
}

#[test]
fn empty_nested_directory_destination_ends_as_symlink_without_prompt() {
    // source dir with one empty nested dir, destination dir with only an
    // empty nested dir, non-forced
    let links = vec![link("/src/source_dir", "/dest/linked_dir")];
    let facts = vec![LinkFacts {
        canon_from: String::from("/src/source_dir"),
        dest: DestState::Present {
            node: FsNode::Dir { entries: vec![FsNode::Dir { entries: vec![] }] },
        },
    }];
    let (plan, pending) = build_plan(&links, &facts, false);
    assert!(pending.is_empty());
    assert_eq!(plan.items[0].action, Action::Replace);

    let ops = replace_ops("/src/source_dir", "/dest/linked_dir", PathKind::IsDir);
    assert_eq!(
        ops,
        vec![
            FsOp::RemoveDir { path: String::from("/dest/linked_dir") },
            FsOp::MakeSymlink {
                from: String::from("/src/source_dir"),
                at: String::from("/dest/linked_dir"),
            },
        ]
    );
}

#[test]
fn backup_choice_moves_old_file_beside_the_source() {
    // destination file holding `old file`, resolved via the backup choice
    let links = vec![link("/src/source.txt", "/dest/linked.txt")];
    let facts = vec![LinkFacts {
        canon_from: String::from("/src/source.txt"),
        dest: DestState::Present { node: FsNode::File { len: 8 } },
    }];
    let (mut plan, pending) = build_plan(&links, &facts, false);
    assert_eq!(pending, vec![0]);
    resolve_plan(&mut plan, &pending, &vec![Choice::Backup]);
    assert_eq!(plan.items[0].action, Action::BackupReplace);

    let existing: Vec<String> = vec![String::from("source.txt")];
    let (ops, backup) =
        backup_replace_ops("/src/source.txt", "/dest/linked.txt", PathKind::IsFile, &existing);
    assert_eq!(backup, "/src/linked.txt.bak.dbdm");
    assert_eq!(
        ops,
        vec![
            FsOp::Rename {
                src: String::from("/dest/linked.txt"),
                dst: String::from("/src/linked.txt.bak.dbdm"),
            },
            FsOp::MakeSymlink {
                from: String::from("/src/source.txt"),
                at: String::from("/dest/linked.txt"),
            },
        ]
    );
}

#[test]
fn forced_run_discards_two_conflicting_destinations_without_backup() {
    // one conflicting file and one conflicting directory, forced
    let links = vec![
        link("/src/source.txt", "/dest/linked.txt"),
        link("/src/source_dir", "/dest/linked_dir"),
    ];
    let facts = vec![
        LinkFacts {
            canon_from: String::from("/src/source.txt"),
            dest: DestState::Present { node: FsNode::File { len: 13 } },
        },
        LinkFacts {
            canon_from: String::from("/src/source_dir"),
            dest: DestState::Present {
                node: FsNode::Dir { entries: vec![FsNode::File { len: 7 }] },
            },
        },
    ];
    let (plan, pending) = build_plan(&links, &facts, true);
    assert!(pending.is_empty());
    assert!(plan_is_resolved(&plan));

    for (item, kind) in plan.items.iter().zip([PathKind::IsFile, PathKind::IsDir]) {
        assert_eq!(item.action, Action::Replace);
        let ops = replace_ops(&item.from, &item.to, kind);
        // the prior content is discarded, never renamed into a backup
        assert!(!ops.iter().any(|op| matches!(op, FsOp::Rename { .. })));
        assert!(matches!(ops.last(), Some(FsOp::MakeSymlink { .. })));
    }
}
