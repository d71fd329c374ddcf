use dbdm::executor::{
    backup_base_name, backup_dir_for, backup_replace_ops, mark_backup_failed, mark_replace_failed,
    replace_ops, resolve_error_message, resolve_link_destination, FsOp, PathKind, ResolveError,
};
use dbdm::plan::{Action, PlanItem};

#[test]
fn directory_source_refuses_a_file_destination() {
    let r = resolve_link_destination("/src/dir", "/dest/file", PathKind::IsDir, PathKind::IsFile);
    assert_eq!(r, Err(ResolveError::DestIsFileForDirSource));
    let msg = resolve_error_message(ResolveError::DestIsFileForDirSource, "/src/dir", "/dest/file");
    assert_eq!(msg, "destination is file for directory source: /dest/file");
}

#[test]
fn directory_source_links_exactly_at_the_destination() {
    let r = resolve_link_destination("/src/dir", "/dest/dir", PathKind::IsDir, PathKind::IsDir);
    assert_eq!(r, Ok(String::from("/dest/dir")));
    let r2 = resolve_link_destination("/src/dir", "/dest/new", PathKind::IsDir, PathKind::Missing);
    assert_eq!(r2, Ok(String::from("/dest/new")));
}

#[test]
fn file_source_links_into_a_directory_destination_under_its_name() {
    let r = resolve_link_destination(
        "/src/.gitconfig",
        "/home/user",
        PathKind::IsFile,
        PathKind::IsDir,
    );
    assert_eq!(r, Ok(String::from("/home/user/.gitconfig")));
}

#[test]
fn file_source_without_basename_is_refused_for_a_directory_destination() {
    let r = resolve_link_destination("/..", "/home/user", PathKind::IsFile, PathKind::IsDir);
    assert_eq!(r, Err(ResolveError::SourceHasNoBasename));
    let msg = resolve_error_message(ResolveError::SourceHasNoBasename, "/..", "/home/user");
    assert_eq!(msg, "source has no basename: /..");
}

#[test]
fn file_source_links_at_the_destination_itself_otherwise() {
    let r = resolve_link_destination("/s/f", "/d/f", PathKind::IsFile, PathKind::IsFile);
    assert_eq!(r, Ok(String::from("/d/f")));
    let r2 = resolve_link_destination("/s/f", "/d/gone", PathKind::IsFile, PathKind::Missing);
    assert_eq!(r2, Ok(String::from("/d/gone")));
}

#[test]
fn backup_directory_is_the_source_for_a_directory_source() {
    assert_eq!(backup_dir_for("/dotfiles/nvim", PathKind::IsDir), "/dotfiles/nvim");
}

#[test]
fn backup_directory_is_the_source_parent_for_a_file_source() {
    assert_eq!(backup_dir_for("/dotfiles/.gitconfig", PathKind::IsFile), "/dotfiles");
}

#[test]
fn backup_base_name_falls_back_when_destination_has_none() {
    assert_eq!(backup_base_name("/config/nvim"), "nvim");
    assert_eq!(backup_base_name("/"), "backup");
}

#[test]
fn replace_of_a_missing_destination_only_links() {
    let ops = replace_ops("/s/f", "/d/f", PathKind::Missing);
    assert_eq!(
        ops,
        vec![FsOp::MakeSymlink { from: String::from("/s/f"), at: String::from("/d/f") }]
    );
}

#[test]
fn replace_of_a_file_unlinks_then_links_without_backup() {
    let ops = replace_ops("/s/f", "/d/f", PathKind::IsFile);
    assert_eq!(
        ops,
        vec![
            FsOp::RemoveFile { path: String::from("/d/f") },
            FsOp::MakeSymlink { from: String::from("/s/f"), at: String::from("/d/f") },
        ]
    );
    // the prior content is discarded: no rename appears
    assert!(!ops.iter().any(|op| matches!(op, FsOp::Rename { .. })));
}

#[test]
fn replace_of_a_directory_removes_it_recursively() {
    let ops = replace_ops("/s/d", "/d/d", PathKind::IsDir);
    assert_eq!(ops[0], FsOp::RemoveDir { path: String::from("/d/d") });
}

#[test]
fn backup_replace_moves_content_aside_then_links() {
    // destination file resolved via the backup choice: the backup lands in
    // the source's parent under the destination's name with the marker
    let existing: Vec<String> = Vec::new();
    let (ops, backup) = backup_replace_ops(
        "/src/source.txt",
        "/dest/linked.txt",
        PathKind::IsFile,
        &existing,
    );
    assert_eq!(backup, "/src/linked.txt.bak.dbdm");
    assert_eq!(
        ops,
        vec![
            FsOp::Rename {
                src: String::from("/dest/linked.txt"),
                dst: String::from("/src/linked.txt.bak.dbdm"),
            },
            FsOp::MakeSymlink {
                from: String::from("/src/source.txt"),
                at: String::from("/dest/linked.txt"),
            },
        ]
    );
}

#[test]
fn backup_replace_of_a_directory_backs_up_into_the_source_itself() {
    let existing: Vec<String> = vec![String::from("init.lua")];
    let (ops, backup) = backup_replace_ops(
        "/dotfiles/nvim",
        "/config/nvim",
        PathKind::IsDir,
        &existing,
    );
    assert_eq!(backup, "/dotfiles/nvim/nvim.bak.dbdm");
    assert_eq!(ops.len(), 2);
}

#[test]
fn failed_replace_downgrades_the_item_to_skip() {
    let mut item = PlanItem {
        from: String::from("/s/f"),
        to: String::from("/d/f"),
        action: Action::Replace,
        reason: None,
    };
    mark_replace_failed(&mut item);
    assert_eq!(item.action, Action::Skip);
    assert_eq!(item.reason, Some(String::from("replace failed")));
    assert_eq!(item.to, "/d/f");
}

#[test]
fn failed_backup_replace_downgrades_the_item_to_skip() {
    let mut item = PlanItem {
        from: String::from("/s/f"),
        to: String::from("/d/f"),
        action: Action::BackupReplace,
        reason: None,
    };
    mark_backup_failed(&mut item);
    assert_eq!(item.action, Action::Skip);
    assert_eq!(item.reason, Some(String::from("backup+replace failed")));
}
