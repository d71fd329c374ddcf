//! The executor's decision logic: resolving the concrete destination of a
//! link, choosing the backup location and name, and computing the exact
//! sequence of filesystem operations an action performs. The effect of those
//! operations is stated over a model filesystem, a map from a path to the
//! whole object stored at it.

use vstd::prelude::*;
use crate::plan::Action;
use crate::plan::PlanItem;
use crate::plan::opt_view;

verus! {

/// The kind of filesystem entry found at a path, as one metadata probe
/// reports it; `IsDir` also stands for any entry that is neither a regular
/// file nor a symlink.
#[derive(Clone, Copy, Debug, PartialEq, Eq, Structural)]
pub enum PathKind {
    Missing,
    IsFile,
    IsDir,
    IsSymlink,
}

/// Why the concrete destination of a link could not be resolved.
#[derive(Clone, Copy, Debug, PartialEq, Eq, Structural)]
pub enum ResolveError {
    /// A directory link cannot be placed where a regular file sits.
    DestIsFileForDirSource,
    /// A file source with no final path component cannot be linked into a
    /// destination directory.
    SourceHasNoBasename,
}

/// The message reported for a resolution error.
pub open spec fn spec_resolve_error_message(e: ResolveError, from: Seq<char>, to: Seq<char>) -> Seq<
    char,
> {
    match e {
        ResolveError::DestIsFileForDirSource => "destination is file for directory source: "@ + to,
        ResolveError::SourceHasNoBasename => "source has no basename: "@ + from,
    }
}

/// Formats a resolution error as the run's error list reports it.
pub fn resolve_error_message(e: ResolveError, from: &str, to: &str) -> (r: String)
    ensures
        r@ == spec_resolve_error_message(e, from@, to@),
{
    match e {
        ResolveError::DestIsFileForDirSource => crate::text::str_concat(
            "destination is file for directory source: ",
            to,
        ),
        ResolveError::SourceHasNoBasename => crate::text::str_concat(
            "source has no basename: ",
            from,
        ),
    }
}

/// The concrete path at which the symlink must be created. A directory source
/// refuses a regular-file destination and otherwise links exactly at `to`; a
/// non-directory source links into a destination directory under its own file
/// name, and otherwise at `to` itself.
pub open spec fn spec_resolve_link_destination(
    from: Seq<char>,
    to: Seq<char>,
    from_kind: PathKind,
    to_kind: PathKind,
) -> Result<Seq<char>, ResolveError> {
    if from_kind is IsDir {
        if to_kind is IsFile {
            Err(ResolveError::DestIsFileForDirSource)
        } else {
            Ok(to)
        }
    } else {
        if to_kind is IsDir {
            match crate::path::spec_file_name(from) {
                None => Err(ResolveError::SourceHasNoBasename),
                Some(name) => Ok(crate::path::spec_join(to, name)),
            }
        } else {
            Ok(to)
        }
    }
}

/// Resolves the concrete destination path for a link. `from_kind` is what a
/// metadata probe (following symlinks) reports for the source, `to_kind` what
/// a symlink metadata probe reports for the destination.
pub fn resolve_link_destination(
    from: &str,
    to: &str,
    from_kind: PathKind,
    to_kind: PathKind,
) -> (r: Result<String, ResolveError>)
    requires
        !(from_kind is Missing),
    ensures
        match r {
            Ok(d) => spec_resolve_link_destination(from@, to@, from_kind, to_kind) == Ok::<
                Seq<char>,
                ResolveError,
            >(d@),
            Err(e) => spec_resolve_link_destination(from@, to@, from_kind, to_kind) == Err::<
                Seq<char>,
                ResolveError,
            >(e),
        },
{
    if from_kind == PathKind::IsDir {
        if to_kind == PathKind::IsFile {
            Err(ResolveError::DestIsFileForDirSource)
        } else {
            Ok(to.to_owned())
        }
    } else {
        if to_kind == PathKind::IsDir {
            match crate::path::path_file_name(from) {
                None => Err(ResolveError::SourceHasNoBasename),
                Some(name) => Ok(crate::path::path_join(to, name.as_str())),
            }
        } else {
            Ok(to.to_owned())
        }
    }
}

/// The directory that receives a backup: the source itself when the source is
/// currently a directory, otherwise the source's parent, falling back to the
/// source when it has none.
pub open spec fn spec_backup_dir(from: Seq<char>, from_kind: PathKind) -> Seq<char> {
    if from_kind is IsDir {
        from
    } else {
        match crate::path::spec_parent(from) {
            Some(p) => p,
            None => from,
        }
    }
}

/// Chooses the backup directory for a link's source.
pub fn backup_dir_for(from: &str, from_kind: PathKind) -> (r: String)
    ensures
        r@ == spec_backup_dir(from@, from_kind),
{
    if from_kind == PathKind::IsDir {
        from.to_owned()
    } else {
        match crate::path::path_parent(from) {
            Some(p) => p,
            None => from.to_owned(),
        }
    }
}

/// The base name a backup is derived from: the resolved destination's file
/// name, or a fixed fallback when it has none.
pub open spec fn spec_backup_base(dest: Seq<char>) -> Seq<char> {
    match crate::path::spec_file_name(dest) {
        Some(n) => n,
        None => "backup"@,
    }
}

/// Computes the backup base name for a resolved destination.
pub fn backup_base_name(dest: &str) -> (r: String)
    ensures
        r@ == spec_backup_base(dest@),
{
    match crate::path::path_file_name(dest) {
        Some(n) => n,
        None => "backup".to_owned(),
    }
}

/// One filesystem mutation the executor performs.
#[derive(Clone, Debug, PartialEq)]
pub enum FsOp {
    /// Unlink a regular file or a symlink.
    RemoveFile { path: String },
    /// Remove a directory and its contents.
    RemoveDir { path: String },
    /// Move an entry to a new path.
    Rename { src: String, dst: String },
    /// Create a symlink at `at` pointing at `from`.
    MakeSymlink { from: String, at: String },
}

/// The mathematical form of a filesystem mutation.
pub enum FsOpView {
    RemoveFile { path: Seq<char> },
    RemoveDir { path: Seq<char> },
    Rename { src: Seq<char>, dst: Seq<char> },
    MakeSymlink { from: Seq<char>, at: Seq<char> },
}

impl View for FsOp {
    type V = FsOpView;

    open spec fn view(&self) -> FsOpView {
        match self {
            FsOp::RemoveFile { path } => FsOpView::RemoveFile { path: path@ },
            FsOp::RemoveDir { path } => FsOpView::RemoveDir { path: path@ },
            FsOp::Rename { src, dst } => FsOpView::Rename { src: src@, dst: dst@ },
            FsOp::MakeSymlink { from, at } => FsOpView::MakeSymlink { from: from@, at: at@ },
        }
    }
}

/// The views of a sequence of operations.
pub open spec fn ops_view(ops: Seq<FsOp>) -> Seq<FsOpView> {
    ops.map_values(|op: FsOp| op@)
}

/// The removal a replace performs first: nothing for an absent entry, an
/// unlink for a file or symlink, a recursive removal for anything else.
pub open spec fn spec_removal_ops(dest: Seq<char>, dest_kind: PathKind) -> Seq<FsOpView> {
    match dest_kind {
        PathKind::Missing => seq![],
        PathKind::IsFile => seq![FsOpView::RemoveFile { path: dest }],
        PathKind::IsSymlink => seq![FsOpView::RemoveFile { path: dest }],
        PathKind::IsDir => seq![FsOpView::RemoveDir { path: dest }],
    }
}

/// The operations a `Replace` performs at the resolved destination.
pub open spec fn spec_replace_ops(from: Seq<char>, dest: Seq<char>, dest_kind: PathKind) -> Seq<
    FsOpView,
> {
    spec_removal_ops(dest, dest_kind) + seq![FsOpView::MakeSymlink { from, at: dest }]
}

/// Computes the operations of a `Replace`: remove whatever sits at the
/// resolved destination, then link it to the source.
pub fn replace_ops(from: &str, dest: &str, dest_kind: PathKind) -> (ops: Vec<FsOp>)
    ensures
        ops_view(ops@) == spec_replace_ops(from@, dest@, dest_kind),
{
    let mut ops: Vec<FsOp> = Vec::new();
    match dest_kind {
        PathKind::Missing => {},
        PathKind::IsFile => ops.push(FsOp::RemoveFile { path: dest.to_owned() }),
        PathKind::IsSymlink => ops.push(FsOp::RemoveFile { path: dest.to_owned() }),
        PathKind::IsDir => ops.push(FsOp::RemoveDir { path: dest.to_owned() }),
    }
    ops.push(FsOp::MakeSymlink { from: from.to_owned(), at: dest.to_owned() });
    proof {
        assert(ops_view(ops@) =~= spec_replace_ops(from@, dest@, dest_kind));
    }
    ops
}

/// The operations a `BackupReplace` performs at the resolved destination,
/// once the backup path is chosen: move the content aside, then link.
pub open spec fn spec_backup_ops(from: Seq<char>, dest: Seq<char>, backup: Seq<char>) -> Seq<
    FsOpView,
> {
    seq![
        FsOpView::Rename { src: dest, dst: backup },
        FsOpView::MakeSymlink { from, at: dest },
    ]
}

/// Computes the operations of a `BackupReplace` together with the chosen
/// backup path: the first non-clashing name of the backup scheme inside the
/// backup directory, given the names already present there.
pub fn backup_replace_ops(from: &str, dest: &str, from_kind: PathKind, existing: &Vec<String>) -> (r:
    (Vec<FsOp>, String))
    ensures
        ops_view(r.0@) == spec_backup_ops(from@, dest@, r.1@),
        exists|k: nat|
            {
                &&& r.1@ == crate::path::spec_join(
                    spec_backup_dir(from@, from_kind),
                    #[trigger] crate::spec_backup_candidate(spec_backup_base(dest@), k),
                )
                &&& !crate::names_view(existing@).contains(
                    crate::spec_backup_candidate(spec_backup_base(dest@), k),
                )
                &&& forall|j: nat|
                    j < k ==> crate::names_view(existing@).contains(
                        #[trigger] crate::spec_backup_candidate(spec_backup_base(dest@), j),
                    )
            },
{
    let dir = backup_dir_for(from, from_kind);
    let base = backup_base_name(dest);
    let backup = crate::unique_backup_path(dir.as_str(), base.as_str(), existing);
    let mut ops: Vec<FsOp> = Vec::new();
    ops.push(FsOp::Rename { src: dest.to_owned(), dst: backup.clone() });
    ops.push(FsOp::MakeSymlink { from: from.to_owned(), at: dest.to_owned() });
    proof {
        assert(ops_view(ops@) =~= spec_backup_ops(from@, dest@, backup@));
    }
    (ops, backup)
}

/// Downgrades an item whose replace failed: the action becomes `Skip` and the
/// reason records the failure; the paths are untouched.
pub fn mark_replace_failed(item: &mut PlanItem)
    ensures
        final(item).action is Skip,
        opt_view(final(item).reason) == Some("replace failed"@),
        final(item).from@ == old(item).from@,
        final(item).to@ == old(item).to@,
{
    item.action = Action::Skip;
    item.reason = Some("replace failed".to_owned());
}

/// Downgrades an item whose backup-replace failed, in the same way.
pub fn mark_backup_failed(item: &mut PlanItem)
    ensures
        final(item).action is Skip,
        opt_view(final(item).reason) == Some("backup+replace failed"@),
        final(item).from@ == old(item).from@,
        final(item).to@ == old(item).to@,
{
    item.action = Action::Skip;
    item.reason = Some("backup+replace failed".to_owned());
}

/// A whole filesystem object: a file's bytes, a directory with its complete
/// subtree, or a symlink with its target.
pub enum FsObj {
    FileObj { bytes: Seq<u8> },
    DirObj { entries: Map<Seq<char>, FsObj> },
    LinkObj { target: Seq<char> },
}

/// The model filesystem: each path of interest maps to the whole object
/// stored at it. The paths a run touches are not nested in one another, so
/// moving an object moves its subtree with it.
pub open spec fn apply_op(m: Map<Seq<char>, FsObj>, op: FsOpView) -> Map<Seq<char>, FsObj> {
    match op {
        FsOpView::RemoveFile { path } => m.remove(path),
        FsOpView::RemoveDir { path } => m.remove(path),
        FsOpView::Rename { src, dst } => if m.dom().contains(src) {
            m.remove(src).insert(dst, m[src])
        } else {
            m
        },
        FsOpView::MakeSymlink { from, at } => m.insert(at, FsObj::LinkObj { target: from }),
    }
}

/// The model filesystem after performing `ops` in order.
pub open spec fn apply_ops(m: Map<Seq<char>, FsObj>, ops: Seq<FsOpView>) -> Map<Seq<char>, FsObj>
    decreases ops.len(),
{
    if ops.len() == 0 {
        m
    } else {
        apply_ops(apply_op(m, ops[0]), ops.skip(1))
    }
}

/// After a `Replace` the destination holds a symlink to the source, whatever
/// stood there before, and no other path is touched.
pub proof fn lemma_replace_ops_make_link(
    m: Map<Seq<char>, FsObj>,
    from: Seq<char>,
    dest: Seq<char>,
    dest_kind: PathKind,
)
    ensures
        ({
            let m2 = apply_ops(m, spec_replace_ops(from, dest, dest_kind));
            &&& m2.dom().contains(dest)
            &&& m2[dest] == (FsObj::LinkObj { target: from })
            &&& forall|p: Seq<char>|
                p != dest ==> (#[trigger] m2.dom().contains(p) == m.dom().contains(p)) && (
                m.dom().contains(p) ==> m2[p] == m[p])
        }),
{
    let ops = spec_replace_ops(from, dest, dest_kind);
    if dest_kind is Missing {
        assert(ops.len() == 1);
        let m1 = apply_op(m, ops[0]);
        assert(ops.skip(1).len() == 0);
        assert(apply_ops(m1, ops.skip(1)) == m1);
        assert(apply_ops(m, ops) == apply_ops(m1, ops.skip(1)));
    } else {
        assert(ops.len() == 2);
        let m1 = apply_op(m, ops[0]);
        let rest = ops.skip(1);
        assert(rest[0] == ops[1]);
        let m2 = apply_op(m1, rest[0]);
        assert(rest.skip(1).len() == 0);
        assert(apply_ops(m2, rest.skip(1)) == m2);
        assert(apply_ops(m1, rest) == apply_ops(m2, rest.skip(1)));
        assert(apply_ops(m, ops) == apply_ops(m1, rest));
    }
}

/// A `BackupReplace` moves the destination's prior content — byte for byte,
/// entry for entry — to the backup path, links the destination to the source,
/// and touches no other path.
pub proof fn lemma_backup_round_trip(
    m: Map<Seq<char>, FsObj>,
    from: Seq<char>,
    dest: Seq<char>,
    backup: Seq<char>,
)
    requires
        m.dom().contains(dest),
        backup != dest,
    ensures
        ({
            let m2 = apply_ops(m, spec_backup_ops(from, dest, backup));
            &&& m2.dom().contains(backup) && m2[backup] == m[dest]
            &&& m2.dom().contains(dest) && m2[dest] == (FsObj::LinkObj { target: from })
            &&& forall|p: Seq<char>|
                p != dest && p != backup ==> (#[trigger] m2.dom().contains(p) == m.dom().contains(
                    p,
                )) && (m.dom().contains(p) ==> m2[p] == m[p])
        }),
{
    let ops = spec_backup_ops(from, dest, backup);
    assert(ops.len() == 2);
    let m1 = apply_op(m, ops[0]);
    let rest = ops.skip(1);
    assert(rest[0] == ops[1]);
    let m2 = apply_op(m1, rest[0]);
    assert(rest.skip(1).len() == 0);
    assert(apply_ops(m2, rest.skip(1)) == m2);
    assert(apply_ops(m1, rest) == apply_ops(m2, rest.skip(1)));
    assert(apply_ops(m, ops) == apply_ops(m1, rest));
}

/// A run that performs no operation — every item ignored or skipped, or the
/// confirmation declined before execution — leaves the filesystem unchanged.
pub proof fn lemma_no_ops_no_change(m: Map<Seq<char>, FsObj>)
    ensures
        apply_ops(m, Seq::empty()) == m,
{
}

/// A destination that does not exist is planned as `Replace`, forced or not,
/// and executing that replace leaves the destination a symlink to the source
/// while touching no other path.
pub proof fn lemma_absent_destination_replaced(
    m: Map<Seq<char>, FsObj>,
    from: Seq<char>,
    dest: Seq<char>,
    canon_from: Seq<char>,
    force: bool,
)
    ensures
        crate::plan::spec_classify(crate::plan::DestState::Absent, canon_from, force)
            == Action::Replace,
        ({
            let m2 = apply_ops(m, spec_replace_ops(from, dest, PathKind::Missing));
            &&& m2.dom().contains(dest) && m2[dest] == (FsObj::LinkObj { target: from })
            &&& forall|p: Seq<char>|
                p != dest ==> (#[trigger] m2.dom().contains(p) == m.dom().contains(p)) && (
                m.dom().contains(p) ==> m2[p] == m[p])
        }),
{
    lemma_replace_ops_make_link(m, from, dest, PathKind::Missing);
}

/// A destination already correctly symlinked to its declared source — the
/// resolved, canonicalized target equals the canonicalized source — is
/// ignored, and an item without operations mutates nothing.
pub proof fn lemma_correct_symlink_untouched(
    m: Map<Seq<char>, FsObj>,
    dest: crate::plan::DestState,
    canon_from: Seq<char>,
    force: bool,
)
    requires
        match dest {
            crate::plan::DestState::Symlink { canon_target } => canon_target@ == canon_from,
            _ => false,
        },
    ensures
        crate::plan::spec_classify(dest, canon_from, force) == Action::Ignore,
        apply_ops(m, Seq::empty()) == m,
{
}

/// An empty destination — an empty file, or a directory whose whole subtree
/// holds only empty files and directories — is planned as `Replace` even
/// without force, so it never needs a prompt.
pub proof fn lemma_empty_destination_replaced(
    node: crate::plan::FsNode,
    canon_from: Seq<char>,
    force: bool,
)
    requires
        crate::plan::spec_empty(node),
    ensures
        crate::plan::spec_classify(crate::plan::DestState::Present { node }, canon_from, force)
            == Action::Replace,
{
}

/// A non-empty conflicting destination is planned as `Replace` under a forced
/// run; without force it awaits the prompt collaborator's decision.
pub proof fn lemma_conflict_needs_force_or_decision(
    node: crate::plan::FsNode,
    canon_from: Seq<char>,
)
    requires
        !crate::plan::spec_empty(node),
    ensures
        crate::plan::spec_classify(crate::plan::DestState::Present { node }, canon_from, true)
            == Action::Replace,
        crate::plan::spec_classify(crate::plan::DestState::Present { node }, canon_from, false)
            == Action::Pending,
{
}

} // verus!
