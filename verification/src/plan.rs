//! The synchronization planner: classifies each declared link against the
//! observed state of its destination, builds the ordered plan, and resolves
//! pending conflicts with the decisions obtained from the prompt collaborator.

use vstd::prelude::*;
use crate::config_parser::Link;

verus! {

broadcast use vstd::std_specs::vec::group_vec_axioms;

/// What a run does to one declared link.
#[derive(Clone, Copy, Debug, PartialEq, Eq, Structural)]
pub enum Action {
    /// The destination is already correctly linked; nothing to do.
    Ignore,
    /// The destination is removed and replaced with a symlink, no backup.
    Replace,
    /// The destination is moved aside to a backup before replacement.
    BackupReplace,
    /// Explicitly declined, with an optional reason.
    Skip,
    /// Transient marker for a link awaiting a decision; must never survive
    /// conflict resolution.
    Pending,
}

/// A conflict decision obtained from the prompt collaborator.
#[derive(Clone, Copy, Debug, PartialEq, Eq, Structural)]
pub enum Choice {
    Replace,
    Backup,
    Skip,
}

/// The shape of a filesystem entry, as far as emptiness is concerned.
#[derive(Debug, PartialEq)]
pub enum FsNode {
    /// A regular file of `len` bytes.
    File { len: u64 },
    /// A symlink; always treated as non-empty content.
    Symlink,
    /// A directory with the given entries.
    Dir { entries: Vec<FsNode> },
}

/// A filesystem entry is empty when it is a zero-byte file or a directory
/// whose entire subtree holds only empty files and empty directories; a
/// symlink anywhere makes it non-empty.
pub open spec fn spec_empty(n: FsNode) -> bool
    decreases n,
{
    match n {
        FsNode::File { len } => len == 0,
        FsNode::Symlink => false,
        FsNode::Dir { entries } => forall|i: int|
            0 <= i < entries@.len() ==> spec_empty(#[trigger] entries@[i]),
    }
}

/// Decides emptiness of a filesystem entry.
#[verifier::loop_isolation(false)]
pub fn node_is_empty(n: &FsNode) -> (r: bool)
    ensures
        r == spec_empty(*n),
    decreases *n,
{
    match n {
        FsNode::File { len } => *len == 0,
        FsNode::Symlink => false,
        FsNode::Dir { entries } => {
            let m = entries.len();
            let mut i: usize = 0;
            while i < m
                invariant
                    i <= m,
                    forall|j: int| 0 <= j < i ==> spec_empty(#[trigger] entries@[j]),
                decreases m - i,
            {
                if !node_is_empty(&entries[i]) {
                    return false;
                }
                i += 1;
            }
            true
        },
    }
}

/// The observed disposition of a destination path, inspected without
/// following a final symlink.
#[derive(Debug, PartialEq)]
pub enum DestState {
    /// The path does not exist, or its metadata could not be read.
    Absent,
    /// The path is a symlink; `canon_target` is its resolved, canonicalized
    /// target.
    Symlink { canon_target: String },
    /// The path is an existing file or directory with the given shape.
    Present { node: FsNode },
}

/// The action for one link: an absent destination is safely replaced; a
/// symlink already resolving to the source is ignored; empty content is
/// safely replaced; anything else is replaced under force and otherwise
/// awaits a decision.
pub open spec fn spec_classify(dest: DestState, canon_from: Seq<char>, force: bool) -> Action {
    match dest {
        DestState::Absent => Action::Replace,
        DestState::Symlink { canon_target } => if canon_target@ == canon_from {
            Action::Ignore
        } else if force {
            Action::Replace
        } else {
            Action::Pending
        },
        DestState::Present { node } => if force || spec_empty(node) {
            Action::Replace
        } else {
            Action::Pending
        },
    }
}

/// Classifies one link, returning the action and whether a prompt is needed.
pub fn classify(dest: &DestState, canon_from: &str, force: bool) -> (r: (Action, bool))
    ensures
        r.0 == spec_classify(*dest, canon_from@, force),
        r.1 == (r.0 is Pending),
        dest is Absent ==> r.0 is Replace && !r.1,
        (match *dest {
            DestState::Symlink { canon_target } => canon_target@ == canon_from@,
            _ => false,
        }) ==> r.0 is Ignore && !r.1,
        (match *dest {
            DestState::Present { node } => spec_empty(node),
            _ => false,
        }) ==> r.0 is Replace && !r.1,
        force ==> !(r.0 is Pending) && !r.1,
{
    let action = match dest {
        DestState::Absent => Action::Replace,
        DestState::Symlink { canon_target } => {
            if crate::text::str_eq(canon_target.as_str(), canon_from) {
                Action::Ignore
            } else if force {
                Action::Replace
            } else {
                Action::Pending
            }
        },
        DestState::Present { node } => {
            if force || node_is_empty(node) {
                Action::Replace
            } else {
                Action::Pending
            }
        },
    };
    let needs_prompt = action == Action::Pending;
    (action, needs_prompt)
}

/// One link of the plan, with the action decided for it.
#[derive(Clone, Debug)]
pub struct PlanItem {
    pub from: String,
    pub to: String,
    pub action: Action,
    pub reason: Option<String>,
}

/// The ordered plan of one run, preserving the declared link order. Once
/// conflict resolution completes no item holds `Pending` — see
/// [`resolve_plan`] — and `Ignore` is assigned only to a destination whose
/// resolved symlink target equals the declared source — see [`spec_classify`].
#[derive(Clone, Debug)]
pub struct Plan {
    pub items: Vec<PlanItem>,
}

/// The view of an optional reason string.
pub open spec fn opt_view(o: Option<String>) -> Option<Seq<char>> {
    match o {
        None => None,
        Some(s) => Some(s@),
    }
}

/// No plan item is awaiting a decision.
pub open spec fn spec_plan_resolved(p: Plan) -> bool {
    forall|i: int| 0 <= i < p.items@.len() ==> !((#[trigger] p.items@[i]).action is Pending)
}

/// Whether the plan still holds a pending item.
pub fn plan_is_resolved(p: &Plan) -> (r: bool)
    ensures
        r == spec_plan_resolved(*p),
{
    let n = p.items.len();
    let mut i: usize = 0;
    while i < n
        invariant
            i <= n,
            n == p.items@.len(),
            forall|j: int| 0 <= j < i ==> !((#[trigger] p.items@[j]).action is Pending),
        decreases n - i,
    {
        if p.items[i].action == Action::Pending {
            return false;
        }
        i += 1;
    }
    true
}

/// The observed facts about one link: the canonicalized source path and the
/// destination's disposition.
#[derive(Debug)]
pub struct LinkFacts {
    pub canon_from: String,
    pub dest: DestState,
}

/// Builds the plan for a run: one item per link, in link order, each holding
/// the classified action and no reason; also returns the indices of the items
/// that await a decision, in increasing order.
pub fn build_plan(links: &Vec<Link>, facts: &Vec<LinkFacts>, force: bool) -> (r: (Plan, Vec<usize>))
    requires
        links@.len() == facts@.len(),
    ensures
        r.0.items@.len() == links@.len(),
        forall|i: int|
            0 <= i < links@.len() ==> {
                let it = #[trigger] r.0.items@[i];
                &&& it.from@ == links@[i].from@
                &&& it.to@ == links@[i].to@
                &&& it.action == spec_classify(facts@[i].dest, facts@[i].canon_from@, force)
                &&& it.reason is None
            },
        forall|j: int|
            0 <= j < r.1@.len() ==> #[trigger] r.1@[j] < links@.len() && r.0.items@[r.1@[j] as int].action
                is Pending,
        forall|j1: int, j2: int| 0 <= j1 < j2 < r.1@.len() ==> r.1@[j1] < r.1@[j2],
        forall|i: int|
            0 <= i < links@.len() && (#[trigger] r.0.items@[i]).action is Pending ==> exists|j: int|
                0 <= j < r.1@.len() && r.1@[j] == i,
{
    let n = links.len();
    let mut items: Vec<PlanItem> = Vec::new();
    let mut pending: Vec<usize> = Vec::new();
    let mut i: usize = 0;
    while i < n
        invariant
            i <= n,
            n == links@.len(),
            n == facts@.len(),
            items@.len() == i,
            forall|t: int|
                0 <= t < i ==> {
                    let it = #[trigger] items@[t];
                    &&& it.from@ == links@[t].from@
                    &&& it.to@ == links@[t].to@
                    &&& it.action == spec_classify(facts@[t].dest, facts@[t].canon_from@, force)
                    &&& it.reason is None
                },
            forall|j: int|
                0 <= j < pending@.len() ==> #[trigger] pending@[j] < i && items@[pending@[j] as int].action
                    is Pending,
            forall|j1: int, j2: int| 0 <= j1 < j2 < pending@.len() ==> pending@[j1] < pending@[j2],
            forall|t: int|
                0 <= t < i && (#[trigger] items@[t]).action is Pending ==> exists|j: int|
                    0 <= j < pending@.len() && pending@[j] == t,
        decreases n - i,
    {
        let link = &links[i];
        let fact = &facts[i];
        let (action, needs_prompt) = classify(&fact.dest, fact.canon_from.as_str(), force);
        let ghost pending0 = pending@;
        items.push(
            PlanItem { from: link.from.clone(), to: link.to.clone(), action, reason: None },
        );
        if needs_prompt {
            pending.push(i);
        }
        proof {
            assert forall|t: int|
                0 <= t < i + 1 && (#[trigger] items@[t]).action is Pending implies exists|j: int|
                0 <= j < pending@.len() && pending@[j] == t by {
                if t < i {
                    let j = choose|j: int| 0 <= j < pending0.len() && pending0[j] == t;
                    assert(pending@[j] == t);
                } else {
                    assert(pending@[pending@.len() - 1] == t);
                }
            }
        }
        i += 1;
    }
    (Plan { items }, pending)
}

/// The action a conflict decision selects.
pub open spec fn spec_action_of_choice(c: Choice) -> Action {
    match c {
        Choice::Replace => Action::Replace,
        Choice::Backup => Action::BackupReplace,
        Choice::Skip => Action::Skip,
    }
}

/// Maps a conflict decision to its action.
pub fn action_of_choice(c: Choice) -> (a: Action)
    ensures
        a == spec_action_of_choice(c),
{
    match c {
        Choice::Replace => Action::Replace,
        Choice::Backup => Action::BackupReplace,
        Choice::Skip => Action::Skip,
    }
}

/// Assigns the collaborator's decisions to the pending items, in plan order.
/// Afterwards no item is pending: every conflict has the decided action and
/// every other item is untouched.
pub fn resolve_plan(plan: &mut Plan, pending: &Vec<usize>, choices: &Vec<Choice>)
    requires
        pending@.len() == choices@.len(),
        forall|j: int|
            0 <= j < pending@.len() ==> #[trigger] pending@[j] < old(plan).items@.len() && old(
                plan,
            ).items@[pending@[j] as int].action is Pending,
        forall|j1: int, j2: int| 0 <= j1 < j2 < pending@.len() ==> pending@[j1] < pending@[j2],
        forall|i: int|
            0 <= i < old(plan).items@.len() && (#[trigger] old(plan).items@[i]).action is Pending
                ==> exists|j: int| 0 <= j < pending@.len() && pending@[j] == i,
    ensures
        final(plan).items@.len() == old(plan).items@.len(),
        forall|j: int|
            0 <= j < pending@.len() ==> {
                let i = #[trigger] pending@[j] as int;
                let it = final(plan).items@[i];
                &&& it.action == spec_action_of_choice(choices@[j])
                &&& it.from@ == old(plan).items@[i].from@
                &&& it.to@ == old(plan).items@[i].to@
                &&& opt_view(it.reason) == opt_view(old(plan).items@[i].reason)
            },
        forall|i: int|
            0 <= i < old(plan).items@.len() && (forall|j: int|
                0 <= j < pending@.len() ==> #[trigger] pending@[j] != i) ==> final(plan).items@[i]
                == old(plan).items@[i],
        spec_plan_resolved(*final(plan)),
{
    let n = pending.len();
    let mut j: usize = 0;
    while j < n
        invariant
            j <= n,
            n == pending@.len(),
            n == choices@.len(),
            plan.items@.len() == old(plan).items@.len(),
            forall|t: int|
                0 <= t < pending@.len() ==> #[trigger] pending@[t] < old(plan).items@.len() && old(
                    plan,
                ).items@[pending@[t] as int].action is Pending,
            forall|t1: int, t2: int| 0 <= t1 < t2 < pending@.len() ==> pending@[t1] < pending@[t2],
            forall|t: int|
                0 <= t < j ==> {
                    let i = #[trigger] pending@[t] as int;
                    let it = plan.items@[i];
                    &&& it.action == spec_action_of_choice(choices@[t])
                    &&& it.from@ == old(plan).items@[i].from@
                    &&& it.to@ == old(plan).items@[i].to@
                    &&& opt_view(it.reason) == opt_view(old(plan).items@[i].reason)
                },
            forall|i: int|
                0 <= i < old(plan).items@.len() && (forall|t: int|
                    0 <= t < j ==> #[trigger] pending@[t] != i) ==> plan.items@[i] == old(
                    plan,
                ).items@[i],
        decreases n - j,
    {
        let idx = pending[j];
        let chosen = action_of_choice(choices[j]);
        let old_reason: Option<String> = match &plan.items[idx].reason {
            None => None,
            Some(s) => Some(s.clone()),
        };
        let new_item = PlanItem {
            from: plan.items[idx].from.clone(),
            to: plan.items[idx].to.clone(),
            action: chosen,
            reason: old_reason,
        };
        plan.items.set(idx, new_item);
        j += 1;
    }
    proof {
        assert forall|i: int|
            0 <= i < plan.items@.len() implies !((#[trigger] plan.items@[i]).action
            is Pending) by {
            if old(plan).items@[i].action is Pending {
                let t = choose|t: int| 0 <= t < pending@.len() && pending@[t] == i;
                assert(plan.items@[pending@[t] as int].action == spec_action_of_choice(
                    choices@[t],
                ));
            } else {
                if forall|t: int| 0 <= t < pending@.len() ==> #[trigger] pending@[t] != i {
                } else {
                    let t = choose|t: int| 0 <= t < pending@.len() && #[trigger] pending@[t] == i;
                    assert(plan.items@[pending@[t] as int].action == spec_action_of_choice(
                        choices@[t],
                    ));
                }
            }
        }
    }
}

/// Whether the single pre-execution confirmation gates this run, and whether
/// the run proceeds: a forced run and a run without conflicts proceed
/// unconditionally; otherwise only an affirmative answer lets execution start.
pub fn confirmation_gate(force: bool, had_pending: bool, answer: bool) -> (proceed: bool)
    ensures
        proceed == (force || !had_pending || answer),
{
    force || !had_pending || answer
}

/// One line of the report: the destination and, if present, its reason.
#[derive(Debug, PartialEq)]
pub struct ReportEntry {
    pub to: String,
    pub reason: Option<String>,
}

/// One printed group of the report: a category label and its lines.
#[derive(Debug, PartialEq)]
pub struct ReportSection {
    pub label: String,
    pub entries: Vec<ReportEntry>,
}

/// The view of one report line.
pub open spec fn entry_view(e: ReportEntry) -> (Seq<char>, Option<Seq<char>>) {
    (e.to@, opt_view(e.reason))
}

/// The view of one report group.
pub open spec fn section_view(s: ReportSection) -> (Seq<char>, Seq<(Seq<char>, Option<Seq<char>>)>) {
    (s.label@, s.entries@.map_values(|e: ReportEntry| entry_view(e)))
}

/// The report lines of one category: the destination and reason of each item
/// with that action, in plan order.
pub open spec fn spec_entries_for(items: Seq<PlanItem>, a: Action) -> Seq<
    (Seq<char>, Option<Seq<char>>),
> {
    items.filter(|it: PlanItem| it.action == a).map_values(
        |it: PlanItem| (it.to@, opt_view(it.reason)),
    )
}

/// The report groups contributed by one category: none when it is empty.
pub open spec fn spec_section(items: Seq<PlanItem>, label: Seq<char>, a: Action) -> Seq<
    (Seq<char>, Seq<(Seq<char>, Option<Seq<char>>)>),
> {
    if spec_entries_for(items, a).len() == 0 {
        Seq::empty()
    } else {
        seq![(label, spec_entries_for(items, a))]
    }
}

/// The grouped report of a plan or an outcome: each category's items in plan
/// order under the category's label, in the fixed order ignored, skipped,
/// replaced, backup+replaced, empty categories omitted.
pub open spec fn spec_report(items: Seq<PlanItem>) -> Seq<
    (Seq<char>, Seq<(Seq<char>, Option<Seq<char>>)>),
> {
    spec_section(items, "ignored"@, Action::Ignore) + spec_section(items, "skipped"@, Action::Skip)
        + spec_section(items, "replaced"@, Action::Replace) + spec_section(
        items,
        "backup+replaced"@,
        Action::BackupReplace,
    )
}

/// Collects the report lines of one category.
fn entries_for(items: &Vec<PlanItem>, a: Action) -> (r: Vec<ReportEntry>)
    ensures
        r@.map_values(|e: ReportEntry| entry_view(e)) == spec_entries_for(items@, a),
{
    let n = items.len();
    let mut out: Vec<ReportEntry> = Vec::new();
    let mut i: usize = 0;
    proof {
        reveal(Seq::filter);
        assert(items@.take(0) =~= Seq::<PlanItem>::empty());
        assert(out@.map_values(|e: ReportEntry| entry_view(e)) =~= spec_entries_for(
            items@.take(0),
            a,
        ));
    }
    while i < n
        invariant
            i <= n,
            n == items@.len(),
            out@.map_values(|e: ReportEntry| entry_view(e)) == spec_entries_for(
                items@.take(i as int),
                a,
            ),
        decreases n - i,
    {
        let it = &items[i];
        let ghost m0 = out@.map_values(|e: ReportEntry| entry_view(e));
        if it.action == a {
            let reason_c: Option<String> = match &it.reason {
                None => None,
                Some(s) => Some(s.clone()),
            };
            out.push(ReportEntry { to: it.to.clone(), reason: reason_c });
        }
        proof {
            reveal(Seq::filter);
            let pred = |x: PlanItem| x.action == a;
            let g = |x: PlanItem| (x.to@, opt_view(x.reason));
            let t0 = items@.take(i as int);
            let t1 = items@.take(i as int + 1);
            assert(t1.drop_last() =~= t0);
            assert(t1.last() == items@[i as int]);
            if pred(items@[i as int]) {
                assert(t1.filter(pred) == t0.filter(pred).push(items@[i as int]));
                assert(t1.filter(pred).map_values(g) =~= t0.filter(pred).map_values(g).push(
                    g(items@[i as int]),
                ));
                assert(out@.map_values(|e: ReportEntry| entry_view(e)) =~= m0.push(
                    g(items@[i as int]),
                ));
            } else {
                assert(t1.filter(pred) == t0.filter(pred));
            }
        }
        i += 1;
    }
    proof {
        assert(items@.take(n as int) =~= items@);
    }
    out
}

/// Appends the report group of one category, unless the category is empty.
fn push_section(out: &mut Vec<ReportSection>, items: &Vec<PlanItem>, a: Action, label: &str)
    ensures
        final(out)@.map_values(|s: ReportSection| section_view(s)) == old(out)@.map_values(
            |s: ReportSection| section_view(s),
        ) + spec_section(items@, label@, a),
{
    let ghost sv = |s: ReportSection| section_view(s);
    let entries = entries_for(items, a);
    if entries.len() > 0 {
        let ghost m0 = out@.map_values(sv);
        out.push(ReportSection { label: label.to_owned(), entries });
        proof {
            assert(spec_entries_for(items@, a).len() > 0);
            assert(out@.map_values(sv) =~= m0 + spec_section(items@, label@, a));
        }
    } else {
        proof {
            assert(spec_entries_for(items@, a).len() == 0);
            assert(out@.map_values(sv) =~= out@.map_values(sv) + spec_section(items@, label@, a));
        }
    }
}

/// Builds the grouped report of a plan or an outcome.
pub fn plan_report(plan: &Plan) -> (r: Vec<ReportSection>)
    ensures
        r@.map_values(|s: ReportSection| section_view(s)) == spec_report(plan.items@),
{
    let ghost sv = |s: ReportSection| section_view(s);
    let mut out: Vec<ReportSection> = Vec::new();
    proof {
        assert(out@.map_values(sv) =~= Seq::<
            (Seq<char>, Seq<(Seq<char>, Option<Seq<char>>)>),
        >::empty());
    }
    push_section(&mut out, &plan.items, Action::Ignore, "ignored");
    push_section(&mut out, &plan.items, Action::Skip, "skipped");
    push_section(&mut out, &plan.items, Action::Replace, "replaced");
    push_section(&mut out, &plan.items, Action::BackupReplace, "backup+replaced");
    proof {
        assert(out@.map_values(sv) =~= spec_report(plan.items@));
    }
    out
}

} // verus!
