//! What the delete confirmation warns about before local branches are
//! deleted, and the other ways out it offers: force-deleting unmerged
//! branches, or removing the worktrees they are checked out in first.

use vstd::prelude::*;
use crate::types::{BranchAction, BranchInfo, MergeStatus};
use crate::worktree::WorktreeInfo;
use crate::status::WorkingTreeStatus;
use crate::gitlog::string_views;
use crate::text::{concat2, concat3, concat4, str_eq, to_owned_string};

verus! {

/// An alternate action offered by the delete confirmation under its own key.
#[derive(Debug, Clone)]
pub struct ConfirmExtraKey {
    pub key: char,
    pub label: String,
    pub action: BranchAction,
    pub targets: Vec<String>,
}

/// The first branch named `name`.
pub open spec fn first_branch(bs: Seq<BranchInfo>, name: Seq<char>) -> Option<int>
    decreases bs.len(),
{
    if bs.len() == 0 {
        None
    } else {
        match first_branch(bs.drop_last(), name) {
            Some(i) => Some(i),
            None => if bs.last().name@ == name { Some(bs.len() - 1) } else { None },
        }
    }
}

/// Worktree `w` has branch `name` checked out.
pub open spec fn checks_out(w: WorktreeInfo, name: Seq<char>) -> bool {
    match w.branch {
        Some(b) => b@ == name,
        None => false,
    }
}

/// The first worktree with branch `name` checked out.
pub open spec fn first_worktree(ws: Seq<WorktreeInfo>, name: Seq<char>) -> Option<int>
    decreases ws.len(),
{
    if ws.len() == 0 {
        None
    } else {
        match first_worktree(ws.drop_last(), name) {
            Some(i) => Some(i),
            None => if checks_out(ws.last(), name) { Some(ws.len() - 1) } else { None },
        }
    }
}

/// Nothing staged, modified or untracked.
pub open spec fn clean(s: WorkingTreeStatus) -> bool {
    !s.has_staged && !s.has_modified && !s.has_untracked
}

/// Branch `name` is known and unmerged.
pub open spec fn is_unmerged(bs: Seq<BranchInfo>, name: Seq<char>) -> bool {
    match first_branch(bs, name) {
        Some(i) => bs[i].merge_status is Unmerged,
        None => false,
    }
}

/// Branch `name` is checked out in a linked (not the main) worktree.
pub open spec fn is_linked(ws: Seq<WorktreeInfo>, name: Seq<char>) -> bool {
    match first_worktree(ws, name) {
        Some(j) => !ws[j].is_main,
        None => false,
    }
}

/// Branch `name` is checked out in a linked worktree with changes.
pub open spec fn is_dirty_linked(ws: Seq<WorktreeInfo>, name: Seq<char>) -> bool {
    match first_worktree(ws, name) {
        Some(j) => !ws[j].is_main && !clean(ws[j].wt_status),
        None => false,
    }
}

/// What the merge status of branch `name` warns about.
pub open spec fn status_reasons(bs: Seq<BranchInfo>, name: Seq<char>) -> Seq<Seq<char>> {
    match first_branch(bs, name) {
        Some(i) => match bs[i].merge_status {
            MergeStatus::Unmerged => seq!["Branch "@ + name + " has unique commits not on "@ + bs[i].base_branch@],
            MergeStatus::Pending => seq!["Branch "@ + name + " merge status is still being computed; Git will verify safe deletion"@],
            _ => Seq::empty(),
        },
        None => Seq::empty(),
    }
}

/// What the worktree of branch `name` warns about; `shown` holds each
/// worktree's path as displayed.
pub open spec fn worktree_reasons(ws: Seq<WorktreeInfo>, shown: Seq<String>, name: Seq<char>) -> Seq<Seq<char>> {
    match first_worktree(ws, name) {
        Some(j) => seq!["Branch "@ + name + " is checked out in "@ + shown[j]@]
            + if !ws[j].is_main && !clean(ws[j].wt_status) {
                seq!["Worktree "@ + shown[j]@ + " has uncommitted changes"@]
            } else {
                Seq::empty()
            },
        None => Seq::empty(),
    }
}

/// All warnings for the targets, target by target.
pub open spec fn preflight_reasons(bs: Seq<BranchInfo>, ws: Seq<WorktreeInfo>, shown: Seq<String>, ts: Seq<String>) -> Seq<Seq<char>>
    decreases ts.len(),
{
    if ts.len() == 0 {
        Seq::empty()
    } else {
        preflight_reasons(bs, ws, shown, ts.drop_last()) + status_reasons(bs, ts.last()@) + worktree_reasons(ws, shown, ts.last()@)
    }
}

/// The targets that are unmerged branches, in order.
pub open spec fn unmerged_targets(bs: Seq<BranchInfo>, ts: Seq<String>) -> Seq<Seq<char>>
    decreases ts.len(),
{
    if ts.len() == 0 {
        Seq::empty()
    } else if is_unmerged(bs, ts.last()@) {
        unmerged_targets(bs, ts.drop_last()).push(ts.last()@)
    } else {
        unmerged_targets(bs, ts.drop_last())
    }
}

/// The targets checked out in linked worktrees, in order.
pub open spec fn linked_targets(ws: Seq<WorktreeInfo>, ts: Seq<String>) -> Seq<Seq<char>>
    decreases ts.len(),
{
    if ts.len() == 0 {
        Seq::empty()
    } else if is_linked(ws, ts.last()@) {
        linked_targets(ws, ts.drop_last()).push(ts.last()@)
    } else {
        linked_targets(ws, ts.drop_last())
    }
}

/// Removing the worktrees needs force: one of them has changes, or one of
/// their branches is unmerged.
pub open spec fn cascade_forced(bs: Seq<BranchInfo>, ws: Seq<WorktreeInfo>, ts: Seq<String>) -> bool
    decreases ts.len(),
{
    if ts.len() == 0 {
        false
    } else {
        cascade_forced(bs, ws, ts.drop_last())
            || (is_linked(ws, ts.last()@) && (is_unmerged(bs, ts.last()@) || is_dirty_linked(ws, ts.last()@)))
    }
}

/// `parts` joined with `sep` between them.
pub open spec fn join_with(parts: Seq<Seq<char>>, sep: Seq<char>) -> Seq<char>
    decreases parts.len(),
{
    if parts.len() == 0 {
        Seq::empty()
    } else if parts.len() == 1 {
        parts[0]
    } else {
        join_with(parts.drop_last(), sep) + sep + parts.last()
    }
}

/// The separator between warnings.
pub open spec fn reason_separator() -> Seq<char> {
    ", OR\n  "@
}

/// The alternate keys offered: `!` force-deletes the unmerged targets;
/// `r` removes the linked worktrees, with force when needed, then deletes.
pub open spec fn preflight_keys(keys: Seq<ConfirmExtraKey>, bs: Seq<BranchInfo>, ws: Seq<WorktreeInfo>, ts: Seq<String>) -> bool {
    let um = unmerged_targets(bs, ts);
    let lk = linked_targets(ws, ts);
    let force = cascade_forced(bs, ws, ts);
    let k = if um.len() > 0 { 1int } else { 0int };
    &&& keys.len() == k + if lk.len() > 0 { 1int } else { 0int }
    &&& um.len() > 0 ==> {
        &&& keys[0].key == '!'
        &&& keys[0].label@ == "force-delete"@
        &&& keys[0].action == BranchAction::DeleteLocalForce
        &&& string_views(keys[0].targets@) == um
    }
    &&& lk.len() > 0 ==> {
        &&& keys[k].key == 'r'
        &&& keys[k].label@ == if force { "force-remove worktree + delete"@ } else { "remove worktree + delete"@ }
        &&& keys[k].action == if force { BranchAction::DeleteBranchAndRemoveWorktreeForce } else { BranchAction::DeleteBranchAndRemoveWorktree }
        &&& string_views(keys[k].targets@) == lk
    }
}

proof fn lemma_views_push(v: Seq<String>, x: String)
    ensures
        string_views(v.push(x)) == string_views(v).push(x@),
{
    assert(string_views(v.push(x)) =~= string_views(v).push(x@));
}

pub(crate) fn find_branch(bs: &Vec<BranchInfo>, name: &str) -> (r: Option<usize>)
    ensures
        r is Some <==> first_branch(bs@, name@) is Some,
        r is Some ==> r->0 < bs@.len() && first_branch(bs@, name@) == Some(r->0 as int),
{
    let mut found: Option<usize> = None;
    let mut k: usize = 0;
    while k < bs.len()
        invariant
            k <= bs@.len(),
            found is Some <==> first_branch(bs@.subrange(0, k as int), name@) is Some,
            found is Some ==> found->0 < k && first_branch(bs@.subrange(0, k as int), name@) == Some(found->0 as int),
        decreases bs@.len() - k,
    {
        assert(bs@.subrange(0, k + 1).drop_last() =~= bs@.subrange(0, k as int));
        if found.is_none() && str_eq(bs[k].name.as_str(), name) {
            found = Some(k);
        }
        k = k + 1;
    }
    assert(bs@.subrange(0, bs@.len() as int) =~= bs@);
    found
}

fn checks_out_exec(w: &WorktreeInfo, name: &str) -> (b: bool)
    ensures
        b == checks_out(*w, name@),
{
    match &w.branch {
        Some(b) => str_eq(b.as_str(), name),
        None => false,
    }
}

fn find_worktree(ws: &Vec<WorktreeInfo>, name: &str) -> (r: Option<usize>)
    ensures
        r is Some <==> first_worktree(ws@, name@) is Some,
        r is Some ==> r->0 < ws@.len() && first_worktree(ws@, name@) == Some(r->0 as int),
{
    let mut found: Option<usize> = None;
    let mut k: usize = 0;
    while k < ws.len()
        invariant
            k <= ws@.len(),
            found is Some <==> first_worktree(ws@.subrange(0, k as int), name@) is Some,
            found is Some ==> found->0 < k && first_worktree(ws@.subrange(0, k as int), name@) == Some(found->0 as int),
        decreases ws@.len() - k,
    {
        assert(ws@.subrange(0, k + 1).drop_last() =~= ws@.subrange(0, k as int));
        if found.is_none() && checks_out_exec(&ws[k], name) {
            found = Some(k);
        }
        k = k + 1;
    }
    assert(ws@.subrange(0, ws@.len() as int) =~= ws@);
    found
}

fn join_reasons(parts: &Vec<String>, sep: &str) -> (r: String)
    ensures
        r@ == join_with(string_views(parts@), sep@),
{
    let mut out = String::new();
    let mut i: usize = 0;
    assert(string_views(parts@.subrange(0, 0)) =~= Seq::<Seq<char>>::empty());
    while i < parts.len()
        invariant
            i <= parts@.len(),
            out@ == join_with(string_views(parts@.subrange(0, i as int)), sep@),
        decreases parts@.len() - i,
    {
        let ghost prev = string_views(parts@.subrange(0, i as int));
        assert(string_views(parts@.subrange(0, i + 1)).drop_last() =~= prev);
        if i == 0 {
            out = to_owned_string(parts[0].as_str());
            assert(string_views(parts@.subrange(0, 1)) =~= seq![parts@[0]@]);
        } else {
            out = concat3(out.as_str(), sep, parts[i].as_str());
        }
        i = i + 1;
    }
    assert(parts@.subrange(0, parts@.len() as int) =~= parts@);
    out
}

/// The confirmation's warnings for deleting the local branches `targets`,
/// joined into one text (none when there is nothing to warn about), and the
/// alternate keys it offers. `shown_paths` holds each worktree's path as
/// it is displayed.
pub fn build_delete_preflight(
    targets: &Vec<String>,
    branches: &Vec<BranchInfo>,
    worktrees: &Vec<WorktreeInfo>,
    shown_paths: &Vec<String>,
) -> (r: (Option<String>, Vec<ConfirmExtraKey>))
    requires
        shown_paths@.len() == worktrees@.len(),
    ensures
        ({
            let rs = preflight_reasons(branches@, worktrees@, shown_paths@, targets@);
            match r.0 {
                None => rs.len() == 0,
                Some(t) => rs.len() > 0 && t@ == join_with(rs, reason_separator()),
            }
        }),
        preflight_keys(r.1@, branches@, worktrees@, targets@),
{
    let ghost bs = branches@;
    let ghost ws = worktrees@;
    let ghost shown = shown_paths@;
    let mut reasons: Vec<String> = Vec::new();
    let mut unmerged: Vec<String> = Vec::new();
    let mut linked: Vec<String> = Vec::new();
    let mut force = false;
    let mut i: usize = 0;
    while i < targets.len()
        invariant
            i <= targets@.len(),
            bs == branches@,
            ws == worktrees@,
            shown == shown_paths@,
            shown.len() == ws.len(),
            string_views(reasons@) == preflight_reasons(bs, ws, shown, targets@.subrange(0, i as int)),
            string_views(unmerged@) == unmerged_targets(bs, targets@.subrange(0, i as int)),
            string_views(linked@) == linked_targets(ws, targets@.subrange(0, i as int)),
            force == cascade_forced(bs, ws, targets@.subrange(0, i as int)),
        decreases targets@.len() - i,
    {
        let ghost prefix = targets@.subrange(0, i as int);
        let ghost next = targets@.subrange(0, i + 1);
        assert(next.drop_last() =~= prefix);
        assert(next.last() == targets@[i as int]);
        let name = targets[i].as_str();
        let ghost r0 = string_views(reasons@);
        let mut unmerged_here = false;
        let fb = find_branch(branches, name);
        match fb {
            Some(b) => {

                match branches[b].merge_status {
                    MergeStatus::Unmerged => {
                        let s1 = concat3("Branch ", name, " has unique commits not on ");
                        let msg = concat2(s1.as_str(), branches[b].base_branch.as_str());
                        proof { lemma_views_push(reasons@, msg); }
                        reasons.push(msg);
                        let t = targets[i].clone();
                        proof { lemma_views_push(unmerged@, t); }
                        unmerged.push(t);
                        unmerged_here = true;
                    },
                    MergeStatus::Pending => {
                        let msg = concat3("Branch ", name, " merge status is still being computed; Git will verify safe deletion");
                        proof { lemma_views_push(reasons@, msg); }
                        reasons.push(msg);
                    },
                    _ => {},
                }
            },
            None => {},
        }
        let ghost r1 = string_views(reasons@);
        assert(r1 =~= r0 + status_reasons(bs, name@));
        match find_worktree(worktrees, name) {
            Some(w) => {
                let path = shown_paths[w].as_str();
                let msg = concat4("Branch ", name, " is checked out in ", path);
                proof { lemma_views_push(reasons@, msg); }
                reasons.push(msg);
                if !worktrees[w].is_main {
                    let t = targets[i].clone();
                    proof { lemma_views_push(linked@, t); }
                    linked.push(t);
                    let dirty = !worktrees[w].wt_status.is_clean();
                    force = force || unmerged_here || dirty;
                    if dirty {
                        let msg = concat3("Worktree ", path, " has uncommitted changes");
                        proof { lemma_views_push(reasons@, msg); }
                        reasons.push(msg);
                    }
                }
            },
            None => {},
        }
        assert(string_views(reasons@) =~= r1 + worktree_reasons(ws, shown, name@));
        assert(string_views(unmerged@) =~= unmerged_targets(bs, next));
        assert(string_views(linked@) =~= linked_targets(ws, next));
        i = i + 1;
    }
    assert(targets@.subrange(0, targets@.len() as int) =~= targets@);
    let mut keys: Vec<ConfirmExtraKey> = Vec::new();
    if unmerged.len() > 0 {
        keys.push(ConfirmExtraKey {
            key: '!',
            label: to_owned_string("force-delete"),
            action: BranchAction::DeleteLocalForce,
            targets: unmerged,
        });
    }
    if linked.len() > 0 {
        keys.push(ConfirmExtraKey {
            key: 'r',
            label: if force { to_owned_string("force-remove worktree + delete") } else { to_owned_string("remove worktree + delete") },
            action: if force { BranchAction::DeleteBranchAndRemoveWorktreeForce } else { BranchAction::DeleteBranchAndRemoveWorktree },
            targets: linked,
        });
    }
    let reason = if reasons.len() == 0 {
        None
    } else {
        Some(join_reasons(&reasons, ", OR\n  "))
    };
    (reason, keys)
}

} // verus!
