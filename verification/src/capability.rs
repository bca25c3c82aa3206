//! Whether a branch action may be offered for a branch right now, decided
//! only from facts already loaded (branch metadata, the worktree the branch
//! is checked out in, and whether a remote is configured).

use vstd::prelude::*;
use crate::types::{BranchInfo, TrackingStatus};

verus! {

/// What an evaluator needs to know about the worktree a branch is checked
/// out in. Callers pass `None` when the branch is not checked out in any
/// loaded worktree.
pub struct WorktreePresence {
    pub path: String,
    pub is_main: bool,
    pub is_clean: bool,
}

/// Availability plus, when unavailable, a short stable reason.
#[derive(Debug)]
pub struct Capability {
    pub available: bool,
    pub reason: Option<&'static str>,
}

/// The available capability.
pub open spec fn allowed() -> Capability {
    Capability { available: true, reason: None }
}

/// The unavailable capability with the given reason.
pub open spec fn refused(reason: &'static str) -> Capability {
    Capability { available: false, reason: Some(reason) }
}

/// `Some(n)` with `n > 0`.
pub open spec fn positive(count: Option<u32>) -> bool {
    match count {
        Some(n) => n > 0,
        None => false,
    }
}

/// `Some(0)`.
pub open spec fn exactly_zero(count: Option<u32>) -> bool {
    count == Some(0u32)
}

/// The shared rule of checkout, worktree creation and local deletion: never
/// the base branch, never the checked-out branch, never a branch held by
/// another worktree.
pub open spec fn local_move_rule(branch: BranchInfo, in_worktree: bool) -> Capability {
    if branch.is_base {
        refused("base")
    } else if branch.is_current {
        refused("current")
    } else if in_worktree {
        refused("checked out in worktree")
    } else {
        allowed()
    }
}

/// The local rule, then a remote must be configured.
pub open spec fn remote_delete_rule(branch: BranchInfo, in_worktree: bool, has_remote: bool) -> Capability {
    if branch.is_base || branch.is_current || in_worktree {
        local_move_rule(branch, in_worktree)
    } else if !has_remote {
        refused("no remote")
    } else {
        allowed()
    }
}

pub open spec fn push_rule(branch: BranchInfo, has_configured_remote: bool) -> Capability {
    if !has_configured_remote {
        refused("no remote")
    } else if branch.tracking is Upstream && !positive(branch.ahead) {
        refused("not ahead")
    } else {
        allowed()
    }
}

pub open spec fn pull_rule(branch: BranchInfo, in_worktree: bool, has_remote: bool) -> Capability {
    if !has_remote {
        refused("no remote")
    } else if !positive(branch.behind) {
        refused("not behind")
    } else if !branch.is_current && in_worktree {
        refused("checked out in worktree")
    } else {
        allowed()
    }
}

pub open spec fn fast_forward_rule(branch: BranchInfo, in_worktree: bool, has_remote: bool) -> Capability {
    if !has_remote {
        refused("no remote")
    } else if !positive(branch.behind) {
        refused("in sync")
    } else if in_worktree {
        refused("checked out in worktree")
    } else if !exactly_zero(branch.ahead) {
        refused("ahead")
    } else {
        allowed()
    }
}

pub open spec fn force_push_rule(branch: BranchInfo, has_remote: bool) -> Capability {
    if !has_remote {
        refused("no remote")
    } else if positive(branch.ahead) {
        allowed()
    } else {
        refused("behind or in sync")
    }
}

pub open spec fn rebase_rule(branch: BranchInfo, in_worktree: bool) -> Capability {
    if branch.is_base {
        refused("base")
    } else if in_worktree && !branch.is_current {
        refused("checked out in other worktree")
    } else {
        allowed()
    }
}

/// Merging into base needs the base worktree, if any, to be clean.
pub open spec fn into_base_rule(base_worktree: Option<WorktreePresence>) -> Capability {
    match base_worktree {
        None => allowed(),
        Some(wt) => if wt.is_clean { allowed() } else { refused("base dirty") },
    }
}

impl Capability {
    pub fn yes() -> (c: Self)
        ensures
            c == allowed(),
    {
        Self { available: true, reason: None }
    }

    pub fn no(reason: &'static str) -> (c: Self)
        ensures
            c == refused(reason),
    {
        Self { available: false, reason: Some(reason) }
    }
}

fn is_positive(count: Option<u32>) -> (b: bool)
    ensures
        b == positive(count),
{
    match count {
        Some(n) => n > 0,
        None => false,
    }
}

fn is_exactly_zero(count: Option<u32>) -> (b: bool)
    ensures
        b == exactly_zero(count),
{
    match count {
        Some(n) => n == 0,
        None => false,
    }
}

pub fn can_checkout_local(branch: &BranchInfo, worktree: Option<WorktreePresence>) -> (c: Capability)
    ensures
        c == local_move_rule(*branch, worktree is Some),
{
    if branch.is_base {
        Capability::no("base")
    } else if branch.is_current {
        Capability::no("current")
    } else if worktree.is_some() {
        Capability::no("checked out in worktree")
    } else {
        Capability::yes()
    }
}

pub fn can_create_worktree(branch: &BranchInfo, worktree: Option<WorktreePresence>) -> (c: Capability)
    ensures
        c == local_move_rule(*branch, worktree is Some),
{
    can_checkout_local(branch, worktree)
}

pub fn can_delete_local(branch: &BranchInfo, worktree: Option<WorktreePresence>) -> (c: Capability)
    ensures
        c == local_move_rule(*branch, worktree is Some),
{
    can_checkout_local(branch, worktree)
}

pub fn can_force_delete_local(branch: &BranchInfo, worktree: Option<WorktreePresence>) -> (c: Capability)
    ensures
        c == local_move_rule(*branch, worktree is Some),
{
    can_checkout_local(branch, worktree)
}

pub fn can_delete_remote(
    branch: &BranchInfo,
    worktree: Option<WorktreePresence>,
    has_remote: bool,
) -> (c: Capability)
    ensures
        c == remote_delete_rule(*branch, worktree is Some, has_remote),
{
    let in_worktree = worktree.is_some();
    if branch.is_base || branch.is_current || in_worktree {
        can_checkout_local(branch, worktree)
    } else if !has_remote {
        Capability::no("no remote")
    } else {
        Capability::yes()
    }
}

pub fn can_delete_local_and_remote(
    branch: &BranchInfo,
    worktree: Option<WorktreePresence>,
    has_remote: bool,
) -> (c: Capability)
    ensures
        c == remote_delete_rule(*branch, worktree is Some, has_remote),
{
    can_delete_remote(branch, worktree, has_remote)
}

/// Push needs a configured remote; a tracked branch must also be ahead.
/// Untracked branches are always pushable (the push sets the upstream). The
/// cleanliness of the working tree plays no part.
pub fn can_push(branch: &BranchInfo, has_configured_remote: bool, is_clean: bool) -> (c: Capability)
    ensures
        c == push_rule(*branch, has_configured_remote),
{
    if !has_configured_remote {
        return Capability::no("no remote");
    }
    let has_upstream = match &branch.tracking {
        TrackingStatus::Upstream { .. } => true,
        TrackingStatus::Local => false,
    };
    if has_upstream && !is_positive(branch.ahead) {
        return Capability::no("not ahead");
    }
    Capability::yes()
}

/// Pull needs a remote and the branch to be behind; a branch other than the
/// current one must not be checked out in a worktree, since git refuses to
/// update a ref that is checked out anywhere.
pub fn can_pull(
    branch: &BranchInfo,
    worktree: Option<WorktreePresence>,
    has_remote: bool,
) -> (c: Capability)
    ensures
        c == pull_rule(*branch, worktree is Some, has_remote),
{
    if !has_remote {
        return Capability::no("no remote");
    }
    if branch.is_current {
        if is_positive(branch.behind) {
            Capability::yes()
        } else {
            Capability::no("not behind")
        }
    } else {
        if !is_positive(branch.behind) {
            Capability::no("not behind")
        } else if worktree.is_some() {
            Capability::no("checked out in worktree")
        } else {
            Capability::yes()
        }
    }
}

pub fn can_fast_forward(
    branch: &BranchInfo,
    worktree: Option<WorktreePresence>,
    has_remote: bool,
) -> (c: Capability)
    ensures
        c == fast_forward_rule(*branch, worktree is Some, has_remote),
{
    let ahead_zero = is_exactly_zero(branch.ahead);
    let behind_positive = is_positive(branch.behind);
    if !has_remote {
        Capability::no("no remote")
    } else if !behind_positive {
        Capability::no("in sync")
    } else if worktree.is_some() {
        Capability::no("checked out in worktree")
    } else if !ahead_zero {
        Capability::no("ahead")
    } else {
        Capability::yes()
    }
}

pub fn can_force_push(branch: &BranchInfo, has_remote: bool) -> (c: Capability)
    ensures
        c == force_push_rule(*branch, has_remote),
{
    if !has_remote {
        Capability::no("no remote")
    } else if is_positive(branch.ahead) {
        Capability::yes()
    } else {
        Capability::no("behind or in sync")
    }
}

/// Rebase is refused for the base branch and for a non-current branch held
/// by a worktree; cleanliness plays no part.
pub fn can_rebase(
    branch: &BranchInfo,
    worktree: Option<WorktreePresence>,
    is_clean: bool,
) -> (c: Capability)
    ensures
        c == rebase_rule(*branch, worktree is Some),
{
    if branch.is_base {
        Capability::no("base")
    } else if worktree.is_some() && !branch.is_current {
        Capability::no("checked out in other worktree")
    } else {
        Capability::yes()
    }
}

pub fn can_merge_into_base(branch: &BranchInfo, base_worktree: Option<WorktreePresence>) -> (c: Capability)
    ensures
        c == into_base_rule(base_worktree),
{
    match base_worktree {
        None => Capability::yes(),
        Some(wt) => if wt.is_clean { Capability::yes() } else { Capability::no("base dirty") },
    }
}

pub fn can_squash_into_base(branch: &BranchInfo, base_worktree: Option<WorktreePresence>) -> (c: Capability)
    ensures
        c == into_base_rule(base_worktree),
{
    can_merge_into_base(branch, base_worktree)
}

/// No destructive local action is ever offered for the base branch or the
/// checked-out branch.
pub proof fn lemma_protected_branches_are_never_removed(branch: BranchInfo, in_worktree: bool, has_remote: bool)
    requires
        branch.is_base || branch.is_current,
    ensures
        !local_move_rule(branch, in_worktree).available,
        !remote_delete_rule(branch, in_worktree, has_remote).available,
{
}

/// Every refusal carries a reason and every allowance carries none.
pub proof fn lemma_reason_iff_refused(branch: BranchInfo, in_worktree: bool, has_remote: bool)
    ensures
        local_move_rule(branch, in_worktree).available <==> local_move_rule(branch, in_worktree).reason is None,
        remote_delete_rule(branch, in_worktree, has_remote).available
            <==> remote_delete_rule(branch, in_worktree, has_remote).reason is None,
        push_rule(branch, has_remote).available <==> push_rule(branch, has_remote).reason is None,
        pull_rule(branch, in_worktree, has_remote).available
            <==> pull_rule(branch, in_worktree, has_remote).reason is None,
        fast_forward_rule(branch, in_worktree, has_remote).available
            <==> fast_forward_rule(branch, in_worktree, has_remote).reason is None,
        force_push_rule(branch, has_remote).available <==> force_push_rule(branch, has_remote).reason is None,
        rebase_rule(branch, in_worktree).available <==> rebase_rule(branch, in_worktree).reason is None,
{
}


/// Fast-forward is offered exactly for a branch with a remote, behind its
/// upstream, with no commits of its own ahead of it (an ahead count of
/// exactly zero) and not held by another worktree. A diverged branch is
/// refused as "ahead".
pub proof fn lemma_fast_forward_only_when_nothing_ahead(branch: BranchInfo, in_worktree: bool, has_remote: bool)
    ensures
        fast_forward_rule(branch, in_worktree, has_remote).available <==> (
            has_remote && !in_worktree && branch.ahead == Some(0u32)
            && (branch.behind matches Some(n) && n > 0)),
        has_remote && !in_worktree && (branch.behind matches Some(n) && n > 0) && branch.ahead != Some(0u32)
            ==> fast_forward_rule(branch, in_worktree, has_remote).reason == Some("ahead"),
        !has_remote ==> fast_forward_rule(branch, in_worktree, has_remote).reason == Some("no remote"),
        has_remote && !(branch.behind matches Some(n) && n > 0)
            ==> fast_forward_rule(branch, in_worktree, has_remote).reason == Some("in sync"),
        has_remote && (branch.behind matches Some(n) && n > 0) && in_worktree
            ==> fast_forward_rule(branch, in_worktree, has_remote).reason == Some("checked out in worktree"),
{
}

/// When each action is offered, in terms of the branch's facts:
/// checkout, worktree creation and local deletion never for the base, the
/// checked-out or another worktree's branch; remote deletion on top of that
/// needs a remote; push needs a remote and, for a tracked branch, commits
/// ahead; pull needs a remote, commits behind, and the branch checked out
/// here or nowhere; force push needs a remote and commits ahead; rebase never
/// for the base nor for a branch only another worktree holds; merging into
/// the base needs the base worktree, if any, clean.
pub proof fn lemma_when_actions_are_offered(
    branch: BranchInfo,
    in_worktree: bool,
    has_remote: bool,
    base_worktree: Option<WorktreePresence>,
)
    ensures
        local_move_rule(branch, in_worktree).available <==> (!branch.is_base && !branch.is_current && !in_worktree),
        remote_delete_rule(branch, in_worktree, has_remote).available
            <==> (!branch.is_base && !branch.is_current && !in_worktree && has_remote),
        push_rule(branch, has_remote).available
            <==> (has_remote && (branch.tracking is Local || (branch.ahead matches Some(n) && n > 0))),
        pull_rule(branch, in_worktree, has_remote).available
            <==> (has_remote && (branch.behind matches Some(n) && n > 0) && (branch.is_current || !in_worktree)),
        force_push_rule(branch, has_remote).available <==> (has_remote && (branch.ahead matches Some(n) && n > 0)),
        rebase_rule(branch, in_worktree).available <==> (!branch.is_base && (branch.is_current || !in_worktree)),
        into_base_rule(base_worktree).available <==> (base_worktree matches Some(w) ==> w.is_clean),
{
}

} // verus!
