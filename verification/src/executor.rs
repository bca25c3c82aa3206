//! Running one confirmed action as a sequence of git work items.
//!
//! The caller owns the repository, the processes and the cancel flag. It
//! asks [`ActionRun::next`] what to do, performs that work, and hands the
//! outcome back through the matching `record_*` method, until the plan says
//! the run is done. Everything decided between two pieces of git work (the
//! order of the targets, when a cancel stops the loop, which branches go on
//! to the remote, what a failed lookup turns into) is decided here.

use vstd::prelude::*;
use crate::types::{BranchAction, FailureCause, OperationResult, ProgressUpdate};
use crate::worktree::{WorktreeInfo, has_branch, path_eq, paths_equal};
use crate::job_queue::clone_result;
use crate::text::{concat2, concat3, concat4, str_eq, to_owned_string};

verus! {

/// One piece of git work the caller performs for a run.
#[derive(Debug)]
pub enum GitWork {
    /// Open the repository; answered by [`ActionRun::record_repo`].
    OpenRepo,
    /// Read `git worktree list`; answered by [`ActionRun::record_worktrees`].
    ListWorktrees,
    /// Find the branch checked out in the worktree at `path`; answered by
    /// [`ActionRun::record_branch`].
    BranchOfWorktree { path: String },
    DeleteLocal { name: String, force: bool },
    RemoveWorktree { path: String, force: bool, index: usize, total: usize },
    DeleteRemotes { remote: String, names: Vec<String> },
    DeleteRemotesWithProgress { remote: String, names: Vec<String> },
    Checkout { name: String, stash: bool },
    FastForward { name: String },
    Push { name: String },
    ForcePush { name: String },
    Pull { name: String },
    Merge { name: String, base: String, squash: bool, stash: bool },
    Rebase { name: String, base: String, stash: bool },
    CreateWorktree { name: String },
    DeleteTags { names: Vec<String> },
    DeleteRemoteTags { names: Vec<String> },
    PushTag { name: String },
    CheckoutRemote { remote: String, name: String },
    FetchRemote { remote: String },
    PullRemote { remote: String, name: String },
    MergeRemoteIntoCurrent { full_ref: String, name: String },
    CherryPickRemote { full_ref: String, name: String },
    Fetch { prune: bool },
}

/// Where a run stands.
#[derive(Debug)]
pub enum RunStage {
    Begin,
    AwaitRepo,
    ListWorktrees,
    AwaitWorktrees,
    /// The single-target work is next.
    Single,
    AwaitItem { index: usize },
    /// Target `index` is next in a per-target loop.
    Loop { index: usize },
    AwaitLookup { index: usize },
    /// The removal of worktree `index` is next; `branch` was checked out there.
    Remove { index: usize, branch: Option<String> },
    AwaitRemoval { index: usize, branch: Option<String> },
    /// Deleting the local branch `name` is next; `relabel` files its result
    /// under the remote-and-local action.
    PendingDelete { index: usize, name: String, relabel: bool },
    AwaitDelete { index: usize, name: String, relabel: bool },
    Tags,
    AwaitTags,
    RemoteTags { names: Vec<String> },
    /// The loop is over; the remote deletion of what went locally may follow.
    RemotePhase,
    AwaitRemote,
    /// The repository is opened again for the local half of a
    /// remote-and-local deletion.
    LocalAfterRemote,
    AwaitRepoLocal,
    /// The closing progress report is next.
    Final,
    Done,
}

/// What the caller does next: report `progress` if any, perform `work` if
/// any, and stop once `done`.
#[derive(Debug)]
pub struct RunPlan {
    pub progress: Option<ProgressUpdate>,
    pub work: Option<GitWork>,
    pub done: bool,
}

/// One confirmed action being run.
#[derive(Debug)]
pub struct ActionRun {
    pub action: BranchAction,
    pub targets: Vec<String>,
    /// The remote the action names, `origin` when it names none.
    pub remote_name: String,
    pub base_branch: String,
    pub needs_stash: bool,
    pub stage: RunStage,
    pub results: Vec<OperationResult>,
    /// Branches whose local deletion succeeded, in order.
    pub locally_deleted: Vec<String>,
    pub worktrees: Vec<WorktreeInfo>,
}

// ---- action families ----

pub open spec fn deletes_locals(a: BranchAction) -> bool {
    a is DeleteLocal || a is DeleteLocalForce || a is DeleteLocalAndRemote
}

pub open spec fn removes_then_deletes(a: BranchAction) -> bool {
    a is WorktreeRemoveAndDeleteBranch || a is WorktreeRemoveAndDeleteBranchRemote
}

pub open spec fn cascades(a: BranchAction) -> bool {
    a is DeleteBranchAndRemoveWorktree || a is DeleteBranchAndRemoveWorktreeForce
        || a is DeleteBranchAndRemoveWorktreeRemote
}

/// Actions that work on their first target only.
pub open spec fn single_target(a: BranchAction) -> bool {
    a is Checkout || a is FastForward || a is ForcePush || a is Pull || a is Merge || a is SquashMerge
        || a is Rebase || a is Worktree || a is CheckoutRemote || a is PullRemote
        || a is MergeRemoteIntoCurrent || a is CherryPickRemote
}

/// Actions that run one piece of work per target.
pub open spec fn per_target(a: BranchAction) -> bool {
    a is Push || a is PushTag || a is WorktreeRemove || a is WorktreeForceRemove
}

/// Actions whose loop ends in the remote phase.
pub open spec fn has_remote_phase(a: BranchAction) -> bool {
    deletes_locals(a) || removes_then_deletes(a) || cascades(a)
}

/// Actions that need the repository opened first.
pub open spec fn opens_repo_first(a: BranchAction) -> bool {
    has_remote_phase(a) || a is Checkout || a is DeleteTag || a is DeleteTagAndRemote
}

/// Local deletions of the action skip git's merged check.
pub open spec fn force_delete(a: BranchAction) -> bool {
    a is DeleteLocalForce || a is DeleteBranchAndRemoveWorktreeForce
}

/// Worktree removals of the action discard changes.
pub open spec fn force_remove(a: BranchAction) -> bool {
    a is WorktreeForceRemove || a is DeleteBranchAndRemoveWorktreeForce
}

// ---- the pieces of a plan ----

pub open spec fn progress_is(p: Option<ProgressUpdate>, completed: int, total: int, item: Seq<char>) -> bool {
    &&& p is Some
    &&& p->0.completed == completed
    &&& p->0.total == total
    &&& p->0.current_item@ == item
}

/// A plan that only asks to be called again.
pub open spec fn idle_plan(p: RunPlan) -> bool {
    p.progress is None && p.work is None && !p.done
}

/// A plan that performs `w` without reporting progress.
pub open spec fn work_plan(p: RunPlan, w: GitWork) -> bool {
    p.progress is None && p.work == Some(w) && !p.done
}

pub open spec fn cancel_result(r: OperationResult, a: BranchAction) -> bool {
    &&& r.branch_name@ == Seq::<char>::empty()
    &&& r.action == a
    &&& !r.success
    &&& r.message@ == "Cancelled by user"@
    &&& r.failure is None
}

/// The work of a single-target action on target `name`.
pub open spec fn single_work(s: ActionRun, w: GitWork) -> bool {
    let name = s.targets@[0];
    match s.action {
        BranchAction::Checkout => w == GitWork::Checkout { name, stash: s.needs_stash },
        BranchAction::FastForward => w == GitWork::FastForward { name },
        BranchAction::ForcePush => w == GitWork::ForcePush { name },
        BranchAction::Pull => w == GitWork::Pull { name },
        BranchAction::Merge => w == GitWork::Merge { name, base: s.base_branch, squash: false, stash: s.needs_stash },
        BranchAction::SquashMerge => w == GitWork::Merge { name, base: s.base_branch, squash: true, stash: s.needs_stash },
        BranchAction::Rebase => w == GitWork::Rebase { name, base: s.base_branch, stash: s.needs_stash },
        BranchAction::Worktree => w == GitWork::CreateWorktree { name },
        BranchAction::CheckoutRemote => w == GitWork::CheckoutRemote { remote: s.remote_name, name },
        BranchAction::PullRemote => w == GitWork::PullRemote { remote: s.remote_name, name },
        BranchAction::MergeRemoteIntoCurrent => w matches GitWork::MergeRemoteIntoCurrent { full_ref, name: n }
            && n == name && full_ref@ == s.remote_name@ + "/"@ + name@,
        BranchAction::CherryPickRemote => w matches GitWork::CherryPickRemote { full_ref, name: n }
            && n == name && full_ref@ == s.remote_name@ + "/"@ + name@,
        _ => false,
    }
}

/// The setup of a run stays as it was.
pub open spec fn same_setup(s: ActionRun, t: ActionRun) -> bool {
    &&& t.action == s.action
    &&& t.targets == s.targets
    &&& t.remote_name == s.remote_name
    &&& t.base_branch == s.base_branch
    &&& t.needs_stash == s.needs_stash
}

/// Worktree `k` is the first with branch `name` checked out.
pub open spec fn first_checkout(ws: Seq<WorktreeInfo>, name: Seq<char>, k: int) -> bool {
    0 <= k < ws.len() && has_branch(ws, k, name) && forall|j: int| 0 <= j < k ==> !has_branch(ws, j, name)
}

/// How many results succeeded.
pub open spec fn success_count(rs: Seq<OperationResult>) -> nat
    decreases rs.len(),
{
    if rs.len() == 0 {
        0
    } else {
        success_count(rs.drop_last()) + if rs.last().success { 1nat } else { 0nat }
    }
}

/// The names of the successful results, in order.
pub open spec fn successful_names(rs: Seq<OperationResult>) -> Seq<String>
    decreases rs.len(),
{
    if rs.len() == 0 {
        Seq::empty()
    } else if rs.last().success {
        successful_names(rs.drop_last()).push(rs.last().branch_name)
    } else {
        successful_names(rs.drop_last())
    }
}

pub proof fn lemma_success_count_bound(rs: Seq<OperationResult>)
    ensures
        success_count(rs) <= rs.len(),
    decreases rs.len(),
{
    if rs.len() > 0 {
        lemma_success_count_bound(rs.drop_last());
    }
}

/// The result left when the repository could not be opened.
pub open spec fn open_failure(r: OperationResult, name: Seq<char>, a: BranchAction, error: Seq<char>) -> bool {
    &&& r.branch_name@ == name
    &&& r.action == a
    &&& !r.success
    &&& r.message@ == "Failed to open repo: "@ + error
    &&& r.failure is None
}

/// The result for a branch checked out in the primary worktree.
pub open spec fn primary_failure(r: OperationResult, name: Seq<char>, a: BranchAction, path: String) -> bool {
    &&& r.branch_name@ == name
    &&& r.action == a
    &&& !r.success
    &&& r.message@ == "Cannot remove the primary worktree at "@ + path@
    &&& r.failure == Some(FailureCause::CheckedOutInWorktree { worktree_path: path, is_main: true })
}

/// The result for a target whose worktrees could not be listed.
pub open spec fn inspect_failure(r: OperationResult, name: Seq<char>, a: BranchAction, error: String) -> bool {
    &&& r.branch_name@ == name
    &&& r.action == a
    &&& !r.success
    &&& r.message@ == "Cannot inspect worktrees for "@ + name + ": "@ + error@
    &&& r.failure == Some(FailureCause::Other { raw_message: error })
}

/// Results and local deletions stay as they were.
pub open spec fn keeps_lists(s: ActionRun, t: ActionRun) -> bool {
    t.results@ == s.results@ && t.locally_deleted@ == s.locally_deleted@
}

/// `t` is `s` with one result `r` added.
pub open spec fn adds_one(s: ActionRun, t: ActionRun) -> bool {
    &&& t.results@.len() == s.results@.len() + 1
    &&& t.results@.drop_last() == s.results@
    &&& t.locally_deleted@ == s.locally_deleted@
}

impl ActionRun {
    /// Indices in the stage point at targets.
    pub open spec fn wf(self) -> bool {
        let n = self.targets@.len();
        match self.stage {
            RunStage::Loop { index } => index <= n,
            RunStage::AwaitItem { index } => per_target(self.action) ==> index < n,
            RunStage::AwaitLookup { index } => index < n,
            RunStage::Remove { index, .. } => index < n,
            RunStage::AwaitRemoval { index, .. } => index < n,
            RunStage::PendingDelete { index, .. } => index < n,
            RunStage::AwaitDelete { index, .. } => index < n,
            _ => true,
        }
    }
}

/// What [`ActionRun::next`] does from the first stage.
pub open spec fn begin_ok(s: ActionRun, t: ActionRun, p: RunPlan) -> bool {
    let a = s.action;
    let n = s.targets@.len() as int;
    &&& keeps_lists(s, t)
    &&& if a is Checkout && n == 0 {
        t.stage is Final && idle_plan(p)
    } else if opens_repo_first(a) {
        t.stage is AwaitRepo && work_plan(p, GitWork::OpenRepo)
    } else if single_target(a) {
        if n == 0 {
            t.stage is Final && idle_plan(p)
        } else {
            t.stage == (RunStage::AwaitItem { index: 0 }) && p.progress is None && !p.done
                && p.work is Some && single_work(s, p.work->0)
        }
    } else if a is DeleteRemoteAndLocal {
        if n == 0 {
            t.stage is Final && idle_plan(p)
        } else {
            &&& t.stage is AwaitRemote
            &&& p.progress is None
            &&& !p.done
            &&& p.work matches Some(GitWork::DeleteRemotes { remote, names })
            &&& remote == s.remote_name && names@ == seq![s.targets@[0]]
        }
    } else if per_target(a) {
        t.stage == (RunStage::Loop { index: 0 }) && idle_plan(p)
    } else if a is DeleteRemoteBranch {
        &&& t.stage == (RunStage::AwaitItem { index: 0 })
        &&& p.progress is None
        &&& !p.done
        &&& p.work matches Some(GitWork::DeleteRemotesWithProgress { remote, names })
        &&& remote == s.remote_name && names@ == s.targets@
    } else if a is FetchRemote {
        if n == 0 {
            t.stage is Final && idle_plan(p)
        } else {
            t.stage == (RunStage::AwaitItem { index: 0 }) && work_plan(p, GitWork::FetchRemote { remote: s.remote_name })
        }
    } else if a is Fetch || a is FetchPrune {
        t.stage == (RunStage::AwaitItem { index: 0 }) && work_plan(p, GitWork::Fetch { prune: a is FetchPrune })
    } else {
        t.stage is Final && idle_plan(p)
    }
}

/// What [`ActionRun::next`] does for target `i` of a branch cascade.
pub open spec fn cascade_ok(s: ActionRun, i: int, t: ActionRun, p: RunPlan) -> bool {
    let a = s.action;
    let n = s.targets@.len() as int;
    let name = s.targets@[i];
    let ws = s.worktrees@;
    &&& progress_is(p.progress, i, n, name@)
    &&& !p.done
    &&& t.locally_deleted@ == s.locally_deleted@
    &&& (forall|k: int| 0 <= k < ws.len() ==> !has_branch(ws, k, name@)) ==> {
        &&& t.results@ == s.results@
        &&& t.stage == (RunStage::AwaitDelete { index: i as usize, name, relabel: false })
        &&& p.work == Some(GitWork::DeleteLocal { name, force: force_delete(a) })
    }
    &&& forall|k: int| #[trigger] first_checkout(ws, name@, k) ==> if ws[k].is_main {
        &&& t.stage == (RunStage::Loop { index: (i + 1) as usize })
        &&& p.work is None
        &&& adds_one(s, t)
        &&& primary_failure(t.results@.last(), name@, a, ws[k].path)
    } else {
        &&& t.results@ == s.results@
        &&& t.stage == (RunStage::AwaitRemoval { index: i as usize, branch: Some(name) })
        &&& p.work == Some(GitWork::RemoveWorktree { path: ws[k].path, force: force_remove(a), index: i as usize, total: n as usize })
    }
}

/// What [`ActionRun::next`] does at the head of a per-target loop.
pub open spec fn loop_ok(s: ActionRun, cancelled: bool, i: int, t: ActionRun, p: RunPlan) -> bool {
    let a = s.action;
    let n = s.targets@.len() as int;
    let name = s.targets@[i];
    if i >= n {
        keeps_lists(s, t) && idle_plan(p)
            && t.stage == (if has_remote_phase(a) { RunStage::RemotePhase } else { RunStage::Final })
    } else if cancelled && has_remote_phase(a) {
        adds_one(s, t) && cancel_result(t.results@.last(), a) && t.stage is RemotePhase && idle_plan(p)
    } else if cancelled && (a is Push || a is WorktreeRemove || a is WorktreeForceRemove) {
        keeps_lists(s, t) && t.stage is Final && idle_plan(p)
    } else if deletes_locals(a) {
        keeps_lists(s, t) && t.stage == (RunStage::AwaitDelete { index: i as usize, name, relabel: false })
            && progress_is(p.progress, i, n, name@) && !p.done
            && p.work == Some(GitWork::DeleteLocal { name, force: force_delete(a) })
    } else if a is Push {
        keeps_lists(s, t) && t.stage == (RunStage::AwaitItem { index: i as usize })
            && progress_is(p.progress, i, n, name@) && !p.done && p.work == Some(GitWork::Push { name })
    } else if a is PushTag {
        keeps_lists(s, t) && t.stage == (RunStage::AwaitItem { index: i as usize })
            && work_plan(p, GitWork::PushTag { name })
    } else if a is WorktreeRemove || a is WorktreeForceRemove {
        keeps_lists(s, t) && t.stage == (RunStage::AwaitItem { index: i as usize })
            && work_plan(p, GitWork::RemoveWorktree { path: name, force: force_remove(a), index: i as usize, total: n as usize })
    } else if removes_then_deletes(a) {
        keeps_lists(s, t) && t.stage == (RunStage::AwaitLookup { index: i as usize })
            && work_plan(p, GitWork::BranchOfWorktree { path: name })
    } else if cascades(a) {
        cascade_ok(s, i, t, p)
    } else {
        keeps_lists(s, t) && t.stage is Final && idle_plan(p)
    }
}

/// Whether the remote phase deletes anything on the remote.
pub open spec fn wants_remote(s: ActionRun, cancelled: bool) -> bool {
    let a = s.action;
    &&& (a is DeleteLocalAndRemote || a is WorktreeRemoveAndDeleteBranchRemote
        || (a is DeleteBranchAndRemoveWorktreeRemote && !cancelled))
    &&& s.locally_deleted@.len() > 0
}

/// What [`ActionRun::next`] does once the loop is over.
pub open spec fn remote_phase_ok(s: ActionRun, cancelled: bool, t: ActionRun, p: RunPlan) -> bool {
    &&& keeps_lists(s, t)
    &&& if wants_remote(s, cancelled) {
        &&& t.stage is AwaitRemote
        &&& progress_is(p.progress, s.locally_deleted@.len() as int, s.targets@.len() as int, "Deleting remote branches..."@)
        &&& !p.done
        &&& p.work matches Some(GitWork::DeleteRemotes { remote, names })
        &&& names@ == s.locally_deleted@
        &&& remote@ == if s.action is WorktreeRemoveAndDeleteBranchRemote { "origin"@ } else { s.remote_name@ }
    } else {
        t.stage is Final && idle_plan(p)
    }
}

pub open spec fn min_int(a: int, b: int) -> int {
    if a < b { a } else { b }
}

/// The whole of [`ActionRun::next`].
pub open spec fn next_ok(s: ActionRun, cancelled: bool, t: ActionRun, p: RunPlan) -> bool {
    let a = s.action;
    let n = s.targets@.len() as int;
    &&& same_setup(s, t)
    &&& t.worktrees@ == s.worktrees@
    &&& match s.stage {
        RunStage::Begin => begin_ok(s, t, p),
        RunStage::Single => keeps_lists(s, t) && if n == 0 || !single_target(a) {
            t.stage is Final && idle_plan(p)
        } else {
            t.stage == (RunStage::AwaitItem { index: 0 }) && p.progress is None && !p.done
                && p.work is Some && single_work(s, p.work->0)
        },
        RunStage::Loop { index } => loop_ok(s, cancelled, index as int, t, p),
        RunStage::Remove { index, branch } => keeps_lists(s, t)
            && t.stage == (RunStage::AwaitRemoval { index, branch })
            && work_plan(p, GitWork::RemoveWorktree { path: s.targets@[index as int], force: false, index, total: n as usize }),
        RunStage::PendingDelete { index, name, relabel } => keeps_lists(s, t)
            && t.stage == (RunStage::AwaitDelete { index, name, relabel })
            && work_plan(p, GitWork::DeleteLocal { name, force: force_delete(a) }),
        RunStage::Tags => {
            &&& keeps_lists(s, t)
            &&& t.stage is AwaitTags
            &&& p.progress is None
            &&& !p.done
            &&& p.work matches Some(GitWork::DeleteTags { names })
            &&& names@ == s.targets@
        },
        RunStage::RemoteTags { names } => {
            &&& keeps_lists(s, t)
            &&& t.stage is AwaitRemote
            &&& p.progress is None
            &&& !p.done
            &&& p.work matches Some(GitWork::DeleteRemoteTags { names: ns })
            &&& ns@ == names@
        },
        RunStage::RemotePhase => remote_phase_ok(s, cancelled, t, p),
        RunStage::LocalAfterRemote => keeps_lists(s, t) && t.stage is AwaitRepoLocal && work_plan(p, GitWork::OpenRepo),
        RunStage::ListWorktrees => keeps_lists(s, t) && t.stage is AwaitWorktrees && work_plan(p, GitWork::ListWorktrees),
        RunStage::Final => keeps_lists(s, t) && t.stage is Done && p.work is None && p.done
            && progress_is(p.progress, min_int(success_count(s.results@) as int, n as int), n as int, "Done"@),
        RunStage::Done => keeps_lists(s, t) && t.stage is Done && p.progress is None && p.work is None && p.done,
        _ => keeps_lists(s, t) && t.stage == s.stage && idle_plan(p),
    }
}

/// A copy of a list of strings.
fn copy_strings(v: &Vec<String>) -> (r: Vec<String>)
    ensures
        r@ == v@,
{
    let mut r: Vec<String> = Vec::new();
    let mut i: usize = 0;
    while i < v.len()
        invariant
            i <= v.len(),
            r@ == v@.subrange(0, i as int),
        decreases v.len() - i,
    {
        r.push(v[i].clone());
        i = i + 1;
    }
    assert(r@ =~= v@);
    r
}

fn count_successes(rs: &Vec<OperationResult>) -> (c: usize)
    ensures
        c == success_count(rs@),
{
    let mut c: usize = 0;
    let mut i: usize = 0;
    while i < rs.len()
        invariant
            i <= rs.len(),
            c == success_count(rs@.subrange(0, i as int)),
            c <= i,
        decreases rs.len() - i,
    {
        proof {
            let sub = rs@.subrange(0, i as int + 1);
            assert(sub.drop_last() =~= rs@.subrange(0, i as int));
        }
        if rs[i].success {
            c = c + 1;
        }
        i = i + 1;
    }
    assert(rs@.subrange(0, rs@.len() as int) =~= rs@);
    c
}

fn names_of_successes(rs: &Vec<OperationResult>) -> (r: Vec<String>)
    ensures
        r@ == successful_names(rs@),
{
    let mut r: Vec<String> = Vec::new();
    let mut i: usize = 0;
    while i < rs.len()
        invariant
            i <= rs.len(),
            r@ == successful_names(rs@.subrange(0, i as int)),
        decreases rs.len() - i,
    {
        proof {
            let sub = rs@.subrange(0, i as int + 1);
            assert(sub.drop_last() =~= rs@.subrange(0, i as int));
        }
        if rs[i].success {
            r.push(rs[i].branch_name.clone());
        }
        i = i + 1;
    }
    assert(rs@.subrange(0, rs@.len() as int) =~= rs@);
    r
}

/// The first worktree with `name` checked out.
fn first_checkout_index(ws: &Vec<WorktreeInfo>, name: &str) -> (r: Option<usize>)
    ensures
        match r {
            Some(k) => first_checkout(ws@, name@, k as int),
            None => forall|k: int| 0 <= k < ws@.len() ==> !has_branch(ws@, k, name@),
        },
{
    let mut i: usize = 0;
    while i < ws.len()
        invariant
            i <= ws.len(),
            forall|j: int| 0 <= j < i ==> !has_branch(ws@, j, name@),
        decreases ws.len() - i,
    {
        let hit = match &ws[i].branch {
            Some(b) => str_eq(b.as_str(), name),
            None => false,
        };
        if hit {
            return Some(i);
        }
        i = i + 1;
    }
    None
}

fn plan(progress: Option<ProgressUpdate>, work: Option<GitWork>, done: bool) -> (p: RunPlan)
    ensures
        p.progress == progress,
        p.work == work,
        p.done == done,
{
    RunPlan { progress, work, done }
}

fn progress_of(completed: usize, total: usize, item: &str) -> (p: Option<ProgressUpdate>)
    ensures
        progress_is(p, completed as int, total as int, item@),
{
    Some(ProgressUpdate { completed, total, current_item: to_owned_string(item) })
}

impl ActionRun {
    /// A run of `action` on `targets`, not started yet. `remote` is the
    /// remote the action names; `origin` stands in when it names none.
    pub fn new(
        action: BranchAction,
        targets: Vec<String>,
        base_branch: String,
        needs_stash: bool,
        remote: Option<String>,
    ) -> (r: ActionRun)
        ensures
            r.action == action,
            r.targets@ == targets@,
            r.base_branch == base_branch,
            r.needs_stash == needs_stash,
            r.remote_name@ == match remote {
                Some(x) => x@,
                None => "origin"@,
            },
            r.stage is Begin,
            r.results@.len() == 0,
            r.locally_deleted@.len() == 0,
            r.worktrees@.len() == 0,
            r.wf(),
    {
        let remote_name = match remote {
            Some(x) => x,
            None => to_owned_string("origin"),
        };
        ActionRun {
            action,
            targets,
            remote_name,
            base_branch,
            needs_stash,
            stage: RunStage::Begin,
            results: Vec::new(),
            locally_deleted: Vec::new(),
            worktrees: Vec::new(),
        }
    }

    /// The single-target work on the first target.
    fn single(&self) -> (w: GitWork)
        requires
            single_target(self.action),
            self.targets@.len() > 0,
        ensures
            single_work(*self, w),
    {
        let name = self.targets[0].clone();
        match self.action {
            BranchAction::Checkout => GitWork::Checkout { name, stash: self.needs_stash },
            BranchAction::FastForward => GitWork::FastForward { name },
            BranchAction::ForcePush => GitWork::ForcePush { name },
            BranchAction::Pull => GitWork::Pull { name },
            BranchAction::Merge => GitWork::Merge { name, base: self.base_branch.clone(), squash: false, stash: self.needs_stash },
            BranchAction::SquashMerge => GitWork::Merge { name, base: self.base_branch.clone(), squash: true, stash: self.needs_stash },
            BranchAction::Rebase => GitWork::Rebase { name, base: self.base_branch.clone(), stash: self.needs_stash },
            BranchAction::Worktree => GitWork::CreateWorktree { name },
            BranchAction::CheckoutRemote => GitWork::CheckoutRemote { remote: self.remote_name.clone(), name },
            BranchAction::PullRemote => GitWork::PullRemote { remote: self.remote_name.clone(), name },
            BranchAction::MergeRemoteIntoCurrent => {
                let full_ref = concat3(self.remote_name.as_str(), "/", name.as_str());
                GitWork::MergeRemoteIntoCurrent { full_ref, name }
            },
            _ => {
                let full_ref = concat3(self.remote_name.as_str(), "/", name.as_str());
                GitWork::CherryPickRemote { full_ref, name }
            },
        }
    }
}

impl ActionRun {
    fn begin(&mut self) -> (p: RunPlan)
        requires
            old(self).stage is Begin,
        ensures
            same_setup(*old(self), *final(self)),
            final(self).worktrees@ == old(self).worktrees@,
            begin_ok(*old(self), *final(self), p),
            final(self).wf(),
    {
        let a = self.action;
        let n = self.targets.len();
        if a == BranchAction::Checkout && n == 0 {
            self.stage = RunStage::Final;
            plan(None, None, false)
        } else if matches!(a, BranchAction::DeleteLocal | BranchAction::DeleteLocalForce | BranchAction::DeleteLocalAndRemote
            | BranchAction::WorktreeRemoveAndDeleteBranch | BranchAction::WorktreeRemoveAndDeleteBranchRemote
            | BranchAction::DeleteBranchAndRemoveWorktree | BranchAction::DeleteBranchAndRemoveWorktreeForce
            | BranchAction::DeleteBranchAndRemoveWorktreeRemote | BranchAction::Checkout
            | BranchAction::DeleteTag | BranchAction::DeleteTagAndRemote) {
            self.stage = RunStage::AwaitRepo;
            plan(None, Some(GitWork::OpenRepo), false)
        } else if matches!(a, BranchAction::FastForward | BranchAction::ForcePush | BranchAction::Pull
            | BranchAction::Merge | BranchAction::SquashMerge | BranchAction::Rebase | BranchAction::Worktree
            | BranchAction::CheckoutRemote | BranchAction::PullRemote | BranchAction::MergeRemoteIntoCurrent
            | BranchAction::CherryPickRemote) {
            if n == 0 {
                self.stage = RunStage::Final;
                plan(None, None, false)
            } else {
                let w = self.single();
                self.stage = RunStage::AwaitItem { index: 0 };
                plan(None, Some(w), false)
            }
        } else if a == BranchAction::DeleteRemoteAndLocal {
            if n == 0 {
                self.stage = RunStage::Final;
                plan(None, None, false)
            } else {
                let names = vec![self.targets[0].clone()];
                proof {
                    assert(names@ =~= seq![self.targets@[0]]);
                }
                self.stage = RunStage::AwaitRemote;
                plan(None, Some(GitWork::DeleteRemotes { remote: self.remote_name.clone(), names }), false)
            }
        } else if matches!(a, BranchAction::Push | BranchAction::PushTag | BranchAction::WorktreeRemove | BranchAction::WorktreeForceRemove) {
            self.stage = RunStage::Loop { index: 0 };
            plan(None, None, false)
        } else if a == BranchAction::DeleteRemoteBranch {
            let names = copy_strings(&self.targets);
            self.stage = RunStage::AwaitItem { index: 0 };
            plan(None, Some(GitWork::DeleteRemotesWithProgress { remote: self.remote_name.clone(), names }), false)
        } else if a == BranchAction::FetchRemote {
            if n == 0 {
                self.stage = RunStage::Final;
                plan(None, None, false)
            } else {
                self.stage = RunStage::AwaitItem { index: 0 };
                plan(None, Some(GitWork::FetchRemote { remote: self.remote_name.clone() }), false)
            }
        } else if a == BranchAction::Fetch || a == BranchAction::FetchPrune {
            self.stage = RunStage::AwaitItem { index: 0 };
            plan(None, Some(GitWork::Fetch { prune: a == BranchAction::FetchPrune }), false)
        } else {
            self.stage = RunStage::Final;
            plan(None, None, false)
        }
    }
}

impl ActionRun {
    fn cancel_now(&mut self)
        ensures
            same_setup(*old(self), *final(self)),
            final(self).worktrees@ == old(self).worktrees@,
            adds_one(*old(self), *final(self)),
            cancel_result(final(self).results@.last(), old(self).action),
            final(self).stage == old(self).stage,
    {
        let r = OperationResult {
            branch_name: String::new(),
            action: self.action,
            success: false,
            message: to_owned_string("Cancelled by user"),
            failure: None,
        };
        self.results.push(r);
        proof {
            assert(self.results@.drop_last() =~= old(self).results@);
        }
    }

    fn cascade_step(&mut self, i: usize) -> (p: RunPlan)
        requires
            old(self).stage == (RunStage::Loop { index: i }),
            i < old(self).targets@.len(),
            cascades(old(self).action),
        ensures
            same_setup(*old(self), *final(self)),
            final(self).worktrees@ == old(self).worktrees@,
            cascade_ok(*old(self), i as int, *final(self), p),
            final(self).wf(),
    {
        let n = self.targets.len();
        let name = self.targets[i].clone();
        let progress = progress_of(i, n, name.as_str());
        let force_d = self.action == BranchAction::DeleteBranchAndRemoveWorktreeForce;
        match first_checkout_index(&self.worktrees, name.as_str()) {
            None => {
                self.stage = RunStage::AwaitDelete { index: i, name: name.clone(), relabel: false };
                plan(progress, Some(GitWork::DeleteLocal { name, force: force_d }), false)
            },
            Some(k) => {
                let path = self.worktrees[k].path.clone();
                proof {
                    assert forall|j: int| #[trigger] first_checkout(self.worktrees@, name@, j) implies j == k by {
                        if j < k {
                            assert(!has_branch(self.worktrees@, j, name@));
                        } else if j > k {
                            assert(!has_branch(self.worktrees@, k as int, name@));
                        }
                    }
                }
                if self.worktrees[k].is_main {
                    let message = concat2("Cannot remove the primary worktree at ", path.as_str());
                    let r = OperationResult {
                        branch_name: name,
                        action: self.action,
                        success: false,
                        message,
                        failure: Some(FailureCause::CheckedOutInWorktree { worktree_path: path, is_main: true }),
                    };
                    self.results.push(r);
                    proof {
                        assert(self.results@.drop_last() =~= old(self).results@);
                    }
                    self.stage = RunStage::Loop { index: i + 1 };
                    plan(progress, None, false)
                } else {
                    let force_r = self.action == BranchAction::DeleteBranchAndRemoveWorktreeForce;
                    self.stage = RunStage::AwaitRemoval { index: i, branch: Some(name) };
                    plan(progress, Some(GitWork::RemoveWorktree { path, force: force_r, index: i, total: n }), false)
                }
            },
        }
    }

    fn loop_step(&mut self, i: usize, cancelled: bool) -> (p: RunPlan)
        requires
            old(self).stage == (RunStage::Loop { index: i }),
            old(self).wf(),
        ensures
            same_setup(*old(self), *final(self)),
            final(self).worktrees@ == old(self).worktrees@,
            loop_ok(*old(self), cancelled, i as int, *final(self), p),
            final(self).wf(),
    {
        let a = self.action;
        let n = self.targets.len();
        let remote_phase = matches!(a, BranchAction::DeleteLocal | BranchAction::DeleteLocalForce | BranchAction::DeleteLocalAndRemote
            | BranchAction::WorktreeRemoveAndDeleteBranch | BranchAction::WorktreeRemoveAndDeleteBranchRemote
            | BranchAction::DeleteBranchAndRemoveWorktree | BranchAction::DeleteBranchAndRemoveWorktreeForce
            | BranchAction::DeleteBranchAndRemoveWorktreeRemote);
        if i >= n {
            self.stage = if remote_phase { RunStage::RemotePhase } else { RunStage::Final };
            return plan(None, None, false);
        }
        if cancelled && remote_phase {
            self.cancel_now();
            self.stage = RunStage::RemotePhase;
            return plan(None, None, false);
        }
        if cancelled && matches!(a, BranchAction::Push | BranchAction::WorktreeRemove | BranchAction::WorktreeForceRemove) {
            self.stage = RunStage::Final;
            return plan(None, None, false);
        }
        if matches!(a, BranchAction::DeleteLocal | BranchAction::DeleteLocalForce | BranchAction::DeleteLocalAndRemote) {
            let name = self.targets[i].clone();
            let progress = progress_of(i, n, name.as_str());
            self.stage = RunStage::AwaitDelete { index: i, name: name.clone(), relabel: false };
            plan(progress, Some(GitWork::DeleteLocal { name, force: a == BranchAction::DeleteLocalForce }), false)
        } else if a == BranchAction::Push {
            let name = self.targets[i].clone();
            let progress = progress_of(i, n, name.as_str());
            self.stage = RunStage::AwaitItem { index: i };
            plan(progress, Some(GitWork::Push { name }), false)
        } else if a == BranchAction::PushTag {
            let name = self.targets[i].clone();
            self.stage = RunStage::AwaitItem { index: i };
            plan(None, Some(GitWork::PushTag { name }), false)
        } else if a == BranchAction::WorktreeRemove || a == BranchAction::WorktreeForceRemove {
            let path = self.targets[i].clone();
            self.stage = RunStage::AwaitItem { index: i };
            plan(None, Some(GitWork::RemoveWorktree { path, force: a == BranchAction::WorktreeForceRemove, index: i, total: n }), false)
        } else if a == BranchAction::WorktreeRemoveAndDeleteBranch || a == BranchAction::WorktreeRemoveAndDeleteBranchRemote {
            let path = self.targets[i].clone();
            self.stage = RunStage::AwaitLookup { index: i };
            plan(None, Some(GitWork::BranchOfWorktree { path }), false)
        } else if remote_phase {
            self.cascade_step(i)
        } else {
            self.stage = RunStage::Final;
            plan(None, None, false)
        }
    }
}

impl ActionRun {
    fn remote_phase(&mut self, cancelled: bool) -> (p: RunPlan)
        requires
            old(self).stage is RemotePhase,
        ensures
            same_setup(*old(self), *final(self)),
            final(self).worktrees@ == old(self).worktrees@,
            remote_phase_ok(*old(self), cancelled, *final(self), p),
            final(self).wf(),
    {
        let a = self.action;
        let wants = (a == BranchAction::DeleteLocalAndRemote || a == BranchAction::WorktreeRemoveAndDeleteBranchRemote
            || (a == BranchAction::DeleteBranchAndRemoveWorktreeRemote && !cancelled))
            && self.locally_deleted.len() > 0;
        if wants {
            let progress = progress_of(self.locally_deleted.len(), self.targets.len(), "Deleting remote branches...");
            let remote = if a == BranchAction::WorktreeRemoveAndDeleteBranchRemote {
                to_owned_string("origin")
            } else {
                self.remote_name.clone()
            };
            let names = copy_strings(&self.locally_deleted);
            self.stage = RunStage::AwaitRemote;
            plan(progress, Some(GitWork::DeleteRemotes { remote, names }), false)
        } else {
            self.stage = RunStage::Final;
            plan(None, None, false)
        }
    }

    /// The next step of the run; `cancelled` is the job's cancel flag as it
    /// reads now.
    pub fn next(&mut self, cancelled: bool) -> (p: RunPlan)
        requires
            old(self).wf(),
        ensures
            next_ok(*old(self), cancelled, *final(self), p),
            final(self).wf(),
    {
        let n = self.targets.len();
        match &self.stage {
            RunStage::Begin => self.begin(),
            RunStage::Single => {
                if n == 0 {
                    self.stage = RunStage::Final;
                    plan(None, None, false)
                } else if matches!(self.action, BranchAction::Checkout | BranchAction::FastForward | BranchAction::ForcePush
                    | BranchAction::Pull | BranchAction::Merge | BranchAction::SquashMerge | BranchAction::Rebase
                    | BranchAction::Worktree | BranchAction::CheckoutRemote | BranchAction::PullRemote
                    | BranchAction::MergeRemoteIntoCurrent | BranchAction::CherryPickRemote) {
                    let w = self.single();
                    self.stage = RunStage::AwaitItem { index: 0 };
                    plan(None, Some(w), false)
                } else {
                    self.stage = RunStage::Final;
                    plan(None, None, false)
                }
            },
            RunStage::Loop { index } => {
                let i = *index;
                self.loop_step(i, cancelled)
            },
            RunStage::Remove { index, branch } => {
                let i = *index;
                let b = branch.clone();
                let path = self.targets[i].clone();
                self.stage = RunStage::AwaitRemoval { index: i, branch: b };
                plan(None, Some(GitWork::RemoveWorktree { path, force: false, index: i, total: n }), false)
            },
            RunStage::PendingDelete { index, name, relabel } => {
                let i = *index;
                let nm = name.clone();
                let rl = *relabel;
                let force = self.action == BranchAction::DeleteLocalForce
                    || self.action == BranchAction::DeleteBranchAndRemoveWorktreeForce;
                self.stage = RunStage::AwaitDelete { index: i, name: nm.clone(), relabel: rl };
                plan(None, Some(GitWork::DeleteLocal { name: nm, force }), false)
            },
            RunStage::Tags => {
                let names = copy_strings(&self.targets);
                self.stage = RunStage::AwaitTags;
                plan(None, Some(GitWork::DeleteTags { names }), false)
            },
            RunStage::RemoteTags { names } => {
                let ns = copy_strings(names);
                self.stage = RunStage::AwaitRemote;
                plan(None, Some(GitWork::DeleteRemoteTags { names: ns }), false)
            },
            RunStage::RemotePhase => self.remote_phase(cancelled),
            RunStage::LocalAfterRemote => {
                self.stage = RunStage::AwaitRepoLocal;
                plan(None, Some(GitWork::OpenRepo), false)
            },
            RunStage::ListWorktrees => {
                self.stage = RunStage::AwaitWorktrees;
                plan(None, Some(GitWork::ListWorktrees), false)
            },
            RunStage::Final => {
                let c = count_successes(&self.results);
                let completed = if c < n { c } else { n };
                let progress = progress_of(completed, n, "Done");
                self.stage = RunStage::Done;
                plan(progress, None, true)
            },
            RunStage::Done => plan(None, None, true),
            _ => plan(None, None, false),
        }
    }
}

/// The name an open-repository failure is filed under.
pub open spec fn open_failure_name(s: ActionRun) -> Seq<char> {
    if s.action is Checkout && s.targets@.len() > 0 { s.targets@[0]@ } else { Seq::empty() }
}

/// Where a successfully opened repository leads.
pub open spec fn after_open(s: ActionRun) -> RunStage {
    let a = s.action;
    if deletes_locals(a) || removes_then_deletes(a) {
        RunStage::Loop { index: 0 }
    } else if cascades(a) {
        RunStage::ListWorktrees
    } else if a is Checkout {
        RunStage::Single
    } else if a is DeleteTag || a is DeleteTagAndRemote {
        RunStage::Tags
    } else {
        RunStage::Final
    }
}

/// The whole of [`ActionRun::record_repo`].
pub open spec fn repo_ok(s: ActionRun, opened: Result<(), String>, t: ActionRun) -> bool {
    let a = s.action;
    &&& same_setup(s, t)
    &&& t.worktrees@ == s.worktrees@
    &&& if s.stage is AwaitRepo {
        match opened {
            Err(e) => {
                &&& adds_one(s, t)
                &&& open_failure(t.results@.last(), open_failure_name(s), a, e@)
                &&& if cascades(a) { t.stage is Final } else { t.stage is Done }
            },
            Ok(_) => keeps_lists(s, t) && t.stage == after_open(s),
        }
    } else if s.stage is AwaitRepoLocal {
        keeps_lists(s, t) && t.stage == match opened {
            Ok(_) => if s.targets@.len() > 0 {
                RunStage::PendingDelete { index: 0, name: s.targets@[0], relabel: true }
            } else {
                RunStage::Final
            },
            Err(_) => RunStage::Final,
        }
    } else {
        keeps_lists(s, t) && t.stage == s.stage
    }
}

/// The whole of [`ActionRun::record_worktrees`].
pub open spec fn worktrees_ok(s: ActionRun, listing: Result<Vec<WorktreeInfo>, String>, t: ActionRun) -> bool {
    let n = s.targets@.len();
    let m = s.results@.len();
    &&& same_setup(s, t)
    &&& if s.stage is AwaitWorktrees {
        match listing {
            Err(e) => {
                &&& t.worktrees@ == s.worktrees@
                &&& t.stage is Final
                &&& t.locally_deleted@ == s.locally_deleted@
                &&& t.results@.len() == m + n
                &&& t.results@.subrange(0, m as int) == s.results@
                &&& forall|j: int| 0 <= j < n ==> inspect_failure(#[trigger] t.results@[m + j], s.targets@[j]@, s.action, e)
            },
            Ok(ws) => t.worktrees@ == ws@ && keeps_lists(s, t) && t.stage == (RunStage::Loop { index: 0 }),
        }
    } else {
        t.worktrees@ == s.worktrees@ && keeps_lists(s, t) && t.stage == s.stage
    }
}

/// The whole of [`ActionRun::record_branch`].
pub open spec fn branch_ok(s: ActionRun, branch: Option<String>, t: ActionRun) -> bool {
    &&& same_setup(s, t)
    &&& t.worktrees@ == s.worktrees@
    &&& keeps_lists(s, t)
    &&& match s.stage {
        RunStage::AwaitLookup { index } => t.stage == (RunStage::Remove { index, branch }),
        _ => t.stage == s.stage,
    }
}

/// `r` filed under the remote-and-local action.
pub open spec fn relabeled(r: OperationResult) -> OperationResult {
    OperationResult { action: BranchAction::DeleteRemoteAndLocal, ..r }
}

/// The first of `rs` succeeded.
pub open spec fn first_succeeded(rs: Seq<OperationResult>) -> bool {
    rs.len() > 0 && rs[0].success
}

/// The whole of [`ActionRun::record`].
pub open spec fn record_ok(s: ActionRun, rs: Seq<OperationResult>, t: ActionRun) -> bool {
    let a = s.action;
    let ok = first_succeeded(rs);
    &&& same_setup(s, t)
    &&& t.worktrees@ == s.worktrees@
    &&& match s.stage {
        RunStage::AwaitItem { index } => {
            &&& t.results@ == s.results@ + rs
            &&& t.locally_deleted@ == s.locally_deleted@
            &&& t.stage == if per_target(a) { RunStage::Loop { index: (index + 1) as usize } } else { RunStage::Final }
        },
        RunStage::AwaitTags => {
            &&& t.results@ == s.results@ + rs
            &&& t.locally_deleted@ == s.locally_deleted@
            &&& if a is DeleteTagAndRemote && successful_names(t.results@).len() > 0 {
                t.stage matches RunStage::RemoteTags { names } && names@ == successful_names(t.results@)
            } else {
                t.stage is Final
            }
        },
        RunStage::AwaitRemote => {
            &&& t.results@ == s.results@ + rs
            &&& t.locally_deleted@ == s.locally_deleted@
            &&& t.stage == if a is DeleteRemoteAndLocal { RunStage::LocalAfterRemote } else { RunStage::Final }
        },
        RunStage::AwaitRemoval { index, branch } => {
            &&& t.results@ == s.results@ + rs
            &&& t.locally_deleted@ == s.locally_deleted@
            &&& t.stage == if ok && branch is Some {
                RunStage::PendingDelete { index, name: branch->0, relabel: false }
            } else {
                RunStage::Loop { index: (index + 1) as usize }
            }
        },
        RunStage::AwaitDelete { index, name, relabel } => if relabel {
            &&& t.results@ == s.results@ + rs.map_values(|r: OperationResult| relabeled(r))
            &&& t.locally_deleted@ == s.locally_deleted@
            &&& t.stage is Final
        } else {
            &&& t.results@ == s.results@ + rs
            &&& t.locally_deleted@ == if ok { s.locally_deleted@.push(name) } else { s.locally_deleted@ }
            &&& t.stage == (RunStage::Loop { index: (index + 1) as usize })
        },
        _ => keeps_lists(s, t) && t.stage == s.stage,
    }
}

impl ActionRun {
    /// Hands back whether the repository could be opened, and the error if not.
    pub fn record_repo(&mut self, opened: Result<(), String>)
        requires
            old(self).wf(),
        ensures
            repo_ok(*old(self), opened, *final(self)),
            final(self).wf(),
    {
        if matches!(self.stage, RunStage::AwaitRepoLocal) {
            self.stage = match opened {
                Ok(_) => if self.targets.len() > 0 {
                    RunStage::PendingDelete { index: 0, name: self.targets[0].clone(), relabel: true }
                } else {
                    RunStage::Final
                },
                Err(_) => RunStage::Final,
            };
            return;
        }
        if !matches!(self.stage, RunStage::AwaitRepo) {
            return;
        }
        let a = self.action;
        match opened {
            Err(e) => {
                {
                    let name = if a == BranchAction::Checkout && self.targets.len() > 0 {
                        self.targets[0].clone()
                    } else {
                        String::new()
                    };
                    let message = concat2("Failed to open repo: ", e.as_str());
                    self.results.push(OperationResult { branch_name: name, action: a, success: false, message, failure: None });
                    proof {
                        assert(self.results@.drop_last() =~= old(self).results@);
                    }
                    let cascade = a == BranchAction::DeleteBranchAndRemoveWorktree
                        || a == BranchAction::DeleteBranchAndRemoveWorktreeForce
                        || a == BranchAction::DeleteBranchAndRemoveWorktreeRemote;
                    self.stage = if cascade { RunStage::Final } else { RunStage::Done };
                }
            },
            Ok(_) => {
                if matches!(a, BranchAction::DeleteLocal | BranchAction::DeleteLocalForce | BranchAction::DeleteLocalAndRemote
                    | BranchAction::WorktreeRemoveAndDeleteBranch | BranchAction::WorktreeRemoveAndDeleteBranchRemote) {
                    self.stage = RunStage::Loop { index: 0 };
                } else if matches!(a, BranchAction::DeleteBranchAndRemoveWorktree | BranchAction::DeleteBranchAndRemoveWorktreeForce
                    | BranchAction::DeleteBranchAndRemoveWorktreeRemote) {
                    self.stage = RunStage::ListWorktrees;
                } else if a == BranchAction::Checkout {
                    self.stage = RunStage::Single;
                } else if a == BranchAction::DeleteTag || a == BranchAction::DeleteTagAndRemote {
                    self.stage = RunStage::Tags;
                } else {
                    self.stage = RunStage::Final;
                }
            },
        }
    }

    /// Hands back the worktree listing, or the error that kept it from being read.
    pub fn record_worktrees(&mut self, listing: Result<Vec<WorktreeInfo>, String>)
        requires
            old(self).wf(),
        ensures
            worktrees_ok(*old(self), listing, *final(self)),
            final(self).wf(),
    {
        if !matches!(self.stage, RunStage::AwaitWorktrees) {
            return;
        }
        match listing {
            Ok(ws) => {
                self.worktrees = ws;
                self.stage = RunStage::Loop { index: 0 };
            },
            Err(e) => {
                let ghost m = self.results@.len();
                let n = self.targets.len();
                let mut j: usize = 0;
                while j < n
                    invariant
                        n == self.targets@.len(),
                        j <= n,
                        same_setup(*old(self), *self),
                        self.worktrees@ == old(self).worktrees@,
                        self.locally_deleted@ == old(self).locally_deleted@,
                        self.stage == old(self).stage,
                        m == old(self).results@.len(),
                        self.results@.len() == m + j,
                        self.results@.subrange(0, m as int) == old(self).results@,
                        forall|k: int| 0 <= k < j ==> inspect_failure(#[trigger] self.results@[m + k], self.targets@[k]@, self.action, e),
                    decreases n - j,
                {
                    let message = concat4("Cannot inspect worktrees for ", self.targets[j].as_str(), ": ", e.as_str());
                    let r = OperationResult {
                        branch_name: self.targets[j].clone(),
                        action: self.action,
                        success: false,
                        message,
                        failure: Some(FailureCause::Other { raw_message: e.clone() }),
                    };
                    self.results.push(r);
                    proof {
                        assert(self.results@.subrange(0, m as int) =~= old(self).results@);
                        assert forall|k: int| 0 <= k < j + 1 implies inspect_failure(#[trigger] self.results@[m + k], self.targets@[k]@, self.action, e) by {
                            if k < j {
                                assert(self.results@[m + k] == self.results@.drop_last()[m + k]);
                            }
                        }
                    }
                    j = j + 1;
                }
                self.stage = RunStage::Final;
            },
        }
    }

    /// Hands back the branch checked out in the worktree the lookup asked about.
    pub fn record_branch(&mut self, branch: Option<String>)
        requires
            old(self).wf(),
        ensures
            branch_ok(*old(self), branch, *final(self)),
            final(self).wf(),
    {
        if let RunStage::AwaitLookup { index } = &self.stage {
            let i = *index;
            self.stage = RunStage::Remove { index: i, branch };
        }
    }

    /// Hands back the results of the last piece of git work. Local deletions
    /// and worktree removals hand back their one result.
    pub fn record(&mut self, rs: Vec<OperationResult>)
        requires
            old(self).wf(),
        ensures
            record_ok(*old(self), rs@, *final(self)),
            final(self).wf(),
    {
        let ok = rs.len() > 0 && rs[0].success;
        let a = self.action;
        let _n = self.targets.len();
        match &self.stage {
            RunStage::AwaitItem { index } => {
                let i = *index;
                let mut rs = rs;
                self.results.append(&mut rs);
                if matches!(a, BranchAction::Push | BranchAction::PushTag | BranchAction::WorktreeRemove | BranchAction::WorktreeForceRemove) {
                    self.stage = RunStage::Loop { index: i + 1 };
                } else {
                    self.stage = RunStage::Final;
                }
            },
            RunStage::AwaitTags => {
                let mut rs = rs;
                self.results.append(&mut rs);
                if a == BranchAction::DeleteTagAndRemote {
                    let names = names_of_successes(&self.results);
                    if names.len() > 0 {
                        self.stage = RunStage::RemoteTags { names };
                    } else {
                        self.stage = RunStage::Final;
                    }
                } else {
                    self.stage = RunStage::Final;
                }
            },
            RunStage::AwaitRemote => {
                let mut rs = rs;
                self.results.append(&mut rs);
                self.stage = if a == BranchAction::DeleteRemoteAndLocal { RunStage::LocalAfterRemote } else { RunStage::Final };
            },
            RunStage::AwaitRemoval { index, branch } => {
                let i = *index;
                let next = match branch {
                    Some(b) => if ok {
                        RunStage::PendingDelete { index: i, name: b.clone(), relabel: false }
                    } else {
                        RunStage::Loop { index: i + 1 }
                    },
                    None => RunStage::Loop { index: i + 1 },
                };
                let mut rs = rs;
                self.results.append(&mut rs);
                self.stage = next;
            },
            RunStage::AwaitDelete { index, name, relabel } => {
                let i = *index;
                let nm = name.clone();
                if *relabel {
                    let ghost s0 = self.results@;
                    let mut j: usize = 0;
                    while j < rs.len()
                        invariant
                            j <= rs.len(),
                            same_setup(*old(self), *self),
                            self.worktrees@ == old(self).worktrees@,
                            self.locally_deleted@ == old(self).locally_deleted@,
                            s0 == old(self).results@,
                            self.results@ == s0 + rs@.subrange(0, j as int).map_values(|r: OperationResult| relabeled(r)),
                            self.stage == old(self).stage,
                        decreases rs.len() - j,
                    {
                        let mut x = clone_result(&rs[j]);
                        x.action = BranchAction::DeleteRemoteAndLocal;
                        let ghost before = self.results@;
                        self.results.push(x);
                        proof {
                            let prev = rs@.subrange(0, j as int).map_values(|r: OperationResult| relabeled(r));
                            let cur = rs@.subrange(0, j as int + 1).map_values(|r: OperationResult| relabeled(r));
                            assert(x == relabeled(rs@[j as int]));
                            assert(cur =~= prev.push(relabeled(rs@[j as int])));
                            assert(self.results@ =~= s0 + cur);
                        }
                        j = j + 1;
                    }
                    assert(rs@.subrange(0, rs@.len() as int) =~= rs@);
                    self.stage = RunStage::Final;
                } else {
                    let mut rs = rs;
                    self.results.append(&mut rs);
                    if ok {
                        self.locally_deleted.push(nm);
                    }
                    self.stage = RunStage::Loop { index: i + 1 };
                }
            },
            _ => {},
        }
    }
}

/// Stages in which the run waits for the caller's answer to git work.
pub open spec fn awaiting(stage: RunStage) -> bool {
    stage is AwaitRepo || stage is AwaitRepoLocal || stage is AwaitWorktrees || stage is AwaitItem
        || stage is AwaitLookup || stage is AwaitRemoval || stage is AwaitDelete || stage is AwaitTags
        || stage is AwaitRemote
}

/// How far a run is from its end.
pub open spec fn run_measure(s: ActionRun) -> int {
    let n = s.targets@.len() as int;
    let top = 20 + 8 * n;
    match s.stage {
        RunStage::Begin => top + 4,
        RunStage::AwaitRepo => top + 3,
        RunStage::ListWorktrees => top + 2,
        RunStage::AwaitWorktrees => top + 1,
        RunStage::Loop { index } => 20 + 8 * (n - index),
        RunStage::AwaitItem { index } => if per_target(s.action) { 19 + 8 * (n - index) } else { 2 },
        RunStage::AwaitLookup { index } => 19 + 8 * (n - index),
        RunStage::Remove { index, .. } => 18 + 8 * (n - index),
        RunStage::AwaitRemoval { index, .. } => 17 + 8 * (n - index),
        RunStage::PendingDelete { index, relabel, .. } => if relabel { 3 } else { 16 + 8 * (n - index) },
        RunStage::AwaitDelete { index, relabel, .. } => if relabel { 2 } else { 15 + 8 * (n - index) },
        RunStage::Tags => 9,
        RunStage::AwaitTags => 8,
        RunStage::RemoteTags { .. } => 7,
        RunStage::RemotePhase => 7,
        RunStage::AwaitRemote => 6,
        RunStage::LocalAfterRemote => 5,
        RunStage::AwaitRepoLocal => 4,
        RunStage::Single => 3,
        RunStage::Final => 1,
        RunStage::Done => 0,
    }
}

/// Every run comes to an end: each step that does not wait for git moves it
/// closer to its end, and so does every answer to the git work it waits for.
/// With the measure bounded below, a caller that follows the plans reaches
/// `done` after finitely many steps.
pub proof fn lemma_run_advances(
    s: ActionRun,
    cancelled: bool,
    t: ActionRun,
    p: RunPlan,
    opened: Result<(), String>,
    listing: Result<Vec<WorktreeInfo>, String>,
    branch: Option<String>,
    rs: Seq<OperationResult>,
)
    requires
        s.wf(),
        t.wf(),
    ensures
        run_measure(s) >= 0,
        next_ok(s, cancelled, t, p) && !awaiting(s.stage) && !(s.stage is Done) ==> run_measure(t) < run_measure(s),
        repo_ok(s, opened, t) && (s.stage is AwaitRepo || s.stage is AwaitRepoLocal) ==> run_measure(t) < run_measure(s),
        worktrees_ok(s, listing, t) && s.stage is AwaitWorktrees ==> run_measure(t) < run_measure(s),
        branch_ok(s, branch, t) && s.stage is AwaitLookup ==> run_measure(t) < run_measure(s),
        record_ok(s, rs, t) && awaiting(s.stage) && !(s.stage is AwaitRepo || s.stage is AwaitRepoLocal
            || s.stage is AwaitWorktrees || s.stage is AwaitLookup) ==> run_measure(t) < run_measure(s),
{
    assert(s.targets@.len() == s.targets.len());
    if next_ok(s, cancelled, t, p) && !awaiting(s.stage) && !(s.stage is Done) {
        if let RunStage::Loop { index } = s.stage {
            if cascades(s.action) && index < s.targets@.len() {
                let name = s.targets@[index as int];
                let ws = s.worktrees@;
                if exists|k: int| 0 <= k < ws.len() && has_branch(ws, k, name@) {
                    let k0 = choose|k: int| 0 <= k < ws.len() && has_branch(ws, k, name@);
                    lemma_first_checkout_exists(ws, name@, k0);
                }
            }
        }
    }
}

/// Where some worktree has `name` checked out, a first one does.
pub proof fn lemma_first_checkout_exists(ws: Seq<WorktreeInfo>, name: Seq<char>, k: int)
    requires
        0 <= k < ws.len(),
        has_branch(ws, k, name),
    ensures
        exists|j: int| first_checkout(ws, name, j),
    decreases k,
{
    if forall|j: int| 0 <= j < k ==> !has_branch(ws, j, name) {
        assert(first_checkout(ws, name, k));
    } else {
        let j = choose|j: int| 0 <= j < k && has_branch(ws, j, name);
        lemma_first_checkout_exists(ws, name, j);
    }
}

/// Worktree `w`, whose canonical path is `w_canonical` where it has one, is
/// the one at `path`: canonical paths are compared where both exist, the
/// paths as written otherwise.
pub open spec fn same_worktree(w: WorktreeInfo, w_canonical: Option<String>, path: Seq<char>, path_canonical: Option<Seq<char>>) -> bool {
    match (w_canonical, path_canonical) {
        (Some(x), Some(y)) => path_eq(x@, y),
        _ => path_eq(w.path@, path),
    }
}

pub open spec fn str_view(o: Option<&str>) -> Option<Seq<char>> {
    match o {
        Some(x) => Some(x@),
        None => None,
    }
}

pub open spec fn canonical_at(canonical: Seq<Option<String>>, k: int) -> Option<String> {
    if 0 <= k < canonical.len() { canonical[k] } else { None }
}

/// The branch checked out in the worktree at `path`, looked up in the
/// listing before the worktree is removed: the first listed worktree that is
/// the one at `path` gives its branch. `canonical[k]` is the canonical path
/// of listed worktree `k` where it could be found.
pub fn branch_of_worktree(
    listing: &Vec<WorktreeInfo>,
    canonical: &Vec<Option<String>>,
    path: &str,
    path_canonical: Option<&str>,
) -> (r: Option<String>)
    ensures
        match r {
            Some(b) => exists|k: int| 0 <= k < listing@.len()
                && same_worktree(listing@[k], canonical_at(canonical@, k), path@, str_view(path_canonical))
                && (forall|j: int| 0 <= j < k ==> !same_worktree(#[trigger] listing@[j], canonical_at(canonical@, j), path@, str_view(path_canonical)))
                && listing@[k].branch == Some(b),
            None => forall|k: int| 0 <= k < listing@.len()
                && same_worktree(listing@[k], canonical_at(canonical@, k), path@, str_view(path_canonical))
                ==> (exists|j: int| 0 <= j < k && same_worktree(#[trigger] listing@[j], canonical_at(canonical@, j), path@, str_view(path_canonical)))
                    || listing@[k].branch is None,
        },
{
    let ghost pc = str_view(path_canonical);
    let mut i: usize = 0;
    while i < listing.len()
        invariant
            i <= listing.len(),
            pc == str_view(path_canonical),
            forall|j: int| 0 <= j < i ==> !same_worktree(#[trigger] listing@[j], canonical_at(canonical@, j), path@, pc),
        decreases listing.len() - i,
    {
        let w = &listing[i];
        let wc: Option<&String> = if i < canonical.len() {
            match &canonical[i] {
                Some(c) => Some(c),
                None => None,
            }
        } else {
            None
        };
        let same = match (wc, path_canonical) {
            (Some(x), Some(y)) => paths_equal(x.as_str(), y),
            _ => paths_equal(w.path.as_str(), path),
        };
        proof {
            assert(same == same_worktree(listing@[i as int], canonical_at(canonical@, i as int), path@, pc));
        }
        if same {
            return match &w.branch {
                Some(b) => Some(b.clone()),
                None => None,
            };
        }
        i = i + 1;
    }
    None
}

/// The local deletions a run plans use `git branch -D` exactly for the
/// forcing actions: every local delete of a `DeleteLocalForce` run, or of a
/// forced branch-and-worktree removal, is forced, and every one of a
/// `DeleteLocal` or `DeleteLocalAndRemote` run is not.
pub proof fn lemma_local_delete_force_follows_action(s: ActionRun, cancelled: bool, t: ActionRun, p: RunPlan)
    requires
        next_ok(s, cancelled, t, p),
    ensures
        p.work matches Some(GitWork::DeleteLocal { force, .. }) ==> {
            &&& s.action == BranchAction::DeleteLocalForce ==> force
            &&& s.action == BranchAction::DeleteBranchAndRemoveWorktreeForce ==> force
            &&& s.action == BranchAction::DeleteLocal ==> !force
            &&& s.action == BranchAction::DeleteLocalAndRemote ==> !force
        },
{
    if let RunStage::Loop { index } = s.stage {
        let i = index as int;
        if i < s.targets@.len() && cascades(s.action) {
            let name = s.targets@[i];
            let ws = s.worktrees@;
            if exists|k: int| 0 <= k < ws.len() && has_branch(ws, k, name@) {
                let k0 = choose|k: int| 0 <= k < ws.len() && has_branch(ws, k, name@);
                lemma_first_checkout_exists(ws, name@, k0);
            }
        }
    }
}

} // verus!
