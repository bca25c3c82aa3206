//! Plain data shared by the library: branches, merge statuses, actions and
//! their results.

use vstd::prelude::*;

verus! {

/// How a branch relates to the base branch, as far as merge detection knows.
#[derive(Debug, Clone, Copy, PartialEq, Eq, Structural)]
pub enum MergeStatus {
    Merged,
    InSync,
    SquashMerged,
    LocalMerged,
    RemoteMerged,
    LocalSquashMerged,
    RemoteSquashMerged,
    LikelySquashMerged,
    CherryPicked,
    LocalCherryPicked,
    RemoteCherryPicked,
    Unmerged,
    Pending,
}

/// Upstream tracking of a local branch.
#[derive(Debug, Clone, PartialEq, Eq)]
pub enum TrackingStatus {
    Local,
    Upstream { remote_ref: String, gone: bool },
}

/// GitHub pull-request state.
#[derive(Debug, Clone, Copy, PartialEq, Eq, Structural)]
pub enum PrStatus {
    Open,
    Draft,
    Merged,
    Closed,
}

/// Pull request attached to a branch.
#[derive(Debug, Clone, Copy, PartialEq, Eq, Structural)]
pub struct PrInfo {
    pub number: u32,
    pub status: PrStatus,
}

/// Strength of a heuristic squash-merge signal.
#[derive(Debug, Clone, Copy, PartialEq, Eq, Structural)]
pub enum SquashConfidence {
    MergeTreeConfirmed,
    FuzzyMatch { similarity_percent: u8 },
}

/// A local branch with the metadata the UI shows for it. Dates are UNIX
/// timestamps in seconds.
#[derive(Debug, Clone)]
pub struct BranchInfo {
    pub name: String,
    pub is_current: bool,
    pub is_base: bool,
    pub tracking: TrackingStatus,
    pub ahead: Option<u32>,
    pub behind: Option<u32>,
    pub last_commit_date: i64,
    pub merge_status: MergeStatus,
    pub base_branch: String,
    pub merge_base_commit: Option<String>,
    pub pr: Option<PrInfo>,
    pub squash_confidence: Option<SquashConfidence>,
}

} // verus!

verus! {

/// A confirmed action on branches, remote branches, tags or worktrees.
#[derive(Debug, Clone, Copy, PartialEq, Eq, Structural)]
pub enum BranchAction {
    DeleteLocal,
    DeleteLocalForce,
    DeleteLocalAndRemote,
    Checkout,
    FastForward,
    Push,
    ForcePush,
    Pull,
    Merge,
    SquashMerge,
    Rebase,
    Worktree,
    DeleteTag,
    DeleteTagAndRemote,
    PushTag,
    DeleteRemoteBranch,
    DeleteRemoteAndLocal,
    CheckoutRemote,
    FetchRemote,
    PullRemote,
    MergeRemoteIntoCurrent,
    CherryPickRemote,
    WorktreeRemove,
    WorktreeForceRemove,
    WorktreeRemoveAndDeleteBranch,
    WorktreeRemoveAndDeleteBranchRemote,
    DeleteBranchAndRemoveWorktree,
    DeleteBranchAndRemoveWorktreeForce,
    DeleteBranchAndRemoveWorktreeRemote,
    Fetch,
    FetchPrune,
    ViewRemotePR,
}

/// The short human-readable name of an action.
pub open spec fn action_label(a: BranchAction) -> &'static str {
    match a {
        BranchAction::DeleteLocal => "Delete local",
        BranchAction::DeleteLocalForce => "Force-delete local",
        BranchAction::DeleteLocalAndRemote => "Delete local + remote",
        BranchAction::Checkout => "Checkout",
        BranchAction::FastForward => "Fast-forward",
        BranchAction::Push => "Push",
        BranchAction::ForcePush => "Force push",
        BranchAction::Pull => "Pull",
        BranchAction::Merge => "Merge into base",
        BranchAction::SquashMerge => "Squash merge into base",
        BranchAction::Rebase => "Rebase onto base",
        BranchAction::Worktree => "Create worktree",
        BranchAction::DeleteTag => "Delete tag",
        BranchAction::DeleteTagAndRemote => "Delete tag + remote",
        BranchAction::PushTag => "Push tag",
        BranchAction::DeleteRemoteBranch => "Delete remote branch",
        BranchAction::DeleteRemoteAndLocal => "Delete remote + local",
        BranchAction::CheckoutRemote => "Checkout remote",
        BranchAction::FetchRemote => "Fetch remote",
        BranchAction::PullRemote => "Pull remote",
        BranchAction::MergeRemoteIntoCurrent => "Merge into current",
        BranchAction::CherryPickRemote => "Cherry-pick",
        BranchAction::WorktreeRemove => "Remove worktree",
        BranchAction::WorktreeForceRemove => "Force-remove worktree",
        BranchAction::WorktreeRemoveAndDeleteBranch => "Remove worktree + branch",
        BranchAction::WorktreeRemoveAndDeleteBranchRemote => "Remove worktree + branch (local + remote)",
        BranchAction::DeleteBranchAndRemoveWorktree => "Delete branch + worktree",
        BranchAction::DeleteBranchAndRemoveWorktreeForce => "Force-delete branch + worktree",
        BranchAction::DeleteBranchAndRemoveWorktreeRemote => "Delete branch + worktree (local + remote)",
        BranchAction::Fetch => "Fetch",
        BranchAction::FetchPrune => "Fetch + prune",
        BranchAction::ViewRemotePR => "View PR",
    }
}

impl BranchAction {
    /// A short human-readable name of the action.
    pub fn label(&self) -> (r: &'static str)
        ensures
            r == action_label(*self),
    {
        match self {
            BranchAction::DeleteLocal => "Delete local",
            BranchAction::DeleteLocalForce => "Force-delete local",
            BranchAction::DeleteLocalAndRemote => "Delete local + remote",
            BranchAction::Checkout => "Checkout",
            BranchAction::FastForward => "Fast-forward",
            BranchAction::Push => "Push",
            BranchAction::ForcePush => "Force push",
            BranchAction::Pull => "Pull",
            BranchAction::Merge => "Merge into base",
            BranchAction::SquashMerge => "Squash merge into base",
            BranchAction::Rebase => "Rebase onto base",
            BranchAction::Worktree => "Create worktree",
            BranchAction::DeleteTag => "Delete tag",
            BranchAction::DeleteTagAndRemote => "Delete tag + remote",
            BranchAction::PushTag => "Push tag",
            BranchAction::DeleteRemoteBranch => "Delete remote branch",
            BranchAction::DeleteRemoteAndLocal => "Delete remote + local",
            BranchAction::CheckoutRemote => "Checkout remote",
            BranchAction::FetchRemote => "Fetch remote",
            BranchAction::PullRemote => "Pull remote",
            BranchAction::MergeRemoteIntoCurrent => "Merge into current",
            BranchAction::CherryPickRemote => "Cherry-pick",
            BranchAction::WorktreeRemove => "Remove worktree",
            BranchAction::WorktreeForceRemove => "Force-remove worktree",
            BranchAction::WorktreeRemoveAndDeleteBranch => "Remove worktree + branch",
            BranchAction::WorktreeRemoveAndDeleteBranchRemote => "Remove worktree + branch (local + remote)",
            BranchAction::DeleteBranchAndRemoveWorktree => "Delete branch + worktree",
            BranchAction::DeleteBranchAndRemoveWorktreeForce => "Force-delete branch + worktree",
            BranchAction::DeleteBranchAndRemoveWorktreeRemote => "Delete branch + worktree (local + remote)",
            BranchAction::Fetch => "Fetch",
            BranchAction::FetchPrune => "Fetch + prune",
            BranchAction::ViewRemotePR => "View PR",
        }
    }
}

/// Why an operation failed, when the cause is recognised.
#[derive(Debug, Clone, PartialEq, Eq)]
pub enum FailureCause {
    BranchNotFound,
    NotMerged,
    CheckedOutInWorktree { worktree_path: String, is_main: bool },
    Other { raw_message: String },
}

/// The outcome of one operation on one target.
#[derive(Debug, Clone)]
pub struct OperationResult {
    pub branch_name: String,
    pub action: BranchAction,
    pub success: bool,
    pub message: String,
    pub failure: Option<FailureCause>,
}

/// Progress of a running job, in targets.
#[derive(Debug, Clone)]
pub struct ProgressUpdate {
    pub completed: usize,
    pub total: usize,
    pub current_item: String,
}

pub open spec fn is_branch_not_found(f: Option<FailureCause>) -> bool {
    f matches Some(FailureCause::BranchNotFound)
}

impl OperationResult {
    pub fn success(branch_name: &str, action: BranchAction, message: &str) -> (r: Self)
        ensures
            r.branch_name@ == branch_name@,
            r.action == action,
            r.success,
            r.message@ == message@,
            r.failure is None,
    {
        OperationResult {
            branch_name: branch_name.to_owned(),
            action,
            success: true,
            message: message.to_owned(),
            failure: None,
        }
    }

    pub fn failure(branch_name: &str, action: BranchAction, cause: FailureCause, message: &str) -> (r: Self)
        ensures
            r.branch_name@ == branch_name@,
            r.action == action,
            !r.success,
            r.message@ == message@,
            r.failure == Some(cause),
    {
        OperationResult {
            branch_name: branch_name.to_owned(),
            action,
            success: false,
            message: message.to_owned(),
            failure: Some(cause),
        }
    }
}

} // verus!
