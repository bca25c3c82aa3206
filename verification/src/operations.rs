//! What git's answers mean for each branch operation. The caller runs the
//! git commands (cancellable ones are killed when the job is cancelled) and
//! hands the outcome of each to the function named after the operation,
//! which builds the result the UI shows.

use vstd::prelude::*;
use crate::types::{BranchAction, FailureCause, OperationResult};
use crate::text::{chars_of, concat2, concat3, concat4, slice_string, str_eq, to_owned_string, trim, trim_bounds};

verus! {

/// What running one git command came to.
#[derive(Debug)]
pub enum CmdOutcome {
    /// The command was killed because the job was cancelled.
    Cancelled,
    /// The command exited with status zero.
    Succeeded,
    /// The command exited with another status; its standard error, decoded lossily.
    Failed { stderr: String },
    /// The command could not be run; the error's text.
    SpawnFailed { error: String },
}

/// `r` is the result for `name` and `action` with the given success and message, and no cause.
pub open spec fn plain_result(r: OperationResult, name: Seq<char>, action: BranchAction, success: bool, message: Seq<char>) -> bool {
    &&& r.branch_name@ == name
    &&& r.action == action
    &&& r.success == success
    &&& r.message@ == message
    &&& r.failure is None
}

/// The result of a command's outcome: cancelled, the success message, the
/// command's trimmed standard error, or the error that kept it from running.
pub open spec fn outcome_result(r: OperationResult, name: Seq<char>, action: BranchAction, outcome: CmdOutcome, ok: Seq<char>) -> bool {
    match outcome {
        CmdOutcome::Cancelled => plain_result(r, name, action, false, "Cancelled"@),
        CmdOutcome::Succeeded => plain_result(r, name, action, true, ok),
        CmdOutcome::Failed { stderr } => plain_result(r, name, action, false, trim(stderr@)),
        CmdOutcome::SpawnFailed { error } => plain_result(r, name, action, false, error@),
    }
}

/// The result of a cancelled operation on `name`.
pub fn cancelled(name: &str, action: BranchAction) -> (r: OperationResult)
    ensures
        plain_result(r, name@, action, false, "Cancelled"@),
{
    OperationResult { branch_name: to_owned_string(name), action, success: false, message: to_owned_string("Cancelled"), failure: None }
}

/// `s` without surrounding whitespace.
pub fn trimmed(s: &str) -> (r: String)
    ensures
        r@ == trim(s@),
{
    let v = chars_of(s);
    let (a, b) = trim_bounds(&v, 0, v.len());
    assert(v@.subrange(0, v@.len() as int) =~= v@);
    slice_string(&v, a, b)
}

fn outcome_to_result(name: &str, action: BranchAction, outcome: &CmdOutcome, ok: String) -> (r: OperationResult)
    ensures
        outcome_result(r, name@, action, *outcome, ok@),
{
    match outcome {
        CmdOutcome::Cancelled => cancelled(name, action),
        CmdOutcome::Succeeded => OperationResult { branch_name: to_owned_string(name), action, success: true, message: ok, failure: None },
        CmdOutcome::Failed { stderr } => OperationResult {
            branch_name: to_owned_string(name),
            action,
            success: false,
            message: trimmed(stderr.as_str()),
            failure: None,
        },
        CmdOutcome::SpawnFailed { error } => OperationResult {
            branch_name: to_owned_string(name),
            action,
            success: false,
            message: to_owned_string(error.as_str()),
            failure: None,
        },
    }
}

/// `git fetch --all`.
pub fn fetch(outcome: &CmdOutcome) -> (r: OperationResult)
    ensures
        outcome_result(r, ""@, BranchAction::Fetch, *outcome, "Fetched all remotes"@),
{
    outcome_to_result("", BranchAction::Fetch, outcome, to_owned_string("Fetched all remotes"))
}

/// `git fetch --all --prune`.
pub fn fetch_prune(outcome: &CmdOutcome) -> (r: OperationResult)
    ensures
        outcome_result(r, ""@, BranchAction::FetchPrune, *outcome, "Fetched all remotes"@),
{
    outcome_to_result("", BranchAction::FetchPrune, outcome, to_owned_string("Fetched all remotes"))
}

/// Whether a blocking `git fetch --all` succeeded.
pub fn fetch_sync(outcome: &CmdOutcome) -> (ok: bool)
    ensures
        ok == (*outcome is Succeeded),
{
    match outcome {
        CmdOutcome::Succeeded => true,
        _ => false,
    }
}

/// `git checkout <branch>` (with the caller's stash push and pop around it
/// when asked; their outcome does not count).
pub fn checkout_branch(branch_name: &str, outcome: &CmdOutcome) -> (r: OperationResult)
    ensures
        outcome_result(r, branch_name@, BranchAction::Checkout, *outcome, "Checked out "@ + branch_name@),
{
    outcome_to_result(branch_name, BranchAction::Checkout, outcome, concat2("Checked out ", branch_name))
}

/// The refspec `<branch>:<branch>` that fast-forwards a branch from its remote.
pub fn self_refspec(branch_name: &str) -> (r: String)
    ensures
        r@ == branch_name@ + ":"@ + branch_name@,
{
    concat3(branch_name, ":", branch_name)
}

/// `git fetch origin <branch>:<branch>`.
pub fn fast_forward(branch_name: &str, outcome: &CmdOutcome) -> (r: OperationResult)
    ensures
        outcome_result(r, branch_name@, BranchAction::FastForward, *outcome, "Fast-forwarded "@ + branch_name@),
{
    outcome_to_result(branch_name, BranchAction::FastForward, outcome, concat2("Fast-forwarded ", branch_name))
}

/// Pulling a branch: `git pull --ff-only` for the current branch, and a
/// fast-forward fetch otherwise.
pub fn pull_branch(branch_name: &str, is_current: bool, outcome: &CmdOutcome) -> (r: OperationResult)
    ensures
        is_current ==> outcome_result(r, branch_name@, BranchAction::Pull, *outcome, "Pulled "@ + branch_name@),
        !is_current ==> outcome_result(r, branch_name@, BranchAction::FastForward, *outcome, "Fast-forwarded "@ + branch_name@),
{
    if is_current {
        outcome_to_result(branch_name, BranchAction::Pull, outcome, concat2("Pulled ", branch_name))
    } else {
        fast_forward(branch_name, outcome)
    }
}

/// `git push --set-upstream origin <branch>`.
pub fn push_branch(branch_name: &str, outcome: &CmdOutcome) -> (r: OperationResult)
    ensures
        outcome_result(r, branch_name@, BranchAction::Push, *outcome, "Pushed "@ + branch_name@),
{
    outcome_to_result(branch_name, BranchAction::Push, outcome, concat2("Pushed ", branch_name))
}

/// `git push --force-with-lease origin <branch>`.
pub fn force_push_branch(branch_name: &str, outcome: &CmdOutcome) -> (r: OperationResult)
    ensures
        outcome_result(r, branch_name@, BranchAction::ForcePush, *outcome, "Force pushed "@ + branch_name@),
{
    outcome_to_result(branch_name, BranchAction::ForcePush, outcome, concat2("Force pushed ", branch_name))
}

/// Merging (or squash-merging) a branch into the base: `checkout_ok` tells
/// whether `git checkout <base>` succeeded, and `merge_ok` whether the merge
/// then did (it is not run when the checkout failed).
pub fn merge_branch(branch_name: &str, base: &str, squash: bool, checkout_ok: bool, merge_ok: bool) -> (rs: Vec<OperationResult>)
    ensures
        rs@.len() == 1,
        ({
            let action = if squash { BranchAction::SquashMerge } else { BranchAction::Merge };
            if !checkout_ok {
                plain_result(rs@[0], branch_name@, action, false, "Failed to checkout "@ + base@)
            } else if merge_ok {
                plain_result(rs@[0], branch_name@, action, true, "Merged "@ + branch_name@ + " into "@ + base@)
            } else {
                plain_result(rs@[0], branch_name@, action, false, "Merge conflict \u{2014} aborted"@)
            }
        }),
{
    let action = if squash { BranchAction::SquashMerge } else { BranchAction::Merge };
    let r = if !checkout_ok {
        OperationResult { branch_name: to_owned_string(branch_name), action, success: false, message: concat2("Failed to checkout ", base), failure: None }
    } else if merge_ok {
        OperationResult { branch_name: to_owned_string(branch_name), action, success: true, message: concat4("Merged ", branch_name, " into ", base), failure: None }
    } else {
        OperationResult { branch_name: to_owned_string(branch_name), action, success: false, message: to_owned_string("Merge conflict \u{2014} aborted"), failure: None }
    };
    let mut rs = Vec::new();
    rs.push(r);
    rs
}

/// Rebasing a branch onto the base: `checkout_ok` tells whether
/// `git checkout <branch>` succeeded, and `rebase_ok` whether the rebase then did.
pub fn rebase_branch(branch_name: &str, base: &str, checkout_ok: bool, rebase_ok: bool) -> (rs: Vec<OperationResult>)
    ensures
        rs@.len() == 1,
        !checkout_ok ==> plain_result(rs@[0], branch_name@, BranchAction::Rebase, false, "Failed to checkout "@ + branch_name@),
        checkout_ok && rebase_ok ==> plain_result(rs@[0], branch_name@, BranchAction::Rebase, true, "Rebased "@ + branch_name@ + " onto "@ + base@),
        checkout_ok && !rebase_ok ==> plain_result(rs@[0], branch_name@, BranchAction::Rebase, false, "Rebase conflict \u{2014} aborted"@),
{
    let r = if !checkout_ok {
        OperationResult { branch_name: to_owned_string(branch_name), action: BranchAction::Rebase, success: false, message: concat2("Failed to checkout ", branch_name), failure: None }
    } else if rebase_ok {
        OperationResult { branch_name: to_owned_string(branch_name), action: BranchAction::Rebase, success: true, message: concat4("Rebased ", branch_name, " onto ", base), failure: None }
    } else {
        OperationResult { branch_name: to_owned_string(branch_name), action: BranchAction::Rebase, success: false, message: to_owned_string("Rebase conflict \u{2014} aborted"), failure: None }
    };
    let mut rs = Vec::new();
    rs.push(r);
    rs
}

/// `git checkout -b <short> --track <remote>/<short>`.
pub fn checkout_remote_branch(remote: &str, short_name: &str, outcome: &CmdOutcome) -> (r: OperationResult)
    ensures
        outcome_result(r, short_name@, BranchAction::CheckoutRemote, *outcome,
            "Checked out "@ + short_name@ + " tracking "@ + remote@ + "/"@ + short_name@),
{
    let a = concat4("Checked out ", short_name, " tracking ", remote);
    outcome_to_result(short_name, BranchAction::CheckoutRemote, outcome, concat3(a.as_str(), "/", short_name))
}

/// `git push <remote> --delete <branch>`.
pub fn delete_remote(branch_name: &str, outcome: &CmdOutcome) -> (r: OperationResult)
    ensures
        outcome_result(r, branch_name@, BranchAction::DeleteRemoteBranch, *outcome, "Deleted remote "@ + branch_name@),
{
    outcome_to_result(branch_name, BranchAction::DeleteRemoteBranch, outcome, concat2("Deleted remote ", branch_name))
}

/// Whether a batch delete's outcome settles every branch: cancelled or succeeded.
pub open spec fn batch_settles(batch: CmdOutcome) -> bool {
    batch is Cancelled || batch is Succeeded
}

/// Deleting several remote branches: one `git push <remote> --delete ...`
/// for all of them first; when it neither succeeded nor was cancelled, one
/// delete per branch, whose outcomes are `singles` (empty otherwise).
pub fn delete_remotes_batch_for_remote(branch_names: &Vec<String>, batch: &CmdOutcome, singles: &Vec<CmdOutcome>) -> (rs: Vec<OperationResult>)
    requires
        branch_names@.len() > 0 && !batch_settles(*batch) ==> singles@.len() == branch_names@.len(),
    ensures
        branch_names@.len() == 0 ==> rs@.len() == 0,
        branch_names@.len() > 0 ==> rs@.len() == branch_names@.len(),
        branch_names@.len() > 0 ==> forall|i: int| 0 <= i < rs@.len() ==> match *batch {
            CmdOutcome::Cancelled => plain_result(#[trigger] rs@[i], branch_names@[i]@, BranchAction::DeleteRemoteBranch, false, "Cancelled"@),
            CmdOutcome::Succeeded => plain_result(rs@[i], branch_names@[i]@, BranchAction::DeleteRemoteBranch, true, "Deleted remote "@ + branch_names@[i]@),
            _ => outcome_result(rs@[i], branch_names@[i]@, BranchAction::DeleteRemoteBranch, singles@[i], "Deleted remote "@ + branch_names@[i]@),
        },
{
    let mut rs: Vec<OperationResult> = Vec::new();
    if branch_names.len() == 0 {
        return rs;
    }
    let mut i: usize = 0;
    while i < branch_names.len()
        invariant
            i <= branch_names.len(),
            rs@.len() == i,
            !batch_settles(*batch) ==> singles@.len() == branch_names@.len(),
            forall|k: int| 0 <= k < i ==> match *batch {
                CmdOutcome::Cancelled => plain_result(#[trigger] rs@[k], branch_names@[k]@, BranchAction::DeleteRemoteBranch, false, "Cancelled"@),
                CmdOutcome::Succeeded => plain_result(rs@[k], branch_names@[k]@, BranchAction::DeleteRemoteBranch, true, "Deleted remote "@ + branch_names@[k]@),
                _ => outcome_result(rs@[k], branch_names@[k]@, BranchAction::DeleteRemoteBranch, singles@[k], "Deleted remote "@ + branch_names@[k]@),
            },
        decreases branch_names.len() - i,
    {
        let name = branch_names[i].as_str();
        let r = match batch {
            CmdOutcome::Cancelled => cancelled(name, BranchAction::DeleteRemoteBranch),
            CmdOutcome::Succeeded => OperationResult {
                branch_name: to_owned_string(name),
                action: BranchAction::DeleteRemoteBranch,
                success: true,
                message: concat2("Deleted remote ", name),
                failure: None,
            },
            _ => delete_remote(name, &singles[i]),
        };
        rs.push(r);
        i = i + 1;
    }
    rs
}

/// [`delete_remotes_batch_for_remote`] for the `origin` remote.
pub fn delete_remotes_batch(branch_names: &Vec<String>, batch: &CmdOutcome, singles: &Vec<CmdOutcome>) -> (rs: Vec<OperationResult>)
    requires
        branch_names@.len() > 0 && !batch_settles(*batch) ==> singles@.len() == branch_names@.len(),
    ensures
        branch_names@.len() == 0 ==> rs@.len() == 0,
        branch_names@.len() > 0 ==> rs@.len() == branch_names@.len(),
        branch_names@.len() > 0 ==> forall|i: int| 0 <= i < rs@.len() ==> match *batch {
            CmdOutcome::Cancelled => plain_result(#[trigger] rs@[i], branch_names@[i]@, BranchAction::DeleteRemoteBranch, false, "Cancelled"@),
            CmdOutcome::Succeeded => plain_result(rs@[i], branch_names@[i]@, BranchAction::DeleteRemoteBranch, true, "Deleted remote "@ + branch_names@[i]@),
            _ => outcome_result(rs@[i], branch_names@[i]@, BranchAction::DeleteRemoteBranch, singles@[i], "Deleted remote "@ + branch_names@[i]@),
        },
{
    delete_remotes_batch_for_remote(branch_names, batch, singles)
}

/// Deleting remote branches one at a time with progress: `outcomes` holds
/// the delete of each branch tried, in order; when fewer than all were tried
/// the job was cancelled before the next, which is reported cancelled.
pub fn delete_remotes_with_progress_for_remote(branch_names: &Vec<String>, outcomes: &Vec<CmdOutcome>) -> (rs: Vec<OperationResult>)
    requires
        outcomes@.len() <= branch_names@.len(),
    ensures
        rs@.len() == if outcomes@.len() < branch_names@.len() { outcomes@.len() + 1 } else { outcomes@.len() },
        forall|i: int| 0 <= i < outcomes@.len() ==> outcome_result(#[trigger] rs@[i], branch_names@[i]@,
            BranchAction::DeleteRemoteBranch, outcomes@[i], "Deleted remote "@ + branch_names@[i]@),
        outcomes@.len() < branch_names@.len() ==> plain_result(rs@[outcomes@.len() as int],
            branch_names@[outcomes@.len() as int]@, BranchAction::DeleteRemoteBranch, false, "Cancelled"@),
{
    let mut rs: Vec<OperationResult> = Vec::new();
    let mut i: usize = 0;
    while i < outcomes.len()
        invariant
            i <= outcomes.len() <= branch_names.len(),
            rs@.len() == i,
            forall|k: int| 0 <= k < i ==> outcome_result(#[trigger] rs@[k], branch_names@[k]@,
                BranchAction::DeleteRemoteBranch, outcomes@[k], "Deleted remote "@ + branch_names@[k]@),
        decreases outcomes.len() - i,
    {
        rs.push(delete_remote(branch_names[i].as_str(), &outcomes[i]));
        i = i + 1;
    }
    if outcomes.len() < branch_names.len() {
        rs.push(cancelled(branch_names[outcomes.len()].as_str(), BranchAction::DeleteRemoteBranch));
    }
    rs
}

/// [`delete_remotes_with_progress_for_remote`] for the `origin` remote.
pub fn delete_remotes_with_progress(branch_names: &Vec<String>, outcomes: &Vec<CmdOutcome>) -> (rs: Vec<OperationResult>)
    requires
        outcomes@.len() <= branch_names@.len(),
    ensures
        rs@.len() == if outcomes@.len() < branch_names@.len() { outcomes@.len() + 1 } else { outcomes@.len() },
        forall|i: int| 0 <= i < outcomes@.len() ==> outcome_result(#[trigger] rs@[i], branch_names@[i]@,
            BranchAction::DeleteRemoteBranch, outcomes@[i], "Deleted remote "@ + branch_names@[i]@),
        outcomes@.len() < branch_names@.len() ==> plain_result(rs@[outcomes@.len() as int],
            branch_names@[outcomes@.len() as int]@, BranchAction::DeleteRemoteBranch, false, "Cancelled"@),
{
    delete_remotes_with_progress_for_remote(branch_names, outcomes)
}

fn one(r: OperationResult) -> (rs: Vec<OperationResult>)
    ensures
        rs@ == seq![r],
{
    let mut rs = Vec::new();
    rs.push(r);
    rs
}

/// `git fetch <remote>`.
pub fn fetch_remote(remote: &str, outcome: &CmdOutcome) -> (rs: Vec<OperationResult>)
    ensures
        rs@.len() == 1,
        outcome_result(rs@[0], remote@, BranchAction::FetchRemote, *outcome, "Fetched "@ + remote@),
{
    one(outcome_to_result(remote, BranchAction::FetchRemote, outcome, concat2("Fetched ", remote)))
}

/// `git fetch <remote> <short>:<short>`.
pub fn pull_remote(remote: &str, short_name: &str, outcome: &CmdOutcome) -> (rs: Vec<OperationResult>)
    ensures
        rs@.len() == 1,
        outcome_result(rs@[0], short_name@, BranchAction::PullRemote, *outcome, "Pulled "@ + remote@ + "/"@ + short_name@),
{
    let ok = concat4("Pulled ", remote, "/", short_name);
    one(outcome_to_result(short_name, BranchAction::PullRemote, outcome, ok))
}

/// `git merge <remote>/<short>` into the current branch; a failed merge is aborted.
pub fn merge_remote_into_current(full_ref: &str, short_name: &str, merged: bool) -> (rs: Vec<OperationResult>)
    ensures
        rs@.len() == 1,
        merged ==> plain_result(rs@[0], short_name@, BranchAction::MergeRemoteIntoCurrent, true, "Merged "@ + full_ref@ + " into current"@),
        !merged ==> plain_result(rs@[0], short_name@, BranchAction::MergeRemoteIntoCurrent, false, "Merge conflict \u{2014} aborted"@),
{
    let r = if merged {
        OperationResult { branch_name: to_owned_string(short_name), action: BranchAction::MergeRemoteIntoCurrent, success: true, message: concat3("Merged ", full_ref, " into current"), failure: None }
    } else {
        OperationResult { branch_name: to_owned_string(short_name), action: BranchAction::MergeRemoteIntoCurrent, success: false, message: to_owned_string("Merge conflict \u{2014} aborted"), failure: None }
    };
    one(r)
}

/// `git cherry-pick <remote>/<short>`; a failed cherry-pick is aborted.
pub fn cherry_pick_remote(full_ref: &str, short_name: &str, picked: bool) -> (rs: Vec<OperationResult>)
    ensures
        rs@.len() == 1,
        picked ==> plain_result(rs@[0], short_name@, BranchAction::CherryPickRemote, true, "Cherry-picked "@ + full_ref@),
        !picked ==> plain_result(rs@[0], short_name@, BranchAction::CherryPickRemote, false, "Cherry-pick conflict \u{2014} aborted"@),
{
    let r = if picked {
        OperationResult { branch_name: to_owned_string(short_name), action: BranchAction::CherryPickRemote, success: true, message: concat2("Cherry-picked ", full_ref), failure: None }
    } else {
        OperationResult { branch_name: to_owned_string(short_name), action: BranchAction::CherryPickRemote, success: false, message: to_owned_string("Cherry-pick conflict \u{2014} aborted"), failure: None }
    };
    one(r)
}

/// A branch name with each `/` replaced by `-`, usable as a directory name.
pub open spec fn sanitized_name(name: Seq<char>) -> Seq<char> {
    name.map_values(|c: char| if c == '/' { '-' } else { c })
}

/// `part` appended to `base` as a path component (`Path::join` for a
/// relative component on Unix): with a `/` between them unless `base` is
/// empty or already ends in one.
pub open spec fn joined(base: Seq<char>, part: Seq<char>) -> Seq<char> {
    if base.len() == 0 {
        part
    } else if base.last() == '/' {
        base + part
    } else {
        base + "/"@ + part
    }
}

/// The directory a new worktree for `branch_name` goes to: `.worktrees/<name>`
/// under the repository, with `/` in the name replaced by `-`.
pub open spec fn worktree_dir(repo_path: Seq<char>, branch_name: Seq<char>) -> Seq<char> {
    joined(joined(repo_path, ".worktrees"@), sanitized_name(branch_name))
}

pub(crate) fn join_path(base: &str, part: &str) -> (r: String)
    ensures
        r@ == joined(base@, part@),
{
    let b = chars_of(base);
    if b.len() == 0 {
        to_owned_string(part)
    } else if b[b.len() - 1] == '/' {
        concat2(base, part)
    } else {
        concat3(base, "/", part)
    }
}

/// Where `create_worktree` puts the worktree for `branch_name`.
pub fn worktree_path_for(repo_path: &str, branch_name: &str) -> (r: String)
    ensures
        r@ == worktree_dir(repo_path@, branch_name@),
{
    let chars = chars_of(branch_name);
    let mut out: Vec<char> = Vec::new();
    let mut i: usize = 0;
    while i < chars.len()
        invariant
            i <= chars.len(),
            out@ =~= sanitized_name(chars@.subrange(0, i as int)),
        decreases chars.len() - i,
    {
        let c = chars[i];
        out.push(if c == '/' { '-' } else { c });
        proof {
            assert(chars@.subrange(0, i + 1) =~= chars@.subrange(0, i as int).push(c));
        }
        i = i + 1;
    }
    assert(chars@.subrange(0, chars.len() as int) =~= chars@);
    let name = crate::text::string_from_chars(out.as_slice());
    let dir = join_path(repo_path, ".worktrees");
    join_path(dir.as_str(), name.as_str())
}

/// `git worktree add <path> <branch>`, with `path` from [`worktree_path_for`].
pub fn create_worktree(worktree_path: &str, branch_name: &str, outcome: &CmdOutcome) -> (r: OperationResult)
    ensures
        outcome_result(r, branch_name@, BranchAction::Worktree, *outcome, "Created worktree at "@ + worktree_path@),
{
    outcome_to_result(branch_name, BranchAction::Worktree, outcome, concat2("Created worktree at ", worktree_path))
}

/// How deleting a worktree's files ended.
#[derive(Debug)]
pub enum DeleteOutcome {
    Cancelled,
    /// Deletion stopped on an error after `done` of `total` files.
    Error { message: String, done: usize, total: usize },
    /// Every file was deleted; then pruning git's metadata gave this.
    Completed { prune: Result<(), String> },
}

/// What removing a worktree found, step by step; each step is looked at only
/// when the ones before it let the removal go on.
#[derive(Debug)]
pub struct RemovalFacts {
    /// The worktree is the repository's own checkout (canonical paths equal).
    pub is_main_checkout: bool,
    /// Opening the repository failed with this error.
    pub open_error: Option<String>,
    /// The path is a registered worktree.
    pub registered: bool,
    /// The worktree has no uncommitted changes (asked only without force).
    pub clean: bool,
    pub deletion: DeleteOutcome,
}

/// The result of removing the worktree at `path` (forced or not) from what
/// the removal found.
pub open spec fn removal_result(r: OperationResult, path: Seq<char>, force: bool, f: RemovalFacts) -> bool {
    let action = if force { BranchAction::WorktreeForceRemove } else { BranchAction::WorktreeRemove };
    if f.is_main_checkout {
        plain_result(r, path, action, false, "Refusing to remove the main worktree"@)
    } else if f.open_error is Some {
        plain_result(r, path, action, false, "Failed to open repo: "@ + f.open_error->0@)
    } else if !f.registered {
        plain_result(r, path, action, false, path + " is not a registered worktree"@)
    } else if !force && !f.clean {
        plain_result(r, path, action, false, "Worktree has uncommitted changes \u{2014} use force remove"@)
    } else {
        match f.deletion {
            DeleteOutcome::Cancelled => plain_result(r, path, action, false, "Cancelled"@),
            DeleteOutcome::Error { message, done, total } => plain_result(r, path, action, false,
                crate::text::decimal(done as nat) + "/"@ + crate::text::decimal(total as nat) + " files removed ("@ + message@ + ")"@),
            DeleteOutcome::Completed { prune } => match prune {
                Ok(_) => plain_result(r, path, action, true, "Removed worktree "@ + path),
                Err(e) => plain_result(r, path, action, false, "Removed worktree files for "@ + path
                    + " but failed to prune git metadata ("@ + e@ + ") \u{2014} run `git worktree prune`"@),
            },
        }
    }
}

fn removal(path: &str, force: bool, facts: &RemovalFacts) -> (r: OperationResult)
    ensures
        removal_result(r, path@, force, *facts),
{
    let action = if force { BranchAction::WorktreeForceRemove } else { BranchAction::WorktreeRemove };
    let message = if facts.is_main_checkout {
        to_owned_string("Refusing to remove the main worktree")
    } else if let Some(e) = &facts.open_error {
        concat2("Failed to open repo: ", e.as_str())
    } else if !facts.registered {
        concat2(path, " is not a registered worktree")
    } else if !force && !facts.clean {
        to_owned_string("Worktree has uncommitted changes \u{2014} use force remove")
    } else {
        match &facts.deletion {
            DeleteOutcome::Cancelled => to_owned_string("Cancelled"),
            DeleteOutcome::Error { message, done, total } => {
                let d = crate::text::decimal_string_usize(*done);
                let t = crate::text::decimal_string_usize(*total);
                let a = concat3(d.as_str(), "/", t.as_str());
                concat4(a.as_str(), " files removed (", message.as_str(), ")")
            },
            DeleteOutcome::Completed { prune } => match prune {
                Ok(_) => concat2("Removed worktree ", path),
                Err(e) => {
                    let a = concat3("Removed worktree files for ", path, " but failed to prune git metadata (");
                    concat3(a.as_str(), e.as_str(), ") \u{2014} run `git worktree prune`")
                },
            },
        }
    };
    let success = !facts.is_main_checkout && facts.open_error.is_none() && facts.registered
        && (force || facts.clean) && match &facts.deletion {
            DeleteOutcome::Completed { prune } => prune.is_ok(),
            _ => false,
        };
    OperationResult { branch_name: to_owned_string(path), action, success, message, failure: None }
}

/// Removing the worktree at `path` after checking it is clean.
pub fn remove_worktree(path: &str, facts: &RemovalFacts) -> (r: OperationResult)
    ensures
        removal_result(r, path@, false, *facts),
{
    removal(path, false, facts)
}

/// Removing the worktree at `path` whatever its changes.
pub fn force_remove_worktree(path: &str, facts: &RemovalFacts) -> (r: OperationResult)
    ensures
        removal_result(r, path@, true, *facts),
{
    removal(path, true, facts)
}


/// A failure cause seen by its parts.
pub enum CauseView {
    BranchNotFound,
    NotMerged,
    CheckedOutInWorktree { worktree_path: Seq<char>, is_main: bool },
    Other { raw_message: Seq<char> },
}

pub open spec fn cause_view(c: FailureCause) -> CauseView {
    match c {
        FailureCause::BranchNotFound => CauseView::BranchNotFound,
        FailureCause::NotMerged => CauseView::NotMerged,
        FailureCause::CheckedOutInWorktree { worktree_path, is_main } =>
            CauseView::CheckedOutInWorktree { worktree_path: worktree_path@, is_main },
        FailureCause::Other { raw_message } => CauseView::Other { raw_message: raw_message@ },
    }
}

/// Whether git's delete error, lower-cased, hints the branch is checked out somewhere.
pub open spec fn checked_out_hint(lower: Seq<char>) -> bool {
    crate::text::contains(lower, "used by worktree"@) || crate::text::contains(lower, "checked out"@)
        || crate::text::contains(lower, "checked-out"@)
}

/// The cause read from git's message alone.
pub open spec fn message_cause(raw: Seq<char>) -> CauseView {
    let lower = crate::text::lower(raw);
    if crate::text::contains(lower, "not fully merged"@) || crate::text::contains(lower, "not merged"@) {
        CauseView::NotMerged
    } else if crate::text::contains(lower, "not found"@) || crate::text::contains(lower, "does not exist"@) {
        CauseView::BranchNotFound
    } else {
        CauseView::Other { raw_message: raw }
    }
}

/// The cause of a failed `git branch -d/-D` from git's message `raw` and,
/// when the message hints at a checkout, the lookup of a worktree other than
/// the caller's with the branch: such a worktree is the cause, a failed
/// lookup is reported with the message, and otherwise the message decides.
pub open spec fn delete_error_cause(raw: Seq<char>, lookup: Option<Result<Option<(Seq<char>, bool)>, Seq<char>>>) -> CauseView {
    if checked_out_hint(crate::text::lower(raw)) {
        match lookup {
            Some(Ok(Some((path, is_main)))) => CauseView::CheckedOutInWorktree { worktree_path: path, is_main },
            Some(Err(e)) => CauseView::Other { raw_message: raw + " (worktree lookup failed: "@ + e + ")"@ },
            _ => message_cause(raw),
        }
    } else {
        message_cause(raw)
    }
}

/// Whether a failed `git branch -d/-D` needs the worktree lookup to be classified.
pub fn needs_worktree_lookup(raw: &str) -> (b: bool)
    ensures
        b == checked_out_hint(crate::text::lower(raw@)),
{
    let lower = crate::text::lower_vec(&chars_of(raw));
    crate::text::vec_contains(&lower, &chars_of("used by worktree"))
        || crate::text::vec_contains(&lower, &chars_of("checked out"))
        || crate::text::vec_contains(&lower, &chars_of("checked-out"))
}

pub open spec fn lookup_view(l: Option<Result<Option<(String, bool)>, String>>) -> Option<Result<Option<(Seq<char>, bool)>, Seq<char>>> {
    match l {
        None => None,
        Some(Ok(None)) => Some(Ok(None)),
        Some(Ok(Some((p, m)))) => Some(Ok(Some((p@, m)))),
        Some(Err(e)) => Some(Err(e@)),
    }
}

/// The cause of a failed `git branch -d/-D`; `lookup` is the worktree
/// lookup, made when [`needs_worktree_lookup`] says so.
pub fn classify_delete_command_error(raw: &str, lookup: Option<Result<Option<(String, bool)>, String>>) -> (c: FailureCause)
    ensures
        cause_view(c) == delete_error_cause(raw@, lookup_view(lookup)),
{
    if needs_worktree_lookup(raw) {
        match lookup {
            Some(Ok(Some((path, is_main)))) => {
                return FailureCause::CheckedOutInWorktree { worktree_path: path, is_main };
            },
            Some(Err(e)) => {
                let a = concat3(raw, " (worktree lookup failed: ", e.as_str());
                return FailureCause::Other { raw_message: concat2(a.as_str(), ")") };
            },
            _ => {},
        }
    }
    let lower = crate::text::lower_vec(&chars_of(raw));
    if crate::text::vec_contains(&lower, &chars_of("not fully merged")) || crate::text::vec_contains(&lower, &chars_of("not merged")) {
        FailureCause::NotMerged
    } else if crate::text::vec_contains(&lower, &chars_of("not found")) || crate::text::vec_contains(&lower, &chars_of("does not exist")) {
        FailureCause::BranchNotFound
    } else {
        FailureCause::Other { raw_message: to_owned_string(raw) }
    }
}

/// A failed delete's result: a branch already gone is the end state the user
/// asked for, so it counts as done (keeping its cause); any other cause is a
/// failure with the fallback message.
pub fn delete_failure_result(branch_name: &str, action: BranchAction, cause: FailureCause, fallback_message: String) -> (r: OperationResult)
    ensures
        r.branch_name@ == branch_name@,
        r.action == action,
        r.failure == Some(cause),
        r.success == (cause is BranchNotFound),
        cause is BranchNotFound ==> r.message@ == "Branch "@ + branch_name@ + " already gone"@,
        !(cause is BranchNotFound) ==> r.message == fallback_message,
{
    match cause {
        FailureCause::BranchNotFound => OperationResult {
            branch_name: to_owned_string(branch_name),
            action,
            success: true,
            message: concat3("Branch ", branch_name, " already gone"),
            failure: Some(FailureCause::BranchNotFound),
        },
        _ => OperationResult { branch_name: to_owned_string(branch_name), action, success: false, message: fallback_message, failure: Some(cause) },
    }
}

/// What deleting a local branch found.
#[derive(Debug)]
pub enum LocalDeleteFacts {
    /// Looking the branch up failed; `not_found` when the branch does not
    /// exist, and the lookup error's text.
    LookupFailed { not_found: bool, message: String, display: String },
    /// The repository has no working directory.
    Bare,
    /// `git branch -d/-D` ran: the outcome, and the worktree lookup made
    /// when its error hints at a checkout.
    Ran { outcome: CmdOutcome, stdout: String, lookup: Option<Result<Option<(String, bool)>, String>> },
}

/// The text git's failed command reported: its trimmed standard error, or
/// its trimmed standard output when that is empty.
pub open spec fn failure_text(stderr: Seq<char>, stdout: Seq<char>) -> Seq<char> {
    if trim(stderr).len() == 0 { trim(stdout) } else { trim(stderr) }
}

/// The text a failed git command reported: its trimmed standard error, or
/// its trimmed standard output when that is empty.
pub fn command_failure_text(stderr: &str, stdout: &str) -> (r: String)
    ensures
        r@ == failure_text(stderr@, stdout@),
{
    let e = trimmed(stderr);
    if e.as_str().is_empty() { trimmed(stdout) } else { e }
}

/// The result of deleting local branch `name` (with `-D` when `force`).
pub open spec fn local_delete_result(r: OperationResult, name: Seq<char>, force: bool, f: LocalDeleteFacts) -> bool {
    let action = if force { BranchAction::DeleteLocalForce } else { BranchAction::DeleteLocal };
    let verb = if force { "Force-deleted "@ } else { "Deleted "@ };
    let fail = if force { "Failed to force-delete "@ } else { "Failed to delete "@ };
    let gone = "Branch "@ + name + " already gone"@;
    &&& r.branch_name@ == name
    &&& r.action == action
    &&& match f {
        LocalDeleteFacts::LookupFailed { not_found, message, display } => {
            &&& r.failure is Some
            &&& cause_view(r.failure->0) == if not_found { CauseView::BranchNotFound } else { CauseView::Other { raw_message: message@ } }
            &&& r.success == not_found
            &&& r.message@ == if not_found { gone } else { fail + name + ": "@ + display@ }
        },
        LocalDeleteFacts::Bare => {
            &&& !r.success
            &&& r.failure is Some
            &&& cause_view(r.failure->0) == CauseView::Other { raw_message: "cannot delete a branch from a bare repository"@ }
            &&& r.message@ == fail + name + ": bare repository"@
        },
        LocalDeleteFacts::Ran { outcome, stdout, lookup } => match outcome {
            CmdOutcome::Succeeded => r.success && r.message@ == verb + name && r.failure is None,
            CmdOutcome::Failed { stderr } => {
                let raw = failure_text(stderr@, stdout@);
                let cause = delete_error_cause(raw, lookup_view(lookup));
                &&& r.failure is Some
                &&& cause_view(r.failure->0) == cause
                &&& r.success == (cause is BranchNotFound)
                &&& r.message@ == if cause is BranchNotFound { gone } else { fail + name + ": "@ + raw }
            },
            CmdOutcome::SpawnFailed { error } => {
                &&& !r.success
                &&& r.failure is Some
                &&& cause_view(r.failure->0) == CauseView::Other { raw_message: error@ }
                &&& r.message@ == fail + name + ": "@ + error@
            },
            CmdOutcome::Cancelled => !r.success && r.message@ == "Cancelled"@ && r.failure is None,
        },
    }
}

fn delete_local_with_mode(name: &str, force: bool, facts: LocalDeleteFacts) -> (r: OperationResult)
    ensures
        local_delete_result(r, name@, force, facts),
{
    let action = if force { BranchAction::DeleteLocalForce } else { BranchAction::DeleteLocal };
    let verb = if force { "Force-deleted " } else { "Deleted " };
    let fail = if force { "Failed to force-delete " } else { "Failed to delete " };
    match facts {
        LocalDeleteFacts::LookupFailed { not_found, message, display } => {
            let cause = if not_found { FailureCause::BranchNotFound } else { FailureCause::Other { raw_message: message } };
            delete_failure_result(name, action, cause, concat4(fail, name, ": ", display.as_str()))
        },
        LocalDeleteFacts::Bare => OperationResult::failure(
            name,
            action,
            FailureCause::Other { raw_message: to_owned_string("cannot delete a branch from a bare repository") },
            concat3(fail, name, ": bare repository").as_str(),
        ),
        LocalDeleteFacts::Ran { outcome, stdout, lookup } => match outcome {
            CmdOutcome::Succeeded => OperationResult::success(name, action, concat2(verb, name).as_str()),
            CmdOutcome::Failed { stderr } => {
                let raw = command_failure_text(stderr.as_str(), stdout.as_str());
                let cause = classify_delete_command_error(raw.as_str(), lookup);
                delete_failure_result(name, action, cause, concat4(fail, name, ": ", raw.as_str()))
            },
            CmdOutcome::SpawnFailed { error } => {
                let msg = concat4(fail, name, ": ", error.as_str());
                OperationResult::failure(name, action, FailureCause::Other { raw_message: error }, msg.as_str())
            },
            CmdOutcome::Cancelled => cancelled(name, action),
        },
    }
}

/// Deleting a local branch with git's safe `-d`.
pub fn delete_local(branch_name: &str, facts: LocalDeleteFacts) -> (r: OperationResult)
    ensures
        local_delete_result(r, branch_name@, false, facts),
{
    delete_local_with_mode(branch_name, false, facts)
}

/// Force-deleting a local branch with git's `-D`.
pub fn delete_local_force(branch_name: &str, facts: LocalDeleteFacts) -> (r: OperationResult)
    ensures
        local_delete_result(r, branch_name@, true, facts),
{
    delete_local_with_mode(branch_name, true, facts)
}


/// Deleting local branches one at a time (git's safe `-d`) with progress:
/// `facts` holds what deleting each branch tried found, in order; when fewer
/// than all were tried the job was cancelled before the next, which is
/// reported cancelled under `action`.
pub fn delete_locals_with_progress(branch_names: &Vec<String>, action: BranchAction, facts: Vec<LocalDeleteFacts>) -> (rs: Vec<OperationResult>)
    requires
        facts@.len() <= branch_names@.len(),
    ensures
        rs@.len() == if facts@.len() < branch_names@.len() { facts@.len() + 1 } else { facts@.len() },
        forall|i: int| 0 <= i < facts@.len() ==> local_delete_result(#[trigger] rs@[i], branch_names@[i]@, false, facts@[i]),
        facts@.len() < branch_names@.len() ==> plain_result(rs@[facts@.len() as int],
            branch_names@[facts@.len() as int]@, action, false, "Cancelled"@),
{
    let ghost all = facts@;
    let n = facts.len();
    let mut rest = facts;
    let mut rs: Vec<OperationResult> = Vec::new();
    let mut i: usize = 0;
    while i < n
        invariant
            n == all.len() <= branch_names@.len(),
            i <= n,
            rs@.len() == i,
            rest@ == all.subrange(i as int, n as int),
            forall|k: int| 0 <= k < i ==> local_delete_result(#[trigger] rs@[k], branch_names@[k]@, false, all[k]),
        decreases n - i,
    {
        let f = rest.remove(0);
        assert(f == all[i as int]);
        rs.push(delete_local(branch_names[i].as_str(), f));
        i = i + 1;
        assert(rest@ =~= all.subrange(i as int, n as int));
    }
    if n < branch_names.len() {
        rs.push(cancelled(branch_names[n].as_str(), action));
    }
    rs
}

} // verus!
