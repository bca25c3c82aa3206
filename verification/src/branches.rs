//! Local branches as the repository holds them: the base branch, each
//! branch's metadata, regular merges into the base, merge bases and
//! ahead/behind counts.
//!
//! What the repository holds is on disk, so these functions state what holds
//! of every answer libgit2 can give; which answer it gives is not claimed.

use vstd::prelude::*;
use crate::types::{BranchInfo, MergeStatus, TrackingStatus};
use crate::menu::has_live_upstream;
use crate::oidset::OidSet;
use crate::repo::{
    branch_name, branch_reference, branch_upstream, commit_id, commit_time, error_message, find_branch,
    find_reference, graph_ahead_behind, branch_iter, merge_base, next_branch, oid_hex, peel_to_commit,
    reference_name, reference_shorthand, reference_symbolic_target, reference_target, repo_head, revwalk,
    revwalk_next, revwalk_push, revwalk_unsorted,
};
use crate::text::{chars_of, concat2, slice_string, starts_with, str_eq, to_owned_string, vec_starts_with};
use crate::worktree::opt_view;
use crate::tags::{current_time_secs, representable};
use crate::listing::{branch_pinned, mark_pending, rows_sorted, sort_loaded_rows};
use crate::merges::{after_regular, detect_merged_branches, fill_merge_base_commits, merge_base_filled};

verus! {

/// Why reading branches failed.
#[derive(Debug)]
pub enum GitError {
    NotARepo,
    BaseBranchNotFound(String),
    CannotDetectBase,
    CommandFailed { command: String, stderr: String },
    ParseError(String),
    /// An error libgit2 reported, by its message.
    Git2(String),
}

impl GitError {
    /// The error as text.
    pub fn message(&self) -> (s: String)
        ensures
            s@ == match self {
                GitError::NotARepo => "not a git repository"@,
                GitError::BaseBranchNotFound(name) => "base branch not found: "@ + name@,
                GitError::CannotDetectBase => "cannot auto-detect base branch"@,
                GitError::CommandFailed { command, stderr } => "command failed: "@ + command@ + ": "@ + stderr@,
                GitError::ParseError(m) => "parse error: "@ + m@,
                GitError::Git2(m) => m@,
            },
    {
        match self {
            GitError::NotARepo => to_owned_string("not a git repository"),
            GitError::BaseBranchNotFound(name) => concat2("base branch not found: ", name.as_str()),
            GitError::CannotDetectBase => to_owned_string("cannot auto-detect base branch"),
            GitError::CommandFailed { command, stderr } =>
                crate::text::concat4("command failed: ", command.as_str(), ": ", stderr.as_str()),
            GitError::ParseError(m) => concat2("parse error: ", m.as_str()),
            GitError::Git2(m) => m.clone(),
        }
    }
}

pub(crate) fn git_error(e: git2::Error) -> (r: GitError)
    ensures
        r is Git2,
{
    GitError::Git2(error_message(&e))
}

/// The first eight characters of an object id's text.
pub fn short_hash(oid: &git2::Oid) -> (s: String)
    ensures
        s@.len() == 8,
{
    let hex = oid_hex(oid);
    let v = chars_of(hex.as_str());
    slice_string(&v, 0, 8)
}

/// Whether the local branch `name` exists.
fn local_branch_exists(repo: &git2::Repository, name: &str) -> bool {
    find_branch(repo, name, false).is_ok()
}

/// The commit a branch's reference points at directly.
fn branch_tip(repo: &git2::Repository, name: &str, remote: bool) -> Option<git2::Oid> {
    match find_branch(repo, name, remote) {
        Ok(b) => reference_target(branch_reference(&b)),
        Err(_) => None,
    }
}

/// `s` without the prefix `p`, when it starts with it.
pub open spec fn strip_prefix(s: Seq<char>, p: Seq<char>) -> Option<Seq<char>> {
    if starts_with(s, p) { Some(s.subrange(p.len() as int, s.len() as int)) } else { None }
}

/// The branch a symbolic `origin/HEAD` target names: the target without
/// `refs/remotes/origin/`, when it has that prefix.
pub fn origin_head_branch(target: &str) -> (r: Option<String>)
    ensures
        opt_view(r) == strip_prefix(target@, "refs/remotes/origin/"@),
{
    let prefix = chars_of("refs/remotes/origin/");
    let t = chars_of(target);
    if vec_starts_with(&t, &prefix) {
        Some(slice_string(&t, prefix.len(), t.len()))
    } else {
        None
    }
}

/// The base branch chosen without a requested one: the branch `origin/HEAD`
/// names where it exists locally, then the first of `main`, `master` and
/// `develop` that exists, then the first local branch, if any.
pub open spec fn base_choice(
    head_branch: Option<Seq<char>>,
    head_exists: bool,
    main_exists: bool,
    master_exists: bool,
    develop_exists: bool,
    first_local: Option<Seq<char>>,
) -> Option<Seq<char>> {
    if head_branch is Some && head_exists {
        head_branch
    } else if main_exists {
        Some("main"@)
    } else if master_exists {
        Some("master"@)
    } else if develop_exists {
        Some("develop"@)
    } else {
        first_local
    }
}

/// The base branch chosen from what the lookups found: see [`base_choice`].
pub fn choose_base(
    head_branch: Option<String>,
    head_exists: bool,
    main_exists: bool,
    master_exists: bool,
    develop_exists: bool,
    first_local: Option<String>,
) -> (r: Option<String>)
    ensures
        opt_view(r) == base_choice(opt_view(head_branch), head_exists, main_exists, master_exists, develop_exists, opt_view(first_local)),
{
    match head_branch {
        Some(h) => if head_exists {
            return Some(h);
        },
        None => {},
    }
    if main_exists {
        Some(to_owned_string("main"))
    } else if master_exists {
        Some(to_owned_string("master"))
    } else if develop_exists {
        Some(to_owned_string("develop"))
    } else {
        first_local
    }
}

/// The branch `origin/HEAD` names, read from the repository.
fn read_origin_head(repo: &git2::Repository) -> Option<String> {
    match find_reference(repo, "refs/remotes/origin/HEAD") {
        Ok(reference) => match reference_symbolic_target(&reference) {
            Ok(Some(target)) => origin_head_branch(target.as_str()),
            _ => None,
        },
        Err(_) => None,
    }
}

/// The name of the first local branch that has a name, `None` when there
/// is none; a failure to list or to read a name is an error.
fn first_local_branch(repo: &git2::Repository) -> (r: Result<Option<String>, GitError>)
    ensures
        r matches Err(e) ==> e is Git2,
{
    let mut branches = match branch_iter(repo, false) {
        Ok(b) => b,
        Err(e) => return Err(git_error(e)),
    };
    let mut budget: usize = usize::MAX;
    while budget > 0
        decreases budget,
    {
        budget = budget - 1;
        match next_branch(&mut branches) {
            None => break,
            Some(Err(_)) => {},
            Some(Ok(branch)) => match branch_name(&branch) {
                Err(e) => return Err(git_error(e)),
                Ok(Some(name)) => return Ok(Some(name)),
                Ok(None) => {},
            },
        }
    }
    Ok(None)
}

/// The base branch of the repository. A requested base must exist as a
/// local branch. Without one, the name is [`base_choice`] of what the
/// lookups found: the branch named by `origin/HEAD` (see
/// [`origin_head_branch`]), whether it and `main`, `master` and `develop`
/// exist locally, and the first local branch, which is listed only when none
/// of those is chosen; none at all is [`GitError::CannotDetectBase`].
pub fn detect_base_branch(repo: &git2::Repository, override_base: Option<&str>) -> (r: Result<String, GitError>)
    ensures
        match override_base {
            Some(b) => match r {
                Ok(name) => name@ == b@,
                Err(e) => e matches GitError::BaseBranchNotFound(n) && n@ == b@,
            },
            None => match r {
                Ok(name) => exists|h: Option<Seq<char>>, he: bool, ma: bool, ms: bool, dv: bool, fl: Option<Seq<char>>|
                    #[trigger] base_choice(h, he, ma, ms, dv, fl) == Some(name@),
                Err(e) => e is Git2 || e is CannotDetectBase,
            },
        },
{
    if let Some(base) = override_base {
        if local_branch_exists(repo, base) {
            return Ok(to_owned_string(base));
        }
        return Err(GitError::BaseBranchNotFound(to_owned_string(base)));
    }
    let head = read_origin_head(repo);
    let head_exists = match &head {
        Some(h) => local_branch_exists(repo, h.as_str()),
        None => false,
    };
    let main_exists = local_branch_exists(repo, "main");
    let master_exists = local_branch_exists(repo, "master");
    let develop_exists = local_branch_exists(repo, "develop");
    let head2 = match &head {
        Some(h) => Some(h.clone()),
        None => None,
    };
    match choose_base(head2, head_exists, main_exists, master_exists, develop_exists, None) {
        Some(name) => Ok(name),
        None => {
            let first = match first_local_branch(repo) {
                Ok(f) => f,
                Err(e) => return Err(e),
            };
            match choose_base(head, head_exists, main_exists, master_exists, develop_exists, first) {
                Some(name) => Ok(name),
                None => Err(GitError::CannotDetectBase),
            }
        },
    }
}

/// What holds of every branch row read from the repository: `base` is the
/// base branch, `current` the short name of HEAD where it has one, and the
/// flags are the passes that were skipped.
pub open spec fn row_ok(b: BranchInfo, base: Seq<char>, current: Option<Seq<char>>, skip_ahead_behind: bool, skip_merge_base: bool) -> bool {
    &&& b.is_base == (b.name@ == base)
    &&& b.is_current == (current == Some(b.name@))
    &&& b.base_branch@ == base
    &&& b.merge_status == MergeStatus::Unmerged
    &&& b.pr is None
    &&& b.squash_confidence is None
    &&& (b.ahead is Some) == (b.behind is Some)
    &&& (skip_ahead_behind || !has_live_upstream(b.tracking)) ==> b.ahead is None
    &&& (skip_ahead_behind || skip_merge_base || b.is_base) ==> b.merge_base_commit is None
    &&& (b.merge_base_commit matches Some(h) ==> h@.len() == 8)
}

/// Every row of `rows` is right for HEAD `current`.
pub open spec fn rows_for(rows: Seq<BranchInfo>, base: Seq<char>, current: Option<Seq<char>>, skip_ahead_behind: bool, skip_merge_base: bool) -> bool {
    forall|i: int| 0 <= i < rows.len() ==> row_ok(#[trigger] rows[i], base, current, skip_ahead_behind, skip_merge_base)
}

/// Every row of `rows` is right for one and the same HEAD.
pub open spec fn rows_ok(rows: Seq<BranchInfo>, base: Seq<char>, skip_ahead_behind: bool, skip_merge_base: bool) -> bool {
    exists|current: Option<Seq<char>>| #[trigger] rows_for(rows, base, current, skip_ahead_behind, skip_merge_base)
}

/// The upstream of a local branch: its short name, and whether the
/// reference it names is gone.
fn upstream_status(repo: &git2::Repository, branch: &git2::Branch) -> (r: Result<TrackingStatus, GitError>)
    ensures
        r matches Err(e) ==> e is Git2,
{
    match branch_upstream(branch) {
        Ok(up) => {
            let remote_ref = match branch_name(&up) {
                Err(e) => return Err(git_error(e)),
                Ok(Some(n)) => n,
                Ok(None) => String::new(),
            };
            let up_ref = branch_reference(&up);
            let gone = if reference_target(up_ref).is_none() {
                true
            } else {
                let full = match reference_name(up_ref) {
                    Ok(n) => n,
                    Err(_) => String::new(),
                };
                find_reference(repo, full.as_str()).is_err()
            };
            Ok(TrackingStatus::Upstream { remote_ref, gone })
        },
        Err(_) => Ok(TrackingStatus::Local),
    }
}

/// Ahead/behind counts of a branch against its upstream.
fn counts_against_upstream(repo: &git2::Repository, branch: &git2::Branch, tip: git2::Oid)
    -> (r: Result<(Option<u32>, Option<u32>), GitError>)
    ensures
        match r {
            Ok((a, b)) => (a is Some) == (b is Some),
            Err(e) => e is Git2,
        },
{
    match branch_upstream(branch) {
        Ok(up) => {
            let up_oid = match peel_to_commit(branch_reference(&up)) {
                Ok(c) => commit_id(&c),
                Err(e) => return Err(git_error(e)),
            };
            match graph_ahead_behind(repo, tip, up_oid) {
                Ok((a, b)) => Ok((Some(a as u32), Some(b as u32))),
                Err(e) => Err(git_error(e)),
            }
        },
        Err(_) => Ok((None, None)),
    }
}

/// The ahead/behind counts a row shows: those read against the upstream,
/// ahead first, unless counting was skipped or the branch has no live upstream.
pub open spec fn row_counts(tracking: TrackingStatus, counts: Option<(u32, u32)>, skip_ahead_behind: bool) -> (Option<u32>, Option<u32>) {
    if skip_ahead_behind || !has_live_upstream(tracking) {
        (None, None)
    } else {
        match counts {
            Some((a, b)) => (Some(a), Some(b)),
            None => (None, None),
        }
    }
}

/// The merge base a row shows: the first eight characters of the one read,
/// unless that pass was skipped or the row is the base branch.
pub open spec fn row_merge_base(name: Seq<char>, base: Seq<char>, merge_base: Option<Seq<char>>, skip_ahead_behind: bool, skip_merge_base: bool) -> Option<Seq<char>> {
    if skip_ahead_behind || skip_merge_base || name == base {
        None
    } else {
        match merge_base {
            Some(m) => Some(m.subrange(0, 8)),
            None => None,
        }
    }
}

/// One row of the branch list from what was read of the branch: its name,
/// HEAD's short name `current` where HEAD has one, the base branch, the
/// upstream, the commit time, the counts against the upstream (ahead,
/// behind) and the merge base with the base branch in full.
pub fn branch_row(
    name: String,
    current: Option<&str>,
    base: &str,
    tracking: TrackingStatus,
    last_commit_date: i64,
    counts: Option<(u32, u32)>,
    merge_base: Option<&str>,
    skip_ahead_behind: bool,
    skip_merge_base: bool,
) -> (b: BranchInfo)
    requires
        merge_base matches Some(m) ==> m@.len() >= 8,
    ensures
        b.name == name,
        b.tracking == tracking,
        b.last_commit_date == last_commit_date,
        b.is_base == (name@ == base@),
        b.is_current == (current matches Some(c) && c@ == name@),
        b.base_branch@ == base@,
        (b.ahead, b.behind) == row_counts(tracking, counts, skip_ahead_behind),
        opt_view(b.merge_base_commit) == row_merge_base(name@, base@,
            match merge_base { Some(m) => Some(m@), None => None }, skip_ahead_behind, skip_merge_base),
        row_ok(b, base@, match current { Some(c) => Some(c@), None => None }, skip_ahead_behind, skip_merge_base),
{
    let is_current = match current {
        Some(c) => str_eq(c, name.as_str()),
        None => false,
    };
    let is_base = str_eq(name.as_str(), base);
    let live = match &tracking {
        TrackingStatus::Upstream { gone, .. } => !*gone,
        TrackingStatus::Local => false,
    };
    let (ahead, behind) = if skip_ahead_behind || !live {
        (None, None)
    } else {
        match counts {
            Some((a, h)) => (Some(a), Some(h)),
            None => (None, None),
        }
    };
    let merge_base_commit = if skip_ahead_behind || skip_merge_base || is_base {
        None
    } else {
        match merge_base {
            Some(m) => {
                let v = chars_of(m);
                Some(slice_string(&v, 0, 8))
            },
            None => None,
        }
    };
    BranchInfo {
        name,
        is_current,
        is_base,
        tracking,
        ahead,
        behind,
        last_commit_date,
        merge_status: MergeStatus::Unmerged,
        base_branch: to_owned_string(base),
        merge_base_commit,
        pr: None,
        squash_confidence: None,
    }
}

/// Reads every local branch with its upstream, last commit time, and, unless
/// skipped, its ahead/behind counts against the upstream and its merge base
/// with the base branch. Merge status is left for merge detection.
pub fn collect_branch_metadata(repo: &git2::Repository, base_branch: &str, skip_ahead_behind: bool, skip_merge_base: bool)
    -> (r: Result<Vec<BranchInfo>, GitError>)
    ensures
        match r {
            Ok(rows) => rows_ok(rows@, base_branch@, skip_ahead_behind, skip_merge_base),
            Err(e) => e is Git2,
        },
{
    let current: Option<String> = match repo_head(repo) {
        Ok(h) => match reference_shorthand(&h) {
            Ok(s) => Some(s),
            Err(_) => None,
        },
        Err(_) => None,
    };
    let ghost cur = opt_view(current);
    let base_oid = branch_tip(repo, base_branch, false);
    let mut iter = match branch_iter(repo, false) {
        Ok(it) => it,
        Err(e) => return Err(git_error(e)),
    };
    let mut rows: Vec<BranchInfo> = Vec::new();
    let mut budget: usize = usize::MAX;
    while budget > 0
        invariant
            cur == opt_view(current),
            forall|i: int| 0 <= i < rows@.len() ==> row_ok(#[trigger] rows@[i], base_branch@, cur, skip_ahead_behind, skip_merge_base),
        decreases budget,
    {
        budget = budget - 1;
        let branch = match next_branch(&mut iter) {
            None => break,
            Some(Err(e)) => return Err(git_error(e)),
            Some(Ok(b)) => b,
        };
        let name = match branch_name(&branch) {
            Err(e) => return Err(git_error(e)),
            Ok(None) => continue,
            Ok(Some(n)) => n,
        };
        let is_base = str_eq(name.as_str(), base_branch);
        let tracking = match upstream_status(repo, &branch) {
            Ok(t) => t,
            Err(e) => return Err(e),
        };
        let commit = match peel_to_commit(branch_reference(&branch)) {
            Ok(c) => c,
            Err(e) => return Err(git_error(e)),
        };
        let secs = commit_time(&commit);
        let date = if representable(secs) { secs } else { current_time_secs() };
        let live = match &tracking {
            TrackingStatus::Upstream { gone, .. } => !*gone,
            TrackingStatus::Local => false,
        };
        let counts = if skip_ahead_behind || !live {
            None
        } else {
            match counts_against_upstream(repo, &branch, commit_id(&commit)) {
                Ok((Some(a), Some(h))) => Some((a, h)),
                Ok(_) => None,
                Err(e) => return Err(e),
            }
        };
        let mb_hex = if skip_ahead_behind || skip_merge_base || is_base {
            None
        } else {
            match base_oid {
                Some(b) => match merge_base(repo, b, commit_id(&commit)) {
                    Ok(o) => Some(oid_hex(&o)),
                    Err(_) => None,
                },
                None => None,
            }
        };
        let cur_str: Option<&str> = match &current {
            Some(c) => Some(c.as_str()),
            None => None,
        };
        let row = match &mb_hex {
            Some(h) => branch_row(name, cur_str, base_branch, tracking, date, counts, Some(h.as_str()), skip_ahead_behind, skip_merge_base),
            None => branch_row(name, cur_str, base_branch, tracking, date, counts, None, skip_ahead_behind, skip_merge_base),
        };
        rows.push(row);
    }
    proof {
        assert(rows_for(rows@, base_branch@, cur, skip_ahead_behind, skip_merge_base));
    }
    Ok(rows)
}

/// The text of the commit a local branch points at.
pub fn get_commit_hash(repo: &git2::Repository, branch_name: &str) -> (r: Option<String>)
    ensures
        r matches Some(h) ==> h@.len() == 40 || h@.len() == 64,
{
    match find_branch(repo, branch_name, false) {
        Ok(b) => match peel_to_commit(branch_reference(&b)) {
            Ok(c) => Some(oid_hex(&commit_id(&c))),
            Err(_) => None,
        },
        Err(_) => None,
    }
}

/// Some row of `rows` is named `name` and satisfies `p`.
pub open spec fn named_row(rows: Seq<BranchInfo>, name: Seq<char>, live_upstream: bool) -> bool {
    exists|i: int| 0 <= i < rows.len() && #[trigger] rows[i].name@ == name
        && (if live_upstream { has_live_upstream(rows[i].tracking) } else { !rows[i].is_base })
}

/// Ahead/behind counts against the upstream of each branch whose upstream
/// still exists, by branch name; a branch whose counts could not be read
/// gets none.
pub fn compute_ahead_behind(repo: &git2::Repository, branches: &Vec<BranchInfo>) -> (r: Vec<(String, Option<u32>, Option<u32>)>)
    ensures
        r@.len() <= branches@.len(),
        forall|k: int| 0 <= k < r@.len() ==> {
            let u = #[trigger] r@[k];
            &&& (u.1 is Some) == (u.2 is Some)
            &&& named_row(branches@, u.0@, true)
        },
{
    let mut updates: Vec<(String, Option<u32>, Option<u32>)> = Vec::new();
    let mut i: usize = 0;
    while i < branches.len()
        invariant
            i <= branches.len(),
            updates@.len() <= i,
            forall|k: int| 0 <= k < updates@.len() ==> {
                let u = #[trigger] updates@[k];
                &&& (u.1 is Some) == (u.2 is Some)
                &&& named_row(branches@, u.0@, true)
            },
        decreases branches.len() - i,
    {
        let b = &branches[i];
        let live = match &b.tracking {
            TrackingStatus::Upstream { gone, .. } => !*gone,
            TrackingStatus::Local => false,
        };
        if live {
            if let Ok(local) = find_branch(repo, b.name.as_str(), false) {
                if let Ok(up) = branch_upstream(&local) {
                    if let Ok(c) = peel_to_commit(branch_reference(&local)) {
                        if let Ok(uc) = peel_to_commit(branch_reference(&up)) {
                            let (ahead, behind) = match graph_ahead_behind(repo, commit_id(&c), commit_id(&uc)) {
                                Ok((a, bh)) => (Some(a as u32), Some(bh as u32)),
                                Err(_) => (None, None),
                            };
                            proof {
                                assert(branches@[i as int].name@ == b.name@);
                                assert(named_row(branches@, b.name@, true));
                            }
                            updates.push((b.name.clone(), ahead, behind));
                        }
                    }
                }
            }
        }
        i = i + 1;
    }
    updates
}

/// The merge base with the base branch of each branch other than the base,
/// as the first eight characters of its id, by branch name; nothing when the
/// base branch cannot be resolved.
pub fn compute_merge_bases(repo: &git2::Repository, base_branch: &str, branches: &Vec<BranchInfo>) -> (r: Vec<(String, String)>)
    ensures
        r@.len() <= branches@.len(),
        forall|k: int| 0 <= k < r@.len() ==> {
            let u = #[trigger] r@[k];
            &&& u.1@.len() == 8
            &&& named_row(branches@, u.0@, false)
        },
{
    let mut updates: Vec<(String, String)> = Vec::new();
    let base_oid = match branch_tip(repo, base_branch, false) {
        Some(o) => o,
        None => return updates,
    };
    let mut i: usize = 0;
    while i < branches.len()
        invariant
            i <= branches.len(),
            updates@.len() <= i,
            forall|k: int| 0 <= k < updates@.len() ==> {
                let u = #[trigger] updates@[k];
                &&& u.1@.len() == 8
                &&& named_row(branches@, u.0@, false)
            },
        decreases branches.len() - i,
    {
        let b = &branches[i];
        if !b.is_base {
            if let Ok(branch) = find_branch(repo, b.name.as_str(), false) {
                if let Ok(c) = peel_to_commit(branch_reference(&branch)) {
                    if let Ok(mb) = merge_base(repo, base_oid, commit_id(&c)) {
                        let hash = short_hash(&mb);
                        proof {
                            assert(branches@[i as int].name@ == b.name@);
                            assert(named_row(branches@, b.name@, false));
                        }
                        updates.push((b.name.clone(), hash));
                    }
                }
            }
        }
        i = i + 1;
    }
    updates
}

/// The local branches for a first, fast display: metadata only, every row
/// not pinned marked as waiting for merge detection, pinned rows first and
/// then the newest.
pub fn list_branches_fast(repo: &git2::Repository, base_branch: &str) -> (r: Result<Vec<BranchInfo>, GitError>)
    ensures
        match r {
            Ok(rows) => {
                &&& rows_sorted(rows@)
                &&& forall|i: int| 0 <= i < rows@.len() ==> {
                    let b = #[trigger] rows@[i];
                    &&& b.ahead is None && b.behind is None && b.merge_base_commit is None
                    &&& b.base_branch@ == base_branch@
                    &&& b.merge_status == if branch_pinned(b) { MergeStatus::Unmerged } else { MergeStatus::Pending }
                }
            },
            Err(e) => e is Git2,
        },
{
    let mut rows = match collect_branch_metadata(repo, base_branch, true, true) {
        Ok(rows) => rows,
        Err(e) => return Err(e),
    };
    let ghost before = rows@;
    proof {
        let cur = choose|cur: Option<Seq<char>>| #[trigger] rows_for(before, base_branch@, cur, true, true);
        assert forall|i: int| 0 <= i < before.len() implies row_ok(#[trigger] before[i], base_branch@, cur, true, true) by {}
    }
    mark_pending(&mut rows, true);
    let ghost marked = rows@;
    sort_loaded_rows(&mut rows);
    proof {
        broadcast use vstd::seq_lib::group_to_multiset_ensures;
        let cur = choose|cur: Option<Seq<char>>| #[trigger] rows_for(before, base_branch@, cur, true, true);
        assert forall|i: int| 0 <= i < rows@.len() implies {
            let b = #[trigger] rows@[i];
            &&& b.ahead is None && b.behind is None && b.merge_base_commit is None
            &&& b.base_branch@ == base_branch@
            &&& b.merge_status == if branch_pinned(b) { MergeStatus::Unmerged } else { MergeStatus::Pending }
        } by {
            let b = rows@[i];
            assert(rows@.contains(b));
            assert(rows@.to_multiset().count(b) > 0);
            assert(marked.contains(b));
            let j = choose|j: int| 0 <= j < marked.len() && marked[j] == b;
            assert(row_ok(before[j], base_branch@, cur, true, true));
        }
    }
    Ok(rows)
}

/// The local branches with regular merges detected and merge bases filled
/// in: rows not pinned that no merge reached wait for squash detection;
/// pinned rows first, then the newest.
pub fn list_branches_phase1(repo: &git2::Repository, base_branch: &str) -> (r: Result<Vec<BranchInfo>, GitError>)
    ensures
        match r {
            Ok(rows) => {
                &&& rows_sorted(rows@)
                &&& forall|i: int| 0 <= i < rows@.len() ==> {
                    let b = #[trigger] rows@[i];
                    &&& b.base_branch@ == base_branch@
                    &&& !branch_pinned(b) ==> b.merge_status != MergeStatus::Unmerged
                }
            },
            Err(e) => e is Git2 || (e matches GitError::BaseBranchNotFound(n) && n@ == base_branch@),
        },
{
    let mut rows = match collect_branch_metadata(repo, base_branch, false, true) {
        Ok(rows) => rows,
        Err(e) => return Err(e),
    };
    let ghost collected = rows@;
    let reach = match detect_merged_branches(repo, base_branch, &mut rows) {
        Ok(r) => r,
        Err(e) => return Err(e),
    };
    let ghost detected = rows@;
    fill_merge_base_commits(repo, &mut rows, &reach.local);
    let ghost filled = rows@;
    mark_pending(&mut rows, false);
    let ghost marked = rows@;
    sort_loaded_rows(&mut rows);
    proof {
        broadcast use vstd::seq_lib::group_to_multiset_ensures;
        let cur = choose|cur: Option<Seq<char>>| #[trigger] rows_for(collected, base_branch@, cur, false, true);
        let tips = choose|tips: Seq<Option<String>>| #[trigger] tips.len() == collected.len()
            && forall|i: int| 0 <= i < collected.len() ==>
                #[trigger] detected[i] == after_regular(collected[i], tips[i], reach);
        assert forall|i: int| 0 <= i < rows@.len() implies {
            let b = #[trigger] rows@[i];
            &&& b.base_branch@ == base_branch@
            &&& !branch_pinned(b) ==> b.merge_status != MergeStatus::Unmerged
        } by {
            let b = rows@[i];
            assert(rows@.contains(b));
            assert(rows@.to_multiset().count(b) > 0);
            assert(marked.contains(b));
            let j = choose|j: int| 0 <= j < marked.len() && marked[j] == b;
            assert(row_ok(collected[j], base_branch@, cur, false, true));
            assert(detected[j] == after_regular(collected[j], tips[j], reach));
            assert(merge_base_filled(detected[j], filled[j]));
        }
    }
    Ok(rows)
}

} // verus!
