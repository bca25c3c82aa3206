//! Regular merges into the base branch: the commits reachable from the local
//! base and from its `origin` counterpart, and what a branch tip's presence
//! in them says.

use vstd::prelude::*;
use crate::types::{BranchInfo, MergeStatus};
use crate::oidset::OidSet;
use crate::branches::{GitError, short_hash};
use crate::repo::{
    branch_reference, find_branch, oid_hex, reference_target, revwalk, revwalk_next, revwalk_push,
    revwalk_unsorted,
};
use crate::text::{concat2, to_owned_string};

verus! {

/// The commits reachable from the local base branch and from its remote
/// counterpart, by id.
pub struct BaseReachable {
    pub local: OidSet,
    pub remote: OidSet,
}

/// What reachability says of a commit: merged when the local base reaches
/// it and, if there is a remote base, the remote one too; merged on one side
/// when only that side reaches it; nothing when neither does.
pub open spec fn regular_status(in_local: bool, in_remote: bool, has_remote: bool) -> Option<MergeStatus> {
    if in_local && in_remote {
        Some(MergeStatus::Merged)
    } else if in_local && !has_remote {
        Some(MergeStatus::Merged)
    } else if in_remote {
        Some(MergeStatus::RemoteMerged)
    } else if in_local {
        Some(MergeStatus::LocalMerged)
    } else {
        None
    }
}

impl BaseReachable {
    pub open spec fn wf(&self) -> bool {
        self.local.wf() && self.remote.wf()
    }

    /// The status reachability gives commit `oid`.
    pub open spec fn status_of(&self, oid: Seq<char>) -> Option<MergeStatus> {
        regular_status(self.local.view().contains(oid), self.remote.view().contains(oid),
            self.remote.view() != Set::<Seq<char>>::empty())
    }

    /// The regular-merge status of the commit with id `oid`.
    pub fn regular_merge_status(&self, oid: &str) -> (r: Option<MergeStatus>)
        requires
            self.wf(),
        ensures
            r == self.status_of(oid@),
    {
        let in_local = self.local.contains(oid);
        let in_remote = self.remote.contains(oid);
        let has_remote = !self.remote.is_empty();
        if in_local && in_remote {
            Some(MergeStatus::Merged)
        } else if in_local && !has_remote {
            Some(MergeStatus::Merged)
        } else if in_remote {
            Some(MergeStatus::RemoteMerged)
        } else if in_local {
            Some(MergeStatus::LocalMerged)
        } else {
            None
        }
    }

    /// Neither side reaches anything.
    pub fn is_empty(&self) -> (r: bool)
        ensures
            r == (self.local.view() == Set::<Seq<char>>::empty() && self.remote.view() == Set::<Seq<char>>::empty()),
    {
        self.local.is_empty() && self.remote.is_empty()
    }
}

/// The commits a walk from `oid` reaches; an empty set when the walk cannot
/// be started.
fn reachable_from_oid(repo: &git2::Repository, oid: git2::Oid) -> (r: OidSet)
    ensures
        r.wf(),
{
    let mut walk = match revwalk(repo) {
        Ok(w) => w,
        Err(_) => return OidSet::empty(),
    };
    let _ = revwalk_unsorted(&mut walk);
    let _ = revwalk_push(&mut walk, oid);
    let mut ids: Vec<String> = Vec::new();
    let mut budget: usize = usize::MAX;
    while budget > 0
        decreases budget,
    {
        budget = budget - 1;
        match revwalk_next(&mut walk) {
            None => break,
            Some(Ok(o)) => ids.push(oid_hex(&o)),
            Some(Err(_)) => {},
        }
    }
    OidSet::from_ids(ids)
}

/// The commits reachable from the branch `name`, local or remote-tracking.
fn reachable_from_branch(repo: &git2::Repository, name: &str, remote: bool) -> (r: OidSet)
    ensures
        r.wf(),
{
    let tip = match find_branch(repo, name, remote) {
        Ok(b) => reference_target(branch_reference(&b)),
        Err(_) => None,
    };
    match tip {
        Some(oid) => reachable_from_oid(repo, oid),
        None => OidSet::empty(),
    }
}

/// The reachable sets of the local base branch and of `origin/<base>`.
pub fn build_reachable_set_from_repo(repo: &git2::Repository, base_branch: &str) -> (r: BaseReachable)
    ensures
        r.wf(),
{
    let local = reachable_from_branch(repo, base_branch, false);
    let remote_name = concat2("origin/", base_branch);
    let remote = reachable_from_branch(repo, remote_name.as_str(), true);
    BaseReachable { local, remote }
}

/// The id of the commit the local branch `name` points at.
fn local_tip(repo: &git2::Repository, name: &str) -> Option<String> {
    match find_branch(repo, name, false) {
        Ok(b) => match reference_target(branch_reference(&b)) {
            Some(o) => Some(oid_hex(&o)),
            None => None,
        },
        Err(_) => None,
    }
}

/// Row `b`, whose tip is `tip` where known, after regular-merge detection.
pub open spec fn after_regular(b: BranchInfo, tip: Option<String>, reach: BaseReachable) -> BranchInfo {
    if b.is_base || b.is_current {
        b
    } else {
        match tip {
            Some(t) => match reach.status_of(t@) {
                Some(s) => BranchInfo { merge_status: s, ..b },
                None => b,
            },
            None => b,
        }
    }
}

/// Applies regular-merge detection to every branch other than the base and
/// the current one; `tips[i]` is the id of branch `i`'s tip where known.
pub fn apply_regular_merges(branches: &mut Vec<BranchInfo>, tips: &Vec<Option<String>>, reach: &BaseReachable)
    requires
        reach.wf(),
        tips@.len() == old(branches)@.len(),
    ensures
        final(branches)@.len() == old(branches)@.len(),
        forall|i: int| 0 <= i < final(branches)@.len() ==>
            #[trigger] final(branches)@[i] == after_regular(old(branches)@[i], tips@[i], *reach),
{
    let ghost orig = branches@;
    let mut i: usize = 0;
    while i < branches.len()
        invariant
            reach.wf(),
            tips@.len() == orig.len(),
            i <= branches.len(),
            branches@.len() == orig.len(),
            forall|k: int| i <= k < orig.len() ==> #[trigger] branches@[k] == orig[k],
            forall|k: int| 0 <= k < i ==> #[trigger] branches@[k] == after_regular(orig[k], tips@[k], *reach),
        decreases branches.len() - i,
    {
        if !branches[i].is_base && !branches[i].is_current {
            if let Some(t) = &tips[i] {
                if let Some(s) = reach.regular_merge_status(t.as_str()) {
                    let mut b = branches.remove(i);
                    b.merge_status = s;
                    branches.insert(i, b);
                }
            }
        }
        i = i + 1;
    }
}

/// The tips of the local branches named by the rows, by id.
fn tips_of(repo: &git2::Repository, branches: &Vec<BranchInfo>) -> (r: Vec<Option<String>>)
    ensures
        r@.len() == branches@.len(),
{
    let mut tips: Vec<Option<String>> = Vec::new();
    let mut i: usize = 0;
    while i < branches.len()
        invariant
            i <= branches.len(),
            tips@.len() == i,
        decreases branches.len() - i,
    {
        tips.push(local_tip(repo, branches[i].name.as_str()));
        i = i + 1;
    }
    tips
}

/// Marks branches the base reaches as merged (locally, remotely or both),
/// and hands back the reachable sets for later passes. Fails when the base
/// branch reaches nothing on either side.
pub fn detect_merged_branches(repo: &git2::Repository, base_branch: &str, branches: &mut Vec<BranchInfo>)
    -> (r: Result<BaseReachable, GitError>)
    ensures
        final(branches)@.len() == old(branches)@.len(),
        match r {
            Ok(reach) => {
                &&& reach.wf()
                &&& !(reach.local.view() == Set::<Seq<char>>::empty() && reach.remote.view() == Set::<Seq<char>>::empty())
                &&& exists|tips: Seq<Option<String>>| #[trigger] tips.len() == old(branches)@.len()
                    && forall|i: int| 0 <= i < old(branches)@.len() ==>
                        #[trigger] final(branches)@[i] == after_regular(old(branches)@[i], tips[i], reach)
            },
            Err(e) => e matches GitError::BaseBranchNotFound(n) && n@ == base_branch@ && final(branches)@ == old(branches)@,
        },
{
    let reach = build_reachable_set_from_repo(repo, base_branch);
    if reach.is_empty() {
        return Err(GitError::BaseBranchNotFound(to_owned_string(base_branch)));
    }
    let tips = tips_of(repo, branches);
    apply_regular_merges(branches, &tips, &reach);
    proof {
        assert(tips@.len() == old(branches)@.len());
    }
    Ok(reach)
}

/// Regular-merge detection with reachable sets built elsewhere; nothing
/// changes when both sets are empty.
pub fn apply_merge_statuses(repo: &git2::Repository, branches: &mut Vec<BranchInfo>, reach: &BaseReachable)
    requires
        reach.wf(),
    ensures
        final(branches)@.len() == old(branches)@.len(),
        (reach.local.view() == Set::<Seq<char>>::empty() && reach.remote.view() == Set::<Seq<char>>::empty())
            ==> final(branches)@ == old(branches)@,
        exists|tips: Seq<Option<String>>| #[trigger] tips.len() == old(branches)@.len()
            && forall|i: int| 0 <= i < old(branches)@.len() ==>
                #[trigger] final(branches)@[i] == after_regular(old(branches)@[i], tips[i], *reach),
{
    if reach.is_empty() {
        proof {
            let none = Seq::new(branches@.len(), |i: int| None::<String>);
            assert(none.len() == branches@.len());
            assert forall|i: int| 0 <= i < old(branches)@.len() implies
                #[trigger] branches@[i] == after_regular(old(branches)@[i], none[i], *reach) by {}
        }
        return;
    }
    let tips = tips_of(repo, branches);
    apply_regular_merges(branches, &tips, reach);
}

/// How many commits a merge-base walk looks at before giving up.
pub const MERGE_BASE_WALK_LIMIT: usize = 1000;

/// The first commit a walk from `tip` meets that `reachable` holds, looking
/// at no more than the walk limit.
fn first_reachable_ancestor(repo: &git2::Repository, tip: git2::Oid, reachable: &OidSet) -> Option<git2::Oid>
    requires
        reachable.wf(),
{
    let mut walk = match revwalk(repo) {
        Ok(w) => w,
        Err(_) => return None,
    };
    let _ = revwalk_unsorted(&mut walk);
    let _ = revwalk_push(&mut walk, tip);
    let mut n: usize = 0;
    while n < MERGE_BASE_WALK_LIMIT
        invariant
            reachable.wf(),
        decreases MERGE_BASE_WALK_LIMIT - n,
    {
        match revwalk_next(&mut walk) {
            None => return None,
            Some(Ok(o)) => {
                if reachable.contains(oid_hex(&o).as_str()) {
                    return Some(o);
                }
            },
            Some(Err(_)) => {},
        }
        n = n + 1;
    }
    None
}

/// The merge base of `tip` with the base, as its first eight characters: the
/// tip itself when the base reaches it, else the first commit the base
/// reaches that a walk of bounded length from the tip meets; `None` when the
/// walk meets none.
pub fn merge_base_short(repo: &git2::Repository, tip: git2::Oid, reachable: &OidSet) -> (r: Option<String>)
    requires
        reachable.wf(),
    ensures
        r matches Some(h) ==> h@.len() == 8,
{
    let found = if reachable.contains(oid_hex(&tip).as_str()) {
        Some(tip)
    } else {
        first_reachable_ancestor(repo, tip, reachable)
    };
    match found {
        Some(o) => Some(short_hash(&o)),
        None => None,
    }
}

/// Row `b` may come out of the merge-base pass as `c`: only its merge base
/// changes, and only where it had none, is not the base, and a merge base
/// was found.
pub open spec fn merge_base_filled(b: BranchInfo, c: BranchInfo) -> bool {
    &&& c == (BranchInfo { merge_base_commit: c.merge_base_commit, ..b })
    &&& (b.is_base || b.merge_base_commit is Some) ==> c == b
    &&& (b.merge_base_commit is None && c.merge_base_commit is Some) ==> c.merge_base_commit->0@.len() == 8
}

/// Fills in the merge base of each branch (other than the base) that has
/// none: its tip itself when the base reaches it, else the first commit
/// reachable from the base that a bounded walk from the tip meets.
pub fn fill_merge_base_commits(repo: &git2::Repository, branches: &mut Vec<BranchInfo>, reachable: &OidSet)
    requires
        reachable.wf(),
    ensures
        final(branches)@.len() == old(branches)@.len(),
        reachable.view() == Set::<Seq<char>>::empty() ==> final(branches)@ == old(branches)@,
        forall|i: int| 0 <= i < final(branches)@.len() ==> merge_base_filled(old(branches)@[i], #[trigger] final(branches)@[i]),
{
    if reachable.is_empty() {
        return;
    }
    let ghost orig = branches@;
    let mut i: usize = 0;
    while i < branches.len()
        invariant
            reachable.wf(),
            i <= branches.len(),
            branches@.len() == orig.len(),
            forall|k: int| i <= k < orig.len() ==> #[trigger] branches@[k] == orig[k],
            forall|k: int| 0 <= k < i ==> merge_base_filled(orig[k], #[trigger] branches@[k]),
        decreases branches.len() - i,
    {
        if !branches[i].is_base && branches[i].merge_base_commit.is_none() {
            let tip = match find_branch(repo, branches[i].name.as_str(), false) {
                Ok(b) => reference_target(branch_reference(&b)),
                Err(_) => None,
            };
            if let Some(t) = tip {
                if let Some(h) = merge_base_short(repo, t, reachable) {
                    let mut b = branches.remove(i);
                    b.merge_base_commit = Some(h);
                    branches.insert(i, b);
                }
            }
        }
        i = i + 1;
    }
}


/// Which base reaches a commit decides its regular-merge status: merged
/// when the local base reaches it and the remote base does too or does not
/// exist; merged on the remote only when just the remote base reaches it;
/// merged locally only when just the local base reaches it and a remote base
/// exists; nothing when neither reaches it.
pub proof fn lemma_merge_status_follows_reach(r: BaseReachable, oid: Seq<char>)
    ensures
        (r.status_of(oid) == Some(MergeStatus::Merged)) <==> (r.local.view().contains(oid)
            && (r.remote.view().contains(oid) || r.remote.view() == Set::<Seq<char>>::empty())),
        (r.status_of(oid) == Some(MergeStatus::RemoteMerged)) <==> (r.remote.view().contains(oid)
            && !r.local.view().contains(oid)),
        (r.status_of(oid) == Some(MergeStatus::LocalMerged)) <==> (r.local.view().contains(oid)
            && !r.remote.view().contains(oid) && r.remote.view() != Set::<Seq<char>>::empty()),
        (r.status_of(oid) is None) <==> (!r.local.view().contains(oid) && !r.remote.view().contains(oid)),
{
    if r.remote.view().contains(oid) {
        assert(r.remote.view() != Set::<Seq<char>>::empty());
    }
}

} // verus!
