//! How results that arrive from background work change the branch and
//! remote lists: merge statuses, ahead/behind counts, merge bases, and the
//! verdicts of squash and cherry-pick checks.

use vstd::prelude::*;
use crate::types::{BranchInfo, MergeStatus};
use crate::keyed::KeySet;
use crate::delete_preflight::{find_branch, first_branch};
use crate::remotes::RemoteBranchInfo;
use crate::squash::Candidate;
use crate::branches::get_commit_hash;
use crate::text::str_eq;
use crate::worktree::opt_view;

verus! {

/// The status the last update for `name` carries.
pub open spec fn last_status_for(us: Seq<(String, MergeStatus)>, name: Seq<char>) -> Option<MergeStatus>
    decreases us.len(),
{
    if us.len() == 0 {
        None
    } else if us.last().0@ == name {
        Some(us.last().1)
    } else {
        last_status_for(us.drop_last(), name)
    }
}

/// Branch `b` after the merge-status updates: a branch already verified
/// this session keeps its status; any other takes the last update for its
/// name, if any.
pub open spec fn with_status_update(b: BranchInfo, us: Seq<(String, MergeStatus)>, verified: Set<Seq<char>>) -> BranchInfo {
    if verified.contains(b.name@) {
        b
    } else {
        match last_status_for(us, b.name@) {
            Some(s) => BranchInfo { merge_status: s, ..b },
            None => b,
        }
    }
}

fn last_status_exec(us: &Vec<(String, MergeStatus)>, name: &str) -> (r: Option<MergeStatus>)
    ensures
        r == last_status_for(us@, name@),
{
    let mut j = us.len();
    assert(us@.subrange(0, j as int) =~= us@);
    while j > 0
        invariant
            j <= us@.len(),
            last_status_for(us@, name@) == last_status_for(us@.subrange(0, j as int), name@),
        decreases j,
    {
        assert(us@.subrange(0, j as int).drop_last() =~= us@.subrange(0, j - 1));
        if str_eq(us[j - 1].0.as_str(), name) {
            return Some(us[j - 1].1);
        }
        j = j - 1;
    }
    None
}

/// Files the merge statuses that detection found; `verified` names the
/// branches whose status a cache check already corrected, which keep it.
pub fn apply_status_updates(branches: &mut Vec<BranchInfo>, updates: &Vec<(String, MergeStatus)>, verified: &KeySet)
    requires
        verified.wf(),
    ensures
        final(branches)@.len() == old(branches)@.len(),
        forall|i: int| 0 <= i < old(branches)@.len() ==>
            #[trigger] final(branches)@[i] == with_status_update(old(branches)@[i], updates@, verified@),
{
    let ghost orig = branches@;
    let n = branches.len();
    let mut i: usize = 0;
    while i < n
        invariant
            n == orig.len(),
            i <= n,
            branches@.len() == n,
            verified.wf(),
            forall|k: int| 0 <= k < i ==> #[trigger] branches@[k] == with_status_update(orig[k], updates@, verified@),
            forall|k: int| i <= k < n ==> #[trigger] branches@[k] == orig[k],
        decreases n - i,
    {
        if !verified.contains(branches[i].name.as_str()) {
            match last_status_exec(updates, branches[i].name.as_str()) {
                Some(s) => {
                    let mut b = branches.remove(i);
                    b.merge_status = s;
                    branches.insert(i, b);
                },
                None => {},
            }
        }
        i = i + 1;
    }
}

/// A branch still pending, not pinned, without a merge base: disjoint from
/// the base, so it cannot have been squash-merged.
pub open spec fn is_disjoint_pending(b: BranchInfo) -> bool {
    b.merge_status == MergeStatus::Pending && !b.is_base && !b.is_current && b.merge_base_commit is None
}

/// Settles the disjoint pending branches as unmerged; nothing else changes.
pub fn resolve_disjoint(branches: &mut Vec<BranchInfo>)
    ensures
        final(branches)@.len() == old(branches)@.len(),
        forall|i: int| 0 <= i < old(branches)@.len() ==> #[trigger] final(branches)@[i] ==
            if is_disjoint_pending(old(branches)@[i]) {
                BranchInfo { merge_status: MergeStatus::Unmerged, ..old(branches)@[i] }
            } else {
                old(branches)@[i]
            },
{
    let ghost orig = branches@;
    let n = branches.len();
    let mut i: usize = 0;
    while i < n
        invariant
            n == orig.len(),
            i <= n,
            branches@.len() == n,
            forall|k: int| 0 <= k < i ==> #[trigger] branches@[k] == if is_disjoint_pending(orig[k]) {
                BranchInfo { merge_status: MergeStatus::Unmerged, ..orig[k] }
            } else {
                orig[k]
            },
            forall|k: int| i <= k < n ==> #[trigger] branches@[k] == orig[k],
        decreases n - i,
    {
        let pending = match branches[i].merge_status {
            MergeStatus::Pending => true,
            _ => false,
        };
        if pending && !branches[i].is_base && !branches[i].is_current && branches[i].merge_base_commit.is_none() {
            let mut b = branches.remove(i);
            b.merge_status = MergeStatus::Unmerged;
            branches.insert(i, b);
        }
        i = i + 1;
    }
}

/// A branch the squash and cherry-pick checks look at: still pending, not
/// pinned, with a known merge base.
pub open spec fn is_squash_candidate(b: BranchInfo) -> bool {
    b.merge_status == MergeStatus::Pending && !b.is_base && !b.is_current && b.merge_base_commit is Some
}

/// Each candidate comes from a candidate branch of the list, with its name
/// and merge base.
pub open spec fn candidates_from(cs: Seq<Candidate>, branches: Seq<BranchInfo>) -> bool {
    forall|i: int| 0 <= i < cs.len() ==> exists|j: int| 0 <= j < branches.len()
        && is_squash_candidate(branches[j]) && (#[trigger] cs[i]).branch_name@ == branches[j].name@
        && opt_view(cs[i].merge_base) == opt_view(branches[j].merge_base_commit)
}

/// The candidates for the squash and cherry-pick checks, in list order,
/// each with its tip and merge base; a branch whose tip cannot be read is
/// left out.
pub fn squash_candidates(repo: &git2::Repository, branches: &Vec<BranchInfo>) -> (cs: Vec<Candidate>)
    ensures
        cs@.len() <= branches@.len(),
        candidates_from(cs@, branches@),
{
    let mut out: Vec<Candidate> = Vec::new();
    let mut k: usize = 0;
    while k < branches.len()
        invariant
            k <= branches@.len(),
            out@.len() <= k,
            candidates_from(out@, branches@),
        decreases branches@.len() - k,
    {
        let b = &branches[k];
        let pending = match b.merge_status {
            MergeStatus::Pending => true,
            _ => false,
        };
        if pending && !b.is_base && !b.is_current && b.merge_base_commit.is_some() {
            match get_commit_hash(repo, b.name.as_str()) {
                Some(hash) => {
                    let mb = match &b.merge_base_commit {
                        Some(m) => Some(m.clone()),
                        None => None,
                    };
                    let c = Candidate { branch_name: b.name.clone(), commit_hash: hash, merge_base: mb };
                    assert(is_squash_candidate(branches@[k as int]) && c.branch_name@ == branches@[k as int].name@
                        && opt_view(c.merge_base) == opt_view(branches@[k as int].merge_base_commit));
                    out.push(c);
                    assert(out@.last() == c);
                },
                None => {},
            }
        }
        k = k + 1;
    }
    out
}

/// The counts the last update for `name` carries.
pub open spec fn last_counts_for(us: Seq<(String, Option<u32>, Option<u32>)>, name: Seq<char>) -> Option<(Option<u32>, Option<u32>)>
    decreases us.len(),
{
    if us.len() == 0 {
        None
    } else if us.last().0@ == name {
        Some((us.last().1, us.last().2))
    } else {
        last_counts_for(us.drop_last(), name)
    }
}

/// Row `i` takes updates meant for its name: it is the first row with it.
pub open spec fn first_of_name(bs: Seq<BranchInfo>, i: int) -> bool {
    first_branch(bs, bs[i].name@) == Some(i)
}

fn last_counts_exec(us: &Vec<(String, Option<u32>, Option<u32>)>, name: &str) -> (r: Option<(Option<u32>, Option<u32>)>)
    ensures
        r == last_counts_for(us@, name@),
{
    let mut j = us.len();
    assert(us@.subrange(0, j as int) =~= us@);
    while j > 0
        invariant
            j <= us@.len(),
            last_counts_for(us@, name@) == last_counts_for(us@.subrange(0, j as int), name@),
        decreases j,
    {
        assert(us@.subrange(0, j as int).drop_last() =~= us@.subrange(0, j - 1));
        if str_eq(us[j - 1].0.as_str(), name) {
            return Some((us[j - 1].1, us[j - 1].2));
        }
        j = j - 1;
    }
    None
}

/// Files the ahead/behind counts computed for the branches: each update
/// goes to the first row of its branch, a later update for the same branch
/// winning.
pub fn apply_ahead_behind(branches: &mut Vec<BranchInfo>, updates: &Vec<(String, Option<u32>, Option<u32>)>)
    ensures
        final(branches)@.len() == old(branches)@.len(),
        forall|i: int| 0 <= i < old(branches)@.len() ==> #[trigger] final(branches)@[i] ==
            if first_of_name(old(branches)@, i) {
                match last_counts_for(updates@, old(branches)@[i].name@) {
                    Some((a, b)) => BranchInfo { ahead: a, behind: b, ..old(branches)@[i] },
                    None => old(branches)@[i],
                }
            } else {
                old(branches)@[i]
            },
{
    let ghost orig = branches@;
    let n = branches.len();
    let mut i: usize = 0;
    while i < n
        invariant
            n == orig.len(),
            i <= n,
            branches@.len() == n,
            forall|k: int| 0 <= k < n ==> (#[trigger] branches@[k]).name == orig[k].name,
            forall|k: int| 0 <= k < i ==> #[trigger] branches@[k] == if first_of_name(orig, k) {
                match last_counts_for(updates@, orig[k].name@) {
                    Some((a, b)) => BranchInfo { ahead: a, behind: b, ..orig[k] },
                    None => orig[k],
                }
            } else {
                orig[k]
            },
            forall|k: int| i <= k < n ==> #[trigger] branches@[k] == orig[k],
        decreases n - i,
    {
        proof {
            assert(branches@.map_values(|b: BranchInfo| b.name@) =~= orig.map_values(|b: BranchInfo| b.name@));
        }
        let first = find_branch(branches, branches[i].name.as_str());
        proof {
            lemma_first_branch_names(branches@, orig, orig[i as int].name@);
        }
        if first == Some(i) {
            match last_counts_exec(updates, branches[i].name.as_str()) {
                Some((a, b)) => {
                    let mut row = branches.remove(i);
                    row.ahead = a;
                    row.behind = b;
                    branches.insert(i, row);
                },
                None => {},
            }
        }
        i = i + 1;
    }
}

/// Rows with the same names give the same first row for every name.
proof fn lemma_first_branch_names(a: Seq<BranchInfo>, b: Seq<BranchInfo>, name: Seq<char>)
    requires
        a.len() == b.len(),
        forall|k: int| 0 <= k < a.len() ==> (#[trigger] a[k]).name == b[k].name,
    ensures
        first_branch(a, name) == first_branch(b, name),
    decreases a.len(),
{
    if a.len() > 0 {
        lemma_first_branch_names(a.drop_last(), b.drop_last(), name);
    }
}

/// The merge base the last update for `name` carries.
pub open spec fn last_base_for(us: Seq<(String, String)>, name: Seq<char>) -> Option<String>
    decreases us.len(),
{
    if us.len() == 0 {
        None
    } else if us.last().0@ == name {
        Some(us.last().1)
    } else {
        last_base_for(us.drop_last(), name)
    }
}

fn last_base_exec(us: &Vec<(String, String)>, name: &str) -> (r: Option<String>)
    ensures
        r == last_base_for(us@, name@),
{
    let mut j = us.len();
    assert(us@.subrange(0, j as int) =~= us@);
    while j > 0
        invariant
            j <= us@.len(),
            last_base_for(us@, name@) == last_base_for(us@.subrange(0, j as int), name@),
        decreases j,
    {
        assert(us@.subrange(0, j as int).drop_last() =~= us@.subrange(0, j - 1));
        if str_eq(us[j - 1].0.as_str(), name) {
            return Some(us[j - 1].1.clone());
        }
        j = j - 1;
    }
    None
}

/// Files the merge bases computed for the branches: each update goes to
/// the first row of its branch, a later update for the same branch winning.
pub fn apply_merge_base_commits(branches: &mut Vec<BranchInfo>, updates: &Vec<(String, String)>)
    ensures
        final(branches)@.len() == old(branches)@.len(),
        forall|i: int| 0 <= i < old(branches)@.len() ==> #[trigger] final(branches)@[i] ==
            if first_of_name(old(branches)@, i) {
                match last_base_for(updates@, old(branches)@[i].name@) {
                    Some(h) => BranchInfo { merge_base_commit: Some(h), ..old(branches)@[i] },
                    None => old(branches)@[i],
                }
            } else {
                old(branches)@[i]
            },
{
    let ghost orig = branches@;
    let n = branches.len();
    let mut i: usize = 0;
    while i < n
        invariant
            n == orig.len(),
            i <= n,
            branches@.len() == n,
            forall|k: int| 0 <= k < n ==> (#[trigger] branches@[k]).name == orig[k].name,
            forall|k: int| 0 <= k < i ==> #[trigger] branches@[k] == if first_of_name(orig, k) {
                match last_base_for(updates@, orig[k].name@) {
                    Some(h) => BranchInfo { merge_base_commit: Some(h), ..orig[k] },
                    None => orig[k],
                }
            } else {
                orig[k]
            },
            forall|k: int| i <= k < n ==> #[trigger] branches@[k] == orig[k],
        decreases n - i,
    {
        let first = find_branch(branches, branches[i].name.as_str());
        proof {
            lemma_first_branch_names(branches@, orig, orig[i as int].name@);
        }
        if first == Some(i) {
            match last_base_exec(updates, branches[i].name.as_str()) {
                Some(h) => {
                    let mut row = branches.remove(i);
                    row.merge_base_commit = Some(h);
                    branches.insert(i, row);
                },
                None => {},
            }
        }
        i = i + 1;
    }
}

/// The first remote row with short name `name`.
pub open spec fn first_remote_named(rs: Seq<RemoteBranchInfo>, name: Seq<char>, i: int) -> bool {
    0 <= i < rs.len() && rs[i].short_name@ == name && forall|k: int| 0 <= k < i ==> (#[trigger] rs[k]).short_name@ != name
}

/// A status that no later check changes: neither unmerged nor pending.
pub open spec fn settled(s: MergeStatus) -> bool {
    s != MergeStatus::Unmerged && s != MergeStatus::Pending
}

/// Files the verdict of a squash or cherry-pick check on branch `name`: its
/// first row takes the status, and a settled verdict also goes to the first
/// remote branch of the same short name (the local check decides there).
pub fn apply_check_result(branches: &mut Vec<BranchInfo>, remotes: &mut Vec<RemoteBranchInfo>, name: &str, status: MergeStatus)
    ensures
        final(branches)@.len() == old(branches)@.len(),
        match first_branch(old(branches)@, name@) {
            Some(i) => final(branches)@ == old(branches)@.update(i, BranchInfo { merge_status: status, ..old(branches)@[i] }),
            None => final(branches)@ == old(branches)@,
        },
        final(remotes)@.len() == old(remotes)@.len(),
        forall|i: int| settled(status) && first_remote_named(old(remotes)@, name@, i) ==>
            final(remotes)@ == old(remotes)@.update(i, RemoteBranchInfo { merge_status: status, ..old(remotes)@[i] }),
        (!settled(status) || forall|i: int| !first_remote_named(old(remotes)@, name@, i)) ==> final(remotes)@ == old(remotes)@,
{
    match find_branch(branches, name) {
        Some(i) => {
            let mut row = branches.remove(i);
            row.merge_status = status;
            branches.insert(i, row);
        },
        None => {},
    }
    let is_settled = match status {
        MergeStatus::Unmerged | MergeStatus::Pending => false,
        _ => true,
    };
    if is_settled {
        let mut k: usize = 0;
        let mut found: Option<usize> = None;
        while k < remotes.len()
            invariant_except_break
                found is None,
            invariant
                k <= remotes@.len(),
                forall|j: int| 0 <= j < k ==> (#[trigger] remotes@[j]).short_name@ != name@,
            ensures
                match found {
                    Some(f) => first_remote_named(remotes@, name@, f as int),
                    None => forall|j: int| 0 <= j < remotes@.len() ==> (#[trigger] remotes@[j]).short_name@ != name@,
                },
            decreases remotes@.len() - k,
        {
            if str_eq(remotes[k].short_name.as_str(), name) {
                found = Some(k);
                break;
            }
            k = k + 1;
        }
        match found {
            Some(f) => {
                proof {
                    assert forall|i: int| first_remote_named(old(remotes)@, name@, i) implies i == f by {
                        if i > f {
                            assert(old(remotes)@[f as int].short_name@ == name@);
                        } else if i < f {
                            assert(old(remotes)@[i].short_name@ == name@);
                        }
                    }
                }
                let mut r = remotes.remove(f);
                r.merge_status = status;
                remotes.insert(f, r);
            },
            None => {},
        }
    }
}

} // verus!
