//! Remote-tracking branches: the first listing, with merge status still to
//! be found for all but the base branch, and the enrichment that finds it.

use vstd::prelude::*;
use crate::types::{MergeStatus, PrInfo};
use crate::branches::{git_error, GitError};
use crate::repo::{
    branch_iter, branch_name, branch_reference, commit_time, find_branch, find_reference, graph_ahead_behind,
    graph_descendant_of, next_branch, peel_to_commit, reference_target, commit_id, oid_hex,
};
use crate::squash::Candidate;
use crate::keyed::KeyedList;
use crate::tags::{representable, utc_representable};
use crate::text::{chars_of, concat2, ends_with_exec, first_char_at, find_char, slice_string, str_eq};

verus! {

/// A remote-tracking branch. `last_commit_date` is in seconds since the
/// UNIX epoch.
#[derive(Debug, Clone)]
pub struct RemoteBranchInfo {
    /// `<remote>/<short name>`.
    pub full_ref: String,
    pub remote: String,
    pub short_name: String,
    /// A local branch of the same short name exists.
    pub has_local: bool,
    pub is_base: bool,
    pub last_commit_date: i64,
    pub merge_status: MergeStatus,
    pub ahead: Option<u32>,
    pub behind: Option<u32>,
    pub pr: Option<PrInfo>,
}

/// What the enrichment found for one remote branch.
#[derive(Debug, Clone)]
pub struct RemoteEnrichResult {
    pub full_ref: String,
    pub merge_status: MergeStatus,
    pub ahead: Option<u32>,
    pub behind: Option<u32>,
}

/// `name` split at its first `/`: the remote and the short name.
pub open spec fn split_remote(name: Seq<char>) -> Option<(Seq<char>, Seq<char>)> {
    if exists|j: int| first_char_at(name, '/', j) {
        let j = choose|j: int| first_char_at(name, '/', j);
        Some((name.subrange(0, j), name.subrange(j + 1, name.len() as int)))
    } else {
        None
    }
}

/// `name` splits at its first `/` into `remote` and `short`.
pub fn split_remote_ref(name: &str) -> (r: Option<(String, String)>)
    ensures
        match split_remote(name@) {
            Some((a, b)) => match r {
                Some((x, y)) => x@ == a && y@ == b,
                None => false,
            },
            None => r is None,
        },
{
    let cs = chars_of(name);
    match find_char(&cs, '/', 0) {
        Some(j) => {
            proof {
                crate::text::lemma_first_char_unique(name@, '/');
                assert(first_char_at(name@, '/', j as int));
            }
            Some((slice_string(&cs, 0, j), slice_string(&cs, j + 1, cs.len())))
        },
        None => {
            assert(!exists|j: int| first_char_at(name@, '/', j));
            None
        },
    }
}

/// Remote row `a` goes before row `b`: the base branch first, then the most
/// recently committed.
pub open spec fn remote_before(a: RemoteBranchInfo, b: RemoteBranchInfo) -> bool {
    (a.is_base && !b.is_base) || (a.is_base == b.is_base && a.last_commit_date > b.last_commit_date)
}

pub open spec fn remotes_sorted(rows: Seq<RemoteBranchInfo>) -> bool {
    forall|i: int, j: int| 0 <= i < j < rows.len() ==> !remote_before(#[trigger] rows[j], #[trigger] rows[i])
}

fn remote_order(a: &RemoteBranchInfo, b: &RemoteBranchInfo) -> (o: std::cmp::Ordering)
    ensures
        (o is Less) == remote_before(*a, *b),
        (o is Greater) == remote_before(*b, *a),
{
    if a.is_base && !b.is_base {
        std::cmp::Ordering::Less
    } else if b.is_base && !a.is_base {
        std::cmp::Ordering::Greater
    } else if a.last_commit_date > b.last_commit_date {
        std::cmp::Ordering::Less
    } else if a.last_commit_date < b.last_commit_date {
        std::cmp::Ordering::Greater
    } else {
        std::cmp::Ordering::Equal
    }
}

/// `slice::sort_by` with the order of the remote list. What is claimed:
/// the rows come out rearranged, with no row before one that the order puts
/// ahead of it.
#[verifier::external_body]
fn sort_remote_rows(rows: &mut Vec<RemoteBranchInfo>)
    ensures
        final(rows)@.to_multiset() == old(rows)@.to_multiset(),
        remotes_sorted(final(rows)@),
{
    rows.sort_by(|a, b| remote_order(a, b));
}

/// A row of the first remote listing for base branch `base`: named by a
/// remote-tracking ref other than a `HEAD` pseudo-ref, the base branch
/// settled as merged and every other row waiting for the enrichment.
pub open spec fn remote_row_ok(r: RemoteBranchInfo, base: Seq<char>, now: i64) -> bool {
    &&& split_remote(r.full_ref@) == Some((r.remote@, r.short_name@))
    &&& !(r.full_ref@.len() >= 5 && r.full_ref@.subrange(r.full_ref@.len() - 5, r.full_ref@.len() as int) == "/HEAD"@)
    &&& r.is_base == (r.short_name@ == base)
    &&& r.merge_status == if r.is_base { MergeStatus::Merged } else { MergeStatus::Pending }
    &&& r.ahead is None && r.behind is None && r.pr is None
    &&& (r.last_commit_date == now || utc_representable(r.last_commit_date))
}

/// The remote-tracking branches, base branch first and then the newest.
/// `now` stands in for a commit time out of range.
pub fn list_remote_branches_phase1(repo: &git2::Repository, base_branch: &str, now: i64) -> (r: Result<Vec<RemoteBranchInfo>, GitError>)
    ensures
        match r {
            Ok(rows) => remotes_sorted(rows@)
                && forall|i: int| 0 <= i < rows@.len() ==> remote_row_ok(#[trigger] rows@[i], base_branch@, now),
            Err(e) => e is Git2,
        },
{
    let mut iter = match branch_iter(repo, true) {
        Ok(it) => it,
        Err(e) => return Err(git_error(e)),
    };
    let mut rows: Vec<RemoteBranchInfo> = Vec::new();
    let mut budget: usize = usize::MAX;
    while budget > 0
        invariant
            forall|i: int| 0 <= i < rows@.len() ==> remote_row_ok(#[trigger] rows@[i], base_branch@, now),
        decreases budget,
    {
        budget = budget - 1;
        let branch = match next_branch(&mut iter) {
            None => break,
            Some(Err(e)) => return Err(git_error(e)),
            Some(Ok(b)) => b,
        };
        let name = match branch_name(&branch) {
            Err(e) => return Err(git_error(e)),
            Ok(None) => continue,
            Ok(Some(n)) => n,
        };
        if ends_with_exec(name.as_str(), "/HEAD") {
            continue;
        }
        let (remote, short_name) = match split_remote_ref(name.as_str()) {
            Some(parts) => parts,
            None => continue,
        };
        let commit = match peel_to_commit(branch_reference(&branch)) {
            Ok(c) => c,
            Err(e) => return Err(git_error(e)),
        };
        let secs = commit_time(&commit);
        let date = if representable(secs) { secs } else { now };
        let has_local = find_branch(repo, short_name.as_str(), false).is_ok();
        let is_base = str_eq(short_name.as_str(), base_branch);
        let row = RemoteBranchInfo {
            full_ref: name,
            remote,
            short_name,
            has_local,
            is_base,
            last_commit_date: date,
            merge_status: if is_base { MergeStatus::Merged } else { MergeStatus::Pending },
            ahead: None,
            behind: None,
            pr: None,
        };
        proof {
            reveal_strlit("/HEAD");
        }
        rows.push(row);
    }
    let ghost before = rows@;
    sort_remote_rows(&mut rows);
    proof {
        broadcast use vstd::seq_lib::group_to_multiset_ensures;
        assert forall|i: int| 0 <= i < rows@.len() implies remote_row_ok(#[trigger] rows@[i], base_branch@, now) by {
            assert(rows@.contains(rows@[i]));
            assert(rows@.to_multiset().count(rows@[i]) > 0);
            assert(before.contains(rows@[i]));
        }
    }
    Ok(rows)
}

/// The remote branches named in `results` are among `branches`, not the
/// base branch, in the order they come there.
pub open spec fn enrich_covers(results: Seq<RemoteEnrichResult>, branches: Seq<RemoteBranchInfo>) -> bool {
    forall|i: int| 0 <= i < results.len() ==> exists|k: int| 0 <= k < branches.len()
        && !branches[k].is_base && #[trigger] results[i].full_ref@ == branches[k].full_ref@
}

fn tip_of(repo: &git2::Repository, refname: &str) -> (o: Option<git2::Oid>) {
    match find_reference(repo, refname) {
        Ok(r) => reference_target(&r),
        Err(_) => None,
    }
}

fn base_tip(repo: &git2::Repository, base_branch: &str) -> (o: Option<git2::Oid>) {
    let local = find_branch(repo, base_branch, false);
    match local {
        Ok(b) => reference_target(branch_reference(&b)),
        Err(_) => {
            let name = concat2("origin/", base_branch);
            match find_branch(repo, name.as_str(), true) {
                Ok(b) => reference_target(branch_reference(&b)),
                Err(_) => None,
            }
        },
    }
}

/// Merge status and distance from the base for each remote branch other
/// than the base: merged when the base descends from it; ahead and behind
/// counted against the base tip (the local base branch, or else
/// `origin/<base>`). Nothing is found without a base tip; a branch whose
/// ref cannot be read is left out.
pub fn enrich_remote_branches(repo: &git2::Repository, base_branch: &str, branches: &Vec<RemoteBranchInfo>)
    -> (results: Vec<RemoteEnrichResult>)
    ensures
        results@.len() <= branches@.len(),
        enrich_covers(results@, branches@),
{
    let mut results: Vec<RemoteEnrichResult> = Vec::new();
    let base_oid = match base_tip(repo, base_branch) {
        Some(o) => o,
        None => return results,
    };
    let mut k: usize = 0;
    while k < branches.len()
        invariant
            k <= branches@.len(),
            results@.len() <= k,
            enrich_covers(results@, branches@),
        decreases branches@.len() - k,
    {
        let b = &branches[k];
        if !b.is_base {
            let refname = concat2("refs/remotes/", b.full_ref.as_str());
            match tip_of(repo, refname.as_str()) {
                Some(branch_oid) => {
                    let merged = match graph_descendant_of(repo, base_oid, branch_oid) {
                        Ok(d) => d,
                        Err(_) => false,
                    };
                    let (ahead, behind) = match graph_ahead_behind(repo, branch_oid, base_oid) {
                        Ok((a, bh)) => (Some(a as u32), Some(bh as u32)),
                        Err(_) => (None, None),
                    };
                    let r = RemoteEnrichResult {
                        full_ref: b.full_ref.clone(),
                        merge_status: if merged { MergeStatus::Merged } else { MergeStatus::Unmerged },
                        ahead,
                        behind,
                    };
                    proof {
                        assert(!branches@[k as int].is_base && r.full_ref@ == branches@[k as int].full_ref@);
                    }
                    results.push(r);
                },
                None => {},
            }
        }
        k = k + 1;
    }
    results
}

/// The first row for `full_ref`.
pub open spec fn first_row_for(rows: Seq<RemoteBranchInfo>, full_ref: Seq<char>, i: int) -> bool {
    0 <= i < rows.len() && rows[i].full_ref@ == full_ref
        && forall|k: int| 0 <= k < i ==> (#[trigger] rows[k]).full_ref@ != full_ref
}

/// Files an enrichment result under the first row of its branch; one for a
/// branch no longer listed is dropped.
pub fn apply_remote_enrich(rows: &mut Vec<RemoteBranchInfo>, result: &RemoteEnrichResult)
    ensures
        final(rows)@.len() == old(rows)@.len(),
        forall|i: int| first_row_for(old(rows)@, result.full_ref@, i) ==> final(rows)@ == old(rows)@.update(i,
            RemoteBranchInfo { merge_status: result.merge_status, ahead: result.ahead, behind: result.behind, ..old(rows)@[i] }),
        (forall|i: int| !first_row_for(old(rows)@, result.full_ref@, i)) ==> final(rows)@ == old(rows)@,
{
    let mut k: usize = 0;
    while k < rows.len()
        invariant
            k <= rows@.len(),
            rows@ == old(rows)@,
            forall|j: int| 0 <= j < k ==> (#[trigger] rows@[j]).full_ref@ != result.full_ref@,
        decreases rows@.len() - k,
    {
        if str_eq(rows[k].full_ref.as_str(), result.full_ref.as_str()) {
            let mut row = rows.remove(k);
            row.merge_status = result.merge_status;
            row.ahead = result.ahead;
            row.behind = result.behind;
            rows.insert(k, row);
            proof {
                assert forall|i: int| first_row_for(old(rows)@, result.full_ref@, i) implies i == k by {
                    if i < k {
                    } else if i > k {
                        assert(old(rows)@[k as int].full_ref@ == result.full_ref@);
                    }
                }
                assert(first_row_for(old(rows)@, result.full_ref@, k as int));
            }
            return;
        }
        k = k + 1;
    }
}


/// The squash-check candidates among the listed remote branches: each one
/// still pending and not the base, with the commit its ref points at; no
/// merge base is known for remote branches. A ref that cannot be read is
/// left out.
pub fn remote_squash_candidates(repo: &git2::Repository, rows: &Vec<RemoteBranchInfo>) -> (cs: Vec<Candidate>)
    ensures
        cs@.len() <= rows@.len(),
        forall|i: int| 0 <= i < cs@.len() ==> (#[trigger] cs@[i]).merge_base is None && exists|k: int| 0 <= k < rows@.len()
            && !rows@[k].is_base && rows@[k].merge_status == MergeStatus::Pending && cs@[i].branch_name@ == rows@[k].full_ref@,
{
    let mut cs: Vec<Candidate> = Vec::new();
    let mut k: usize = 0;
    while k < rows.len()
        invariant
            k <= rows@.len(),
            cs@.len() <= k,
            forall|i: int| 0 <= i < cs@.len() ==> (#[trigger] cs@[i]).merge_base is None && exists|k: int| 0 <= k < rows@.len()
                && !rows@[k].is_base && rows@[k].merge_status == MergeStatus::Pending && cs@[i].branch_name@ == rows@[k].full_ref@,
        decreases rows@.len() - k,
    {
        let row = &rows[k];
        let pending = match row.merge_status {
            MergeStatus::Pending => true,
            _ => false,
        };
        if pending && !row.is_base {
            let refname = concat2("refs/remotes/", row.full_ref.as_str());
            match find_reference(repo, refname.as_str()) {
                Ok(r) => match peel_to_commit(&r) {
                    Ok(c) => {
                        let c = Candidate { branch_name: row.full_ref.clone(), commit_hash: oid_hex(&commit_id(&c)), merge_base: None };
                        assert(rows@[k as int].full_ref@ == c.branch_name@);
                        cs.push(c);
                    },
                    Err(_) => {},
                },
                Err(_) => {},
            }
        }
        k = k + 1;
    }
    cs
}

/// Some row of remote branch `full_ref` is still unmerged.
pub open spec fn unmerged_row(rows: Seq<RemoteBranchInfo>, full_ref: Seq<char>) -> bool {
    exists|k: int| 0 <= k < rows.len() && #[trigger] rows[k].full_ref@ == full_ref
        && rows[k].merge_status == MergeStatus::Unmerged
}

/// The candidates whose remote branch is still unmerged, in order.
pub open spec fn unmerged_candidates(cs: Seq<Candidate>, rows: Seq<RemoteBranchInfo>) -> Seq<Candidate>
    decreases cs.len(),
{
    if cs.len() == 0 {
        Seq::empty()
    } else {
        let rest = unmerged_candidates(cs.drop_first(), rows);
        if unmerged_row(rows, cs[0].branch_name@) { seq![cs[0]] + rest } else { rest }
    }
}

fn is_unmerged_row(rows: &Vec<RemoteBranchInfo>, full_ref: &str) -> (b: bool)
    ensures
        b == unmerged_row(rows@, full_ref@),
{
    let mut k: usize = 0;
    while k < rows.len()
        invariant
            k <= rows@.len(),
            forall|j: int| 0 <= j < k ==> !((#[trigger] rows@[j]).full_ref@ == full_ref@
                && rows@[j].merge_status == MergeStatus::Unmerged),
        decreases rows@.len() - k,
    {
        let unmerged = match rows[k].merge_status {
            MergeStatus::Unmerged => true,
            _ => false,
        };
        if unmerged && str_eq(rows[k].full_ref.as_str(), full_ref) {
            return true;
        }
        k = k + 1;
    }
    false
}

/// Of the squash candidates, those whose remote branch the enrichment left
/// unmerged: only they are checked.
pub fn still_unmerged(candidates: Vec<Candidate>, rows: &Vec<RemoteBranchInfo>) -> (r: Vec<Candidate>)
    ensures
        r@ == unmerged_candidates(candidates@, rows@),
{
    let ghost orig = candidates@;
    let mut rest = candidates;
    let mut out: Vec<Candidate> = Vec::new();
    while rest.len() > 0
        invariant
            unmerged_candidates(orig, rows@) == out@ + unmerged_candidates(rest@, rows@),
        decreases rest@.len(),
    {
        let ghost before = rest@;
        let c = rest.remove(0);
        proof {
            assert(rest@ =~= before.drop_first());
        }
        if is_unmerged_row(rows, c.branch_name.as_str()) {
            let ghost o = out@;
            out.push(c);
            proof {
                assert(o + (seq![before[0]] + unmerged_candidates(rest@, rows@)) =~= out@ + unmerged_candidates(rest@, rows@));
            }
        }
    }
    proof {
        assert(out@ + unmerged_candidates(rest@, rows@) =~= out@);
    }
    out
}

/// The rows after the squash result `status` for remote branch `name`: a
/// settled status goes to the first row of that branch; an unmerged or
/// pending one changes nothing.
pub open spec fn with_verdict(rows: Seq<RemoteBranchInfo>, name: Seq<char>, status: MergeStatus) -> Seq<RemoteBranchInfo> {
    if status != MergeStatus::Unmerged && status != MergeStatus::Pending
        && exists|i: int| first_row_for(rows, name, i) {
        let i = choose|i: int| first_row_for(rows, name, i);
        rows.update(i, RemoteBranchInfo { merge_status: status, ..rows[i] })
    } else {
        rows
    }
}

/// The rows after the verdicts in order.
pub open spec fn with_verdicts(rows: Seq<RemoteBranchInfo>, vs: Seq<(String, MergeStatus)>) -> Seq<RemoteBranchInfo>
    decreases vs.len(),
{
    if vs.len() == 0 {
        rows
    } else {
        let prev = with_verdicts(rows, vs.drop_last());
        with_verdict(prev, vs.last().0@, vs.last().1)
    }
}

proof fn lemma_first_row_unique(rows: Seq<RemoteBranchInfo>, name: Seq<char>, a: int, b: int)
    requires
        first_row_for(rows, name, a),
        first_row_for(rows, name, b),
    ensures
        a == b,
{
    if a < b {
        assert(rows[a].full_ref@ != name);
    } else if b < a {
        assert(rows[b].full_ref@ != name);
    }
}

fn apply_verdict(rows: &mut Vec<RemoteBranchInfo>, name: &str, status: MergeStatus)
    ensures
        final(rows)@ == with_verdict(old(rows)@, name@, status),
{
    let settled = match status {
        MergeStatus::Unmerged => false,
        MergeStatus::Pending => false,
        _ => true,
    };
    if !settled {
        return;
    }
    let mut k: usize = 0;
    while k < rows.len()
        invariant
            k <= rows@.len(),
            rows@ == old(rows)@,
            status != MergeStatus::Unmerged && status != MergeStatus::Pending,
            forall|j: int| 0 <= j < k ==> (#[trigger] rows@[j]).full_ref@ != name@,
        decreases rows@.len() - k,
    {
        if str_eq(rows[k].full_ref.as_str(), name) {
            let mut row = rows.remove(k);
            row.merge_status = status;
            rows.insert(k, row);
            proof {
                assert(first_row_for(old(rows)@, name@, k as int));
                let c = choose|i: int| first_row_for(old(rows)@, name@, i);
                lemma_first_row_unique(old(rows)@, name@, k as int, c);
                assert(rows@ =~= old(rows)@.update(k as int, RemoteBranchInfo { merge_status: status, ..old(rows)@[k as int] }));
            }
            return;
        }
        k = k + 1;
    }
}

/// Files the squash verdicts of the remote branches, in order: each settled
/// verdict goes to the first row of its branch.
pub fn apply_remote_verdicts(rows: &mut Vec<RemoteBranchInfo>, verdicts: &Vec<(String, MergeStatus)>)
    ensures
        final(rows)@ == with_verdicts(old(rows)@, verdicts@),
{
    let mut i: usize = 0;
    while i < verdicts.len()
        invariant
            i <= verdicts@.len(),
            rows@ == with_verdicts(old(rows)@, verdicts@.subrange(0, i as int)),
        decreases verdicts@.len() - i,
    {
        let (name, status) = &verdicts[i];
        apply_verdict(rows, name.as_str(), *status);
        proof {
            assert(verdicts@.subrange(0, i + 1).drop_last() =~= verdicts@.subrange(0, i as int));
        }
        i = i + 1;
    }
    assert(verdicts@.subrange(0, verdicts@.len() as int) =~= verdicts@);
}

/// Gives each remote row the pull request of its short branch name, if
/// any, and takes away any it had otherwise.
pub fn attach_remote_prs(rows: &mut Vec<RemoteBranchInfo>, prs: &KeyedList<PrInfo>)
    requires
        prs.wf(),
    ensures
        final(rows)@.len() == old(rows)@.len(),
        forall|i: int| 0 <= i < final(rows)@.len() ==> #[trigger] final(rows)@[i] == (RemoteBranchInfo {
            pr: if prs.view().contains_key(old(rows)@[i].short_name@) { Some(prs.view()[old(rows)@[i].short_name@]) } else { None },
            ..old(rows)@[i]
        }),
{
    let ghost orig = rows@;
    let mut i: usize = 0;
    while i < rows.len()
        invariant
            prs.wf(),
            i <= rows.len(),
            rows@.len() == orig.len(),
            forall|k: int| i <= k < rows@.len() ==> #[trigger] rows@[k] == orig[k],
            forall|k: int| 0 <= k < i ==> #[trigger] rows@[k] == (RemoteBranchInfo {
                pr: if prs.view().contains_key(orig[k].short_name@) { Some(prs.view()[orig[k].short_name@]) } else { None },
                ..orig[k]
            }),
        decreases rows.len() - i,
    {
        let pr = match prs.get(rows[i].short_name.as_str()) {
            Some(p) => Some(*p),
            None => None,
        };
        let mut b = rows.remove(i);
        b.pr = pr;
        rows.insert(i, b);
        i = i + 1;
    }
}

} // verus!
