//! Squash-merge and cherry-pick detection for candidate branches: which
//! candidates the cache already answers, what the per-base checks add up
//! to, and when the cache is written back.
//!
//! The checks themselves run `git` against the local base and `origin/<base>`
//! and belong to the caller.

use vstd::prelude::*;
use crate::types::{MergeStatus, SquashConfidence};
use crate::cache::{BranchCache, lookup_answer, status_text};
use crate::keyed::map_get;
use crate::text::{concat2, to_owned_string};

verus! {

/// The squash-merge verdict for one branch.
#[derive(Debug)]
pub struct SquashResult {
    pub branch_name: String,
    pub status: MergeStatus,
    pub confidence: Option<SquashConfidence>,
}

/// The cherry-pick verdict for one branch.
#[derive(Debug)]
pub struct CherryResult {
    pub branch_name: String,
    pub status: MergeStatus,
}

/// A branch to check: its name, tip commit, and merge base where known.
#[derive(Debug)]
pub struct Candidate {
    pub branch_name: String,
    pub commit_hash: String,
    pub merge_base: Option<String>,
}

/// How many results may be cached before the cache is written back.
pub const CACHE_SAVE_INTERVAL: usize = 100;

/// Strength order of heuristic signals: a confirmed merge tree first, then
/// fuzzy matches by falling similarity.
pub open spec fn rank(c: SquashConfidence) -> (int, int) {
    match c {
        SquashConfidence::MergeTreeConfirmed => (0, 0),
        SquashConfidence::FuzzyMatch { similarity_percent } => (1, 255 - similarity_percent),
    }
}

pub open spec fn rank_le(a: (int, int), b: (int, int)) -> bool {
    a.0 < b.0 || (a.0 == b.0 && a.1 <= b.1)
}

/// The rank of a signal; smaller is stronger.
pub fn confidence_rank(c: &SquashConfidence) -> (r: (u8, u8))
    ensures
        (r.0 as int, r.1 as int) == rank(*c),
{
    match c {
        SquashConfidence::MergeTreeConfirmed => (0, 0),
        SquashConfidence::FuzzyMatch { similarity_percent } => (1, 255 - *similarity_percent),
    }
}

/// The stronger of two signals, the first on a tie.
pub open spec fn strongest(a: Option<SquashConfidence>, b: Option<SquashConfidence>) -> Option<SquashConfidence> {
    match (a, b) {
        (Some(x), Some(y)) => if rank_le(rank(x), rank(y)) { Some(x) } else { Some(y) },
        (Some(x), None) => Some(x),
        (None, Some(y)) => Some(y),
        (None, None) => None,
    }
}

/// Chooses the stronger signal of the local and the remote checks.
pub fn strongest_confidence(a: Option<SquashConfidence>, b: Option<SquashConfidence>) -> (r: Option<SquashConfidence>)
    ensures
        r == strongest(a, b),
{
    match (a, b) {
        (Some(x), Some(y)) => {
            let rx = confidence_rank(&x);
            let ry = confidence_rank(&y);
            if rx.0 < ry.0 || (rx.0 == ry.0 && rx.1 <= ry.1) { Some(x) } else { Some(y) }
        },
        (Some(x), None) => Some(x),
        (None, Some(y)) => Some(y),
        (None, None) => None,
    }
}

/// The verdict from the squash checks against the local and the remote base;
/// the heuristic signals only count when neither check found a squash merge.
pub open spec fn squash_verdict_spec(local: bool, remote: bool, local_conf: Option<SquashConfidence>, remote_conf: Option<SquashConfidence>)
    -> (MergeStatus, Option<SquashConfidence>)
{
    if local && remote {
        (MergeStatus::SquashMerged, None)
    } else if remote {
        (MergeStatus::RemoteSquashMerged, None)
    } else if local {
        (MergeStatus::LocalSquashMerged, None)
    } else {
        match strongest(local_conf, remote_conf) {
            Some(c) => (MergeStatus::LikelySquashMerged, Some(c)),
            None => (MergeStatus::Unmerged, None),
        }
    }
}

/// Combines the squash checks of one branch. The heuristic signals are read
/// only when both checks came back negative.
pub fn squash_verdict(local: bool, remote: bool, local_conf: Option<SquashConfidence>, remote_conf: Option<SquashConfidence>)
    -> (r: (MergeStatus, Option<SquashConfidence>))
    ensures
        r == squash_verdict_spec(local, remote, local_conf, remote_conf),
{
    if local && remote {
        (MergeStatus::SquashMerged, None)
    } else if remote {
        (MergeStatus::RemoteSquashMerged, None)
    } else if local {
        (MergeStatus::LocalSquashMerged, None)
    } else {
        match strongest_confidence(local_conf, remote_conf) {
            Some(c) => (MergeStatus::LikelySquashMerged, Some(c)),
            None => (MergeStatus::Unmerged, None),
        }
    }
}

/// The verdict from the cherry-pick checks against the local and the remote base.
pub fn cherry_verdict(local: bool, remote: bool) -> (r: MergeStatus)
    ensures
        r == if local && remote {
            MergeStatus::CherryPicked
        } else if remote {
            MergeStatus::RemoteCherryPicked
        } else if local {
            MergeStatus::LocalCherryPicked
        } else {
            MergeStatus::Unmerged
        },
{
    if local && remote {
        MergeStatus::CherryPicked
    } else if remote {
        MergeStatus::RemoteCherryPicked
    } else if local {
        MergeStatus::LocalCherryPicked
    } else {
        MergeStatus::Unmerged
    }
}

/// What the cache answers for a candidate, unless it must be checked again:
/// with `recheck_unmerged`, a cached `Unmerged` is checked again, since the
/// base may have moved.
pub open spec fn cached_answer(cache: BranchCache, c: Candidate, recheck_unmerged: bool) -> Option<MergeStatus> {
    match lookup_answer(map_get(cache.statuses(), c.branch_name@), c.commit_hash@) {
        Some(s) => if recheck_unmerged && s == MergeStatus::Unmerged { None } else { Some(s) },
        None => None,
    }
}

/// The candidates the cache answers, with their answers, in order.
pub open spec fn answered(cache: BranchCache, cs: Seq<Candidate>, recheck_unmerged: bool) -> Seq<(Seq<char>, MergeStatus)>
    decreases cs.len(),
{
    if cs.len() == 0 {
        Seq::empty()
    } else {
        let rest = answered(cache, cs.drop_last(), recheck_unmerged);
        match cached_answer(cache, cs.last(), recheck_unmerged) {
            Some(s) => rest.push((cs.last().branch_name@, s)),
            None => rest,
        }
    }
}

/// The candidates left to check, in order.
pub open spec fn unanswered(cache: BranchCache, cs: Seq<Candidate>, recheck_unmerged: bool) -> Seq<Candidate>
    decreases cs.len(),
{
    if cs.len() == 0 {
        Seq::empty()
    } else {
        let rest = unanswered(cache, cs.drop_last(), recheck_unmerged);
        match cached_answer(cache, cs.last(), recheck_unmerged) {
            Some(_) => rest,
            None => rest.push(cs.last()),
        }
    }
}

pub open spec fn answer_views(v: Seq<(String, MergeStatus)>) -> Seq<(Seq<char>, MergeStatus)> {
    v.map_values(|a: (String, MergeStatus)| (a.0@, a.1))
}

/// Splits the candidates into those the cache answers (with the answer) and
/// those left to check, both in order; the cache's lookup counters advance.
pub fn split_cached(cache: &mut BranchCache, candidates: Vec<Candidate>, recheck_unmerged: bool)
    -> (r: (Vec<(String, MergeStatus)>, Vec<Candidate>))
    requires
        old(cache).wf(),
        old(cache).hit_count() + candidates@.len() < u32::MAX,
        old(cache).miss_count() + candidates@.len() < u32::MAX,
    ensures
        final(cache).wf(),
        final(cache).statuses() == old(cache).statuses(),
        final(cache).dirty_statuses() == old(cache).dirty_statuses(),
        answer_views(r.0@) == answered(*old(cache), candidates@, recheck_unmerged),
        r.1@ == unanswered(*old(cache), candidates@, recheck_unmerged),
{
    let ghost c0 = *cache;
    let ghost cs = candidates@;
    let mut hits: Vec<(String, MergeStatus)> = Vec::new();
    let mut misses: Vec<Candidate> = Vec::new();
    let mut rest = candidates;
    let mut i: usize = 0;
    while rest.len() > 0
        invariant
            cache.wf(),
            cache.statuses() == c0.statuses(),
            cache.dirty_statuses() == c0.dirty_statuses(),
            c0.hit_count() + cs.len() < u32::MAX,
            c0.miss_count() + cs.len() < u32::MAX,
            cache.hit_count() <= c0.hit_count() + i,
            cache.miss_count() <= c0.miss_count() + i,
            i + rest@.len() == cs.len(),
            rest@ == cs.subrange(i as int, cs.len() as int),
            answer_views(hits@) == answered(c0, cs.subrange(0, i as int), recheck_unmerged),
            misses@ == unanswered(c0, cs.subrange(0, i as int), recheck_unmerged),
        decreases rest@.len(),
    {
        let c = rest.remove(0);
        proof {
            assert(c == cs[i as int]);
            assert(rest@ =~= cs.subrange(i as int + 1, cs.len() as int));
            let next = cs.subrange(0, i as int + 1);
            assert(next.drop_last() =~= cs.subrange(0, i as int));
            assert(next.last() == c);
        }
        let answer = cache.lookup(c.branch_name.as_str(), c.commit_hash.as_str());
        let hit = match answer {
            Some(s) => !(recheck_unmerged && s == MergeStatus::Unmerged),
            None => false,
        };
        if hit {
            let s = match answer { Some(s) => s, None => MergeStatus::Unmerged };
            let ghost h0 = hits@;
            hits.push((c.branch_name, s));
            proof {
                assert(answer_views(hits@) =~= answer_views(h0).push((cs[i as int].branch_name@, s)));
            }
        } else {
            misses.push(c);
        }
        i = i + 1;
    }
    proof {
        assert(cs.subrange(0, cs.len() as int) =~= cs);
    }
    (hits, misses)
}

/// Caches a checked result. `unsaved` counts results cached since the cache
/// was last written; the answer is the new count and whether to write the
/// cache now.
pub fn cache_checked(cache: &mut BranchCache, unsaved: usize, branch_name: &str, commit_hash: &str, status: MergeStatus)
    -> (r: (usize, bool))
    requires
        old(cache).wf(),
        unsaved < CACHE_SAVE_INTERVAL,
    ensures
        final(cache).wf(),
        match status_text(status) {
            None => final(cache).statuses() == old(cache).statuses(),
            Some(t) => final(cache).statuses().contains_key(branch_name@)
                && final(cache).statuses()[branch_name@].merge_status@ == t
                && final(cache).statuses()[branch_name@].commit_hash@ == commit_hash@
                && final(cache).statuses().remove(branch_name@) == old(cache).statuses().remove(branch_name@),
        },
        r.1 == (unsaved + 1 >= CACHE_SAVE_INTERVAL),
        r.0 == if r.1 { 0 } else { unsaved + 1 },
        r.0 < CACHE_SAVE_INTERVAL,
{
    cache.insert(branch_name, &status, commit_hash);
    if unsaved + 1 >= CACHE_SAVE_INTERVAL {
        (0, true)
    } else {
        (unsaved + 1, false)
    }
}


/// The merge base a squash check starts from: the one already known, when
/// it is not empty; otherwise it has to be asked of git.
pub fn known_merge_base(merge_base: Option<&str>) -> (r: Option<String>)
    ensures
        match merge_base {
            Some(m) => if m@.len() > 0 { r is Some && r->0@ == m@ } else { r is None },
            None => r is None,
        },
{
    match merge_base {
        Some(m) => if m.unicode_len() > 0 { Some(crate::text::to_owned_string(m)) } else { None },
        None => None,
    }
}

/// Whether `git cherry <base> <temp>` found the temporary squash commit's
/// patch already on the base: its answer starts with `-`.
pub fn cherry_marks_applied(output: &str) -> (b: bool)
    ensures
        b == (output@.len() > 0 && output@[0] == '-'),
{
    let cs = crate::text::chars_of(output);
    cs.len() > 0 && cs[0] == '-'
}

/// A step printed something.
pub open spec fn step_found(o: Option<&str>) -> bool {
    match o {
        Some(s) => s@.len() > 0,
        None => false,
    }
}

/// `git cherry` printed a line marking the patch as applied.
pub open spec fn step_applied(o: Option<&str>) -> bool {
    match o {
        Some(s) => s@.len() > 0 && s@[0] == '-',
        None => false,
    }
}

/// The verdict of a squash check from what its three git steps printed
/// (trimmed), `None` for a step that failed or was not reached: squash-merged
/// when a merge base and a temporary commit were found and `git cherry`
/// marked the commit as applied.
pub fn squash_check_verdict(ancestor: Option<&str>, temp_commit: Option<&str>, cherry: Option<&str>) -> (b: bool)
    ensures
        b == (step_found(ancestor) && step_found(temp_commit) && step_applied(cherry)),
{
    match (ancestor, temp_commit, cherry) {
        (Some(a), Some(t), Some(c)) => a.unicode_len() > 0 && t.unicode_len() > 0 && cherry_marks_applied(c),
        _ => false,
    }
}

/// The texts of a list of strings.
pub open spec fn texts(v: Seq<String>) -> Seq<Seq<char>> {
    v.map_values(|s: String| s@)
}

/// What a squash check names the branch by: its tip commit when known, its
/// name otherwise.
pub fn squash_branchish<'a>(branch_name: &'a str, commit_hash: Option<&'a str>) -> (r: &'a str)
    ensures
        r@ == match commit_hash {
            Some(h) => h@,
            None => branch_name@,
        },
{
    match commit_hash {
        Some(h) => h,
        None => branch_name,
    }
}

/// `git merge-base <base> <branch>`: the first step of a squash check.
pub fn merge_base_args(base: &str, branchish: &str) -> (a: Vec<String>)
    ensures
        texts(a@) == seq!["merge-base"@, base@, branchish@],
{
    let a = vec![to_owned_string("merge-base"), to_owned_string(base), to_owned_string(branchish)];
    assert(texts(a@) =~= seq!["merge-base"@, base@, branchish@]);
    a
}

/// `git commit-tree <branch>^{tree} -p <ancestor> -m _`: a temporary commit
/// holding the branch's whole tree on top of the merge base.
pub fn commit_tree_args(branchish: &str, ancestor: &str) -> (a: Vec<String>)
    ensures
        texts(a@) == seq!["commit-tree"@, branchish@ + "^{tree}"@, "-p"@, ancestor@, "-m"@, "_"@],
{
    let a = vec![
        to_owned_string("commit-tree"),
        concat2(branchish, "^{tree}"),
        to_owned_string("-p"),
        to_owned_string(ancestor),
        to_owned_string("-m"),
        to_owned_string("_"),
    ];
    assert(texts(a@) =~= seq!["commit-tree"@, branchish@ + "^{tree}"@, "-p"@, ancestor@, "-m"@, "_"@]);
    a
}

/// `git cherry <base> <temp>`: whether the temporary commit's patch is
/// already on the base.
pub fn cherry_args(base: &str, temp_commit: &str) -> (a: Vec<String>)
    ensures
        texts(a@) == seq!["cherry"@, base@, temp_commit@],
{
    let a = vec![to_owned_string("cherry"), to_owned_string(base), to_owned_string(temp_commit)];
    assert(texts(a@) =~= seq!["cherry"@, base@, temp_commit@]);
    a
}


/// `c` is at least as strong a squash signal as `other`, when there is one:
/// a confirmed merge tree beats every fuzzy match, and of two fuzzy matches
/// the more similar one is stronger.
pub open spec fn at_least_as_strong(c: SquashConfidence, other: Option<SquashConfidence>) -> bool {
    match other {
        None => true,
        Some(SquashConfidence::MergeTreeConfirmed) => c == SquashConfidence::MergeTreeConfirmed,
        Some(SquashConfidence::FuzzyMatch { similarity_percent: p }) => match c {
            SquashConfidence::MergeTreeConfirmed => true,
            SquashConfidence::FuzzyMatch { similarity_percent: q } => q >= p,
        },
    }
}

/// What the squash checks of one branch add up to. An exact squash merge
/// found against both bases, only the remote one or only the local one is
/// reported as such, with no signal. When neither exact check found one, a
/// heuristic signal from either base makes the branch likely squash-merged,
/// carrying one of the signals found that is at least as strong as each of
/// them; with no signal at all the branch is unmerged.
pub proof fn lemma_squash_verdict_uses_every_signal(
    local: bool,
    remote: bool,
    local_conf: Option<SquashConfidence>,
    remote_conf: Option<SquashConfidence>,
)
    ensures
        local && remote ==> squash_verdict_spec(local, remote, local_conf, remote_conf) == (MergeStatus::SquashMerged, None::<SquashConfidence>),
        !local && remote ==> squash_verdict_spec(local, remote, local_conf, remote_conf) == (MergeStatus::RemoteSquashMerged, None::<SquashConfidence>),
        local && !remote ==> squash_verdict_spec(local, remote, local_conf, remote_conf) == (MergeStatus::LocalSquashMerged, None::<SquashConfidence>),
        !local && !remote && (local_conf is Some || remote_conf is Some) ==> {
            let v = squash_verdict_spec(local, remote, local_conf, remote_conf);
            &&& v.0 == MergeStatus::LikelySquashMerged
            &&& v.1 is Some
            &&& (v.1 == local_conf || v.1 == remote_conf)
            &&& at_least_as_strong(v.1->0, local_conf)
            &&& at_least_as_strong(v.1->0, remote_conf)
        },
        !local && !remote && local_conf is None && remote_conf is None
            ==> squash_verdict_spec(local, remote, local_conf, remote_conf) == (MergeStatus::Unmerged, None::<SquashConfidence>),
{
}

} // verus!
