//! Cache-accuracy diagnostics: what the cache would serve, compared with
//! what the repository says now, and the corrections that follow.
//!
//! Merge status, ahead/behind counts and merge bases are recomputed from the
//! repository and compared with the cached answers; only answers the cache
//! would actually serve are checked, since a miss is recomputed anyway.
//! Squash checks run `git` and belong to the caller, which hands their
//! verdicts to [`finish_audit`].

use vstd::prelude::*;
use crate::types::MergeStatus;
use crate::cache::{BranchCache, lookup_answer, pair_key};
use crate::keyed::{KeySet, map_get};
use crate::merges::{BaseReachable, merge_base_short};
use crate::oidset::sort_strings;
use crate::repo::{
    branch_iter, branch_name, branch_reference, branch_upstream, commit_id, find_branch, graph_ahead_behind,
    merge_base, next_branch, oid_from_str, oid_hex, peel_to_commit, reference_target,
};
use crate::text::{chars_of, concat4, decimal, decimal_string, slice_string, str_eq, to_owned_string};
use crate::worktree::opt_view;

verus! {

/// Which cached value a discrepancy is about.
#[derive(Debug, Clone, Copy, PartialEq, Eq, Structural)]
pub enum DiagKind {
    MergeStatus,
    AheadBehind,
    MergeBase,
}

/// The correction for one discrepancy: the value to write back.
#[derive(Debug)]
pub enum CacheFix {
    Status { commit_hash: String, status: MergeStatus },
    AheadBehind { branch_oid: String, upstream_oid: String, ahead: u32, behind: u32 },
    MergeBase { branch_tip: String, base_tip: String, merge_base: Option<String> },
}

/// A cached value that differs from the repository's.
#[derive(Debug)]
pub struct Discrepancy {
    pub branch: String,
    pub kind: DiagKind,
    pub cached: String,
    pub actual: String,
    pub fix: CacheFix,
}

/// How the checks of one kind went.
#[derive(Debug)]
pub struct CheckTally {
    pub verified: usize,
    pub mismatched: usize,
    pub skipped: usize,
    /// Why each skipped check was skipped.
    pub skip_reasons: Vec<String>,
}

/// The outcome of an audit.
#[derive(Debug)]
pub struct CacheAudit {
    pub merge_status: CheckTally,
    pub ahead_behind: CheckTally,
    pub merge_base: CheckTally,
    pub discrepancies: Vec<Discrepancy>,
    /// Cached branch names with no live branch, sorted.
    pub orphans: Vec<String>,
}

impl CheckTally {
    pub fn new() -> (t: Self)
        ensures
            t.verified == 0 && t.mismatched == 0 && t.skipped == 0 && t.skip_reasons@.len() == 0,
    {
        CheckTally { verified: 0, mismatched: 0, skipped: 0, skip_reasons: Vec::new() }
    }
}

impl CacheAudit {
    pub fn new() -> (a: Self)
        ensures
            a.discrepancies@.len() == 0,
            a.orphans@.len() == 0,
            a.merge_status.verified == 0 && a.merge_status.mismatched == 0 && a.merge_status.skipped == 0,
            a.ahead_behind.verified == 0 && a.ahead_behind.mismatched == 0,
            a.merge_base.verified == 0 && a.merge_base.mismatched == 0,
            a.merge_status.skip_reasons@.len() == 0,
            a.ahead_behind.skipped == 0 && a.ahead_behind.skip_reasons@.len() == 0,
            a.merge_base.skipped == 0 && a.merge_base.skip_reasons@.len() == 0,
    {
        CacheAudit {
            merge_status: CheckTally::new(),
            ahead_behind: CheckTally::new(),
            merge_base: CheckTally::new(),
            discrepancies: Vec::new(),
            orphans: Vec::new(),
        }
    }

    /// Nothing to correct: no discrepancy and no orphan.
    pub fn is_clean(&self) -> (b: bool)
        ensures
            b == (self.discrepancies@.len() == 0 && self.orphans@.len() == 0),
    {
        self.discrepancies.len() == 0 && self.orphans.len() == 0
    }
}

/// The word a merge status is shown as in the audit.
pub open spec fn status_word(s: MergeStatus) -> Seq<char> {
    match s {
        MergeStatus::Merged | MergeStatus::LocalMerged | MergeStatus::RemoteMerged => "merged"@,
        MergeStatus::InSync => "in-sync"@,
        MergeStatus::SquashMerged | MergeStatus::LocalSquashMerged | MergeStatus::RemoteSquashMerged => "squash-merged"@,
        MergeStatus::LikelySquashMerged => "likely squash-merged"@,
        MergeStatus::CherryPicked | MergeStatus::LocalCherryPicked | MergeStatus::RemoteCherryPicked => "cherry-picked"@,
        MergeStatus::Unmerged => "unmerged"@,
        MergeStatus::Pending => "pending"@,
    }
}

pub fn status_label(s: MergeStatus) -> (r: &'static str)
    ensures
        r@ == status_word(s),
{
    match s {
        MergeStatus::Merged | MergeStatus::LocalMerged | MergeStatus::RemoteMerged => "merged",
        MergeStatus::InSync => "in-sync",
        MergeStatus::SquashMerged | MergeStatus::LocalSquashMerged | MergeStatus::RemoteSquashMerged => "squash-merged",
        MergeStatus::LikelySquashMerged => "likely squash-merged",
        MergeStatus::CherryPicked | MergeStatus::LocalCherryPicked | MergeStatus::RemoteCherryPicked => "cherry-picked",
        MergeStatus::Unmerged => "unmerged",
        MergeStatus::Pending => "pending",
    }
}

/// A merge base as shown: its first eight characters, or `disconnected`.
pub open spec fn short_oid_text(o: Option<Seq<char>>) -> Seq<char> {
    match o {
        Some(x) => if x.len() <= 8 { x } else { x.subrange(0, 8) },
        None => "disconnected"@,
    }
}

pub fn short_oid(oid: Option<&str>) -> (r: String)
    ensures
        r@ == short_oid_text(match oid { Some(x) => Some(x@), None => None }),
{
    match oid {
        Some(o) => {
            let v = chars_of(o);
            let n = if v.len() <= 8 { v.len() } else { 8 };
            let r = slice_string(&v, 0, n);
            proof {
                if v@.len() <= 8 {
                    assert(v@.subrange(0, n as int) =~= v@);
                }
            }
            r
        },
        None => to_owned_string("disconnected"),
    }
}

/// Counts as shown: `<ahead>↑ <behind>↓`.
pub open spec fn counts_text(a: u32, b: u32) -> Seq<char> {
    decimal(a as nat) + "\u{2191} "@ + decimal(b as nat) + "\u{2193}"@
}

fn counts_string(a: u32, b: u32) -> (r: String)
    ensures
        r@ == counts_text(a, b),
{
    let sa = decimal_string(a);
    let sb = decimal_string(b);
    concat4(sa.as_str(), "\u{2191} ", sb.as_str(), "\u{2193}")
}

/// The audit's merge-status verdict from squash checks against the local
/// and the remote base.
pub fn squash_audit_status(local: bool, remote: bool) -> (r: MergeStatus)
    ensures
        r == if local && remote {
            MergeStatus::SquashMerged
        } else if remote {
            MergeStatus::RemoteSquashMerged
        } else if local {
            MergeStatus::LocalSquashMerged
        } else {
            MergeStatus::Unmerged
        },
{
    if local && remote {
        MergeStatus::SquashMerged
    } else if remote {
        MergeStatus::RemoteSquashMerged
    } else if local {
        MergeStatus::LocalSquashMerged
    } else {
        MergeStatus::Unmerged
    }
}

/// The audit's lists and other tallies stay as they were.
pub open spec fn only_status_changed(a: CacheAudit, b: CacheAudit) -> bool {
    &&& b.ahead_behind == a.ahead_behind
    &&& b.merge_base == a.merge_base
    &&& b.orphans == a.orphans
}

/// Why a branch without a cached status was not checked.
pub open spec fn skip_reason(name: Seq<char>, base: Seq<char>, current: Seq<char>) -> Seq<char> {
    if name == base { "base branch"@ } else if name == current { "current branch"@ } else { "no cached status"@ }
}

/// Compares the repository's merge status `truth` for branch `name` at
/// `commit_hash` with what the cache serves, and tallies the outcome.
pub fn record_merge_status(
    cache: &mut BranchCache,
    base_branch: &str,
    current_branch: &str,
    name: &str,
    commit_hash: &str,
    truth: MergeStatus,
    audit: &mut CacheAudit,
)
    requires
        old(cache).wf(),
        old(cache).hit_count() < u32::MAX,
        old(cache).miss_count() < u32::MAX,
        old(audit).merge_status.verified < usize::MAX,
        old(audit).merge_status.mismatched < usize::MAX,
        old(audit).merge_status.skipped < usize::MAX,
    ensures
        final(cache).wf(),
        final(cache).statuses() == old(cache).statuses(),
        final(cache).hit_count() <= old(cache).hit_count() + 1,
        final(cache).miss_count() <= old(cache).miss_count() + 1,
        only_status_changed(*old(audit), *final(audit)),
        match lookup_answer(map_get(old(cache).statuses(), name@), commit_hash@) {
            Some(cached) => if cached == truth {
                &&& final(audit).merge_status == (CheckTally { verified: (old(audit).merge_status.verified + 1) as usize, ..old(audit).merge_status })
                &&& final(audit).discrepancies == old(audit).discrepancies
            } else {
                &&& final(audit).merge_status == (CheckTally { mismatched: (old(audit).merge_status.mismatched + 1) as usize, ..old(audit).merge_status })
                &&& final(audit).discrepancies@.len() == old(audit).discrepancies@.len() + 1
                &&& final(audit).discrepancies@.drop_last() == old(audit).discrepancies@
                &&& ({
                    let d = final(audit).discrepancies@.last();
                    &&& d.branch@ == name@
                    &&& d.kind == DiagKind::MergeStatus
                    &&& d.cached@ == status_word(cached)
                    &&& d.actual@ == status_word(truth)
                    &&& d.fix matches CacheFix::Status { commit_hash: h, status } && h@ == commit_hash@ && status == truth
                })
            },
            None => {
                &&& final(audit).discrepancies == old(audit).discrepancies
                &&& final(audit).merge_status.verified == old(audit).merge_status.verified
                &&& final(audit).merge_status.mismatched == old(audit).merge_status.mismatched
                &&& final(audit).merge_status.skipped == old(audit).merge_status.skipped + 1
                &&& final(audit).merge_status.skip_reasons@.len() == old(audit).merge_status.skip_reasons@.len() + 1
                &&& final(audit).merge_status.skip_reasons@.drop_last() == old(audit).merge_status.skip_reasons@
                &&& final(audit).merge_status.skip_reasons@.last()@ == skip_reason(name@, base_branch@, current_branch@)
            },
        },
{
    match cache.lookup(name, commit_hash) {
        Some(cached) => {
            if cached == truth {
                audit.merge_status.verified = audit.merge_status.verified + 1;
            } else {
                audit.merge_status.mismatched = audit.merge_status.mismatched + 1;
                let d = Discrepancy {
                    branch: to_owned_string(name),
                    kind: DiagKind::MergeStatus,
                    cached: to_owned_string(status_label(cached)),
                    actual: to_owned_string(status_label(truth)),
                    fix: CacheFix::Status { commit_hash: to_owned_string(commit_hash), status: truth },
                };
                audit.discrepancies.push(d);
                proof {
                    assert(audit.discrepancies@.drop_last() =~= old(audit).discrepancies@);
                }
            }
        },
        None => {
            let reason = if str_eq(name, base_branch) {
                "base branch"
            } else if str_eq(name, current_branch) {
                "current branch"
            } else {
                "no cached status"
            };
            audit.merge_status.skipped = audit.merge_status.skipped + 1;
            audit.merge_status.skip_reasons.push(to_owned_string(reason));
            proof {
                assert(audit.merge_status.skip_reasons@.drop_last() =~= old(audit).merge_status.skip_reasons@);
            }
        },
    }
}

/// Compares cached ahead/behind counts with the repository's and tallies.
pub fn record_ahead_behind(
    name: &str,
    branch_oid: &str,
    upstream_oid: &str,
    cached: (u32, u32),
    truth: (u32, u32),
    audit: &mut CacheAudit,
)
    requires
        old(audit).ahead_behind.verified < usize::MAX,
        old(audit).ahead_behind.mismatched < usize::MAX,
    ensures
        final(audit).merge_status == old(audit).merge_status,
        final(audit).merge_base == old(audit).merge_base,
        final(audit).orphans == old(audit).orphans,
        if cached == truth {
            &&& final(audit).ahead_behind == (CheckTally { verified: (old(audit).ahead_behind.verified + 1) as usize, ..old(audit).ahead_behind })
            &&& final(audit).discrepancies == old(audit).discrepancies
        } else {
            &&& final(audit).ahead_behind == (CheckTally { mismatched: (old(audit).ahead_behind.mismatched + 1) as usize, ..old(audit).ahead_behind })
            &&& final(audit).discrepancies@.len() == old(audit).discrepancies@.len() + 1
            &&& final(audit).discrepancies@.drop_last() == old(audit).discrepancies@
            &&& ({
                let d = final(audit).discrepancies@.last();
                &&& d.branch@ == name@
                &&& d.kind == DiagKind::AheadBehind
                &&& d.cached@ == counts_text(cached.0, cached.1)
                &&& d.actual@ == counts_text(truth.0, truth.1)
                &&& d.fix matches CacheFix::AheadBehind { branch_oid: b, upstream_oid: u, ahead, behind }
                    && b@ == branch_oid@ && u@ == upstream_oid@ && ahead == truth.0 && behind == truth.1
            })
        },
{
    if cached.0 == truth.0 && cached.1 == truth.1 {
        audit.ahead_behind.verified = audit.ahead_behind.verified + 1;
    } else {
        audit.ahead_behind.mismatched = audit.ahead_behind.mismatched + 1;
        let d = Discrepancy {
            branch: to_owned_string(name),
            kind: DiagKind::AheadBehind,
            cached: counts_string(cached.0, cached.1),
            actual: counts_string(truth.0, truth.1),
            fix: CacheFix::AheadBehind {
                branch_oid: to_owned_string(branch_oid),
                upstream_oid: to_owned_string(upstream_oid),
                ahead: truth.0,
                behind: truth.1,
            },
        };
        audit.discrepancies.push(d);
        proof {
            assert(audit.discrepancies@.drop_last() =~= old(audit).discrepancies@);
        }
    }
}

/// Compares a cached merge base with the repository's and tallies.
pub fn record_merge_base(
    name: &str,
    branch_tip: &str,
    base_tip: &str,
    cached: Option<String>,
    truth: Option<String>,
    audit: &mut CacheAudit,
)
    requires
        old(audit).merge_base.verified < usize::MAX,
        old(audit).merge_base.mismatched < usize::MAX,
    ensures
        final(audit).merge_status == old(audit).merge_status,
        final(audit).ahead_behind == old(audit).ahead_behind,
        final(audit).orphans == old(audit).orphans,
        if opt_view(cached) == opt_view(truth) {
            &&& final(audit).merge_base == (CheckTally { verified: (old(audit).merge_base.verified + 1) as usize, ..old(audit).merge_base })
            &&& final(audit).discrepancies == old(audit).discrepancies
        } else {
            &&& final(audit).merge_base == (CheckTally { mismatched: (old(audit).merge_base.mismatched + 1) as usize, ..old(audit).merge_base })
            &&& final(audit).discrepancies@.len() == old(audit).discrepancies@.len() + 1
            &&& final(audit).discrepancies@.drop_last() == old(audit).discrepancies@
            &&& ({
                let d = final(audit).discrepancies@.last();
                &&& d.branch@ == name@
                &&& d.kind == DiagKind::MergeBase
                &&& d.cached@ == short_oid_text(opt_view(cached))
                &&& d.actual@ == short_oid_text(opt_view(truth))
                &&& d.fix matches CacheFix::MergeBase { branch_tip: t, base_tip: b, merge_base: m }
                    && t@ == branch_tip@ && b@ == base_tip@ && opt_view(m) == opt_view(truth)
            })
        },
{
    let same = match (&cached, &truth) {
        (Some(a), Some(b)) => str_eq(a.as_str(), b.as_str()),
        (None, None) => true,
        _ => false,
    };
    if same {
        audit.merge_base.verified = audit.merge_base.verified + 1;
    } else {
        audit.merge_base.mismatched = audit.merge_base.mismatched + 1;
        let cached_text = match &cached { Some(c) => short_oid(Some(c.as_str())), None => short_oid(None) };
        let actual_text = match &truth { Some(c) => short_oid(Some(c.as_str())), None => short_oid(None) };
        let d = Discrepancy {
            branch: to_owned_string(name),
            kind: DiagKind::MergeBase,
            cached: cached_text,
            actual: actual_text,
            fix: CacheFix::MergeBase { branch_tip: to_owned_string(branch_tip), base_tip: to_owned_string(base_tip), merge_base: truth },
        };
        audit.discrepancies.push(d);
        proof {
            assert(audit.discrepancies@.drop_last() =~= old(audit).discrepancies@);
        }
    }
}

/// What one audit pass reads once: the base branch, HEAD's short name, the
/// commits the base reaches, and the base's tip.
pub struct AuditContext {
    pub base_branch: String,
    pub current_branch: String,
    pub reachable: BaseReachable,
    pub base_oid: Option<git2::Oid>,
}

/// The context of an audit of `repo` against `base_branch`.
pub fn audit_context(repo: &git2::Repository, base_branch: &str) -> (c: AuditContext)
    ensures
        c.reachable.wf(),
        c.base_branch@ == base_branch@,
{
    let current_branch = match crate::repo::repo_head(repo) {
        Ok(h) => match crate::repo::reference_shorthand(&h) {
            Ok(s) => s,
            Err(_) => String::new(),
        },
        Err(_) => String::new(),
    };
    let base_oid = match find_branch(repo, base_branch, false) {
        Ok(b) => reference_target(branch_reference(&b)),
        Err(_) => None,
    };
    AuditContext {
        base_branch: to_owned_string(base_branch),
        current_branch,
        reachable: crate::merges::build_reachable_set_from_repo(repo, base_branch),
        base_oid,
    }
}

/// The names of all remote-tracking branches that can be read.
pub fn remote_branch_names(repo: &git2::Repository) -> (r: KeySet)
    ensures
        r.wf(),
{
    let mut out = KeySet::new();
    let mut iter = match branch_iter(repo, true) {
        Ok(it) => it,
        Err(_) => return out,
    };
    let mut budget: usize = usize::MAX;
    while budget > 0
        invariant
            out.wf(),
        decreases budget,
    {
        budget = budget - 1;
        match next_branch(&mut iter) {
            None => break,
            Some(Err(_)) => {},
            Some(Ok(b)) => {
                if let Ok(Some(name)) = branch_name(&b) {
                    out.insert(name);
                }
            },
        }
    }
    out
}

/// Checks the cached ahead/behind counts of branch `name` against its
/// upstream, where the branch tracks one and the cache has counts for it.
pub fn verify_ahead_behind(repo: &git2::Repository, cache: &BranchCache, name: &str, audit: &mut CacheAudit)
    requires
        cache.wf(),
        old(audit).ahead_behind.verified < usize::MAX,
        old(audit).ahead_behind.mismatched < usize::MAX,
    ensures
        final(audit).merge_status == old(audit).merge_status,
        final(audit).merge_base == old(audit).merge_base,
        final(audit).orphans == old(audit).orphans,
        final(audit).ahead_behind.verified <= old(audit).ahead_behind.verified + 1,
        final(audit).ahead_behind.mismatched <= old(audit).ahead_behind.mismatched + 1,
{
    let local = match find_branch(repo, name, false) {
        Ok(b) => b,
        Err(_) => return,
    };
    let upstream = match branch_upstream(&local) {
        Ok(u) => u,
        Err(_) => return,
    };
    let branch_oid = match peel_to_commit(branch_reference(&local)) {
        Ok(c) => commit_id(&c),
        Err(_) => return,
    };
    let upstream_oid = match peel_to_commit(branch_reference(&upstream)) {
        Ok(c) => commit_id(&c),
        Err(_) => return,
    };
    let b_hex = oid_hex(&branch_oid);
    let u_hex = oid_hex(&upstream_oid);
    let cached = match cache.lookup_ahead_behind(b_hex.as_str(), u_hex.as_str()) {
        Some(c) => c,
        None => return,
    };
    let truth = match graph_ahead_behind(repo, branch_oid, upstream_oid) {
        Ok((a, b)) => (a as u32, b as u32),
        Err(_) => return,
    };
    record_ahead_behind(name, b_hex.as_str(), u_hex.as_str(), cached, truth, audit);
}

/// Checks the cached merge base of branch `name` at `tip` with the base tip,
/// recomputed the way the cache was filled, where the cache has one.
pub fn verify_merge_base(cache: &BranchCache, repo: &git2::Repository, ctx: &AuditContext, name: &str, tip: git2::Oid, base_oid: git2::Oid, audit: &mut CacheAudit)
    requires
        cache.wf(),
        ctx.reachable.wf(),
        old(audit).merge_base.verified < usize::MAX,
        old(audit).merge_base.mismatched < usize::MAX,
    ensures
        final(audit).merge_status == old(audit).merge_status,
        final(audit).ahead_behind == old(audit).ahead_behind,
        final(audit).orphans == old(audit).orphans,
        final(audit).merge_base.verified <= old(audit).merge_base.verified + 1,
        final(audit).merge_base.mismatched <= old(audit).merge_base.mismatched + 1,
{
    let t_hex = oid_hex(&tip);
    let b_hex = oid_hex(&base_oid);
    let cached = match cache.lookup_merge_base(t_hex.as_str(), b_hex.as_str()) {
        Some(c) => c,
        None => return,
    };
    let truth = merge_base_short(repo, tip, &ctx.reachable.local);
    record_merge_base(name, t_hex.as_str(), b_hex.as_str(), cached, truth, audit);
}

/// A branch whose merge status needs the squash checks.
pub struct SquashCandidate {
    pub name: String,
    pub tip: git2::Oid,
    /// Its merge base with the base branch, in full, where known.
    pub merge_base: Option<String>,
}

/// The tallies of an audit have room for one more branch.
pub open spec fn room_for_one(a: CacheAudit) -> bool {
    &&& a.merge_status.verified < usize::MAX
    &&& a.merge_status.mismatched < usize::MAX
    &&& a.merge_status.skipped < usize::MAX
    &&& a.ahead_behind.verified < usize::MAX
    &&& a.ahead_behind.mismatched < usize::MAX
    &&& a.merge_base.verified < usize::MAX
    &&& a.merge_base.mismatched < usize::MAX
}

/// Audits local branch `name` at `tip`: its ahead/behind counts, its merge
/// base, and its merge status where a regular merge settles it; otherwise it
/// is handed back for the squash checks.
pub fn audit_branch(
    repo: &git2::Repository,
    cache: &mut BranchCache,
    ctx: &AuditContext,
    name: &str,
    tip: git2::Oid,
    audit: &mut CacheAudit,
) -> (r: Option<SquashCandidate>)
    requires
        old(cache).wf(),
        ctx.reachable.wf(),
        old(cache).hit_count() < u32::MAX,
        old(cache).miss_count() < u32::MAX,
        room_for_one(*old(audit)),
    ensures
        final(cache).wf(),
        final(cache).statuses() == old(cache).statuses(),
        final(audit).orphans == old(audit).orphans,
        r matches Some(c) ==> c.name@ == name@ && c.tip == tip,
        r is Some ==> final(audit).merge_status == old(audit).merge_status,
        r is None ==> final(audit).merge_status.verified + final(audit).merge_status.mismatched
            + final(audit).merge_status.skipped == old(audit).merge_status.verified
            + old(audit).merge_status.mismatched + old(audit).merge_status.skipped + 1,
{
    verify_ahead_behind(repo, cache, name, audit);
    if let Some(base) = ctx.base_oid {
        verify_merge_base(cache, repo, ctx, name, tip, base, audit);
    }
    let tip_hex = oid_hex(&tip);
    match ctx.reachable.regular_merge_status(tip_hex.as_str()) {
        Some(status) => {
            record_merge_status(cache, ctx.base_branch.as_str(), ctx.current_branch.as_str(), name, tip_hex.as_str(), status, audit);
            None
        },
        None => {
            let mb = match ctx.base_oid {
                Some(b) => match merge_base(repo, tip, b) {
                    Ok(o) => Some(oid_hex(&o)),
                    Err(_) => None,
                },
                None => None,
            };
            Some(SquashCandidate { name: to_owned_string(name), tip, merge_base: mb })
        },
    }
}

/// Cached names that are neither a live local nor a live remote branch.
pub open spec fn is_orphan(name: Seq<char>, live_local: Set<Seq<char>>, live_remote: Set<Seq<char>>) -> bool {
    !live_local.contains(name) && !live_remote.contains(name)
}

/// Some string of `v` reads `k`.
pub open spec fn in_names(v: Seq<String>, k: Seq<char>) -> bool {
    exists|q: int| 0 <= q < v.len() && v[q]@ == k
}

pub proof fn lemma_in_names_push(v: Seq<String>, x: String)
    ensures
        forall|k: Seq<char>| #[trigger] in_names(v.push(x), k) <==> (in_names(v, k) || k == x@),
{
    assert forall|k: Seq<char>| #[trigger] in_names(v.push(x), k) <==> (in_names(v, k) || k == x@) by {
        if in_names(v.push(x), k) {
            let q = choose|q: int| 0 <= q < v.push(x).len() && v.push(x)[q]@ == k;
            if q < v.len() {
                assert(v[q] == v.push(x)[q]);
            }
        }
        if in_names(v, k) {
            let q = choose|q: int| 0 <= q < v.len() && v[q]@ == k;
            assert(v.push(x)[q] == v[q]);
        }
        if k == x@ {
            assert(v.push(x)[v.len() as int] == x);
        }
    }
}

pub proof fn lemma_in_names_same_multiset(a: Seq<String>, b: Seq<String>)
    requires
        a.to_multiset() == b.to_multiset(),
    ensures
        forall|k: Seq<char>| #[trigger] in_names(a, k) <==> in_names(b, k),
{
    broadcast use vstd::seq_lib::group_to_multiset_ensures;
    assert forall|k: Seq<char>| #[trigger] in_names(a, k) implies in_names(b, k) by {
        let q = choose|q: int| 0 <= q < a.len() && a[q]@ == k;
        assert(a.contains(a[q]));
        assert(a.to_multiset().count(a[q]) > 0);
        assert(b.contains(a[q]));
    }
    assert forall|k: Seq<char>| #[trigger] in_names(b, k) implies in_names(a, k) by {
        let q = choose|q: int| 0 <= q < b.len() && b[q]@ == k;
        assert(b.contains(b[q]));
        assert(b.to_multiset().count(b[q]) > 0);
        assert(a.contains(b[q]));
    }
}

/// Finds the cached merge-status rows whose branch no longer exists, and
/// adds them to the audit's orphans, which come out sorted.
pub fn collect_orphans(cache: &BranchCache, live_local: &KeySet, live_remote: &KeySet, audit: &mut CacheAudit)
    requires
        cache.wf(),
    ensures
        final(audit).merge_status == old(audit).merge_status,
        final(audit).ahead_behind == old(audit).ahead_behind,
        final(audit).merge_base == old(audit).merge_base,
        final(audit).discrepancies == old(audit).discrepancies,
        forall|k: Seq<char>| #[trigger] in_names(final(audit).orphans@, k)
            <==> (in_names(old(audit).orphans@, k)
                || (cache.statuses().contains_key(k) && is_orphan(k, live_local.view(), live_remote.view()))),
        forall|i: int, j: int| 0 <= i < j < final(audit).orphans@.len()
            ==> !crate::labels::str_less(final(audit).orphans@[j]@, final(audit).orphans@[i]@),
{
    let names = cache.cached_branch_names();
    let mut found: Vec<String> = Vec::new();
    std::mem::swap(&mut found, &mut audit.orphans);
    let ghost old_orphans = found@;
    let mut i: usize = 0;
    while i < names.len()
        invariant
            i <= names.len(),
            forall|k: Seq<char>| #[trigger] in_names(found@, k)
                <==> (in_names(old_orphans, k)
                    || (in_names(names@.subrange(0, i as int), k) && is_orphan(k, live_local.view(), live_remote.view()))),
        decreases names.len() - i,
    {
        let n = &names[i];
        proof {
            assert(names@.subrange(0, i + 1) =~= names@.subrange(0, i as int).push(names@[i as int]));
            lemma_in_names_push(names@.subrange(0, i as int), names@[i as int]);
        }
        if !live_local.contains(n.as_str()) && !live_remote.contains(n.as_str()) {
            let ghost f0 = found@;
            let x = n.clone();
            found.push(x);
            proof {
                lemma_in_names_push(f0, x);
            }
        }
        i = i + 1;
    }
    let ghost unsorted = found@;
    sort_strings(&mut found);
    proof {
        lemma_in_names_same_multiset(unsorted, found@);
        assert(names@.subrange(0, names@.len() as int) =~= names@);
        assert forall|k: Seq<char>| #[trigger] in_names(names@, k) <==> cache.statuses().contains_key(k) by {}
        assert forall|k: Seq<char>| #[trigger] in_names(found@, k)
            <==> (in_names(old_orphans, k)
                || (cache.statuses().contains_key(k) && is_orphan(k, live_local.view(), live_remote.view()))) by {
            assert(in_names(found@, k) == in_names(unsorted, k));
            assert(in_names(names@.subrange(0, names@.len() as int), k) == in_names(names@, k));
        }
    }
    audit.orphans = found;
}

/// Records the squash-check verdicts `results` (branch, tip, status) and the
/// orphan rows. A cancelled audit records no verdicts.
pub fn finish_audit(
    cache: &mut BranchCache,
    ctx: &AuditContext,
    audit: &mut CacheAudit,
    results: &Vec<(String, String, MergeStatus)>,
    cancelled: bool,
    live_local: &KeySet,
    live_remote: &KeySet,
)
    requires
        old(cache).wf(),
        old(cache).hit_count() + results@.len() < u32::MAX,
        old(cache).miss_count() + results@.len() < u32::MAX,
        old(audit).merge_status.verified + results@.len() < usize::MAX,
        old(audit).merge_status.mismatched + results@.len() < usize::MAX,
        old(audit).merge_status.skipped + results@.len() < usize::MAX,
    ensures
        final(cache).wf(),
        final(cache).statuses() == old(cache).statuses(),
        final(audit).ahead_behind == old(audit).ahead_behind,
        final(audit).merge_base == old(audit).merge_base,
        cancelled ==> final(audit).merge_status == old(audit).merge_status,
        forall|i: int, j: int| 0 <= i < j < final(audit).orphans@.len()
            ==> !crate::labels::str_less(final(audit).orphans@[j]@, final(audit).orphans@[i]@),
{
    if !cancelled {
        let mut i: usize = 0;
        while i < results.len()
            invariant
                i <= results.len(),
                cache.wf(),
                cache.statuses() == old(cache).statuses(),
                cache.hit_count() <= old(cache).hit_count() + i,
                cache.miss_count() <= old(cache).miss_count() + i,
                old(cache).hit_count() + results@.len() < u32::MAX,
                old(cache).miss_count() + results@.len() < u32::MAX,
                audit.merge_status.verified <= old(audit).merge_status.verified + i,
                audit.merge_status.mismatched <= old(audit).merge_status.mismatched + i,
                audit.merge_status.skipped <= old(audit).merge_status.skipped + i,
                old(audit).merge_status.verified + results@.len() < usize::MAX,
                old(audit).merge_status.mismatched + results@.len() < usize::MAX,
                old(audit).merge_status.skipped + results@.len() < usize::MAX,
                audit.ahead_behind == old(audit).ahead_behind,
                audit.merge_base == old(audit).merge_base,
            decreases results.len() - i,
        {
            let (name, tip, status) = (&results[i].0, &results[i].1, results[i].2);
            record_merge_status(cache, ctx.base_branch.as_str(), ctx.current_branch.as_str(), name.as_str(), tip.as_str(), status, audit);
            i = i + 1;
        }
    }
    collect_orphans(cache, live_local, live_remote, audit);
}

/// Writes the audit's corrections into the cache: each discrepant value is
/// replaced by the repository's (ids that do not parse are skipped) and each
/// orphan row removed. Saving is the caller's.
pub fn apply_fix(cache: &mut BranchCache, audit: &CacheAudit)
    requires
        old(cache).wf(),
    ensures
        final(cache).wf(),
        forall|i: int| 0 <= i < audit.orphans@.len() ==> !final(cache).statuses().contains_key(#[trigger] audit.orphans@[i]@),
{
    let mut i: usize = 0;
    while i < audit.discrepancies.len()
        invariant
            cache.wf(),
            i <= audit.discrepancies.len(),
        decreases audit.discrepancies.len() - i,
    {
        let d = &audit.discrepancies[i];
        match &d.fix {
            CacheFix::Status { commit_hash, status } => {
                cache.insert(d.branch.as_str(), status, commit_hash.as_str());
            },
            CacheFix::AheadBehind { branch_oid, upstream_oid, ahead, behind } => {
                if oid_from_str(branch_oid.as_str()).is_ok() && oid_from_str(upstream_oid.as_str()).is_ok() {
                    cache.insert_ahead_behind(branch_oid.as_str(), upstream_oid.as_str(), *ahead, *behind);
                }
            },
            CacheFix::MergeBase { branch_tip, base_tip, merge_base } => {
                if oid_from_str(branch_tip.as_str()).is_ok() && oid_from_str(base_tip.as_str()).is_ok() {
                    let m = match merge_base { Some(x) => Some(x.clone()), None => None };
                    cache.insert_merge_base(branch_tip.as_str(), base_tip.as_str(), m);
                }
            },
        }
        i = i + 1;
    }
    let mut j: usize = 0;
    while j < audit.orphans.len()
        invariant
            cache.wf(),
            j <= audit.orphans.len(),
            forall|k: int| 0 <= k < j ==> !cache.statuses().contains_key(#[trigger] audit.orphans@[k]@),
        decreases audit.orphans.len() - j,
    {
        cache.delete_branch_entry(audit.orphans[j].as_str());
        j = j + 1;
    }
}

} // verus!
