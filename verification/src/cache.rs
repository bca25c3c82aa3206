//! In-memory side of the per-repository branch cache: merge statuses keyed by
//! branch name, ahead/behind counts and merge bases keyed by commit pairs,
//! and Graph patch results keyed by commit pair and diff version. The rows
//! come from, and go back to, an on-disk store that the caller owns.

use vstd::prelude::*;
use crate::types::MergeStatus;
use crate::keyed::{KeyedList, KeySet, fold_rows, map_get};
use crate::operations::{joined, join_path};
use crate::text::{hex, hex_string_u64, str_eq, to_owned_string, concat2, concat3, concat4, decimal, decimal_string};

verus! {

/// A cached merge status as stored: the status name and the branch tip it
/// was computed for.
#[derive(Debug)]
pub struct CacheEntry {
    pub merge_status: String,
    pub commit_hash: String,
}

/// A cached Graph patch computation; both parts absent records an empty or
/// failed diff, which is still a hit.
#[derive(Debug)]
pub struct GraphPatchEntry {
    pub patch_id: Option<String>,
    pub diff_text: Option<Vec<u8>>,
}

/// Merge bases keyed by "{branch_tip}:{base_tip}" (`None` for disconnected
/// branches) and the last base tip seen.
pub struct MergeBaseData {
    pub base_tip: Option<String>,
    pub entries: KeyedList<Option<String>>,
}

/// Raw rows as read from the store, in store order.
pub struct CacheRows {
    /// (branch name, status name, commit hash)
    pub entries: Vec<(String, String, String)>,
    /// (key, ahead, behind)
    pub ahead_behind: Vec<(String, u32, u32)>,
    /// (key, merge base)
    pub merge_bases: Vec<(String, Option<String>)>,
    pub base_tip: Option<String>,
    /// (key, patch id, diff text)
    pub graph_patches: Vec<(String, Option<String>, Option<Vec<u8>>)>,
}

/// What a save must write: the changed rows, the rows to delete, and the
/// base tip when it was set explicitly.
pub struct CacheWriteBatch {
    pub entries: Vec<(String, String, String)>,
    pub ahead_behind: Vec<(String, u32, u32)>,
    pub merge_bases: Vec<(String, Option<String>)>,
    pub graph_patches: Vec<(String, Option<String>, Option<Vec<u8>>)>,
    pub deleted_entries: Vec<String>,
    pub base_tip: Option<String>,
}

/// Cache for a single repository.
pub struct BranchCache {
    path: String,
    entries: KeyedList<CacheEntry>,
    ab_entries: KeyedList<(u32, u32)>,
    pub mb_data: MergeBaseData,
    graph_patch_entries: KeyedList<GraphPatchEntry>,
    dirty_entries: KeySet,
    dirty_ab: KeySet,
    dirty_mb: KeySet,
    dirty_graph_patch: KeySet,
    deleted_entries: KeySet,
    base_tip_dirty: bool,
    hits: u32,
    misses: u32,
}

/// The stored name of a status; `None` for statuses that are never cached.
pub open spec fn status_text(s: MergeStatus) -> Option<Seq<char>> {
    match s {
        MergeStatus::Merged => Some("merged"@),
        MergeStatus::InSync => Some("in_sync"@),
        MergeStatus::SquashMerged => Some("squash_merged"@),
        MergeStatus::LocalMerged => Some("local_merged"@),
        MergeStatus::RemoteMerged => Some("remote_merged"@),
        MergeStatus::LocalSquashMerged => Some("local_squash_merged"@),
        MergeStatus::RemoteSquashMerged => Some("remote_squash_merged"@),
        MergeStatus::Unmerged => Some("unmerged"@),
        _ => None,
    }
}

/// The status a stored name denotes, if it is one of the stored names.
pub open spec fn status_from_text(t: Seq<char>) -> Option<MergeStatus> {
    if t == "merged"@ { Some(MergeStatus::Merged) }
    else if t == "in_sync"@ { Some(MergeStatus::InSync) }
    else if t == "squash_merged"@ { Some(MergeStatus::SquashMerged) }
    else if t == "local_merged"@ { Some(MergeStatus::LocalMerged) }
    else if t == "remote_merged"@ { Some(MergeStatus::RemoteMerged) }
    else if t == "local_squash_merged"@ { Some(MergeStatus::LocalSquashMerged) }
    else if t == "remote_squash_merged"@ { Some(MergeStatus::RemoteSquashMerged) }
    else if t == "unmerged"@ { Some(MergeStatus::Unmerged) }
    else { None }
}

/// Merged and squash-merged are permanent: they stay valid when the branch
/// tip moves. Every other cached status is tied to the tip it was computed
/// for.
pub open spec fn is_permanent(s: MergeStatus) -> bool {
    s == MergeStatus::Merged || s == MergeStatus::SquashMerged
}

/// What a lookup answers for a stored entry and the branch's current tip.
pub open spec fn lookup_answer(e: Option<CacheEntry>, current: Seq<char>) -> Option<MergeStatus> {
    match e {
        None => None,
        Some(e) => match status_from_text(e.merge_status@) {
            None => None,
            Some(st) => if is_permanent(st) || e.commit_hash@ == current { Some(st) } else { None },
        },
    }
}

/// "{a}:{b}": the key of a commit pair.
pub open spec fn pair_key(a: Seq<char>, b: Seq<char>) -> Seq<char> {
    a + seq![':'] + b
}

/// "{old}:{new}:v{version}": the key of a Graph patch result.
pub open spec fn patch_key(old: Seq<char>, new: Seq<char>, version: nat) -> Seq<char> {
    pair_key(old, new) + seq![':', 'v'] + decimal(version)
}

pub open spec fn entry_rows(rows: Seq<(String, String, String)>) -> Seq<(Seq<char>, CacheEntry)> {
    rows.map_values(|r: (String, String, String)| (r.0@, CacheEntry { merge_status: r.1, commit_hash: r.2 }))
}

pub open spec fn ab_rows(rows: Seq<(String, u32, u32)>) -> Seq<(Seq<char>, (u32, u32))> {
    rows.map_values(|r: (String, u32, u32)| (r.0@, (r.1, r.2)))
}

pub open spec fn mb_rows(rows: Seq<(String, Option<String>)>) -> Seq<(Seq<char>, Option<String>)> {
    rows.map_values(|r: (String, Option<String>)| (r.0@, r.1))
}

pub open spec fn patch_rows(rows: Seq<(String, Option<String>, Option<Vec<u8>>)>) -> Seq<(Seq<char>, (Option<Seq<char>>, Option<Seq<u8>>))> {
    rows.map_values(|r: (String, Option<String>, Option<Vec<u8>>)| (r.0@, (opt_view(r.1), opt_bytes(r.2))))
}

/// A patch entry by its views: (patch id, diff bytes).
pub open spec fn patch_view(e: GraphPatchEntry) -> (Option<Seq<char>>, Option<Seq<u8>>) {
    (opt_view(e.patch_id), opt_bytes(e.diff_text))
}

pub open spec fn opt_view(s: Option<String>) -> Option<Seq<char>> {
    match s {
        Some(s) => Some(s@),
        None => None,
    }
}

pub open spec fn opt_bytes(b: Option<Vec<u8>>) -> Option<Seq<u8>> {
    match b {
        Some(b) => Some(b@),
        None => None,
    }
}

fn status_str(s: MergeStatus) -> (r: Option<&'static str>)
    ensures
        match r {
            Some(t) => status_text(s) == Some(t@),
            None => status_text(s) is None,
        },
{
    match s {
        MergeStatus::Merged => Some("merged"),
        MergeStatus::InSync => Some("in_sync"),
        MergeStatus::SquashMerged => Some("squash_merged"),
        MergeStatus::LocalMerged => Some("local_merged"),
        MergeStatus::RemoteMerged => Some("remote_merged"),
        MergeStatus::LocalSquashMerged => Some("local_squash_merged"),
        MergeStatus::RemoteSquashMerged => Some("remote_squash_merged"),
        MergeStatus::Unmerged => Some("unmerged"),
        _ => None,
    }
}

fn parse_status(t: &str) -> (r: Option<MergeStatus>)
    ensures
        r == status_from_text(t@),
{
    if str_eq(t, "merged") { Some(MergeStatus::Merged) }
    else if str_eq(t, "in_sync") { Some(MergeStatus::InSync) }
    else if str_eq(t, "squash_merged") { Some(MergeStatus::SquashMerged) }
    else if str_eq(t, "local_merged") { Some(MergeStatus::LocalMerged) }
    else if str_eq(t, "remote_merged") { Some(MergeStatus::RemoteMerged) }
    else if str_eq(t, "local_squash_merged") { Some(MergeStatus::LocalSquashMerged) }
    else if str_eq(t, "remote_squash_merged") { Some(MergeStatus::RemoteSquashMerged) }
    else if str_eq(t, "unmerged") { Some(MergeStatus::Unmerged) }
    else { None }
}

/// Every cached status reads back as itself.
pub proof fn lemma_status_text_round_trip(s: MergeStatus)
    requires
        status_text(s) is Some,
    ensures
        status_from_text(status_text(s).unwrap()) == Some(s),
{
    reveal_strlit("merged");
    reveal_strlit("in_sync");
    reveal_strlit("squash_merged");
    reveal_strlit("local_merged");
    reveal_strlit("remote_merged");
    reveal_strlit("local_squash_merged");
    reveal_strlit("remote_squash_merged");
    reveal_strlit("unmerged");
    assert("merged"@.len() == 6);
    assert("in_sync"@.len() == 7);
    assert("squash_merged"@.len() == 13);
    assert("local_merged"@.len() == 12);
    assert("remote_merged"@.len() == 13);
    assert("local_squash_merged"@.len() == 19);
    assert("remote_squash_merged"@.len() == 20);
    assert("unmerged"@.len() == 8);
    assert("squash_merged"@[0] != "remote_merged"@[0]);
}

/// "{a}:{b}".
pub fn make_pair_key(a: &str, b: &str) -> (k: String)
    ensures
        k@ == pair_key(a@, b@),
{
    proof {
        reveal_strlit(":");
    }
    concat3(a, ":", b)
}

/// "{old}:{new}:v{version}".
pub fn make_patch_key(old: &str, new: &str, version: u32) -> (k: String)
    ensures
        k@ == patch_key(old@, new@, version as nat),
{
    proof {
        reveal_strlit(":");
        reveal_strlit(":v");
    }
    let v = decimal_string(version);
    let k = concat4(old, ":", new, ":v");
    let k2 = concat2(k.as_str(), v.as_str());
    assert(k2@ =~= patch_key(old@, new@, version as nat));
    k2
}

fn clone_opt_string(s: &Option<String>) -> (r: Option<String>)
    ensures
        opt_view(r) == opt_view(*s),
{
    match s {
        Some(s) => Some(s.clone()),
        None => None,
    }
}

fn clone_opt_bytes(b: &Option<Vec<u8>>) -> (r: Option<Vec<u8>>)
    ensures
        opt_bytes(r) == opt_bytes(*b),
{
    match b {
        Some(b) => {
            let c = b.clone();
            assert(c@ =~= b@);
            Some(c)
        }
        None => None,
    }
}

/// The store of the repository whose path hashes to `hash`:
/// `git-bm-cache-<hash in lowercase hex>.sqlite3` in the application's
/// directory `git-branch-manager` under the cache root.
pub open spec fn cache_file(cache_root: Seq<char>, hash: nat) -> Seq<char> {
    joined(joined(cache_root, "git-branch-manager"@), "git-bm-cache-"@ + hex(hash) + ".sqlite3"@)
}

/// Where the cache of the repository whose path hashes to `repo_hash` is
/// stored, under the user's cache directory `cache_root`.
pub fn cache_file_path(cache_root: &str, repo_hash: u64) -> (p: String)
    ensures
        p@ == cache_file(cache_root@, repo_hash as nat),
{
    let dir = join_path(cache_root, "git-branch-manager");
    let h = hex_string_u64(repo_hash);
    let name = concat3("git-bm-cache-", h.as_str(), ".sqlite3");
    join_path(dir.as_str(), name.as_str())
}

impl BranchCache {
    pub closed spec fn wf(&self) -> bool {
        &&& self.entries.wf()
        &&& self.ab_entries.wf()
        &&& self.mb_data.entries.wf()
        &&& self.graph_patch_entries.wf()
        &&& self.dirty_entries.wf()
        &&& self.dirty_ab.wf()
        &&& self.dirty_mb.wf()
        &&& self.dirty_graph_patch.wf()
        &&& self.deleted_entries.wf()
    }

    /// Merge-status entries by branch name.
    pub closed spec fn statuses(&self) -> Map<Seq<char>, CacheEntry> {
        self.entries.view()
    }

    /// Ahead/behind counts by commit-pair key.
    pub closed spec fn ahead_behind(&self) -> Map<Seq<char>, (u32, u32)> {
        self.ab_entries.view()
    }

    /// Merge bases by commit-pair key.
    pub closed spec fn merge_bases(&self) -> Map<Seq<char>, Option<String>> {
        self.mb_data.entries.view()
    }

    /// Graph patch results by patch key.
    pub closed spec fn graph_patches(&self) -> Map<Seq<char>, (Option<Seq<char>>, Option<Seq<u8>>)> {
        self.graph_patch_entries.view().map_values(|e: GraphPatchEntry| patch_view(e))
    }

    /// The last base tip seen.
    pub closed spec fn base_tip(&self) -> Option<String> {
        self.mb_data.base_tip
    }

    pub closed spec fn hit_count(&self) -> nat {
        self.hits as nat
    }

    pub closed spec fn miss_count(&self) -> nat {
        self.misses as nat
    }

    /// Keys changed since the last save, per table, and branch names whose
    /// rows must be deleted.
    pub closed spec fn dirty_statuses(&self) -> Set<Seq<char>> {
        self.dirty_entries.view()
    }

    pub closed spec fn dirty_ahead_behind(&self) -> Set<Seq<char>> {
        self.dirty_ab.view()
    }

    pub closed spec fn dirty_merge_bases(&self) -> Set<Seq<char>> {
        self.dirty_mb.view()
    }

    pub closed spec fn dirty_graph_patches(&self) -> Set<Seq<char>> {
        self.dirty_graph_patch.view()
    }

    pub closed spec fn pending_deletes(&self) -> Set<Seq<char>> {
        self.deleted_entries.view()
    }

    pub closed spec fn base_tip_pending(&self) -> bool {
        self.base_tip_dirty
    }

    pub closed spec fn store_path(&self) -> Seq<char> {
        self.path@
    }

    /// Builds the cache of the repository whose path hashes to `repo_hash`,
    /// from the rows read at [`cache_file_path`]`(cache_root, repo_hash)`.
    pub fn load(cache_root: &str, repo_hash: u64, rows: CacheRows) -> (c: Self)
        ensures
            c.wf(),
            c.store_path() == cache_file(cache_root@, repo_hash as nat),
            c.statuses() == fold_rows(entry_rows(rows.entries@)),
            c.ahead_behind() == fold_rows(ab_rows(rows.ahead_behind@)),
            c.merge_bases() == fold_rows(mb_rows(rows.merge_bases@)),
            c.base_tip() == rows.base_tip,
            c.graph_patches() == fold_rows(patch_rows(rows.graph_patches@)),
            c.dirty_statuses().is_empty(),
            c.dirty_ahead_behind().is_empty(),
            c.dirty_merge_bases().is_empty(),
            c.dirty_graph_patches().is_empty(),
            c.pending_deletes().is_empty(),
            !c.base_tip_pending(),
            c.hit_count() == 0,
            c.miss_count() == 0,
    {
        Self::load_from_path(cache_file_path(cache_root, repo_hash), rows)
    }

    /// Builds the cache for the store at `path` from the rows read there.
    /// Nothing is pending and both counters start at zero.
    pub fn load_from_path(path: String, rows: CacheRows) -> (c: Self)
        ensures
            c.wf(),
            c.store_path() == path@,
            c.statuses() == fold_rows(entry_rows(rows.entries@)),
            c.ahead_behind() == fold_rows(ab_rows(rows.ahead_behind@)),
            c.merge_bases() == fold_rows(mb_rows(rows.merge_bases@)),
            c.base_tip() == rows.base_tip,
            c.graph_patches() == fold_rows(patch_rows(rows.graph_patches@)),
            c.dirty_statuses().is_empty(),
            c.dirty_ahead_behind().is_empty(),
            c.dirty_merge_bases().is_empty(),
            c.dirty_graph_patches().is_empty(),
            c.pending_deletes().is_empty(),
            !c.base_tip_pending(),
            c.hit_count() == 0,
            c.miss_count() == 0,
    {
        let CacheRows { entries: entry_in, ahead_behind: ab_in, merge_bases: mb_in, base_tip, graph_patches: gp_in } = rows;
        let mut entries: KeyedList<CacheEntry> = KeyedList::new();
        let mut i: usize = 0;
        while i < entry_in.len()
            invariant
                i <= entry_in.len(),
                entries.wf(),
                entries.view() == fold_rows(entry_rows(entry_in@.subrange(0, i as int))),
            decreases entry_in.len() - i,
        {
            let (n, s, h) = &entry_in[i];
            entries.set(n.clone(), CacheEntry { merge_status: s.clone(), commit_hash: h.clone() });
            proof {
                assert(entry_rows(entry_in@.subrange(0, i + 1)).drop_last() =~= entry_rows(entry_in@.subrange(0, i as int)));
            }
            i = i + 1;
        }
        assert(entry_in@.subrange(0, entry_in.len() as int) =~= entry_in@);
        let mut ab: KeyedList<(u32, u32)> = KeyedList::new();
        let mut i: usize = 0;
        while i < ab_in.len()
            invariant
                i <= ab_in.len(),
                ab.wf(),
                ab.view() == fold_rows(ab_rows(ab_in@.subrange(0, i as int))),
            decreases ab_in.len() - i,
        {
            let (k, a, b) = &ab_in[i];
            ab.set(k.clone(), (*a, *b));
            proof {
                assert(ab_rows(ab_in@.subrange(0, i + 1)).drop_last() =~= ab_rows(ab_in@.subrange(0, i as int)));
            }
            i = i + 1;
        }
        assert(ab_in@.subrange(0, ab_in.len() as int) =~= ab_in@);
        let mut mb: KeyedList<Option<String>> = KeyedList::new();
        let mut i: usize = 0;
        while i < mb_in.len()
            invariant
                i <= mb_in.len(),
                mb.wf(),
                mb.view() == fold_rows(mb_rows(mb_in@.subrange(0, i as int))),
            decreases mb_in.len() - i,
        {
            let (k, m) = &mb_in[i];
            let mc = match m {
                Some(s) => Some(s.clone()),
                None => None,
            };
            mb.set(k.clone(), mc);
            proof {
                assert(mb_rows(mb_in@.subrange(0, i + 1)).drop_last() =~= mb_rows(mb_in@.subrange(0, i as int)));
            }
            i = i + 1;
        }
        assert(mb_in@.subrange(0, mb_in.len() as int) =~= mb_in@);
        let mut gp: KeyedList<GraphPatchEntry> = KeyedList::new();
        let mut i: usize = 0;
        while i < gp_in.len()
            invariant
                i <= gp_in.len(),
                gp.wf(),
                gp.view().map_values(|e: GraphPatchEntry| patch_view(e)) == fold_rows(patch_rows(gp_in@.subrange(0, i as int))),
            decreases gp_in.len() - i,
        {
            let (k, p, d) = &gp_in[i];
            let pc = match p {
                Some(s) => Some(s.clone()),
                None => None,
            };
            let dc = match d {
                Some(b) => {
                    let c = b.clone();
                    assert(c@ =~= b@);
                    Some(c)
                }
                None => None,
            };
            let ghost before = gp.view();
            let entry = GraphPatchEntry { patch_id: pc, diff_text: dc };
            let ghost ev = patch_view(entry);
            let key = k.clone();
            let ghost kv = key@;
            gp.set(key, entry);
            proof {
                assert(gp.view().map_values(|e: GraphPatchEntry| patch_view(e))
                    =~= before.map_values(|e: GraphPatchEntry| patch_view(e)).insert(kv, ev));
                assert(patch_rows(gp_in@.subrange(0, i + 1)).drop_last() =~= patch_rows(gp_in@.subrange(0, i as int)));
            }
            i = i + 1;
        }
        assert(gp_in@.subrange(0, gp_in.len() as int) =~= gp_in@);
        BranchCache {
            path,
            entries,
            ab_entries: ab,
            mb_data: MergeBaseData { base_tip, entries: mb },
            graph_patch_entries: gp,
            dirty_entries: KeySet::new(),
            dirty_ab: KeySet::new(),
            dirty_mb: KeySet::new(),
            dirty_graph_patch: KeySet::new(),
            deleted_entries: KeySet::new(),
            base_tip_dirty: false,
            hits: 0,
            misses: 0,
        }
    }
}


impl BranchCache {
    /// Sets the base tip and marks it for writing. Only the holder that
    /// computed the base tip calls this, so other holders never overwrite
    /// a fresher value on save.
    pub fn set_base_tip(&mut self, base_tip: Option<String>)
        requires
            old(self).wf(),
        ensures
            final(self).wf(),
            final(self).base_tip() == base_tip,
            final(self).base_tip_pending(),
            final(self).statuses() == old(self).statuses(),
            final(self).ahead_behind() == old(self).ahead_behind(),
            final(self).merge_bases() == old(self).merge_bases(),
            final(self).graph_patches() == old(self).graph_patches(),
            final(self).dirty_statuses() == old(self).dirty_statuses(),
            final(self).dirty_ahead_behind() == old(self).dirty_ahead_behind(),
            final(self).dirty_merge_bases() == old(self).dirty_merge_bases(),
            final(self).dirty_graph_patches() == old(self).dirty_graph_patches(),
            final(self).pending_deletes() == old(self).pending_deletes(),
            final(self).hit_count() == old(self).hit_count(),
            final(self).miss_count() == old(self).miss_count(),
    {
        self.mb_data.base_tip = base_tip;
        self.base_tip_dirty = true;
    }

    /// The cached merge base of (branch tip, base tip): `None` is a miss,
    /// `Some(None)` a pair cached as disconnected, `Some(Some(h))` a merge
    /// base.
    pub fn lookup_merge_base(&self, branch_tip: &str, base_tip: &str) -> (r: Option<Option<String>>)
        requires
            self.wf(),
        ensures
            match map_get(self.merge_bases(), pair_key(branch_tip@, base_tip@)) {
                None => r is None,
                Some(m) => r matches Some(x) && opt_view(x) == opt_view(m),
            },
    {
        let key = make_pair_key(branch_tip, base_tip);
        match self.mb_data.entries.get(key.as_str()) {
            Some(m) => Some(clone_opt_string(m)),
            None => None,
        }
    }

    pub fn insert_merge_base(&mut self, branch_tip: &str, base_tip: &str, merge_base: Option<String>)
        requires
            old(self).wf(),
        ensures
            final(self).wf(),
            final(self).merge_bases() == old(self).merge_bases().insert(pair_key(branch_tip@, base_tip@), merge_base),
            final(self).dirty_merge_bases() == old(self).dirty_merge_bases().insert(pair_key(branch_tip@, base_tip@)),
            final(self).statuses() == old(self).statuses(),
            final(self).ahead_behind() == old(self).ahead_behind(),
            final(self).graph_patches() == old(self).graph_patches(),
            final(self).base_tip() == old(self).base_tip(),
            final(self).base_tip_pending() == old(self).base_tip_pending(),
            final(self).dirty_statuses() == old(self).dirty_statuses(),
            final(self).dirty_ahead_behind() == old(self).dirty_ahead_behind(),
            final(self).dirty_graph_patches() == old(self).dirty_graph_patches(),
            final(self).pending_deletes() == old(self).pending_deletes(),
            final(self).hit_count() == old(self).hit_count(),
            final(self).miss_count() == old(self).miss_count(),
    {
        let key = make_pair_key(branch_tip, base_tip);
        self.mb_data.entries.set(key.clone(), merge_base);
        self.dirty_mb.insert(key);
    }

    /// The cached (patch id, diff text) for the diff from `old_oid` to
    /// `new_oid` under diff version `version`; `None` is a miss, and an
    /// empty or failed diff is the hit `Some((None, None))`.
    pub fn lookup_graph_patch(&self, old_oid: &str, new_oid: &str, version: u32)
        -> (r: Option<(Option<String>, Option<Vec<u8>>)>)
        requires
            self.wf(),
        ensures
            match map_get(self.graph_patches(), patch_key(old_oid@, new_oid@, version as nat)) {
                None => r is None,
                Some(e) => r matches Some(x) && (opt_view(x.0), opt_bytes(x.1)) == e,
            },
    {
        let key = make_patch_key(old_oid, new_oid, version);
        match self.graph_patch_entries.get(key.as_str()) {
            Some(e) => Some((clone_opt_string(&e.patch_id), clone_opt_bytes(&e.diff_text))),
            None => None,
        }
    }

    pub fn insert_graph_patch(
        &mut self,
        old_oid: &str,
        new_oid: &str,
        version: u32,
        patch_id: Option<String>,
        diff_text: Option<Vec<u8>>,
    )
        requires
            old(self).wf(),
        ensures
            final(self).wf(),
            final(self).graph_patches() == old(self).graph_patches().insert(
                patch_key(old_oid@, new_oid@, version as nat), (opt_view(patch_id), opt_bytes(diff_text))),
            final(self).dirty_graph_patches() == old(self).dirty_graph_patches().insert(
                patch_key(old_oid@, new_oid@, version as nat)),
            final(self).statuses() == old(self).statuses(),
            final(self).ahead_behind() == old(self).ahead_behind(),
            final(self).merge_bases() == old(self).merge_bases(),
            final(self).base_tip() == old(self).base_tip(),
            final(self).base_tip_pending() == old(self).base_tip_pending(),
            final(self).dirty_statuses() == old(self).dirty_statuses(),
            final(self).dirty_ahead_behind() == old(self).dirty_ahead_behind(),
            final(self).dirty_merge_bases() == old(self).dirty_merge_bases(),
            final(self).pending_deletes() == old(self).pending_deletes(),
            final(self).hit_count() == old(self).hit_count(),
            final(self).miss_count() == old(self).miss_count(),
    {
        let key = make_patch_key(old_oid, new_oid, version);
        let ghost before = self.graph_patch_entries.view();
        let entry = GraphPatchEntry { patch_id, diff_text };
        let ghost ev = patch_view(entry);
        self.graph_patch_entries.set(key.clone(), entry);
        proof {
            assert(self.graph_patch_entries.view().map_values(|e: GraphPatchEntry| patch_view(e))
                =~= before.map_values(|e: GraphPatchEntry| patch_view(e)).insert(key@, ev));
        }
        self.dirty_graph_patch.insert(key);
    }

    /// The cached (ahead, behind) of a branch tip against its upstream tip.
    pub fn lookup_ahead_behind(&self, branch_oid: &str, upstream_oid: &str) -> (r: Option<(u32, u32)>)
        requires
            self.wf(),
        ensures
            r == map_get(self.ahead_behind(), pair_key(branch_oid@, upstream_oid@)),
    {
        let key = make_pair_key(branch_oid, upstream_oid);
        match self.ab_entries.get(key.as_str()) {
            Some(ab) => Some(*ab),
            None => None,
        }
    }

    pub fn insert_ahead_behind(&mut self, branch_oid: &str, upstream_oid: &str, ahead: u32, behind: u32)
        requires
            old(self).wf(),
        ensures
            final(self).wf(),
            final(self).ahead_behind() == old(self).ahead_behind().insert(pair_key(branch_oid@, upstream_oid@), (ahead, behind)),
            final(self).dirty_ahead_behind() == old(self).dirty_ahead_behind().insert(pair_key(branch_oid@, upstream_oid@)),
            final(self).statuses() == old(self).statuses(),
            final(self).merge_bases() == old(self).merge_bases(),
            final(self).graph_patches() == old(self).graph_patches(),
            final(self).base_tip() == old(self).base_tip(),
            final(self).base_tip_pending() == old(self).base_tip_pending(),
            final(self).dirty_statuses() == old(self).dirty_statuses(),
            final(self).dirty_merge_bases() == old(self).dirty_merge_bases(),
            final(self).dirty_graph_patches() == old(self).dirty_graph_patches(),
            final(self).pending_deletes() == old(self).pending_deletes(),
            final(self).hit_count() == old(self).hit_count(),
            final(self).miss_count() == old(self).miss_count(),
    {
        let key = make_pair_key(branch_oid, upstream_oid);
        self.ab_entries.set(key.clone(), (ahead, behind));
        self.dirty_ab.insert(key);
    }

    /// The cached merge status of `branch_name` when its tip is
    /// `current_commit_hash`. Merged and squash-merged answers hold whatever
    /// the tip; other statuses only for the tip they were stored with.
    /// Counts one hit for an answer and one miss otherwise.
    pub fn lookup(&mut self, branch_name: &str, current_commit_hash: &str) -> (r: Option<MergeStatus>)
        requires
            old(self).wf(),
            old(self).hit_count() < u32::MAX,
            old(self).miss_count() < u32::MAX,
        ensures
            final(self).wf(),
            r == lookup_answer(map_get(old(self).statuses(), branch_name@), current_commit_hash@),
            final(self).hit_count() == old(self).hit_count() + (if r is Some { 1nat } else { 0nat }),
            final(self).miss_count() == old(self).miss_count() + (if r is None { 1nat } else { 0nat }),
            final(self).statuses() == old(self).statuses(),
            final(self).ahead_behind() == old(self).ahead_behind(),
            final(self).merge_bases() == old(self).merge_bases(),
            final(self).graph_patches() == old(self).graph_patches(),
            final(self).base_tip() == old(self).base_tip(),
            final(self).base_tip_pending() == old(self).base_tip_pending(),
            final(self).dirty_statuses() == old(self).dirty_statuses(),
            final(self).dirty_ahead_behind() == old(self).dirty_ahead_behind(),
            final(self).dirty_merge_bases() == old(self).dirty_merge_bases(),
            final(self).dirty_graph_patches() == old(self).dirty_graph_patches(),
            final(self).pending_deletes() == old(self).pending_deletes(),
    {
        let answer = match self.entries.get(branch_name) {
            None => None,
            Some(entry) => match parse_status(entry.merge_status.as_str()) {
                None => None,
                Some(status) => {
                    let permanent = status == MergeStatus::Merged || status == MergeStatus::SquashMerged;
                    if permanent || str_eq(entry.commit_hash.as_str(), current_commit_hash) {
                        Some(status)
                    } else {
                        None
                    }
                }
            },
        };
        if answer.is_some() {
            self.record_hit();
        } else {
            self.record_miss();
        }
        answer
    }

    fn record_hit(&mut self)
        requires
            old(self).hits < u32::MAX,
        ensures
            final(self).hits == old(self).hits + 1,
            final(self).misses == old(self).misses,
            final(self).path == old(self).path,
            final(self).entries == old(self).entries,
            final(self).ab_entries == old(self).ab_entries,
            final(self).mb_data == old(self).mb_data,
            final(self).graph_patch_entries == old(self).graph_patch_entries,
            final(self).dirty_entries == old(self).dirty_entries,
            final(self).dirty_ab == old(self).dirty_ab,
            final(self).dirty_mb == old(self).dirty_mb,
            final(self).dirty_graph_patch == old(self).dirty_graph_patch,
            final(self).deleted_entries == old(self).deleted_entries,
            final(self).base_tip_dirty == old(self).base_tip_dirty,
    {
        self.hits = self.hits + 1;
    }

    fn record_miss(&mut self)
        requires
            old(self).misses < u32::MAX,
        ensures
            final(self).misses == old(self).misses + 1,
            final(self).hits == old(self).hits,
            final(self).path == old(self).path,
            final(self).entries == old(self).entries,
            final(self).ab_entries == old(self).ab_entries,
            final(self).mb_data == old(self).mb_data,
            final(self).graph_patch_entries == old(self).graph_patch_entries,
            final(self).dirty_entries == old(self).dirty_entries,
            final(self).dirty_ab == old(self).dirty_ab,
            final(self).dirty_mb == old(self).dirty_mb,
            final(self).dirty_graph_patch == old(self).dirty_graph_patch,
            final(self).deleted_entries == old(self).deleted_entries,
            final(self).base_tip_dirty == old(self).base_tip_dirty,
    {
        self.misses = self.misses + 1;
    }

    pub fn hits(&self) -> (n: u32)
        ensures
            n as nat == self.hit_count(),
    {
        self.hits
    }

    pub fn misses(&self) -> (n: u32)
        ensures
            n as nat == self.miss_count(),
    {
        self.misses
    }

    /// Stores `status` for `branch_name` at tip `commit_hash` and marks the
    /// row for writing. Statuses without a stored name (pending and the
    /// heuristic ones) are never cached: the cache is left as it was.
    pub fn insert(&mut self, branch_name: &str, status: &MergeStatus, commit_hash: &str)
        requires
            old(self).wf(),
        ensures
            final(self).wf(),
            match status_text(*status) {
                None => final(self).statuses() == old(self).statuses()
                    && final(self).dirty_statuses() == old(self).dirty_statuses(),
                Some(t) => final(self).statuses().contains_key(branch_name@)
                    && final(self).statuses()[branch_name@].merge_status@ == t
                    && final(self).statuses()[branch_name@].commit_hash@ == commit_hash@
                    && final(self).statuses().remove(branch_name@) == old(self).statuses().remove(branch_name@)
                    && final(self).dirty_statuses() == old(self).dirty_statuses().insert(branch_name@),
            },
            final(self).ahead_behind() == old(self).ahead_behind(),
            final(self).merge_bases() == old(self).merge_bases(),
            final(self).graph_patches() == old(self).graph_patches(),
            final(self).base_tip() == old(self).base_tip(),
            final(self).base_tip_pending() == old(self).base_tip_pending(),
            final(self).dirty_ahead_behind() == old(self).dirty_ahead_behind(),
            final(self).dirty_merge_bases() == old(self).dirty_merge_bases(),
            final(self).dirty_graph_patches() == old(self).dirty_graph_patches(),
            final(self).pending_deletes() == old(self).pending_deletes(),
            final(self).hit_count() == old(self).hit_count(),
            final(self).miss_count() == old(self).miss_count(),
    {
        let Some(text) = status_str(*status) else {
            return;
        };
        let ghost before = self.entries.view();
        let entry = CacheEntry { merge_status: to_owned_string(text), commit_hash: to_owned_string(commit_hash) };
        self.entries.set(to_owned_string(branch_name), entry);
        proof {
            assert(self.entries.view().remove(branch_name@) =~= before.remove(branch_name@));
        }
        self.dirty_entries.insert(to_owned_string(branch_name));
    }

    /// Every branch name with a cached merge status.
    pub fn cached_branch_names(&self) -> (names: Vec<String>)
        requires
            self.wf(),
        ensures
            forall|k: Seq<char>| self.statuses().contains_key(k)
                <==> exists|i: int| 0 <= i < names.len() && names@[i]@ == k,
            forall|i: int, j: int| 0 <= i < names.len() && 0 <= j < names.len() && i != j
                ==> names@[i]@ != names@[j]@,
    {
        self.entries.keys()
    }

    /// Removes the merge status of `branch_name`; the row is deleted from the
    /// store on the next save.
    pub fn delete_branch_entry(&mut self, branch_name: &str)
        requires
            old(self).wf(),
        ensures
            final(self).wf(),
            final(self).statuses() == old(self).statuses().remove(branch_name@),
            final(self).dirty_statuses() == old(self).dirty_statuses().remove(branch_name@),
            final(self).pending_deletes() == old(self).pending_deletes().insert(branch_name@),
            final(self).ahead_behind() == old(self).ahead_behind(),
            final(self).merge_bases() == old(self).merge_bases(),
            final(self).graph_patches() == old(self).graph_patches(),
            final(self).base_tip() == old(self).base_tip(),
            final(self).base_tip_pending() == old(self).base_tip_pending(),
            final(self).dirty_ahead_behind() == old(self).dirty_ahead_behind(),
            final(self).dirty_merge_bases() == old(self).dirty_merge_bases(),
            final(self).dirty_graph_patches() == old(self).dirty_graph_patches(),
            final(self).hit_count() == old(self).hit_count(),
            final(self).miss_count() == old(self).miss_count(),
    {
        self.entries.remove(branch_name);
        self.dirty_entries.remove(branch_name);
        self.deleted_entries.insert(to_owned_string(branch_name));
    }

    /// Empties every table and forgets all pending writes; the caller
    /// removes the store itself.
    pub fn clear(&mut self)
        requires
            old(self).wf(),
        ensures
            final(self).wf(),
            final(self).statuses().is_empty(),
            final(self).ahead_behind().is_empty(),
            final(self).merge_bases().is_empty(),
            final(self).graph_patches().is_empty(),
            final(self).base_tip() is None,
            !final(self).base_tip_pending(),
            final(self).dirty_statuses().is_empty(),
            final(self).dirty_ahead_behind().is_empty(),
            final(self).dirty_merge_bases().is_empty(),
            final(self).dirty_graph_patches().is_empty(),
            final(self).pending_deletes().is_empty(),
            final(self).hit_count() == old(self).hit_count(),
            final(self).miss_count() == old(self).miss_count(),
            final(self).store_path() == old(self).store_path(),
    {
        self.entries = KeyedList::new();
        self.ab_entries = KeyedList::new();
        self.mb_data = MergeBaseData { base_tip: None, entries: KeyedList::new() };
        self.graph_patch_entries = KeyedList::new();
        proof {
            assert(self.graph_patches() =~= Map::empty());
        }
        self.dirty_entries.clear();
        self.dirty_ab.clear();
        self.dirty_mb.clear();
        self.dirty_graph_patch.clear();
        self.deleted_entries.clear();
        self.base_tip_dirty = false;
    }

    /// The path of the store this cache belongs to.
    pub fn path(&self) -> (p: &String)
        ensures
            p@ == self.store_path(),
    {
        &self.path
    }
}

/// The entries rows a save writes: each row is a dirty, present key with its
/// current value, and every dirty present key has a row.
pub open spec fn lists_dirty_entries(rows: Seq<(String, String, String)>, dirty: Set<Seq<char>>, m: Map<Seq<char>, CacheEntry>) -> bool {
    &&& forall|i: int| 0 <= i < rows.len() ==> dirty.contains(#[trigger] rows[i].0@)
        && m.contains_key(rows[i].0@) && { let row = rows[i]; let v = m[rows[i].0@]; row.1@ == v.merge_status@ && row.2@ == v.commit_hash@ }
    &&& forall|k: Seq<char>| dirty.contains(k) && m.contains_key(k)
        ==> exists|i: int| 0 <= i < rows.len() && #[trigger] rows[i].0@ == k
}

/// The ab rows a save writes: each row is a dirty, present key with its
/// current value, and every dirty present key has a row.
pub open spec fn lists_dirty_ab(rows: Seq<(String, u32, u32)>, dirty: Set<Seq<char>>, m: Map<Seq<char>, (u32, u32)>) -> bool {
    &&& forall|i: int| 0 <= i < rows.len() ==> dirty.contains(#[trigger] rows[i].0@)
        && m.contains_key(rows[i].0@) && { let row = rows[i]; let v = m[rows[i].0@]; (row.1, row.2) == v }
    &&& forall|k: Seq<char>| dirty.contains(k) && m.contains_key(k)
        ==> exists|i: int| 0 <= i < rows.len() && #[trigger] rows[i].0@ == k
}

/// The mb rows a save writes: each row is a dirty, present key with its
/// current value, and every dirty present key has a row.
pub open spec fn lists_dirty_mb(rows: Seq<(String, Option<String>)>, dirty: Set<Seq<char>>, m: Map<Seq<char>, Option<String>>) -> bool {
    &&& forall|i: int| 0 <= i < rows.len() ==> dirty.contains(#[trigger] rows[i].0@)
        && m.contains_key(rows[i].0@) && { let row = rows[i]; let v = m[rows[i].0@]; opt_view(row.1) == opt_view(v) }
    &&& forall|k: Seq<char>| dirty.contains(k) && m.contains_key(k)
        ==> exists|i: int| 0 <= i < rows.len() && #[trigger] rows[i].0@ == k
}

/// The gp rows a save writes: each row is a dirty, present key with its
/// current value, and every dirty present key has a row.
pub open spec fn lists_dirty_gp(rows: Seq<(String, Option<String>, Option<Vec<u8>>)>, dirty: Set<Seq<char>>, m: Map<Seq<char>, (Option<Seq<char>>, Option<Seq<u8>>)>) -> bool {
    &&& forall|i: int| 0 <= i < rows.len() ==> dirty.contains(#[trigger] rows[i].0@)
        && m.contains_key(rows[i].0@) && { let row = rows[i]; let v = m[rows[i].0@]; (opt_view(row.1), opt_bytes(row.2)) == v }
    &&& forall|k: Seq<char>| dirty.contains(k) && m.contains_key(k)
        ==> exists|i: int| 0 <= i < rows.len() && #[trigger] rows[i].0@ == k
}

impl BranchCache {
    fn pending_entries(&self) -> (rows: Vec<(String, String, String)>)
        requires
            self.wf(),
        ensures
            lists_dirty_entries(rows@, self.dirty_statuses(), self.statuses()),
    {
        let mut rows: Vec<(String, String, String)> = Vec::new();
        let mut i: usize = 0;
        while i < self.dirty_entries.items.len()
            invariant
                self.wf(),
                i <= self.dirty_entries.items.len(),
                forall|r: int| 0 <= r < rows@.len() ==>
                    (exists|j: int| 0 <= j < i && self.dirty_entries.items@[j]@ == #[trigger] rows@[r].0@)
                    && self.statuses().contains_key(rows@[r].0@)
                    && { let row = rows@[r]; let v = self.statuses()[rows@[r].0@]; row.1@ == v.merge_status@ && row.2@ == v.commit_hash@ },
                forall|j: int| 0 <= j < i && self.statuses().contains_key(#[trigger] self.dirty_entries.items@[j]@)
                    ==> exists|r: int| 0 <= r < rows@.len() && rows@[r].0@ == self.dirty_entries.items@[j]@,
            decreases self.dirty_entries.items.len() - i,
        {
            let key = &self.dirty_entries.items[i];
            let ghost prev = rows@;
            if let Some(v) = self.entries.get(key.as_str()) {
                rows.push((key.clone(), v.merge_status.clone(), v.commit_hash.clone()));
                proof {
                    assert(rows@[rows@.len() - 1].0@ == key@);
                }
            }
            proof {
                assert forall|r: int| 0 <= r < prev.len() implies #[trigger] rows@[r] == prev[r] by {}
                assert forall|j: int| 0 <= j < i + 1 && self.statuses().contains_key(#[trigger] self.dirty_entries.items@[j]@)
                    implies exists|r: int| 0 <= r < rows@.len() && rows@[r].0@ == self.dirty_entries.items@[j]@ by {
                    if j < i {
                        let r = choose|r: int| 0 <= r < prev.len() && prev[r].0@ == self.dirty_entries.items@[j]@;
                        assert(rows@[r] == prev[r]);
                    } else {
                        assert(rows@[rows@.len() - 1].0@ == key@);
                    }
                }
                assert forall|r: int| 0 <= r < rows@.len() implies
                    (exists|j: int| 0 <= j < i + 1 && self.dirty_entries.items@[j]@ == #[trigger] rows@[r].0@) by {
                    if r < prev.len() {
                        let j = choose|j: int| 0 <= j < i && self.dirty_entries.items@[j]@ == prev[r].0@;
                        assert(self.dirty_entries.items@[j]@ == rows@[r].0@);
                    } else {
                        assert(self.dirty_entries.items@[i as int]@ == rows@[r].0@);
                    }
                }
            }
            i = i + 1;
        }
        proof {
            assert forall|k: Seq<char>| self.dirty_statuses().contains(k) && self.statuses().contains_key(k)
                implies exists|r: int| 0 <= r < rows@.len() && #[trigger] rows@[r].0@ == k by {
                let j = choose|j: int| 0 <= j < self.dirty_entries.items.len() && self.dirty_entries.items@[j]@ == k;
                assert(self.statuses().contains_key(self.dirty_entries.items@[j]@));
            }
            assert forall|r: int| 0 <= r < rows@.len() implies self.dirty_statuses().contains(#[trigger] rows@[r].0@) by {
                let j = choose|j: int| 0 <= j < self.dirty_entries.items.len() && self.dirty_entries.items@[j]@ == rows@[r].0@;
            }
        }
        rows
    }

    fn pending_ab(&self) -> (rows: Vec<(String, u32, u32)>)
        requires
            self.wf(),
        ensures
            lists_dirty_ab(rows@, self.dirty_ahead_behind(), self.ahead_behind()),
    {
        let mut rows: Vec<(String, u32, u32)> = Vec::new();
        let mut i: usize = 0;
        while i < self.dirty_ab.items.len()
            invariant
                self.wf(),
                i <= self.dirty_ab.items.len(),
                forall|r: int| 0 <= r < rows@.len() ==>
                    (exists|j: int| 0 <= j < i && self.dirty_ab.items@[j]@ == #[trigger] rows@[r].0@)
                    && self.ahead_behind().contains_key(rows@[r].0@)
                    && { let row = rows@[r]; let v = self.ahead_behind()[rows@[r].0@]; (row.1, row.2) == v },
                forall|j: int| 0 <= j < i && self.ahead_behind().contains_key(#[trigger] self.dirty_ab.items@[j]@)
                    ==> exists|r: int| 0 <= r < rows@.len() && rows@[r].0@ == self.dirty_ab.items@[j]@,
            decreases self.dirty_ab.items.len() - i,
        {
            let key = &self.dirty_ab.items[i];
            let ghost prev = rows@;
            if let Some(v) = self.ab_entries.get(key.as_str()) {
                rows.push((key.clone(), v.0, v.1));
                proof {
                    assert(rows@[rows@.len() - 1].0@ == key@);
                }
            }
            proof {
                assert forall|r: int| 0 <= r < prev.len() implies #[trigger] rows@[r] == prev[r] by {}
                assert forall|j: int| 0 <= j < i + 1 && self.ahead_behind().contains_key(#[trigger] self.dirty_ab.items@[j]@)
                    implies exists|r: int| 0 <= r < rows@.len() && rows@[r].0@ == self.dirty_ab.items@[j]@ by {
                    if j < i {
                        let r = choose|r: int| 0 <= r < prev.len() && prev[r].0@ == self.dirty_ab.items@[j]@;
                        assert(rows@[r] == prev[r]);
                    } else {
                        assert(rows@[rows@.len() - 1].0@ == key@);
                    }
                }
                assert forall|r: int| 0 <= r < rows@.len() implies
                    (exists|j: int| 0 <= j < i + 1 && self.dirty_ab.items@[j]@ == #[trigger] rows@[r].0@) by {
                    if r < prev.len() {
                        let j = choose|j: int| 0 <= j < i && self.dirty_ab.items@[j]@ == prev[r].0@;
                        assert(self.dirty_ab.items@[j]@ == rows@[r].0@);
                    } else {
                        assert(self.dirty_ab.items@[i as int]@ == rows@[r].0@);
                    }
                }
            }
            i = i + 1;
        }
        proof {
            assert forall|k: Seq<char>| self.dirty_ahead_behind().contains(k) && self.ahead_behind().contains_key(k)
                implies exists|r: int| 0 <= r < rows@.len() && #[trigger] rows@[r].0@ == k by {
                let j = choose|j: int| 0 <= j < self.dirty_ab.items.len() && self.dirty_ab.items@[j]@ == k;
                assert(self.ahead_behind().contains_key(self.dirty_ab.items@[j]@));
            }
            assert forall|r: int| 0 <= r < rows@.len() implies self.dirty_ahead_behind().contains(#[trigger] rows@[r].0@) by {
                let j = choose|j: int| 0 <= j < self.dirty_ab.items.len() && self.dirty_ab.items@[j]@ == rows@[r].0@;
            }
        }
        rows
    }

    fn pending_mb(&self) -> (rows: Vec<(String, Option<String>)>)
        requires
            self.wf(),
        ensures
            lists_dirty_mb(rows@, self.dirty_merge_bases(), self.merge_bases()),
    {
        let mut rows: Vec<(String, Option<String>)> = Vec::new();
        let mut i: usize = 0;
        while i < self.dirty_mb.items.len()
            invariant
                self.wf(),
                i <= self.dirty_mb.items.len(),
                forall|r: int| 0 <= r < rows@.len() ==>
                    (exists|j: int| 0 <= j < i && self.dirty_mb.items@[j]@ == #[trigger] rows@[r].0@)
                    && self.merge_bases().contains_key(rows@[r].0@)
                    && { let row = rows@[r]; let v = self.merge_bases()[rows@[r].0@]; opt_view(row.1) == opt_view(v) },
                forall|j: int| 0 <= j < i && self.merge_bases().contains_key(#[trigger] self.dirty_mb.items@[j]@)
                    ==> exists|r: int| 0 <= r < rows@.len() && rows@[r].0@ == self.dirty_mb.items@[j]@,
            decreases self.dirty_mb.items.len() - i,
        {
            let key = &self.dirty_mb.items[i];
            let ghost prev = rows@;
            if let Some(v) = self.mb_data.entries.get(key.as_str()) {
                rows.push((key.clone(), clone_opt_string(v)));
                proof {
                    assert(rows@[rows@.len() - 1].0@ == key@);
                }
            }
            proof {
                assert forall|r: int| 0 <= r < prev.len() implies #[trigger] rows@[r] == prev[r] by {}
                assert forall|j: int| 0 <= j < i + 1 && self.merge_bases().contains_key(#[trigger] self.dirty_mb.items@[j]@)
                    implies exists|r: int| 0 <= r < rows@.len() && rows@[r].0@ == self.dirty_mb.items@[j]@ by {
                    if j < i {
                        let r = choose|r: int| 0 <= r < prev.len() && prev[r].0@ == self.dirty_mb.items@[j]@;
                        assert(rows@[r] == prev[r]);
                    } else {
                        assert(rows@[rows@.len() - 1].0@ == key@);
                    }
                }
                assert forall|r: int| 0 <= r < rows@.len() implies
                    (exists|j: int| 0 <= j < i + 1 && self.dirty_mb.items@[j]@ == #[trigger] rows@[r].0@) by {
                    if r < prev.len() {
                        let j = choose|j: int| 0 <= j < i && self.dirty_mb.items@[j]@ == prev[r].0@;
                        assert(self.dirty_mb.items@[j]@ == rows@[r].0@);
                    } else {
                        assert(self.dirty_mb.items@[i as int]@ == rows@[r].0@);
                    }
                }
            }
            i = i + 1;
        }
        proof {
            assert forall|k: Seq<char>| self.dirty_merge_bases().contains(k) && self.merge_bases().contains_key(k)
                implies exists|r: int| 0 <= r < rows@.len() && #[trigger] rows@[r].0@ == k by {
                let j = choose|j: int| 0 <= j < self.dirty_mb.items.len() && self.dirty_mb.items@[j]@ == k;
                assert(self.merge_bases().contains_key(self.dirty_mb.items@[j]@));
            }
            assert forall|r: int| 0 <= r < rows@.len() implies self.dirty_merge_bases().contains(#[trigger] rows@[r].0@) by {
                let j = choose|j: int| 0 <= j < self.dirty_mb.items.len() && self.dirty_mb.items@[j]@ == rows@[r].0@;
            }
        }
        rows
    }

    fn pending_gp(&self) -> (rows: Vec<(String, Option<String>, Option<Vec<u8>>)>)
        requires
            self.wf(),
        ensures
            lists_dirty_gp(rows@, self.dirty_graph_patches(), self.graph_patches()),
    {
        let mut rows: Vec<(String, Option<String>, Option<Vec<u8>>)> = Vec::new();
        let mut i: usize = 0;
        while i < self.dirty_graph_patch.items.len()
            invariant
                self.wf(),
                i <= self.dirty_graph_patch.items.len(),
                forall|r: int| 0 <= r < rows@.len() ==>
                    (exists|j: int| 0 <= j < i && self.dirty_graph_patch.items@[j]@ == #[trigger] rows@[r].0@)
                    && self.graph_patches().contains_key(rows@[r].0@)
                    && { let row = rows@[r]; let v = self.graph_patches()[rows@[r].0@]; (opt_view(row.1), opt_bytes(row.2)) == v },
                forall|j: int| 0 <= j < i && self.graph_patches().contains_key(#[trigger] self.dirty_graph_patch.items@[j]@)
                    ==> exists|r: int| 0 <= r < rows@.len() && rows@[r].0@ == self.dirty_graph_patch.items@[j]@,
            decreases self.dirty_graph_patch.items.len() - i,
        {
            let key = &self.dirty_graph_patch.items[i];
            let ghost prev = rows@;
            if let Some(v) = self.graph_patch_entries.get(key.as_str()) {
                rows.push((key.clone(), clone_opt_string(&v.patch_id), clone_opt_bytes(&v.diff_text)));
                proof {
                    assert(rows@[rows@.len() - 1].0@ == key@);
                }
            }
            proof {
                assert forall|r: int| 0 <= r < prev.len() implies #[trigger] rows@[r] == prev[r] by {}
                assert forall|j: int| 0 <= j < i + 1 && self.graph_patches().contains_key(#[trigger] self.dirty_graph_patch.items@[j]@)
                    implies exists|r: int| 0 <= r < rows@.len() && rows@[r].0@ == self.dirty_graph_patch.items@[j]@ by {
                    if j < i {
                        let r = choose|r: int| 0 <= r < prev.len() && prev[r].0@ == self.dirty_graph_patch.items@[j]@;
                        assert(rows@[r] == prev[r]);
                    } else {
                        assert(rows@[rows@.len() - 1].0@ == key@);
                    }
                }
                assert forall|r: int| 0 <= r < rows@.len() implies
                    (exists|j: int| 0 <= j < i + 1 && self.dirty_graph_patch.items@[j]@ == #[trigger] rows@[r].0@) by {
                    if r < prev.len() {
                        let j = choose|j: int| 0 <= j < i && self.dirty_graph_patch.items@[j]@ == prev[r].0@;
                        assert(self.dirty_graph_patch.items@[j]@ == rows@[r].0@);
                    } else {
                        assert(self.dirty_graph_patch.items@[i as int]@ == rows@[r].0@);
                    }
                }
            }
            i = i + 1;
        }
        proof {
            assert forall|k: Seq<char>| self.dirty_graph_patches().contains(k) && self.graph_patches().contains_key(k)
                implies exists|r: int| 0 <= r < rows@.len() && #[trigger] rows@[r].0@ == k by {
                let j = choose|j: int| 0 <= j < self.dirty_graph_patch.items.len() && self.dirty_graph_patch.items@[j]@ == k;
                assert(self.graph_patches().contains_key(self.dirty_graph_patch.items@[j]@));
            }
            assert forall|r: int| 0 <= r < rows@.len() implies self.dirty_graph_patches().contains(#[trigger] rows@[r].0@) by {
                let j = choose|j: int| 0 <= j < self.dirty_graph_patch.items.len() && self.dirty_graph_patch.items@[j]@ == rows@[r].0@;
            }
        }
        rows
    }

    /// The writes a save must make, or `None` when nothing changed since
    /// the last save.
    pub fn pending_save(&self) -> (r: Option<CacheWriteBatch>)
        requires
            self.wf(),
        ensures
            r is None <==> (self.dirty_statuses().is_empty() && self.dirty_ahead_behind().is_empty()
                && self.dirty_merge_bases().is_empty() && self.dirty_graph_patches().is_empty()
                && self.pending_deletes().is_empty() && !self.base_tip_pending()),
            r matches Some(b) ==> {
                &&& lists_dirty_entries(b.entries@, self.dirty_statuses(), self.statuses())
                &&& lists_dirty_ab(b.ahead_behind@, self.dirty_ahead_behind(), self.ahead_behind())
                &&& lists_dirty_mb(b.merge_bases@, self.dirty_merge_bases(), self.merge_bases())
                &&& lists_dirty_gp(b.graph_patches@, self.dirty_graph_patches(), self.graph_patches())
                &&& forall|k: Seq<char>| self.pending_deletes().contains(k)
                    <==> exists|i: int| 0 <= i < b.deleted_entries.len() && b.deleted_entries@[i]@ == k
                &&& b.base_tip == (if self.base_tip_pending() { self.base_tip() } else { None })
            },
    {
        let e_empty = self.dirty_entries.is_empty();
        let a_empty = self.dirty_ab.is_empty();
        let m_empty = self.dirty_mb.is_empty();
        let g_empty = self.dirty_graph_patch.is_empty();
        let d_empty = self.deleted_entries.is_empty();
        if e_empty && a_empty && m_empty && g_empty && d_empty && !self.base_tip_dirty {
            return None;
        }
        let entries = self.pending_entries();
        let ab = self.pending_ab();
        let mb = self.pending_mb();
        let gp = self.pending_gp();
        let mut deleted: Vec<String> = Vec::new();
        let mut i: usize = 0;
        while i < self.deleted_entries.items.len()
            invariant
                i <= self.deleted_entries.items.len(),
                deleted.len() == i,
                forall|j: int| 0 <= j < i ==> deleted@[j]@ == self.deleted_entries.items@[j]@,
            decreases self.deleted_entries.items.len() - i,
        {
            deleted.push(self.deleted_entries.items[i].clone());
            i = i + 1;
        }
        proof {
            assert forall|k: Seq<char>| self.pending_deletes().contains(k)
                <==> exists|j: int| 0 <= j < deleted.len() && deleted@[j]@ == k by {
                if self.pending_deletes().contains(k) {
                    assert(self.deleted_entries.view().contains(k));
                    let j = choose|j: int| 0 <= j < self.deleted_entries.items.len() && self.deleted_entries.items@[j]@ == k;
                    assert(0 <= j < deleted.len() && deleted@[j]@ == k);
                }
                if exists|j: int| 0 <= j < deleted.len() && deleted@[j]@ == k {
                    let j = choose|j: int| 0 <= j < deleted.len() && deleted@[j]@ == k;
                    assert(self.deleted_entries.items@[j]@ == k);
                }
            }
            assert(forall|k: Seq<char>| self.pending_deletes().contains(k)
                <==> exists|j: int| 0 <= j < deleted.len() && deleted@[j]@ == k);
        }
        let base_tip = if self.base_tip_dirty {
            match &self.mb_data.base_tip {
                Some(t) => Some(t.clone()),
                None => None,
            }
        } else {
            None
        };
        let ghost deleted_view = deleted@;
        let batch = CacheWriteBatch {
            entries,
            ahead_behind: ab,
            merge_bases: mb,
            graph_patches: gp,
            deleted_entries: deleted,
            base_tip,
        };
        assert(batch.deleted_entries@ == deleted_view);
        Some(batch)
    }

    /// Records that a save committed: nothing is pending any more.
    pub fn mark_saved(&mut self)
        requires
            old(self).wf(),
        ensures
            final(self).wf(),
            final(self).dirty_statuses().is_empty(),
            final(self).dirty_ahead_behind().is_empty(),
            final(self).dirty_merge_bases().is_empty(),
            final(self).dirty_graph_patches().is_empty(),
            final(self).pending_deletes().is_empty(),
            !final(self).base_tip_pending(),
            final(self).statuses() == old(self).statuses(),
            final(self).ahead_behind() == old(self).ahead_behind(),
            final(self).merge_bases() == old(self).merge_bases(),
            final(self).graph_patches() == old(self).graph_patches(),
            final(self).base_tip() == old(self).base_tip(),
            final(self).hit_count() == old(self).hit_count(),
            final(self).miss_count() == old(self).miss_count(),
            final(self).store_path() == old(self).store_path(),
    {
        self.dirty_entries.clear();
        self.dirty_ab.clear();
        self.dirty_mb.clear();
        self.dirty_graph_patch.clear();
        self.deleted_entries.clear();
        self.base_tip_dirty = false;
    }
}

/// What a lookup answers right after storing a status: the status itself
/// for the same tip; for another tip, the status if it is permanent and a
/// miss otherwise.
pub proof fn lemma_lookup_after_insert(
    before: BranchCache,
    after: BranchCache,
    name: Seq<char>,
    status: MergeStatus,
    stored_hash: Seq<char>,
    current_hash: Seq<char>,
)
    requires
        status_text(status) is Some,
        after.statuses().contains_key(name),
        after.statuses()[name].merge_status@ == status_text(status).unwrap(),
        after.statuses()[name].commit_hash@ == stored_hash,
    ensures
        lookup_answer(map_get(after.statuses(), name), current_hash)
            == (if is_permanent(status) || stored_hash == current_hash { Some(status) } else { None }),
{
    lemma_status_text_round_trip(status);
}

/// A deleted entry is a miss for every tip.
pub proof fn lemma_lookup_after_delete(after: BranchCache, name: Seq<char>, current_hash: Seq<char>)
    requires
        !after.statuses().contains_key(name),
    ensures
        lookup_answer(map_get(after.statuses(), name), current_hash) is None,
{
}

/// Patch results under different diff versions never share a key, so a
/// version bump misses every older result.
pub proof fn lemma_patch_versions_isolated(old_oid: Seq<char>, new_oid: Seq<char>, v1: nat, v2: nat)
    requires
        v1 != v2,
    ensures
        patch_key(old_oid, new_oid, v1) != patch_key(old_oid, new_oid, v2),
{
    let p = pair_key(old_oid, new_oid) + seq![':', 'v'];
    let k1 = patch_key(old_oid, new_oid, v1);
    let k2 = patch_key(old_oid, new_oid, v2);
    if k1 == k2 {
        assert(k1.subrange(p.len() as int, k1.len() as int) =~= decimal(v1));
        assert(k2.subrange(p.len() as int, k2.len() as int) =~= decimal(v2));
        crate::text::lemma_decimal_injective(v1, v2);
    }
}


/// `s` holds no colon (as a hexadecimal commit id does not).
pub open spec fn colon_free(s: Seq<char>) -> bool {
    forall|i: int| 0 <= i < s.len() ==> #[trigger] s[i] != ':'
}

/// `a + ':' + r` with a colon-free `a` is split at its first colon.
proof fn lemma_first_colon_split(a1: Seq<char>, r1: Seq<char>, a2: Seq<char>, r2: Seq<char>)
    requires
        colon_free(a1),
        colon_free(a2),
        a1 + seq![':'] + r1 == a2 + seq![':'] + r2,
    ensures
        a1 == a2,
        r1 == r2,
{
    let k1 = a1 + seq![':'] + r1;
    let k2 = a2 + seq![':'] + r2;
    if a1.len() < a2.len() {
        assert(k1[a1.len() as int] == ':');
        assert(k2[a1.len() as int] == a2[a1.len() as int]);
    } else if a2.len() < a1.len() {
        assert(k2[a2.len() as int] == ':');
        assert(k1[a2.len() as int] == a1[a2.len() as int]);
    }
    assert(a1 =~= k1.subrange(0, a1.len() as int));
    assert(a2 =~= k2.subrange(0, a2.len() as int));
    assert(r1 =~= k1.subrange(a1.len() as int + 1, k1.len() as int));
    assert(r2 =~= k2.subrange(a2.len() as int + 1, k2.len() as int));
}

/// Distinct (old, new, version) triples of colon-free commit ids have
/// distinct patch keys, so two diffs never share a cached result.
pub proof fn lemma_patch_keys_distinct(
    old1: Seq<char>, new1: Seq<char>, v1: nat,
    old2: Seq<char>, new2: Seq<char>, v2: nat,
)
    requires
        colon_free(old1),
        colon_free(new1),
        colon_free(old2),
        colon_free(new2),
        patch_key(old1, new1, v1) == patch_key(old2, new2, v2),
    ensures
        old1 == old2,
        new1 == new2,
        v1 == v2,
{
    let t1 = new1 + seq![':'] + (seq!['v'] + decimal(v1));
    let t2 = new2 + seq![':'] + (seq!['v'] + decimal(v2));
    assert(patch_key(old1, new1, v1) =~= old1 + seq![':'] + t1);
    assert(patch_key(old2, new2, v2) =~= old2 + seq![':'] + t2);
    lemma_first_colon_split(old1, t1, old2, t2);
    lemma_first_colon_split(new1, seq!['v'] + decimal(v1), new2, seq!['v'] + decimal(v2));
    assert(decimal(v1) =~= (seq!['v'] + decimal(v1)).subrange(1, decimal(v1).len() as int + 1));
    assert(decimal(v2) =~= (seq!['v'] + decimal(v2)).subrange(1, decimal(v2).len() as int + 1));
    crate::text::lemma_decimal_injective(v1, v2);
}

proof fn lemma_decimal_colon_free(n: nat)
    ensures
        colon_free(decimal(n)),
    decreases n,
{
    if n >= 10 {
        lemma_decimal_colon_free(n / 10);
        let d = decimal(n);
        let p = decimal(n / 10);
        assert forall|i: int| 0 <= i < d.len() implies #[trigger] d[i] != ':' by {
            if i < p.len() {
                assert(d[i] == p[i]);
            }
        }
    }
}

/// A patch key of colon-free commit ids holds exactly two colons: after the
/// old id and after the new one.
proof fn lemma_patch_key_colons(old: Seq<char>, new: Seq<char>, v: nat)
    requires
        colon_free(old),
        colon_free(new),
    ensures
        forall|i: int| 0 <= i < patch_key(old, new, v).len() ==>
            ((#[trigger] patch_key(old, new, v)[i] == ':') <==> (i == old.len() || i == old.len() + 1 + new.len())),
{
    lemma_decimal_colon_free(v);
    let k = patch_key(old, new, v);
    let a = old.len() as int;
    let b = a + 1 + new.len();
    let d = decimal(v);
    assert forall|i: int| 0 <= i < k.len() implies ((#[trigger] k[i] == ':') <==> (i == a || i == b)) by {
        if i < a {
            assert(k[i] == old[i]);
        } else if i == a {
        } else if i < b {
            assert(k[i] == new[i - a - 1]);
        } else if i == b {
        } else if i == b + 1 {
            assert(k[i] == 'v');
        } else {
            assert(k[i] == d[i - b - 2]);
        }
    }
}

/// A patch key of colon-free commit ids is the key of no other triple, of
/// any commit ids.
pub proof fn lemma_patch_key_unique(
    old1: Seq<char>, new1: Seq<char>, v1: nat,
    old2: Seq<char>, new2: Seq<char>, v2: nat,
)
    requires
        colon_free(old1),
        colon_free(new1),
        patch_key(old1, new1, v1) == patch_key(old2, new2, v2),
    ensures
        old1 == old2,
        new1 == new2,
        v1 == v2,
{
    lemma_patch_key_colons(old1, new1, v1);
    let k = patch_key(old1, new1, v1);
    let k2 = patch_key(old2, new2, v2);
    let a = old1.len() as int;
    let b = a + 1 + new1.len();
    let a2 = old2.len() as int;
    let b2 = a2 + 1 + new2.len();
    assert(k2[a2] == ':');
    assert(k2[b2] == ':');
    assert(k[a2] == ':');
    assert(k[b2] == ':');
    assert(a2 == a && b2 == b);
    assert forall|i: int| 0 <= i < old2.len() implies #[trigger] old2[i] != ':' by {
        assert(k2[i] == old2[i]);
        assert(k[i] == old2[i]);
    }
    assert forall|j: int| 0 <= j < new2.len() implies #[trigger] new2[j] != ':' by {
        assert(k2[a2 + 1 + j] == new2[j]);
        assert(k[a + 1 + j] == new2[j]);
    }
    lemma_patch_keys_distinct(old1, new1, v1, old2, new2, v2);
}

/// Storing a patch result for colon-free commit ids leaves the result of
/// every other triple as it was.
pub proof fn lemma_patch_insert_keeps_others(
    before: BranchCache, after: BranchCache,
    old1: Seq<char>, new1: Seq<char>, v1: nat,
    e: (Option<Seq<char>>, Option<Seq<u8>>),
    old2: Seq<char>, new2: Seq<char>, v2: nat,
)
    requires
        colon_free(old1),
        colon_free(new1),
        !(old1 == old2 && new1 == new2 && v1 == v2),
        after.graph_patches() == before.graph_patches().insert(patch_key(old1, new1, v1), e),
    ensures
        map_get(after.graph_patches(), patch_key(old1, new1, v1)) == Some(e),
        map_get(after.graph_patches(), patch_key(old2, new2, v2))
            == map_get(before.graph_patches(), patch_key(old2, new2, v2)),
{
    if patch_key(old1, new1, v1) == patch_key(old2, new2, v2) {
        lemma_patch_key_unique(old1, new1, v1, old2, new2, v2);
    }
}


/// The merge-status table as (status name, commit hash) by branch name.
pub open spec fn status_table(m: Map<Seq<char>, CacheEntry>) -> Map<Seq<char>, (Seq<char>, Seq<char>)> {
    m.map_values(|e: CacheEntry| (e.merge_status@, e.commit_hash@))
}

/// Merge-status rows as (branch name, (status name, commit hash)).
pub open spec fn status_row_table(rows: Seq<(String, String, String)>) -> Seq<(Seq<char>, (Seq<char>, Seq<char>))> {
    rows.map_values(|r: (String, String, String)| (r.0@, (r.1@, r.2@)))
}

/// The merge-base table with each merge base as text.
pub open spec fn mb_table(m: Map<Seq<char>, Option<String>>) -> Map<Seq<char>, Option<Seq<char>>> {
    m.map_values(|v: Option<String>| opt_view(v))
}

/// Merge-base rows as (key, merge base).
pub open spec fn mb_row_table(rows: Seq<(String, Option<String>)>) -> Seq<(Seq<char>, Option<Seq<char>>)> {
    rows.map_values(|r: (String, Option<String>)| (r.0@, opt_view(r.1)))
}

/// The branch names a batch deletes.
pub open spec fn batch_deletes(b: CacheWriteBatch) -> Set<Seq<char>> {
    Set::new(|k: Seq<char>| exists|i: int| 0 <= i < b.deleted_entries.len() && b.deleted_entries@[i]@ == k)
}

/// `rows` names `k`.
pub open spec fn row_for<V>(rows: Seq<(Seq<char>, V)>, k: Seq<char>) -> bool {
    exists|i: int| 0 <= i < rows.len() && rows[i].0 == k
}

/// A stored table after a save writes `rows` into it (a row replaces the
/// stored value of its key) and then deletes the keys in `deleted`.
pub open spec fn written<V>(stored: Map<Seq<char>, V>, rows: Seq<(Seq<char>, V)>, deleted: Set<Seq<char>>) -> Map<Seq<char>, V> {
    Map::new(
        |k: Seq<char>| (stored.contains_key(k) || row_for(rows, k)) && !deleted.contains(k),
        |k: Seq<char>| if row_for(rows, k) {
            rows[choose|i: int| 0 <= i < rows.len() && rows[i].0 == k].1
        } else {
            stored[k]
        },
    )
}

/// The base tip stored after a save writes `b`.
pub open spec fn written_base_tip(stored: Option<Seq<char>>, b: CacheWriteBatch) -> Option<Seq<char>> {
    match b.base_tip {
        Some(t) => Some(t@),
        None => stored,
    }
}

/// The cache's table `m` agrees with the stored table but for what the next
/// save writes: a dirty key is present in the cache, a key pending deletion
/// is absent from it, and every other key has the stored value (or is
/// absent from both).
pub open spec fn table_in_step<V>(m: Map<Seq<char>, V>, dirty: Set<Seq<char>>, deleted: Set<Seq<char>>, stored: Map<Seq<char>, V>) -> bool {
    &&& forall|k: Seq<char>| #[trigger] dirty.contains(k) ==> m.contains_key(k)
    &&& forall|k: Seq<char>| #[trigger] deleted.contains(k) ==> !m.contains_key(k)
    &&& forall|k: Seq<char>| !dirty.contains(k) && !deleted.contains(k) ==> #[trigger] map_get(m, k) == map_get(stored, k)
}

/// `rows` are the dirty keys present in `m`, each with its value in `m`.
pub open spec fn rows_write<V>(rows: Seq<(Seq<char>, V)>, dirty: Set<Seq<char>>, m: Map<Seq<char>, V>) -> bool {
    &&& forall|i: int| 0 <= i < rows.len() ==> dirty.contains(#[trigger] rows[i].0) && m.contains_key(rows[i].0) && rows[i].1 == m[rows[i].0]
    &&& forall|k: Seq<char>| dirty.contains(k) && m.contains_key(k) ==> row_for(rows, k)
}

proof fn lemma_written_table<V>(
    stored: Map<Seq<char>, V>, m: Map<Seq<char>, V>,
    dirty: Set<Seq<char>>, deleted: Set<Seq<char>>, rows: Seq<(Seq<char>, V)>,
)
    requires
        table_in_step(m, dirty, deleted, stored),
        rows_write(rows, dirty, m),
    ensures
        written(stored, rows, deleted) == m,
{
    let w = written(stored, rows, deleted);
    assert forall|k: Seq<char>| #[trigger] w.contains_key(k) <==> m.contains_key(k) by {
        if row_for(rows, k) {
            let i = choose|i: int| 0 <= i < rows.len() && rows[i].0 == k;
            assert(dirty.contains(rows[i].0));
        } else if !dirty.contains(k) && !deleted.contains(k) {
            assert(map_get(m, k) == map_get(stored, k));
        }
    }
    assert forall|k: Seq<char>| m.contains_key(k) implies #[trigger] w[k] == m[k] by {
        if row_for(rows, k) {
            let i = choose|i: int| 0 <= i < rows.len() && rows[i].0 == k;
            assert(rows[i].1 == m[rows[i].0]);
        } else {
            assert(!dirty.contains(k));
            assert(!deleted.contains(k));
            assert(map_get(m, k) == map_get(stored, k));
        }
    }
    assert(w =~= m);
}

/// A save writes back the cache's merge statuses: if the cache was in step
/// with the stored table, then the table after the store applies the batch
/// of [`BranchCache::pending_save`] (rows written, then deleted names
/// removed) is exactly the cache's table, which a reload reads back.
pub proof fn lemma_save_writes_statuses(c: BranchCache, stored: Map<Seq<char>, (Seq<char>, Seq<char>)>, b: CacheWriteBatch)
    requires
        c.wf(),
        table_in_step(status_table(c.statuses()), c.dirty_statuses(), c.pending_deletes(), stored),
        lists_dirty_entries(b.entries@, c.dirty_statuses(), c.statuses()),
        forall|k: Seq<char>| c.pending_deletes().contains(k)
            <==> exists|i: int| 0 <= i < b.deleted_entries.len() && b.deleted_entries@[i]@ == k,
    ensures
        written(stored, status_row_table(b.entries@), batch_deletes(b)) == status_table(c.statuses()),
{
    let rows = status_row_table(b.entries@);
    let m = status_table(c.statuses());
    assert forall|i: int| 0 <= i < rows.len() implies c.dirty_statuses().contains(#[trigger] rows[i].0)
        && m.contains_key(rows[i].0) && rows[i].1 == m[rows[i].0] by {
        assert(rows[i].0 == b.entries@[i].0@);
    }
    assert forall|k: Seq<char>| c.dirty_statuses().contains(k) && m.contains_key(k) implies row_for(rows, k) by {
        let i = choose|i: int| 0 <= i < b.entries@.len() && #[trigger] b.entries@[i].0@ == k;
        assert(rows[i].0 == k);
    }
    assert(batch_deletes(b) =~= c.pending_deletes());
    lemma_written_table(stored, m, c.dirty_statuses(), c.pending_deletes(), rows);
}

/// A save writes back the merge bases and the base tip: if the cache was in
/// step with the stored table, and its base tip is the stored one unless
/// a new one was set, then after the store applies the batch of
/// [`BranchCache::pending_save`] both are the cache's.
pub proof fn lemma_save_writes_merge_bases(
    c: BranchCache,
    stored: Map<Seq<char>, Option<Seq<char>>>,
    stored_tip: Option<Seq<char>>,
    b: CacheWriteBatch,
)
    requires
        c.wf(),
        table_in_step(mb_table(c.merge_bases()), c.dirty_merge_bases(), Set::empty(), stored),
        !c.base_tip_pending() ==> opt_view(c.base_tip()) == stored_tip,
        c.base_tip_pending() ==> c.base_tip() is Some,
        lists_dirty_mb(b.merge_bases@, c.dirty_merge_bases(), c.merge_bases()),
        b.base_tip == (if c.base_tip_pending() { c.base_tip() } else { None }),
    ensures
        written(stored, mb_row_table(b.merge_bases@), Set::empty()) == mb_table(c.merge_bases()),
        written_base_tip(stored_tip, b) == opt_view(c.base_tip()),
{
    let rows = mb_row_table(b.merge_bases@);
    let m = mb_table(c.merge_bases());
    assert forall|i: int| 0 <= i < rows.len() implies c.dirty_merge_bases().contains(#[trigger] rows[i].0)
        && m.contains_key(rows[i].0) && rows[i].1 == m[rows[i].0] by {
        assert(rows[i].0 == b.merge_bases@[i].0@);
    }
    assert forall|k: Seq<char>| c.dirty_merge_bases().contains(k) && m.contains_key(k) implies row_for(rows, k) by {
        let i = choose|i: int| 0 <= i < b.merge_bases@.len() && #[trigger] b.merge_bases@[i].0@ == k;
        assert(rows[i].0 == k);
    }
    lemma_written_table(stored, m, c.dirty_merge_bases(), Set::empty(), rows);
}

/// Storing a status keeps the cache in step with the store, for a name
/// that is not pending deletion.
pub proof fn lemma_insert_keeps_step(before: BranchCache, after: BranchCache, stored: Map<Seq<char>, (Seq<char>, Seq<char>)>, name: Seq<char>)
    requires
        table_in_step(status_table(before.statuses()), before.dirty_statuses(), before.pending_deletes(), stored),
        !before.pending_deletes().contains(name),
        after.statuses().contains_key(name),
        after.statuses().remove(name) == before.statuses().remove(name),
        after.dirty_statuses() == before.dirty_statuses().insert(name),
        after.pending_deletes() == before.pending_deletes(),
    ensures
        table_in_step(status_table(after.statuses()), after.dirty_statuses(), after.pending_deletes(), stored),
{
    let m0 = status_table(before.statuses());
    let m1 = status_table(after.statuses());
    assert forall|k: Seq<char>| k != name implies #[trigger] map_get(m1, k) == map_get(m0, k) by {
        assert(after.statuses().remove(name).contains_key(k) == after.statuses().contains_key(k));
        assert(before.statuses().remove(name).contains_key(k) == before.statuses().contains_key(k));
        if after.statuses().contains_key(k) {
            assert(after.statuses().remove(name)[k] == after.statuses()[k]);
            assert(before.statuses().remove(name)[k] == before.statuses()[k]);
        }
    }
    assert forall|k: Seq<char>| #[trigger] after.dirty_statuses().contains(k) implies m1.contains_key(k) by {
        if k != name {
            assert(map_get(m1, k) == map_get(m0, k));
        }
    }
    assert forall|k: Seq<char>| #[trigger] after.pending_deletes().contains(k) implies !m1.contains_key(k) by {
        assert(map_get(m1, k) == map_get(m0, k));
    }
    assert forall|k: Seq<char>| !after.dirty_statuses().contains(k) && !after.pending_deletes().contains(k)
        implies #[trigger] map_get(m1, k) == map_get(stored, k) by {
        assert(map_get(m1, k) == map_get(m0, k));
    }
}

/// Deleting a status keeps the cache in step with the store.
pub proof fn lemma_delete_keeps_step(before: BranchCache, after: BranchCache, stored: Map<Seq<char>, (Seq<char>, Seq<char>)>, name: Seq<char>)
    requires
        table_in_step(status_table(before.statuses()), before.dirty_statuses(), before.pending_deletes(), stored),
        after.statuses() == before.statuses().remove(name),
        after.dirty_statuses() == before.dirty_statuses().remove(name),
        after.pending_deletes() == before.pending_deletes().insert(name),
    ensures
        table_in_step(status_table(after.statuses()), after.dirty_statuses(), after.pending_deletes(), stored),
{
    let m0 = status_table(before.statuses());
    let m1 = status_table(after.statuses());
    assert forall|k: Seq<char>| k != name implies #[trigger] map_get(m1, k) == map_get(m0, k) by {}
    assert forall|k: Seq<char>| #[trigger] after.dirty_statuses().contains(k) implies m1.contains_key(k) by {
        assert(map_get(m1, k) == map_get(m0, k));
    }
    assert forall|k: Seq<char>| #[trigger] after.pending_deletes().contains(k) implies !m1.contains_key(k) by {
        if k != name {
            assert(map_get(m1, k) == map_get(m0, k));
        }
    }
    assert forall|k: Seq<char>| !after.dirty_statuses().contains(k) && !after.pending_deletes().contains(k)
        implies #[trigger] map_get(m1, k) == map_get(stored, k) by {
        assert(map_get(m1, k) == map_get(m0, k));
    }
}

/// A deleted status stays deleted across a save and a reload: if the cache
/// was in step with the store before [`BranchCache::delete_branch_entry`],
/// the table the store holds after the next save's batch has no row for the
/// name, and every other row is the cache's.
pub proof fn lemma_delete_survives_save(
    before: BranchCache,
    after: BranchCache,
    stored: Map<Seq<char>, (Seq<char>, Seq<char>)>,
    name: Seq<char>,
    b: CacheWriteBatch,
)
    requires
        table_in_step(status_table(before.statuses()), before.dirty_statuses(), before.pending_deletes(), stored),
        after.wf(),
        after.statuses() == before.statuses().remove(name),
        after.dirty_statuses() == before.dirty_statuses().remove(name),
        after.pending_deletes() == before.pending_deletes().insert(name),
        lists_dirty_entries(b.entries@, after.dirty_statuses(), after.statuses()),
        forall|k: Seq<char>| after.pending_deletes().contains(k)
            <==> exists|i: int| 0 <= i < b.deleted_entries.len() && b.deleted_entries@[i]@ == k,
    ensures
        !written(stored, status_row_table(b.entries@), batch_deletes(b)).contains_key(name),
        written(stored, status_row_table(b.entries@), batch_deletes(b)) == status_table(after.statuses()),
{
    lemma_delete_keeps_step(before, after, stored, name);
    lemma_save_writes_statuses(after, stored, b);
}


/// A cached merge status answers for the tip it was stored with. For a new
/// tip only a merged or squash-merged status still answers; every other
/// status, the local and remote ones among them, is a miss, and the branch
/// is checked again.
pub proof fn lemma_lookup_on_new_tip(e: CacheEntry, current: Seq<char>)
    ensures
        e.commit_hash@ == current ==> lookup_answer(Some(e), current) == status_from_text(e.merge_status@),
        e.commit_hash@ != current ==> lookup_answer(Some(e), current) == match status_from_text(e.merge_status@) {
            Some(MergeStatus::Merged) => Some(MergeStatus::Merged),
            Some(MergeStatus::SquashMerged) => Some(MergeStatus::SquashMerged),
            _ => None,
        },
        lookup_answer(None, current) is None,
{
}

/// Stored for one tip and looked up for another, a status is answered
/// exactly when it is merged or squash-merged.
pub proof fn lemma_stored_status_on_new_tip(s: MergeStatus, stored: Seq<char>, current: Seq<char>, e: CacheEntry)
    requires
        status_text(s) is Some,
        e.merge_status@ == status_text(s).unwrap(),
        e.commit_hash@ == stored,
        stored != current,
    ensures
        lookup_answer(Some(e), current) == (if s == MergeStatus::Merged || s == MergeStatus::SquashMerged { Some(s) } else { None }),
{
    lemma_status_text_round_trip(s);
}

} // verus!
