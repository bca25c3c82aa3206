use git_branch_manager::cache::{cache_file_path, BranchCache, CacheRows, CacheWriteBatch};
use git_branch_manager::types::MergeStatus;

/// Rows of an in-memory store, written the way the cache's saves ask.
#[derive(Default)]
struct Store {
    entries: Vec<(String, String, String)>,
    ahead_behind: Vec<(String, u32, u32)>,
    merge_bases: Vec<(String, Option<String>)>,
    base_tip: Option<String>,
    graph_patches: Vec<(String, Option<String>, Option<Vec<u8>>)>,
}

impl Store {
    fn rows(&self) -> CacheRows {
        CacheRows {
            entries: self.entries.clone(),
            ahead_behind: self.ahead_behind.clone(),
            merge_bases: self.merge_bases.clone(),
            base_tip: self.base_tip.clone(),
            graph_patches: self.graph_patches.clone(),
        }
    }

    fn write(&mut self, batch: CacheWriteBatch) {
        for row in batch.entries {
            self.entries.retain(|r| r.0 != row.0);
            self.entries.push(row);
        }
        for key in batch.deleted_entries {
            self.entries.retain(|r| r.0 != key);
        }
        for row in batch.ahead_behind {
            self.ahead_behind.retain(|r| r.0 != row.0);
            self.ahead_behind.push(row);
        }
        for row in batch.merge_bases {
            self.merge_bases.retain(|r| r.0 != row.0);
            self.merge_bases.push(row);
        }
        for row in batch.graph_patches {
            self.graph_patches.retain(|r| r.0 != row.0);
            self.graph_patches.push(row);
        }
        if batch.base_tip.is_some() {
            self.base_tip = batch.base_tip;
        }
    }

    fn save(&mut self, cache: &mut BranchCache) {
        if let Some(batch) = cache.pending_save() {
            self.write(batch);
            cache.mark_saved();
        }
    }

    fn load(&self) -> BranchCache {
        BranchCache::load_from_path("cache.sqlite3".to_string(), self.rows())
    }
}

fn temp_cache() -> BranchCache {
    Store::default().load()
}

const OID_A: &str = "aaaaaaaaaaaaaaaaaaaaaaaaaaaaaaaaaaaaaaaa";
const OID_B: &str = "bbbbbbbbbbbbbbbbbbbbbbbbbbbbbbbbbbbbbbbb";
const OID_C: &str = "cccccccccccccccccccccccccccccccccccccccc";

#[test]
fn cache_insert_and_lookup() {
    let mut cache = temp_cache();
    cache.insert("feature/x", &MergeStatus::SquashMerged, "abc123");
    assert_eq!(cache.lookup("feature/x", "abc123"), Some(MergeStatus::SquashMerged));
}

#[test]
fn cache_unmerged_invalidated_on_new_commit() {
    let mut cache = temp_cache();
    cache.insert("feature/x", &MergeStatus::Unmerged, "abc123");
    assert_eq!(cache.lookup("feature/x", "abc123"), Some(MergeStatus::Unmerged));
    assert_eq!(cache.lookup("feature/x", "def456"), None);
}

#[test]
fn cache_merged_permanent() {
    let mut cache = temp_cache();
    cache.insert("feature/x", &MergeStatus::Merged, "abc123");
    // Merged is permanent regardless of commit hash
    assert_eq!(cache.lookup("feature/x", "def456"), Some(MergeStatus::Merged));
}

#[test]
fn cached_branch_names_lists_all_entries() {
    let mut cache = temp_cache();
    cache.insert("feature/x", &MergeStatus::Merged, "abc123");
    cache.insert("feature/y", &MergeStatus::Unmerged, "def456");
    let mut names = cache.cached_branch_names();
    names.sort();
    assert_eq!(names, vec!["feature/x".to_string(), "feature/y".to_string()]);
}

#[test]
fn delete_branch_entry_removes_from_memory_and_disk() {
    let mut store = Store::default();
    let mut cache = store.load();
    cache.insert("feature/x", &MergeStatus::Merged, "abc123");
    cache.insert("feature/y", &MergeStatus::Merged, "def456");
    store.save(&mut cache);

    // Delete one entry and persist.
    cache.delete_branch_entry("feature/x");
    assert_eq!(cache.lookup("feature/x", "abc123"), None);
    store.save(&mut cache);

    // The deletion survives a reload.
    let mut reloaded = store.load();
    assert_eq!(reloaded.lookup("feature/x", "abc123"), None);
    assert_eq!(reloaded.lookup("feature/y", "def456"), Some(MergeStatus::Merged));
}

#[test]
fn cache_clear_removes_entries() {
    let mut cache = temp_cache();
    cache.insert("feature/x", &MergeStatus::Merged, "abc123");
    cache.clear();
    assert_eq!(cache.lookup("feature/x", "abc123"), None);
}

#[test]
fn cache_counts_hits_and_misses() {
    let mut cache = temp_cache();
    cache.insert("feature/x", &MergeStatus::Merged, "abc123");
    cache.insert("feature/y", &MergeStatus::Unmerged, "old");

    assert_eq!(cache.lookup("feature/unknown", "zzz"), None);
    assert_eq!(cache.lookup("feature/x", "abc123"), Some(MergeStatus::Merged));
    assert_eq!(cache.lookup("feature/y", "new"), None);

    assert_eq!(cache.hits(), 1);
    assert_eq!(cache.misses(), 2);
}

#[test]
fn cache_save_and_reload() {
    let mut store = Store::default();
    let mut cache = store.load();
    cache.insert("feature/x", &MergeStatus::SquashMerged, "abc123");
    store.save(&mut cache);

    let mut reloaded = store.load();
    assert_eq!(reloaded.lookup("feature/x", "abc123"), Some(MergeStatus::SquashMerged));
}

#[test]
fn ahead_behind_cache_hit_and_miss() {
    let mut cache = temp_cache();
    assert_eq!(cache.lookup_ahead_behind(OID_A, OID_B), None);

    cache.insert_ahead_behind(OID_A, OID_B, 42, 3);
    assert_eq!(cache.lookup_ahead_behind(OID_A, OID_B), Some((42, 3)));
    assert_eq!(cache.lookup_ahead_behind(OID_A, OID_C), None);
    assert_eq!(cache.lookup_ahead_behind(OID_B, OID_A), None);
}

#[test]
fn ahead_behind_cache_save_and_reload() {
    let mut store = Store::default();
    let mut cache = store.load();
    cache.insert_ahead_behind(OID_A, OID_B, 100, 5);
    store.save(&mut cache);

    let reloaded = store.load();
    assert_eq!(reloaded.lookup_ahead_behind(OID_A, OID_B), Some((100, 5)));
}

#[test]
fn merge_base_cache_hit_miss_disconnected() {
    let mut cache = temp_cache();
    // Not in cache yet
    assert_eq!(cache.lookup_merge_base(OID_A, OID_B), None);

    // Insert disconnected
    cache.insert_merge_base(OID_A, OID_B, None);
    assert_eq!(cache.lookup_merge_base(OID_A, OID_B), Some(None));

    // Insert connected
    cache.insert_merge_base(OID_C, OID_B, Some("deadbeef".to_string()));
    assert_eq!(cache.lookup_merge_base(OID_C, OID_B), Some(Some("deadbeef".to_string())));
}

#[test]
fn merge_base_cache_save_and_reload() {
    let mut store = Store::default();
    let mut cache = store.load();
    cache.insert_merge_base(OID_A, OID_B, Some("cafebabe".to_string()));
    cache.set_base_tip(Some(OID_B.to_string()));
    store.save(&mut cache);

    let reloaded = store.load();
    assert_eq!(reloaded.lookup_merge_base(OID_A, OID_B), Some(Some("cafebabe".to_string())));
    assert_eq!(reloaded.mb_data.base_tip.as_deref(), Some(OID_B));
}

#[test]
fn base_tip_only_persisted_when_set_explicitly() {
    // A holder that inserts a merge base but never calls set_base_tip must
    // not write a base tip (it does not own that value).
    let mut store = Store::default();
    let mut writer = store.load();
    writer.insert_merge_base(OID_A, OID_B, Some("cafebabe".to_string()));
    store.save(&mut writer);

    let reloaded = store.load();
    assert_eq!(reloaded.mb_data.base_tip, None);
}

#[test]
fn graph_patch_cache_insert_and_lookup() {
    let mut cache = temp_cache();
    cache.insert_graph_patch("a1", "a2", 1, Some("p1".to_string()), Some(vec![1, 2, 3]));
    assert_eq!(
        cache.lookup_graph_patch("a1", "a2", 1),
        Some((Some("p1".to_string()), Some(vec![1, 2, 3])))
    );
}

#[test]
fn graph_patch_cache_miss_when_not_present() {
    let cache = temp_cache();
    assert_eq!(cache.lookup_graph_patch("x", "y", 1), None);
}

#[test]
fn graph_patch_cache_version_bump_invalidates() {
    let mut cache = temp_cache();
    cache.insert_graph_patch("a1", "a2", 1, Some("p1".to_string()), None);
    assert_eq!(cache.lookup_graph_patch("a1", "a2", 1), Some((Some("p1".to_string()), None)));
    // Version 2 must miss even though the oids match.
    assert_eq!(cache.lookup_graph_patch("a1", "a2", 2), None);
}

#[test]
fn graph_patch_cache_empty_and_failed_computation_is_cached_as_hit() {
    let mut cache = temp_cache();
    cache.insert_graph_patch("a1", "a2", 1, None, None);
    // Must return Some((None, None)), distinct from the miss None.
    assert_eq!(cache.lookup_graph_patch("a1", "a2", 1), Some((None, None)));
}

#[test]
fn graph_patch_cache_duplicate_patch_id_different_oid_pairs_do_not_collide() {
    let mut cache = temp_cache();
    cache.insert_graph_patch("a1", "a2", 1, Some("shared".to_string()), None);
    cache.insert_graph_patch("b1", "b2", 1, Some("shared".to_string()), Some(vec![9, 9, 9]));
    assert_eq!(cache.lookup_graph_patch("a1", "a2", 1), Some((Some("shared".to_string()), None)));
    assert_eq!(
        cache.lookup_graph_patch("b1", "b2", 1),
        Some((Some("shared".to_string()), Some(vec![9, 9, 9])))
    );
}

#[test]
fn graph_patch_cache_save_and_reload() {
    let mut store = Store::default();
    let mut cache = store.load();
    cache.insert_graph_patch("a1", "a2", 1, Some("p1".to_string()), Some(vec![0xDE, 0xAD, 0xBE, 0xEF]));
    store.save(&mut cache);

    let reloaded = store.load();
    assert_eq!(
        reloaded.lookup_graph_patch("a1", "a2", 1),
        Some((Some("p1".to_string()), Some(vec![0xDE, 0xAD, 0xBE, 0xEF])))
    );
}

#[test]
fn graph_patch_cache_cross_repository_isolation() {
    let mut store_a = Store::default();
    let store_b = Store::default();

    let mut cache_a = store_a.load();
    cache_a.insert_graph_patch("a1", "a2", 1, Some("only-in-a".to_string()), None);
    store_a.save(&mut cache_a);

    let cache_b = store_b.load();
    // B has its own store and must not see A's entry.
    assert_eq!(cache_b.lookup_graph_patch("a1", "a2", 1), None);
}

#[test]
fn graph_patch_cache_cleared_by_clear() {
    let mut cache = temp_cache();
    cache.insert_graph_patch("a1", "a2", 1, Some("p1".to_string()), None);
    cache.clear();
    assert_eq!(cache.lookup_graph_patch("a1", "a2", 1), None);
}

#[test]
fn nothing_pending_after_load_and_after_save() {
    let mut store = Store::default();
    let mut cache = store.load();
    assert!(cache.pending_save().is_none());
    cache.insert("feature/z", &MergeStatus::Merged, "abc");
    assert!(cache.pending_save().is_some());
    store.save(&mut cache);
    assert!(cache.pending_save().is_none());
}

#[test]
fn cache_path_uses_app_cache_directory() {
    let path = std::path::PathBuf::from(cache_file_path("/home/u/.cache", 0x1f2e));
    assert_eq!(
        path.parent().and_then(|p| p.file_name()).and_then(|n| n.to_str()),
        Some("git-branch-manager")
    );
    assert!(path
        .file_name()
        .and_then(|name| name.to_str())
        .is_some_and(|name| name.starts_with("git-bm-cache-") && name.ends_with(".sqlite3")));
}

#[test]
fn cache_file_names_the_hash_in_lowercase_hex() {
    assert_eq!(cache_file_path("/c", 0), "/c/git-branch-manager/git-bm-cache-0.sqlite3");
    assert_eq!(cache_file_path("/c/", 0xdeadbeef), "/c/git-branch-manager/git-bm-cache-deadbeef.sqlite3");
    assert_eq!(cache_file_path("/c", u64::MAX), "/c/git-branch-manager/git-bm-cache-ffffffffffffffff.sqlite3");
    let c = BranchCache::load("/c", 255, Store::default().rows());
    assert_eq!(c.path(), "/c/git-branch-manager/git-bm-cache-ff.sqlite3");
    assert_eq!(c.hits(), 0);
}

#[test]
fn a_name_deleted_and_stored_again_before_one_save_is_gone_after_reload() {
    let mut store = Store::default();
    let mut cache = store.load();
    cache.insert("feature/x", &MergeStatus::Merged, "abc123");
    store.save(&mut cache);
    cache.delete_branch_entry("feature/x");
    cache.insert("feature/x", &MergeStatus::Unmerged, "def456");
    assert_eq!(cache.lookup("feature/x", "def456"), Some(MergeStatus::Unmerged));
    store.save(&mut cache);
    let mut reloaded = store.load();
    assert_eq!(reloaded.lookup("feature/x", "def456"), None);
}

#[test]
fn graph_patch_keys_of_distinct_commit_pairs_differ() {
    let mut cache = temp_cache();
    cache.insert_graph_patch(OID_A, OID_B, 1, Some("p-ab".to_string()), None);
    cache.insert_graph_patch(OID_B, OID_A, 1, Some("p-ba".to_string()), None);
    cache.insert_graph_patch(OID_A, OID_C, 1, Some("p-ac".to_string()), None);
    assert_eq!(cache.lookup_graph_patch(OID_A, OID_B, 1), Some((Some("p-ab".to_string()), None)));
    assert_eq!(cache.lookup_graph_patch(OID_B, OID_A, 1), Some((Some("p-ba".to_string()), None)));
    assert_eq!(cache.lookup_graph_patch(OID_A, OID_C, 1), Some((Some("p-ac".to_string()), None)));
    assert_eq!(cache.lookup_graph_patch(OID_C, OID_A, 1), None);
}
