use git2::{Repository, RepositoryInitOptions, Signature, Time};
use git_branch_manager::cache::{BranchCache, CacheRows};
use git_branch_manager::diagnostics::{
    apply_fix, audit_branch, audit_context, collect_orphans, finish_audit, record_ahead_behind,
    record_merge_base, record_merge_status, remote_branch_names, short_oid, squash_audit_status, status_label,
    CacheAudit, CacheFix, DiagKind,
};
use git_branch_manager::keyed::KeySet;
use git_branch_manager::types::MergeStatus;

fn empty_cache() -> BranchCache {
    BranchCache::load_from_path(
        "/nowhere/cache.db".to_string(),
        CacheRows { entries: vec![], ahead_behind: vec![], merge_bases: vec![], base_tip: None, graph_patches: vec![] },
    )
}

#[test]
fn labels_and_short_ids() {
    assert_eq!(status_label(MergeStatus::RemoteMerged), "merged");
    assert_eq!(status_label(MergeStatus::LocalSquashMerged), "squash-merged");
    assert_eq!(status_label(MergeStatus::InSync), "in-sync");
    assert_eq!(short_oid(Some("0123456789abcdef")), "01234567");
    assert_eq!(short_oid(Some("abc")), "abc");
    assert_eq!(short_oid(None), "disconnected");
    assert_eq!(squash_audit_status(false, true), MergeStatus::RemoteSquashMerged);
    assert_eq!(squash_audit_status(false, false), MergeStatus::Unmerged);
}

#[test]
fn merge_status_checks_are_tallied() {
    let mut cache = empty_cache();
    cache.insert("done", &MergeStatus::Merged, "aaa");
    cache.insert("stale", &MergeStatus::SquashMerged, "bbb");
    let mut audit = CacheAudit::new();
    record_merge_status(&mut cache, "main", "topic", "done", "aaa", MergeStatus::Merged, &mut audit);
    record_merge_status(&mut cache, "main", "topic", "stale", "bbb", MergeStatus::Unmerged, &mut audit);
    record_merge_status(&mut cache, "main", "topic", "main", "ccc", MergeStatus::Merged, &mut audit);
    record_merge_status(&mut cache, "main", "topic", "topic", "ddd", MergeStatus::Merged, &mut audit);
    assert_eq!(audit.merge_status.verified, 1);
    assert_eq!(audit.merge_status.mismatched, 1);
    assert_eq!(audit.merge_status.skipped, 2);
    assert_eq!(audit.merge_status.skip_reasons, vec!["base branch", "current branch"]);
    let d = &audit.discrepancies[0];
    assert_eq!((d.branch.as_str(), d.kind, d.cached.as_str(), d.actual.as_str()), ("stale", DiagKind::MergeStatus, "squash-merged", "unmerged"));
    assert!(matches!(d.fix, CacheFix::Status { ref commit_hash, status: MergeStatus::Unmerged } if commit_hash == "bbb"));
    assert!(!audit.is_clean());

    apply_fix(&mut cache, &audit);
    assert_eq!(cache.lookup("stale", "bbb"), Some(MergeStatus::Unmerged));
}

#[test]
fn counts_and_merge_bases_are_compared() {
    let mut audit = CacheAudit::new();
    record_ahead_behind("x", "b1", "u1", (1, 2), (1, 2), &mut audit);
    record_ahead_behind("x", "b1", "u1", (1, 2), (3, 0), &mut audit);
    assert_eq!(audit.ahead_behind.verified, 1);
    assert_eq!(audit.discrepancies[0].cached, "1\u{2191} 2\u{2193}");
    assert_eq!(audit.discrepancies[0].actual, "3\u{2191} 0\u{2193}");
    record_merge_base("y", "t", "b", Some("12345678".into()), None, &mut audit);
    assert_eq!(audit.discrepancies[1].actual, "disconnected");
    record_merge_base("y", "t", "b", None, None, &mut audit);
    assert_eq!(audit.merge_base.verified, 1);
    assert_eq!(audit.merge_base.mismatched, 1);
}

#[test]
fn orphans_are_found_and_removed() {
    let mut cache = empty_cache();
    cache.insert("zeta", &MergeStatus::Merged, "1");
    cache.insert("alpha", &MergeStatus::Merged, "2");
    cache.insert("live", &MergeStatus::Merged, "3");
    cache.insert("origin/remote", &MergeStatus::SquashMerged, "4");
    let mut local = KeySet::new();
    local.insert("live".to_string());
    let mut remote = KeySet::new();
    remote.insert("origin/remote".to_string());
    let mut audit = CacheAudit::new();
    collect_orphans(&cache, &local, &remote, &mut audit);
    assert_eq!(audit.orphans, vec!["alpha".to_string(), "zeta".to_string()]);
    apply_fix(&mut cache, &audit);
    assert_eq!(cache.lookup("alpha", "2"), None);
    assert_eq!(cache.lookup("live", "3"), Some(MergeStatus::Merged));
}

#[test]
fn branches_of_a_repository_are_audited() {
    let mut opts = RepositoryInitOptions::new();
    opts.bare(true).initial_head("main");
    let repo = Repository::init_opts("/tmp/git-branch-manager-tests/audit", &opts).unwrap();
    let tree_id = repo.treebuilder(None).unwrap().write().unwrap();
    let (first, second) = {
        let tree = repo.find_tree(tree_id).unwrap();
        let sig = Signature::new("Test", "test@example.com", &Time::new(1_000, 0)).unwrap();
        let first = repo.commit(None, &sig, &sig, "first", &tree, &[]).unwrap();
        let parent = repo.find_commit(first).unwrap();
        let second = repo.commit(None, &sig, &sig, "second", &tree, &[&parent]).unwrap();
        (first, second)
    };
    repo.reference("refs/heads/main", second, true, "test").unwrap();
    repo.reference("refs/heads/old", first, true, "test").unwrap();
    let ctx = audit_context(&repo, "main");
    assert_eq!(ctx.current_branch, "main");
    assert!(remote_branch_names(&repo).items.is_empty());
    let mut cache = empty_cache();
    cache.insert("old", &MergeStatus::Unmerged, &first.to_string());
    let mut audit = CacheAudit::new();
    let old_tip = first;
    let candidate = audit_branch(&repo, &mut cache, &ctx, "old", old_tip, &mut audit);
    assert!(candidate.is_none());
    assert_eq!(audit.merge_status.mismatched, 1);
    assert_eq!(audit.discrepancies[0].actual, "merged");
    finish_audit(&mut cache, &ctx, &mut audit, &vec![], false, &KeySet::new(), &KeySet::new());
    assert_eq!(audit.orphans, vec!["old".to_string()]);
}
