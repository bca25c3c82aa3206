use git_branch_manager::branches::{branch_row, choose_base, origin_head_branch};
use git_branch_manager::types::TrackingStatus;
use git2::{Oid, Repository, RepositoryInitOptions, Signature, Time};
use git_branch_manager::branches::{
    collect_branch_metadata, compute_ahead_behind, compute_merge_bases, detect_base_branch, get_commit_hash,
    list_branches_fast, list_branches_phase1, GitError,
};
use git_branch_manager::merges::build_reachable_set_from_repo;
use git_branch_manager::types::MergeStatus;

/// A bare repository with `main` (two commits), `merged` (main's first
/// commit) and `feature` (one commit on top of main's first), HEAD on main.
fn sample_repo(dir: &str) -> (Repository, Oid, Oid, Oid) {
    let mut opts = RepositoryInitOptions::new();
    opts.bare(true).initial_head("main");
    let repo = Repository::init_opts(dir, &opts).unwrap();
    let tree_id = repo.treebuilder(None).unwrap().write().unwrap();
    let (first, second, feature) = {
        let tree = repo.find_tree(tree_id).unwrap();
        let sig = Signature::new("Test", "test@example.com", &Time::new(1_000, 0)).unwrap();
        let first = repo.commit(None, &sig, &sig, "first", &tree, &[]).unwrap();
        let first_commit = repo.find_commit(first).unwrap();
        let sig2 = Signature::new("Test", "test@example.com", &Time::new(2_000, 0)).unwrap();
        let second = repo.commit(None, &sig2, &sig2, "second", &tree, &[&first_commit]).unwrap();
        let sig3 = Signature::new("Test", "test@example.com", &Time::new(3_000, 0)).unwrap();
        let feature = repo.commit(None, &sig3, &sig3, "feature", &tree, &[&first_commit]).unwrap();
        (first, second, feature)
    };
    repo.reference("refs/heads/main", second, true, "test").unwrap();
    repo.reference("refs/heads/merged", first, true, "test").unwrap();
    repo.reference("refs/heads/feature", feature, true, "test").unwrap();
    (repo, first, second, feature)
}

#[test]
fn base_branch_is_detected_or_checked() {
    let (repo, ..) = sample_repo("/tmp/git-branch-manager-tests/detect");
    assert_eq!(detect_base_branch(&repo, None).unwrap(), "main");
    assert_eq!(detect_base_branch(&repo, Some("feature")).unwrap(), "feature");
    match detect_base_branch(&repo, Some("nope")) {
        Err(GitError::BaseBranchNotFound(name)) => assert_eq!(name, "nope"),
        other => panic!("unexpected {other:?}"),
    }
    assert_eq!(GitError::BaseBranchNotFound("x".into()).message(), "base branch not found: x");
}

#[test]
fn metadata_marks_base_and_current() {
    let (repo, ..) = sample_repo("/tmp/git-branch-manager-tests/metadata");
    let rows = collect_branch_metadata(&repo, "main", false, false).unwrap();
    assert_eq!(rows.len(), 3);
    let main = rows.iter().find(|b| b.name == "main").unwrap();
    assert!(main.is_base && main.is_current);
    assert_eq!(main.merge_base_commit, None);
    assert_eq!(main.last_commit_date, 2_000);
    let feature = rows.iter().find(|b| b.name == "feature").unwrap();
    assert!(!feature.is_base && !feature.is_current);
    assert_eq!(feature.merge_base_commit.as_ref().map(|h| h.len()), Some(8));
    assert_eq!(feature.merge_status, MergeStatus::Unmerged);
    assert_eq!(feature.ahead, None);
}

#[test]
fn phase_one_detects_regular_merges_and_sorts() {
    let (repo, first, ..) = sample_repo("/tmp/git-branch-manager-tests/phase1");
    let rows = list_branches_phase1(&repo, "main").unwrap();
    let names: Vec<&str> = rows.iter().map(|b| b.name.as_str()).collect();
    assert_eq!(names, vec!["main", "feature", "merged"]);
    assert_eq!(rows[1].merge_status, MergeStatus::Pending);
    assert_eq!(rows[2].merge_status, MergeStatus::Merged);
    assert_eq!(rows[1].merge_base_commit.as_deref(), Some(&first.to_string()[..8]));
    let fast = list_branches_fast(&repo, "main").unwrap();
    assert!(fast.iter().filter(|b| b.name != "main").all(|b| b.merge_status == MergeStatus::Pending));
    assert!(matches!(list_branches_phase1(&repo, "gone"), Err(GitError::BaseBranchNotFound(_))));
}

#[test]
fn reachability_and_merge_bases() {
    let (repo, first, second, feature) = sample_repo("/tmp/git-branch-manager-tests/reach");
    let reach = build_reachable_set_from_repo(&repo, "main");
    assert_eq!(reach.regular_merge_status(&first.to_string()), Some(MergeStatus::Merged));
    assert_eq!(reach.regular_merge_status(&second.to_string()), Some(MergeStatus::Merged));
    assert_eq!(reach.regular_merge_status(&feature.to_string()), None);
    let rows = collect_branch_metadata(&repo, "main", true, true).unwrap();
    let bases = compute_merge_bases(&repo, "main", &rows);
    assert_eq!(bases.len(), 2);
    assert!(bases.iter().all(|(_, h)| h == &first.to_string()[..8]));
    assert!(compute_ahead_behind(&repo, &rows).is_empty());
    assert_eq!(get_commit_hash(&repo, "feature"), Some(feature.to_string()));
    assert_eq!(get_commit_hash(&repo, "nope"), None);
}

#[test]
fn branch_rows_take_counts_in_order_and_a_short_merge_base() {
    let live = TrackingStatus::Upstream { remote_ref: "origin/feature".into(), gone: false };
    let row = branch_row(
        "feature".into(),
        Some("main"),
        "main",
        live.clone(),
        1_234,
        Some((3, 5)),
        Some("0123456789abcdef0123456789abcdef01234567"),
        false,
        false,
    );
    assert_eq!(row.name, "feature");
    assert_eq!((row.ahead, row.behind), (Some(3), Some(5)));
    assert_eq!(row.merge_base_commit.as_deref(), Some("01234567"));
    assert_eq!(row.last_commit_date, 1_234);
    assert!(!row.is_base && !row.is_current);
    assert_eq!(row.merge_status, MergeStatus::Unmerged);
    let gone = TrackingStatus::Upstream { remote_ref: "origin/x".into(), gone: true };
    let skipped = branch_row("main".into(), Some("main"), "main", gone, 0, Some((1, 1)), Some("0123456789"), false, false);
    assert!(skipped.is_base && skipped.is_current);
    assert_eq!((skipped.ahead, skipped.behind, skipped.merge_base_commit), (None, None, None));
    let fast = branch_row("f".into(), None, "main", live, 0, Some((1, 2)), None, true, false);
    assert_eq!(fast.ahead, None);
}

#[test]
fn origin_head_names_the_branch_after_the_remote_prefix() {
    assert_eq!(origin_head_branch("refs/remotes/origin/trunk"), Some("trunk".to_string()));
    assert_eq!(origin_head_branch("refs/remotes/origin/release/2.0"), Some("release/2.0".to_string()));
    assert_eq!(origin_head_branch("refs/remotes/upstream/main"), None);
    assert_eq!(origin_head_branch("refs/heads/main"), None);
}

#[test]
fn base_choice_prefers_origin_head_then_main_master_develop_then_the_first_branch() {
    let head = || Some("trunk".to_string());
    let first = || Some("alpha".to_string());
    assert_eq!(choose_base(head(), true, true, true, true, first()), Some("trunk".to_string()));
    assert_eq!(choose_base(head(), false, true, true, true, first()), Some("main".to_string()));
    assert_eq!(choose_base(None, true, false, true, true, first()), Some("master".to_string()));
    assert_eq!(choose_base(None, false, false, false, true, first()), Some("develop".to_string()));
    assert_eq!(choose_base(None, false, false, false, false, first()), Some("alpha".to_string()));
    assert_eq!(choose_base(head(), false, false, false, false, None), None);
}
