use git2::{Oid, Repository, RepositoryInitOptions, Signature, Time};
use git_branch_manager::keyed::KeyedList;
use git_branch_manager::remotes::{
    apply_remote_enrich, apply_remote_verdicts, attach_remote_prs, enrich_remote_branches,
    list_remote_branches_phase1, remote_squash_candidates, split_remote_ref, still_unmerged, RemoteBranchInfo,
    RemoteEnrichResult,
};
use git_branch_manager::squash::Candidate;
use git_branch_manager::types::{MergeStatus, PrInfo, PrStatus};

/// A bare repository with local `main` and remote-tracking `origin/main`,
/// `origin/HEAD`, `origin/merged` (an ancestor of main), `origin/feature`
/// (diverged) and `upstream/main`.
fn remote_repo(dir: &str) -> (Repository, Oid, Oid, Oid) {
    let mut opts = RepositoryInitOptions::new();
    opts.bare(true).initial_head("main");
    let repo = Repository::init_opts(dir, &opts).unwrap();
    let tree_id = repo.treebuilder(None).unwrap().write().unwrap();
    let (first, second, feature) = {
        let tree = repo.find_tree(tree_id).unwrap();
        let sig = Signature::new("T", "t@example.com", &Time::new(1_000, 0)).unwrap();
        let first = repo.commit(None, &sig, &sig, "first", &tree, &[]).unwrap();
        let first_commit = repo.find_commit(first).unwrap();
        let sig2 = Signature::new("T", "t@example.com", &Time::new(2_000, 0)).unwrap();
        let second = repo.commit(None, &sig2, &sig2, "second", &tree, &[&first_commit]).unwrap();
        let sig3 = Signature::new("T", "t@example.com", &Time::new(3_000, 0)).unwrap();
        let feature = repo.commit(None, &sig3, &sig3, "feature", &tree, &[&first_commit]).unwrap();
        (first, second, feature)
    };
    repo.reference("refs/heads/main", second, true, "test").unwrap();
    repo.reference("refs/remotes/origin/main", second, true, "test").unwrap();
    repo.reference("refs/remotes/origin/merged", first, true, "test").unwrap();
    repo.reference("refs/remotes/origin/feature", feature, true, "test").unwrap();
    repo.reference("refs/remotes/upstream/main", second, true, "test").unwrap();
    repo.reference_symbolic("refs/remotes/origin/HEAD", "refs/remotes/origin/main", true, "test").unwrap();
    (repo, first, second, feature)
}

#[test]
fn remote_refs_split_at_the_first_slash() {
    assert_eq!(split_remote_ref("origin/feature/x"), Some(("origin".to_string(), "feature/x".to_string())));
    assert_eq!(split_remote_ref("nobranch"), None);
}

#[test]
fn remote_listing_puts_base_first_and_skips_head() {
    let (repo, ..) = remote_repo("/tmp/git-branch-manager-tests/remotes-list");
    let rows = list_remote_branches_phase1(&repo, "main", 42).unwrap();
    let refs: Vec<&str> = rows.iter().map(|r| r.full_ref.as_str()).collect();
    assert_eq!(refs.len(), 4);
    assert!(!refs.contains(&"origin/HEAD"));
    assert!(rows[0].is_base && rows[1].is_base);
    assert_eq!(rows[2].full_ref, "origin/feature");
    assert_eq!(rows[3].full_ref, "origin/merged");
    assert_eq!(rows[2].remote, "origin");
    assert_eq!(rows[2].short_name, "feature");
    assert_eq!(rows[2].last_commit_date, 3_000);
    assert_eq!(rows[2].merge_status, MergeStatus::Pending);
    assert_eq!(rows[0].merge_status, MergeStatus::Merged);
    assert!(rows[0].has_local);
    assert!(!rows[2].has_local);
    let candidates = remote_squash_candidates(&repo, &rows);
    let names: Vec<&str> = candidates.iter().map(|c| c.branch_name.as_str()).collect();
    assert_eq!(names, vec!["origin/feature", "origin/merged"]);
    assert!(candidates.iter().all(|c| c.merge_base.is_none() && c.commit_hash.len() == 40));
}

#[test]
fn enrichment_finds_merged_remote_branches() {
    let (repo, ..) = remote_repo("/tmp/git-branch-manager-tests/remotes-enrich");
    let mut rows = list_remote_branches_phase1(&repo, "main", 0).unwrap();
    let results = enrich_remote_branches(&repo, "main", &rows);
    assert_eq!(results.len(), 2);
    let feature = results.iter().find(|r| r.full_ref == "origin/feature").unwrap();
    assert_eq!(feature.merge_status, MergeStatus::Unmerged);
    assert_eq!((feature.ahead, feature.behind), (Some(1), Some(1)));
    let merged = results.iter().find(|r| r.full_ref == "origin/merged").unwrap();
    assert_eq!(merged.merge_status, MergeStatus::Merged);
    assert_eq!((merged.ahead, merged.behind), (Some(0), Some(1)));
    for r in &results {
        apply_remote_enrich(&mut rows, r);
    }
    let row = rows.iter().find(|r| r.full_ref == "origin/feature").unwrap();
    assert_eq!(row.merge_status, MergeStatus::Unmerged);
    assert_eq!(row.ahead, Some(1));
    apply_remote_enrich(
        &mut rows,
        &RemoteEnrichResult { full_ref: "gone/x".into(), merge_status: MergeStatus::Merged, ahead: None, behind: None },
    );
    assert_eq!(rows.len(), 4);
    assert!(enrich_remote_branches(&repo, "trunk", &rows).is_empty());
}

fn remote_row(full_ref: &str, short: &str, status: MergeStatus) -> RemoteBranchInfo {
    RemoteBranchInfo {
        full_ref: full_ref.into(),
        remote: "origin".into(),
        short_name: short.into(),
        has_local: false,
        is_base: false,
        last_commit_date: 0,
        merge_status: status,
        ahead: None,
        behind: None,
        pr: None,
    }
}

fn candidate(name: &str) -> Candidate {
    Candidate { branch_name: name.into(), commit_hash: "abc".into(), merge_base: None }
}

#[test]
fn only_branches_left_unmerged_are_checked_and_settled_verdicts_are_filed() {
    let mut rows = vec![
        remote_row("origin/a", "a", MergeStatus::Unmerged),
        remote_row("origin/b", "b", MergeStatus::Merged),
        remote_row("origin/c", "c", MergeStatus::Unmerged),
    ];
    let kept = still_unmerged(vec![candidate("origin/a"), candidate("origin/b"), candidate("origin/c")], &rows);
    let names: Vec<&str> = kept.iter().map(|c| c.branch_name.as_str()).collect();
    assert_eq!(names, vec!["origin/a", "origin/c"]);
    apply_remote_verdicts(
        &mut rows,
        &vec![
            ("origin/a".to_string(), MergeStatus::SquashMerged),
            ("origin/c".to_string(), MergeStatus::Unmerged),
            ("origin/zzz".to_string(), MergeStatus::SquashMerged),
        ],
    );
    assert_eq!(rows[0].merge_status, MergeStatus::SquashMerged);
    assert_eq!(rows[1].merge_status, MergeStatus::Merged);
    assert_eq!(rows[2].merge_status, MergeStatus::Unmerged);
    let mut prs = KeyedList::new();
    prs.set("c".to_string(), PrInfo { number: 7, status: PrStatus::Open });
    rows[0].pr = Some(PrInfo { number: 1, status: PrStatus::Closed });
    attach_remote_prs(&mut rows, &prs);
    assert_eq!(rows[0].pr, None);
    assert_eq!(rows[2].pr, Some(PrInfo { number: 7, status: PrStatus::Open }));
}
