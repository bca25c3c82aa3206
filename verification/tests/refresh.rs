use git2::{Repository, RepositoryInitOptions, Signature, Time};
use git_branch_manager::keyed::KeySet;
use git_branch_manager::refresh::{
    apply_ahead_behind, apply_check_result, apply_merge_base_commits, apply_status_updates, resolve_disjoint,
    squash_candidates,
};
use git_branch_manager::remotes::RemoteBranchInfo;
use git_branch_manager::types::{BranchInfo, MergeStatus, TrackingStatus};

fn branch(name: &str, status: MergeStatus) -> BranchInfo {
    BranchInfo {
        name: name.into(),
        is_current: false,
        is_base: false,
        tracking: TrackingStatus::Local,
        ahead: None,
        behind: None,
        last_commit_date: 0,
        merge_status: status,
        base_branch: "main".into(),
        merge_base_commit: None,
        pr: None,
        squash_confidence: None,
    }
}

fn remote(short: &str) -> RemoteBranchInfo {
    RemoteBranchInfo {
        full_ref: format!("origin/{short}"),
        remote: "origin".into(),
        short_name: short.into(),
        has_local: true,
        is_base: false,
        last_commit_date: 0,
        merge_status: MergeStatus::Pending,
        ahead: None,
        behind: None,
        pr: None,
    }
}

#[test]
fn verified_branches_keep_their_corrected_status() {
    let mut bs = vec![branch("a", MergeStatus::Pending), branch("b", MergeStatus::Pending), branch("c", MergeStatus::Pending)];
    let updates = vec![
        ("a".to_string(), MergeStatus::Unmerged),
        ("b".to_string(), MergeStatus::Merged),
        ("a".to_string(), MergeStatus::Merged),
    ];
    let mut verified = KeySet::new();
    verified.insert("b".to_string());
    apply_status_updates(&mut bs, &updates, &verified);
    assert_eq!(bs[0].merge_status, MergeStatus::Merged);
    assert_eq!(bs[1].merge_status, MergeStatus::Pending);
    assert_eq!(bs[2].merge_status, MergeStatus::Pending);
}

#[test]
fn disjoint_pending_branches_become_unmerged() {
    let mut connected = branch("connected", MergeStatus::Pending);
    connected.merge_base_commit = Some("abcd1234".into());
    let mut current = branch("current", MergeStatus::Pending);
    current.is_current = true;
    let mut bs = vec![branch("disjoint", MergeStatus::Pending), connected, current, branch("done", MergeStatus::Merged)];
    resolve_disjoint(&mut bs);
    let statuses: Vec<MergeStatus> = bs.iter().map(|b| b.merge_status).collect();
    assert_eq!(statuses, vec![MergeStatus::Unmerged, MergeStatus::Pending, MergeStatus::Pending, MergeStatus::Merged]);
}

#[test]
fn counts_and_merge_bases_go_to_the_first_row_of_a_name() {
    let mut bs = vec![branch("a", MergeStatus::Pending), branch("b", MergeStatus::Pending), branch("a", MergeStatus::Pending)];
    apply_ahead_behind(&mut bs, &vec![("a".to_string(), Some(1), Some(2)), ("a".to_string(), Some(3), Some(4)), ("zz".to_string(), Some(9), None)]);
    assert_eq!((bs[0].ahead, bs[0].behind), (Some(3), Some(4)));
    assert_eq!((bs[1].ahead, bs[1].behind), (None, None));
    assert_eq!((bs[2].ahead, bs[2].behind), (None, None));
    apply_merge_base_commits(&mut bs, &vec![("b".to_string(), "12345678".to_string())]);
    assert_eq!(bs[1].merge_base_commit.as_deref(), Some("12345678"));
    assert_eq!(bs[0].merge_base_commit, None);
}

#[test]
fn settled_check_results_reach_the_remote_branch() {
    let mut bs = vec![branch("x", MergeStatus::Pending)];
    let mut rs = vec![remote("x"), remote("y")];
    apply_check_result(&mut bs, &mut rs, "x", MergeStatus::SquashMerged);
    assert_eq!(bs[0].merge_status, MergeStatus::SquashMerged);
    assert_eq!(rs[0].merge_status, MergeStatus::SquashMerged);
    assert_eq!(rs[1].merge_status, MergeStatus::Pending);
    let mut rs2 = vec![remote("x")];
    apply_check_result(&mut bs, &mut rs2, "x", MergeStatus::Unmerged);
    assert_eq!(bs[0].merge_status, MergeStatus::Unmerged);
    assert_eq!(rs2[0].merge_status, MergeStatus::Pending);
}

#[test]
fn squash_candidates_need_a_tip_and_a_merge_base() {
    let mut opts = RepositoryInitOptions::new();
    opts.bare(true).initial_head("main");
    let repo = Repository::init_opts("/tmp/git-branch-manager-tests/refresh", &opts).unwrap();
    let tree_id = repo.treebuilder(None).unwrap().write().unwrap();
    let tip = {
        let tree = repo.find_tree(tree_id).unwrap();
        let sig = Signature::new("T", "t@example.com", &Time::new(1_000, 0)).unwrap();
        repo.commit(None, &sig, &sig, "first", &tree, &[]).unwrap()
    };
    repo.reference("refs/heads/main", tip, true, "test").unwrap();
    repo.reference("refs/heads/feature", tip, true, "test").unwrap();
    let mut feature = branch("feature", MergeStatus::Pending);
    feature.merge_base_commit = Some("deadbeef".into());
    let mut gone = branch("gone", MergeStatus::Pending);
    gone.merge_base_commit = Some("deadbeef".into());
    let bs = vec![feature, gone, branch("main", MergeStatus::Pending)];
    let cs = squash_candidates(&repo, &bs);
    assert_eq!(cs.len(), 1);
    assert_eq!(cs[0].branch_name, "feature");
    assert_eq!(cs[0].commit_hash, tip.to_string());
    assert_eq!(cs[0].merge_base.as_deref(), Some("deadbeef"));
}
