use git_branch_manager::delete_preflight::build_delete_preflight;
use git_branch_manager::status::WorkingTreeStatus;
use git_branch_manager::types::{BranchAction, BranchInfo, MergeStatus, TrackingStatus};
use git_branch_manager::worktree::WorktreeInfo;

fn worktree(branch: &str) -> WorktreeInfo {
    WorktreeInfo {
        path: "/repo/.worktrees/example".to_string(),
        branch: Some(branch.to_string()),
        is_main: false,
        is_base: false,
        commit_hash: "abc1234".into(),
        wt_status: WorkingTreeStatus::clean(),
        age_date: 0,
        merge_status: MergeStatus::Unmerged,
        ahead: None,
        behind: None,
        pr: None,
    }
}

fn branch(name: &str, status: MergeStatus) -> BranchInfo {
    BranchInfo {
        name: name.into(),
        is_current: false,
        is_base: false,
        tracking: TrackingStatus::Local,
        ahead: None,
        behind: None,
        last_commit_date: 0,
        merge_status: status,
        base_branch: "main".into(),
        merge_base_commit: None,
        pr: None,
        squash_confidence: None,
    }
}

fn shown(ws: &[WorktreeInfo]) -> Vec<String> {
    ws.iter().map(|w| w.path.clone()).collect()
}

#[test]
fn delete_confirm_shows_force_key_for_unmerged_branch() {
    let branches = vec![branch("feature/x", MergeStatus::Unmerged)];
    let (reason, extra_keys) = build_delete_preflight(&vec!["feature/x".to_string()], &branches, &Vec::new(), &Vec::new());
    assert_eq!(reason.as_deref(), Some("Branch feature/x has unique commits not on main"));
    let force = extra_keys.iter().find(|key| key.key == '!').expect("expected a `!` force-delete extra key");
    assert_eq!(force.action, BranchAction::DeleteLocalForce);
    assert_eq!(force.label, "force-delete");
    assert_eq!(force.targets, vec!["feature/x".to_string()]);
    assert_eq!(extra_keys.len(), 1);
}

#[test]
fn delete_confirm_shows_worktree_key_for_linked_branch() {
    let branches = vec![branch("feature/y", MergeStatus::Merged)];
    let worktrees = vec![worktree("feature/y")];
    let (reason, extra_keys) =
        build_delete_preflight(&vec!["feature/y".to_string()], &branches, &worktrees, &shown(&worktrees));
    assert_eq!(reason.as_deref(), Some("Branch feature/y is checked out in /repo/.worktrees/example"));
    let cascade = extra_keys.iter().find(|key| key.key == 'r').expect("expected an `r` remove-worktree extra key");
    assert_eq!(cascade.action, BranchAction::DeleteBranchAndRemoveWorktree);
    assert_eq!(cascade.label, "remove worktree + delete");
    assert_eq!(cascade.targets, vec!["feature/y".to_string()]);
}

#[test]
fn nothing_to_warn_about_gives_the_plain_confirmation() {
    let branches = vec![branch("feature/z", MergeStatus::Merged)];
    let (reason, extra_keys) = build_delete_preflight(&vec!["feature/z".to_string()], &branches, &Vec::new(), &Vec::new());
    assert!(reason.is_none());
    assert!(extra_keys.is_empty());
}

#[test]
fn dirty_or_unmerged_linked_worktrees_need_force() {
    let branches = vec![branch("a", MergeStatus::Unmerged), branch("b", MergeStatus::Pending)];
    let mut dirty = worktree("b");
    dirty.path = "/w/b".into();
    dirty.wt_status.has_modified = true;
    let mut main = worktree("c");
    main.path = "/repo".into();
    main.is_main = true;
    let worktrees = vec![dirty, main];
    let targets = vec!["a".to_string(), "b".to_string(), "c".to_string()];
    let (reason, keys) = build_delete_preflight(&targets, &branches, &worktrees, &shown(&worktrees));
    assert_eq!(
        reason.as_deref(),
        Some(
            "Branch a has unique commits not on main, OR\n  \
             Branch b merge status is still being computed; Git will verify safe deletion, OR\n  \
             Branch b is checked out in /w/b, OR\n  \
             Worktree /w/b has uncommitted changes, OR\n  \
             Branch c is checked out in /repo"
        )
    );
    assert_eq!(keys.len(), 2);
    assert_eq!(keys[0].targets, vec!["a".to_string()]);
    assert_eq!(keys[1].key, 'r');
    assert_eq!(keys[1].action, BranchAction::DeleteBranchAndRemoveWorktreeForce);
    assert_eq!(keys[1].label, "force-remove worktree + delete");
    assert_eq!(keys[1].targets, vec!["b".to_string()]);
}
