use git_branch_manager::capability::{
    can_checkout_local, can_create_worktree, can_delete_local, can_delete_local_and_remote,
    can_delete_remote, can_fast_forward, can_force_delete_local, can_force_push,
    can_merge_into_base, can_pull, can_push, can_rebase, can_squash_into_base, WorktreePresence,
};
use git_branch_manager::types::{BranchInfo, MergeStatus, TrackingStatus};

fn test_branch(
    name: &str,
    is_current: bool,
    is_base: bool,
    tracking: TrackingStatus,
    ahead: Option<u32>,
    behind: Option<u32>,
) -> BranchInfo {
    BranchInfo {
        name: name.to_string(),
        is_current,
        is_base,
        tracking,
        ahead,
        behind,
        last_commit_date: 0,
        merge_status: MergeStatus::Unmerged,
        base_branch: "main".to_string(),
        merge_base_commit: None,
        pr: None,
        squash_confidence: None,
    }
}

fn linked_worktree(is_clean: bool) -> WorktreePresence {
    WorktreePresence {
        path: "/tmp/wt".to_string(),
        is_main: false,
        is_clean,
    }
}

// -- can_checkout_local --

#[test]
fn checkout_happy_path_allows_other_branch() {
    let branch = test_branch("feature/x", false, false, TrackingStatus::Local, None, None);
    assert!(can_checkout_local(&branch, None).available);
}

#[test]
fn checkout_blocks_current_branch() {
    let branch = test_branch("feature/x", true, false, TrackingStatus::Local, None, None);
    let cap = can_checkout_local(&branch, None);
    assert!(!cap.available);
    assert_eq!(cap.reason, Some("current"));
}

#[test]
fn checkout_blocks_base_branch() {
    let branch = test_branch("main", false, true, TrackingStatus::Local, None, None);
    let cap = can_checkout_local(&branch, None);
    assert!(!cap.available);
    assert_eq!(cap.reason, Some("base"));
}

#[test]
fn checkout_blocks_branch_in_linked_worktree() {
    let branch = test_branch("feature/x", false, false, TrackingStatus::Local, None, None);
    let cap = can_checkout_local(&branch, Some(linked_worktree(true)));
    assert!(!cap.available);
    assert_eq!(cap.reason, Some("checked out in worktree"));
}

// -- can_create_worktree --

#[test]
fn create_worktree_happy_path_allows_other_branch() {
    let branch = test_branch("feature/x", false, false, TrackingStatus::Local, None, None);
    assert!(can_create_worktree(&branch, None).available);
}

#[test]
fn create_worktree_blocks_base_branch() {
    let branch = test_branch("main", false, true, TrackingStatus::Local, None, None);
    let cap = can_create_worktree(&branch, None);
    assert!(!cap.available);
    assert_eq!(cap.reason, Some("base"));
}

#[test]
fn create_worktree_blocks_branch_in_any_worktree() {
    let current = test_branch("main-work", true, false, TrackingStatus::Local, None, None);
    let current_cap = can_create_worktree(&current, None);
    assert!(!current_cap.available);
    assert_eq!(current_cap.reason, Some("current"));

    let linked = test_branch("feature/x", false, false, TrackingStatus::Local, None, None);
    let linked_cap = can_create_worktree(&linked, Some(linked_worktree(true)));
    assert!(!linked_cap.available);
    assert_eq!(linked_cap.reason, Some("checked out in worktree"));
}

// -- can_delete_local --

#[test]
fn delete_local_happy_path_allows_other_branch() {
    let branch = test_branch("feature/x", false, false, TrackingStatus::Local, None, None);
    assert!(can_delete_local(&branch, None).available);
}

#[test]
fn delete_local_blocks_current_branch() {
    let branch = test_branch("feature/x", true, false, TrackingStatus::Local, None, None);
    let cap = can_delete_local(&branch, None);
    assert!(!cap.available);
    assert_eq!(cap.reason, Some("current"));
}

#[test]
fn delete_local_blocks_base_branch() {
    let branch = test_branch("main", false, true, TrackingStatus::Local, None, None);
    let cap = can_delete_local(&branch, None);
    assert!(!cap.available);
    assert_eq!(cap.reason, Some("base"));
}

#[test]
fn delete_local_blocks_branch_in_linked_worktree() {
    let branch = test_branch("feature/x", false, false, TrackingStatus::Local, None, None);
    let cap = can_delete_local(&branch, Some(linked_worktree(true)));
    assert!(!cap.available);
    assert_eq!(cap.reason, Some("checked out in worktree"));
}

// -- can_delete_remote --

#[test]
fn delete_remote_happy_path_allows_when_remote_configured() {
    let branch = test_branch("feature/x", false, false, TrackingStatus::Local, None, None);
    assert!(can_delete_remote(&branch, None, true).available);
}

#[test]
fn delete_remote_blocks_when_no_remote() {
    let branch = test_branch("feature/x", false, false, TrackingStatus::Local, None, None);
    let cap = can_delete_remote(&branch, None, false);
    assert!(!cap.available);
    assert_eq!(cap.reason, Some("no remote"));
}

#[test]
fn delete_remote_blocks_branch_in_linked_worktree() {
    let branch = test_branch("feature/x", false, false, TrackingStatus::Local, None, None);
    let cap = can_delete_remote(&branch, Some(linked_worktree(true)), true);
    assert!(!cap.available);
    assert_eq!(cap.reason, Some("checked out in worktree"));
}

// -- can_force_delete_local --

#[test]
fn force_delete_local_happy_path_allows_other_branch() {
    let branch = test_branch("feature/x", false, false, TrackingStatus::Local, None, None);
    assert!(can_force_delete_local(&branch, None).available);
}

#[test]
fn force_delete_local_blocks_base_branch() {
    let branch = test_branch("main", false, true, TrackingStatus::Local, None, None);
    let cap = can_force_delete_local(&branch, None);
    assert!(!cap.available);
    assert_eq!(cap.reason, Some("base"));
}

#[test]
fn force_delete_local_blocks_branch_in_linked_worktree() {
    let branch = test_branch("feature/x", false, false, TrackingStatus::Local, None, None);
    let cap = can_force_delete_local(&branch, Some(linked_worktree(true)));
    assert!(!cap.available);
    assert_eq!(cap.reason, Some("checked out in worktree"));
}

// -- can_delete_local_and_remote --

#[test]
fn delete_local_and_remote_happy_path_allows_when_remote_configured() {
    let branch = test_branch("feature/x", false, false, TrackingStatus::Local, None, None);
    assert!(can_delete_local_and_remote(&branch, None, true).available);
}

#[test]
fn delete_local_and_remote_blocks_when_no_remote() {
    let branch = test_branch("feature/x", false, false, TrackingStatus::Local, None, None);
    let cap = can_delete_local_and_remote(&branch, None, false);
    assert!(!cap.available);
    assert_eq!(cap.reason, Some("no remote"));
}

#[test]
fn delete_local_and_remote_blocks_branch_in_linked_worktree() {
    let branch = test_branch("feature/x", false, false, TrackingStatus::Local, None, None);
    let cap = can_delete_local_and_remote(&branch, Some(linked_worktree(true)), true);
    assert!(!cap.available);
    assert_eq!(cap.reason, Some("checked out in worktree"));
}

// -- can_push --

#[test]
fn push_happy_path_when_remote_configured() {
    let branch = test_branch("feature/x", false, false, TrackingStatus::Local, None, None);
    assert!(can_push(&branch, true, true).available);
}

#[test]
fn push_blocks_when_no_remote() {
    let branch = test_branch("feature/x", false, false, TrackingStatus::Local, None, None);
    let cap = can_push(&branch, false, true);
    assert!(!cap.available);
    assert_eq!(cap.reason, Some("no remote"));
}

#[test]
fn push_ignores_worktree_state() {
    // can_push has no worktree parameter at all; a dirty, current branch
    // with a configured remote must still be pushable.
    let branch = test_branch("feature/x", true, false, TrackingStatus::Local, None, None);
    assert!(can_push(&branch, true, false).available);
}

#[test]
fn push_blocks_when_tracked_and_not_ahead() {
    let upstream = TrackingStatus::Upstream {
        remote_ref: "origin/feature/x".to_string(),
        gone: false,
    };
    let branch = test_branch("feature/x", false, false, upstream, Some(0), None);
    let cap = can_push(&branch, true, true);
    assert!(!cap.available);
    assert_eq!(cap.reason, Some("not ahead"));
}

#[test]
fn push_allows_when_tracked_and_ahead() {
    let upstream = TrackingStatus::Upstream {
        remote_ref: "origin/feature/x".to_string(),
        gone: false,
    };
    let branch = test_branch("feature/x", false, false, upstream, Some(3), None);
    assert!(can_push(&branch, true, true).available);
}

// -- can_pull --

#[test]
fn pull_allows_behind_current_branch() {
    let branch = test_branch(
        "feature/x",
        true,
        false,
        TrackingStatus::Local,
        None,
        Some(3),
    );
    assert!(can_pull(&branch, None, true).available);
}

#[test]
fn pull_allows_non_current_branch_behind_and_not_checked_out() {
    let branch = test_branch(
        "feature/x",
        false,
        false,
        TrackingStatus::Local,
        None,
        Some(3),
    );
    assert!(can_pull(&branch, None, true).available);
}

#[test]
fn pull_blocks_non_current_branch_when_not_behind() {
    let branch = test_branch("feature/x", false, false, TrackingStatus::Local, None, None);
    let cap = can_pull(&branch, None, true);
    assert!(!cap.available);
    assert_eq!(cap.reason, Some("not behind"));
}

#[test]
fn pull_blocks_behind_branch_in_other_worktree() {
    let branch = test_branch(
        "feature/x",
        false,
        false,
        TrackingStatus::Local,
        None,
        Some(3),
    );
    let cap = can_pull(&branch, Some(linked_worktree(true)), true);
    assert!(!cap.available);
    assert_eq!(cap.reason, Some("checked out in worktree"));
}

#[test]
fn pull_blocks_when_no_remote() {
    let branch = test_branch(
        "feature/x",
        true,
        false,
        TrackingStatus::Local,
        None,
        Some(3),
    );
    let cap = can_pull(&branch, None, false);
    assert!(!cap.available);
    assert_eq!(cap.reason, Some("no remote"));
}

// -- can_fast_forward --

#[test]
fn fast_forward_happy_path_when_behind_and_not_ahead() {
    let branch = test_branch(
        "feature/x",
        false,
        false,
        TrackingStatus::Local,
        Some(0),
        Some(2),
    );
    assert!(can_fast_forward(&branch, None, true).available);
}

#[test]
fn fast_forward_blocks_when_in_sync() {
    let branch = test_branch(
        "feature/x",
        false,
        false,
        TrackingStatus::Local,
        Some(0),
        Some(0),
    );
    let cap = can_fast_forward(&branch, None, true);
    assert!(!cap.available);
    assert_eq!(cap.reason, Some("in sync"));
}

#[test]
fn fast_forward_blocks_branch_in_other_worktree() {
    let branch = test_branch(
        "feature/x",
        false,
        false,
        TrackingStatus::Local,
        Some(0),
        Some(2),
    );
    let cap = can_fast_forward(&branch, Some(linked_worktree(true)), true);
    assert!(!cap.available);
    assert_eq!(cap.reason, Some("checked out in worktree"));
}

#[test]
fn fast_forward_blocks_when_no_remote() {
    let branch = test_branch(
        "feature/x",
        false,
        false,
        TrackingStatus::Local,
        Some(0),
        Some(2),
    );
    let cap = can_fast_forward(&branch, None, false);
    assert!(!cap.available);
    assert_eq!(cap.reason, Some("no remote"));
}

// -- can_force_push --

#[test]
fn force_push_happy_path_when_ahead() {
    let branch = test_branch(
        "feature/x",
        false,
        false,
        TrackingStatus::Local,
        Some(2),
        Some(0),
    );
    assert!(can_force_push(&branch, true).available);
}

#[test]
fn force_push_blocks_when_behind() {
    let branch = test_branch(
        "feature/x",
        false,
        false,
        TrackingStatus::Local,
        Some(0),
        Some(2),
    );
    let cap = can_force_push(&branch, true);
    assert!(!cap.available);
    assert_eq!(cap.reason, Some("behind or in sync"));
}

#[test]
fn force_push_blocks_when_no_remote() {
    let branch = test_branch(
        "feature/x",
        false,
        false,
        TrackingStatus::Local,
        Some(2),
        Some(0),
    );
    let cap = can_force_push(&branch, false);
    assert!(!cap.available);
    assert_eq!(cap.reason, Some("no remote"));
}

// -- can_rebase --

#[test]
fn rebase_allows_current_branch_regardless_of_cleanliness() {
    let branch = test_branch("feature/x", true, false, TrackingStatus::Local, None, None);
    assert!(can_rebase(&branch, Some(linked_worktree(false)), false).available);
    assert!(can_rebase(&branch, None, false).available);
}

#[test]
fn rebase_allows_branch_not_checked_out_anywhere() {
    let branch = test_branch("feature/x", false, false, TrackingStatus::Local, None, None);
    assert!(can_rebase(&branch, None, true).available);
}

#[test]
fn rebase_blocks_base_branch() {
    let branch = test_branch("main", false, true, TrackingStatus::Local, None, None);
    let cap = can_rebase(&branch, None, true);
    assert!(!cap.available);
    assert_eq!(cap.reason, Some("base"));
}

#[test]
fn rebase_blocks_branch_in_other_worktree() {
    let branch = test_branch("feature/x", false, false, TrackingStatus::Local, None, None);
    let cap = can_rebase(&branch, Some(linked_worktree(true)), true);
    assert!(!cap.available);
    assert_eq!(cap.reason, Some("checked out in other worktree"));
}

// -- can_merge_into_base --

#[test]
fn merge_into_base_allows_when_base_not_in_worktree() {
    let branch = test_branch("feature/x", false, false, TrackingStatus::Local, None, None);
    assert!(can_merge_into_base(&branch, None).available);
}

#[test]
fn merge_into_base_allows_when_base_worktree_clean() {
    let branch = test_branch("feature/x", false, false, TrackingStatus::Local, None, None);
    assert!(can_merge_into_base(&branch, Some(linked_worktree(true))).available);
}

#[test]
fn merge_into_base_blocks_when_base_worktree_dirty() {
    let branch = test_branch("feature/x", false, false, TrackingStatus::Local, None, None);
    let cap = can_merge_into_base(&branch, Some(linked_worktree(false)));
    assert!(!cap.available);
    assert_eq!(cap.reason, Some("base dirty"));
}

// -- can_squash_into_base --

#[test]
fn squash_into_base_allows_when_base_not_in_worktree() {
    let branch = test_branch("feature/x", false, false, TrackingStatus::Local, None, None);
    assert!(can_squash_into_base(&branch, None).available);
}

#[test]
fn squash_into_base_blocks_when_base_worktree_dirty() {
    let branch = test_branch("feature/x", false, false, TrackingStatus::Local, None, None);
    let cap = can_squash_into_base(&branch, Some(linked_worktree(false)));
    assert!(!cap.available);
    assert_eq!(cap.reason, Some("base dirty"));
}
