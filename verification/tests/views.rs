use git_branch_manager::types::BranchAction;
use git_branch_manager::job_queue::ViewId;
use git_branch_manager::views::{graph_affected_views, next_sort_state};

#[test]
fn graph_actions_refresh_the_views_they_touch() {
    assert_eq!(graph_affected_views(BranchAction::DeleteLocal), vec![ViewId::Branches, ViewId::Remotes]);
    assert_eq!(graph_affected_views(BranchAction::Checkout), vec![ViewId::Branches, ViewId::Worktrees]);
    assert_eq!(
        graph_affected_views(BranchAction::FetchPrune),
        vec![ViewId::Branches, ViewId::Remotes, ViewId::Tags]
    );
    assert_eq!(
        graph_affected_views(BranchAction::Pull),
        vec![ViewId::Branches, ViewId::Remotes, ViewId::Worktrees]
    );
    assert_eq!(graph_affected_views(BranchAction::WorktreeForceRemove), vec![ViewId::Worktrees]);
    assert_eq!(graph_affected_views(BranchAction::PushTag), vec![ViewId::Tags]);
    assert!(graph_affected_views(BranchAction::ViewRemotePR).is_empty());
}

#[test]
fn sort_cycle_wraps_both_ways() {
    let states = vec![(None, true), (Some(0), true), (Some(0), false), (Some(2), true)];
    assert_eq!(next_sort_state(&states, (None, true), true), (Some(0), true));
    assert_eq!(next_sort_state(&states, (Some(2), true), true), (None, true));
    assert_eq!(next_sort_state(&states, (None, true), false), (Some(2), true));
    assert_eq!(next_sort_state(&states, (Some(0), false), false), (Some(0), true));
    // a state outside the cycle counts as the first
    assert_eq!(next_sort_state(&states, (Some(9), false), true), (Some(0), true));
}
