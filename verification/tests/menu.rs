use git_branch_manager::menu::{
    build_branch_menu_for, build_graph_menu_for, build_remote_menu_for, build_tag_menu_for,
    build_worktree_menu, remote_of_upstream, MenuItem,
};
use git_branch_manager::status::WorkingTreeStatus;
use git_branch_manager::types::{BranchAction, BranchInfo, MergeStatus, TrackingStatus};
use git_branch_manager::worktree::WorktreeInfo;

fn worktree(branch: &str) -> WorktreeInfo {
    WorktreeInfo {
        path: "/repo/.worktrees/example".to_string(),
        branch: Some(branch.to_string()),
        is_main: false,
        is_base: false,
        commit_hash: "abc1234".into(),
        wt_status: WorkingTreeStatus::clean(),
        age_date: 0,
        merge_status: MergeStatus::Unmerged,
        ahead: None,
        behind: None,
        pr: None,
    }
}

fn branch(name: &str, tracking: TrackingStatus) -> BranchInfo {
    BranchInfo {
        name: name.into(),
        is_current: false,
        is_base: false,
        tracking,
        ahead: None,
        behind: None,
        last_commit_date: 0,
        merge_status: MergeStatus::Unmerged,
        base_branch: "main".into(),
        merge_base_commit: None,
        pr: None,
        squash_confidence: None,
    }
}

fn find<'a>(items: &'a [MenuItem], label: &str) -> &'a MenuItem {
    items.iter().find(|mi| mi.label == label).unwrap()
}

#[test]
fn worktree_menu_delete_branch_enabled_when_clean() {
    let branches = vec![branch(
        "feature/clean",
        TrackingStatus::Upstream { remote_ref: "origin/feature/clean".into(), gone: false },
    )];
    let items = build_worktree_menu(&worktree("feature/clean"), &branches);
    let solo = find(&items, "Remove worktree + branch");
    let combo = find(&items, "Remove worktree + branch (local + remote)");
    assert!(solo.enabled && solo.reason.is_none());
    assert!(combo.enabled && combo.reason.is_none());
}

#[test]
fn worktree_menu_delete_branch_remote_disabled_when_no_remote() {
    let branches = vec![branch("feature/no-remote", TrackingStatus::Local)];
    let items = build_worktree_menu(&worktree("feature/no-remote"), &branches);
    let solo = find(&items, "Remove worktree + branch");
    let combo = find(&items, "Remove worktree + branch (local + remote)");
    assert!(solo.enabled && solo.reason.is_none());
    assert!(!combo.enabled);
    assert_eq!(combo.reason.as_deref(), Some("no remote"));
}

#[test]
fn worktree_menu_delete_branch_disabled_when_dirty() {
    let mut wt = worktree("feature/dirty");
    wt.wt_status = WorkingTreeStatus {
        has_staged: false,
        has_modified: true,
        has_untracked: false,
        changed_files: Vec::new(),
    };
    let items = build_worktree_menu(&wt, &Vec::new());
    let solo = find(&items, "Remove worktree + branch");
    assert!(!solo.enabled);
    assert_eq!(solo.reason.as_deref(), Some("dirty"));
}

#[test]
fn worktree_menu_delete_branch_disabled_when_detached() {
    let mut wt = worktree("feature/detached");
    wt.branch = None;
    let items = build_worktree_menu(&wt, &Vec::new());
    let solo = find(&items, "Remove worktree + branch");
    assert!(!solo.enabled);
    assert_eq!(solo.reason.as_deref(), Some("detached HEAD"));
}

#[test]
fn worktree_menu_delete_branch_disabled_when_base() {
    let mut wt = worktree("main");
    wt.is_base = true;
    let items = build_worktree_menu(&wt, &Vec::new());
    let combo = find(&items, "Remove worktree + branch (local + remote)");
    assert!(!combo.enabled);
    assert_eq!(combo.reason.as_deref(), Some("base branch"));
}

#[test]
fn main_worktree_cannot_be_removed() {
    let mut wt = worktree("main");
    wt.is_main = true;
    let items = build_worktree_menu(&wt, &Vec::new());
    assert_eq!(items.len(), 4);
    assert!(items.iter().all(|i| !i.enabled));
    assert_eq!(items[0].reason.as_deref(), Some("main worktree"));
    assert_eq!(items[0].target, "/repo/.worktrees/example");
}

#[test]
fn branch_menu_for_a_tracked_branch_ahead_of_its_upstream() {
    let mut b = branch("feat", TrackingStatus::Upstream { remote_ref: "upstream/feat".into(), gone: false });
    b.ahead = Some(2);
    let items = build_branch_menu_for(&b, false, true);
    assert_eq!(items.len(), 13);
    let labels: Vec<&str> = items.iter().map(|i| i.label.as_str()).collect();
    assert_eq!(labels[0], "Checkout");
    assert_eq!(labels[12], "Open PR in browser");
    let delete_both = find(&items, "Delete local + remote");
    assert!(delete_both.enabled);
    assert_eq!(delete_both.remote.as_deref(), Some("upstream"));
    assert_eq!(delete_both.shortcut, Some('D'));
    assert!(find(&items, "Push").enabled);
    let force = find(&items, "Force push");
    assert!(!force.enabled);
    assert_eq!(force.reason.as_deref(), Some("not behind"));
    let pull = find(&items, "Pull");
    assert_eq!(pull.reason.as_deref(), Some("not behind"));
    let pr = find(&items, "Open PR in browser");
    assert!(!pr.enabled);
    assert_eq!(pr.reason.as_deref(), Some("no PR"));
    assert_eq!(pr.action, BranchAction::ViewRemotePR);
}

#[test]
fn branch_menu_for_the_current_branch() {
    let mut b = branch("main", TrackingStatus::Local);
    b.is_current = true;
    b.is_base = true;
    let items = build_branch_menu_for(&b, true, false);
    assert_eq!(find(&items, "Checkout").reason.as_deref(), Some("current"));
    assert_eq!(find(&items, "Delete local").reason.as_deref(), Some("current"));
    assert_eq!(find(&items, "Push").reason.as_deref(), Some("no remote"));
    assert!(!find(&items, "Push").enabled);
    assert!(find(&items, "Open PR in browser").enabled);
    assert_eq!(find(&items, "Delete local + remote").remote, None);
}

#[test]
fn local_branch_can_be_pushed_once_a_remote_exists() {
    let b = branch("topic", TrackingStatus::Local);
    let items = build_branch_menu_for(&b, false, true);
    let push = find(&items, "Push");
    assert!(push.enabled && push.reason.is_none());
    assert_eq!(find(&items, "Merge into base").reason, None);
    assert_eq!(find(&items, "Fast-forward").reason.as_deref(), Some("no remote"));
}

#[test]
fn remote_menu_respects_pinned_and_local_branches() {
    let items = build_remote_menu_for("feat", "origin", true, false, false);
    assert_eq!(items.len(), 8);
    assert_eq!(find(&items, "Checkout").reason.as_deref(), Some("local exists"));
    assert!(find(&items, "Delete remote + local").enabled);
    assert_eq!(find(&items, "View PR in browser").reason.as_deref(), Some("no PR"));
    assert!(items.iter().all(|i| i.remote.as_deref() == Some("origin") && i.target == "feat"));
    let pinned = build_remote_menu_for("main", "origin", true, true, true);
    assert!(pinned.iter().all(|i| !i.enabled && i.reason.as_deref() == Some("base")));
}

#[test]
fn tag_menu_offers_delete_and_push() {
    let items = build_tag_menu_for("v1.0");
    let labels: Vec<&str> = items.iter().map(|i| i.label.as_str()).collect();
    assert_eq!(labels, vec!["Delete tag", "Delete tag (local + remote)", "Push tag to remote"]);
    assert!(items.iter().all(|i| i.enabled && i.target == "v1.0"));
}

#[test]
fn graph_menu_prefixes_labels_and_drops_shortcuts_when_refs_share_a_commit() {
    let one = vec![("v1.0".to_string(), build_tag_menu_for("v1.0"))];
    let items = build_graph_menu_for(&one);
    assert_eq!(items[0].label, "v1.0: Delete tag");
    assert_eq!(items[0].shortcut, Some('d'));
    let two = vec![
        ("v1.0".to_string(), build_tag_menu_for("v1.0")),
        ("origin/feat".to_string(), build_remote_menu_for("feat", "origin", false, false, false)),
    ];
    let items = build_graph_menu_for(&two);
    assert_eq!(items.len(), 11);
    assert_eq!(items[3].label, "origin/feat: Checkout");
    assert!(items.iter().all(|i| i.shortcut.is_none()));
}

#[test]
fn upstream_remote_is_the_part_before_the_first_slash() {
    assert_eq!(remote_of_upstream("origin/feature/x").as_deref(), Some("origin"));
    assert_eq!(remote_of_upstream("plain"), None);
}
