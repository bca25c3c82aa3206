use git_branch_manager::executor::{branch_of_worktree, ActionRun, GitWork, RunPlan};
use git_branch_manager::types::{BranchAction, FailureCause, OperationResult};
use git_branch_manager::worktree::parse_worktree_list;

fn run(action: BranchAction, targets: &[&str], remote: Option<&str>) -> ActionRun {
    ActionRun::new(
        action,
        targets.iter().map(|t| t.to_string()).collect(),
        "main".to_string(),
        false,
        remote.map(|r| r.to_string()),
    )
}

fn ok(name: &str, action: BranchAction) -> OperationResult {
    OperationResult::success(name, action, "ok")
}

fn failed(name: &str, action: BranchAction) -> OperationResult {
    OperationResult {
        branch_name: name.to_string(),
        action,
        success: false,
        message: "no".to_string(),
        failure: None,
    }
}

/// Calls `next` until the plan asks for work or says the run is done.
fn step(r: &mut ActionRun, cancelled: bool) -> RunPlan {
    for _ in 0..16 {
        let p = r.next(cancelled);
        if p.work.is_some() || p.done {
            return p;
        }
    }
    panic!("run made no progress");
}

#[test]
fn delete_local_and_remote_sends_only_deleted_branches_to_the_remote() {
    let mut r = run(BranchAction::DeleteLocalAndRemote, &["a", "b"], Some("upstream"));
    assert!(matches!(step(&mut r, false).work, Some(GitWork::OpenRepo)));
    r.record_repo(Ok(()));
    let p = step(&mut r, false);
    let progress = p.progress.unwrap();
    assert_eq!((progress.completed, progress.total, progress.current_item.as_str()), (0, 2, "a"));
    assert!(matches!(p.work, Some(GitWork::DeleteLocal { ref name, force: false }) if name == "a"));
    r.record(vec![ok("a", BranchAction::DeleteLocal)]);
    let p = step(&mut r, false);
    assert!(matches!(p.work, Some(GitWork::DeleteLocal { ref name, .. }) if name == "b"));
    r.record(vec![failed("b", BranchAction::DeleteLocal)]);
    let p = step(&mut r, false);
    assert_eq!(p.progress.unwrap().current_item, "Deleting remote branches...");
    match p.work {
        Some(GitWork::DeleteRemotes { remote, names }) => {
            assert_eq!(remote, "upstream");
            assert_eq!(names, vec!["a".to_string()]);
        }
        other => panic!("unexpected work {other:?}"),
    }
    r.record(vec![ok("a", BranchAction::DeleteRemoteBranch)]);
    let p = step(&mut r, false);
    assert!(p.done);
    let progress = p.progress.unwrap();
    assert_eq!((progress.completed, progress.total, progress.current_item.as_str()), (2, 2, "Done"));
    assert_eq!(r.results.len(), 3);
    assert!(r.next(false).done);
}

#[test]
fn cancel_stops_the_delete_loop_and_records_it() {
    let mut r = run(BranchAction::DeleteLocal, &["a", "b"], None);
    step(&mut r, false);
    r.record_repo(Ok(()));
    step(&mut r, false);
    r.record(vec![ok("a", BranchAction::DeleteLocal)]);
    let p = step(&mut r, true);
    assert!(p.done);
    assert_eq!(p.progress.unwrap().completed, 1);
    assert_eq!(r.results.len(), 2);
    assert_eq!(r.results[1].message, "Cancelled by user");
    assert_eq!(r.results[1].branch_name, "");
}

#[test]
fn push_stops_silently_on_cancel() {
    let mut r = run(BranchAction::Push, &["a", "b"], None);
    let p = step(&mut r, false);
    assert!(matches!(p.work, Some(GitWork::Push { ref name }) if name == "a"));
    r.record(vec![ok("a", BranchAction::Push)]);
    let p = step(&mut r, true);
    assert!(p.done);
    assert_eq!(r.results.len(), 1);
}

#[test]
fn failed_repo_open_ends_the_run_without_a_closing_report() {
    let mut r = run(BranchAction::Checkout, &["feat"], None);
    step(&mut r, false);
    r.record_repo(Err("not a repo".to_string()));
    let p = r.next(false);
    assert!(p.done);
    assert!(p.progress.is_none());
    assert_eq!(r.results.len(), 1);
    assert_eq!(r.results[0].branch_name, "feat");
    assert_eq!(r.results[0].message, "Failed to open repo: not a repo");
}

#[test]
fn checkout_of_nothing_does_nothing() {
    let mut r = run(BranchAction::Checkout, &[], None);
    let p = step(&mut r, false);
    assert!(p.done);
    let progress = p.progress.unwrap();
    assert_eq!((progress.completed, progress.total), (0, 0));
}

#[test]
fn remote_actions_use_the_selected_remote() {
    let mut r = run(BranchAction::CheckoutRemote, &["remote-checkout"], Some("upstream"));
    match step(&mut r, false).work {
        Some(GitWork::CheckoutRemote { remote, name }) => {
            assert_eq!(remote, "upstream");
            assert_eq!(name, "remote-checkout");
        }
        other => panic!("unexpected work {other:?}"),
    }
    let mut r = run(BranchAction::MergeRemoteIntoCurrent, &["feat"], None);
    match step(&mut r, false).work {
        Some(GitWork::MergeRemoteIntoCurrent { full_ref, name }) => {
            assert_eq!(full_ref, "origin/feat");
            assert_eq!(name, "feat");
        }
        other => panic!("unexpected work {other:?}"),
    }
    let mut r = run(BranchAction::CherryPickRemote, &["feat"], Some("fork"));
    assert!(matches!(step(&mut r, false).work, Some(GitWork::CherryPickRemote { ref full_ref, .. }) if full_ref == "fork/feat"));
}

#[test]
fn cascade_rejects_the_primary_worktree() {
    let listing = "worktree /repo\nHEAD 0123456789abcdef0123456789abcdef01234567\nbranch refs/heads/main\n\n";
    let mut r = run(BranchAction::DeleteBranchAndRemoveWorktreeForce, &["main"], None);
    step(&mut r, false);
    r.record_repo(Ok(()));
    assert!(matches!(step(&mut r, false).work, Some(GitWork::ListWorktrees)));
    r.record_worktrees(Ok(parse_worktree_list(listing, 0)));
    let p = step(&mut r, false);
    assert!(p.done);
    assert!(r.results.iter().any(|result| matches!(
        &result.failure,
        Some(FailureCause::CheckedOutInWorktree { is_main: true, .. })
    )));
    assert_eq!(r.results[0].message, "Cannot remove the primary worktree at /repo");
}

#[test]
fn cascade_removes_the_worktree_then_the_branch_then_the_remote() {
    let listing = "worktree /repo\nHEAD 0123456789abcdef0123456789abcdef01234567\nbranch refs/heads/main\n\nworktree /wt/feat\nHEAD fedcba9876543210fedcba9876543210fedcba98\nbranch refs/heads/feat\n\n";
    let mut r = run(BranchAction::DeleteBranchAndRemoveWorktreeRemote, &["feat", "gone"], Some("up"));
    step(&mut r, false);
    r.record_repo(Ok(()));
    step(&mut r, false);
    r.record_worktrees(Ok(parse_worktree_list(listing, 0)));
    let p = step(&mut r, false);
    assert!(matches!(p.work, Some(GitWork::RemoveWorktree { ref path, force: false, index: 0, total: 2 }) if path == "/wt/feat"));
    r.record(vec![ok("/wt/feat", BranchAction::WorktreeRemove)]);
    let p = step(&mut r, false);
    assert!(matches!(p.work, Some(GitWork::DeleteLocal { ref name, force: false }) if name == "feat"));
    r.record(vec![ok("feat", BranchAction::DeleteLocal)]);
    // "gone" has no worktree: its branch deletion is still attempted.
    let p = step(&mut r, false);
    assert!(matches!(p.work, Some(GitWork::DeleteLocal { ref name, .. }) if name == "gone"));
    r.record(vec![failed("gone", BranchAction::DeleteLocal)]);
    match step(&mut r, false).work {
        Some(GitWork::DeleteRemotes { remote, names }) => {
            assert_eq!(remote, "up");
            assert_eq!(names, vec!["feat".to_string()]);
        }
        other => panic!("unexpected work {other:?}"),
    }
}

#[test]
fn cascade_reports_a_failed_listing_for_every_target() {
    let mut r = run(BranchAction::DeleteBranchAndRemoveWorktree, &["x", "y"], None);
    step(&mut r, false);
    r.record_repo(Ok(()));
    step(&mut r, false);
    r.record_worktrees(Err("boom".to_string()));
    let p = step(&mut r, false);
    assert!(p.done);
    assert_eq!(r.results.len(), 2);
    assert_eq!(r.results[1].message, "Cannot inspect worktrees for y: boom");
    assert_eq!(r.results[1].failure, Some(FailureCause::Other { raw_message: "boom".to_string() }));
}

#[test]
fn worktree_removal_with_branch_deletes_it_on_origin() {
    let mut r = run(BranchAction::WorktreeRemoveAndDeleteBranchRemote, &["/wt/feat"], Some("up"));
    step(&mut r, false);
    r.record_repo(Ok(()));
    assert!(matches!(step(&mut r, false).work, Some(GitWork::BranchOfWorktree { ref path }) if path == "/wt/feat"));
    r.record_branch(Some("feat".to_string()));
    let p = step(&mut r, false);
    assert!(matches!(p.work, Some(GitWork::RemoveWorktree { force: false, index: 0, total: 1, .. })));
    r.record(vec![ok("/wt/feat", BranchAction::WorktreeRemove)]);
    step(&mut r, false);
    r.record(vec![ok("feat", BranchAction::DeleteLocal)]);
    match step(&mut r, false).work {
        Some(GitWork::DeleteRemotes { remote, names }) => {
            assert_eq!(remote, "origin");
            assert_eq!(names, vec!["feat".to_string()]);
        }
        other => panic!("unexpected work {other:?}"),
    }
}

#[test]
fn remote_and_local_deletion_files_the_local_result_under_its_action() {
    let mut r = run(BranchAction::DeleteRemoteAndLocal, &["feat"], None);
    match step(&mut r, false).work {
        Some(GitWork::DeleteRemotes { remote, names }) => {
            assert_eq!(remote, "origin");
            assert_eq!(names, vec!["feat".to_string()]);
        }
        other => panic!("unexpected work {other:?}"),
    }
    r.record(vec![ok("feat", BranchAction::DeleteRemoteBranch)]);
    assert!(matches!(step(&mut r, false).work, Some(GitWork::OpenRepo)));
    r.record_repo(Ok(()));
    step(&mut r, false);
    r.record(vec![ok("feat", BranchAction::DeleteLocal)]);
    assert!(step(&mut r, false).done);
    assert_eq!(r.results[1].action, BranchAction::DeleteRemoteAndLocal);
}

#[test]
fn tag_deletion_pushes_only_deleted_tags() {
    let mut r = run(BranchAction::DeleteTagAndRemote, &["v1", "v2"], None);
    step(&mut r, false);
    r.record_repo(Ok(()));
    assert!(matches!(step(&mut r, false).work, Some(GitWork::DeleteTags { ref names }) if names.len() == 2));
    r.record(vec![ok("v1", BranchAction::DeleteTag), failed("v2", BranchAction::DeleteTag)]);
    assert!(matches!(step(&mut r, false).work, Some(GitWork::DeleteRemoteTags { ref names }) if names == &vec!["v1".to_string()]));
}

#[test]
fn fetch_needs_no_targets() {
    let mut r = run(BranchAction::FetchPrune, &[], None);
    assert!(matches!(step(&mut r, false).work, Some(GitWork::Fetch { prune: true })));
    r.record(vec![ok("", BranchAction::FetchPrune)]);
    let p = step(&mut r, false);
    assert!(p.done);
    assert_eq!(p.progress.unwrap().completed, 0);
}

#[test]
fn branch_of_worktree_prefers_canonical_paths() {
    let listing = "worktree /repo\nHEAD 0123456789abcdef0123456789abcdef01234567\nbranch refs/heads/main\n\nworktree /link/feat\nHEAD fedcba9876543210fedcba9876543210fedcba98\nbranch refs/heads/feat\n\n";
    let ws = parse_worktree_list(listing, 0);
    let canon = vec![Some("/repo".to_string()), Some("/real/feat".to_string())];
    assert_eq!(branch_of_worktree(&ws, &canon, "/other/feat", Some("/real/feat")), Some("feat".to_string()));
    assert_eq!(branch_of_worktree(&ws, &canon, "/link/feat", None), Some("feat".to_string()));
    assert_eq!(branch_of_worktree(&ws, &canon, "/nowhere", Some("/nowhere")), None);
}
