use git_branch_manager::operations::command_failure_text;
use git_branch_manager::operations::{
    checkout_branch, cherry_pick_remote, classify_delete_command_error, create_worktree, delete_failure_result, delete_local, delete_locals_with_progress,
    delete_local_force, delete_remotes_batch_for_remote, delete_remotes_with_progress_for_remote, fast_forward,
    fetch, fetch_sync, force_remove_worktree, merge_branch, needs_worktree_lookup, pull_branch, push_branch,
    rebase_branch, remove_worktree, worktree_path_for, CmdOutcome, DeleteOutcome, LocalDeleteFacts, RemovalFacts,
};
use git_branch_manager::types::{BranchAction, FailureCause};

#[test]
fn fetch_results_follow_the_command_outcome() {
    let ok = fetch(&CmdOutcome::Succeeded);
    assert!(ok.success);
    assert_eq!(ok.message, "Fetched all remotes");
    assert_eq!(ok.action, BranchAction::Fetch);
    let failed = fetch(&CmdOutcome::Failed { stderr: "  fatal: no remote\n".into() });
    assert!(!failed.success);
    assert_eq!(failed.message, "fatal: no remote");
    assert_eq!(fetch(&CmdOutcome::Cancelled).message, "Cancelled");
    assert_eq!(fetch(&CmdOutcome::SpawnFailed { error: "no git".into() }).message, "no git");
    assert!(fetch_sync(&CmdOutcome::Succeeded));
    assert!(!fetch_sync(&CmdOutcome::Cancelled));
}

#[test]
fn branch_operations_name_the_branch() {
    assert_eq!(fast_forward("x", &CmdOutcome::Succeeded).message, "Fast-forwarded x");
    assert_eq!(pull_branch("x", true, &CmdOutcome::Succeeded).message, "Pulled x");
    assert_eq!(pull_branch("x", false, &CmdOutcome::Succeeded).action, BranchAction::FastForward);
    assert_eq!(push_branch("x", &CmdOutcome::Succeeded).message, "Pushed x");
    let merged = merge_branch("x", "main", true, true, true);
    assert_eq!(merged[0].message, "Merged x into main");
    assert_eq!(merged[0].action, BranchAction::SquashMerge);
    assert_eq!(merge_branch("x", "main", false, false, true)[0].message, "Failed to checkout main");
    assert_eq!(merge_branch("x", "main", false, true, false)[0].message, "Merge conflict \u{2014} aborted");
    assert_eq!(rebase_branch("x", "main", true, true)[0].message, "Rebased x onto main");
    assert_eq!(cherry_pick_remote("origin/x", "x", false)[0].message, "Cherry-pick conflict \u{2014} aborted");
}

#[test]
fn batch_remote_delete_falls_back_to_single_deletes() {
    let names = vec!["a".to_string(), "b".to_string()];
    let all = delete_remotes_batch_for_remote(&names, &CmdOutcome::Succeeded, &vec![]);
    assert!(all.iter().all(|r| r.success));
    assert_eq!(all[1].message, "Deleted remote b");
    let singles = vec![CmdOutcome::Succeeded, CmdOutcome::Failed { stderr: "denied".into() }];
    let mixed = delete_remotes_batch_for_remote(&names, &CmdOutcome::Failed { stderr: "x".into() }, &singles);
    assert!(mixed[0].success);
    assert!(!mixed[1].success);
    assert_eq!(mixed[1].message, "denied");
    assert!(delete_remotes_batch_for_remote(&vec![], &CmdOutcome::Succeeded, &vec![]).is_empty());

    let stopped = delete_remotes_with_progress_for_remote(&names, &vec![CmdOutcome::Succeeded]);
    assert_eq!(stopped.len(), 2);
    assert_eq!(stopped[1].message, "Cancelled");
}

#[test]
fn delete_errors_are_classified() {
    assert_eq!(classify_delete_command_error("error: The branch 'x' is not fully merged.", None), FailureCause::NotMerged);
    assert_eq!(classify_delete_command_error("error: branch 'x' not found.", None), FailureCause::BranchNotFound);
    assert!(needs_worktree_lookup("error: Cannot delete branch 'x' checked out at '/w'"));
    assert_eq!(
        classify_delete_command_error("error: Cannot delete branch 'x' checked out at '/w'", Some(Ok(Some(("/w".into(), false))))),
        FailureCause::CheckedOutInWorktree { worktree_path: "/w".into(), is_main: false }
    );
    assert_eq!(
        classify_delete_command_error("used by worktree at /w", Some(Err("boom".into()))),
        FailureCause::Other { raw_message: "used by worktree at /w (worktree lookup failed: boom)".into() }
    );
}

#[test]
fn an_already_deleted_branch_counts_as_done() {
    let r = delete_failure_result("x", BranchAction::DeleteLocal, FailureCause::BranchNotFound, "unused".into());
    assert!(r.success);
    assert_eq!(r.message, "Branch x already gone");
    let r = delete_local("x", LocalDeleteFacts::LookupFailed { not_found: true, message: "nf".into(), display: "nf".into() });
    assert!(r.success);
    let r = delete_local_force("x", LocalDeleteFacts::Ran { outcome: CmdOutcome::Succeeded, stdout: String::new(), lookup: None });
    assert_eq!(r.message, "Force-deleted x");
    let r = delete_local("x", LocalDeleteFacts::Ran {
        outcome: CmdOutcome::Failed { stderr: String::new() },
        stdout: "error: not fully merged\n".into(),
        lookup: None,
    });
    assert!(!r.success);
    assert_eq!(r.failure, Some(FailureCause::NotMerged));
    assert_eq!(r.message, "Failed to delete x: error: not fully merged");
}

#[test]
fn worktree_paths_and_removal() {
    assert_eq!(worktree_path_for("/repo", "feature/x"), "/repo/.worktrees/feature-x");
    assert_eq!(worktree_path_for("/repo/", "a"), "/repo/.worktrees/a");
    assert_eq!(create_worktree("/repo/.worktrees/a", "a", &CmdOutcome::Succeeded).message, "Created worktree at /repo/.worktrees/a");
    let facts = |clean| RemovalFacts {
        is_main_checkout: false,
        open_error: None,
        registered: true,
        clean,
        deletion: DeleteOutcome::Completed { prune: Ok(()) },
    };
    assert!(remove_worktree("/w", &facts(true)).success);
    assert_eq!(remove_worktree("/w", &facts(false)).message, "Worktree has uncommitted changes \u{2014} use force remove");
    assert!(force_remove_worktree("/w", &facts(false)).success);
    let partial = RemovalFacts {
        is_main_checkout: false,
        open_error: None,
        registered: true,
        clean: true,
        deletion: DeleteOutcome::Error { message: "denied".into(), done: 3, total: 10 },
    };
    assert_eq!(remove_worktree("/w", &partial).message, "3/10 files removed (denied)");
    let main = RemovalFacts { is_main_checkout: true, ..facts(true) };
    assert_eq!(force_remove_worktree("/repo", &main).message, "Refusing to remove the main worktree");
}

#[test]
fn checkout_reports_the_branch_or_git_error() {
    let ok = checkout_branch("feature", &CmdOutcome::Succeeded);
    assert!(ok.success);
    assert_eq!(ok.action, BranchAction::Checkout);
    assert_eq!(ok.message, "Checked out feature");
    let failed = checkout_branch("feature", &CmdOutcome::Failed { stderr: "error: pathspec\n".into() });
    assert!(!failed.success);
    assert_eq!(failed.message, "error: pathspec");
}

#[test]
fn deleting_locals_with_progress_stops_at_cancellation() {
    let names = vec!["a".to_string(), "b".to_string(), "c".to_string()];
    let facts = vec![
        LocalDeleteFacts::Ran { outcome: CmdOutcome::Succeeded, stdout: String::new(), lookup: None },
        LocalDeleteFacts::Bare,
    ];
    let rs = delete_locals_with_progress(&names, BranchAction::DeleteLocal, facts);
    assert_eq!(rs.len(), 3);
    assert!(rs[0].success);
    assert_eq!(rs[0].message, "Deleted a");
    assert!(!rs[1].success);
    assert_eq!(rs[1].message, "Failed to delete b: bare repository");
    assert_eq!(rs[2].branch_name, "c");
    assert_eq!(rs[2].message, "Cancelled");
    let all = delete_locals_with_progress(&names[..1].to_vec(), BranchAction::DeleteLocal,
        vec![LocalDeleteFacts::Ran { outcome: CmdOutcome::Succeeded, stdout: String::new(), lookup: None }]);
    assert_eq!(all.len(), 1);
}

#[test]
fn failure_text_prefers_standard_error() {
    assert_eq!(command_failure_text("  error: x\n", "out"), "error: x");
    assert_eq!(command_failure_text(" \n", " out \n"), "out");
    assert_eq!(command_failure_text("", ""), "");
}
