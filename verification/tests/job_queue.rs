use git_branch_manager::job_queue::{
    ActionJob, ActionJobQueue, CompletionSummary, DrainOutcome, PollInput, ViewId,
};
use git_branch_manager::types::{BranchAction, FailureCause, OperationResult, ProgressUpdate};

fn queue() -> ActionJobQueue {
    ActionJobQueue::new("/tmp/git-branch-manager-job-queue-test".to_string(), "main".to_string())
}

fn job(action: BranchAction, targets: &[&str]) -> ActionJob {
    ActionJob {
        action,
        targets: targets.iter().map(|s| s.to_string()).collect(),
        remote: None,
        return_view: ViewId::Branches,
    }
}

fn quiet(now_ms: i64) -> PollInput {
    PollInput { draining: DrainOutcome::Pending, progress: vec![], current_results: None, now_ms }
}

#[test]
fn enqueue_or_start_runs_immediately_when_idle() {
    let mut q = queue();
    let started = q.enqueue_or_start(BranchAction::DeleteLocal, vec!["a".into()], ViewId::Branches);
    assert!(q.is_running_for_test());
    assert_eq!(q.queued_len_for_test(), 0);
    let started = started.expect("an idle queue hands the job back to run");
    assert_eq!(started.action, BranchAction::DeleteLocal);
    assert_eq!(started.targets, vec!["a".to_string()]);
}

#[test]
fn enqueue_or_start_ignores_empty_targets() {
    let mut q = queue();
    let started = q.enqueue_or_start(BranchAction::DeleteLocal, vec![], ViewId::Branches);
    assert!(!q.is_running_for_test());
    assert!(started.is_none());
}

#[test]
fn enqueue_or_start_queues_when_busy() {
    let mut q = queue();
    q.inject_running_for_test(job(BranchAction::DeleteLocal, &["a"]));
    let started = q.enqueue_or_start(BranchAction::Push, vec!["b".into()], ViewId::Branches);
    assert!(started.is_none());
    assert_eq!(q.queued_len_for_test(), 1);
    assert_eq!(q.current_action_for_test(), Some(BranchAction::DeleteLocal));
}

#[test]
fn poll_completion_advances_queue() {
    let mut q = queue();
    q.inject_running_for_test(job(BranchAction::DeleteLocal, &["a"]));
    q.enqueue_or_start(BranchAction::Push, vec!["b".into()], ViewId::Branches);
    assert_eq!(q.queued_len_for_test(), 1);

    let poll = q.poll(PollInput {
        draining: DrainOutcome::Pending,
        progress: vec![],
        current_results: Some(vec![OperationResult::success("a", BranchAction::DeleteLocal, "ok")]),
        now_ms: 0,
    });
    assert!(poll.event.is_some());
    assert_eq!(poll.event.unwrap().action, BranchAction::DeleteLocal);
    assert_eq!(q.queued_len_for_test(), 0);
    assert_eq!(q.current_action_for_test(), Some(BranchAction::Push));
    assert_eq!(poll.start.map(|j| j.action), Some(BranchAction::Push));
}

#[test]
fn cancel_current_blocks_advance_until_drained() {
    let mut q = queue();
    q.inject_running_for_test(job(BranchAction::Merge, &["a"]));

    assert!(q.cancel_current());
    assert!(!q.is_running_for_test());
    assert!(q.is_draining_for_test());

    // A second confirmed action queues instead of starting: the cancelled
    // job's worker has not resolved yet.
    q.enqueue_or_start(BranchAction::Push, vec!["b".into()], ViewId::Branches);
    assert_eq!(q.queued_len_for_test(), 1);
    let poll = q.poll(quiet(0));
    assert!(poll.event.is_none());
    assert_eq!(q.queued_len_for_test(), 1, "must not advance while draining");

    // Once the cancelled worker's result arrives, the next job may start.
    q.poll(PollInput {
        draining: DrainOutcome::Finished(vec![OperationResult {
            branch_name: "a".into(),
            action: BranchAction::Merge,
            success: false,
            message: "Cancelled by user".into(),
            failure: None,
        }]),
        progress: vec![],
        current_results: None,
        now_ms: 0,
    });
    assert!(!q.is_draining_for_test());
    assert_eq!(q.queued_len_for_test(), 0);
    assert_eq!(q.current_action_for_test(), Some(BranchAction::Push));
}

#[test]
fn cancelled_job_that_completes_anyway_still_emits_event() {
    // A cancel does not kill the subprocess: the worker may still do real,
    // partial work before it exits. That outcome must not be discarded.
    let mut q = queue();
    q.inject_running_for_test(job(BranchAction::DeleteLocal, &["a", "b", "c"]));

    q.cancel_current();
    assert!(q.is_draining_for_test());

    // Queue a follow-up job so the aggregate counter carries forward rather
    // than resetting to zero on full idle.
    q.enqueue_or_start(BranchAction::Push, vec!["d".into()], ViewId::Branches);

    let poll = q.poll(PollInput {
        draining: DrainOutcome::Finished(vec![
            OperationResult::success("a", BranchAction::DeleteLocal, "ok"),
            OperationResult::success("b", BranchAction::DeleteLocal, "ok"),
            OperationResult {
                branch_name: String::new(),
                action: BranchAction::DeleteLocal,
                success: false,
                message: "Cancelled by user".into(),
                failure: None,
            },
        ]),
        progress: vec![],
        current_results: None,
        now_ms: 0,
    });
    let event = poll.event.expect("real partial results must not be dropped");
    assert_eq!(event.action, BranchAction::DeleteLocal);
    assert_eq!(event.results.iter().filter(|r| r.success).count(), 2);
    assert!(!q.is_draining_for_test());
    assert_eq!(q.current_action_for_test(), Some(BranchAction::Push));

    // The cancelled job's full target count folds into the aggregate counter.
    assert_eq!(q.render_data(0).targets_done, 3);
    assert_eq!(q.render_data(0).targets_total, 4);
}

#[test]
fn clear_queued_does_not_touch_running_job() {
    let mut q = queue();
    q.inject_running_for_test(job(BranchAction::DeleteLocal, &["a"]));
    q.enqueue_or_start(BranchAction::Push, vec!["b".into()], ViewId::Branches);
    q.enqueue_or_start(BranchAction::Push, vec!["c".into()], ViewId::Branches);
    assert_eq!(q.queued_len_for_test(), 2);

    q.clear_queued();

    assert_eq!(q.queued_len_for_test(), 0);
    assert!(q.is_running_for_test());
    assert_eq!(q.current_action_for_test(), Some(BranchAction::DeleteLocal));
}

#[test]
fn target_count_math_across_queue() {
    let mut q = queue();
    q.inject_running_for_test(job(BranchAction::DeleteLocal, &["a", "b", "c"]));
    q.enqueue_or_start(BranchAction::Push, vec!["d".into(), "e".into()], ViewId::Branches);

    let view = q.render_data(0);
    assert_eq!(view.targets_total, 5);
    assert_eq!(view.targets_done, 0);

    q.poll(PollInput {
        draining: DrainOutcome::Pending,
        progress: vec![ProgressUpdate { completed: 2, total: 3, current_item: "b".into() }],
        current_results: None,
        now_ms: 0,
    });

    let view = q.render_data(0);
    assert_eq!(view.targets_done, 2);
    assert_eq!(view.targets_total, 5);
}

#[test]
fn render_data_hidden_when_idle() {
    let q = queue();
    assert!(!q.render_data(0).visible);
}

#[test]
fn completion_summary_counts_success_and_failure() {
    let results = vec![
        OperationResult::success("a", BranchAction::DeleteLocal, "ok"),
        OperationResult {
            branch_name: "b".into(),
            action: BranchAction::DeleteLocal,
            success: false,
            message: "failed".into(),
            failure: None,
        },
        OperationResult::failure("c", BranchAction::DeleteLocal, FailureCause::BranchNotFound, "already gone"),
    ];
    let summary = CompletionSummary::new(BranchAction::DeleteLocal, &results, 1_000);
    assert_eq!(summary.success_count, 2);
    assert_eq!(summary.fail_count, 1);
    assert!(!summary.is_expired(1_000));
}

#[test]
fn summary_expires_after_linger_time() {
    let mut q = queue();
    q.inject_running_for_test(job(BranchAction::Push, &["a"]));
    q.poll(PollInput {
        draining: DrainOutcome::Pending,
        progress: vec![],
        current_results: Some(vec![OperationResult::success("a", BranchAction::Push, "ok")]),
        now_ms: 10_000,
    });
    let view = q.render_data(10_000);
    assert!(view.visible);
    assert!(view.summary.is_some());
    assert!(q.render_data(14_000).summary.is_some());
    assert!(q.render_data(14_001).summary.is_none());
    let poll = q.poll(quiet(14_001));
    assert!(poll.dirty);
    assert!(!q.render_data(14_001).visible);
}

#[test]
fn disconnected_draining_job_advances_without_event() {
    let mut q = queue();
    q.inject_running_for_test(job(BranchAction::Rebase, &["a"]));
    q.cancel_current();
    q.enqueue_or_start(BranchAction::Push, vec!["b".into()], ViewId::Branches);
    let poll = q.poll(PollInput {
        draining: DrainOutcome::Disconnected,
        progress: vec![],
        current_results: None,
        now_ms: 0,
    });
    assert!(poll.event.is_none());
    assert!(poll.dirty);
    assert_eq!(q.current_action_for_test(), Some(BranchAction::Push));
    assert_eq!(q.render_data(0).targets_done, 1);
}

#[test]
fn session_counter_resets_once_queue_drains() {
    let mut q = queue();
    q.enqueue_or_start(BranchAction::Push, vec!["a".into(), "b".into()], ViewId::Branches);
    q.poll(PollInput {
        draining: DrainOutcome::Pending,
        progress: vec![],
        current_results: Some(vec![]),
        now_ms: 0,
    });
    let view = q.render_data(0);
    assert_eq!(view.targets_done, 0);
    assert_eq!(view.targets_total, 0);
}
