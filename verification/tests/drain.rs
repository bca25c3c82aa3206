use git_branch_manager::drain::{drain_step, DrainMsg, DrainView, UiEffect};
use git_branch_manager::job_queue::{JobEvent, ViewId};
use git_branch_manager::overlay::Overlay;
use git_branch_manager::remotes::RemoteBranchInfo;
use git_branch_manager::types::{BranchAction, FailureCause, MergeStatus, OperationResult};

fn remote_row(remote: &str, short: &str) -> RemoteBranchInfo {
    RemoteBranchInfo {
        full_ref: format!("{remote}/{short}"),
        remote: remote.into(),
        short_name: short.into(),
        has_local: true,
        is_base: false,
        last_commit_date: 0,
        merge_status: MergeStatus::Pending,
        ahead: None,
        behind: None,
        pr: None,
    }
}

fn result(name: &str, action: BranchAction, success: bool, failure: Option<FailureCause>) -> OperationResult {
    OperationResult { branch_name: name.into(), action, success, message: String::new(), failure }
}

fn empty_view() -> DrainView {
    DrainView { overlay: None, graph: None, graph_generation: 1, branches: Vec::new(), remotes: Vec::new() }
}

#[test]
fn finished_job_with_failures_opens_results_without_switching_view() {
    let failures = vec![result("x", BranchAction::DeleteLocal, false, Some(FailureCause::NotMerged))];
    let ev = JobEvent {
        action: BranchAction::DeleteLocal,
        targets: vec!["x".into()],
        remote: None,
        return_view: ViewId::Branches,
        results: failures.clone(),
        failures,
    };
    let (view, effects) = drain_step(empty_view(), DrainMsg::JobFinished(ev));
    match view.overlay {
        Some(Overlay::Results { results }) => assert_eq!(results[0].branch_name, "x"),
        other => panic!("unexpected {other:?}"),
    }
    assert_eq!(effects, vec![UiEffect::Refresh(ViewId::Branches), UiEffect::Refresh(ViewId::Remotes)]);
}

#[test]
fn successful_job_stays_non_modal_and_drops_deleted_remotes() {
    let mut v = empty_view();
    v.remotes = vec![remote_row("origin", "a"), remote_row("origin", "b"), remote_row("upstream", "a")];
    let ev = JobEvent {
        action: BranchAction::DeleteLocalAndRemote,
        targets: vec!["a".into()],
        remote: None,
        return_view: ViewId::Graph,
        results: vec![
            result("a", BranchAction::DeleteLocal, true, None),
            result("a", BranchAction::DeleteRemoteBranch, true, None),
        ],
        failures: Vec::new(),
    };
    let (view, effects) = drain_step(v, DrainMsg::JobFinished(ev));
    assert!(view.overlay.is_none());
    let left: Vec<&str> = view.remotes.iter().map(|r| r.full_ref.as_str()).collect();
    assert_eq!(left, vec!["origin/b", "upstream/a"]);
    assert_eq!(
        effects,
        vec![UiEffect::Refresh(ViewId::Branches), UiEffect::Refresh(ViewId::Remotes), UiEffect::Refresh(ViewId::Graph)]
    );
}

#[test]
fn check_results_update_the_branch_and_its_remote() {
    let mut v = empty_view();
    v.remotes = vec![remote_row("origin", "x")];
    let (view, effects) =
        drain_step(v, DrainMsg::CheckResult { branch_name: "x".into(), status: MergeStatus::SquashMerged });
    assert!(effects.is_empty());
    assert_eq!(view.remotes[0].merge_status, MergeStatus::SquashMerged);
}
