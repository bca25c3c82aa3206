use git_branch_manager::git_steps::{git_step, GitStep, StepKind, StepStage};

/// The commands run when the checkout and the merge or rebase give the
/// given outcomes.
fn run(kind: StepKind, stash: bool, checkout_ok: bool, integrate_ok: bool) -> Vec<GitStep> {
    let mut stage = StepStage::Begin;
    let mut last_ok = true;
    let mut out = Vec::new();
    loop {
        let (next, cmd) = git_step(kind, stash, stage, last_ok);
        let Some(c) = cmd else { break };
        out.push(c);
        last_ok = match c {
            GitStep::Checkout => checkout_ok,
            GitStep::Integrate => integrate_ok,
            _ => true,
        };
        stage = next;
        assert!(out.len() <= 8, "the steps must end");
    }
    out
}

#[test]
fn no_merge_runs_after_a_failed_checkout_and_the_stash_is_popped() {
    let steps = run(StepKind::Merge { squash: false }, true, false, true);
    assert_eq!(steps, vec![GitStep::StashPush, GitStep::Checkout, GitStep::StashPop]);
}

#[test]
fn a_squash_merge_commits_after_merging() {
    let steps = run(StepKind::Merge { squash: true }, false, true, true);
    assert_eq!(steps, vec![GitStep::Checkout, GitStep::Integrate, GitStep::SquashCommit]);
}

#[test]
fn a_failed_rebase_is_aborted_before_the_stash_is_popped() {
    let steps = run(StepKind::Rebase, true, true, false);
    assert_eq!(
        steps,
        vec![GitStep::StashPush, GitStep::Checkout, GitStep::Integrate, GitStep::Abort, GitStep::StashPop]
    );
}

#[test]
fn a_plain_checkout_runs_nothing_after_it() {
    assert_eq!(run(StepKind::Checkout, false, true, true), vec![GitStep::Checkout]);
    assert_eq!(run(StepKind::Checkout, true, true, true), vec![GitStep::StashPush, GitStep::Checkout, GitStep::StashPop]);
}
