//! The order of the git commands of a checkout, a merge and a rebase: local
//! changes are stashed first when asked and restored last; the merge or
//! rebase runs only after a successful checkout, and is aborted when it
//! fails; a squash merge is committed after it succeeds.

use vstd::prelude::*;

verus! {

/// What is being done.
#[derive(Debug, Clone, Copy, PartialEq, Eq, Structural)]
pub enum StepKind {
    /// `git checkout <branch>`.
    Checkout,
    /// `git checkout <base>`, then `git merge [--squash] <branch>`.
    Merge { squash: bool },
    /// `git checkout <branch>`, then `git rebase <base>`.
    Rebase,
}

/// One git command of the sequence.
#[derive(Debug, Clone, Copy, PartialEq, Eq, Structural)]
pub enum GitStep {
    /// `git stash push -m gbm-auto-stash`.
    StashPush,
    /// The checkout.
    Checkout,
    /// The merge or the rebase.
    Integrate,
    /// `git commit -m "Squash merge <branch>"`.
    SquashCommit,
    /// `git merge --abort` or `git rebase --abort`.
    Abort,
    /// `git stash pop`.
    StashPop,
}

/// Where the sequence stands: the last command given, if any.
#[derive(Debug, Clone, Copy, PartialEq, Eq, Structural)]
pub enum StepStage {
    Begin,
    After(GitStep),
    Done,
}

/// The end of the sequence: the stash is restored when one was made.
pub open spec fn finish(stash: bool) -> (StepStage, Option<GitStep>) {
    if stash { (StepStage::After(GitStep::StashPop), Some(GitStep::StashPop)) } else { (StepStage::Done, None) }
}

/// The next command, from the last one and whether it succeeded.
pub open spec fn next_step(kind: StepKind, stash: bool, stage: StepStage, last_ok: bool) -> (StepStage, Option<GitStep>) {
    match stage {
        StepStage::Begin => if stash {
            (StepStage::After(GitStep::StashPush), Some(GitStep::StashPush))
        } else {
            (StepStage::After(GitStep::Checkout), Some(GitStep::Checkout))
        },
        StepStage::After(GitStep::StashPush) => (StepStage::After(GitStep::Checkout), Some(GitStep::Checkout)),
        StepStage::After(GitStep::Checkout) => if last_ok && !(kind is Checkout) {
            (StepStage::After(GitStep::Integrate), Some(GitStep::Integrate))
        } else {
            finish(stash)
        },
        StepStage::After(GitStep::Integrate) => if !last_ok {
            (StepStage::After(GitStep::Abort), Some(GitStep::Abort))
        } else if kind == (StepKind::Merge { squash: true }) {
            (StepStage::After(GitStep::SquashCommit), Some(GitStep::SquashCommit))
        } else {
            finish(stash)
        },
        StepStage::After(GitStep::SquashCommit) => finish(stash),
        StepStage::After(GitStep::Abort) => finish(stash),
        StepStage::After(GitStep::StashPop) => (StepStage::Done, None),
        StepStage::Done => (StepStage::Done, None),
    }
}

/// The next command of the sequence; `last_ok` tells whether the command
/// just given succeeded (it is not read at the start).
pub fn git_step(kind: StepKind, stash: bool, stage: StepStage, last_ok: bool) -> (r: (StepStage, Option<GitStep>))
    ensures
        r == next_step(kind, stash, stage, last_ok),
{
    let finish_now = if stash { (StepStage::After(GitStep::StashPop), Some(GitStep::StashPop)) } else { (StepStage::Done, None) };
    match stage {
        StepStage::Begin => if stash {
            (StepStage::After(GitStep::StashPush), Some(GitStep::StashPush))
        } else {
            (StepStage::After(GitStep::Checkout), Some(GitStep::Checkout))
        },
        StepStage::After(GitStep::StashPush) => (StepStage::After(GitStep::Checkout), Some(GitStep::Checkout)),
        StepStage::After(GitStep::Checkout) => {
            let plain = match kind {
                StepKind::Checkout => true,
                _ => false,
            };
            if last_ok && !plain {
                (StepStage::After(GitStep::Integrate), Some(GitStep::Integrate))
            } else {
                finish_now
            }
        },
        StepStage::After(GitStep::Integrate) => {
            let squash = match kind {
                StepKind::Merge { squash } => squash,
                _ => false,
            };
            if !last_ok {
                (StepStage::After(GitStep::Abort), Some(GitStep::Abort))
            } else if squash {
                (StepStage::After(GitStep::SquashCommit), Some(GitStep::SquashCommit))
            } else {
                finish_now
            }
        },
        StepStage::After(GitStep::SquashCommit) => finish_now,
        StepStage::After(GitStep::Abort) => finish_now,
        StepStage::After(GitStep::StashPop) => (StepStage::Done, None),
        StepStage::Done => (StepStage::Done, None),
    }
}

/// Whether command `s` succeeds, given the outcomes of the checkout and of
/// the merge or rebase; the others count as succeeding, as their outcome
/// changes nothing.
pub open spec fn outcome(s: StepStage, checkout_ok: bool, integrate_ok: bool) -> bool {
    match s {
        StepStage::After(GitStep::Checkout) => checkout_ok,
        StepStage::After(GitStep::Integrate) => integrate_ok,
        _ => true,
    }
}

/// The commands given, following [`next_step`] from `stage` for at most
/// `fuel` commands.
pub open spec fn run_from(kind: StepKind, stash: bool, stage: StepStage, checkout_ok: bool, integrate_ok: bool, fuel: nat) -> Seq<GitStep>
    decreases fuel,
{
    if fuel == 0 {
        Seq::empty()
    } else {
        let (s2, c) = next_step(kind, stash, stage, outcome(stage, checkout_ok, integrate_ok));
        match c {
            Some(g) => seq![g] + run_from(kind, stash, s2, checkout_ok, integrate_ok, (fuel - 1) as nat),
            None => Seq::empty(),
        }
    }
}

/// The whole sequence for the given outcomes: stash push when asked, the
/// checkout, and, after a good checkout of a merge or rebase, the merge or
/// rebase, then the squash commit after a good squash merge or the abort
/// after a failed one, and finally the stash pop when asked.
pub open spec fn commands(kind: StepKind, stash: bool, checkout_ok: bool, integrate_ok: bool) -> Seq<GitStep> {
    (if stash { seq![GitStep::StashPush] } else { Seq::empty() })
        + seq![GitStep::Checkout]
        + (if checkout_ok && !(kind is Checkout) {
            seq![GitStep::Integrate] + if !integrate_ok {
                seq![GitStep::Abort]
            } else if kind == (StepKind::Merge { squash: true }) {
                seq![GitStep::SquashCommit]
            } else {
                Seq::empty()
            }
        } else {
            Seq::empty()
        })
        + (if stash { seq![GitStep::StashPop] } else { Seq::empty() })
}

/// Following the steps gives exactly [`commands`]: nothing is merged or
/// rebased after a failed checkout, a failed merge or rebase is aborted, and
/// the stash is popped exactly when it was pushed, last.
pub proof fn lemma_steps_follow_commands(kind: StepKind, stash: bool, checkout_ok: bool, integrate_ok: bool)
    ensures
        run_from(kind, stash, StepStage::Begin, checkout_ok, integrate_ok, 8) == commands(kind, stash, checkout_ok, integrate_ok),
        !checkout_ok ==> !commands(kind, stash, checkout_ok, integrate_ok).contains(GitStep::Integrate),
        commands(kind, stash, checkout_ok, integrate_ok).contains(GitStep::StashPop) == stash,
{
    reveal_with_fuel(run_from, 9);
    let c = commands(kind, stash, checkout_ok, integrate_ok);
    assert(run_from(kind, stash, StepStage::Begin, checkout_ok, integrate_ok, 8) =~= c);
    if !checkout_ok {
        assert(!c.contains(GitStep::Integrate)) by {
            if c.contains(GitStep::Integrate) {
                let k = choose|k: int| 0 <= k < c.len() && c[k] == GitStep::Integrate;
            }
        }
    }
    if stash {
        assert(c[c.len() - 1] == GitStep::StashPop);
    } else {
        assert(!c.contains(GitStep::StashPop)) by {
            if c.contains(GitStep::StashPop) {
                let k = choose|k: int| 0 <= k < c.len() && c[k] == GitStep::StashPop;
            }
        }
    }
}

} // verus!
