//! Which views an action touches, and how a view's sort steps through its
//! cycle of states.

use vstd::prelude::*;
use crate::types::BranchAction;
use crate::job_queue::ViewId;

verus! {

/// The views whose data a finished action from the Graph view can change,
/// and which are therefore refreshed after it.
pub open spec fn affected_views(action: BranchAction) -> Seq<ViewId> {
    match action {
        BranchAction::DeleteLocal | BranchAction::DeleteLocalAndRemote | BranchAction::DeleteLocalForce
        | BranchAction::Push | BranchAction::ForcePush
        | BranchAction::DeleteRemoteBranch | BranchAction::DeleteRemoteAndLocal => seq![ViewId::Branches, ViewId::Remotes],
        BranchAction::Checkout | BranchAction::FastForward | BranchAction::Merge | BranchAction::SquashMerge
        | BranchAction::Rebase => seq![ViewId::Branches, ViewId::Worktrees],
        BranchAction::Fetch | BranchAction::FetchPrune | BranchAction::FetchRemote => seq![ViewId::Branches, ViewId::Remotes, ViewId::Tags],
        BranchAction::Pull | BranchAction::CheckoutRemote | BranchAction::PullRemote
        | BranchAction::MergeRemoteIntoCurrent | BranchAction::CherryPickRemote
        | BranchAction::WorktreeRemoveAndDeleteBranch | BranchAction::WorktreeRemoveAndDeleteBranchRemote
        | BranchAction::DeleteBranchAndRemoveWorktree | BranchAction::DeleteBranchAndRemoveWorktreeForce
        | BranchAction::DeleteBranchAndRemoveWorktreeRemote => seq![ViewId::Branches, ViewId::Remotes, ViewId::Worktrees],
        BranchAction::Worktree | BranchAction::WorktreeRemove | BranchAction::WorktreeForceRemove => seq![ViewId::Worktrees],
        BranchAction::DeleteTag | BranchAction::DeleteTagAndRemote | BranchAction::PushTag => seq![ViewId::Tags],
        BranchAction::ViewRemotePR => seq![],
    }
}

/// The views to refresh after `action` finished.
pub fn graph_affected_views(action: BranchAction) -> (v: Vec<ViewId>)
    ensures
        v@ == affected_views(action),
{
    let v = match action {
        BranchAction::DeleteLocal | BranchAction::DeleteLocalAndRemote | BranchAction::DeleteLocalForce
        | BranchAction::Push | BranchAction::ForcePush
        | BranchAction::DeleteRemoteBranch | BranchAction::DeleteRemoteAndLocal => vec![ViewId::Branches, ViewId::Remotes],
        BranchAction::Checkout | BranchAction::FastForward | BranchAction::Merge | BranchAction::SquashMerge
        | BranchAction::Rebase => vec![ViewId::Branches, ViewId::Worktrees],
        BranchAction::Fetch | BranchAction::FetchPrune | BranchAction::FetchRemote => vec![ViewId::Branches, ViewId::Remotes, ViewId::Tags],
        BranchAction::Pull | BranchAction::CheckoutRemote | BranchAction::PullRemote
        | BranchAction::MergeRemoteIntoCurrent | BranchAction::CherryPickRemote
        | BranchAction::WorktreeRemoveAndDeleteBranch | BranchAction::WorktreeRemoveAndDeleteBranchRemote
        | BranchAction::DeleteBranchAndRemoveWorktree | BranchAction::DeleteBranchAndRemoveWorktreeForce
        | BranchAction::DeleteBranchAndRemoveWorktreeRemote => vec![ViewId::Branches, ViewId::Remotes, ViewId::Worktrees],
        BranchAction::Worktree | BranchAction::WorktreeRemove | BranchAction::WorktreeForceRemove => vec![ViewId::Worktrees],
        BranchAction::DeleteTag | BranchAction::DeleteTagAndRemote | BranchAction::PushTag => vec![ViewId::Tags],
        BranchAction::ViewRemotePR => Vec::new(),
    };
    assert(v@ =~= affected_views(action));
    v
}

/// A sort state: the sorted column, if any, and whether it is ascending.
pub type SortState = (Option<usize>, bool);

/// The position of the first state equal to `current`, if any.
pub open spec fn state_position(states: Seq<SortState>, current: SortState) -> Option<int>
    decreases states.len(),
{
    if states.len() == 0 {
        None
    } else {
        match state_position(states.drop_last(), current) {
            Some(i) => Some(i),
            None => if states.last() == current { Some(states.len() - 1) } else { None },
        }
    }
}

/// The state after `current` in the cycle `states` (going back when not
/// `forward`); a state not in the cycle counts as its first.
pub open spec fn next_state(states: Seq<SortState>, current: SortState, forward: bool) -> SortState {
    let n = states.len() as int;
    let pos = match state_position(states, current) {
        Some(i) => i,
        None => 0,
    };
    if forward { states[(pos + 1) % n] } else { states[(pos + n - 1) % n] }
}

proof fn lemma_position_bounded(states: Seq<SortState>, current: SortState)
    ensures
        match state_position(states, current) {
            Some(i) => 0 <= i < states.len(),
            None => true,
        },
    decreases states.len(),
{
    if states.len() > 0 {
        lemma_position_bounded(states.drop_last(), current);
    }
}

fn same_state(a: SortState, b: SortState) -> (r: bool)
    ensures
        r == (a == b),
{
    let col_same = match (a.0, b.0) {
        (Some(x), Some(y)) => x == y,
        (None, None) => true,
        _ => false,
    };
    col_same && a.1 == b.1
}

/// One step of a view's sort through its cycle of states.
pub fn next_sort_state(states: &Vec<SortState>, current: SortState, forward: bool) -> (s: SortState)
    requires
        states@.len() > 0,
    ensures
        s == next_state(states@, current, forward),
{
    let mut pos: Option<usize> = None;
    let mut k: usize = 0;
    while k < states.len()
        invariant
            k <= states@.len(),
            pos == match state_position(states@.subrange(0, k as int), current) {
                Some(i) => Some(i as usize),
                None => None::<usize>,
            },
            match state_position(states@.subrange(0, k as int), current) {
                Some(i) => 0 <= i < k,
                None => true,
            },
        decreases states@.len() - k,
    {
        proof {
            assert(states@.subrange(0, k + 1).drop_last() =~= states@.subrange(0, k as int));
        }
        if pos.is_none() && same_state(states[k], current) {
            pos = Some(k);
        }
        k = k + 1;
    }
    assert(states@.subrange(0, states@.len() as int) =~= states@);
    let p = match pos {
        Some(i) => i,
        None => 0,
    };
    let n = states.len();
    proof {
        lemma_position_bounded(states@, current);
        assert(p < n);
    }
    let next = if forward {
        if p + 1 == n { 0 } else { p + 1 }
    } else {
        if p == 0 { n - 1 } else { p - 1 }
    };
    proof {
        if forward {
            if p + 1 == n {
                vstd::arithmetic::div_mod::lemma_mod_self_0(n as int);
            } else {
                vstd::arithmetic::div_mod::lemma_small_mod((p + 1) as nat, n as nat);
            }
        } else {
            vstd::arithmetic::div_mod::lemma_small_mod(next as nat, n as nat);
            if p > 0 {
                vstd::arithmetic::div_mod::lemma_mod_add_multiples_vanish(next as int, n as int);
                assert(p + n - 1 == n + next);
            }
        }
    }
    states[next]
}

} // verus!
