//! The context menus of the views: which actions a row offers, which of them
//! are enabled, and the short reason shown beside a disabled one.

use vstd::prelude::*;
use crate::types::{BranchAction, BranchInfo, TrackingStatus};
use crate::worktree::{WorktreeInfo, opt_view};
use crate::text::{chars_of, concat3, find_char, slice_string, str_eq, to_owned_string};

verus! {

/// One entry of a context menu.
#[derive(Debug)]
pub struct MenuItem {
    pub label: String,
    pub enabled: bool,
    /// Why the entry is disabled, or a hint beside it.
    pub reason: Option<String>,
    pub shortcut: Option<char>,
    pub action: BranchAction,
    /// The branch, tag or worktree path the action applies to.
    pub target: String,
    /// The remote the action applies to, where it names one.
    pub remote: Option<String>,
}

/// A menu entry as plain text.
pub struct MenuItemView {
    pub label: Seq<char>,
    pub enabled: bool,
    pub reason: Option<Seq<char>>,
    pub shortcut: Option<char>,
    pub action: BranchAction,
    pub target: Seq<char>,
    pub remote: Option<Seq<char>>,
}

impl View for MenuItem {
    type V = MenuItemView;

    open spec fn view(&self) -> MenuItemView {
        MenuItemView {
            label: self.label@,
            enabled: self.enabled,
            reason: opt_view(self.reason),
            shortcut: self.shortcut,
            action: self.action,
            target: self.target@,
            remote: opt_view(self.remote),
        }
    }
}

pub open spec fn entry(
    label: Seq<char>,
    enabled: bool,
    reason: Option<Seq<char>>,
    shortcut: char,
    action: BranchAction,
    target: Seq<char>,
    remote: Option<Seq<char>>,
) -> MenuItemView {
    MenuItemView { label, enabled, reason, shortcut: Some(shortcut), action, target, remote }
}

/// The remote of an upstream reference: what precedes its first `/`.
pub open spec fn remote_of_ref(r: Seq<char>) -> Option<Seq<char>> {
    if exists|j: int| 0 <= j < r.len() && r[j] == '/' {
        let j = choose|j: int| 0 <= j < r.len() && r[j] == '/' && forall|k: int| 0 <= k < j ==> r[k] != '/';
        Some(r.subrange(0, j))
    } else {
        None
    }
}

/// The branch has an upstream that still exists.
pub open spec fn has_live_upstream(t: TrackingStatus) -> bool {
    t matches TrackingStatus::Upstream { gone, .. } && !gone
}

pub open spec fn tracking_remote(t: TrackingStatus) -> Option<Seq<char>> {
    match t {
        TrackingStatus::Upstream { remote_ref, .. } => remote_of_ref(remote_ref@),
        TrackingStatus::Local => None,
    }
}

/// `x` when the condition holds.
pub open spec fn when(c: bool, x: Seq<char>) -> Option<Seq<char>> {
    if c { Some(x) } else { None }
}

/// Reason for an entry barred on the current and the base branch.
pub open spec fn current_or_base(b: BranchInfo) -> Option<Seq<char>> {
    if b.is_current { Some("current"@) } else if b.is_base { Some("base"@) } else { None }
}

/// The menu of a local branch. `has_pr` tells whether a pull request is open
/// for it, `has_configured_remote` whether the repository has any remote.
pub open spec fn branch_menu(b: BranchInfo, has_pr: bool, has_configured_remote: bool) -> Seq<MenuItemView> {
    let has_remote = has_live_upstream(b.tracking);
    let is_ahead = b.ahead matches Some(x) && x > 0;
    let is_behind = b.behind matches Some(x) && x > 0;
    let name = b.name@;
    let barred = b.is_base || b.is_current;
    seq![
        entry("Checkout"@, !b.is_current, when(b.is_current, "current"@), 'c', BranchAction::Checkout, name, None),
        entry("Delete local"@, !barred, current_or_base(b), 'd', BranchAction::DeleteLocal, name, None),
        entry("Delete local + remote"@, !barred && has_remote,
            if b.is_current || b.is_base { current_or_base(b) } else { when(!has_remote, "no remote"@) },
            'D', BranchAction::DeleteLocalAndRemote, name, tracking_remote(b.tracking)),
        entry("Force-delete local"@, !barred, current_or_base(b), '!', BranchAction::DeleteLocalForce, name, None),
        entry("Fast-forward"@, !b.is_current && has_remote,
            if b.is_current { Some("current"@) } else { when(!has_remote, "no remote"@) },
            'f', BranchAction::FastForward, name, None),
        entry("Push"@, is_ahead || (!has_remote && has_configured_remote),
            if !has_configured_remote { Some("no remote"@) } else { when(has_remote && !is_ahead, "not ahead"@) },
            'p', BranchAction::Push, name, None),
        entry("Force push"@, is_ahead && is_behind,
            if !has_remote { Some("no remote"@) } else if !is_ahead { Some("not ahead"@) } else { when(!is_behind, "not behind"@) },
            'P', BranchAction::ForcePush, name, None),
        entry("Pull"@, is_behind && has_remote,
            if !has_remote { Some("no remote"@) } else { when(!is_behind, "not behind"@) },
            'l', BranchAction::Pull, name, None),
        entry("Merge into base"@, !barred, current_or_base(b), 'm', BranchAction::Merge, name, None),
        entry("Squash merge into base"@, !barred, current_or_base(b), 's', BranchAction::SquashMerge, name, None),
        entry("Rebase onto base"@, !barred, current_or_base(b), 'r', BranchAction::Rebase, name, None),
        entry("Create worktree"@, !b.is_current, when(b.is_current, "current"@), 'w', BranchAction::Worktree, name, None),
        entry("Open PR in browser"@, has_pr, when(!has_pr, "no PR"@), 'o', BranchAction::ViewRemotePR, name, None),
    ]
}

/// The menu of a remote branch `short_name` on `remote`. `pinned` marks the
/// remote counterpart of the base branch, `has_local` a local branch of the
/// same name.
pub open spec fn remote_menu(short_name: Seq<char>, remote: Seq<char>, has_local: bool, pinned: bool, has_pr: bool) -> Seq<MenuItemView> {
    let r = Some(remote);
    let base = when(pinned, "base"@);
    seq![
        entry("Checkout"@, !pinned && !has_local,
            if pinned { Some("base"@) } else { when(has_local, "local exists"@) },
            'c', BranchAction::CheckoutRemote, short_name, r),
        entry("Delete remote branch"@, !pinned, base, 'd', BranchAction::DeleteRemoteBranch, short_name, r),
        entry("Delete remote + local"@, !pinned && has_local,
            if pinned { Some("base"@) } else { when(!has_local, "no local"@) },
            'D', BranchAction::DeleteRemoteAndLocal, short_name, r),
        entry("Fetch remote"@, !pinned, base, 'f', BranchAction::FetchRemote, short_name, r),
        entry("Pull remote"@, !pinned && has_local,
            if pinned { Some("base"@) } else { when(!has_local, "no local"@) },
            'l', BranchAction::PullRemote, short_name, r),
        entry("Merge into current"@, !pinned, base, 'm', BranchAction::MergeRemoteIntoCurrent, short_name, r),
        entry("Cherry-pick latest"@, !pinned, base, 'p', BranchAction::CherryPickRemote, short_name, r),
        entry("View PR in browser"@, has_pr && !pinned,
            if pinned { Some("base"@) } else { when(!has_pr, "no PR"@) },
            'o', BranchAction::ViewRemotePR, short_name, r),
    ]
}

/// The menu of tag `name`.
pub open spec fn tag_menu(name: Seq<char>) -> Seq<MenuItemView> {
    seq![
        entry("Delete tag"@, true, None, 'd', BranchAction::DeleteTag, name, None),
        entry("Delete tag (local + remote)"@, true, None, 'D', BranchAction::DeleteTagAndRemote, name, None),
        entry("Push tag to remote"@, true, None, 'p', BranchAction::PushTag, name, None),
    ]
}

/// Why the branch of a worktree cannot be deleted with it.
pub open spec fn delete_branch_reason(w: WorktreeInfo) -> Option<Seq<char>> {
    let dirty = w.wt_status.has_staged || w.wt_status.has_modified || w.wt_status.has_untracked;
    if w.is_main {
        Some("main worktree"@)
    } else if dirty {
        Some("dirty"@)
    } else if w.branch is None {
        Some("detached HEAD"@)
    } else if w.is_base {
        Some("base branch"@)
    } else {
        None
    }
}

/// The menu of worktree `w`; `has_remote` tells whether its branch has an
/// upstream that still exists.
pub open spec fn worktree_menu(w: WorktreeInfo, has_remote: bool) -> Seq<MenuItemView> {
    let dirty = w.wt_status.has_staged || w.wt_status.has_modified || w.wt_status.has_untracked;
    let path = w.path@;
    let reason = delete_branch_reason(w);
    let can_delete_branch = reason is None;
    seq![
        entry("Remove worktree"@, !w.is_main && !dirty,
            if w.is_main { Some("main worktree"@) } else { when(dirty, "dirty"@) },
            'd', BranchAction::WorktreeRemove, path, None),
        entry("Force remove worktree"@, !w.is_main, when(w.is_main, "main worktree"@),
            'D', BranchAction::WorktreeForceRemove, path, None),
        entry("Remove worktree + branch"@, can_delete_branch, reason,
            'b', BranchAction::WorktreeRemoveAndDeleteBranch, path, None),
        entry("Remove worktree + branch (local + remote)"@, can_delete_branch && has_remote,
            if reason is Some { reason } else { when(!has_remote, "no remote"@) },
            'B', BranchAction::WorktreeRemoveAndDeleteBranchRemote, path, None),
    ]
}

fn item(
    label: &str,
    enabled: bool,
    reason: Option<String>,
    shortcut: char,
    action: BranchAction,
    target: &str,
    remote: Option<String>,
) -> (m: MenuItem)
    ensures
        m@ == entry(label@, enabled, opt_view(reason), shortcut, action, target@, opt_view(remote)),
{
    MenuItem {
        label: to_owned_string(label),
        enabled,
        reason,
        shortcut: Some(shortcut),
        action,
        target: to_owned_string(target),
        remote,
    }
}

fn reason_if(c: bool, text: &str) -> (r: Option<String>)
    ensures
        opt_view(r) == when(c, text@),
{
    if c { Some(to_owned_string(text)) } else { None }
}

fn some_text(text: &str) -> (r: Option<String>)
    ensures
        opt_view(r) == Some(text@),
{
    Some(to_owned_string(text))
}

fn current_or_base_reason(b: &BranchInfo) -> (r: Option<String>)
    ensures
        opt_view(r) == current_or_base(*b),
{
    if b.is_current { some_text("current") } else if b.is_base { some_text("base") } else { None }
}

/// The remote named by an upstream reference.
pub fn remote_of_upstream(remote_ref: &str) -> (r: Option<String>)
    ensures
        opt_view(r) == remote_of_ref(remote_ref@),
{
    let v = chars_of(remote_ref);
    match find_char(&v, '/', 0) {
        Some(j) => {
            proof {
                assert(forall|k: int| 0 <= k < j ==> v@[k] != '/');
                let c = choose|i: int| 0 <= i < v@.len() && v@[i] == '/' && forall|k: int| 0 <= k < i ==> v@[k] != '/';
                if c < j {
                    assert(v@[c] != '/');
                } else if c > j {
                    assert(v@[j as int] != '/');
                }
            }
            Some(slice_string(&v, 0, j))
        },
        None => None,
    }
}

/// The entries the context menu of a local branch offers.
pub fn build_branch_menu_for(branch: &BranchInfo, has_pr: bool, has_configured_remote: bool) -> (r: Vec<MenuItem>)
    ensures
        r@.len() == branch_menu(*branch, has_pr, has_configured_remote).len(),
        forall|i: int| 0 <= i < r@.len() ==> #[trigger] r@[i]@ == branch_menu(*branch, has_pr, has_configured_remote)[i],
{
    let has_remote = match &branch.tracking {
        TrackingStatus::Upstream { gone, .. } => !*gone,
        TrackingStatus::Local => false,
    };
    let tracking = match &branch.tracking {
        TrackingStatus::Upstream { remote_ref, .. } => remote_of_upstream(remote_ref.as_str()),
        TrackingStatus::Local => None,
    };
    let is_ahead = match branch.ahead { Some(x) => x > 0, None => false };
    let is_behind = match branch.behind { Some(x) => x > 0, None => false };
    let name = branch.name.as_str();
    let cur = branch.is_current;
    let barred = branch.is_base || branch.is_current;
    let mut r: Vec<MenuItem> = Vec::new();
    r.push(item("Checkout", !cur, reason_if(cur, "current"), 'c', BranchAction::Checkout, name, None));
    r.push(item("Delete local", !barred, current_or_base_reason(branch), 'd', BranchAction::DeleteLocal, name, None));
    let why = if barred { current_or_base_reason(branch) } else { reason_if(!has_remote, "no remote") };
    r.push(item("Delete local + remote", !barred && has_remote, why, 'D', BranchAction::DeleteLocalAndRemote, name, tracking));
    r.push(item("Force-delete local", !barred, current_or_base_reason(branch), '!', BranchAction::DeleteLocalForce, name, None));
    let why = if cur { some_text("current") } else { reason_if(!has_remote, "no remote") };
    r.push(item("Fast-forward", !cur && has_remote, why, 'f', BranchAction::FastForward, name, None));
    let why = if !has_configured_remote { some_text("no remote") } else { reason_if(has_remote && !is_ahead, "not ahead") };
    r.push(item("Push", is_ahead || (!has_remote && has_configured_remote), why, 'p', BranchAction::Push, name, None));
    let why = if !has_remote {
        some_text("no remote")
    } else if !is_ahead {
        some_text("not ahead")
    } else {
        reason_if(!is_behind, "not behind")
    };
    r.push(item("Force push", is_ahead && is_behind, why, 'P', BranchAction::ForcePush, name, None));
    let why = if !has_remote { some_text("no remote") } else { reason_if(!is_behind, "not behind") };
    r.push(item("Pull", is_behind && has_remote, why, 'l', BranchAction::Pull, name, None));
    r.push(item("Merge into base", !barred, current_or_base_reason(branch), 'm', BranchAction::Merge, name, None));
    r.push(item("Squash merge into base", !barred, current_or_base_reason(branch), 's', BranchAction::SquashMerge, name, None));
    r.push(item("Rebase onto base", !barred, current_or_base_reason(branch), 'r', BranchAction::Rebase, name, None));
    r.push(item("Create worktree", !cur, reason_if(cur, "current"), 'w', BranchAction::Worktree, name, None));
    r.push(item("Open PR in browser", has_pr, reason_if(!has_pr, "no PR"), 'o', BranchAction::ViewRemotePR, name, None));
    proof {
        let m = branch_menu(*branch, has_pr, has_configured_remote);
        assert(r@.len() == m.len());
        assert forall|i: int| 0 <= i < r@.len() implies #[trigger] r@[i]@ == m[i] by {
            assert(r@[i]@ == m[i]);
        }
    }
    r
}

/// The entries the context menu of a remote branch offers.
pub fn build_remote_menu_for(short_name: &str, remote: &str, has_local: bool, pinned: bool, has_pr: bool) -> (r: Vec<MenuItem>)
    ensures
        r@.len() == remote_menu(short_name@, remote@, has_local, pinned, has_pr).len(),
        forall|i: int| 0 <= i < r@.len() ==> #[trigger] r@[i]@ == remote_menu(short_name@, remote@, has_local, pinned, has_pr)[i],
{
    let mut r: Vec<MenuItem> = Vec::new();
    let why = if pinned { some_text("base") } else { reason_if(has_local, "local exists") };
    r.push(item("Checkout", !pinned && !has_local, why, 'c', BranchAction::CheckoutRemote, short_name, some_text(remote)));
    r.push(item("Delete remote branch", !pinned, reason_if(pinned, "base"), 'd', BranchAction::DeleteRemoteBranch, short_name, some_text(remote)));
    let why = if pinned { some_text("base") } else { reason_if(!has_local, "no local") };
    r.push(item("Delete remote + local", !pinned && has_local, why, 'D', BranchAction::DeleteRemoteAndLocal, short_name, some_text(remote)));
    r.push(item("Fetch remote", !pinned, reason_if(pinned, "base"), 'f', BranchAction::FetchRemote, short_name, some_text(remote)));
    let why = if pinned { some_text("base") } else { reason_if(!has_local, "no local") };
    r.push(item("Pull remote", !pinned && has_local, why, 'l', BranchAction::PullRemote, short_name, some_text(remote)));
    r.push(item("Merge into current", !pinned, reason_if(pinned, "base"), 'm', BranchAction::MergeRemoteIntoCurrent, short_name, some_text(remote)));
    r.push(item("Cherry-pick latest", !pinned, reason_if(pinned, "base"), 'p', BranchAction::CherryPickRemote, short_name, some_text(remote)));
    let why = if pinned { some_text("base") } else { reason_if(!has_pr, "no PR") };
    r.push(item("View PR in browser", has_pr && !pinned, why, 'o', BranchAction::ViewRemotePR, short_name, some_text(remote)));
    proof {
        let m = remote_menu(short_name@, remote@, has_local, pinned, has_pr);
        assert forall|i: int| 0 <= i < r@.len() implies #[trigger] r@[i]@ == m[i] by {
            assert(r@[i]@ == m[i]);
        }
    }
    r
}

/// The entries the context menu of a tag offers.
pub fn build_tag_menu_for(name: &str) -> (r: Vec<MenuItem>)
    ensures
        r@.len() == tag_menu(name@).len(),
        forall|i: int| 0 <= i < r@.len() ==> #[trigger] r@[i]@ == tag_menu(name@)[i],
{
    let mut r: Vec<MenuItem> = Vec::new();
    r.push(item("Delete tag", true, None, 'd', BranchAction::DeleteTag, name, None));
    r.push(item("Delete tag (local + remote)", true, None, 'D', BranchAction::DeleteTagAndRemote, name, None));
    r.push(item("Push tag to remote", true, None, 'p', BranchAction::PushTag, name, None));
    proof {
        let m = tag_menu(name@);
        assert forall|i: int| 0 <= i < r@.len() implies #[trigger] r@[i]@ == m[i] by {
            assert(r@[i]@ == m[i]);
        }
    }
    r
}

/// Some listed branch named `name` has an upstream that still exists.
pub open spec fn listed_with_upstream(branches: Seq<BranchInfo>, name: Seq<char>) -> bool {
    exists|i: int| 0 <= i < branches.len() && branches[i].name@ == name && has_live_upstream(#[trigger] branches[i].tracking)
}

/// Whether some listed branch named `name` has an upstream that still exists.
pub fn has_upstream_in(branches: &Vec<BranchInfo>, name: &str) -> (b: bool)
    ensures
        b == listed_with_upstream(branches@, name@),
{
    let mut i: usize = 0;
    while i < branches.len()
        invariant
            i <= branches.len(),
            forall|j: int| 0 <= j < i ==> !(branches@[j].name@ == name@ && has_live_upstream(#[trigger] branches@[j].tracking)),
        decreases branches.len() - i,
    {
        let live = match &branches[i].tracking {
            TrackingStatus::Upstream { gone, .. } => !*gone,
            TrackingStatus::Local => false,
        };
        if live && str_eq(branches[i].name.as_str(), name) {
            return true;
        }
        i = i + 1;
    }
    false
}

/// The entries the context menu of a worktree offers; `branches` is the
/// list of local branches, where the worktree's branch is looked up for an
/// upstream.
pub fn build_worktree_menu(wt: &WorktreeInfo, branches: &Vec<BranchInfo>) -> (r: Vec<MenuItem>)
    ensures
        ({
            let has_remote = wt.branch matches Some(b) && listed_with_upstream(branches@, b@);
            &&& r@.len() == worktree_menu(*wt, has_remote).len()
            &&& forall|i: int| 0 <= i < r@.len() ==> #[trigger] r@[i]@ == worktree_menu(*wt, has_remote)[i]
        }),
{
    let dirty = !wt.wt_status.is_clean();
    let is_main = wt.is_main;
    let has_remote = match &wt.branch {
        Some(b) => has_upstream_in(branches, b.as_str()),
        None => false,
    };
    let reason_text: Option<&str> = if is_main {
        Some("main worktree")
    } else if dirty {
        Some("dirty")
    } else if wt.branch.is_none() {
        Some("detached HEAD")
    } else if wt.is_base {
        Some("base branch")
    } else {
        None
    };
    let can_delete_branch = reason_text.is_none();
    let path = wt.path.as_str();
    let mut r: Vec<MenuItem> = Vec::new();
    let why = if is_main { some_text("main worktree") } else { reason_if(dirty, "dirty") };
    r.push(item("Remove worktree", !is_main && !dirty, why, 'd', BranchAction::WorktreeRemove, path, None));
    r.push(item("Force remove worktree", !is_main, reason_if(is_main, "main worktree"), 'D', BranchAction::WorktreeForceRemove, path, None));
    let why = match reason_text { Some(t) => some_text(t), None => None };
    r.push(item("Remove worktree + branch", can_delete_branch, why, 'b', BranchAction::WorktreeRemoveAndDeleteBranch, path, None));
    let why = match reason_text { Some(t) => some_text(t), None => reason_if(!has_remote, "no remote") };
    r.push(item("Remove worktree + branch (local + remote)", can_delete_branch && has_remote, why, 'B',
        BranchAction::WorktreeRemoveAndDeleteBranchRemote, path, None));
    proof {
        let m = worktree_menu(*wt, has_remote);
        assert forall|i: int| 0 <= i < r@.len() implies #[trigger] r@[i]@ == m[i] by {
            assert(r@[i]@ == m[i]);
        }
    }
    r
}

/// Entry `m` of the group of reference `reference`, in the menu of a graph
/// commit; shortcuts are dropped where several references share the menu.
pub open spec fn prefixed(reference: Seq<char>, m: MenuItemView, multi: bool) -> MenuItemView {
    MenuItemView { label: reference + ": "@ + m.label, shortcut: if multi { None } else { m.shortcut }, ..m }
}

/// The entries of the groups, in order, each prefixed with its reference.
pub open spec fn graph_menu(groups: Seq<(Seq<char>, Seq<MenuItemView>)>, multi: bool) -> Seq<MenuItemView>
    decreases groups.len(),
{
    if groups.len() == 0 {
        Seq::empty()
    } else {
        graph_menu(groups.drop_last(), multi)
            + groups.last().1.map_values(|m: MenuItemView| prefixed(groups.last().0, m, multi))
    }
}

pub open spec fn group_view(g: (String, Vec<MenuItem>)) -> (Seq<char>, Seq<MenuItemView>) {
    (g.0@, g.1@.map_values(|m: MenuItem| m@))
}

fn prefixed_item(reference: &str, m: &MenuItem, multi: bool) -> (r: MenuItem)
    ensures
        r@ == prefixed(reference@, m@, multi),
{
    MenuItem {
        label: concat3(reference, ": ", m.label.as_str()),
        enabled: m.enabled,
        reason: match &m.reason { Some(x) => Some(x.clone()), None => None },
        shortcut: if multi { None } else { m.shortcut },
        action: m.action,
        target: m.target.clone(),
        remote: match &m.remote { Some(x) => Some(x.clone()), None => None },
    }
}

/// The menu of a commit in the graph: the menus of the references that sit
/// on it (each found among the branches, remote branches or tags), each
/// entry prefixed with its reference's name.
pub fn build_graph_menu_for(groups: &Vec<(String, Vec<MenuItem>)>) -> (r: Vec<MenuItem>)
    ensures
        r@.map_values(|m: MenuItem| m@) == graph_menu(groups@.map_values(|g: (String, Vec<MenuItem>)| group_view(g)), groups@.len() > 1),
{
    let multi = groups.len() > 1;
    let ghost gv = groups@.map_values(|g: (String, Vec<MenuItem>)| group_view(g));
    let mut r: Vec<MenuItem> = Vec::new();
    let mut i: usize = 0;
    while i < groups.len()
        invariant
            i <= groups.len(),
            multi == (groups@.len() > 1),
            gv == groups@.map_values(|g: (String, Vec<MenuItem>)| group_view(g)),
            r@.map_values(|m: MenuItem| m@) == graph_menu(gv.subrange(0, i as int), multi),
        decreases groups.len() - i,
    {
        let reference = groups[i].0.as_str();
        let items = &groups[i].1;
        let ghost before = r@.map_values(|m: MenuItem| m@);
        let mut j: usize = 0;
        while j < items.len()
            invariant
                j <= items.len(),
                i < groups@.len(),
                items == groups@[i as int].1,
                reference@ == groups@[i as int].0@,
                r@.map_values(|m: MenuItem| m@) == before
                    + items@.subrange(0, j as int).map_values(|m: MenuItem| prefixed(reference@, m@, multi)),
            decreases items.len() - j,
        {
            let x = prefixed_item(reference, &items[j], multi);
            let ghost r_old = r@;
            r.push(x);
            proof {
                assert(r@.map_values(|m: MenuItem| m@) =~= r_old.map_values(|m: MenuItem| m@).push(x@));
                assert(items@.subrange(0, j as int + 1).map_values(|m: MenuItem| prefixed(reference@, m@, multi))
                    =~= items@.subrange(0, j as int).map_values(|m: MenuItem| prefixed(reference@, m@, multi)).push(prefixed(reference@, items@[j as int]@, multi)));
                assert(r@.map_values(|m: MenuItem| m@) =~= before
                    + items@.subrange(0, j as int + 1).map_values(|m: MenuItem| prefixed(reference@, m@, multi)));
            }
            j = j + 1;
        }
        proof {
            let sub = gv.subrange(0, i as int + 1);
            assert(sub.drop_last() =~= gv.subrange(0, i as int));
            assert(sub.last() == group_view(groups@[i as int]));
            assert(items@.subrange(0, items@.len() as int) =~= items@);
            assert(sub.last().1.map_values(|m: MenuItemView| prefixed(sub.last().0, m, multi))
                =~= items@.map_values(|m: MenuItem| prefixed(reference@, m@, multi)));
        }
        i = i + 1;
    }
    proof {
        assert(gv.subrange(0, gv.len() as int) =~= gv);
    }
    r
}

} // verus!
