//! What the interface does with each message from background work between
//! two frames: graph enrichment of the current reload, a finished job, and
//! the verdict of a squash or cherry-pick check.

use vstd::prelude::*;
use crate::types::{BranchAction, BranchInfo, MergeStatus, OperationResult};
use crate::graph::{apply_enrichment_msg, hinted, GraphEnrichmentMsg, GraphSnapshot};
use crate::job_queue::{JobEvent, ViewId};
use crate::overlay::Overlay;
use crate::refresh::{apply_check_result, first_remote_named, settled};
use crate::delete_preflight::first_branch;
use crate::remotes::RemoteBranchInfo;
use crate::views::{affected_views, graph_affected_views};
use crate::text::{str_eq, to_owned_string};

verus! {

/// The part of the interface that background messages change.
#[derive(Debug)]
pub struct DrainView {
    pub overlay: Option<Overlay>,
    /// The graph shown, if loaded.
    pub graph: Option<GraphSnapshot>,
    /// The generation of the graph's latest reload.
    pub graph_generation: u64,
    pub branches: Vec<BranchInfo>,
    pub remotes: Vec<RemoteBranchInfo>,
}

/// A message from background work.
pub enum DrainMsg {
    GraphEnrichment(GraphEnrichmentMsg),
    JobFinished(JobEvent),
    /// The verdict of a squash or cherry-pick check on a branch.
    CheckResult { branch_name: String, status: MergeStatus },
}

/// What the interface does besides changing its state.
#[derive(Debug, Clone, Copy, PartialEq, Eq, Structural)]
pub enum UiEffect {
    /// Reload the data of a view.
    Refresh(ViewId),
}

/// The views reloaded after a job started from `origin`: those the action
/// touches, then `origin` itself if it is another list view, and the graph
/// when the job came from there.
pub open spec fn refresh_views(action: BranchAction, origin: ViewId) -> Seq<ViewId> {
    affected_views(action)
        + (if origin != ViewId::Graph && !affected_views(action).contains(origin) { seq![origin] } else { Seq::empty() })
        + (if origin == ViewId::Graph { seq![ViewId::Graph] } else { Seq::empty() })
}

/// Some result of `rs` reports remote branch `name` deleted.
pub open spec fn deleted_remote(rs: Seq<OperationResult>, name: Seq<char>) -> bool {
    exists|j: int| 0 <= j < rs.len() && rs[j].success && rs[j].action == BranchAction::DeleteRemoteBranch
        && #[trigger] rs[j].branch_name@ == name
}

/// The remote rows left after a local-and-remote deletion on `remote`: the
/// rows of that remote whose branch was deleted go.
pub open spec fn kept_remotes(rows: Seq<RemoteBranchInfo>, remote: Seq<char>, rs: Seq<OperationResult>) -> Seq<RemoteBranchInfo>
    decreases rows.len(),
{
    if rows.len() == 0 {
        Seq::empty()
    } else if rows.last().remote@ == remote && deleted_remote(rs, rows.last().short_name@) {
        kept_remotes(rows.drop_last(), remote, rs)
    } else {
        kept_remotes(rows.drop_last(), remote, rs).push(rows.last())
    }
}

/// `effects` reload exactly `views`, in order.
pub open spec fn refreshes(effects: Seq<UiEffect>, views: Seq<ViewId>) -> bool {
    effects.len() == views.len() && forall|i: int| 0 <= i < views.len() ==> #[trigger] effects[i] == UiEffect::Refresh(views[i])
}

/// What one message does to the interface.
pub open spec fn drain_ok(before: DrainView, msg: DrainMsg, after: DrainView, effects: Seq<UiEffect>) -> bool {
    match msg {
        DrainMsg::GraphEnrichment(m) => {
            &&& effects.len() == 0
            &&& after.overlay == before.overlay && after.branches == before.branches && after.remotes == before.remotes
            &&& after.graph_generation == before.graph_generation
            &&& match before.graph {
                Some(g) => if m.generation == before.graph_generation {
                    after.graph matches Some(g2) && g2.commits@.len() == g.commits@.len()
                        && g2.generation == g.generation && g2.lines == g.lines
                        && forall|i: int| 0 <= i < g.commits@.len() ==>
                            #[trigger] g2.commits@[i] == hinted(g.commits@, m.updates@, m.updates@.len() as int, i)
                } else {
                    after.graph == before.graph
                },
                None => after.graph is None,
            }
        },
        DrainMsg::JobFinished(ev) => {
            let selected = match ev.remote { Some(r) => r@, None => "origin"@ };
            &&& refreshes(effects, refresh_views(ev.action, ev.return_view))
            &&& after.overlay == if ev.failures@.len() > 0 { Some(Overlay::Results { results: ev.failures }) } else { before.overlay }
            &&& after.remotes@ == if ev.action == BranchAction::DeleteLocalAndRemote {
                kept_remotes(before.remotes@, selected, ev.results@)
            } else {
                before.remotes@
            }
            &&& after.graph == before.graph && after.graph_generation == before.graph_generation
            &&& after.branches == before.branches
        },
        DrainMsg::CheckResult { branch_name, status } => {
            &&& effects.len() == 0
            &&& after.overlay == before.overlay && after.graph == before.graph
            &&& after.graph_generation == before.graph_generation
            &&& after.branches@ == match first_branch(before.branches@, branch_name@) {
                Some(i) => before.branches@.update(i, BranchInfo { merge_status: status, ..before.branches@[i] }),
                None => before.branches@,
            }
            &&& after.remotes@.len() == before.remotes@.len()
            &&& forall|i: int| settled(status) && first_remote_named(before.remotes@, branch_name@, i) ==>
                after.remotes@ == before.remotes@.update(i, RemoteBranchInfo { merge_status: status, ..before.remotes@[i] })
            &&& (!settled(status) || forall|i: int| !first_remote_named(before.remotes@, branch_name@, i)) ==> after.remotes@ == before.remotes@
        },
    }
}

fn is_deleted_remote(rs: &Vec<OperationResult>, name: &str) -> (b: bool)
    ensures
        b == deleted_remote(rs@, name@),
{
    let mut j: usize = 0;
    while j < rs.len()
        invariant
            j <= rs@.len(),
            forall|k: int| 0 <= k < j ==> !(rs@[k].success && rs@[k].action == BranchAction::DeleteRemoteBranch
                && rs@[k].branch_name@ == name@),
        decreases rs@.len() - j,
    {
        if rs[j].success && rs[j].action == BranchAction::DeleteRemoteBranch && str_eq(rs[j].branch_name.as_str(), name) {
            return true;
        }
        j = j + 1;
    }
    false
}

fn keep_remotes(rows: Vec<RemoteBranchInfo>, remote: &str, rs: &Vec<OperationResult>) -> (r: Vec<RemoteBranchInfo>)
    ensures
        r@ == kept_remotes(rows@, remote@, rs@),
{
    let ghost all = rows@;
    let n = rows.len();
    let mut rest = rows;
    let mut out: Vec<RemoteBranchInfo> = Vec::new();
    let mut i: usize = 0;
    while i < n
        invariant
            n == all.len(),
            i <= n,
            rest@ == all.subrange(i as int, n as int),
            out@ == kept_remotes(all.subrange(0, i as int), remote@, rs@),
        decreases n - i,
    {
        let row = rest.remove(0);
        assert(row == all[i as int]);
        assert(all.subrange(0, i + 1).drop_last() =~= all.subrange(0, i as int));
        let drop = str_eq(row.remote.as_str(), remote) && is_deleted_remote(rs, row.short_name.as_str());
        if !drop {
            out.push(row);
        }
        i = i + 1;
        assert(rest@ =~= all.subrange(i as int, n as int));
    }
    assert(all.subrange(0, n as int) =~= all);
    out
}

fn refresh_effects(action: BranchAction, origin: ViewId) -> (e: Vec<UiEffect>)
    ensures
        refreshes(e@, refresh_views(action, origin)),
{
    let views = graph_affected_views(action);
    let mut e: Vec<UiEffect> = Vec::new();
    let mut contains = false;
    let mut i: usize = 0;
    while i < views.len()
        invariant
            i <= views@.len(),
            views@ == affected_views(action),
            refreshes(e@, views@.subrange(0, i as int)),
            contains == views@.subrange(0, i as int).contains(origin),
        decreases views@.len() - i,
    {
        let v = views[i];
        e.push(UiEffect::Refresh(v));
        if v == origin {
            contains = true;
        }
        proof {
            let s0 = views@.subrange(0, i as int);
            let s2 = s0.push(v);
            assert(views@.subrange(0, i + 1) =~= s2);
            if s2.contains(origin) {
                let k = choose|k: int| 0 <= k < s2.len() && s2[k] == origin;
                if k < s0.len() {
                    assert(s0[k] == origin);
                }
            }
            if s0.contains(origin) {
                let k = choose|k: int| 0 <= k < s0.len() && s0[k] == origin;
                assert(s2[k] == origin);
            }
            if v == origin {
                assert(s2[s0.len() as int] == origin);
            }
        }
        i = i + 1;
    }
    assert(views@.subrange(0, views@.len() as int) =~= views@);
    let ghost base = views@;
    let is_graph = match origin {
        ViewId::Graph => true,
        _ => false,
    };
    if !is_graph && !contains {
        e.push(UiEffect::Refresh(origin));
        assert(base + seq![origin] + Seq::<ViewId>::empty() =~= base.push(origin));
    } else if is_graph {
        e.push(UiEffect::Refresh(ViewId::Graph));
        assert(base + Seq::<ViewId>::empty() + seq![ViewId::Graph] =~= base.push(ViewId::Graph));
    } else {
        assert(base + Seq::<ViewId>::empty() + Seq::<ViewId>::empty() =~= base);
    }
    e
}

/// Takes in one message from background work.
pub fn drain_step(view: DrainView, msg: DrainMsg) -> (r: (DrainView, Vec<UiEffect>))
    ensures
        drain_ok(view, msg, r.0, r.1@),
{
    let DrainView { overlay, graph, graph_generation, mut branches, mut remotes } = view;
    match msg {
        DrainMsg::GraphEnrichment(m) => {
            let graph = match graph {
                Some(g) => {
                    let mut g = g;
                    apply_enrichment_msg(&mut g, graph_generation, &m);
                    Some(g)
                },
                None => None,
            };
            (DrainView { overlay, graph, graph_generation, branches, remotes }, Vec::new())
        },
        DrainMsg::JobFinished(ev) => {
            let effects = refresh_effects(ev.action, ev.return_view);
            let JobEvent { action, targets: _, remote, return_view: _, results, failures } = ev;
            let overlay = if failures.len() > 0 { Some(Overlay::Results { results: failures }) } else { overlay };
            let remotes = if action == BranchAction::DeleteLocalAndRemote {
                let selected = match remote {
                    Some(r) => r,
                    None => to_owned_string("origin"),
                };
                keep_remotes(remotes, selected.as_str(), &results)
            } else {
                remotes
            };
            (DrainView { overlay, graph, graph_generation, branches, remotes }, effects)
        },
        DrainMsg::CheckResult { branch_name, status } => {
            apply_check_result(&mut branches, &mut remotes, branch_name.as_str(), status);
            (DrainView { overlay, graph, graph_generation, branches, remotes }, Vec::new())
        },
    }
}

} // verus!
