//! The refs drawn on the commit graph: local branches with their tracking
//! counts and linked worktrees, remote branches, tags, and the branch
//! labels the graph's first-parent walk starts from.

use vstd::prelude::*;
use crate::graph::{GraphBranchLabel, GraphRef, GraphRefCounts, GraphRefKind, GraphRefTracking, remote_short};
use crate::keyed::{KeyedList, KeySet, fold_rows};
use crate::branches::detect_base_branch;
use crate::repo::{
    branch_iter, branch_name, branch_reference, commit_id, error_message, graph_ahead_behind, next_branch,
    object_peel_to_commit, oid_from_str, oid_hex, reference_target, revparse_single, tag_names,
};
use crate::text::{chars_of, concat2, ends_with_exec, str_eq, to_owned_string};

verus! {

/// The refs of a repository, by the commit they point at.
pub struct RefData {
    pub refs_by_oid: KeyedList<Vec<GraphRef>>,
    pub ref_counts: GraphRefCounts,
    pub branch_labels: KeyedList<GraphBranchLabel>,
    pub base_branch: Option<String>,
}

/// Adds `reference` to the refs of commit `oid`.
pub fn insert_ref(refs_by_oid: &mut KeyedList<Vec<GraphRef>>, oid: &str, reference: GraphRef)
    requires
        old(refs_by_oid).wf(),
    ensures
        final(refs_by_oid).wf(),
        final(refs_by_oid).view().dom() == old(refs_by_oid).view().dom().insert(oid@),
        forall|k: Seq<char>| k != oid@ && #[trigger] old(refs_by_oid).view().contains_key(k)
            ==> final(refs_by_oid).view()[k] == old(refs_by_oid).view()[k],
        final(refs_by_oid).view()[oid@]@ == if old(refs_by_oid).view().contains_key(oid@) {
            old(refs_by_oid).view()[oid@]@.push(reference)
        } else {
            seq![reference]
        },
{
    let mut list = match refs_by_oid.get(oid) {
        Some(v) => crate::gitlog::copy_refs(v),
        None => Vec::new(),
    };
    list.push(reference);
    refs_by_oid.set(to_owned_string(oid), list);
    proof {
        assert(refs_by_oid.view().dom() =~= old(refs_by_oid).view().dom().insert(oid@));
    }
}

/// Every ref recorded in `refs` is well formed: a local branch is marked as
/// checked out in a linked worktree exactly when `linked` holds it; remote
/// branches (only recorded with `include_remotes`) and tags carry neither a
/// worktree mark nor tracking counts.
pub open spec fn refs_ok(refs: Map<Seq<char>, Vec<GraphRef>>, include_remotes: bool, linked: Set<Seq<char>>) -> bool {
    forall|oid: Seq<char>, i: int| #[trigger] refs.contains_key(oid) && 0 <= i < refs[oid]@.len() ==> {
        let r = #[trigger] refs[oid]@[i];
        match r.kind {
            GraphRefKind::LocalBranch => r.has_linked_worktree == linked.contains(r.name@),
            GraphRefKind::RemoteBranch => include_remotes && !r.has_linked_worktree && r.tracking is None,
            GraphRefKind::Tag => !r.has_linked_worktree && r.tracking is None,
        }
    }
}

/// Every label names its branch and is local, or remote with `include_remotes`.
pub open spec fn labels_ok(labels: Map<Seq<char>, GraphBranchLabel>, include_remotes: bool) -> bool {
    forall|name: Seq<char>| #[trigger] labels.contains_key(name) ==> {
        let l = labels[name];
        &&& l.name@ == name
        &&& l.kind == GraphRefKind::LocalBranch || (include_remotes && l.kind == GraphRefKind::RemoteBranch)
    }
}

/// A count from libgit2 as a `u32`, saturating.
fn saturating_u32(n: usize) -> (r: u32)
    ensures
        r == if n > u32::MAX { u32::MAX as int } else { n as int },
{
    if n > 4294967295usize { 4294967295u32 } else { n as u32 }
}

/// The tracking counts of the local branch `name` at `target`: those against
/// the first remote branch of the same short name whose counts can be read.
fn tracking_for(repo: &git2::Repository, name: &str, target: &str, remotes: &Vec<(String, String)>) -> Option<GraphRefTracking> {
    let mut i: usize = 0;
    while i < remotes.len()
        decreases remotes.len() - i,
    {
        let (remote_name, remote_oid) = (&remotes[i].0, &remotes[i].1);
        let short = crate::graph::remote_short_name(remote_name.as_str());
        if str_eq(short.as_str(), name) {
            if let (Ok(a), Ok(b)) = (oid_from_str(target), oid_from_str(remote_oid.as_str())) {
                if let Ok((ahead, behind)) = graph_ahead_behind(repo, a, b) {
                    return Some(GraphRefTracking { ahead: saturating_u32(ahead), behind: saturating_u32(behind) });
                }
            }
        }
        i = i + 1;
    }
    None
}

/// The branches of one kind that point directly at a commit, as
/// `(name, commit id)`; remote `HEAD` entries are left out.
fn branch_targets(repo: &git2::Repository, remote: bool) -> (r: Result<Vec<(String, String)>, String>)
    ensures
        r matches Ok(v) ==> forall|i: int| 0 <= i < v@.len() ==> !(remote && (#[trigger] v@[i]).0@.len() >= 5
            && v@[i].0@.subrange(v@[i].0@.len() - 5, v@[i].0@.len() as int) == "/HEAD"@),
{
    let mut iter = match branch_iter(repo, remote) {
        Ok(it) => it,
        Err(e) => return Err(error_message(&e)),
    };
    let mut out: Vec<(String, String)> = Vec::new();
    let mut budget: usize = usize::MAX;
    while budget > 0
        invariant
            forall|i: int| 0 <= i < out@.len() ==> !(remote && (#[trigger] out@[i]).0@.len() >= 5
                && out@[i].0@.subrange(out@[i].0@.len() - 5, out@[i].0@.len() as int) == "/HEAD"@),
        decreases budget,
    {
        budget = budget - 1;
        let branch = match next_branch(&mut iter) {
            None => break,
            Some(Err(e)) => return Err(error_message(&e)),
            Some(Ok(b)) => b,
        };
        let name = match branch_name(&branch) {
            Err(e) => return Err(error_message(&e)),
            Ok(None) => continue,
            Ok(Some(n)) => n,
        };
        if remote && ends_with_exec(name.as_str(), "/HEAD") {
            continue;
        }
        let target = match reference_target(branch_reference(&branch)) {
            Some(t) => t,
            None => continue,
        };
        out.push((name, oid_hex(&target)));
    }
    Ok(out)
}

/// The refs of one commit in the order they were recorded, for each commit
/// that `entries` (commit id, ref) name.
pub open spec fn grouped(entries: Seq<(Seq<char>, GraphRef)>) -> Map<Seq<char>, Seq<GraphRef>>
    decreases entries.len(),
{
    if entries.len() == 0 {
        Map::empty()
    } else {
        let g = grouped(entries.drop_last());
        let (o, r) = entries.last();
        g.insert(o, if g.contains_key(o) { g[o].push(r) } else { seq![r] })
    }
}

/// The refs of the local branches `(name, commit id)`: `trackings[i]` holds
/// the counts of branch `i`, and `linked` the branches checked out in a
/// linked worktree.
pub open spec fn local_entries(locals: Seq<(String, String)>, trackings: Seq<Option<GraphRefTracking>>, linked: Set<Seq<char>>)
    -> Seq<(Seq<char>, GraphRef)>
    decreases locals.len(),
{
    if locals.len() == 0 {
        Seq::empty()
    } else {
        let (n, o) = locals.last();
        local_entries(locals.drop_last(), trackings, linked).push((o@, GraphRef {
            name: n,
            kind: GraphRefKind::LocalBranch,
            has_linked_worktree: linked.contains(n@),
            tracking: trackings[locals.len() - 1],
        }))
    }
}

/// The refs of branches or tags `(name, commit id)` of one kind, without
/// worktree marks or counts.
pub open spec fn plain_entries(items: Seq<(String, String)>, kind: GraphRefKind) -> Seq<(Seq<char>, GraphRef)>
    decreases items.len(),
{
    if items.len() == 0 {
        Seq::empty()
    } else {
        let (n, o) = items.last();
        plain_entries(items.drop_last(), kind).push((o@, GraphRef { name: n, kind, has_linked_worktree: false, tracking: None }))
    }
}

/// Every ref drawn, in order: local branches, then remote branches when
/// they are shown, then tags.
pub open spec fn all_entries(locals: Seq<(String, String)>, remotes: Seq<(String, String)>, tags: Seq<(String, String)>,
    trackings: Seq<Option<GraphRefTracking>>, include_remotes: bool, linked: Set<Seq<char>>) -> Seq<(Seq<char>, GraphRef)>
{
    local_entries(locals, trackings, linked)
        + (if include_remotes { plain_entries(remotes, GraphRefKind::RemoteBranch) } else { Seq::empty() })
        + plain_entries(tags, GraphRefKind::Tag)
}

/// The labels of branches `(name, commit id)` of one kind, keyed by name.
pub open spec fn label_rows(items: Seq<(String, String)>, kind: GraphRefKind) -> Seq<(Seq<char>, GraphBranchLabel)>
    decreases items.len(),
{
    if items.len() == 0 {
        Seq::empty()
    } else {
        let (n, o) = items.last();
        label_rows(items.drop_last(), kind).push((n@, GraphBranchLabel { name: n, target_oid: o, kind }))
    }
}

/// Every branch label, a later one of a name replacing an earlier: local
/// branches, then remote branches when they are shown.
pub open spec fn all_labels(locals: Seq<(String, String)>, remotes: Seq<(String, String)>, include_remotes: bool)
    -> Map<Seq<char>, GraphBranchLabel>
{
    fold_rows(label_rows(locals, GraphRefKind::LocalBranch)
        + if include_remotes { label_rows(remotes, GraphRefKind::RemoteBranch) } else { Seq::empty() })
}

/// The refs recorded in `m` are exactly those `entries` group by commit.
pub open spec fn refs_match(m: Map<Seq<char>, Vec<GraphRef>>, entries: Seq<(Seq<char>, GraphRef)>) -> bool {
    &&& m.dom() == grouped(entries).dom()
    &&& forall|o: Seq<char>| #[trigger] m.contains_key(o) ==> m[o]@ == grouped(entries)[o]
}

proof fn lemma_insert_matches(before: Map<Seq<char>, Vec<GraphRef>>, after: Map<Seq<char>, Vec<GraphRef>>,
    entries: Seq<(Seq<char>, GraphRef)>, oid: Seq<char>, r: GraphRef)
    requires
        refs_match(before, entries),
        after.dom() == before.dom().insert(oid),
        forall|k: Seq<char>| k != oid && #[trigger] before.contains_key(k) ==> after[k] == before[k],
        after[oid]@ == if before.contains_key(oid) { before[oid]@.push(r) } else { seq![r] },
    ensures
        refs_match(after, entries.push((oid, r))),
{
    let e2 = entries.push((oid, r));
    assert(e2.drop_last() =~= entries);
    assert(grouped(e2).dom() =~= after.dom());
    assert forall|o: Seq<char>| #[trigger] after.contains_key(o) implies after[o]@ == grouped(e2)[o] by {
        if o != oid {
            assert(before.contains_key(o));
        }
    }
}

/// Every label maps the name it is under to its own branch.
proof fn lemma_label_rows_ok(items: Seq<(String, String)>, kind: GraphRefKind)
    ensures
        forall|i: int| 0 <= i < label_rows(items, kind).len() ==> {
            let (k, l) = #[trigger] label_rows(items, kind)[i];
            &&& l.name@ == k
            &&& l.kind == kind
        },
        label_rows(items, kind).len() == items.len(),
    decreases items.len(),
{
    if items.len() > 0 {
        lemma_label_rows_ok(items.drop_last(), kind);
    }
}

/// The refs and labels drawn on the graph from the branches and tags that
/// were read, each as `(name, commit id)`: `trackings[i]` holds the counts of
/// local branch `i`, `linked` the branches checked out in linked worktrees.
/// Remote branches are drawn and labelled only with `include_remotes`.
pub fn ref_data_from(
    locals: &Vec<(String, String)>,
    remotes: &Vec<(String, String)>,
    tags: &Vec<(String, String)>,
    trackings: &Vec<Option<GraphRefTracking>>,
    include_remotes: bool,
    base_branch: Option<String>,
    linked: &KeySet,
) -> (d: RefData)
    requires
        trackings@.len() == locals@.len(),
        linked.wf(),
    ensures
        d.refs_by_oid.wf(),
        d.branch_labels.wf(),
        refs_match(d.refs_by_oid.view(), all_entries(locals@, remotes@, tags@, trackings@, include_remotes, linked@)),
        d.branch_labels.view() == all_labels(locals@, remotes@, include_remotes),
        d.ref_counts.local == locals@.len(),
        d.ref_counts.remote == if include_remotes { remotes@.len() } else { 0 },
        d.base_branch == base_branch,
{
    let mut branch_labels: KeyedList<GraphBranchLabel> = KeyedList::new();
    let ghost mut lrows: Seq<(Seq<char>, GraphBranchLabel)> = Seq::empty();
    let mut i: usize = 0;
    while i < locals.len()
        invariant
            i <= locals@.len(),
            branch_labels.wf(),
            lrows == label_rows(locals@.subrange(0, i as int), GraphRefKind::LocalBranch),
            branch_labels.view() == fold_rows(lrows),
        decreases locals.len() - i,
    {
        let (name, target) = (&locals[i].0, &locals[i].1);
        let label = GraphBranchLabel { name: name.clone(), target_oid: target.clone(), kind: GraphRefKind::LocalBranch };
        proof {
            assert(locals@.subrange(0, i + 1).drop_last() =~= locals@.subrange(0, i as int));
            lrows = lrows.push((name@, label));
            assert(lrows.drop_last() =~= label_rows(locals@.subrange(0, i as int), GraphRefKind::LocalBranch));
        }
        branch_labels.set(name.clone(), label);
        i = i + 1;
    }
    assert(locals@.subrange(0, locals@.len() as int) =~= locals@);
    let ghost local_rows = lrows;
    let mut remote_count: usize = 0;
    if include_remotes {
        let mut i: usize = 0;
        let ghost mut rrows: Seq<(Seq<char>, GraphBranchLabel)> = Seq::empty();
        while i < remotes.len()
            invariant
                i <= remotes@.len(),
                branch_labels.wf(),
                rrows == label_rows(remotes@.subrange(0, i as int), GraphRefKind::RemoteBranch),
                branch_labels.view() == fold_rows(local_rows + rrows),
                remote_count == i,
            decreases remotes.len() - i,
        {
            let (name, target) = (&remotes[i].0, &remotes[i].1);
            let label = GraphBranchLabel { name: name.clone(), target_oid: target.clone(), kind: GraphRefKind::RemoteBranch };
            proof {
                assert(remotes@.subrange(0, i + 1).drop_last() =~= remotes@.subrange(0, i as int));
                let old_rows = local_rows + rrows;
                rrows = rrows.push((name@, label));
                assert((local_rows + rrows).drop_last() =~= old_rows);
            }
            branch_labels.set(name.clone(), label);
            remote_count = remote_count + 1;
            i = i + 1;
        }
        assert(remotes@.subrange(0, remotes@.len() as int) =~= remotes@);
    } else {
        assert(local_rows + Seq::<(Seq<char>, GraphBranchLabel)>::empty() =~= local_rows);
    }

    let mut refs_by_oid: KeyedList<Vec<GraphRef>> = KeyedList::new();
    let ghost mut ents: Seq<(Seq<char>, GraphRef)> = Seq::empty();
    proof {
        assert(refs_by_oid.view().dom() =~= grouped(ents).dom());
    }
    let mut i: usize = 0;
    while i < locals.len()
        invariant
            i <= locals@.len(),
            trackings@.len() == locals@.len(),
            linked.wf(),
            refs_by_oid.wf(),
            ents == local_entries(locals@.subrange(0, i as int), trackings@, linked@),
            refs_match(refs_by_oid.view(), ents),
        decreases locals.len() - i,
    {
        let (name, target) = (&locals[i].0, &locals[i].1);
        let r = GraphRef {
            name: name.clone(),
            kind: GraphRefKind::LocalBranch,
            has_linked_worktree: linked.contains(name.as_str()),
            tracking: trackings[i],
        };
        let ghost before = refs_by_oid.view();
        insert_ref(&mut refs_by_oid, target.as_str(), r);
        proof {
            lemma_insert_matches(before, refs_by_oid.view(), ents, target@, r);
            assert(locals@.subrange(0, i + 1).drop_last() =~= locals@.subrange(0, i as int));
            ents = ents.push((target@, r));
        }
        i = i + 1;
    }
    assert(locals@.subrange(0, locals@.len() as int) =~= locals@);
    let ghost lents = ents;
    if include_remotes {
        let mut i: usize = 0;
        let ghost mut rents: Seq<(Seq<char>, GraphRef)> = Seq::empty();
        assert(ents =~= lents + rents);
        while i < remotes.len()
            invariant
                i <= remotes@.len(),
                refs_by_oid.wf(),
                rents == plain_entries(remotes@.subrange(0, i as int), GraphRefKind::RemoteBranch),
                ents == lents + rents,
                refs_match(refs_by_oid.view(), ents),
            decreases remotes.len() - i,
        {
            let (name, target) = (&remotes[i].0, &remotes[i].1);
            let r = GraphRef { name: name.clone(), kind: GraphRefKind::RemoteBranch, has_linked_worktree: false, tracking: None };
            let ghost before = refs_by_oid.view();
            insert_ref(&mut refs_by_oid, target.as_str(), r);
            proof {
                lemma_insert_matches(before, refs_by_oid.view(), ents, target@, r);
                assert(remotes@.subrange(0, i + 1).drop_last() =~= remotes@.subrange(0, i as int));
                rents = rents.push((target@, r));
                ents = ents.push((target@, r));
                assert(ents =~= lents + rents);
            }
            i = i + 1;
        }
        assert(remotes@.subrange(0, remotes@.len() as int) =~= remotes@);
    } else {
        assert(ents =~= lents + Seq::<(Seq<char>, GraphRef)>::empty());
    }
    let ghost bents = ents;
    let mut i: usize = 0;
    let ghost mut tents: Seq<(Seq<char>, GraphRef)> = Seq::empty();
    assert(ents =~= bents + tents);
    while i < tags.len()
        invariant
            i <= tags@.len(),
            refs_by_oid.wf(),
            tents == plain_entries(tags@.subrange(0, i as int), GraphRefKind::Tag),
            ents == bents + tents,
            refs_match(refs_by_oid.view(), ents),
        decreases tags.len() - i,
    {
        let (name, target) = (&tags[i].0, &tags[i].1);
        let r = GraphRef { name: name.clone(), kind: GraphRefKind::Tag, has_linked_worktree: false, tracking: None };
        let ghost before = refs_by_oid.view();
        insert_ref(&mut refs_by_oid, target.as_str(), r);
        proof {
            lemma_insert_matches(before, refs_by_oid.view(), ents, target@, r);
            assert(tags@.subrange(0, i + 1).drop_last() =~= tags@.subrange(0, i as int));
            tents = tents.push((target@, r));
            ents = ents.push((target@, r));
            assert(ents =~= bents + tents);
        }
        i = i + 1;
    }
    assert(tags@.subrange(0, tags@.len() as int) =~= tags@);
    RefData {
        refs_by_oid,
        ref_counts: GraphRefCounts { local: locals.len(), remote: remote_count },
        branch_labels,
        base_branch,
    }
}


/// What every ref drawn satisfies, by its kind.
pub open spec fn ref_ok(r: GraphRef, include_remotes: bool, linked: Set<Seq<char>>) -> bool {
    match r.kind {
        GraphRefKind::LocalBranch => r.has_linked_worktree == linked.contains(r.name@),
        GraphRefKind::RemoteBranch => include_remotes && !r.has_linked_worktree && r.tracking is None,
        GraphRefKind::Tag => !r.has_linked_worktree && r.tracking is None,
    }
}

proof fn lemma_grouped_ok(e: Seq<(Seq<char>, GraphRef)>, include_remotes: bool, linked: Set<Seq<char>>)
    requires
        forall|j: int| 0 <= j < e.len() ==> ref_ok(#[trigger] e[j].1, include_remotes, linked),
    ensures
        forall|o: Seq<char>, i: int| #[trigger] grouped(e).contains_key(o) && 0 <= i < grouped(e)[o].len()
            ==> ref_ok(#[trigger] grouped(e)[o][i], include_remotes, linked),
    decreases e.len(),
{
    if e.len() > 0 {
        let p = e.drop_last();
        assert forall|j: int| 0 <= j < p.len() implies ref_ok(#[trigger] p[j].1, include_remotes, linked) by {
            assert(p[j] == e[j]);
        }
        lemma_grouped_ok(p, include_remotes, linked);
        let (o0, r0) = e.last();
        assert(ref_ok(r0, include_remotes, linked));
        let g = grouped(p);
        assert forall|o: Seq<char>, i: int| #[trigger] grouped(e).contains_key(o) && 0 <= i < grouped(e)[o].len()
            implies ref_ok(#[trigger] grouped(e)[o][i], include_remotes, linked) by {
            if o != o0 {
                assert(grouped(e)[o] == g[o]);
            } else if g.contains_key(o0) {
                assert(grouped(e)[o] == g[o0].push(r0));
                if i < g[o0].len() {
                    assert(grouped(e)[o][i] == g[o0][i]);
                }
            }
        }
    }
}

proof fn lemma_local_entries_ok(locals: Seq<(String, String)>, trackings: Seq<Option<GraphRefTracking>>, include_remotes: bool, linked: Set<Seq<char>>)
    ensures
        forall|j: int| 0 <= j < local_entries(locals, trackings, linked).len()
            ==> ref_ok(#[trigger] local_entries(locals, trackings, linked)[j].1, include_remotes, linked),
    decreases locals.len(),
{
    if locals.len() > 0 {
        lemma_local_entries_ok(locals.drop_last(), trackings, include_remotes, linked);
        let p = local_entries(locals.drop_last(), trackings, linked);
        let cur = local_entries(locals, trackings, linked);
        assert forall|j: int| 0 <= j < cur.len() implies ref_ok(#[trigger] cur[j].1, include_remotes, linked) by {
            if j < p.len() {
                assert(cur[j] == p[j]);
            }
        }
    }
}

proof fn lemma_plain_entries_ok(items: Seq<(String, String)>, kind: GraphRefKind, include_remotes: bool, linked: Set<Seq<char>>)
    requires
        kind == GraphRefKind::Tag || (kind == GraphRefKind::RemoteBranch && include_remotes),
    ensures
        forall|j: int| 0 <= j < plain_entries(items, kind).len()
            ==> ref_ok(#[trigger] plain_entries(items, kind)[j].1, include_remotes, linked),
    decreases items.len(),
{
    if items.len() > 0 {
        lemma_plain_entries_ok(items.drop_last(), kind, include_remotes, linked);
        let p = plain_entries(items.drop_last(), kind);
        let cur = plain_entries(items, kind);
        assert forall|j: int| 0 <= j < cur.len() implies ref_ok(#[trigger] cur[j].1, include_remotes, linked) by {
            if j < p.len() {
                assert(cur[j] == p[j]);
            }
        }
    }
}

proof fn lemma_fold_labels(rows: Seq<(Seq<char>, GraphBranchLabel)>, include_remotes: bool)
    requires
        forall|i: int| 0 <= i < rows.len() ==> {
            let (k, l) = #[trigger] rows[i];
            &&& l.name@ == k
            &&& l.kind == GraphRefKind::LocalBranch || (include_remotes && l.kind == GraphRefKind::RemoteBranch)
        },
    ensures
        labels_ok(fold_rows(rows), include_remotes),
    decreases rows.len(),
{
    if rows.len() > 0 {
        let p = rows.drop_last();
        assert forall|i: int| 0 <= i < p.len() implies {
            let (k, l) = #[trigger] p[i];
            &&& l.name@ == k
            &&& l.kind == GraphRefKind::LocalBranch || (include_remotes && l.kind == GraphRefKind::RemoteBranch)
        } by {
            assert(p[i] == rows[i]);
        }
        lemma_fold_labels(p, include_remotes);
        let last = rows[rows.len() - 1];
        assert(last.1.name@ == last.0);
    }
}

/// The refs drawn on the graph. `requested_base` is the base branch the user
/// asked for (detected when absent); `linked_worktrees` holds the branches
/// checked out in worktrees other than the primary one. The branches, tags,
/// and tracking counts are read from the repository; [`ref_data_from`]
/// makes the refs and labels of them.
pub fn collect_ref_data(
    repo: &git2::Repository,
    include_remotes: bool,
    requested_base: Option<&str>,
    linked_worktrees: &KeySet,
) -> (r: Result<RefData, String>)
    requires
        linked_worktrees.wf(),
    ensures
        r matches Ok(d) ==> {
            &&& d.refs_by_oid.wf()
            &&& d.branch_labels.wf()
            &&& refs_ok(d.refs_by_oid.view(), include_remotes, linked_worktrees.view())
            &&& labels_ok(d.branch_labels.view(), include_remotes)
            &&& (requested_base matches Some(b) ==> d.base_branch matches Some(x) && x@ == b@)
            &&& (!include_remotes ==> d.ref_counts.remote == 0)
        },
{
    let base_branch = match requested_base {
        Some(b) => Some(to_owned_string(b)),
        None => match detect_base_branch(repo, None) {
            Ok(b) => Some(b),
            Err(_) => None,
        },
    };
    let locals = match branch_targets(repo, false) {
        Ok(v) => v,
        Err(e) => return Err(e),
    };
    let remotes = match branch_targets(repo, true) {
        Ok(v) => v,
        Err(e) => return Err(e),
    };
    let mut trackings: Vec<Option<GraphRefTracking>> = Vec::new();
    let mut i: usize = 0;
    while i < locals.len()
        invariant
            i <= locals@.len(),
            trackings@.len() == i,
        decreases locals.len() - i,
    {
        trackings.push(tracking_for(repo, locals[i].0.as_str(), locals[i].1.as_str(), &remotes));
        i = i + 1;
    }
    let names = match tag_names(repo) {
        Ok(t) => t,
        Err(e) => return Err(error_message(&e)),
    };
    let mut tags: Vec<(String, String)> = Vec::new();
    let mut i: usize = 0;
    while i < names.len()
        decreases names.len() - i,
    {
        if let Some(name) = &names[i] {
            let spec = concat2("refs/tags/", name.as_str());
            if let Ok(object) = revparse_single(repo, spec.as_str()) {
                if let Ok(commit) = object_peel_to_commit(&object) {
                    tags.push((name.clone(), oid_hex(&commit_id(&commit))));
                }
            }
        }
        i = i + 1;
    }
    let d = ref_data_from(&locals, &remotes, &tags, &trackings, include_remotes, base_branch, linked_worktrees);
    proof {
        let lk = linked_worktrees@;
        let le = local_entries(locals@, trackings@, lk);
        let re = if include_remotes { plain_entries(remotes@, GraphRefKind::RemoteBranch) } else { Seq::empty() };
        let te = plain_entries(tags@, GraphRefKind::Tag);
        let e = all_entries(locals@, remotes@, tags@, trackings@, include_remotes, lk);
        lemma_local_entries_ok(locals@, trackings@, include_remotes, lk);
        if include_remotes {
            lemma_plain_entries_ok(remotes@, GraphRefKind::RemoteBranch, include_remotes, lk);
        }
        lemma_plain_entries_ok(tags@, GraphRefKind::Tag, include_remotes, lk);
        assert forall|j: int| 0 <= j < e.len() implies ref_ok(#[trigger] e[j].1, include_remotes, lk) by {
            if j < le.len() {
                assert(e[j] == le[j]);
            } else if j < le.len() + re.len() {
                assert(e[j] == re[j - le.len()]);
            } else {
                assert(e[j] == te[j - le.len() - re.len()]);
            }
        }
        lemma_grouped_ok(e, include_remotes, lk);
        let m = d.refs_by_oid.view();
        assert forall|oid: Seq<char>, i: int| #[trigger] m.contains_key(oid) && 0 <= i < m[oid]@.len() implies
            ref_ok(#[trigger] m[oid]@[i], include_remotes, lk) by {
            assert(grouped(e).contains_key(oid));
            assert(m[oid]@ == grouped(e)[oid]);
            assert(ref_ok(grouped(e)[oid][i], include_remotes, lk));
        }
        let lr = label_rows(locals@, GraphRefKind::LocalBranch);
        let rr = if include_remotes { label_rows(remotes@, GraphRefKind::RemoteBranch) } else { Seq::empty() };
        lemma_label_rows_ok(locals@, GraphRefKind::LocalBranch);
        lemma_label_rows_ok(remotes@, GraphRefKind::RemoteBranch);
        let rows = lr + rr;
        assert forall|i: int| 0 <= i < rows.len() implies {
            let (k, l) = #[trigger] rows[i];
            &&& l.name@ == k
            &&& l.kind == GraphRefKind::LocalBranch || (include_remotes && l.kind == GraphRefKind::RemoteBranch)
        } by {
            if i < lr.len() {
                assert(rows[i] == lr[i]);
            } else {
                assert(rows[i] == rr[i - lr.len()]);
            }
        }
        lemma_fold_labels(rows, include_remotes);
    }
    Ok(d)
}

} // verus!
