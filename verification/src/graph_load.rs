//! Turning what the graph loaders read into a snapshot: the `git log`
//! fallback's arguments and output, the lane renderer's rows, and the choice
//! between the two.

use vstd::prelude::*;
use crate::graph::{
    GraphBranchLabel, GraphCommit, GraphLine, GraphLoadError, GraphLoadOptions, GraphSnapshot, GraphSource,
};
use crate::graph_refs::RefData;
use crate::gitlog::{log_read, parse_git_log, copy_refs};
use crate::labels::{after_first_parent, assign_graph_branch_labels, merge_label_of, opt_label_view};
use crate::text::{concat2, decimal, decimal_string_usize, lines, to_owned_string};

verus! {

/// `out` is `cs` with branch labels assigned from `labels` for base `base`.
pub open spec fn labelled(cs: Seq<GraphCommit>, labels: Seq<GraphBranchLabel>, base: Option<Seq<char>>, out: Seq<GraphCommit>) -> bool {
    &&& out.len() == cs.len()
    &&& forall|i: int| 0 <= i < cs.len() ==> {
        &&& #[trigger] out[i] == (GraphCommit { branch: out[i].branch, ..cs[i] })
        &&& opt_label_view(out[i].branch) == merge_label_of(after_first_parent(cs, labels, base), i, cs.len() as int)
    }
}

pub open spec fn opt_str(o: Option<String>) -> Option<Seq<char>> {
    match o {
        Some(s) => Some(s@),
        None => None,
    }
}

/// The arguments of the `git log` run that stands in for the lane renderer.
pub open spec fn git_log_args_spec(max_count: nat, include_remotes: bool) -> Seq<Seq<char>> {
    seq![
        "-c"@, "color.ui=false"@, "log"@, "--graph"@, "--topo-order"@, "--decorate"@, "--oneline"@,
        "--no-color"@, "--format=%x1e%H%x1f%P%x1f%s"@, "--max-count="@ + decimal(max_count),
        if include_remotes { "--all"@ } else { "--branches"@ },
    ]
}

/// The arguments of `git log` for the fallback graph: all refs when remotes
/// are shown, local branches otherwise.
pub fn git_log_args(options: &GraphLoadOptions) -> (r: Vec<String>)
    ensures
        r@.map_values(|s: String| s@) == git_log_args_spec(options.max_count as nat, options.include_remotes),
{
    let mut r: Vec<String> = Vec::new();
    r.push(to_owned_string("-c"));
    r.push(to_owned_string("color.ui=false"));
    r.push(to_owned_string("log"));
    r.push(to_owned_string("--graph"));
    r.push(to_owned_string("--topo-order"));
    r.push(to_owned_string("--decorate"));
    r.push(to_owned_string("--oneline"));
    r.push(to_owned_string("--no-color"));
    r.push(to_owned_string("--format=%x1e%H%x1f%P%x1f%s"));
    let n = decimal_string_usize(options.max_count);
    r.push(concat2("--max-count=", n.as_str()));
    r.push(to_owned_string(if options.include_remotes { "--all" } else { "--branches" }));
    assert(r@.map_values(|s: String| s@) =~= git_log_args_spec(options.max_count as nat, options.include_remotes));
    r
}

fn copy_label(l: &GraphBranchLabel) -> (c: GraphBranchLabel)
    ensures
        c == *l,
{
    GraphBranchLabel { name: l.name.clone(), target_oid: l.target_oid.clone(), kind: l.kind }
}

/// The branch labels of the ref data, in the order they were recorded.
pub open spec fn labels_of(data: RefData) -> Seq<GraphBranchLabel> {
    data.branch_labels.rows@.map_values(|row: (String, GraphBranchLabel)| row.1)
}

/// The labels of the ref data, in the order they were recorded.
pub fn label_list(data: &RefData) -> (r: Vec<GraphBranchLabel>)
    ensures
        r@ == labels_of(*data),
{
    let rows = &data.branch_labels.rows;
    let mut r: Vec<GraphBranchLabel> = Vec::new();
    let mut i: usize = 0;
    while i < rows.len()
        invariant
            rows == &data.branch_labels.rows,
            i <= rows.len(),
            r@ == rows@.subrange(0, i as int).map_values(|row: (String, GraphBranchLabel)| row.1),
        decreases rows.len() - i,
    {
        r.push(copy_label(&rows[i].1));
        i = i + 1;
        proof {
            assert(r@ =~= rows@.subrange(0, i as int).map_values(|row: (String, GraphBranchLabel)| row.1));
        }
    }
    assert(rows@.subrange(0, rows@.len() as int) =~= rows@);
    assert(r@ =~= labels_of(*data));
    r
}

/// The snapshot read from `git log` output, the renderer having failed for
/// `cause`. Fails where a record of the log cannot be read.
pub fn git_cli_snapshot(stdout: &str, cause: String, options: &GraphLoadOptions, data: &RefData) -> (r: Result<GraphSnapshot, String>)
    requires
        data.refs_by_oid.wf(),
    ensures
        match r {
            Ok(s) => {
                &&& s.source == (GraphSource::GitCliFallback { cause })
                &&& s.ref_counts == data.ref_counts
                &&& s.max_count == options.max_count
                &&& s.includes_remotes == options.include_remotes
                &&& s.generation is None
                &&& exists|parsed: Seq<GraphCommit>| #[trigger] log_read(lines(stdout@), data.refs_by_oid.view(), parsed, s.lines@)
                    && labelled(parsed, labels_of(*data),
                        opt_str(data.base_branch), s.commits@)
            },
            Err(m) => exists|k: int| 0 <= k < lines(stdout@).len()
                && #[trigger] crate::gitlog::classify_line(lines(stdout@)[k]) is Bad
                && m@ == "could not parse git log record: "@ + lines(stdout@)[k],
        },
{
    let (mut commits, graph_lines) = match parse_git_log(stdout, &data.refs_by_oid) {
        Ok(p) => p,
        Err(m) => return Err(m),
    };
    let ghost parsed = commits@;
    proof {
        assert(log_read(lines(stdout@), data.refs_by_oid.view(), parsed, graph_lines@));
    }
    let labels = label_list(data);
    let base: Option<&str> = match &data.base_branch {
        Some(b) => Some(b.as_str()),
        None => None,
    };
    assign_graph_branch_labels(&mut commits, &labels, base);
    proof {
        assert(match base { Some(b) => Some(b@), None => None::<Seq<char>> } == opt_str(data.base_branch));
        assert(labelled(parsed, labels@, opt_str(data.base_branch), commits@));
    }
    let snap = GraphSnapshot {
        source: GraphSource::GitCliFallback { cause },
        commits,
        lines: graph_lines,
        ref_counts: data.ref_counts,
        max_count: options.max_count,
        includes_remotes: options.include_remotes,
        generation: None,
    };
    proof {
        assert(log_read(lines(stdout@), data.refs_by_oid.view(), parsed, snap.lines@));
        assert(labelled(parsed, labels_of(*data), opt_str(data.base_branch), snap.commits@));
    }
    Ok(snap)
}

/// One commit as the lane renderer read it.
#[derive(Debug)]
pub struct RenderedCommit {
    pub oid: String,
    pub summary: String,
    pub parents: Vec<String>,
    pub lane: Option<usize>,
}

/// The commit shown on rendered line `k`: the renderer's commits are numbered
/// from `start`, and where several claim a line the last one counts.
pub open spec fn commit_on_line(commit_lines: Seq<usize>, start: int, k: int) -> Option<usize> {
    if exists|r: int| 0 <= r < commit_lines.len() && commit_lines[r] == k {
        let r = choose|r: int| 0 <= r < commit_lines.len() && commit_lines[r] == k
            && forall|q: int| r < q < commit_lines.len() ==> commit_lines[q] != k;
        Some((start + r) as usize)
    } else {
        None
    }
}

/// The commit shown on line `k`, by a search from the end.
fn find_commit_on_line(commit_lines: &Vec<usize>, start: usize, k: usize) -> (r: Option<usize>)
    requires
        start + commit_lines@.len() <= usize::MAX,
    ensures
        r == commit_on_line(commit_lines@, start as int, k as int),
{
    let mut j = commit_lines.len();
    while j > 0
        invariant
            j <= commit_lines.len(),
            start + commit_lines@.len() <= usize::MAX,
            forall|q: int| j <= q < commit_lines@.len() ==> commit_lines@[q] != k,
        decreases j,
    {
        j = j - 1;
        if commit_lines[j] == k {
            proof {
                let c = choose|r: int| 0 <= r < commit_lines@.len() && commit_lines@[r] == k
                    && forall|q: int| r < q < commit_lines@.len() ==> commit_lines@[q] != k;
                if c < j {
                    assert(commit_lines@[j as int] != k);
                } else if c > j {
                    assert(commit_lines@[c] != k);
                }
            }
            return Some(start + j);
        }
    }
    None
}

/// The snapshot built from the lane renderer's commits and rendered lines.
/// `commit_lines[r]` is the line of the `r`-th commit, and commits are
/// numbered from `start`.
pub fn rendered_snapshot(
    rendered: Vec<RenderedCommit>,
    graph_lines: Vec<String>,
    commit_lines: &Vec<usize>,
    start: usize,
    options: &GraphLoadOptions,
    data: &RefData,
) -> (s: GraphSnapshot)
    requires
        data.refs_by_oid.wf(),
        start + commit_lines@.len() <= usize::MAX,
    ensures
        s.source == GraphSource::Gleisbau,
        s.ref_counts == data.ref_counts,
        s.max_count == options.max_count,
        s.includes_remotes == options.include_remotes,
        s.generation is None,
        s.lines@.len() == graph_lines@.len(),
        forall|k: int| 0 <= k < graph_lines@.len() ==> {
            &&& (#[trigger] s.lines@[k]).graph == graph_lines@[k]
            &&& s.lines@[k].commit_index == commit_on_line(commit_lines@, start as int, k)
        },
        exists|raw: Seq<GraphCommit>| {
            &&& #[trigger] raw.len() == rendered@.len()
            &&& (forall|i: int| 0 <= i < rendered@.len() ==> {
                let c = #[trigger] raw[i];
                &&& c.oid == rendered@[i].oid
                &&& c.summary == rendered@[i].summary
                &&& c.parents == rendered@[i].parents
                &&& c.lane == rendered@[i].lane
                &&& c.branch is None
                &&& c.refs@ == if data.refs_by_oid.view().contains_key(rendered@[i].oid@) {
                    data.refs_by_oid.view()[rendered@[i].oid@]@
                } else {
                    Seq::empty()
                }
                &&& !c.is_possible_squash_merge
                &&& c.fuzzy_squash_match is None
            })
            &&& labelled(raw, labels_of(*data),
                opt_str(data.base_branch), s.commits@)
        },
{
    let ghost rv = rendered@;
    let _n = rendered.len();
    let mut commits: Vec<GraphCommit> = Vec::new();
    let mut rest = rendered;
    let mut i: usize = 0;
    while rest.len() > 0
        invariant
            data.refs_by_oid.wf(),
            rv.len() <= usize::MAX,
            i + rest@.len() == rv.len(),
            rest@ == rv.subrange(i as int, rv.len() as int),
            commits@.len() == i,
            forall|q: int| 0 <= q < i ==> {
                let c = #[trigger] commits@[q];
                &&& c.oid == rv[q].oid
                &&& c.summary == rv[q].summary
                &&& c.parents == rv[q].parents
                &&& c.lane == rv[q].lane
                &&& c.branch is None
                &&& c.refs@ == if data.refs_by_oid.view().contains_key(rv[q].oid@) {
                    data.refs_by_oid.view()[rv[q].oid@]@
                } else {
                    Seq::empty()
                }
                &&& !c.is_possible_squash_merge
                &&& c.fuzzy_squash_match is None
            },
        decreases rest@.len(),
    {
        let rc = rest.remove(0);
        proof {
            assert(rc == rv[i as int]);
            assert(rest@ =~= rv.subrange(i as int + 1, rv.len() as int));
        }
        let refs = match data.refs_by_oid.get(rc.oid.as_str()) {
            Some(v) => copy_refs(v),
            None => Vec::new(),
        };
        commits.push(GraphCommit {
            oid: rc.oid,
            summary: rc.summary,
            parents: rc.parents,
            lane: rc.lane,
            branch: None,
            refs,
            is_possible_squash_merge: false,
            fuzzy_squash_match: None,
        });
        i = i + 1;
    }
    let ghost raw = commits@;
    let labels = label_list(data);
    let base: Option<&str> = match &data.base_branch {
        Some(b) => Some(b.as_str()),
        None => None,
    };
    assign_graph_branch_labels(&mut commits, &labels, base);
    proof {
        assert(match base { Some(b) => Some(b@), None => None::<Seq<char>> } == opt_str(data.base_branch));
        assert(labelled(raw, labels@, opt_str(data.base_branch), commits@));
        assert(raw.len() == rv.len());
    }
    let ghost gv = graph_lines@;
    let _m = graph_lines.len();
    let mut lines_out: Vec<GraphLine> = Vec::new();
    let mut rest_lines = graph_lines;
    let mut k: usize = 0;
    while rest_lines.len() > 0
        invariant
            start + commit_lines@.len() <= usize::MAX,
            gv.len() <= usize::MAX,
            k + rest_lines@.len() == gv.len(),
            rest_lines@ == gv.subrange(k as int, gv.len() as int),
            lines_out@.len() == k,
            forall|q: int| 0 <= q < k ==> {
                &&& (#[trigger] lines_out@[q]).graph == gv[q]
                &&& lines_out@[q].commit_index == commit_on_line(commit_lines@, start as int, q)
            },
        decreases rest_lines@.len(),
    {
        let g = rest_lines.remove(0);
        proof {
            assert(g == gv[k as int]);
            assert(rest_lines@ =~= gv.subrange(k as int + 1, gv.len() as int));
        }
        let idx = find_commit_on_line(commit_lines, start, k);
        lines_out.push(GraphLine { graph: g, commit_index: idx });
        k = k + 1;
    }
    GraphSnapshot {
        source: GraphSource::Gleisbau,
        commits,
        lines: lines_out,
        ref_counts: data.ref_counts,
        max_count: options.max_count,
        includes_remotes: options.include_remotes,
        generation: None,
    }
}

/// The cause recorded when the lane renderer panicked.
pub fn renderer_panic_cause() -> (s: String)
    ensures
        s@ == "Gleisbau panicked while building the graph"@,
{
    to_owned_string("Gleisbau panicked while building the graph")
}

/// The outcome of a load whose renderer failed for `cause`: the fallback's
/// snapshot, or both failures.
pub fn fallback_outcome(cause: String, fallback: Result<GraphSnapshot, String>) -> (r: Result<GraphSnapshot, GraphLoadError>)
    ensures
        match fallback {
            Ok(s) => r == Ok::<GraphSnapshot, GraphLoadError>(s),
            Err(f) => r matches Err(GraphLoadError::Both { gleisbau, fallback: f2 }) && gleisbau == cause && f2 == f,
        },
{
    match fallback {
        Ok(s) => Ok(s),
        Err(f) => Err(GraphLoadError::Both { gleisbau: cause, fallback: f }),
    }
}

} // verus!
