//! The commit graph shown by the Graph view: its owned snapshot, the branch
//! labels that claim each commit, the displayed-history relations used for
//! squash-merge hints, and the application of those hints.
//!
//! Walking the repository, rendering lanes and running `git diff` or
//! `git patch-id` belong to the caller.

use vstd::prelude::*;
use crate::history::{adj_edge, reachable_from, reaches};
use crate::keyed::KeySet;
use crate::text::{chars_of, concat3, find_char, find_from, occurs_at, slice_string, str_eq, first_char_at, first_occurrence};

verus! {

/// Where a snapshot's structure came from.
#[derive(Debug, Clone, PartialEq, Eq)]
pub enum GraphSource {
    Gleisbau,
    GitCliFallback { cause: String },
}

/// A near-match between a base commit's diff and a branch's aggregate
/// diff, as an integer similarity percent.
#[derive(Debug, Clone, Copy, PartialEq, Eq, Structural)]
pub struct FuzzySquashMatch {
    pub similarity_percent: u8,
}

#[derive(Debug, Clone, Copy, PartialEq, Eq, Structural)]
pub enum GraphRefKind {
    LocalBranch,
    RemoteBranch,
    Tag,
}

/// The live branch whose first-parent history owns a commit.
#[derive(Debug, Clone, PartialEq, Eq)]
pub struct GraphBranchLabel {
    pub name: String,
    pub target_oid: String,
    pub kind: GraphRefKind,
}

#[derive(Debug, Clone, Copy, PartialEq, Eq, Structural)]
pub struct GraphRefTracking {
    pub ahead: u32,
    pub behind: u32,
}

/// A ref pointing at a commit.
#[derive(Debug, Clone, PartialEq, Eq)]
pub struct GraphRef {
    pub name: String,
    pub kind: GraphRefKind,
    pub has_linked_worktree: bool,
    pub tracking: Option<GraphRefTracking>,
}

#[derive(Debug, Clone, PartialEq, Eq)]
pub struct GraphCommit {
    pub oid: String,
    pub summary: String,
    pub parents: Vec<String>,
    pub lane: Option<usize>,
    pub branch: Option<GraphBranchLabel>,
    pub refs: Vec<GraphRef>,
    /// A displayed base-branch commit with the same patch ID as the
    /// aggregate patch of a displayed, non-merged local branch.
    pub is_possible_squash_merge: bool,
    /// A near-match for a displayed branch's aggregate diff; never set
    /// together with `is_possible_squash_merge`.
    pub fuzzy_squash_match: Option<FuzzySquashMatch>,
}

/// One rendered row of the graph and the commit it shows, if any.
#[derive(Debug, Clone, PartialEq, Eq)]
pub struct GraphLine {
    pub graph: String,
    pub commit_index: Option<usize>,
}

#[derive(Debug, Clone, Copy, PartialEq, Eq, Structural)]
pub struct GraphRefCounts {
    pub local: usize,
    pub remote: usize,
}

/// An owned graph payload, free of repository handles.
#[derive(Debug, Clone, PartialEq, Eq)]
pub struct GraphSnapshot {
    pub source: GraphSource,
    pub commits: Vec<GraphCommit>,
    pub lines: Vec<GraphLine>,
    pub ref_counts: GraphRefCounts,
    pub max_count: usize,
    pub includes_remotes: bool,
    /// Reload generation that enrichment messages are matched against.
    pub generation: Option<u64>,
}

/// One per-commit squash-merge hint.
#[derive(Debug, Clone, PartialEq, Eq)]
pub struct GraphEnrichmentUpdate {
    pub oid: String,
    pub is_possible_squash_merge: bool,
    pub fuzzy_squash_match: Option<FuzzySquashMatch>,
}

/// All hints for one reload generation, applied together.
#[derive(Debug, Clone, PartialEq, Eq)]
pub struct GraphEnrichmentMsg {
    pub generation: u64,
    pub updates: Vec<GraphEnrichmentUpdate>,
}

/// Line characters of the rendered graph.
#[derive(Debug, Clone, Copy, PartialEq, Eq, Structural)]
pub enum GraphLineStyle {
    Thin,
    Round,
}

impl GraphLineStyle {
    /// Rounded lines for the powerline symbol set, thin lines otherwise.
    pub fn from_symbol_name(name: &str) -> (s: Self)
        ensures
            (name@ == "powerline"@) ==> s == GraphLineStyle::Round,
            (name@ != "powerline"@) ==> s == GraphLineStyle::Thin,
    {
        if str_eq(name, "powerline") {
            GraphLineStyle::Round
        } else {
            GraphLineStyle::Thin
        }
    }
}

impl Default for GraphLineStyle {
    fn default() -> (s: Self)
        ensures
            s == GraphLineStyle::Thin,
    {
        GraphLineStyle::Thin
    }
}

/// How a graph is loaded.
#[derive(Debug, Clone, PartialEq, Eq)]
pub struct GraphLoadOptions {
    pub max_count: usize,
    pub include_remotes: bool,
    pub line_style: GraphLineStyle,
    pub base_branch: Option<String>,
}

impl Default for GraphLoadOptions {
    fn default() -> (o: Self)
        ensures
            o.max_count == 500,
            !o.include_remotes,
            o.line_style == GraphLineStyle::Thin,
            o.base_branch is None,
    {
        GraphLoadOptions { max_count: 500, include_remotes: false, line_style: GraphLineStyle::Thin, base_branch: None }
    }
}

/// Both ways of loading the graph failed.
#[derive(Debug)]
pub enum GraphLoadError {
    Both { gleisbau: String, fallback: String },
}

impl GraphLoadError {
    /// The error's message.
    pub fn message(&self) -> (m: String)
        ensures
            match self {
                GraphLoadError::Both { gleisbau, fallback } => m@ == "Gleisbau failed ("@ + gleisbau@
                    + ") and the git CLI fallback failed ("@ + fallback@ + ")"@,
            },
    {
        match self {
            GraphLoadError::Both { gleisbau, fallback } => {
                let a = concat3("Gleisbau failed (", gleisbau.as_str(), ") and the git CLI fallback failed (");
                concat3(a.as_str(), fallback.as_str(), ")")
            },
        }
    }
}


/// The branch name in a summary of the form `... Merge branch '<name>' ...`:
/// what follows the first `Merge branch '` up to the next `'`, when not empty.
pub open spec fn merge_branch_name(summary: Seq<char>) -> Option<Seq<char>> {
    let m = "Merge branch '"@;
    if exists|i: int| first_occurrence(summary, m, i) {
        let i = choose|i: int| first_occurrence(summary, m, i);
        let rest = summary.subrange(i + m.len(), summary.len() as int);
        if exists|j: int| first_char_at(rest, '\'', j) {
            let j = choose|j: int| first_char_at(rest, '\'', j);
            if j > 0 { Some(rest.subrange(0, j)) } else { None }
        } else {
            None
        }
    } else {
        None
    }
}

/// The branch named by a merge commit's summary.
pub fn parse_merge_branch_name(summary: &str) -> (r: Option<String>)
    ensures
        opt_string_view(r) == merge_branch_name(summary@),
{
    let s = chars_of(summary);
    let marker = chars_of("Merge branch '");
    match find_from(&s, &marker, 0) {
        None => {
            proof {
                assert(!exists|i: int| first_occurrence(s@, "Merge branch '"@, i));
            }
            None
        },
        Some(i) => {
            proof {
                assert(first_occurrence(s@, "Merge branch '"@, i as int));
                crate::text::lemma_first_occurrence_unique(s@, marker@);
            }
            let n = s.len();
            let mlen = marker.len();
            assert(i + mlen <= n);
            let start = i + mlen;
            let rest = crate::text::slice_vec(&s, start, s.len());
            proof {
                let c = choose|c: int| first_occurrence(s@, "Merge branch '"@, c);
                assert(c == i);
                assert(rest@ == s@.subrange(c + "Merge branch '"@.len(), s@.len() as int));
            }
            match find_char(&rest, '\'', 0) {
                None => {
                    proof {
                        assert(!exists|j: int| first_char_at(rest@, '\'', j));
                    }
                    None
                },
                Some(end) => {
                    proof {
                        assert(first_char_at(rest@, '\'', end as int));
                        crate::text::lemma_first_char_unique(rest@, '\'');
                    }
                    proof {
                        let c = choose|c: int| first_char_at(rest@, '\'', c);
                        assert(c == end);
                    }
                    if end == 0 {
                        None
                    } else {
                        Some(slice_string(&rest, 0, end))
                    }
                },
            }
        },
    }
}

/// The view of an optional string.
pub open spec fn opt_string_view(o: Option<String>) -> Option<Seq<char>> {
    match o {
        Some(s) => Some(s@),
        None => None,
    }
}

/// A remote branch's name without its remote: what follows the first `/`,
/// or the whole name when it has none.
pub open spec fn remote_short(name: Seq<char>) -> Seq<char> {
    if exists|j: int| first_char_at(name, '/', j) {
        let j = choose|j: int| first_char_at(name, '/', j);
        name.subrange(j + 1, name.len() as int)
    } else {
        name
    }
}

pub fn remote_short_name(name: &str) -> (r: String)
    ensures
        r@ == remote_short(name@),
{
    let s = chars_of(name);
    match find_char(&s, '/', 0) {
        None => {
            proof {
                assert(!exists|j: int| first_char_at(s@, '/', j));
            }
            slice_string(&s, 0, s.len())
        },
        Some(j) => {
            proof {
                assert(first_char_at(s@, '/', j as int));
                crate::text::lemma_first_char_unique(s@, '/');
                let c = choose|c: int| first_char_at(s@, '/', c);
                assert(c == j);
            }
            assert(j < s.len());
            slice_string(&s, j + 1, s.len())
        },
    }
}


/// The position of the displayed commit with `oid`; the last one when the
/// oid repeats, as a map built in order keeps it.
pub open spec fn oid_pos(cs: Seq<GraphCommit>, oid: Seq<char>) -> Option<int>
    decreases cs.len(),
{
    if cs.len() == 0 {
        None
    } else if cs.last().oid@ == oid {
        Some(cs.len() - 1)
    } else {
        oid_pos(cs.drop_last(), oid)
    }
}

pub proof fn lemma_oid_pos(cs: Seq<GraphCommit>, oid: Seq<char>)
    ensures
        match oid_pos(cs, oid) {
            Some(k) => 0 <= k < cs.len() && cs[k].oid@ == oid,
            None => forall|k: int| 0 <= k < cs.len() ==> cs[k].oid@ != oid,
        },
    decreases cs.len(),
{
    if cs.len() > 0 && cs.last().oid@ != oid {
        lemma_oid_pos(cs.drop_last(), oid);
        assert forall|k: int| 0 <= k < cs.len() - 1 implies cs[k] == cs.drop_last()[k] by {}
    }
}

/// The position of the displayed commit with `oid`.
pub fn position_of_oid(cs: &Vec<GraphCommit>, oid: &str) -> (r: Option<usize>)
    ensures
        match r {
            Some(k) => oid_pos(cs@, oid@) == Some(k as int),
            None => oid_pos(cs@, oid@) is None,
        },
{
    let mut j = cs.len();
    assert(cs@.subrange(0, j as int) =~= cs@);
    while j > 0
        invariant
            j <= cs@.len(),
            oid_pos(cs@, oid@) == oid_pos(cs@.subrange(0, j as int), oid@),
        decreases j,
    {
        proof {
            assert(cs@.subrange(0, j as int).drop_last() =~= cs@.subrange(0, j - 1));
            assert(cs@.subrange(0, j as int).last() == cs@[j - 1]);
        }
        if str_eq(cs[j - 1].oid.as_str(), oid) {
            return Some(j - 1);
        }
        j = j - 1;
    }
    None
}

/// Commit `k` is a displayed parent of commit `i`.
pub open spec fn parent_edge(cs: Seq<GraphCommit>, i: int, k: int) -> bool {
    0 <= i < cs.len() && exists|j: int| 0 <= j < cs[i].parents@.len() && oid_pos(cs, cs[i].parents@[j]@) == Some(k)
}

/// The displayed commits reachable from position `s` through displayed parents.
pub open spec fn reached_from(cs: Seq<GraphCommit>, s: int) -> Set<int> {
    Set::new(|t: int| 0 <= t < cs.len() && reaches(|i: int, k: int| parent_edge(cs, i, k), s, t))
}

/// The displayed history of the commit with `oid`: the commits reachable
/// from it through displayed parents, itself included; none when it is
/// not displayed.
pub open spec fn displayed_history(cs: Seq<GraphCommit>, oid: Seq<char>) -> Set<int> {
    match oid_pos(cs, oid) {
        Some(s) => reached_from(cs, s),
        None => Set::empty(),
    }
}

/// `k` is among the positions in `row`.
pub open spec fn row_has(row: Seq<usize>, k: int) -> bool {
    exists|m: int| 0 <= m < row.len() && row[m] == k
}

/// One of the first `j` parents of commit `i` is displayed at position `k`.
pub open spec fn early_parent_at(cs: Seq<GraphCommit>, i: int, j: int, k: int) -> bool {
    exists|j2: int| 0 <= j2 < j && oid_pos(cs, cs[i].parents@[j2]@) == Some(k)
}

/// For each commit, the positions of its displayed parents.
fn parent_positions(cs: &Vec<GraphCommit>) -> (adj: Vec<Vec<usize>>)
    ensures
        adj@.len() == cs@.len(),
        forall|i: int, m: int| 0 <= i < adj@.len() && 0 <= m < adj@[i]@.len() ==> (#[trigger] adj@[i]@[m]) < adj@.len(),
        forall|i: int, k: int| adj_edge(adj@, i, k) <==> parent_edge(cs@, i, k),
{
    let mut adj: Vec<Vec<usize>> = Vec::new();
    let mut i: usize = 0;
    while i < cs.len()
        invariant
            i <= cs@.len(),
            adj@.len() == i,
            forall|a: int, m: int| 0 <= a < adj@.len() && 0 <= m < adj@[a]@.len() ==> (#[trigger] adj@[a]@[m]) < cs@.len(),
            forall|a: int, k: int| 0 <= a < i ==> (adj_edge(adj@, a, k) <==> parent_edge(cs@, a, k)),
        decreases cs.len() - i,
    {
        let mut row: Vec<usize> = Vec::new();
        let mut j: usize = 0;
        while j < cs[i].parents.len()
            invariant
                i < cs@.len(),
                j <= cs@[i as int].parents@.len(),
                forall|m: int| 0 <= m < row@.len() ==> (#[trigger] row@[m]) < cs@.len(),
                forall|k: int| #[trigger] row_has(row@, k) <==> early_parent_at(cs@, i as int, j as int, k),
            decreases cs@[i as int].parents@.len() - j,
        {
            let ghost row0 = row@;
            let found = position_of_oid(cs, cs[i].parents[j].as_str());
            match found {
                Some(k) => {
                    proof {
                        lemma_oid_pos(cs@, cs@[i as int].parents@[j as int]@);
                    }
                    row.push(k);
                },
                None => {},
            }
            proof {
                assert forall|k: int| #[trigger] row_has(row@, k) <==> early_parent_at(cs@, i as int, j + 1, k) by {
                    if row_has(row@, k) {
                        let m = choose|m: int| 0 <= m < row@.len() && row@[m] == k;
                        if m < row0.len() {
                            assert(row0[m] == k);
                            assert(row_has(row0, k));
                        } else {
                            assert(oid_pos(cs@, cs@[i as int].parents@[j as int]@) == Some(k));
                        }
                    }
                    if early_parent_at(cs@, i as int, j + 1, k) {
                        let j2 = choose|j2: int| 0 <= j2 < j + 1 && oid_pos(cs@, cs@[i as int].parents@[j2]@) == Some(k);
                        if j2 < j {
                            assert(early_parent_at(cs@, i as int, j as int, k));
                            assert(row_has(row0, k));
                            let m = choose|m: int| 0 <= m < row0.len() && row0[m] == k;
                            assert(row@[m] == k);
                        } else {
                            assert(row@[row0.len() as int] == k);
                        }
                    }
                }
            }
            j = j + 1;
        }
        let ghost adj0 = adj@;
        adj.push(row);
        proof {
            assert forall|a: int, k: int| 0 <= a < i + 1 implies (adj_edge(adj@, a, k) <==> parent_edge(cs@, a, k)) by {
                if a < i {
                    assert(adj@[a] == adj0[a]);
                    assert(adj_edge(adj@, a, k) == adj_edge(adj0, a, k));
                } else {
                    assert(adj@[a] == row);
                    assert(adj_edge(adj@, a, k) == row_has(row@, k));
                    assert(parent_edge(cs@, a, k) == early_parent_at(cs@, a, cs@[a].parents@.len() as int, k));
                }
            }
        }
        i = i + 1;
    }
    adj
}

proof fn lemma_same_edges(cs: Seq<GraphCommit>, adj: Seq<Vec<usize>>)
    requires
        forall|i: int, k: int| adj_edge(adj, i, k) <==> parent_edge(cs, i, k),
    ensures
        (|i: int, k: int| adj_edge(adj, i, k)) == (|i: int, k: int| parent_edge(cs, i, k)),
{
    assert((|i: int, k: int| adj_edge(adj, i, k)) =~= (|i: int, k: int| parent_edge(cs, i, k)));
}


fn history_from(cs: &Vec<GraphCommit>, adj: &Vec<Vec<usize>>, s: usize) -> (anc: Vec<bool>)
    requires
        s < cs@.len(),
        adj@.len() == cs@.len(),
        forall|i: int, m: int| 0 <= i < adj@.len() && 0 <= m < adj@[i]@.len() ==> (#[trigger] adj@[i]@[m]) < adj@.len(),
        forall|i: int, k: int| adj_edge(adj@, i, k) <==> parent_edge(cs@, i, k),
    ensures
        anc@.len() == cs@.len(),
        forall|t: int| 0 <= t < cs@.len() ==> (anc@[t] <==> reached_from(cs@, s as int).contains(t)),
{
    proof {
        lemma_same_edges(cs@, adj@);
    }
    reachable_from(adj, s)
}

fn history_with(cs: &Vec<GraphCommit>, adj: &Vec<Vec<usize>>, start: &str) -> (anc: Vec<bool>)
    requires
        adj@.len() == cs@.len(),
        forall|i: int, m: int| 0 <= i < adj@.len() && 0 <= m < adj@[i]@.len() ==> (#[trigger] adj@[i]@[m]) < adj@.len(),
        forall|i: int, k: int| adj_edge(adj@, i, k) <==> parent_edge(cs@, i, k),
    ensures
        anc@.len() == cs@.len(),
        forall|t: int| 0 <= t < cs@.len() ==> (anc@[t] <==> displayed_history(cs@, start@).contains(t)),
{
    match position_of_oid(cs, start) {
        Some(s) => {
            proof {
                lemma_oid_pos(cs@, start@);
            }
            history_from(cs, adj, s)
        },
        None => {
            let mut anc: Vec<bool> = Vec::new();
            let mut i: usize = 0;
            while i < cs.len()
                invariant
                    i <= cs@.len(),
                    anc@.len() == i,
                    forall|t: int| 0 <= t < i ==> !anc@[t],
                decreases cs.len() - i,
            {
                anc.push(false);
                i = i + 1;
            }
            anc
        },
    }
}

/// The displayed history of `start`, one flag per displayed commit.
pub fn displayed_ancestors(cs: &Vec<GraphCommit>, start: &str) -> (anc: Vec<bool>)
    ensures
        anc@.len() == cs@.len(),
        forall|t: int| 0 <= t < cs@.len() ==> (anc@[t] <==> displayed_history(cs@, start@).contains(t)),
{
    let adj = parent_positions(cs);
    history_with(cs, &adj, start)
}

/// How a branch tip relates to the base tip within the displayed history.
#[derive(Debug, PartialEq, Eq)]
pub enum DisplayedBranchRelation {
    RegularlyMerged,
    Diverged { merge_base: String },
    Ineligible,
}

/// A relation with the merge base by position.
pub enum RelationView {
    RegularlyMerged,
    Diverged(int),
    Ineligible,
}

/// `c` is a best common ancestor: common, and in the history of no other common one.
pub open spec fn is_best_common(cs: Seq<GraphCommit>, common: Set<int>, c: int) -> bool {
    common.contains(c) && !exists|o: int| #![trigger common.contains(o)] common.contains(o) && o != c && reached_from(cs, o).contains(c)
}

/// The relation, bounded to the displayed history: regularly merged when the
/// base's history holds the branch tip; diverged at the merge base when the
/// two histories share exactly one best common ancestor; ineligible otherwise
/// (no shared history, or several best candidates), so that a merge base
/// outside the displayed window never triggers a walk of the repository.
pub open spec fn relation_of(cs: Seq<GraphCommit>, base_tip: Seq<char>, branch_tip: Seq<char>) -> RelationView {
    let ba = displayed_history(cs, base_tip);
    if exists|t: int| ba.contains(t) && cs[t].oid@ == branch_tip {
        RelationView::RegularlyMerged
    } else {
        let common = ba.intersect(displayed_history(cs, branch_tip));
        if exists|c: int| is_best_common(cs, common, c) {
            let c = choose|c: int| is_best_common(cs, common, c);
            if forall|d: int| is_best_common(cs, common, d) ==> d == c {
                RelationView::Diverged(c)
            } else {
                RelationView::Ineligible
            }
        } else {
            RelationView::Ineligible
        }
    }
}

pub fn displayed_branch_relation(commits: &Vec<GraphCommit>, base_tip: &str, branch_tip: &str) -> (r: DisplayedBranchRelation)
    ensures
        match r {
            DisplayedBranchRelation::RegularlyMerged => relation_of(commits@, base_tip@, branch_tip@) is RegularlyMerged,
            DisplayedBranchRelation::Ineligible => relation_of(commits@, base_tip@, branch_tip@) is Ineligible,
            DisplayedBranchRelation::Diverged { merge_base } => relation_of(commits@, base_tip@, branch_tip@)
                matches RelationView::Diverged(c) && 0 <= c < commits@.len() && merge_base@ == commits@[c].oid@,
        },
{
    let ghost cs = commits@;
    let adj = parent_positions(commits);
    let n = commits.len();
    let ba = history_with(commits, &adj, base_tip);
    let ghost bas = displayed_history(cs, base_tip@);
    let mut t: usize = 0;
    while t < n
        invariant
            n == cs.len(),
            cs == commits@,
            ba@.len() == n,
            forall|x: int| 0 <= x < n ==> (ba@[x] <==> bas.contains(x)),
            bas == displayed_history(cs, base_tip@),
            t <= n,
            forall|x: int| 0 <= x < t ==> !(bas.contains(x) && cs[x].oid@ == branch_tip@),
        decreases n - t,
    {
        if ba[t] && str_eq(commits[t].oid.as_str(), branch_tip) {
            proof {
                assert(bas.contains(t as int) && cs[t as int].oid@ == branch_tip@);
            }
            return DisplayedBranchRelation::RegularlyMerged;
        }
        t = t + 1;
    }
    proof {
        assert forall|x: int| !(bas.contains(x) && cs[x].oid@ == branch_tip@) by {
            if bas.contains(x) {
                match oid_pos(cs, base_tip@) {
                    Some(_) => {},
                    None => {},
                }
                if !(0 <= x < n) {
                    assert(!bas.contains(x));
                }
            }
        }
    }
    let bb = history_with(commits, &adj, branch_tip);
    let ghost common = bas.intersect(displayed_history(cs, branch_tip@));
    // The history of each common commit.
    let mut hist: Vec<Vec<bool>> = Vec::new();
    let mut o: usize = 0;
    while o < n
        invariant
            n == cs.len(),
            cs == commits@,
            adj@.len() == cs.len(),
            forall|i: int, m: int| 0 <= i < adj@.len() && 0 <= m < adj@[i]@.len() ==> (#[trigger] adj@[i]@[m]) < adj@.len(),
            forall|i: int, k: int| adj_edge(adj@, i, k) <==> parent_edge(cs, i, k),
            ba@.len() == n,
            bb@.len() == n,
            o <= n,
            hist@.len() == o,
            forall|x: int| 0 <= x < o && ba@[x] && bb@[x] ==> hist@[x]@.len() == n
                && forall|y: int| 0 <= y < n ==> (hist@[x]@[y] <==> reached_from(cs, x).contains(y)),
        decreases n - o,
    {
        if ba[o] && bb[o] {
            hist.push(history_from(commits, &adj, o));
        } else {
            hist.push(Vec::new());
        }
        o = o + 1;
    }
    let mut best: Option<usize> = None;
    let mut c: usize = 0;
    while c < n
        invariant
            n == cs.len(),
            cs == commits@,
            ba@.len() == n,
            bb@.len() == n,
            hist@.len() == n,
            forall|x: int| 0 <= x < n ==> (ba@[x] <==> bas.contains(x)),
            forall|x: int| 0 <= x < n ==> (bb@[x] <==> displayed_history(cs, branch_tip@).contains(x)),
            common == bas.intersect(displayed_history(cs, branch_tip@)),
            bas == displayed_history(cs, base_tip@),
            forall|x: int| !(bas.contains(x) && cs[x].oid@ == branch_tip@),
            forall|x: int| 0 <= x < n && ba@[x] && bb@[x] ==> hist@[x]@.len() == n
                && forall|y: int| 0 <= y < n ==> (hist@[x]@[y] <==> reached_from(cs, x).contains(y)),
            c <= n,
            match best {
                Some(b) => b < c && is_best_common(cs, common, b as int)
                    && forall|d: int| 0 <= d < c && d != b ==> !is_best_common(cs, common, d),
                None => forall|d: int| 0 <= d < c ==> !is_best_common(cs, common, d),
            },
        decreases n - c,
    {
        if ba[c] && bb[c] {
            let mut dominated = false;
            let mut o2: usize = 0;
            while o2 < n
                invariant
                    n == cs.len(),
                    c < n,
                    ba@.len() == n,
                    bb@.len() == n,
                    hist@.len() == n,
                    ba@[c as int] && bb@[c as int],
                    forall|x: int| 0 <= x < n ==> (ba@[x] <==> bas.contains(x)),
                    forall|x: int| 0 <= x < n ==> (bb@[x] <==> displayed_history(cs, branch_tip@).contains(x)),
                    common == bas.intersect(displayed_history(cs, branch_tip@)),
                    forall|x: int| 0 <= x < n && ba@[x] && bb@[x] ==> hist@[x]@.len() == n
                        && forall|y: int| 0 <= y < n ==> (hist@[x]@[y] <==> reached_from(cs, x).contains(y)),
                    o2 <= n,
                    dominated <==> exists|x: int| 0 <= x < o2 && common.contains(x) && x != c && reached_from(cs, x).contains(c as int),
                decreases n - o2,
            {
                let ghost d0 = dominated;
                if o2 != c && ba[o2] && bb[o2] && hist[o2][c] {
                    dominated = true;
                    proof {
                        assert(common.contains(o2 as int));
                        assert(reached_from(cs, o2 as int).contains(c as int));
                    }
                }
                proof {
                    if !(o2 != c && ba@[o2 as int] && bb@[o2 as int] && hist@[o2 as int]@[c as int]) {
                        if common.contains(o2 as int) && o2 != c {
                            assert(ba@[o2 as int] && bb@[o2 as int]);
                            assert(!reached_from(cs, o2 as int).contains(c as int));
                        }
                    }
                    assert(dominated <==> exists|x: int| 0 <= x < o2 + 1 && common.contains(x) && x != c
                        && reached_from(cs, x).contains(c as int)) by {
                        if exists|x: int| 0 <= x < o2 + 1 && common.contains(x) && x != c && reached_from(cs, x).contains(c as int) {
                            let x = choose|x: int| 0 <= x < o2 + 1 && common.contains(x) && x != c && reached_from(cs, x).contains(c as int);
                            if x < o2 {
                                assert(d0);
                            }
                        }
                    }
                }
                o2 = o2 + 1;
            }
            proof {
                assert forall|x: int| common.contains(x) implies 0 <= x < n by {
                    assert(bas.contains(x));
                    match oid_pos(cs, base_tip@) {
                        Some(_) => {},
                        None => {},
                    }
                }
                assert(common.contains(c as int));
                if dominated {
                    assert(!is_best_common(cs, common, c as int));
                } else {
                    assert(is_best_common(cs, common, c as int));
                }
            }
            if !dominated {
                match best {
                    Some(b) => {
                        proof {
                            assert(is_best_common(cs, common, b as int));
                            assert(is_best_common(cs, common, c as int));
                            let ch = choose|x: int| is_best_common(cs, common, x);
                            assert(!(forall|d: int| is_best_common(cs, common, d) ==> d == ch));
                        }
                        return DisplayedBranchRelation::Ineligible;
                    },
                    None => {
                        best = Some(c);
                    },
                }
            }
        } else {
            proof {
                assert(!common.contains(c as int));
            }
        }
        c = c + 1;
    }
    proof {
        assert forall|d: int| !(0 <= d < n) implies !is_best_common(cs, common, d) by {
            if common.contains(d) {
                assert(bas.contains(d));
                match oid_pos(cs, base_tip@) {
                    Some(_) => {},
                    None => {},
                }
            }
        }
    }
    match best {
        Some(b) => {
            proof {
                let ch = choose|x: int| is_best_common(cs, common, x);
                assert(ch == b);
            }
            DisplayedBranchRelation::Diverged { merge_base: commits[b].oid.clone() }
        },
        None => DisplayedBranchRelation::Ineligible,
    }
}


/// `i` is the first commit with `oid`.
pub open spec fn first_commit_with(cs: Seq<GraphCommit>, oid: Seq<char>, i: int) -> bool {
    0 <= i < cs.len() && cs[i].oid@ == oid && forall|k: int| 0 <= k < i ==> (#[trigger] cs[k]).oid@ != oid
}

/// `j` is the last update for `oid` among the first `n` updates.
pub open spec fn last_update_for(us: Seq<GraphEnrichmentUpdate>, n: int, oid: Seq<char>, j: int) -> bool {
    0 <= j < n && us[j].oid@ == oid && forall|k: int| j < k < n ==> (#[trigger] us[k]).oid@ != oid
}

/// Commit `c` with the hint of update `u`.
pub open spec fn with_hint(c: GraphCommit, u: GraphEnrichmentUpdate) -> GraphCommit {
    GraphCommit { is_possible_squash_merge: u.is_possible_squash_merge, fuzzy_squash_match: u.fuzzy_squash_match, ..c }
}

/// Commit `i` after the first `n` updates: the first commit with an oid
/// takes the hint of the last update for that oid; other commits, and
/// commits no update names, are unchanged.
pub open spec fn hinted(cs: Seq<GraphCommit>, us: Seq<GraphEnrichmentUpdate>, n: int, i: int) -> GraphCommit {
    if first_commit_with(cs, cs[i].oid@, i) && exists|j: int| last_update_for(us, n, cs[i].oid@, j) {
        with_hint(cs[i], us[choose|j: int| last_update_for(us, n, cs[i].oid@, j)])
    } else {
        cs[i]
    }
}

proof fn lemma_last_update_unique(us: Seq<GraphEnrichmentUpdate>, n: int, oid: Seq<char>, a: int, b: int)
    requires
        last_update_for(us, n, oid, a),
        last_update_for(us, n, oid, b),
    ensures
        a == b,
{
    if a < b {
        assert(us[b].oid@ != oid);
    } else if b < a {
        assert(us[a].oid@ != oid);
    }
}

/// Applies a batch of squash-merge hints: each update sets the hints of the
/// first commit with its oid; updates naming no displayed commit (stale, or
/// for a newer snapshot) are ignored. Nothing else changes.
pub fn apply_squash_enrichment(snapshot: &mut GraphSnapshot, updates: &Vec<GraphEnrichmentUpdate>)
    ensures
        final(snapshot).commits@.len() == old(snapshot).commits@.len(),
        final(snapshot).commits@ == enriched(old(snapshot).commits@, updates@),
        forall|i: int| 0 <= i < old(snapshot).commits@.len() ==>
            #[trigger] final(snapshot).commits@[i] == hinted(old(snapshot).commits@, updates@, updates@.len() as int, i),
        final(snapshot).source == old(snapshot).source,
        final(snapshot).lines == old(snapshot).lines,
        final(snapshot).ref_counts == old(snapshot).ref_counts,
        final(snapshot).max_count == old(snapshot).max_count,
        final(snapshot).includes_remotes == old(snapshot).includes_remotes,
        final(snapshot).generation == old(snapshot).generation,
{
    let ghost cs0 = snapshot.commits@;
    let ghost us = updates@;
    let mut u: usize = 0;
    proof {
        assert forall|i: int| 0 <= i < cs0.len() implies #[trigger] cs0[i] == hinted(cs0, us, 0, i) by {}
    }
    while u < updates.len()
        invariant
            u <= us.len(),
            us == updates@,
            snapshot.commits@.len() == cs0.len(),
            forall|i: int| 0 <= i < cs0.len() ==> (#[trigger] snapshot.commits@[i]).oid == cs0[i].oid,
            forall|i: int| 0 <= i < cs0.len() ==> #[trigger] snapshot.commits@[i] == hinted(cs0, us, u as int, i),
            snapshot.source == old(snapshot).source,
            snapshot.lines == old(snapshot).lines,
            snapshot.ref_counts == old(snapshot).ref_counts,
            snapshot.max_count == old(snapshot).max_count,
            snapshot.includes_remotes == old(snapshot).includes_remotes,
            snapshot.generation == old(snapshot).generation,
        decreases us.len() - u,
    {
        let oid = updates[u].oid.as_str();
        let mut k: usize = 0;
        let mut found: Option<usize> = None;
        while k < snapshot.commits.len()
            invariant_except_break
                found is None,
            invariant
                k <= snapshot.commits@.len(),
                snapshot.commits@.len() == cs0.len(),
                forall|i: int| 0 <= i < cs0.len() ==> (#[trigger] snapshot.commits@[i]).oid == cs0[i].oid,
                forall|i: int| 0 <= i < k ==> cs0[i].oid@ != oid@,
            ensures
                match found {
                    Some(f) => f < cs0.len() && first_commit_with(cs0, oid@, f as int),
                    None => forall|i: int| 0 <= i < cs0.len() ==> cs0[i].oid@ != oid@,
                },
            decreases snapshot.commits@.len() - k,
        {
            if str_eq(snapshot.commits[k].oid.as_str(), oid) {
                found = Some(k);
                break;
            }
            k = k + 1;
        }
        let ghost before = snapshot.commits@;
        match found {
            Some(f) => {
                let hint = updates[u].is_possible_squash_merge;
                let fuzzy = updates[u].fuzzy_squash_match;
                snapshot.commits[f].is_possible_squash_merge = hint;
                snapshot.commits[f].fuzzy_squash_match = fuzzy;
            },
            None => {},
        }
        proof {
            let n1: int = u + 1;
            let n0: int = u as int;
            assert forall|i: int| 0 <= i < cs0.len() implies #[trigger] snapshot.commits@[i] == hinted(cs0, us, n1, i) by {
                let o = cs0[i].oid@;
                if o == us[n0].oid@ {
                    assert(last_update_for(us, n1, o, n0));
                    let c1 = choose|j: int| last_update_for(us, n1, o, j);
                    lemma_last_update_unique(us, n1, o, n0, c1);
                } else {
                    if exists|j: int| last_update_for(us, n1, o, j) {
                        let j = choose|j: int| last_update_for(us, n1, o, j);
                        assert(last_update_for(us, n0, o, j));
                        let c0 = choose|j2: int| last_update_for(us, n0, o, j2);
                        lemma_last_update_unique(us, n0, o, j, c0);
                    } else {
                        if exists|j: int| last_update_for(us, n0, o, j) {
                            let j = choose|j: int| last_update_for(us, n0, o, j);
                            assert(last_update_for(us, n1, o, j));
                        }
                    }
                }
            }
        }
        u = u + 1;
    }
    proof {
        assert(snapshot.commits@ =~= enriched(cs0, us));
    }
}

/// Every commit after one application of the batch `us`.
pub open spec fn enriched(cs: Seq<GraphCommit>, us: Seq<GraphEnrichmentUpdate>) -> Seq<GraphCommit> {
    Seq::new(cs.len(), |i: int| hinted(cs, us, us.len() as int, i))
}

/// Applying the same batch of hints a second time changes nothing: the
/// commits after two applications are those after one.
pub proof fn lemma_enrichment_idempotent(cs: Seq<GraphCommit>, us: Seq<GraphEnrichmentUpdate>)
    ensures
        enriched(enriched(cs, us), us) == enriched(cs, us),
{
    let once = enriched(cs, us);
    let n = us.len() as int;
    assert forall|i: int| 0 <= i < cs.len() implies #[trigger] once[i].oid == cs[i].oid by {}
    assert forall|i: int| 0 <= i < cs.len() implies hinted(once, us, n, i) == #[trigger] once[i] by {
        let oid = cs[i].oid@;
        assert(once[i].oid@ == oid);
        if first_commit_with(cs, oid, i) {
            assert forall|k: int| 0 <= k < i implies (#[trigger] once[k]).oid@ != oid by {
                assert(once[k].oid == cs[k].oid);
                assert(cs[k].oid@ != oid);
            }
            assert(first_commit_with(once, oid, i));
        } else {
            if first_commit_with(once, oid, i) {
                assert forall|k: int| 0 <= k < i implies (#[trigger] cs[k]).oid@ != oid by {
                    assert(once[k].oid == cs[k].oid);
                    assert(once[k].oid@ != oid);
                }
                assert(false);
            }
        }
    }
    assert(enriched(once, us) =~= once);
}


/// What a patch computation is for.
#[derive(Debug, Clone, PartialEq, Eq)]
pub enum PatchTarget {
    /// A base-branch commit, by oid.
    BaseCommit(String),
    /// The aggregate patch of a displayed branch.
    BranchTip,
}

/// One `git diff` + `git patch-id` computation to run.
#[derive(Debug)]
pub struct PatchJob {
    pub target: PatchTarget,
    pub old_oid: String,
    pub new_oid: String,
}

/// What one patch computation gave.
#[derive(Debug)]
pub struct PatchResult {
    pub target: PatchTarget,
    pub patch_id: Option<String>,
    /// The raw diff, when it was not empty.
    pub diff_text: Option<Vec<u8>>,
}

/// A patch job seen by its parts; `base_commit` is `None` for a branch tip.
pub struct JobSpec {
    pub base_commit: Option<Seq<char>>,
    pub old: Seq<char>,
    pub new: Seq<char>,
}

pub open spec fn job_spec(j: PatchJob) -> JobSpec {
    JobSpec {
        base_commit: match j.target { PatchTarget::BaseCommit(o) => Some(o@), PatchTarget::BranchTip => None },
        old: j.old_oid@,
        new: j.new_oid@,
    }
}

/// Commit `c` carries the local branch ref `name`.
pub open spec fn has_local_ref(c: GraphCommit, name: Seq<char>) -> bool {
    exists|r: int| 0 <= r < c.refs@.len() && c.refs@[r].kind == GraphRefKind::LocalBranch && c.refs@[r].name@ == name
}

/// Commit `c` carries a local branch ref other than `base`.
pub open spec fn has_other_local_ref(c: GraphCommit, base: Seq<char>) -> bool {
    exists|r: int| 0 <= r < c.refs@.len() && c.refs@[r].kind == GraphRefKind::LocalBranch && c.refs@[r].name@ != base
}

/// Commit `c` is claimed by the local base branch.
pub open spec fn on_base(c: GraphCommit, base: Seq<char>) -> bool {
    c.branch matches Some(l) && l.kind == GraphRefKind::LocalBranch && l.name@ == base
}

/// The first commit carrying the base branch's local ref.
pub open spec fn base_tip_at(cs: Seq<GraphCommit>, base: Seq<char>, i: int) -> bool {
    0 <= i < cs.len() && has_local_ref(cs[i], base) && forall|k: int| 0 <= k < i ==> !has_local_ref(#[trigger] cs[k], base)
}

/// One job per displayed base commit with a single parent, in order.
pub open spec fn base_jobs(cs: Seq<GraphCommit>, base: Seq<char>, n: int) -> Seq<JobSpec>
    decreases n,
{
    if n <= 0 {
        Seq::empty()
    } else {
        let p = base_jobs(cs, base, n - 1);
        let c = cs[n - 1];
        if c.parents@.len() == 1 && on_base(c, base) {
            p.push(JobSpec { base_commit: Some(c.oid@), old: c.parents@[0]@, new: c.oid@ })
        } else {
            p
        }
    }
}

/// One job per displayed branch tip (each oid once) that diverged from the
/// base within the displayed history, from the merge base to the tip.
pub open spec fn tip_jobs(cs: Seq<GraphCommit>, base: Seq<char>, base_tip: Seq<char>, n: int) -> Seq<JobSpec>
    decreases n,
{
    if n <= 0 {
        Seq::empty()
    } else {
        let p = tip_jobs(cs, base, base_tip, n - 1);
        let c = cs[n - 1];
        if has_other_local_ref(c, base) && first_commit_with(cs, c.oid@, n - 1) {
            match relation_of(cs, base_tip, c.oid@) {
                RelationView::Diverged(m) => p.push(JobSpec { base_commit: None, old: cs[m].oid@, new: c.oid@ }),
                _ => p,
            }
        } else {
            p
        }
    }
}

/// The patch computations the squash-merge hints need: none without a
/// displayed base tip; otherwise the base commits' jobs, then the branch tips'.
pub open spec fn squash_jobs(cs: Seq<GraphCommit>, base: Seq<char>) -> Seq<JobSpec> {
    if exists|i: int| base_tip_at(cs, base, i) {
        let t = choose|i: int| base_tip_at(cs, base, i);
        base_jobs(cs, base, cs.len() as int) + tip_jobs(cs, base, cs[t].oid@, cs.len() as int)
    } else {
        Seq::empty()
    }
}

fn has_local_ref_exec(c: &GraphCommit, name: &str, other: bool) -> (b: bool)
    ensures
        !other ==> b == has_local_ref(*c, name@),
        other ==> b == has_other_local_ref(*c, name@),
{
    let mut r: usize = 0;
    while r < c.refs.len()
        invariant
            r <= c.refs@.len(),
            !other ==> forall|k: int| 0 <= k < r ==> !(c.refs@[k].kind == GraphRefKind::LocalBranch && c.refs@[k].name@ == name@),
            other ==> forall|k: int| 0 <= k < r ==> !(c.refs@[k].kind == GraphRefKind::LocalBranch && c.refs@[k].name@ != name@),
        decreases c.refs@.len() - r,
    {
        let is_local = match c.refs[r].kind {
            GraphRefKind::LocalBranch => true,
            _ => false,
        };
        if is_local && str_eq(c.refs[r].name.as_str(), name) != other {
            return true;
        }
        r = r + 1;
    }
    false
}

fn on_base_exec(c: &GraphCommit, base: &str) -> (b: bool)
    ensures
        b == on_base(*c, base@),
{
    match &c.branch {
        Some(l) => match l.kind {
            GraphRefKind::LocalBranch => str_eq(l.name.as_str(), base),
            _ => false,
        },
        None => false,
    }
}

fn is_first_with_oid(cs: &Vec<GraphCommit>, i: usize) -> (b: bool)
    requires
        i < cs@.len(),
    ensures
        b == first_commit_with(cs@, cs@[i as int].oid@, i as int),
{
    let mut k: usize = 0;
    while k < i
        invariant
            k <= i < cs@.len(),
            forall|j: int| 0 <= j < k ==> (#[trigger] cs@[j]).oid@ != cs@[i as int].oid@,
        decreases i - k,
    {
        if str_eq(cs[k].oid.as_str(), cs[i].oid.as_str()) {
            return false;
        }
        k = k + 1;
    }
    true
}

/// The patch computations for the squash-merge hints of `snapshot`'s base
/// commits against its displayed branches.
pub fn squash_patch_jobs(snapshot: &GraphSnapshot, base_branch: &str) -> (jobs: Vec<PatchJob>)
    ensures
        jobs@.map_values(|j: PatchJob| job_spec(j)) == squash_jobs(snapshot.commits@, base_branch@),
{
    let cs = &snapshot.commits;
    let mut t: usize = 0;
    let mut tip: Option<usize> = None;
    while t < cs.len()
        invariant_except_break
            tip is None,
        invariant
            t <= cs@.len(),
            forall|k: int| 0 <= k < t ==> !has_local_ref(#[trigger] cs@[k], base_branch@),
        ensures
            match tip {
                Some(i) => base_tip_at(cs@, base_branch@, i as int),
                None => forall|k: int| 0 <= k < cs@.len() ==> !has_local_ref(#[trigger] cs@[k], base_branch@),
            },
        decreases cs@.len() - t,
    {
        if has_local_ref_exec(&cs[t], base_branch, false) {
            tip = Some(t);
            break;
        }
        t = t + 1;
    }
    let mut jobs: Vec<PatchJob> = Vec::new();
    let base_tip = match tip {
        None => {
            proof {
                assert(!exists|i: int| base_tip_at(cs@, base_branch@, i));
                assert(jobs@.map_values(|j: PatchJob| job_spec(j)) =~= Seq::<JobSpec>::empty());
            }
            return jobs;
        },
        Some(i) => i,
    };
    proof {
        let c = choose|i: int| base_tip_at(cs@, base_branch@, i);
        if c < base_tip as int {
            assert(!has_local_ref(cs@[c], base_branch@));
        } else if c > base_tip as int {
            assert(!has_local_ref(cs@[base_tip as int], base_branch@));
        }
    }
    let mut i: usize = 0;
    while i < cs.len()
        invariant
            i <= cs@.len(),
            jobs@.map_values(|j: PatchJob| job_spec(j)) == base_jobs(cs@, base_branch@, i as int),
        decreases cs@.len() - i,
    {
        let ghost before = jobs@;
        if cs[i].parents.len() == 1 && on_base_exec(&cs[i], base_branch) {
            jobs.push(PatchJob {
                target: PatchTarget::BaseCommit(cs[i].oid.clone()),
                old_oid: cs[i].parents[0].clone(),
                new_oid: cs[i].oid.clone(),
            });
            proof {
                assert(jobs@.map_values(|j: PatchJob| job_spec(j)) =~= before.map_values(|j: PatchJob| job_spec(j)).push(job_spec(jobs@.last())));
            }
        }
        i = i + 1;
    }
    let ghost base_part = jobs@.map_values(|j: PatchJob| job_spec(j));
    let ghost nb = jobs@.len();
    let tip_oid = cs[base_tip].oid.as_str();
    let mut k: usize = 0;
    while k < cs.len()
        invariant
            k <= cs@.len(),
            base_tip < cs@.len(),
            tip_oid@ == cs@[base_tip as int].oid@,
            jobs@.len() >= nb,
            jobs@.subrange(0, nb as int).map_values(|j: PatchJob| job_spec(j)) == base_part,
            jobs@.subrange(nb as int, jobs@.len() as int).map_values(|j: PatchJob| job_spec(j))
                == tip_jobs(cs@, base_branch@, tip_oid@, k as int),
        decreases cs@.len() - k,
    {
        let ghost before = jobs@;
        if has_local_ref_exec(&cs[k], base_branch, true) && is_first_with_oid(cs, k) {
            match displayed_branch_relation(cs, tip_oid, cs[k].oid.as_str()) {
                DisplayedBranchRelation::Diverged { merge_base } => {
                    jobs.push(PatchJob { target: PatchTarget::BranchTip, old_oid: merge_base, new_oid: cs[k].oid.clone() });
                    proof {
                        assert(jobs@.subrange(0, nb as int) =~= before.subrange(0, nb as int));
                        assert(jobs@.subrange(nb as int, jobs@.len() as int) =~= before.subrange(nb as int, before.len() as int).push(jobs@.last()));
                        assert(jobs@.subrange(nb as int, jobs@.len() as int).map_values(|j: PatchJob| job_spec(j))
                            =~= before.subrange(nb as int, before.len() as int).map_values(|j: PatchJob| job_spec(j)).push(job_spec(jobs@.last())));
                    }
                },
                _ => {},
            }
        }
        k = k + 1;
    }
    proof {
        assert(jobs@ =~= jobs@.subrange(0, nb as int) + jobs@.subrange(nb as int, jobs@.len() as int));
        assert(jobs@.map_values(|j: PatchJob| job_spec(j)) =~= jobs@.subrange(0, nb as int).map_values(|j: PatchJob| job_spec(j))
            + jobs@.subrange(nb as int, jobs@.len() as int).map_values(|j: PatchJob| job_spec(j)));
    }
    jobs
}


/// Result `i` is for a base commit with a patch ID that some branch tip's result shares.
pub open spec fn exact_match_at(rs: Seq<PatchResult>, i: int) -> bool {
    &&& 0 <= i < rs.len()
    &&& rs[i].target is BaseCommit
    &&& rs[i].patch_id is Some
    &&& exists|j: int| 0 <= j < rs.len() && rs[j].target is BranchTip
        && opt_string_view(rs[j].patch_id) == opt_string_view(rs[i].patch_id)
}

/// The base commits whose single-commit patch equals the aggregate patch of
/// a displayed branch: the exact squash-merge signal.
pub open spec fn exact_matches(rs: Seq<PatchResult>) -> Set<Seq<char>> {
    Set::new(|o: Seq<char>| exists|i: int| exact_match_at(rs, i) && (rs[i].target->BaseCommit_0)@ == o)
}

/// The base commits whose patch matches a displayed branch's exactly.
pub fn matching_base_oids(results: &Vec<PatchResult>) -> (m: KeySet)
    ensures
        m.wf(),
        m@ == exact_matches(results@),
{
    let mut branch_ids = KeySet::new();
    let mut j: usize = 0;
    while j < results.len()
        invariant
            j <= results@.len(),
            branch_ids.wf(),
            branch_ids@ == Set::new(|p: Seq<char>| exists|k: int| 0 <= k < j && results@[k].target is BranchTip
                && opt_string_view(results@[k].patch_id) == Some(p)),
        decreases results@.len() - j,
    {
        let ghost before = branch_ids@;
        match (&results[j].target, &results[j].patch_id) {
            (PatchTarget::BranchTip, Some(p)) => branch_ids.insert(p.clone()),
            _ => {},
        }
        proof {
            assert(branch_ids@ =~= Set::new(|p: Seq<char>| exists|k: int| 0 <= k < j + 1 && results@[k].target is BranchTip
                && opt_string_view(results@[k].patch_id) == Some(p))) by {
                assert forall|p: Seq<char>| (exists|k: int| 0 <= k < j + 1 && results@[k].target is BranchTip
                    && opt_string_view(results@[k].patch_id) == Some(p)) implies #[trigger] branch_ids@.contains(p) by {
                    let k = choose|k: int| 0 <= k < j + 1 && results@[k].target is BranchTip
                        && opt_string_view(results@[k].patch_id) == Some(p);
                    if k < j {
                        assert(before.contains(p));
                    }
                }
                assert forall|p: Seq<char>| #[trigger] branch_ids@.contains(p) implies (exists|k: int| 0 <= k < j + 1 && results@[k].target is BranchTip
                    && opt_string_view(results@[k].patch_id) == Some(p)) by {
                    if !before.contains(p) {
                        assert(results@[j as int].target is BranchTip && opt_string_view(results@[j as int].patch_id) == Some(p));
                    }
                }
            }
        }
        j = j + 1;
    }
    let mut m = KeySet::new();
    let mut i: usize = 0;
    while i < results.len()
        invariant
            i <= results@.len(),
            m.wf(),
            branch_ids@ == Set::new(|p: Seq<char>| exists|k: int| 0 <= k < results@.len() && results@[k].target is BranchTip
                && opt_string_view(results@[k].patch_id) == Some(p)),
            m@ == Set::new(|o: Seq<char>| exists|k: int| 0 <= k < i && exact_match_at(results@, k)
                && (results@[k].target->BaseCommit_0)@ == o),
        decreases results@.len() - i,
    {
        let ghost before = m@;
        match (&results[i].target, &results[i].patch_id) {
            (PatchTarget::BaseCommit(oid), Some(p)) => {
                if branch_ids.contains(p.as_str()) {
                    proof {
                        let k = choose|k: int| 0 <= k < results@.len() && results@[k].target is BranchTip
                            && opt_string_view(results@[k].patch_id) == Some(p@);
                        assert(exact_match_at(results@, i as int));
                    }
                    m.insert(oid.clone());
                } else {
                    proof {
                        if exact_match_at(results@, i as int) {
                            let k = choose|k: int| 0 <= k < results@.len() && results@[k].target is BranchTip
                                && opt_string_view(results@[k].patch_id) == opt_string_view(results@[i as int].patch_id);
                            assert(branch_ids@.contains(p@));
                        }
                    }
                }
            },
            _ => {},
        }
        proof {
            assert(m@ =~= Set::new(|o: Seq<char>| exists|k: int| 0 <= k < i + 1 && exact_match_at(results@, k)
                && (results@[k].target->BaseCommit_0)@ == o)) by {
                assert forall|o: Seq<char>| (exists|k: int| 0 <= k < i + 1 && exact_match_at(results@, k)
                    && (results@[k].target->BaseCommit_0)@ == o) implies #[trigger] m@.contains(o) by {
                    let k = choose|k: int| 0 <= k < i + 1 && exact_match_at(results@, k)
                        && (results@[k].target->BaseCommit_0)@ == o;
                    if k < i {
                        assert(before.contains(o));
                    }
                }
                assert forall|o: Seq<char>| #[trigger] m@.contains(o) implies (exists|k: int| 0 <= k < i + 1 && exact_match_at(results@, k)
                    && (results@[k].target->BaseCommit_0)@ == o) by {
                    if !before.contains(o) {
                        assert(exact_match_at(results@, i as int) && (results@[i as int].target->BaseCommit_0)@ == o);
                    }
                }
            }
        }
        i = i + 1;
    }
    m
}

/// The fuzzy percent recorded for `oid`: the last entry for it.
pub open spec fn fuzzy_for(fz: Seq<(String, u8)>, oid: Seq<char>) -> Option<u8>
    decreases fz.len(),
{
    if fz.len() == 0 {
        None
    } else if fz.last().0@ == oid {
        Some(fz.last().1)
    } else {
        fuzzy_for(fz.drop_last(), oid)
    }
}

/// A hint seen by its parts.
pub struct HintSpec {
    pub oid: Seq<char>,
    pub exact: bool,
    pub fuzzy: Option<FuzzySquashMatch>,
}

pub open spec fn hint_spec(u: GraphEnrichmentUpdate) -> HintSpec {
    HintSpec { oid: u.oid@, exact: u.is_possible_squash_merge, fuzzy: u.fuzzy_squash_match }
}

/// One hint per base-branch commit, in order: exact when its patch matched
/// a branch's; otherwise the recorded fuzzy near-match, if any.
pub open spec fn base_hints(cs: Seq<GraphCommit>, base: Seq<char>, exact: Set<Seq<char>>, fz: Seq<(String, u8)>, n: int) -> Seq<HintSpec>
    decreases n,
{
    if n <= 0 {
        Seq::empty()
    } else {
        let p = base_hints(cs, base, exact, fz, n - 1);
        let c = cs[n - 1];
        if on_base(c, base) {
            let is_exact = exact.contains(c.oid@);
            p.push(HintSpec {
                oid: c.oid@,
                exact: is_exact,
                fuzzy: if is_exact { None } else {
                    match fuzzy_for(fz, c.oid@) {
                        Some(pc) => Some(FuzzySquashMatch { similarity_percent: pc }),
                        None => None,
                    }
                },
            })
        } else {
            p
        }
    }
}

/// The squash-merge hints of a snapshot: none without a base branch or a
/// displayed base tip; otherwise one per base-branch commit.
pub open spec fn squash_hints(cs: Seq<GraphCommit>, base: Option<Seq<char>>, rs: Seq<PatchResult>, fz: Seq<(String, u8)>) -> Seq<HintSpec> {
    match base {
        None => Seq::empty(),
        Some(b) => if exists|i: int| base_tip_at(cs, b, i) {
            base_hints(cs, b, exact_matches(rs), fz, cs.len() as int)
        } else {
            Seq::empty()
        },
    }
}

fn fuzzy_lookup(fz: &Vec<(String, u8)>, oid: &str) -> (r: Option<u8>)
    ensures
        r == fuzzy_for(fz@, oid@),
{
    let mut j = fz.len();
    assert(fz@.subrange(0, j as int) =~= fz@);
    while j > 0
        invariant
            j <= fz@.len(),
            fuzzy_for(fz@, oid@) == fuzzy_for(fz@.subrange(0, j as int), oid@),
        decreases j,
    {
        proof {
            assert(fz@.subrange(0, j as int).drop_last() =~= fz@.subrange(0, j - 1));
        }
        if str_eq(fz[j - 1].0.as_str(), oid) {
            return Some(fz[j - 1].1);
        }
        j = j - 1;
    }
    None
}

proof fn lemma_squash_hints_with_tip(cs: Seq<GraphCommit>, b: Seq<char>, rs: Seq<PatchResult>, fz: Seq<(String, u8)>, t: int)
    requires
        base_tip_at(cs, b, t),
    ensures
        squash_hints(cs, Some(b), rs, fz) == base_hints(cs, b, exact_matches(rs), fz, cs.len() as int),
{
}

/// The squash-merge hints for `snapshot`: `results` are the outcomes of
/// [`squash_patch_jobs`], and `fuzzy` the near-match percent found for
/// base commits without an exact match.
pub fn compute_possible_squash_updates(
    snapshot: &GraphSnapshot,
    base_branch: Option<&str>,
    results: &Vec<PatchResult>,
    fuzzy: &Vec<(String, u8)>,
) -> (updates: Vec<GraphEnrichmentUpdate>)
    ensures
        updates@.map_values(|u: GraphEnrichmentUpdate| hint_spec(u)) == squash_hints(snapshot.commits@,
            match base_branch { Some(b) => Some(b@), None => None }, results@, fuzzy@),
{
    let mut updates: Vec<GraphEnrichmentUpdate> = Vec::new();
    let base = match base_branch {
        None => {
            assert(updates@.map_values(|u: GraphEnrichmentUpdate| hint_spec(u)) =~= Seq::<HintSpec>::empty());
            return updates;
        },
        Some(b) => b,
    };
    let cs = &snapshot.commits;
    let mut t: usize = 0;
    let mut tip: Option<usize> = None;
    while t < cs.len()
        invariant_except_break
            tip is None,
        invariant
            t <= cs@.len(),
            forall|k: int| 0 <= k < t ==> !has_local_ref(#[trigger] cs@[k], base@),
        ensures
            match tip {
                Some(i) => base_tip_at(cs@, base@, i as int),
                None => forall|k: int| 0 <= k < cs@.len() ==> !has_local_ref(#[trigger] cs@[k], base@),
            },
        decreases cs@.len() - t,
    {
        if has_local_ref_exec(&cs[t], base, false) {
            tip = Some(t);
            break;
        }
        t = t + 1;
    }
    if tip.is_none() {
        proof {
            assert(!exists|i: int| base_tip_at(cs@, base@, i));
        }
        assert(updates@.map_values(|u: GraphEnrichmentUpdate| hint_spec(u)) =~= Seq::<HintSpec>::empty());
        return updates;
    }
    let tip_i = tip.unwrap();
    proof {
        assert(base_tip_at(cs@, base@, tip_i as int));
    }
    let exact = matching_base_oids(results);
    let mut i: usize = 0;
    while i < cs.len()
        invariant
            i <= cs@.len(),
            exact@ == exact_matches(results@),
            updates@.map_values(|u: GraphEnrichmentUpdate| hint_spec(u)) == base_hints(cs@, base@, exact@, fuzzy@, i as int),
            base_tip_at(cs@, base@, tip_i as int),
            base_branch == Some(base),
        decreases cs@.len() - i,
    {
        let ghost before = updates@;
        if on_base_exec(&cs[i], base) {
            let is_exact = exact.contains(cs[i].oid.as_str());
            let fz = if is_exact {
                None
            } else {
                match fuzzy_lookup(fuzzy, cs[i].oid.as_str()) {
                    Some(pc) => Some(FuzzySquashMatch { similarity_percent: pc }),
                    None => None,
                }
            };
            updates.push(GraphEnrichmentUpdate { oid: cs[i].oid.clone(), is_possible_squash_merge: is_exact, fuzzy_squash_match: fz });
            proof {
                assert(updates@.map_values(|u: GraphEnrichmentUpdate| hint_spec(u))
                    =~= before.map_values(|u: GraphEnrichmentUpdate| hint_spec(u)).push(hint_spec(updates@.last())));
            }
        }
        i = i + 1;
    }
    proof {
        assert(exists|x: int| base_tip_at(cs@, base@, x));
        assert(base_tip_at(snapshot.commits@, base@, tip_i as int));
        assert(exists|x: int| base_tip_at(snapshot.commits@, base@, x));
        lemma_squash_hints_with_tip(snapshot.commits@, base@, results@, fuzzy@, tip_i as int);
    }
    updates
}


/// The hints that `us` carry, in order.
pub open spec fn hint_specs(us: Seq<GraphEnrichmentUpdate>) -> Seq<HintSpec> {
    us.map_values(|u: GraphEnrichmentUpdate| hint_spec(u))
}

/// `after` is `before` with the squash-merge hints for `base` applied, as
/// [`compute_possible_squash_updates`] and [`apply_squash_enrichment`] make
/// and apply them.
pub open spec fn annotated(before: GraphSnapshot, after: GraphSnapshot, base: Option<Seq<char>>,
    rs: Seq<PatchResult>, fz: Seq<(String, u8)>) -> bool
{
    &&& after.commits@.len() == before.commits@.len()
    &&& exists|us: Seq<GraphEnrichmentUpdate>| #[trigger] hint_specs(us) == squash_hints(before.commits@, base, rs, fz)
        && forall|i: int| 0 <= i < before.commits@.len() ==>
            #[trigger] after.commits@[i] == hinted(before.commits@, us, us.len() as int, i)
    &&& after.source == before.source
    &&& after.lines == before.lines
    &&& after.ref_counts == before.ref_counts
    &&& after.max_count == before.max_count
    &&& after.includes_remotes == before.includes_remotes
    &&& after.generation == before.generation
}

/// A loaded snapshot with its squash-merge hints applied on the spot:
/// `results` are the outcomes of [`squash_patch_jobs`] for it and `fuzzy`
/// the near-match percents found. A failed load is handed back unchanged.
pub fn load_graph_with_squash_annotations(
    loaded: Result<GraphSnapshot, GraphLoadError>,
    base_branch: Option<&str>,
    results: &Vec<PatchResult>,
    fuzzy: &Vec<(String, u8)>,
) -> (r: Result<GraphSnapshot, GraphLoadError>)
    ensures
        match loaded {
            Err(e) => r == Err::<GraphSnapshot, GraphLoadError>(e),
            Ok(s) => r is Ok && annotated(s, r->Ok_0,
                match base_branch { Some(b) => Some(b@), None => None }, results@, fuzzy@),
        },
{
    match loaded {
        Err(e) => Err(e),
        Ok(s) => {
            let ghost before = s;
            let mut snapshot = s;
            let updates = compute_possible_squash_updates(&snapshot, base_branch, results, fuzzy);
            apply_squash_enrichment(&mut snapshot, &updates);
            proof {
                assert(hint_specs(updates@) =~= updates@.map_values(|u: GraphEnrichmentUpdate| hint_spec(u)));
                assert(forall|i: int| 0 <= i < before.commits@.len() ==>
                    #[trigger] snapshot.commits@[i] == hinted(before.commits@, updates@, updates@.len() as int, i));
            }
            Ok(snapshot)
        },
    }
}


/// Applies an enrichment message to the shown snapshot when it belongs to
/// the current reload generation; one from an earlier reload is dropped.
pub fn apply_enrichment_msg(snapshot: &mut GraphSnapshot, current_generation: u64, msg: &GraphEnrichmentMsg) -> (applied: bool)
    ensures
        applied == (msg.generation == current_generation),
        final(snapshot).commits@.len() == old(snapshot).commits@.len(),
        applied ==> forall|i: int| 0 <= i < old(snapshot).commits@.len() ==>
            #[trigger] final(snapshot).commits@[i] == hinted(old(snapshot).commits@, msg.updates@, msg.updates@.len() as int, i),
        !applied ==> *final(snapshot) == *old(snapshot),
        final(snapshot).generation == old(snapshot).generation,
        final(snapshot).lines == old(snapshot).lines,
{
    if msg.generation == current_generation {
        apply_squash_enrichment(snapshot, &msg.updates);
        true
    } else {
        false
    }
}

} // verus!
