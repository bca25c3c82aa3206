//! The graph read from `git log --graph` output, when the lane renderer is
//! not available: each line is graph drawing, optionally followed by a
//! record `RS oid US parents US summary` (RS and US being the ASCII record
//! and unit separators).

use vstd::prelude::*;
use crate::graph::{GraphCommit, GraphLine, GraphRef};
use crate::keyed::KeyedList;
use crate::text::{chars_of, concat2, find_char_in, first_char_at, is_space, line_ranges, lines, slice_string};

verus! {

/// What a line of the log is.
pub enum LogLine {
    /// Graph drawing only.
    Plain,
    /// Drawing followed by a commit record.
    Record { graph: Seq<char>, oid: Seq<char>, parents: Seq<char>, summary: Seq<char> },
    /// A record that cannot be read: fewer than three fields, or no id.
    Bad,
}

/// The reading of one line.
pub open spec fn classify_line(l: Seq<char>) -> LogLine {
    if exists|p: int| first_char_at(l, '\u{1e}', p) {
        let p = choose|p: int| first_char_at(l, '\u{1e}', p);
        let rest = l.subrange(p + 1, l.len() as int);
        if exists|a: int| first_char_at(rest, '\u{1f}', a) {
            let a = choose|a: int| first_char_at(rest, '\u{1f}', a);
            let after = rest.subrange(a + 1, rest.len() as int);
            if exists|b: int| first_char_at(after, '\u{1f}', b) {
                let b = choose|b: int| first_char_at(after, '\u{1f}', b);
                if a == 0 {
                    LogLine::Bad
                } else {
                    LogLine::Record {
                        graph: l.subrange(0, p),
                        oid: rest.subrange(0, a),
                        parents: after.subrange(0, b),
                        summary: after.subrange(b + 1, after.len() as int),
                    }
                }
            } else {
                LogLine::Bad
            }
        } else {
            LogLine::Bad
        }
    } else {
        LogLine::Plain
    }
}

/// The whitespace-separated words of `s` (std's `str::split_whitespace`).
pub open spec fn words(s: Seq<char>) -> Seq<Seq<char>>
    decreases s.len(),
{
    if s.len() == 0 {
        Seq::empty()
    } else {
        let w = words(s.drop_last());
        if is_space(s.last()) {
            w
        } else if s.len() >= 2 && !is_space(s[s.len() - 2]) && w.len() > 0 {
            w.update(w.len() - 1, w.last().push(s.last()))
        } else {
            w.push(seq![s.last()])
        }
    }
}

/// The lane of a commit: half the position of the first `*` in its drawing.
pub open spec fn lane_of(graph: Seq<char>) -> Option<usize> {
    if exists|j: int| first_char_at(graph, '*', j) {
        let j = choose|j: int| first_char_at(graph, '*', j);
        Some((j / 2) as usize)
    } else {
        None
    }
}

pub open spec fn string_views(v: Seq<String>) -> Seq<Seq<char>> {
    v.map_values(|s: String| s@)
}

/// `c` is the commit of a record whose refs are looked up in `refs`.
pub open spec fn commit_of(c: GraphCommit, oid: Seq<char>, parents: Seq<char>, summary: Seq<char>, graph: Seq<char>, refs: Map<Seq<char>, Vec<GraphRef>>) -> bool {
    &&& c.oid@ == oid
    &&& c.summary@ == summary
    &&& string_views(c.parents@) == words(parents)
    &&& c.lane == lane_of(graph)
    &&& c.branch is None
    &&& c.refs@ == if refs.contains_key(oid) { refs[oid]@ } else { Seq::<GraphRef>::empty() }
    &&& !c.is_possible_squash_merge
    &&& c.fuzzy_squash_match is None
}

/// How many of the first `k` lines are records.
pub open spec fn records_before(ls: Seq<Seq<char>>, k: int) -> nat
    decreases k,
{
    if k <= 0 {
        0
    } else {
        records_before(ls, k - 1) + if classify_line(ls[k - 1]) is Record { 1nat } else { 0nat }
    }
}

/// The log `ls` read into `cs` and `gl`: one graph line per line, each
/// record's commit at the index its line points to, in order.
pub open spec fn log_read(ls: Seq<Seq<char>>, refs: Map<Seq<char>, Vec<GraphRef>>, cs: Seq<GraphCommit>, gl: Seq<GraphLine>) -> bool {
    &&& gl.len() == ls.len()
    &&& cs.len() == records_before(ls, ls.len() as int)
    &&& forall|k: int| 0 <= k < ls.len() ==> match #[trigger] classify_line(ls[k]) {
        LogLine::Record { graph, oid, parents, summary } => {
            &&& gl[k].graph@ == graph
            &&& gl[k].commit_index == Some(records_before(ls, k) as usize)
            &&& commit_of(cs[records_before(ls, k) as int], oid, parents, summary, graph, refs)
        },
        _ => gl[k].graph@ == ls[k] && gl[k].commit_index is None,
    }
}

proof fn lemma_words_nonempty_after_word(s: Seq<char>)
    requires
        s.len() > 0,
        !is_space(s.last()),
    ensures
        words(s).len() > 0,
{
}

/// The words of `s[from..to]`.
fn split_words(s: &Vec<char>, from: usize, to: usize) -> (r: Vec<String>)
    requires
        from <= to <= s@.len(),
    ensures
        string_views(r@) == words(s@.subrange(from as int, to as int)),
{
    let mut done: Vec<String> = Vec::new();
    let mut start: usize = from;
    let mut in_word = false;
    let mut i: usize = from;
    while i < to
        invariant
            from <= start <= i <= to <= s@.len(),
            in_word ==> start < i && !is_space(s@[i - 1]),
            !in_word && i > from ==> is_space(s@[i - 1]),
            words(s@.subrange(from as int, i as int)) == if in_word {
                string_views(done@).push(s@.subrange(start as int, i as int))
            } else {
                string_views(done@)
            },
        decreases to - i,
    {
        let c = s[i];
        let space = crate::text::is_space_exec(c);
        proof {
            let next = s@.subrange(from as int, i + 1);
            assert(next.drop_last() =~= s@.subrange(from as int, i as int));
            assert(next.last() == c);
            if i > from {
                assert(next[next.len() - 2] == s@[i - 1]);
            }
        }
        if space {
            if in_word {
                let ghost before = string_views(done@);
                done.push(slice_string(s, start, i));
                proof {
                    assert(string_views(done@) =~= before.push(s@.subrange(start as int, i as int)));
                }
                in_word = false;
            }
        } else {
            if !in_word {
                start = i;
                in_word = true;
                proof {
                    assert(s@.subrange(start as int, i + 1) =~= seq![c]);
                }
            } else {
                proof {
                    let prev = s@.subrange(start as int, i as int);
                    assert(s@.subrange(start as int, i + 1) =~= prev.push(c));
                    let w = words(s@.subrange(from as int, i as int));
                    assert(w.len() > 0);
                    assert(w.update(w.len() - 1, w.last().push(c)) =~= string_views(done@).push(prev.push(c)));
                }
            }
        }
        i = i + 1;
    }
    if in_word {
        let ghost before = string_views(done@);
        done.push(slice_string(s, start, to));
        proof {
            assert(string_views(done@) =~= before.push(s@.subrange(start as int, to as int)));
        }
    }
    done
}

/// Where the parts of a line lie, by position in the whole text.
enum Split {
    Plain,
    Record { graph_end: usize, oid_end: usize, parents_end: usize },
    Bad,
}

fn split_line(s: &Vec<char>, from: usize, to: usize) -> (r: Split)
    requires
        from <= to <= s@.len(),
    ensures
        match classify_line(s@.subrange(from as int, to as int)) {
            LogLine::Plain => r is Plain,
            LogLine::Bad => r is Bad,
            LogLine::Record { graph, oid, parents, summary } => match r {
                Split::Record { graph_end, oid_end, parents_end } => {
                    &&& from <= graph_end < oid_end < parents_end < to
                    &&& s@.subrange(from as int, graph_end as int) == graph
                    &&& s@.subrange(graph_end + 1, oid_end as int) == oid
                    &&& s@.subrange(oid_end + 1, parents_end as int) == parents
                    &&& s@.subrange(parents_end + 1, to as int) == summary
                },
                _ => false,
            },
        },
{
    let ghost l = s@.subrange(from as int, to as int);
    proof {
        crate::text::lemma_first_char_unique(l, '\u{1e}');
    }
    let p = match find_char_in(s, '\u{1e}', from, to) {
        None => {
            proof {
                assert forall|q: int| !first_char_at(l, '\u{1e}', q) by {
                    if 0 <= q < l.len() {
                        assert(l[q] == s@[from + q]);
                    }
                }
            }
            return Split::Plain;
        },
        Some(p) => p,
    };
    let ghost rest = l.subrange(p - from + 1, l.len() as int);
    proof {
        assert(rest =~= s@.subrange(p + 1, to as int));
        crate::text::lemma_first_char_unique(rest, '\u{1f}');
    }
    let a = match find_char_in(s, '\u{1f}', p + 1, to) {
        None => {
            proof {
                assert forall|q: int| !first_char_at(rest, '\u{1f}', q) by {
                    if 0 <= q < rest.len() {
                        assert(rest[q] == s@[p + 1 + q]);
                    }
                }
            }
            return Split::Bad;
        },
        Some(a) => a,
    };
    let ghost after = rest.subrange(a - p, rest.len() as int);
    proof {
        assert(after =~= s@.subrange(a + 1, to as int));
        crate::text::lemma_first_char_unique(after, '\u{1f}');
    }
    let b = match find_char_in(s, '\u{1f}', a + 1, to) {
        None => {
            proof {
                assert forall|q: int| !first_char_at(after, '\u{1f}', q) by {
                    if 0 <= q < after.len() {
                        assert(after[q] == s@[a + 1 + q]);
                    }
                }
            }
            return Split::Bad;
        },
        Some(b) => b,
    };
    if a == p + 1 {
        return Split::Bad;
    }
    proof {
        assert(l.subrange(0, p - from) =~= s@.subrange(from as int, p as int));
        assert(rest.subrange(0, a - p - 1) =~= s@.subrange(p + 1, a as int));
        assert(after.subrange(0, b - a - 1) =~= s@.subrange(a + 1, b as int));
        assert(after.subrange(b - a, after.len() as int) =~= s@.subrange(b + 1, to as int));
    }
    Split::Record { graph_end: p, oid_end: a, parents_end: b }
}

/// The lane of a drawing `s[from..to]`.
fn lane_in(s: &Vec<char>, from: usize, to: usize) -> (r: Option<usize>)
    requires
        from <= to <= s@.len(),
    ensures
        r == lane_of(s@.subrange(from as int, to as int)),
{
    let ghost g = s@.subrange(from as int, to as int);
    proof {
        crate::text::lemma_first_char_unique(g, '*');
    }
    match find_char_in(s, '*', from, to) {
        Some(j) => Some((j - from) / 2),
        None => {
            proof {
                assert forall|q: int| !first_char_at(g, '*', q) by {
                    if 0 <= q < g.len() {
                        assert(g[q] == s@[from + q]);
                    }
                }
            }
            None
        },
    }
}

fn copy_ref(r: &GraphRef) -> (c: GraphRef)
    ensures
        c == *r,
{
    GraphRef { name: r.name.clone(), kind: r.kind, has_linked_worktree: r.has_linked_worktree, tracking: r.tracking }
}

/// A copy of a list of refs.
pub fn copy_refs(v: &Vec<GraphRef>) -> (r: Vec<GraphRef>)
    ensures
        r@ == v@,
{
    let mut r: Vec<GraphRef> = Vec::new();
    let mut i: usize = 0;
    while i < v.len()
        invariant
            i <= v.len(),
            r@ == v@.subrange(0, i as int),
        decreases v.len() - i,
    {
        r.push(copy_ref(&v[i]));
        i = i + 1;
        proof {
            assert(r@ =~= v@.subrange(0, i as int));
        }
    }
    assert(r@ =~= v@);
    r
}

/// The refs recorded for commit `oid`.
fn refs_for(refs: &KeyedList<Vec<GraphRef>>, oid: &str) -> (r: Vec<GraphRef>)
    requires
        refs.wf(),
    ensures
        r@ == if refs.view().contains_key(oid@) { refs.view()[oid@]@ } else { Seq::<GraphRef>::empty() },
{
    match refs.get(oid) {
        Some(v) => copy_refs(v),
        None => Vec::new(),
    }
}

proof fn lemma_records_before_step(ls: Seq<Seq<char>>, k: int)
    requires
        0 <= k,
    ensures
        records_before(ls, k + 1) == records_before(ls, k) + if classify_line(ls[k]) is Record { 1nat } else { 0nat },
{
}

/// Reads the graph lines and commits of `git log --graph` output; `refs`
/// holds the refs of each commit by id. Fails on the first line whose
/// record cannot be read.
pub fn parse_git_log(stdout: &str, refs: &KeyedList<Vec<GraphRef>>) -> (r: Result<(Vec<GraphCommit>, Vec<GraphLine>), String>)
    requires
        refs.wf(),
    ensures
        match r {
            Ok((cs, gl)) => log_read(lines(stdout@), refs.view(), cs@, gl@),
            Err(m) => exists|k: int| 0 <= k < lines(stdout@).len()
                && #[trigger] classify_line(lines(stdout@)[k]) is Bad
                && (forall|j: int| 0 <= j < k ==> !(#[trigger] classify_line(lines(stdout@)[j]) is Bad))
                && m@ == "could not parse git log record: "@ + lines(stdout@)[k],
        },
        (r is Err) == exists|k: int| 0 <= k < lines(stdout@).len() && #[trigger] classify_line(lines(stdout@)[k]) is Bad,
{
    let s = chars_of(stdout);
    let ranges = line_ranges(&s);
    let ghost ls = lines(stdout@);
    let mut commits: Vec<GraphCommit> = Vec::new();
    let mut out: Vec<GraphLine> = Vec::new();
    let mut k: usize = 0;
    while k < ranges.len()
        invariant
            s@ == stdout@,
            ls == lines(stdout@),
            ranges@.len() == ls.len(),
            forall|q: int| #![trigger ranges@[q]] 0 <= q < ranges@.len() ==> ranges@[q].0 <= ranges@[q].1 <= s@.len()
                && s@.subrange(ranges@[q].0 as int, ranges@[q].1 as int) == ls[q],
            refs.wf(),
            k <= ranges.len(),
            out@.len() == k,
            commits@.len() == records_before(ls, k as int),
            forall|j: int| 0 <= j < k ==> !(#[trigger] classify_line(ls[j]) is Bad),
            forall|q: int| 0 <= q < k ==> match #[trigger] classify_line(ls[q]) {
                LogLine::Record { graph, oid, parents, summary } => {
                    &&& out@[q].graph@ == graph
                    &&& out@[q].commit_index == Some(records_before(ls, q) as usize)
                    &&& commit_of(commits@[records_before(ls, q) as int], oid, parents, summary, graph, refs.view())
                },
                _ => out@[q].graph@ == ls[q] && out@[q].commit_index is None,
            },
        decreases ranges.len() - k,
    {
        let (from, to) = ranges[k];
        proof {
            assert(s@.subrange(from as int, to as int) == ls[k as int]);
            lemma_records_before_step(ls, k as int);
        }
        let ghost cs0 = commits@;
        let ghost out0 = out@;
        match split_line(&s, from, to) {
            Split::Plain => {
                out.push(GraphLine { graph: slice_string(&s, from, to), commit_index: None });
            },
            Split::Bad => {
                let text = slice_string(&s, from, to);
                let m = concat2("could not parse git log record: ", text.as_str());
                return Err(m);
            },
            Split::Record { graph_end, oid_end, parents_end } => {
                let oid = slice_string(&s, graph_end + 1, oid_end);
                let c = GraphCommit {
                    oid: slice_string(&s, graph_end + 1, oid_end),
                    summary: slice_string(&s, parents_end + 1, to),
                    parents: split_words(&s, oid_end + 1, parents_end),
                    lane: lane_in(&s, from, graph_end),
                    branch: None,
                    refs: refs_for(refs, oid.as_str()),
                    is_possible_squash_merge: false,
                    fuzzy_squash_match: None,
                };
                let index = commits.len();
                commits.push(c);
                out.push(GraphLine { graph: slice_string(&s, from, graph_end), commit_index: Some(index) });
            },
        }
        proof {
            assert forall|q: int| 0 <= q < k + 1 implies match #[trigger] classify_line(ls[q]) {
                LogLine::Record { graph, oid, parents, summary } => {
                    &&& out@[q].graph@ == graph
                    &&& out@[q].commit_index == Some(records_before(ls, q) as usize)
                    &&& commit_of(commits@[records_before(ls, q) as int], oid, parents, summary, graph, refs.view())
                },
                _ => out@[q].graph@ == ls[q] && out@[q].commit_index is None,
            } by {
                if q < k {
                    assert(out@[q] == out0[q]);
                    if classify_line(ls[q]) is Record {
                        assert(records_before(ls, q) < records_before(ls, k as int)) by {
                            lemma_records_before_mono(ls, q + 1, k as int);
                            lemma_records_before_step(ls, q);
                        }
                        assert(commits@[records_before(ls, q) as int] == cs0[records_before(ls, q) as int]);
                    }
                }
            }
        }
        k = k + 1;
    }
    proof {
        assert forall|j: int| 0 <= j < ls.len() implies !(#[trigger] classify_line(ls[j]) is Bad) by {}
    }
    Ok((commits, out))
}

proof fn lemma_records_before_mono(ls: Seq<Seq<char>>, a: int, b: int)
    requires
        0 <= a <= b,
    ensures
        records_before(ls, a) <= records_before(ls, b),
    decreases b - a,
{
    if a < b {
        lemma_records_before_mono(ls, a, b - 1);
    }
}

} // verus!
