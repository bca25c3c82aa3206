//! Reachability in a finite graph given by adjacency lists, as the Graph
//! view uses it to bound branch relationships to the displayed history.

use vstd::prelude::*;
use vstd::set_lib::{lemma_int_range, lemma_len_subset, set_int_range};

verus! {

/// There is an edge from node `i` to node `k`.
pub open spec fn adj_edge(adj: Seq<Vec<usize>>, i: int, k: int) -> bool {
    0 <= i < adj.len() && exists|m: int| 0 <= m < adj[i]@.len() && adj[i]@[m] == k
}

/// `p` is a walk: a non-empty sequence of nodes, each joined to the next by an edge.
pub open spec fn is_walk(edge: spec_fn(int, int) -> bool, p: Seq<int>) -> bool {
    p.len() >= 1 && forall|m: int| 0 <= m < p.len() - 1 ==> #[trigger] edge(p[m], p[m + 1])
}

/// Some walk leads from `s` to `t` (every node reaches itself).
pub open spec fn reaches(edge: spec_fn(int, int) -> bool, s: int, t: int) -> bool {
    exists|p: Seq<int>| is_walk(edge, p) && p[0] == s && p.last() == t
}

pub proof fn lemma_reaches_self(edge: spec_fn(int, int) -> bool, s: int)
    ensures
        reaches(edge, s, s),
{
    let p = seq![s];
    assert(is_walk(edge, p));
    assert(is_walk(edge, p) && p[0] == s && p.last() == s);
}

pub proof fn lemma_reaches_step(edge: spec_fn(int, int) -> bool, s: int, i: int, k: int)
    requires
        reaches(edge, s, i),
        edge(i, k),
    ensures
        reaches(edge, s, k),
{
    let p = choose|p: Seq<int>| is_walk(edge, p) && p[0] == s && p.last() == i;
    let q = p.push(k);
    assert forall|m: int| 0 <= m < q.len() - 1 implies #[trigger] edge(q[m], q[m + 1]) by {
        if m < p.len() - 1 {
            assert(q[m] == p[m] && q[m + 1] == p[m + 1]);
        } else {
            assert(q[m] == i && q[m + 1] == k);
        }
    }
    assert(is_walk(edge, q));
    assert(q[0] == s);
    assert(is_walk(edge, q) && q[0] == s && q.last() == k);
}

/// A set of nodes that holds `s` and every edge's target from each of its
/// nodes holds every node `s` reaches.
pub proof fn lemma_closed_holds_reachable(edge: spec_fn(int, int) -> bool, mem: spec_fn(int) -> bool, s: int, t: int)
    requires
        mem(s),
        forall|i: int, k: int| mem(i) && #[trigger] edge(i, k) ==> mem(k),
        reaches(edge, s, t),
    ensures
        mem(t),
{
    let p = choose|p: Seq<int>| is_walk(edge, p) && p[0] == s && p.last() == t;
    lemma_walk_members(edge, mem, p, p.len() - 1);
}

proof fn lemma_walk_members(edge: spec_fn(int, int) -> bool, mem: spec_fn(int) -> bool, p: Seq<int>, m: int)
    requires
        is_walk(edge, p),
        mem(p[0]),
        forall|i: int, k: int| mem(i) && #[trigger] edge(i, k) ==> mem(k),
        0 <= m < p.len(),
    ensures
        mem(p[m]),
    decreases m,
{
    if m > 0 {
        lemma_walk_members(edge, mem, p, m - 1);
        let j = m - 1;
        assert(edge(p[j], p[j + 1]));
        assert(j + 1 == m);
    }
}

/// `x` is on the stack.
pub open spec fn in_stack(st: Seq<usize>, x: usize) -> bool {
    exists|j: int| 0 <= j < st.len() && st[j] == x
}

proof fn lemma_in_stack_pop(before: Seq<usize>, after: Seq<usize>, k: usize)
    requires
        before == after.push(k),
    ensures
        forall|x: usize| #[trigger] in_stack(before, x) ==> x == k || in_stack(after, x),
{
    assert forall|x: usize| #[trigger] in_stack(before, x) implies x == k || in_stack(after, x) by {
        let j = choose|j: int| 0 <= j < before.len() && before[j] == x;
        if j < after.len() {
            assert(after[j] == before[j]);
        }
    }
}

/// The nodes of the graph `adj` that `s` reaches, as one flag per node.
pub fn reachable_from(adj: &Vec<Vec<usize>>, s: usize) -> (vis: Vec<bool>)
    requires
        s < adj@.len(),
        forall|i: int, m: int| 0 <= i < adj@.len() && 0 <= m < adj@[i]@.len() ==> (#[trigger] adj@[i]@[m]) < adj@.len(),
    ensures
        vis@.len() == adj@.len(),
        forall|t: int| 0 <= t < adj@.len() ==> (vis@[t] <==> reaches(|i: int, k: int| adj_edge(adj@, i, k), s as int, t)),
{
    let ghost edge = |i: int, k: int| adj_edge(adj@, i, k);
    let n = adj.len();
    let mut vis: Vec<bool> = Vec::new();
    let mut z: usize = 0;
    while z < n
        invariant
            z <= n == adj@.len(),
            vis@.len() == z,
            forall|t: int| 0 <= t < z ==> !vis@[t],
        decreases n - z,
    {
        vis.push(false);
        z = z + 1;
    }
    let mut stack: Vec<usize> = Vec::new();
    stack.push(s);
    proof {
        lemma_reaches_self(edge, s as int);
        assert(stack@[0] == s);
    }
    let ghost mut seen: Set<int> = Set::empty();
    while stack.len() > 0
        invariant
            n == adj@.len(),
            s < n,
            edge == (|i: int, k: int| adj_edge(adj@, i, k)),
            forall|i: int, m: int| 0 <= i < adj@.len() && 0 <= m < adj@[i]@.len() ==> (#[trigger] adj@[i]@[m]) < adj@.len(),
            vis@.len() == n,
            forall|j: int| 0 <= j < stack@.len() ==> (#[trigger] stack@[j]) < n && reaches(edge, s as int, stack@[j] as int),
            forall|t: int| 0 <= t < n && #[trigger] vis@[t] ==> reaches(edge, s as int, t),
            vis@[s as int] || in_stack(stack@, s),
            forall|i: int, m: int| 0 <= i < n && vis@[i] && 0 <= m < adj@[i]@.len() ==>
                vis@[#[trigger] adj@[i]@[m] as int] || in_stack(stack@, adj@[i]@[m]),
            seen == Set::new(|t: int| 0 <= t < n && vis@[t]),
            seen.finite(),
            seen.len() <= n,
        decreases n - seen.len(), stack@.len(),
    {
        let ghost st0 = stack@;
        let ghost vis0 = vis@;
        let k = stack.pop().unwrap();
        proof {
            assert(st0 == stack@.push(k));
            lemma_in_stack_pop(st0, stack@, k);
        }
        if !vis[k] {
            vis.set(k, true);
            proof {
                seen = seen.insert(k as int);
                assert(seen =~= Set::new(|t: int| 0 <= t < n && vis@[t]));
                lemma_int_range(0, n as int);
                assert(seen.subset_of(set_int_range(0, n as int)));
                lemma_len_subset(seen, set_int_range(0, n as int));
            }
            let ghost st1 = stack@;
            let mut m: usize = 0;
            while m < adj[k].len()
                invariant
                    n == adj@.len(),
                    k < n,
                    s < n,
                    edge == (|i: int, k2: int| adj_edge(adj@, i, k2)),
                    reaches(edge, s as int, k as int),
                    forall|i: int, m2: int| 0 <= i < adj@.len() && 0 <= m2 < adj@[i]@.len() ==> (#[trigger] adj@[i]@[m2]) < adj@.len(),
                    m <= adj@[k as int]@.len(),
                    forall|j: int| 0 <= j < stack@.len() ==> (#[trigger] stack@[j]) < n && reaches(edge, s as int, stack@[j] as int),
                    forall|m2: int| 0 <= m2 < m ==> in_stack(stack@, #[trigger] adj@[k as int]@[m2]),
                    stack@.len() >= st1.len(),
                    forall|j: int| 0 <= j < st1.len() ==> stack@[j] == st1[j],
                decreases adj@[k as int]@.len() - m,
            {
                let target = adj[k][m];
                proof {
                    assert(adj_edge(adj@, k as int, target as int));
                    lemma_reaches_step(edge, s as int, k as int, target as int);
                }
                let ghost st2 = stack@;
                stack.push(target);
                proof {
                    assert forall|m2: int| 0 <= m2 < m + 1 implies in_stack(stack@, #[trigger] adj@[k as int]@[m2]) by {
                        if m2 < m {
                            let j = choose|j: int| 0 <= j < st2.len() && st2[j] == adj@[k as int]@[m2];
                            assert(stack@[j] == st2[j]);
                        } else {
                            assert(stack@[st2.len() as int] == target);
                        }
                    }
                }
                m = m + 1;
            }
            proof {
                assert forall|x: usize| in_stack(st1, x) implies in_stack(stack@, x) by {
                    let j = choose|j: int| 0 <= j < st1.len() && st1[j] == x;
                    assert(stack@[j] == st1[j]);
                }
                assert forall|i: int, m2: int| 0 <= i < n && vis@[i] && 0 <= m2 < adj@[i]@.len() implies
                    vis@[#[trigger] adj@[i]@[m2] as int] || in_stack(stack@, adj@[i]@[m2]) by {
                    if i != k {
                        assert(vis0[i]);
                        let x = adj@[i]@[m2];
                        if !vis0[x as int] {
                            assert(in_stack(st0, x));
                            if x != k {
                                assert(in_stack(st1, x));
                            }
                        }
                    }
                }
                if !vis0[s as int] {
                    if s != k {
                        assert(in_stack(st1, s));
                    }
                }
            }
        } else {
            proof {
                assert forall|i: int, m2: int| 0 <= i < n && vis@[i] && 0 <= m2 < adj@[i]@.len() implies
                    vis@[#[trigger] adj@[i]@[m2] as int] || in_stack(stack@, adj@[i]@[m2]) by {
                    let x = adj@[i]@[m2];
                    if !vis@[x as int] {
                        assert(in_stack(st0, x));
                        assert(x != k);
                    }
                }
            }
        }
    }
    proof {
        assert forall|t: int| 0 <= t < n implies (vis@[t] <==> reaches(edge, s as int, t)) by {
            if reaches(edge, s as int, t) {
                let mem = |x: int| 0 <= x < n && vis@[x];
                assert forall|i: int, k2: int| mem(i) && #[trigger] edge(i, k2) implies mem(k2) by {
                    let m2 = choose|m2: int| 0 <= m2 < adj@[i]@.len() && adj@[i]@[m2] == k2;
                    assert(adj@[i]@[m2] < n);
                }
                lemma_closed_holds_reachable(edge, mem, s as int, t);
            }
        }
    }
    vis
}

} // verus!
