//! Which live branch claims each commit of the graph: branch refs claim
//! their first-parent history, the base branch first, and merge commits of
//! the form `Merge branch '<name>'` claim the merged side up to where it
//! meets the receiving branch's first-parent history.

use vstd::prelude::*;
use crate::graph::{GraphBranchLabel, GraphCommit, GraphRefKind, oid_pos, lemma_oid_pos, position_of_oid};
use crate::text::str_eq;
use crate::keyed::KeySet;

verus! {

/// The position of the first parent of commit `p`, when it is displayed.
pub open spec fn first_parent_pos(cs: Seq<GraphCommit>, p: int) -> Option<int> {
    if 0 <= p < cs.len() && cs[p].parents@.len() > 0 { oid_pos(cs, cs[p].parents@[0]@) } else { None }
}

/// The `k`-th step of the first-parent walk from position `p0`.
pub open spec fn fp_step(cs: Seq<GraphCommit>, p0: int, k: nat) -> Option<int>
    decreases k,
{
    if k == 0 {
        Some(p0)
    } else {
        match fp_step(cs, p0, (k - 1) as nat) {
            Some(p) => first_parent_pos(cs, p),
            None => None,
        }
    }
}

/// The displayed commits on the first-parent history of the commit with `oid`.
pub open spec fn fp_chain(cs: Seq<GraphCommit>, oid: Seq<char>) -> Set<int> {
    match oid_pos(cs, oid) {
        Some(p0) => Set::new(|q: int| exists|k: nat| fp_step(cs, p0, k) == Some(q)),
        None => Set::empty(),
    }
}

proof fn lemma_fp_step_range(cs: Seq<GraphCommit>, p0: int, k: nat)
    requires
        0 <= p0 < cs.len(),
    ensures
        fp_step(cs, p0, k) matches Some(q) ==> 0 <= q < cs.len(),
    decreases k,
{
    if k > 0 {
        lemma_fp_step_range(cs, p0, (k - 1) as nat);
        match fp_step(cs, p0, (k - 1) as nat) {
            Some(p) => {
                if cs[p].parents@.len() > 0 {
                    lemma_oid_pos(cs, cs[p].parents@[0]@);
                }
            },
            None => {},
        }
    }
}

proof fn lemma_fp_shift(cs: Seq<GraphCommit>, p0: int, a: nat, b: nat, t: nat)
    requires
        fp_step(cs, p0, a) == fp_step(cs, p0, b),
    ensures
        fp_step(cs, p0, a + t) == fp_step(cs, p0, b + t),
    decreases t,
{
    if t > 0 {
        lemma_fp_shift(cs, p0, a, b, (t - 1) as nat);
        assert(((a + t) - 1) as nat == a + (t - 1) as nat);
        assert(((b + t) - 1) as nat == b + (t - 1) as nat);
    }
}

proof fn lemma_fp_none_stays(cs: Seq<GraphCommit>, p0: int, a: nat, m: nat)
    requires
        fp_step(cs, p0, a) is None,
        m >= a,
    ensures
        fp_step(cs, p0, m) is None,
    decreases m - a,
{
    if m > a {
        lemma_fp_none_stays(cs, p0, a, (m - 1) as nat);
    }
}

/// Once a step repeats an earlier one, every later step is among the first `k`.
proof fn lemma_fp_periodic(cs: Seq<GraphCommit>, p0: int, j: nat, k: nat, m: nat)
    requires
        j < k,
        fp_step(cs, p0, j) == fp_step(cs, p0, k),
    ensures
        exists|r: nat| r < k && fp_step(cs, p0, m) == fp_step(cs, p0, r),
    decreases m,
{
    if m < k {
        assert(fp_step(cs, p0, m) == fp_step(cs, p0, m));
    } else {
        let t = (m - k) as nat;
        lemma_fp_shift(cs, p0, j, k, t);
        assert(k + t == m);
        let m2 = (j + t) as nat;
        lemma_fp_periodic(cs, p0, j, k, m2);
    }
}

/// The positions of the commits on the first-parent history of `oid`.
pub fn first_parent_chain(cs: &Vec<GraphCommit>, oid: &str) -> (on: Vec<bool>)
    ensures
        on@.len() == cs@.len(),
        forall|q: int| 0 <= q < cs@.len() ==> (on@[q] <==> fp_chain(cs@, oid@).contains(q)),
{
    let n = cs.len();
    let mut on: Vec<bool> = Vec::new();
    let mut z: usize = 0;
    while z < n
        invariant
            z <= n == cs@.len(),
            on@.len() == z,
            forall|t: int| 0 <= t < z ==> !on@[t],
        decreases n - z,
    {
        on.push(false);
        z = z + 1;
    }
    let start = position_of_oid(cs, oid);
    let p0 = match start {
        None => {
            return on;
        },
        Some(p) => p,
    };
    proof {
        lemma_oid_pos(cs@, oid@);
    }
    let ghost mut k: nat = 0;
    let ghost mut seen: Set<int> = Set::empty();
    let mut cur: Option<usize> = Some(p0);
    loop
        invariant
            n == cs@.len(),
            p0 < n,
            oid_pos(cs@, oid@) == Some(p0 as int),
            on@.len() == n,
            match cur {
                Some(q) => fp_step(cs@, p0 as int, k) == Some(q as int),
                None => fp_step(cs@, p0 as int, k) is None,
            },
            forall|q: int| 0 <= q < n ==> (on@[q] <==> exists|j: nat| j < k && fp_step(cs@, p0 as int, j) == Some(q)),
            seen == Set::new(|q: int| 0 <= q < n && on@[q]),
            seen.finite(),
            seen.len() == k,
            k <= n,
        ensures
            forall|q: int| 0 <= q < n ==> (on@[q] <==> exists|j: nat| fp_step(cs@, p0 as int, j) == Some(q)),
        decreases n - k,
    {
        match cur {
            None => {
                proof {
                    assert forall|q: int| 0 <= q < n implies (on@[q] <==> exists|j: nat| fp_step(cs@, p0 as int, j) == Some(q)) by {
                        if exists|j: nat| fp_step(cs@, p0 as int, j) == Some(q) {
                            let j = choose|j: nat| fp_step(cs@, p0 as int, j) == Some(q);
                            if j >= k {
                                lemma_fp_none_stays(cs@, p0 as int, k, j);
                            }
                        }
                    }
                }
                break;
            },
            Some(q) => {
                proof {
                    lemma_fp_step_range(cs@, p0 as int, k);
                }
                if on[q] {
                    proof {
                        let j = choose|j: nat| j < k && fp_step(cs@, p0 as int, j) == Some(q as int);
                        assert forall|x: int| 0 <= x < n implies (on@[x] <==> exists|j2: nat| fp_step(cs@, p0 as int, j2) == Some(x)) by {
                            if exists|j2: nat| fp_step(cs@, p0 as int, j2) == Some(x) {
                                let j2 = choose|j2: nat| fp_step(cs@, p0 as int, j2) == Some(x);
                                lemma_fp_periodic(cs@, p0 as int, j, k, j2);
                                let r = choose|r: nat| r < k && fp_step(cs@, p0 as int, j2) == fp_step(cs@, p0 as int, r);
                                assert(fp_step(cs@, p0 as int, r) == Some(x));
                            }
                        }
                    }
                    break;
                }
                on.set(q, true);
                proof {
                    let old_seen = seen;
                    seen = seen.insert(q as int);
                    assert(seen =~= Set::new(|x: int| 0 <= x < n && on@[x]));
                    vstd::set_lib::lemma_int_range(0, n as int);
                    assert(seen.subset_of(vstd::set_lib::set_int_range(0, n as int)));
                    vstd::set_lib::lemma_len_subset(seen, vstd::set_lib::set_int_range(0, n as int));
                    assert(!old_seen.contains(q as int));
                }
                let next = if cs[q].parents.len() > 0 {
                    position_of_oid(cs, cs[q].parents[0].as_str())
                } else {
                    None
                };
                proof {
                    let k1: nat = k + 1;
                    assert(fp_step(cs@, p0 as int, k1) == first_parent_pos(cs@, q as int));
                    assert forall|x: int| 0 <= x < n implies (on@[x] <==> exists|j: nat| j < k1 && fp_step(cs@, p0 as int, j) == Some(x)) by {
                        if x == q {
                            assert(fp_step(cs@, p0 as int, k) == Some(x));
                        } else if exists|j: nat| j < k1 && fp_step(cs@, p0 as int, j) == Some(x) {
                            let j = choose|j: nat| j < k1 && fp_step(cs@, p0 as int, j) == Some(x);
                            assert(j < k);
                        }
                    }
                    k = k1;
                }
                cur = next;
            },
        }
    }
    on
}


/// `a` sorts before `b` as strings do: by character codes, a proper prefix first.
pub open spec fn str_less(a: Seq<char>, b: Seq<char>) -> bool
    decreases a.len(),
{
    if a.len() == 0 {
        b.len() > 0
    } else if b.len() == 0 {
        false
    } else if (a[0] as int) < (b[0] as int) {
        true
    } else if (a[0] as int) > (b[0] as int) {
        false
    } else {
        str_less(a.drop_first(), b.drop_first())
    }
}

pub proof fn lemma_str_less_irrefl(a: Seq<char>)
    ensures
        !str_less(a, a),
    decreases a.len(),
{
    if a.len() > 0 {
        lemma_str_less_irrefl(a.drop_first());
    }
}

pub proof fn lemma_str_less_asym(a: Seq<char>, b: Seq<char>)
    ensures
        !(str_less(a, b) && str_less(b, a)),
    decreases a.len(),
{
    if a.len() > 0 && b.len() > 0 {
        lemma_str_less_asym(a.drop_first(), b.drop_first());
    }
}

pub proof fn lemma_str_less_trans(a: Seq<char>, b: Seq<char>, c: Seq<char>)
    ensures
        str_less(a, b) && str_less(b, c) ==> str_less(a, c),
    decreases a.len(),
{
    if a.len() > 0 && b.len() > 0 && c.len() > 0 {
        lemma_str_less_trans(a.drop_first(), b.drop_first(), c.drop_first());
    }
}

pub proof fn lemma_str_less_total(a: Seq<char>, b: Seq<char>)
    ensures
        str_less(a, b) || a == b || str_less(b, a),
    decreases a.len(),
{
    if a.len() > 0 && b.len() > 0 {
        lemma_str_less_total(a.drop_first(), b.drop_first());
        if (a[0] as int) == (b[0] as int) && a.drop_first() == b.drop_first() {
            assert(a[0] == b[0]);
            assert(a =~= seq![a[0]] + a.drop_first());
            assert(b =~= seq![b[0]] + b.drop_first());
        }
    } else if a.len() == 0 && b.len() == 0 {
        assert(a =~= b);
    }
}

pub proof fn lemma_str_less_order(a: Seq<char>, b: Seq<char>, c: Seq<char>)
    ensures
        !str_less(a, a),
        str_less(a, b) && str_less(b, c) ==> str_less(a, c),
        str_less(a, b) || a == b || str_less(b, a),
        !(str_less(a, b) && str_less(b, a)),
{
    lemma_str_less_irrefl(a);
    lemma_str_less_trans(a, b, c);
    lemma_str_less_total(a, b);
    lemma_str_less_asym(a, b);
}

pub fn str_less_exec(a: &str, b: &str) -> (r: bool)
    ensures
        r == str_less(a@, b@),
{
    let x = crate::text::chars_of(a);
    let y = crate::text::chars_of(b);
    let mut i: usize = 0;
    assert(x@.subrange(0, x@.len() as int) =~= x@);
    assert(y@.subrange(0, y@.len() as int) =~= y@);
    while i < x.len() && i < y.len()
        invariant
            x@ == a@,
            y@ == b@,
            i <= x@.len(),
            i <= y@.len(),
            str_less(x@, y@) == str_less(x@.subrange(i as int, x@.len() as int), y@.subrange(i as int, y@.len() as int)),
        decreases x@.len() - i,
    {
        let ghost xs = x@.subrange(i as int, x@.len() as int);
        let ghost ys = y@.subrange(i as int, y@.len() as int);
        proof {
            assert(xs[0] == x@[i as int]);
            assert(ys[0] == y@[i as int]);
        }
        if x[i] < y[i] {
            proof {
                assert(xs.len() > 0 && ys.len() > 0);
                assert(str_less(xs, ys));
            }
            return true;
        }
        if x[i] > y[i] {
            proof {
                assert(xs.len() > 0 && ys.len() > 0);
                assert(!str_less(xs, ys));
            }
            return false;
        }
        proof {
            assert(xs.drop_first() =~= x@.subrange(i + 1, x@.len() as int));
            assert(ys.drop_first() =~= y@.subrange(i + 1, y@.len() as int));
        }
        i = i + 1;
    }
    let r = i == x.len() && i < y.len();
    proof {
        let xs = x@.subrange(i as int, x@.len() as int);
        let ys = y@.subrange(i as int, y@.len() as int);
        assert(xs.len() == 0 || ys.len() == 0);
        assert(xs.len() == 0 <==> i == x@.len());
        assert(ys.len() > 0 <==> i < y@.len());
    }
    r
}

/// The order labels claim commits in: the base branch first, then local
/// branches, remote branches and tags, each by name.
pub open spec fn label_rank(l: GraphBranchLabel, base: Option<Seq<char>>) -> int {
    if l.kind == GraphRefKind::LocalBranch && base == Some(l.name@) {
        0
    } else {
        match l.kind {
            GraphRefKind::LocalBranch => 1,
            GraphRefKind::RemoteBranch => 2,
            GraphRefKind::Tag => 3,
        }
    }
}

pub open spec fn label_before(a: GraphBranchLabel, b: GraphBranchLabel, base: Option<Seq<char>>) -> bool {
    label_rank(a, base) < label_rank(b, base)
        || (label_rank(a, base) == label_rank(b, base) && str_less(a.name@, b.name@))
}

proof fn lemma_label_order(a: GraphBranchLabel, b: GraphBranchLabel, c: GraphBranchLabel, base: Option<Seq<char>>)
    ensures
        label_before(a, b, base) && label_before(b, c, base) ==> label_before(a, c, base),
        !(label_before(a, b, base) && label_before(b, a, base)),
        !label_before(a, b, base) && !label_before(b, a, base) ==> (label_before(a, c, base) <==> label_before(b, c, base)),
        !label_before(a, b, base) && !label_before(b, a, base) ==> (label_before(c, a, base) <==> label_before(c, b, base)),
{
    lemma_str_less_order(a.name@, b.name@, c.name@);
    lemma_str_less_order(b.name@, a.name@, c.name@);
    lemma_str_less_order(c.name@, a.name@, b.name@);
    lemma_str_less_order(a.name@, c.name@, b.name@);
    lemma_str_less_order(b.name@, c.name@, a.name@);
    lemma_str_less_order(c.name@, b.name@, a.name@);
}

fn label_rank_exec(l: &GraphBranchLabel, base: Option<&str>) -> (r: u8)
    ensures
        r as int == label_rank(*l, match base { Some(b) => Some(b@), None => None }),
{
    let is_local = match l.kind {
        GraphRefKind::LocalBranch => true,
        _ => false,
    };
    if is_local && match base { Some(b) => str_eq(l.name.as_str(), b), None => false } {
        0
    } else {
        match l.kind {
            GraphRefKind::LocalBranch => 1,
            GraphRefKind::RemoteBranch => 2,
            GraphRefKind::Tag => 3,
        }
    }
}

fn label_before_exec(a: &GraphBranchLabel, b: &GraphBranchLabel, base: Option<&str>) -> (r: bool)
    ensures
        r == label_before(*a, *b, match base { Some(x) => Some(x@), None => None }),
{
    let ra = label_rank_exec(a, base);
    let rb = label_rank_exec(b, base);
    ra < rb || (ra == rb && str_less_exec(a.name.as_str(), b.name.as_str()))
}

/// Label `w` claims position `i` in the first-parent phase: its first-parent
/// history holds `i`, and no label whose history holds `i` comes before it
/// (an equal one only after it in `labels`).
pub open spec fn fp_winner(cs: Seq<GraphCommit>, labels: Seq<GraphBranchLabel>, base: Option<Seq<char>>, i: int, w: int) -> bool {
    &&& 0 <= w < labels.len()
    &&& fp_chain(cs, labels[w].target_oid@).contains(i)
    &&& forall|j: int| 0 <= j < labels.len() && #[trigger] fp_chain(cs, labels[j].target_oid@).contains(i)
        ==> !label_before(labels[j], labels[w], base) && (j < w ==> label_before(labels[w], labels[j], base))
}

/// The label commit `i` carries after the first-parent phase: its own if it
/// had one, else the winning label, if any.
pub open spec fn fp_label(cs: Seq<GraphCommit>, labels: Seq<GraphBranchLabel>, base: Option<Seq<char>>, i: int) -> Option<GraphBranchLabel> {
    if cs[i].branch is Some {
        cs[i].branch
    } else if exists|w: int| fp_winner(cs, labels, base, i, w) {
        Some(labels[choose|w: int| fp_winner(cs, labels, base, i, w)])
    } else {
        None
    }
}

proof fn lemma_fp_winner_unique(cs: Seq<GraphCommit>, labels: Seq<GraphBranchLabel>, base: Option<Seq<char>>, i: int, a: int, b: int)
    requires
        fp_winner(cs, labels, base, i, a),
        fp_winner(cs, labels, base, i, b),
    ensures
        a == b,
{
    if a < b {
        assert(fp_chain(cs, labels[a].target_oid@).contains(i));
        lemma_label_order(labels[a], labels[b], labels[a], base);
    } else if b < a {
        assert(fp_chain(cs, labels[b].target_oid@).contains(i));
        lemma_label_order(labels[a], labels[b], labels[a], base);
    }
}

fn clone_label(l: &GraphBranchLabel) -> (c: GraphBranchLabel)
    ensures
        c == *l,
{
    GraphBranchLabel { name: l.name.clone(), target_oid: l.target_oid.clone(), kind: l.kind }
}

/// Each label claims the commits of its first-parent history that no label
/// claimed first, in the order of [`label_before`]; commits already labelled
/// keep their label, and nothing else changes.
pub fn assign_first_parent_branch_labels(commits: &mut Vec<GraphCommit>, branch_labels: &Vec<GraphBranchLabel>, base_branch: Option<&str>)
    ensures
        final(commits)@.len() == old(commits)@.len(),
        forall|i: int| 0 <= i < old(commits)@.len() ==> #[trigger] final(commits)@[i] == (GraphCommit {
            branch: fp_label(old(commits)@, branch_labels@, match base_branch { Some(b) => Some(b@), None => None }, i),
            ..old(commits)@[i]
        }),
{
    let ghost cs = commits@;
    let ghost base = match base_branch { Some(b) => Some(b@), None => None::<Seq<char>> };
    let mut chains: Vec<Vec<bool>> = Vec::new();
    let mut j: usize = 0;
    while j < branch_labels.len()
        invariant
            commits@ == cs,
            j <= branch_labels@.len(),
            chains@.len() == j,
            forall|a: int| 0 <= a < j ==> (#[trigger] chains@[a])@.len() == cs.len()
                && forall|q: int| 0 <= q < cs.len() ==> (chains@[a]@[q] <==> fp_chain(cs, branch_labels@[a].target_oid@).contains(q)),
        decreases branch_labels@.len() - j,
    {
        chains.push(first_parent_chain(commits, branch_labels[j].target_oid.as_str()));
        j = j + 1;
    }
    let mut i: usize = 0;
    while i < commits.len()
        invariant
            base == match base_branch { Some(b) => Some(b@), None => None::<Seq<char>> },
            commits@.len() == cs.len(),
            i <= cs.len(),
            chains@.len() == branch_labels@.len(),
            forall|a: int| 0 <= a < chains@.len() ==> (#[trigger] chains@[a])@.len() == cs.len()
                && forall|q: int| 0 <= q < cs.len() ==> (chains@[a]@[q] <==> fp_chain(cs, branch_labels@[a].target_oid@).contains(q)),
            forall|x: int| 0 <= x < i ==> #[trigger] commits@[x] == (GraphCommit { branch: fp_label(cs, branch_labels@, base, x), ..cs[x] }),
            forall|x: int| i <= x < cs.len() ==> #[trigger] commits@[x] == cs[x],
        decreases cs.len() - i,
    {
        if commits[i].branch.is_none() {
            let mut best: Option<usize> = None;
            let mut j2: usize = 0;
            while j2 < branch_labels.len()
                invariant
                    base == match base_branch { Some(b) => Some(b@), None => None::<Seq<char>> },
                    i < cs.len(),
                    j2 <= branch_labels@.len(),
                    chains@.len() == branch_labels@.len(),
                    forall|a: int| 0 <= a < chains@.len() ==> (#[trigger] chains@[a])@.len() == cs.len()
                        && forall|q: int| 0 <= q < cs.len() ==> (chains@[a]@[q] <==> fp_chain(cs, branch_labels@[a].target_oid@).contains(q)),
                    match best {
                        Some(w) => w < j2 && fp_chain(cs, branch_labels@[w as int].target_oid@).contains(i as int)
                            && forall|a: int| 0 <= a < j2 && #[trigger] fp_chain(cs, branch_labels@[a].target_oid@).contains(i as int)
                                ==> !label_before(branch_labels@[a], branch_labels@[w as int], base)
                                    && (a < w ==> label_before(branch_labels@[w as int], branch_labels@[a], base)),
                        None => forall|a: int| 0 <= a < j2 ==> !(#[trigger] fp_chain(cs, branch_labels@[a].target_oid@).contains(i as int)),
                    },
                decreases branch_labels@.len() - j2,
            {
                if chains[j2][i] {
                    match best {
                        None => {
                            proof {
                                let lj = branch_labels@[j2 as int];
                                lemma_label_order(lj, lj, lj, base);
                            }
                            best = Some(j2);
                        },
                        Some(w) => {
                            if label_before_exec(&branch_labels[j2], &branch_labels[w], base_branch) {
                                proof {
                                    let lj = branch_labels@[j2 as int];
                                    let lw = branch_labels@[w as int];
                                    assert forall|a: int| 0 <= a < j2 + 1 && #[trigger] fp_chain(cs, branch_labels@[a].target_oid@).contains(i as int)
                                        implies !label_before(branch_labels@[a], lj, base)
                                            && (a < j2 ==> label_before(lj, branch_labels@[a], base)) by {
                                        let la = branch_labels@[a];
                                        lemma_label_order(la, lj, lw, base);
                                        lemma_label_order(lj, lw, la, base);
                                        lemma_label_order(la, lw, lj, base);
                                        lemma_label_order(lj, la, lw, base);
                                        lemma_label_order(lw, la, lj, base);
                                        lemma_label_order(lj, lj, lj, base);
                                        if a < j2 {
                                            assert(!label_before(la, lw, base));
                                            assert(a < w ==> label_before(lw, la, base));
                                            assert(!label_before(la, lj, base));
                                            if a < w {
                                                assert(label_before(lj, la, base));
                                            } else if a == w {
                                                assert(label_before(lj, la, base));
                                            } else {
                                                assert(label_before(lj, la, base));
                                            }
                                        } else {
                                            assert(la == lj);
                                        }
                                    }
                                }
                                best = Some(j2);
                            } else {
                                proof {
                                    let lj = branch_labels@[j2 as int];
                                    let lw = branch_labels@[w as int];
                                    lemma_label_order(lj, lw, lj, base);
                                    assert forall|a: int| 0 <= a < j2 + 1 && #[trigger] fp_chain(cs, branch_labels@[a].target_oid@).contains(i as int)
                                        implies !label_before(branch_labels@[a], lw, base)
                                            && (a < w ==> label_before(lw, branch_labels@[a], base)) by {
                                        if a == j2 {
                                            assert(!label_before(lj, lw, base));
                                        }
                                    }
                                }
                            }
                        },
                    }
                }
                j2 = j2 + 1;
            }
            match best {
                Some(w) => {
                    proof {
                        assert(fp_winner(cs, branch_labels@, base, i as int, w as int));
                        let c = choose|x: int| fp_winner(cs, branch_labels@, base, i as int, x);
                        lemma_fp_winner_unique(cs, branch_labels@, base, i as int, w as int, c);
                    }
                    let l = clone_label(&branch_labels[w]);
                    commits[i].branch = Some(l);
                },
                None => {
                    proof {
                        assert(!exists|x: int| fp_winner(cs, branch_labels@, base, i as int, x));
                    }
                },
            }
        }
        proof {
            assert(commits@[i as int] == (GraphCommit { branch: fp_label(cs, branch_labels@, base, i as int), ..cs[i as int] }));
        }
        i = i + 1;
    }
}


/// The `k`-th oid of the first-parent walk from `start` (the start itself,
/// then the first parent of each displayed commit reached).
pub open spec fn fp_oid_step(cs: Seq<GraphCommit>, start: Seq<char>, k: nat) -> Option<Seq<char>>
    decreases k,
{
    if k == 0 {
        Some(start)
    } else {
        match fp_oid_step(cs, start, (k - 1) as nat) {
            Some(o) => match oid_pos(cs, o) {
                Some(p) => if cs[p].parents@.len() > 0 { Some(cs[p].parents@[0]@) } else { None },
                None => None,
            },
            None => None,
        }
    }
}

/// Step `j` of the walk exists and is not in `stop`.
pub open spec fn step_fine(cs: Seq<GraphCommit>, start: Seq<char>, stop: Set<Seq<char>>, j: nat) -> bool {
    match fp_oid_step(cs, start, j) {
        Some(o) => !stop.contains(o),
        None => false,
    }
}

/// Steps `0..=k` of the walk exist and none of them is in `stop`.
pub open spec fn walk_ok(cs: Seq<GraphCommit>, start: Seq<char>, stop: Set<Seq<char>>, k: nat) -> bool {
    forall|j: nat| j <= k ==> #[trigger] step_fine(cs, start, stop, j)
}

/// The oids the walk from `start` goes through before reaching `stop`.
pub open spec fn walk_oids(cs: Seq<GraphCommit>, start: Seq<char>, stop: Set<Seq<char>>) -> Set<Seq<char>> {
    Set::new(|o: Seq<char>| exists|k: nat| walk_ok(cs, start, stop, k) && fp_oid_step(cs, start, k) == Some(o))
}

/// The displayed commits the walk from `start` goes through before reaching `stop`.
pub open spec fn walk_positions(cs: Seq<GraphCommit>, start: Seq<char>, stop: Set<Seq<char>>) -> Set<int> {
    Set::new(|p: int| exists|k: nat| walk_ok(cs, start, stop, k) && oid_pos(cs, fp_oid_step(cs, start, k)->0) == Some(p))
}

/// The oids on the first-parent history of `start`, itself included.
pub open spec fn first_parent_oids(cs: Seq<GraphCommit>, start: Seq<char>) -> Set<Seq<char>> {
    walk_oids(cs, start, Set::empty())
}

proof fn lemma_oid_shift(cs: Seq<GraphCommit>, s0: Seq<char>, a: nat, b: nat, t: nat)
    requires
        fp_oid_step(cs, s0, a) == fp_oid_step(cs, s0, b),
    ensures
        fp_oid_step(cs, s0, a + t) == fp_oid_step(cs, s0, b + t),
    decreases t,
{
    if t > 0 {
        lemma_oid_shift(cs, s0, a, b, (t - 1) as nat);
        assert(((a + t) - 1) as nat == a + (t - 1) as nat);
        assert(((b + t) - 1) as nat == b + (t - 1) as nat);
    }
}

proof fn lemma_oid_none_stays(cs: Seq<GraphCommit>, s0: Seq<char>, a: nat, m: nat)
    requires
        fp_oid_step(cs, s0, a) is None,
        m >= a,
    ensures
        fp_oid_step(cs, s0, m) is None,
    decreases m - a,
{
    if m > a {
        lemma_oid_none_stays(cs, s0, a, (m - 1) as nat);
    }
}

proof fn lemma_oid_periodic(cs: Seq<GraphCommit>, s0: Seq<char>, j: nat, k: nat, m: nat)
    requires
        j < k,
        fp_oid_step(cs, s0, j) == fp_oid_step(cs, s0, k),
    ensures
        exists|r: nat| r < k && fp_oid_step(cs, s0, m) == fp_oid_step(cs, s0, r),
    decreases m,
{
    if m < k {
        assert(fp_oid_step(cs, s0, m) == fp_oid_step(cs, s0, m));
    } else {
        let t = (m - k) as nat;
        lemma_oid_shift(cs, s0, j, k, t);
        assert(k + t == m);
        lemma_oid_periodic(cs, s0, j, k, (j + t) as nat);
    }
}

/// When step `k` ends the walk (it is absent or in `stop`) and every earlier
/// step was fine, the walk is exactly steps `0..k`.
proof fn lemma_walk_ends(cs: Seq<GraphCommit>, s0: Seq<char>, st: Set<Seq<char>>, k: nat)
    requires
        k == 0 || walk_ok(cs, s0, st, (k - 1) as nat),
        !step_fine(cs, s0, st, k),
    ensures
        forall|m: nat| walk_ok(cs, s0, st, m) <==> m < k,
{
    assert forall|m: nat| walk_ok(cs, s0, st, m) <==> m < k by {
        if m >= k {
            if walk_ok(cs, s0, st, m) {
                assert(step_fine(cs, s0, st, k));
            }
        } else {
            assert forall|j: nat| j <= m implies #[trigger] step_fine(cs, s0, st, j) by {
                assert(j <= (k - 1) as nat);
            }
        }
    }
}

/// When step `k` repeats step `j < k` and steps `0..k` were fine, every fine
/// step of the walk repeats one of them.
proof fn lemma_walk_repeats(cs: Seq<GraphCommit>, s0: Seq<char>, st: Set<Seq<char>>, j: nat, k: nat)
    requires
        j < k,
        walk_ok(cs, s0, st, (k - 1) as nat),
        fp_oid_step(cs, s0, j) == fp_oid_step(cs, s0, k),
    ensures
        forall|m: nat| #[trigger] walk_ok(cs, s0, st, m) ==> exists|r: nat| r < k && fp_oid_step(cs, s0, m) == fp_oid_step(cs, s0, r),
        forall|m: nat| m < k ==> #[trigger] walk_ok(cs, s0, st, m),
{
    assert forall|m: nat| #[trigger] walk_ok(cs, s0, st, m) implies exists|r: nat| r < k && fp_oid_step(cs, s0, m) == fp_oid_step(cs, s0, r) by {
        lemma_oid_periodic(cs, s0, j, k, m);
    }
    assert forall|m: nat| m < k implies #[trigger] walk_ok(cs, s0, st, m) by {
        assert forall|i: nat| i <= m implies #[trigger] step_fine(cs, s0, st, i) by {
            assert(i <= (k - 1) as nat);
        }
    }
}

proof fn lemma_walk_sets(cs: Seq<GraphCommit>, s0: Seq<char>, st: Set<Seq<char>>, k: nat)
    requires
        forall|m: nat| #[trigger] walk_ok(cs, s0, st, m) ==> exists|r: nat| r < k && fp_oid_step(cs, s0, m) == fp_oid_step(cs, s0, r),
        forall|m: nat| m < k ==> #[trigger] walk_ok(cs, s0, st, m),
    ensures
        walk_oids(cs, s0, st) == Set::new(|o: Seq<char>| exists|j: nat| j < k && fp_oid_step(cs, s0, j) == Some(o)),
        forall|q: int| walk_positions(cs, s0, st).contains(q)
            <==> exists|j: nat| j < k && oid_pos(cs, fp_oid_step(cs, s0, j)->0) == Some(q),
{
    assert(walk_oids(cs, s0, st) =~= Set::new(|o: Seq<char>| exists|j: nat| j < k && fp_oid_step(cs, s0, j) == Some(o))) by {
        assert forall|o: Seq<char>| #[trigger] walk_oids(cs, s0, st).contains(o) implies exists|j: nat| j < k && fp_oid_step(cs, s0, j) == Some(o) by {
            let m = choose|m: nat| walk_ok(cs, s0, st, m) && fp_oid_step(cs, s0, m) == Some(o);
            let r = choose|r: nat| r < k && fp_oid_step(cs, s0, m) == fp_oid_step(cs, s0, r);
        }
        assert forall|o: Seq<char>| (exists|j: nat| j < k && fp_oid_step(cs, s0, j) == Some(o)) implies #[trigger] walk_oids(cs, s0, st).contains(o) by {
            let j = choose|j: nat| j < k && fp_oid_step(cs, s0, j) == Some(o);
            assert(walk_ok(cs, s0, st, j));
        }
    }
    assert forall|q: int| walk_positions(cs, s0, st).contains(q)
        <==> exists|j: nat| j < k && oid_pos(cs, fp_oid_step(cs, s0, j)->0) == Some(q) by {
        if walk_positions(cs, s0, st).contains(q) {
            let m = choose|m: nat| walk_ok(cs, s0, st, m) && oid_pos(cs, fp_oid_step(cs, s0, m)->0) == Some(q);
            let r = choose|r: nat| r < k && fp_oid_step(cs, s0, m) == fp_oid_step(cs, s0, r);
            assert(oid_pos(cs, fp_oid_step(cs, s0, r)->0) == Some(q));
        }
        if exists|j: nat| j < k && oid_pos(cs, fp_oid_step(cs, s0, j)->0) == Some(q) {
            let j = choose|j: nat| j < k && oid_pos(cs, fp_oid_step(cs, s0, j)->0) == Some(q);
            assert(walk_ok(cs, s0, st, j));
        }
    }
}

/// Walks first parents from `start` until `stop` or the end of the displayed
/// history: the displayed commits passed, one flag each, and the oids passed.
fn walk_first_parents(cs: &Vec<GraphCommit>, start: &str, stop: &KeySet) -> (r: (Vec<bool>, KeySet))
    requires
        stop.wf(),
    ensures
        r.0@.len() == cs@.len(),
        forall|q: int| 0 <= q < cs@.len() ==> (r.0@[q] <==> walk_positions(cs@, start@, stop@).contains(q)),
        r.1.wf(),
        r.1@ == walk_oids(cs@, start@, stop@),
{
    let n = cs.len();
    let mut on: Vec<bool> = Vec::new();
    let mut z: usize = 0;
    while z < n
        invariant
            z <= n == cs@.len(),
            on@.len() == z,
            forall|t: int| 0 <= t < z ==> !on@[t],
        decreases n - z,
    {
        on.push(false);
        z = z + 1;
    }
    let ghost s0 = start@;
    let ghost st = stop@;
    let mut visited = KeySet::new();
    let mut cur: Option<String> = Some(crate::text::to_owned_string(start));
    let ghost mut k: nat = 0;
    let ghost mut seen: Set<int> = Set::empty();
    loop
        invariant
            n == cs@.len(),
            st == stop@,
            stop.wf(),
            on@.len() == n,
            visited.wf(),
            match cur {
                Some(o) => fp_oid_step(cs@, s0, k) == Some(o@),
                None => fp_oid_step(cs@, s0, k) is None,
            },
            k == 0 || walk_ok(cs@, s0, st, (k - 1) as nat),
            visited@ == Set::new(|o: Seq<char>| exists|j: nat| j < k && fp_oid_step(cs@, s0, j) == Some(o)),
            forall|q: int| 0 <= q < n ==> (on@[q] <==> exists|j: nat| j < k && oid_pos(cs@, fp_oid_step(cs@, s0, j)->0) == Some(q)),
            seen == Set::new(|q: int| 0 <= q < n && on@[q]),
            seen.finite(),
            seen.len() <= n,
        ensures
            forall|q: int| 0 <= q < cs@.len() ==> (on@[q] <==> walk_positions(cs@, s0, st).contains(q)),
            visited.wf(),
            visited@ == walk_oids(cs@, s0, st),
        decreases n - seen.len(), if cur is Some { 1int } else { 0int },
    {
        let ghost k0 = k;
        match cur {
            None => {
                proof {
                    assert(!step_fine(cs@, s0, st, k));
                    lemma_walk_ends(cs@, s0, st, k);
                    assert forall|m: nat| #[trigger] walk_ok(cs@, s0, st, m) implies exists|r: nat| r < k && fp_oid_step(cs@, s0, m) == fp_oid_step(cs@, s0, r) by {
                        assert(m < k);
                    }
                    lemma_walk_sets(cs@, s0, st, k);
                }
                break;
            },
            Some(o) => {
                if stop.contains(o.as_str()) {
                    proof {
                        assert(!step_fine(cs@, s0, st, k));
                        lemma_walk_ends(cs@, s0, st, k);
                        assert forall|m: nat| #[trigger] walk_ok(cs@, s0, st, m) implies exists|r: nat| r < k && fp_oid_step(cs@, s0, m) == fp_oid_step(cs@, s0, r) by {
                            assert(m < k);
                        }
                        lemma_walk_sets(cs@, s0, st, k);
                    }
                    break;
                }
                if visited.contains(o.as_str()) {
                    proof {
                        let j = choose|j: nat| j < k && fp_oid_step(cs@, s0, j) == Some(o@);
                        lemma_walk_repeats(cs@, s0, st, j, k);
                        lemma_walk_sets(cs@, s0, st, k);
                    }
                    break;
                }
                let ghost vis0 = visited@;
                visited.insert(o.clone());
                proof {
                    assert(walk_ok(cs@, s0, st, k)) by {
                        assert forall|j: nat| j <= k implies #[trigger] step_fine(cs@, s0, st, j) by {
                            if j < k {
                                assert(walk_ok(cs@, s0, st, (k - 1) as nat));
                            }
                        }
                    }
                    assert(visited@ =~= Set::new(|x: Seq<char>| exists|j: nat| j < k + 1 && fp_oid_step(cs@, s0, j) == Some(x))) by {
                        assert forall|x: Seq<char>| #[trigger] visited@.contains(x) implies exists|j: nat| j < k + 1 && fp_oid_step(cs@, s0, j) == Some(x) by {
                            if x != o@ {
                                assert(vis0.contains(x));
                            } else {
                                assert(fp_oid_step(cs@, s0, k) == Some(x));
                            }
                        }
                        assert forall|x: Seq<char>| (exists|j: nat| j < k + 1 && fp_oid_step(cs@, s0, j) == Some(x)) implies #[trigger] visited@.contains(x) by {
                            let j = choose|j: nat| j < k + 1 && fp_oid_step(cs@, s0, j) == Some(x);
                            if j < k {
                                assert(vis0.contains(x));
                            }
                        }
                    }
                }
                match position_of_oid(cs, o.as_str()) {
                    None => {
                        proof {
                            let k1: nat = k + 1;
                            assert(fp_oid_step(cs@, s0, k1) is None);
                            assert forall|q: int| 0 <= q < n implies (on@[q] <==> exists|j: nat| j < k1 && oid_pos(cs@, fp_oid_step(cs@, s0, j)->0) == Some(q)) by {
                                if exists|j: nat| j < k1 && oid_pos(cs@, fp_oid_step(cs@, s0, j)->0) == Some(q) {
                                    let j = choose|j: nat| j < k1 && oid_pos(cs@, fp_oid_step(cs@, s0, j)->0) == Some(q);
                                    assert(j < k);
                                }
                            }
                            k = k1;
                        }
                        cur = None;
                    },
                    Some(p) => {
                        proof {
                            lemma_oid_pos(cs@, o@);
                            if on@[p as int] {
                                let j = choose|j: nat| j < k && oid_pos(cs@, fp_oid_step(cs@, s0, j)->0) == Some(p as int);
                                lemma_oid_pos(cs@, fp_oid_step(cs@, s0, j)->0);
                                assert(walk_ok(cs@, s0, st, (k - 1) as nat));
                                assert(step_fine(cs@, s0, st, j));
                                assert(fp_oid_step(cs@, s0, j) == Some(o@));
                                assert(vis0.contains(o@));
                            }
                        }
                        on.set(p, true);
                        proof {
                            let old_seen = seen;
                            seen = seen.insert(p as int);
                            assert(seen =~= Set::new(|x: int| 0 <= x < n && on@[x]));
                            vstd::set_lib::lemma_int_range(0, n as int);
                            assert(seen.subset_of(vstd::set_lib::set_int_range(0, n as int)));
                            vstd::set_lib::lemma_len_subset(seen, vstd::set_lib::set_int_range(0, n as int));
                            assert(!old_seen.contains(p as int));
                        }
                        let next = if cs[p].parents.len() > 0 {
                            Some(cs[p].parents[0].clone())
                        } else {
                            None
                        };
                        proof {
                            let k1: nat = k + 1;
                            assert forall|q: int| 0 <= q < n implies (on@[q] <==> exists|j: nat| j < k1 && oid_pos(cs@, fp_oid_step(cs@, s0, j)->0) == Some(q)) by {
                                if q == p {
                                    assert(oid_pos(cs@, fp_oid_step(cs@, s0, k)->0) == Some(q));
                                } else if exists|j: nat| j < k1 && oid_pos(cs@, fp_oid_step(cs@, s0, j)->0) == Some(q) {
                                    let j = choose|j: nat| j < k1 && oid_pos(cs@, fp_oid_step(cs@, s0, j)->0) == Some(q);
                                    assert(j < k);
                                }
                            }
                            k = k1;
                        }
                        cur = next;
                    },
                }
            },
        }
    }
    (on, visited)
}


/// The oids on the first-parent history of `start_oid`, itself included.
pub fn first_parent_history(commits: &Vec<GraphCommit>, start_oid: &str) -> (h: KeySet)
    ensures
        h.wf(),
        h@ == first_parent_oids(commits@, start_oid@),
{
    let none = KeySet::new();
    let (_, oids) = walk_first_parents(commits, start_oid, &none);
    oids
}

/// Merge commit `m` names the branch it merged and has a second parent.
pub open spec fn merge_applies(cs: Seq<GraphCommit>, m: int) -> bool {
    0 <= m < cs.len() && crate::graph::merge_branch_name(cs[m].summary@) is Some && cs[m].parents@.len() >= 2
}

/// Merge commit `m` claims commit `i`: `i` is on the first-parent walk from
/// the merged side before it meets the receiving branch's first-parent history.
pub open spec fn merge_claims(cs: Seq<GraphCommit>, m: int, i: int) -> bool {
    merge_applies(cs, m)
        && walk_positions(cs, cs[m].parents@[1]@, first_parent_oids(cs, cs[m].parents@[0]@)).contains(i)
}

/// A label by its parts.
pub open spec fn label_view(l: GraphBranchLabel) -> (Seq<char>, Seq<char>, GraphRefKind) {
    (l.name@, l.target_oid@, l.kind)
}

/// The label a merge commit gives: the merged branch's name, at the merge's second parent.
pub open spec fn merge_label(cs: Seq<GraphCommit>, m: int) -> (Seq<char>, Seq<char>, GraphRefKind) {
    (crate::graph::merge_branch_name(cs[m].summary@)->0, cs[m].parents@[1]@, GraphRefKind::LocalBranch)
}

/// The label commit `i` carries once the merges before `upto` claimed theirs:
/// its own if it had one, else that of the first merge claiming it.
pub open spec fn merge_label_of(cs: Seq<GraphCommit>, i: int, upto: int) -> Option<(Seq<char>, Seq<char>, GraphRefKind)> {
    match cs[i].branch {
        Some(l) => Some(label_view(l)),
        None => if exists|m: int| 0 <= m < upto && merge_claims(cs, m, i) && forall|m2: int| 0 <= m2 < m ==> !#[trigger] merge_claims(cs, m2, i) {
            Some(merge_label(cs, choose|m: int| 0 <= m < upto && merge_claims(cs, m, i) && forall|m2: int| 0 <= m2 < m ==> !#[trigger] merge_claims(cs, m2, i)))
        } else {
            None
        },
    }
}

pub open spec fn opt_label_view(o: Option<GraphBranchLabel>) -> Option<(Seq<char>, Seq<char>, GraphRefKind)> {
    match o {
        Some(l) => Some(label_view(l)),
        None => None,
    }
}

proof fn lemma_first_claim_unique(cs: Seq<GraphCommit>, i: int, upto: int, a: int, b: int)
    requires
        0 <= a < upto && merge_claims(cs, a, i) && forall|m2: int| 0 <= m2 < a ==> !#[trigger] merge_claims(cs, m2, i),
        0 <= b < upto && merge_claims(cs, b, i) && forall|m2: int| 0 <= m2 < b ==> !#[trigger] merge_claims(cs, m2, i),
    ensures
        a == b,
{
    if a < b {
        assert(!merge_claims(cs, a, i));
    } else if b < a {
        assert(!merge_claims(cs, b, i));
    }
}

/// Merge commits of the form `Merge branch '<name>'`, in order, label the
/// commits they claim that carry no label yet; nothing else changes.
pub fn assign_merge_subject_branch_labels(commits: &mut Vec<GraphCommit>)
    ensures
        final(commits)@.len() == old(commits)@.len(),
        forall|i: int| 0 <= i < old(commits)@.len() ==> {
            &&& #[trigger] final(commits)@[i] == (GraphCommit { branch: final(commits)@[i].branch, ..old(commits)@[i] })
            &&& opt_label_view(final(commits)@[i].branch) == merge_label_of(old(commits)@, i, old(commits)@.len() as int)
            &&& old(commits)@[i].branch is Some ==> final(commits)@[i].branch == old(commits)@[i].branch
        },
{
    let ghost cs = commits@;
    let n = commits.len();
    // What each merge claims, read before any label changes.
    let mut claims: Vec<Option<(String, String, Vec<bool>)>> = Vec::new();
    let mut m: usize = 0;
    while m < n
        invariant
            commits@ == cs,
            n == cs.len(),
            m <= n,
            claims@.len() == m,
            forall|x: int| 0 <= x < m ==> match #[trigger] claims@[x] {
                Some((name, target, on)) => merge_applies(cs, x) && (name@, target@, GraphRefKind::LocalBranch) == merge_label(cs, x)
                    && on@.len() == n && forall|q: int| 0 <= q < n ==> (on@[q] <==> merge_claims(cs, x, q)),
                None => !merge_applies(cs, x),
            },
        decreases n - m,
    {
        let name = crate::graph::parse_merge_branch_name(commits[m].summary.as_str());
        let entry = match name {
            Some(nm) => {
                if commits[m].parents.len() >= 2 {
                    let recv = first_parent_history(commits, commits[m].parents[0].as_str());
                    let (on, _) = walk_first_parents(commits, commits[m].parents[1].as_str(), &recv);
                    Some((nm, commits[m].parents[1].clone(), on))
                } else {
                    None
                }
            },
            None => None,
        };
        claims.push(entry);
        m = m + 1;
    }
    let mut i: usize = 0;
    while i < n
        invariant
            n == cs.len(),
            commits@.len() == n,
            claims@.len() == n,
            forall|x: int| 0 <= x < n ==> match #[trigger] claims@[x] {
                Some((name, target, on)) => merge_applies(cs, x) && (name@, target@, GraphRefKind::LocalBranch) == merge_label(cs, x)
                    && on@.len() == n && forall|q: int| 0 <= q < n ==> (on@[q] <==> merge_claims(cs, x, q)),
                None => !merge_applies(cs, x),
            },
            i <= n,
            forall|x: int| 0 <= x < i ==> {
                &&& #[trigger] commits@[x] == (GraphCommit { branch: commits@[x].branch, ..cs[x] })
                &&& opt_label_view(commits@[x].branch) == merge_label_of(cs, x, n as int)
                &&& cs[x].branch is Some ==> commits@[x].branch == cs[x].branch
            },
            forall|x: int| i <= x < n ==> #[trigger] commits@[x] == cs[x],
        decreases n - i,
    {
        if commits[i].branch.is_none() {
            let mut found: Option<usize> = None;
            let mut m2: usize = 0;
            while m2 < n
                invariant_except_break
                    found is None,
                invariant
                    n == cs.len(),
                    i < n,
                    claims@.len() == n,
                    forall|x: int| 0 <= x < n ==> match #[trigger] claims@[x] {
                        Some((name, target, on)) => merge_applies(cs, x) && (name@, target@, GraphRefKind::LocalBranch) == merge_label(cs, x)
                            && on@.len() == n && forall|q: int| 0 <= q < n ==> (on@[q] <==> merge_claims(cs, x, q)),
                        None => !merge_applies(cs, x),
                    },
                    m2 <= n,
                    forall|x: int| 0 <= x < m2 ==> !#[trigger] merge_claims(cs, x, i as int),
                ensures
                    match found {
                        Some(f) => f < n && merge_claims(cs, f as int, i as int)
                            && forall|x: int| 0 <= x < f ==> !#[trigger] merge_claims(cs, x, i as int),
                        None => forall|x: int| 0 <= x < n ==> !#[trigger] merge_claims(cs, x, i as int),
                    },
                decreases n - m2,
            {
                let hit = match &claims[m2] {
                    Some((_, _, on)) => on[i],
                    None => false,
                };
                if hit {
                    found = Some(m2);
                    break;
                }
                m2 = m2 + 1;
            }
            match found {
                Some(f) => {
                    let label = match &claims[f] {
                        Some((name, target, _)) => GraphBranchLabel { name: name.clone(), target_oid: target.clone(), kind: GraphRefKind::LocalBranch },
                        None => GraphBranchLabel { name: String::new(), target_oid: String::new(), kind: GraphRefKind::LocalBranch },
                    };
                    proof {
                        let c = choose|mm: int| 0 <= mm < n && merge_claims(cs, mm, i as int)
                            && forall|m3: int| 0 <= m3 < mm ==> !#[trigger] merge_claims(cs, m3, i as int);
                        lemma_first_claim_unique(cs, i as int, n as int, f as int, c);
                    }
                    commits[i].branch = Some(label);
                },
                None => {
                    proof {
                        assert(!exists|mm: int| 0 <= mm < n && merge_claims(cs, mm, i as int)
                            && forall|m3: int| 0 <= m3 < mm ==> !#[trigger] merge_claims(cs, m3, i as int));
                    }
                },
            }
        }
        i = i + 1;
    }
}

/// The commits with the labels of the first-parent walks.
pub open spec fn after_first_parent(cs: Seq<GraphCommit>, labels: Seq<GraphBranchLabel>, base: Option<Seq<char>>) -> Seq<GraphCommit> {
    Seq::new(cs.len(), |x: int| GraphCommit { branch: fp_label(cs, labels, base, x), ..cs[x] })
}

/// Branch labels for a fresh snapshot: first-parent histories of the branch
/// refs, then merge subjects for what they left unlabelled.
pub fn assign_graph_branch_labels(commits: &mut Vec<GraphCommit>, branch_labels: &Vec<GraphBranchLabel>, base_branch: Option<&str>)
    ensures
        final(commits)@.len() == old(commits)@.len(),
        forall|i: int| 0 <= i < old(commits)@.len() ==> {
            let after_fp = after_first_parent(old(commits)@, branch_labels@, match base_branch { Some(b) => Some(b@), None => None });
            &&& #[trigger] final(commits)@[i] == (GraphCommit { branch: final(commits)@[i].branch, ..old(commits)@[i] })
            &&& opt_label_view(final(commits)@[i].branch) == merge_label_of(after_fp, i, old(commits)@.len() as int)
        },
{
    let ghost cs = commits@;
    assign_first_parent_branch_labels(commits, branch_labels, base_branch);
    let ghost mid = commits@;
    proof {
        let after_fp = after_first_parent(cs, branch_labels@, match base_branch { Some(b) => Some(b@), None => None });
        assert(mid =~= after_fp);
    }
    assign_merge_subject_branch_labels(commits);
}

} // verus!
