//! Row order and per-row decorations shared by the list views and the
//! non-interactive dumps.

use vstd::prelude::*;
use crate::types::{BranchInfo, MergeStatus, PrInfo};
use crate::keyed::KeyedList;

verus! {

/// The elements of `s` whose flag is `keep`, in order.
pub open spec fn keep_where<T>(s: Seq<T>, flags: Seq<bool>, keep: bool) -> Seq<T>
    decreases s.len(),
{
    if s.len() == 0 {
        Seq::empty()
    } else {
        let rest = keep_where(s.drop_last(), flags, keep);
        if flags[s.len() - 1] == keep { rest.push(s.last()) } else { rest }
    }
}

/// Stable pinned-first order: the flagged rows, then the others, each group
/// in its original order.
pub open spec fn pinned_first_seq<T>(s: Seq<T>, pinned: Seq<bool>) -> Seq<T> {
    keep_where(s, pinned, true) + keep_where(s, pinned, false)
}

proof fn lemma_keep_where_len<T>(s: Seq<T>, flags: Seq<bool>)
    ensures
        keep_where(s, flags, true).len() + keep_where(s, flags, false).len() == s.len(),
    decreases s.len(),
{
    if s.len() > 0 {
        lemma_keep_where_len(s.drop_last(), flags);
    }
}

/// Each row of `s` appears in `keep_where(s, flags, keep)` exactly when its flag is `keep`.
proof fn lemma_keep_where_contains<T>(s: Seq<T>, flags: Seq<bool>, keep: bool, i: int)
    requires
        0 <= i < s.len(),
        flags[i] == keep,
    ensures
        keep_where(s, flags, keep).contains(s[i]),
    decreases s.len(),
{
    if i < s.len() - 1 {
        lemma_keep_where_contains(s.drop_last(), flags, keep, i);
        let rest = keep_where(s.drop_last(), flags, keep);
        let j = choose|j: int| 0 <= j < rest.len() && rest[j] == s[i];
        if flags[s.len() - 1] == keep {
            assert(rest.push(s.last())[j] == s[i]);
        }
    } else {
        let rest = keep_where(s.drop_last(), flags, keep);
        assert(rest.push(s.last())[rest.len() as int] == s[i]);
    }
}

/// The stable pinned-first order keeps every row: as many rows come out as
/// went in, and each row that went in comes out.
pub proof fn lemma_pinned_first_keeps_rows<T>(s: Seq<T>, pinned: Seq<bool>)
    requires
        pinned.len() == s.len(),
    ensures
        pinned_first_seq(s, pinned).len() == s.len(),
        forall|i: int| 0 <= i < s.len() ==> pinned_first_seq(s, pinned).contains(#[trigger] s[i]),
{
    lemma_keep_where_len(s, pinned);
    assert forall|i: int| 0 <= i < s.len() implies pinned_first_seq(s, pinned).contains(#[trigger] s[i]) by {
        let a = keep_where(s, pinned, true);
        let b = keep_where(s, pinned, false);
        lemma_keep_where_contains(s, pinned, pinned[i], i);
        if pinned[i] {
            let j = choose|j: int| 0 <= j < a.len() && a[j] == s[i];
            assert((a + b)[j] == s[i]);
        } else {
            let j = choose|j: int| 0 <= j < b.len() && b[j] == s[i];
            assert((a + b)[a.len() + j] == s[i]);
        }
    }
}

/// Reorders `rows` pinned-first, keeping the order within each group.
/// `pinned[i]` tells whether row `i` is pinned.
pub fn pin_first<T>(rows: Vec<T>, pinned: &Vec<bool>) -> (r: Vec<T>)
    requires
        pinned@.len() == rows@.len(),
    ensures
        r@ == pinned_first_seq(rows@, pinned@),
{
    let ghost orig = rows@;
    let _n = rows.len();
    let mut rest = rows;
    let mut front: Vec<T> = Vec::new();
    let mut back: Vec<T> = Vec::new();
    let mut i: usize = 0;
    while rest.len() > 0
        invariant
            pinned@.len() == orig.len(),
            orig.len() <= usize::MAX,
            i + rest@.len() == orig.len(),
            rest@ == orig.subrange(i as int, orig.len() as int),
            front@ == keep_where(orig.subrange(0, i as int), pinned@, true),
            back@ == keep_where(orig.subrange(0, i as int), pinned@, false),
        decreases rest@.len(),
    {
        let x = rest.remove(0);
        proof {
            let next = orig.subrange(0, i as int + 1);
            assert(next.drop_last() =~= orig.subrange(0, i as int));
            assert(x == orig[i as int]);
            assert(rest@ =~= orig.subrange(i as int + 1, orig.len() as int));
        }
        if pinned[i] {
            front.push(x);
        } else {
            back.push(x);
        }
        i = i + 1;
    }
    assert(orig.subrange(0, orig.len() as int) =~= orig);
    front.append(&mut back);
    front
}

/// Rows pinned in the branch list: the base branch and the current branch.
pub open spec fn branch_pinned(b: BranchInfo) -> bool {
    b.is_base || b.is_current
}

pub open spec fn branch_flags(rows: Seq<BranchInfo>, base_only: bool) -> Seq<bool> {
    Seq::new(rows.len(), |i: int| if base_only { rows[i].is_base } else { branch_pinned(rows[i]) })
}

fn flags_of(rows: &Vec<BranchInfo>, base_only: bool) -> (f: Vec<bool>)
    ensures
        f@ == branch_flags(rows@, base_only),
{
    let mut f: Vec<bool> = Vec::new();
    let mut i: usize = 0;
    while i < rows.len()
        invariant
            i <= rows.len(),
            f@ == branch_flags(rows@, base_only).subrange(0, i as int),
        decreases rows.len() - i,
    {
        f.push(if base_only { rows[i].is_base } else { rows[i].is_base || rows[i].is_current });
        i = i + 1;
        proof {
            assert(f@ =~= branch_flags(rows@, base_only).subrange(0, i as int));
        }
    }
    assert(f@ =~= branch_flags(rows@, base_only));
    f
}

/// The order of the branch list: pinned rows (base, current) first, then the
/// base branch before every other row, both stable.
pub open spec fn branch_list_order(rows: Seq<BranchInfo>) -> Seq<BranchInfo> {
    let pinned = pinned_first_seq(rows, branch_flags(rows, false));
    pinned_first_seq(pinned, branch_flags(pinned, true))
}

/// Orders the branch rows as the list shows them: the base branch first,
/// then the current branch, then the rest, each group in its loaded order.
pub fn order_branch_rows(rows: Vec<BranchInfo>) -> (r: Vec<BranchInfo>)
    ensures
        r@ == branch_list_order(rows@),
{
    let f = flags_of(&rows, false);
    let pinned = pin_first(rows, &f);
    let g = flags_of(&pinned, true);
    pin_first(pinned, &g)
}

/// Gives each row the pull request open for its branch, if any, and takes
/// away any it had otherwise.
pub fn attach_prs(rows: &mut Vec<BranchInfo>, prs: &KeyedList<PrInfo>)
    requires
        prs.wf(),
    ensures
        final(rows)@.len() == old(rows)@.len(),
        forall|i: int| 0 <= i < final(rows)@.len() ==> {
            let b = #[trigger] final(rows)@[i];
            &&& b == (BranchInfo { pr: b.pr, ..old(rows)@[i] })
            &&& b.pr == if prs.view().contains_key(old(rows)@[i].name@) { Some(prs.view()[old(rows)@[i].name@]) } else { None }
        },
{
    let ghost orig = rows@;
    let mut i: usize = 0;
    while i < rows.len()
        invariant
            prs.wf(),
            i <= rows.len(),
            rows@.len() == orig.len(),
            forall|k: int| i <= k < rows@.len() ==> #[trigger] rows@[k] == orig[k],
            forall|k: int| 0 <= k < i ==> {
                let b = #[trigger] rows@[k];
                &&& b == (BranchInfo { pr: b.pr, ..orig[k] })
                &&& b.pr == if prs.view().contains_key(orig[k].name@) { Some(prs.view()[orig[k].name@]) } else { None }
            },
        decreases rows.len() - i,
    {
        let pr = match prs.get(rows[i].name.as_str()) {
            Some(p) => Some(*p),
            None => None,
        };
        let mut b = rows.remove(i);
        b.pr = pr;
        rows.insert(i, b);
        i = i + 1;
    }
}

/// Row `a` goes before row `b` in the loaded branch list: pinned rows
/// first, then the most recently committed.
pub open spec fn row_before(a: BranchInfo, b: BranchInfo) -> bool {
    (branch_pinned(a) && !branch_pinned(b))
        || (branch_pinned(a) == branch_pinned(b) && a.last_commit_date > b.last_commit_date)
}

pub open spec fn rows_sorted(rows: Seq<BranchInfo>) -> bool {
    forall|i: int, j: int| 0 <= i < j < rows.len() ==> !row_before(#[trigger] rows[j], #[trigger] rows[i])
}

fn row_order(a: &BranchInfo, b: &BranchInfo) -> (o: std::cmp::Ordering)
    ensures
        (o is Less) == row_before(*a, *b),
        (o is Greater) == row_before(*b, *a),
{
    let pa = a.is_base || a.is_current;
    let pb = b.is_base || b.is_current;
    if pa && !pb {
        std::cmp::Ordering::Less
    } else if pb && !pa {
        std::cmp::Ordering::Greater
    } else if a.last_commit_date > b.last_commit_date {
        std::cmp::Ordering::Less
    } else if a.last_commit_date < b.last_commit_date {
        std::cmp::Ordering::Greater
    } else {
        std::cmp::Ordering::Equal
    }
}

/// `slice::sort_by` with the order of the loaded branch list. What is
/// claimed: the rows come out rearranged, with no row before one that the
/// order puts ahead of it.
#[verifier::external_body]
fn sort_rows(rows: &mut Vec<BranchInfo>)
    ensures
        final(rows)@.to_multiset() == old(rows)@.to_multiset(),
        rows_sorted(final(rows)@),
{
    rows.sort_by(|a, b| row_order(a, b));
}

/// Sorts the loaded branch rows: pinned rows first, then newest first.
pub fn sort_loaded_rows(rows: &mut Vec<BranchInfo>)
    ensures
        final(rows)@.to_multiset() == old(rows)@.to_multiset(),
        final(rows)@.len() == old(rows)@.len(),
        rows_sorted(final(rows)@),
{
    sort_rows(rows);
    proof {
        broadcast use vstd::seq_lib::group_to_multiset_ensures;
        assert(rows@.len() == rows@.to_multiset().len());
    }
}

/// Marks the branches that still wait for squash detection: every row not
/// pinned whose status is `Unmerged`, or with `all`, every row not pinned.
pub fn mark_pending(rows: &mut Vec<BranchInfo>, all: bool)
    ensures
        final(rows)@.len() == old(rows)@.len(),
        forall|i: int| 0 <= i < final(rows)@.len() ==> #[trigger] final(rows)@[i] == if !branch_pinned(old(rows)@[i])
            && (all || old(rows)@[i].merge_status == MergeStatus::Unmerged) {
            BranchInfo { merge_status: MergeStatus::Pending, ..old(rows)@[i] }
        } else {
            old(rows)@[i]
        },
{
    let ghost orig = rows@;
    let mut i: usize = 0;
    while i < rows.len()
        invariant
            i <= rows.len(),
            rows@.len() == orig.len(),
            forall|k: int| i <= k < orig.len() ==> #[trigger] rows@[k] == orig[k],
            forall|k: int| 0 <= k < i ==> #[trigger] rows@[k] == if !branch_pinned(orig[k])
                && (all || orig[k].merge_status == MergeStatus::Unmerged) {
                BranchInfo { merge_status: MergeStatus::Pending, ..orig[k] }
            } else {
                orig[k]
            },
        decreases rows.len() - i,
    {
        let pinned = rows[i].is_base || rows[i].is_current;
        if !pinned && (all || rows[i].merge_status == MergeStatus::Unmerged) {
            let mut b = rows.remove(i);
            b.merge_status = MergeStatus::Pending;
            rows.insert(i, b);
        }
        i = i + 1;
    }
}

} // verus!
