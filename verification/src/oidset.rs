//! Sets of commit ids, held as their hexadecimal text in sorted order so
//! that membership is a binary search.

use vstd::prelude::*;
use crate::labels::{str_less, lemma_str_less_order};
use crate::text::str_eq;

verus! {

/// `slice::sort` on strings. What is claimed: the strings come out
/// rearranged, in the ascending order of `String`'s `Ord`, which compares the
/// UTF-8 bytes lexicographically and so orders strings as their characters'
/// code points do.
#[verifier::external_body]
pub(crate) fn sort_strings(v: &mut Vec<String>)
    ensures
        final(v)@.to_multiset() == old(v)@.to_multiset(),
        forall|i: int, j: int| 0 <= i < j < final(v)@.len() ==> !str_less(final(v)@[j]@, final(v)@[i]@),
{
    v.sort();
}

/// A set of commit ids in hexadecimal.
pub struct OidSet {
    pub sorted: Vec<String>,
}

impl OidSet {
    pub open spec fn wf(&self) -> bool {
        forall|i: int, j: int| 0 <= i < j < self.sorted@.len() ==> !str_less(self.sorted@[j]@, self.sorted@[i]@)
    }

    pub open spec fn view(&self) -> Set<Seq<char>> {
        Set::new(|k: Seq<char>| exists|i: int| 0 <= i < self.sorted@.len() && self.sorted@[i]@ == k)
    }

    /// The empty set.
    pub fn empty() -> (s: Self)
        ensures
            s.wf(),
            s.view() == Set::<Seq<char>>::empty(),
    {
        let s = OidSet { sorted: Vec::new() };
        assert(s.view() =~= Set::<Seq<char>>::empty());
        s
    }

    /// The set of the given ids.
    pub fn from_ids(ids: Vec<String>) -> (s: Self)
        ensures
            s.wf(),
            forall|k: Seq<char>| s.view().contains(k) <==> exists|i: int| 0 <= i < ids@.len() && ids@[i]@ == k,
    {
        let ghost before = ids@;
        let mut v = ids;
        sort_strings(&mut v);
        let s = OidSet { sorted: v };
        proof {
            broadcast use vstd::seq_lib::group_to_multiset_ensures;
            assert forall|k: Seq<char>| s.view().contains(k) <==> exists|i: int| 0 <= i < before.len() && before[i]@ == k by {
                if s.view().contains(k) {
                    let i = choose|i: int| 0 <= i < s.sorted@.len() && s.sorted@[i]@ == k;
                    let x = s.sorted@[i];
                    assert(s.sorted@.contains(x));
                    assert(s.sorted@.to_multiset().count(x) > 0);
                    assert(before.contains(x));
                    let j = choose|j: int| 0 <= j < before.len() && before[j] == x;
                    assert(before[j]@ == k);
                }
                if exists|i: int| 0 <= i < before.len() && before[i]@ == k {
                    let i = choose|i: int| 0 <= i < before.len() && before[i]@ == k;
                    let x = before[i];
                    assert(before.contains(x));
                    assert(before.to_multiset().count(x) > 0);
                    assert(s.sorted@.contains(x));
                    let j = choose|j: int| 0 <= j < s.sorted@.len() && s.sorted@[j] == x;
                    assert(s.sorted@[j]@ == k);
                }
            }
        }
        s
    }

    pub fn is_empty(&self) -> (r: bool)
        ensures
            r == (self.view() == Set::<Seq<char>>::empty()),
    {
        if self.sorted.len() == 0 {
            assert(self.view() =~= Set::<Seq<char>>::empty());
            true
        } else {
            assert(self.view().contains(self.sorted@[0]@));
            false
        }
    }

    /// Whether `id` is in the set.
    pub fn contains(&self, id: &str) -> (r: bool)
        requires
            self.wf(),
        ensures
            r == self.view().contains(id@),
    {
        let s = &self.sorted;
        let mut lo: usize = 0;
        let mut hi: usize = s.len();
        while lo < hi
            invariant
                self.wf(),
                s == &self.sorted,
                lo <= hi <= s@.len(),
                forall|j: int| 0 <= j < lo ==> str_less(#[trigger] s@[j]@, id@),
                forall|j: int| hi <= j < s@.len() ==> !str_less(#[trigger] s@[j]@, id@),
            decreases hi - lo,
        {
            let mid = lo + (hi - lo) / 2;
            if crate::labels::str_less_exec(s[mid].as_str(), id) {
                proof {
                    assert forall|j: int| 0 <= j < mid + 1 implies str_less(#[trigger] s@[j]@, id@) by {
                        if j < mid {
                            assert(!str_less(s@[mid as int]@, s@[j]@));
                            lemma_str_less_order(s@[j]@, s@[mid as int]@, id@);
                            lemma_str_less_order(s@[mid as int]@, s@[j]@, id@);
                        }
                    }
                }
                lo = mid + 1;
            } else {
                proof {
                    assert forall|j: int| mid <= j < s@.len() implies !str_less(#[trigger] s@[j]@, id@) by {
                        if mid < j {
                            assert(!str_less(s@[j]@, s@[mid as int]@));
                            lemma_str_less_order(s@[mid as int]@, s@[j]@, id@);
                            lemma_str_less_order(s@[j]@, id@, s@[mid as int]@);
                            lemma_str_less_order(id@, s@[mid as int]@, s@[j]@);
                        }
                    }
                }
                hi = mid;
            }
        }
        let found = lo < s.len() && str_eq(s[lo].as_str(), id);
        proof {
            if self.view().contains(id@) {
                let k = choose|k: int| 0 <= k < s@.len() && s@[k]@ == id@;
                lemma_str_less_order(id@, id@, id@);
                assert(!str_less(s@[k]@, id@));
                assert(k >= lo);
                if k > lo {
                    assert(!str_less(s@[k]@, s@[lo as int]@));
                    lemma_str_less_order(s@[lo as int]@, id@, s@[k]@);
                }
            }
        }
        found
    }
}

} // verus!
