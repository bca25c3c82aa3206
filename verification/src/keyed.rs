//! Association lists keyed by strings: the in-memory tables of the cache.
//! Each key occurs at most once, so a list stands for a finite map.

use vstd::prelude::*;
use crate::text::str_eq;

verus! {

/// Rows `(key, value)` with pairwise distinct keys.
pub struct KeyedList<V> {
    pub rows: Vec<(String, V)>,
}

/// Index of the row holding `k` (meaningful when one exists).
pub open spec fn row_of<V>(rows: Seq<(String, V)>, k: Seq<char>) -> int {
    choose|i: int| 0 <= i < rows.len() && rows[i].0@ == k
}

pub open spec fn has_row<V>(rows: Seq<(String, V)>, k: Seq<char>) -> bool {
    exists|i: int| 0 <= i < rows.len() && rows[i].0@ == k
}

pub open spec fn keys_distinct<V>(rows: Seq<(String, V)>) -> bool {
    forall|i: int, j: int| 0 <= i < rows.len() && 0 <= j < rows.len() && i != j
        ==> rows[i].0@ != rows[j].0@
}

/// The map a row sequence stands for.
pub open spec fn rows_map<V>(rows: Seq<(String, V)>) -> Map<Seq<char>, V> {
    Map::new(|k: Seq<char>| has_row(rows, k), |k: Seq<char>| rows[row_of(rows, k)].1)
}

impl<V> KeyedList<V> {
    pub open spec fn wf(&self) -> bool {
        keys_distinct(self.rows@)
    }

    pub open spec fn view(&self) -> Map<Seq<char>, V> {
        rows_map(self.rows@)
    }

    pub fn new() -> (l: Self)
        ensures
            l.wf(),
            l.view() == Map::<Seq<char>, V>::empty(),
    {
        let l = KeyedList { rows: Vec::new() };
        assert(l.view() =~= Map::<Seq<char>, V>::empty());
        l
    }

    /// The index of the row for `key`, if any.
    pub fn position(&self, key: &str) -> (r: Option<usize>)
        requires
            self.wf(),
        ensures
            match r {
                Some(i) => i < self.rows.len() && self.rows@[i as int].0@ == key@
                    && row_of(self.rows@, key@) == i,
                None => !has_row(self.rows@, key@),
            },
    {
        let mut i: usize = 0;
        while i < self.rows.len()
            invariant
                self.wf(),
                i <= self.rows.len(),
                forall|k: int| 0 <= k < i ==> self.rows@[k].0@ != key@,
            decreases self.rows.len() - i,
        {
            if str_eq(self.rows[i].0.as_str(), key) {
                proof {
                    assert(has_row(self.rows@, key@));
                    let j = row_of(self.rows@, key@);
                    assert(self.rows@[j].0@ == key@);
                    if j != i {
                        assert(self.rows@[j].0@ != self.rows@[i as int].0@);
                    }
                }
                return Some(i);
            }
            i = i + 1;
        }
        None
    }

    pub fn get(&self, key: &str) -> (r: Option<&V>)
        requires
            self.wf(),
        ensures
            match r {
                Some(v) => self.view().contains_key(key@) && *v == self.view()[key@],
                None => !self.view().contains_key(key@),
            },
    {
        match self.position(key) {
            Some(i) => Some(&self.rows[i].1),
            None => None,
        }
    }

    /// Sets `key` to `value`, replacing any earlier value.
    pub fn set(&mut self, key: String, value: V)
        requires
            old(self).wf(),
        ensures
            final(self).wf(),
            final(self).view() == old(self).view().insert(key@, value),
    {
        let ghost k = key@;
        let ghost before = self.rows@;
        match self.position(key.as_str()) {
            Some(i) => {
                self.rows.set(i, (key, value));
                proof {
                    lemma_replace_row(before, self.rows@, i as int, k);
                }
            }
            None => {
                self.rows.push((key, value));
                proof {
                    lemma_push_row(before, self.rows@, k);
                }
            }
        }
    }

    /// Removes the row for `key`, if any.
    pub fn remove(&mut self, key: &str)
        requires
            old(self).wf(),
        ensures
            final(self).wf(),
            final(self).view() == old(self).view().remove(key@),
    {
        let ghost before = self.rows@;
        match self.position(key) {
            Some(i) => {
                self.rows.remove(i);
                proof {
                    lemma_remove_row(before, self.rows@, i as int, key@);
                }
            }
            None => {
                proof {
                    assert(rows_map(before).remove(key@) =~= rows_map(before));
                }
            }
        }
    }

    /// Number of rows, one per key.
    pub fn len(&self) -> (n: usize)
        ensures
            n == self.rows@.len(),
    {
        self.rows.len()
    }

    /// Whether no key is present.
    pub fn is_empty(&self) -> (b: bool)
        ensures
            b == (self.view() == Map::<Seq<char>, V>::empty()),
    {
        let b = self.rows.len() == 0;
        proof {
            if b {
                assert(self.view() =~= Map::<Seq<char>, V>::empty());
            } else {
                assert(self.view().contains_key(self.rows@[0].0@));
            }
        }
        b
    }

    /// The keys, in row order.
    pub fn keys(&self) -> (r: Vec<String>)
        requires
            self.wf(),
        ensures
            r.len() == self.rows.len(),
            forall|i: int| 0 <= i < r.len() ==> r@[i]@ == self.rows@[i].0@,
            forall|k: Seq<char>| self.view().contains_key(k)
                <==> exists|i: int| 0 <= i < r.len() && r@[i]@ == k,
    {
        let mut r: Vec<String> = Vec::new();
        let mut i: usize = 0;
        while i < self.rows.len()
            invariant
                i <= self.rows.len(),
                r.len() == i,
                forall|j: int| 0 <= j < i ==> r@[j]@ == self.rows@[j].0@,
            decreases self.rows.len() - i,
        {
            r.push(self.rows[i].0.clone());
            i = i + 1;
        }
        proof {
            assert forall|k: Seq<char>| self.view().contains_key(k)
                implies exists|i: int| 0 <= i < r.len() && r@[i]@ == k by {
                let j = row_of(self.rows@, k);
                assert(r@[j]@ == k);
            }
            assert forall|k: Seq<char>| (exists|i: int| 0 <= i < r.len() && r@[i]@ == k)
                implies self.view().contains_key(k) by {
                let j = choose|i: int| 0 <= i < r.len() && r@[i]@ == k;
                assert(self.rows@[j].0@ == k);
            }
        }
        r
    }
}

/// Replacing the value of an existing row updates the map at that key only.
pub proof fn lemma_replace_row<V>(before: Seq<(String, V)>, after: Seq<(String, V)>, i: int, k: Seq<char>)
    requires
        keys_distinct(before),
        0 <= i < before.len(),
        before[i].0@ == k,
        after.len() == before.len(),
        after[i].0@ == k,
        forall|j: int| 0 <= j < before.len() && j != i ==> after[j] == before[j],
    ensures
        keys_distinct(after),
        rows_map(after) == rows_map(before).insert(k, after[i].1),
{
    assert forall|a: int, b: int| 0 <= a < after.len() && 0 <= b < after.len() && a != b
        implies after[a].0@ != after[b].0@ by {
        if a != i && b != i {
            assert(before[a] == after[a] && before[b] == after[b]);
        } else if a == i {
            assert(before[b] == after[b]);
        } else {
            assert(before[a] == after[a]);
        }
    }
    assert forall|q: Seq<char>| has_row(after, q) <==> has_row(before, q) by {
        if has_row(after, q) {
            let j = choose|j: int| 0 <= j < after.len() && after[j].0@ == q;
            if j != i {
                assert(before[j] == after[j]);
            }
        }
        if has_row(before, q) {
            let j = choose|j: int| 0 <= j < before.len() && before[j].0@ == q;
            if j != i {
                assert(before[j] == after[j]);
            }
        }
    }
    assert forall|q: Seq<char>| has_row(after, q) implies
        after[row_of(after, q)].1 == (if q == k { after[i].1 } else { before[row_of(before, q)].1 }) by {
        let ja = row_of(after, q);
        if q == k {
            assert(ja == i);
        } else {
            let jb = row_of(before, q);
            assert(ja != i);
            assert(after[ja] == before[ja]);
            assert(jb == ja);
        }
    }
    assert(rows_map(after) =~= rows_map(before).insert(k, after[i].1));
}

/// Appending a row for a fresh key adds that key to the map.
pub proof fn lemma_push_row<V>(before: Seq<(String, V)>, after: Seq<(String, V)>, k: Seq<char>)
    requires
        keys_distinct(before),
        !has_row(before, k),
        after.len() == before.len() + 1,
        after.last().0@ == k,
        forall|j: int| 0 <= j < before.len() ==> after[j] == before[j],
    ensures
        keys_distinct(after),
        rows_map(after) == rows_map(before).insert(k, after.last().1),
{
    let n = before.len() as int;
    assert forall|a: int, b: int| 0 <= a < after.len() && 0 <= b < after.len() && a != b
        implies after[a].0@ != after[b].0@ by {
        if a < n && b < n {
            assert(before[a] == after[a] && before[b] == after[b]);
        } else if a == n {
            assert(before[b] == after[b]);
        } else {
            assert(before[a] == after[a]);
        }
    }
    assert forall|q: Seq<char>| has_row(after, q) <==> (has_row(before, q) || q == k) by {
        if has_row(after, q) {
            let j = choose|j: int| 0 <= j < after.len() && after[j].0@ == q;
            if j < n {
                assert(before[j] == after[j]);
            }
        }
        if has_row(before, q) {
            let j = choose|j: int| 0 <= j < before.len() && before[j].0@ == q;
            assert(before[j] == after[j]);
        }
        if q == k {
            assert(after[n].0@ == k);
        }
    }
    assert forall|q: Seq<char>| has_row(after, q) implies
        after[row_of(after, q)].1 == (if q == k { after.last().1 } else { before[row_of(before, q)].1 }) by {
        let ja = row_of(after, q);
        if q == k {
            assert(after[n].0@ == k);
            assert(ja == n);
        } else {
            assert(ja != n);
            assert(after[ja] == before[ja]);
            assert(row_of(before, q) == ja);
        }
    }
    assert(rows_map(after) =~= rows_map(before).insert(k, after.last().1));
}

/// Removing the row of a key removes the key from the map.
pub proof fn lemma_remove_row<V>(before: Seq<(String, V)>, after: Seq<(String, V)>, i: int, k: Seq<char>)
    requires
        keys_distinct(before),
        0 <= i < before.len(),
        before[i].0@ == k,
        after == before.remove(i),
    ensures
        keys_distinct(after),
        rows_map(after) == rows_map(before).remove(k),
{
    assert forall|a: int, b: int| 0 <= a < after.len() && 0 <= b < after.len() && a != b
        implies after[a].0@ != after[b].0@ by {
        let a2 = if a < i { a } else { a + 1 };
        let b2 = if b < i { b } else { b + 1 };
        assert(after[a] == before[a2] && after[b] == before[b2]);
    }
    assert forall|q: Seq<char>| has_row(after, q) <==> (has_row(before, q) && q != k) by {
        if has_row(after, q) {
            let j = choose|j: int| 0 <= j < after.len() && after[j].0@ == q;
            let j2 = if j < i { j } else { j + 1 };
            assert(after[j] == before[j2]);
        }
        if has_row(before, q) && q != k {
            let j = choose|j: int| 0 <= j < before.len() && before[j].0@ == q;
            assert(j != i);
            let j2 = if j < i { j } else { j - 1 };
            assert(after[j2] == before[j]);
        }
    }
    assert forall|q: Seq<char>| has_row(after, q) implies
        after[row_of(after, q)].1 == before[row_of(before, q)].1 by {
        let ja = row_of(after, q);
        let j2 = if ja < i { ja } else { ja + 1 };
        assert(after[ja] == before[j2]);
        assert(row_of(before, q) == j2);
    }
    assert(rows_map(after) =~= rows_map(before).remove(k));
}

/// A set of strings without repetition.
pub struct KeySet {
    pub items: Vec<String>,
}

impl KeySet {
    pub open spec fn wf(&self) -> bool {
        forall|i: int, j: int| 0 <= i < self.items.len() && 0 <= j < self.items.len() && i != j
            ==> self.items@[i]@ != self.items@[j]@
    }

    pub open spec fn view(&self) -> Set<Seq<char>> {
        Set::new(|k: Seq<char>| exists|i: int| 0 <= i < self.items.len() && self.items@[i]@ == k)
    }

    pub fn new() -> (s: Self)
        ensures
            s.wf(),
            s.view() == Set::<Seq<char>>::empty(),
    {
        let s = KeySet { items: Vec::new() };
        assert(s.view() =~= Set::<Seq<char>>::empty());
        s
    }

    fn position(&self, key: &str) -> (r: Option<usize>)
        ensures
            match r {
                Some(i) => i < self.items.len() && self.items@[i as int]@ == key@,
                None => !self.view().contains(key@),
            },
    {
        let mut i: usize = 0;
        while i < self.items.len()
            invariant
                i <= self.items.len(),
                forall|k: int| 0 <= k < i ==> self.items@[k]@ != key@,
            decreases self.items.len() - i,
        {
            if str_eq(self.items[i].as_str(), key) {
                return Some(i);
            }
            i = i + 1;
        }
        None
    }

    pub fn contains(&self, key: &str) -> (r: bool)
        ensures
            r == self.view().contains(key@),
    {
        self.position(key).is_some()
    }

    pub fn insert(&mut self, key: String)
        requires
            old(self).wf(),
        ensures
            final(self).wf(),
            final(self).view() == old(self).view().insert(key@),
    {
        let ghost before = self.items@;
        if self.position(key.as_str()).is_none() {
            let ghost k = key@;
            self.items.push(key);
            proof {
                let after = self.items@;
                assert forall|a: int, b: int| 0 <= a < after.len() && 0 <= b < after.len() && a != b
                    implies after[a]@ != after[b]@ by {
                    if a < before.len() && b < before.len() {
                        assert(after[a] == before[a] && after[b] == before[b]);
                    } else if a == before.len() {
                        assert(after[b] == before[b]);
                        assert(!(exists|i: int| 0 <= i < before.len() && before[i]@ == k));
                    } else {
                        assert(after[a] == before[a]);
                        assert(!(exists|i: int| 0 <= i < before.len() && before[i]@ == k));
                    }
                }
                assert forall|q: Seq<char>| self.view().contains(q) <==> old(self).view().insert(k).contains(q) by {
                    if self.view().contains(q) {
                        let j = choose|j: int| 0 <= j < after.len() && after[j]@ == q;
                        if j < before.len() {
                            assert(after[j] == before[j]);
                        }
                    }
                    if old(self).view().contains(q) {
                        let j = choose|j: int| 0 <= j < before.len() && before[j]@ == q;
                        assert(after[j] == before[j]);
                    }
                    if q == k {
                        assert(after[before.len() as int]@ == k);
                    }
                }
                assert(self.view() =~= old(self).view().insert(k));
            }
        } else {
            assert(self.view() =~= old(self).view().insert(key@));
        }
    }

    pub fn remove(&mut self, key: &str)
        requires
            old(self).wf(),
        ensures
            final(self).wf(),
            final(self).view() == old(self).view().remove(key@),
    {
        let ghost before = self.items@;
        match self.position(key) {
            Some(i) => {
                self.items.remove(i);
                proof {
                    let after = self.items@;
                    assert forall|a: int, b: int| 0 <= a < after.len() && 0 <= b < after.len() && a != b
                        implies after[a]@ != after[b]@ by {
                        let a2 = if a < i { a } else { a + 1 };
                        let b2 = if b < i { b } else { b + 1 };
                        assert(after[a] == before[a2] && after[b] == before[b2]);
                    }
                    assert forall|q: Seq<char>| self.view().contains(q) <==> old(self).view().remove(key@).contains(q) by {
                        if self.view().contains(q) {
                            let j = choose|j: int| 0 <= j < after.len() && after[j]@ == q;
                            let j2 = if j < i { j } else { j + 1 };
                            assert(after[j] == before[j2]);
                        }
                        if old(self).view().contains(q) && q != key@ {
                            let j = choose|j: int| 0 <= j < before.len() && before[j]@ == q;
                            assert(j != i);
                            let j2 = if j < i { j } else { j - 1 };
                            assert(after[j2] == before[j]);
                        }
                    }
                    assert(self.view() =~= old(self).view().remove(key@));
                }
            }
            None => {
                assert(self.view() =~= old(self).view().remove(key@));
            }
        }
    }

    pub fn clear(&mut self)
        ensures
            final(self).wf(),
            final(self).view() == Set::<Seq<char>>::empty(),
    {
        self.items.clear();
        assert(self.view() =~= Set::<Seq<char>>::empty());
    }

    pub fn is_empty(&self) -> (r: bool)
        ensures
            r == (self.view() == Set::<Seq<char>>::empty()),
    {
        if self.items.len() == 0 {
            assert(self.view() =~= Set::<Seq<char>>::empty());
            true
        } else {
            assert(self.view().contains(self.items@[0]@));
            false
        }
    }
}

} // verus!

verus! {

/// The value at `k`, if `m` has one.
pub open spec fn map_get<K, V>(m: Map<K, V>, k: K) -> Option<V> {
    if m.contains_key(k) { Some(m[k]) } else { None }
}

/// The map built by inserting `rows` in order (a later row for the same
/// key replaces an earlier one).
pub open spec fn fold_rows<V>(rows: Seq<(Seq<char>, V)>) -> Map<Seq<char>, V>
    decreases rows.len(),
{
    if rows.len() == 0 {
        Map::empty()
    } else {
        fold_rows(rows.drop_last()).insert(rows.last().0, rows.last().1)
    }
}

} // verus!
