//! What a `git diff` touches, for the fuzzy squash-merge tier: the files it
//! names and its added and removed lines. The similarity scores computed from
//! these sets are floating point and belong to the caller.

use vstd::prelude::*;
use crate::labels::{str_less, str_less_exec, lemma_str_less_order};
use crate::oidset::sort_strings;
use crate::diagnostics::{in_names, lemma_in_names_push, lemma_in_names_same_multiset};
use crate::text::{
    chars_of, first_occurrence, line_ranges, lines, occurs_at, range_starts_with, slice_string, starts_with, str_eq,
    trim, trim_bounds,
};

verus! {

/// What `String::from_utf8_lossy` makes of some bytes.
pub uninterp spec fn lossy_text(bytes: Seq<u8>) -> Seq<char>;

/// `String::from_utf8_lossy`: the bytes as text, each invalid sequence
/// replaced. What is claimed: the text depends on the bytes alone.
#[verifier::external_body]
pub fn utf8_lossy(bytes: &[u8]) -> (s: String)
    ensures
        s@ == lossy_text(bytes@),
{
    String::from_utf8_lossy(bytes).to_string()
}

/// A set of strings, held sorted and without repetition.
pub struct TextSet {
    pub items: Vec<String>,
}

impl TextSet {
    pub open spec fn wf(&self) -> bool {
        forall|i: int, j: int| 0 <= i < j < self.items@.len() ==> str_less(self.items@[i]@, self.items@[j]@)
    }

    pub open spec fn view(&self) -> Set<Seq<char>> {
        Set::new(|k: Seq<char>| in_names(self.items@, k))
    }

    /// The set of the given strings.
    pub fn from_strings(v: Vec<String>) -> (s: Self)
        ensures
            s.wf(),
            forall|k: Seq<char>| #[trigger] s.view().contains(k) <==> in_names(v@, k),
    {
        let ghost before = v@;
        let mut sorted = v;
        sort_strings(&mut sorted);
        proof {
            lemma_in_names_same_multiset(before, sorted@);
        }
        let mut items: Vec<String> = Vec::new();
        let mut i: usize = 0;
        while i < sorted.len()
            invariant
                i <= sorted.len(),
                forall|a: int, b: int| 0 <= a < b < sorted@.len() ==> !str_less(sorted@[b]@, sorted@[a]@),
                forall|a: int, b: int| 0 <= a < b < items@.len() ==> str_less(items@[a]@, items@[b]@),
                items@.len() > 0 ==> i > 0 && items@.last()@ == sorted@[i - 1]@,
                i > 0 ==> items@.len() > 0,
                forall|k: Seq<char>| #[trigger] in_names(items@, k) <==> in_names(sorted@.subrange(0, i as int), k),
            decreases sorted.len() - i,
        {
            let fresh = items.len() == 0 || !str_eq(items[items.len() - 1].as_str(), sorted[i].as_str());
            let ghost before_items = items@;
            proof {
                assert(sorted@.subrange(0, i + 1) =~= sorted@.subrange(0, i as int).push(sorted@[i as int]));
                lemma_in_names_push(sorted@.subrange(0, i as int), sorted@[i as int]);
            }
            if fresh {
                proof {
                    if before_items.len() > 0 {
                        let last = before_items.last()@;
                        assert(!str_less(sorted@[i as int]@, sorted@[i - 1]@));
                        lemma_str_less_order(last, sorted@[i as int]@, last);
                        assert forall|a: int| 0 <= a < before_items.len() implies str_less(before_items[a]@, sorted@[i as int]@) by {
                            if a < before_items.len() - 1 {
                                assert(str_less(before_items[a]@, last));
                                lemma_str_less_order(before_items[a]@, last, sorted@[i as int]@);
                            }
                        }
                    }
                }
                let x = sorted[i].clone();
                items.push(x);
                proof {
                    lemma_in_names_push(before_items, x);
                }
            } else {
                proof {
                    assert(in_names(items@, sorted@[i as int]@)) by {
                        assert(items@[items@.len() - 1]@ == sorted@[i as int]@);
                    }
                }
            }
            i = i + 1;
        }
        proof {
            assert(sorted@.subrange(0, sorted@.len() as int) =~= sorted@);
        }
        TextSet { items }
    }

    pub fn len(&self) -> (n: usize)
        ensures
            n == self.items@.len(),
    {
        self.items.len()
    }

    /// Whether `k` is in the set.
    pub fn contains(&self, k: &str) -> (r: bool)
        requires
            self.wf(),
        ensures
            r == self.view().contains(k@),
    {
        let s = &self.items;
        let mut lo: usize = 0;
        let mut hi: usize = s.len();
        while lo < hi
            invariant
                self.wf(),
                s == &self.items,
                lo <= hi <= s@.len(),
                forall|j: int| 0 <= j < lo ==> str_less(#[trigger] s@[j]@, k@),
                forall|j: int| hi <= j < s@.len() ==> !str_less(#[trigger] s@[j]@, k@),
            decreases hi - lo,
        {
            let mid = lo + (hi - lo) / 2;
            if str_less_exec(s[mid].as_str(), k) {
                proof {
                    assert forall|j: int| 0 <= j < mid + 1 implies str_less(#[trigger] s@[j]@, k@) by {
                        if j < mid {
                            lemma_str_less_order(s@[j]@, s@[mid as int]@, k@);
                        }
                    }
                }
                lo = mid + 1;
            } else {
                proof {
                    assert forall|j: int| mid <= j < s@.len() implies !str_less(#[trigger] s@[j]@, k@) by {
                        if mid < j {
                            lemma_str_less_order(s@[mid as int]@, s@[j]@, k@);
                            lemma_str_less_order(s@[j]@, k@, s@[mid as int]@);
                        }
                    }
                }
                hi = mid;
            }
        }
        let found = lo < s.len() && str_eq(s[lo].as_str(), k);
        proof {
            if self.view().contains(k@) {
                assert(in_names(s@, k@));
                let q = choose|q: int| 0 <= q < s@.len() && s@[q]@ == k@;
                lemma_str_less_order(k@, k@, k@);
                assert(q >= lo);
                if q > lo {
                    lemma_str_less_order(s@[lo as int]@, k@, s@[q]@);
                }
            }
        }
        found
    }
}

/// How many members of `a` (from position `upto` down) `b` holds.
pub open spec fn common_upto(a: Seq<String>, b: Set<Seq<char>>, upto: int) -> nat
    decreases upto,
{
    if upto <= 0 { 0 } else { common_upto(a, b, upto - 1) + if b.contains(a[upto - 1]@) { 1nat } else { 0nat } }
}

/// The number of members the two sets share.
pub fn common_count(a: &TextSet, b: &TextSet) -> (n: usize)
    requires
        b.wf(),
    ensures
        n == common_upto(a.items@, b.view(), a.items@.len() as int),
        n <= a.items@.len(),
{
    let mut n: usize = 0;
    let mut i: usize = 0;
    while i < a.items.len()
        invariant
            b.wf(),
            i <= a.items.len(),
            n == common_upto(a.items@, b.view(), i as int),
            n <= i,
        decreases a.items.len() - i,
    {
        if b.contains(a.items[i].as_str()) {
            n = n + 1;
        }
        i = i + 1;
    }
    n
}

/// The file a `diff --git` header names: what follows its first ` b/`, or the
/// whole rest where there is none.
pub open spec fn header_file(rest: Seq<char>) -> Seq<char> {
    if exists|i: int| first_occurrence(rest, " b/"@, i) {
        let i = choose|i: int| first_occurrence(rest, " b/"@, i);
        rest.subrange(i + 3, rest.len() as int)
    } else {
        rest
    }
}

pub open spec fn diff_header() -> Seq<char> {
    "diff --git "@
}

/// The files the lines of a diff name in their headers.
pub open spec fn is_touched(ls: Seq<Seq<char>>, f: Seq<char>) -> bool {
    exists|k: int| 0 <= k < ls.len() && starts_with(ls[k], diff_header())
        && header_file(ls[k].subrange(diff_header().len() as int, ls[k].len() as int)) == f
}

fn header_file_of(rest: &String, marker: &Vec<char>) -> (f: String)
    requires
        marker@ == " b/"@,
    ensures
        f@ == header_file(rest@),
{
    let rv = chars_of(rest.as_str());
    let _n = rv.len();
    proof {
        crate::text::lemma_first_occurrence_unique(rv@, " b/"@);
        reveal_strlit(" b/");
    }
    match crate::text::find_from(&rv, marker, 0) {
        Some(i) => {
            proof {
                assert(first_occurrence(rv@, " b/"@, i as int));
            }
            slice_string(&rv, i + 3, rv.len())
        },
        None => {
            proof {
                assert forall|i: int| !first_occurrence(rv@, " b/"@, i) by {
                    if 0 <= i { assert(!occurs_at(rv@, " b/"@, i)); }
                }
            }
            rest.clone()
        },
    }
}

/// The files a diff touches, by its `diff --git` headers.
pub fn touched_files(diff: &str) -> (r: TextSet)
    ensures
        r.wf(),
        forall|f: Seq<char>| #[trigger] r.view().contains(f) <==> is_touched(lines(diff@), f),
{
    let s = chars_of(diff);
    let ranges = line_ranges(&s);
    let header = chars_of("diff --git ");
    let marker = chars_of(" b/");
    let ghost ls = lines(diff@);
    let mut files: Vec<String> = Vec::new();
    let mut k: usize = 0;
    while k < ranges.len()
        invariant
            s@ == diff@,
            header@ == diff_header(),
            marker@ == " b/"@,
            ls == lines(diff@),
            ranges@.len() == ls.len(),
            forall|q: int| #![trigger ranges@[q]] 0 <= q < ranges@.len() ==> ranges@[q].0 <= ranges@[q].1 <= s@.len()
                && s@.subrange(ranges@[q].0 as int, ranges@[q].1 as int) == ls[q],
            k <= ranges.len(),
            forall|f: Seq<char>| #[trigger] in_names(files@, f) <==> is_touched(ls.subrange(0, k as int), f),
        decreases ranges.len() - k,
    {
        let (from, to) = ranges[k];
        let ghost l = ls[k as int];
        proof {
            assert(s@.subrange(from as int, to as int) == l);
        }
        let ghost f0 = files@;
        if range_starts_with(&s, from, to, &header) {
            let start = from + header.len();
            let rest = slice_string(&s, start, to);
            let file = header_file_of(&rest, &marker);
            proof {
                let r = l.subrange(diff_header().len() as int, l.len() as int);
                assert(rest@ =~= r);
            }
            files.push(file);
        }
        proof {
            let ls1 = ls.subrange(0, k + 1);
            assert(ls1.subrange(0, k as int) =~= ls.subrange(0, k as int));
            assert forall|f: Seq<char>| #[trigger] in_names(files@, f) <==> is_touched(ls1, f) by {
                if is_touched(ls1, f) {
                    let q = choose|q: int| 0 <= q < ls1.len() && starts_with(ls1[q], diff_header())
                        && header_file(ls1[q].subrange(diff_header().len() as int, ls1[q].len() as int)) == f;
                    if q < k {
                        assert(ls.subrange(0, k as int)[q] == ls1[q]);
                        assert(is_touched(ls.subrange(0, k as int), f));
                        assert(in_names(f0, f));
                        let i = choose|i: int| 0 <= i < f0.len() && f0[i]@ == f;
                        assert(files@[i] == f0[i]);
                    } else {
                        assert(ls1[q] == l);
                        assert(starts_with(l, diff_header()));
                        assert(files@.last()@ == f);
                    }
                }
                if in_names(files@, f) {
                    let i = choose|i: int| 0 <= i < files@.len() && files@[i]@ == f;
                    if i < f0.len() {
                        assert(files@[i] == f0[i]);
                        assert(in_names(f0, f));
                        assert(is_touched(ls.subrange(0, k as int), f));
                        let q = choose|q: int| 0 <= q < k && starts_with(ls.subrange(0, k as int)[q], diff_header())
                            && header_file(ls.subrange(0, k as int)[q].subrange(diff_header().len() as int, ls.subrange(0, k as int)[q].len() as int)) == f;
                        assert(ls1[q] == ls.subrange(0, k as int)[q]);
                    } else {
                        assert(ls1[k as int] == l);
                    }
                }
            }
        }
        k = k + 1;
    }
    proof {
        assert(ls.subrange(0, ls.len() as int) =~= ls);
    }
    TextSet::from_strings(files)
}

/// Whether, after the first `k` lines of a diff, a binary section is open.
pub open spec fn binary_after(ls: Seq<Seq<char>>, k: int) -> bool
    decreases k,
{
    if k <= 0 {
        false
    } else {
        let l = ls[k - 1];
        if starts_with(l, diff_header()) {
            false
        } else if starts_with(l, "GIT binary patch"@) || starts_with(l, "Binary files "@) {
            true
        } else {
            binary_after(ls, k - 1)
        }
    }
}

/// The trimmed content of line `l` when it adds (`sign` is `+`) or removes
/// (`-`) a non-blank line outside a binary section and is no file header.
pub open spec fn line_token(l: Seq<char>, binary: bool, sign: char) -> Option<Seq<char>> {
    if starts_with(l, diff_header()) || starts_with(l, "GIT binary patch"@) || starts_with(l, "Binary files "@)
        || binary || starts_with(l, "+++ "@) || starts_with(l, "--- "@) {
        None
    } else if l.len() > 0 && l[0] == sign {
        let t = trim(l.subrange(1, l.len() as int));
        if t.len() > 0 { Some(t) } else { None }
    } else {
        None
    }
}

/// Some line of the diff adds (or removes) the trimmed content `t`.
pub open spec fn has_token(ls: Seq<Seq<char>>, sign: char, t: Seq<char>) -> bool {
    exists|k: int| 0 <= k < ls.len() && #[trigger] line_token(ls[k], binary_after(ls, k), sign) == Some(t)
}

proof fn lemma_binary_after_prefix(ls: Seq<Seq<char>>, m: int, k: int)
    requires
        0 <= k <= m <= ls.len(),
    ensures
        binary_after(ls.subrange(0, m), k) == binary_after(ls, k),
    decreases k,
{
    if k > 0 {
        lemma_binary_after_prefix(ls, m, k - 1);
        assert(ls.subrange(0, m)[k - 1] == ls[k - 1]);
    }
}

/// The trimmed token of line `s[from..to]` for `sign`, where it has one.
fn token_of(s: &Vec<char>, from: usize, to: usize, binary: bool, sign: char,
    header: &Vec<char>, git_binary: &Vec<char>, binary_files: &Vec<char>, plus3: &Vec<char>, minus3: &Vec<char>) -> (r: Option<String>)
    requires
        from <= to <= s@.len(),
        header@ == diff_header(),
        git_binary@ == "GIT binary patch"@,
        binary_files@ == "Binary files "@,
        plus3@ == "+++ "@,
        minus3@ == "--- "@,
    ensures
        crate::worktree::opt_view(r) == line_token(s@.subrange(from as int, to as int), binary, sign),
{
    if range_starts_with(s, from, to, header) || range_starts_with(s, from, to, git_binary)
        || range_starts_with(s, from, to, binary_files) || binary || range_starts_with(s, from, to, plus3)
        || range_starts_with(s, from, to, minus3) {
        return None;
    }
    if to > from && s[from] == sign {
        let (a, b) = trim_bounds(s, from + 1, to);
        proof {
            let l = s@.subrange(from as int, to as int);
            assert(l.subrange(1, l.len() as int) =~= s@.subrange(from + 1, to as int));
        }
        if b > a {
            Some(slice_string(s, a, b))
        } else {
            None
        }
    } else {
        proof {
            let l = s@.subrange(from as int, to as int);
            if l.len() > 0 { assert(l[0] == s@[from as int]); }
        }
        None
    }
}

/// The non-blank lines a diff adds and removes, trimmed; binary sections
/// and file headers contribute none.
pub fn added_removed_lines(diff: &str) -> (r: (TextSet, TextSet))
    ensures
        r.0.wf() && r.1.wf(),
        forall|t: Seq<char>| #[trigger] r.0.view().contains(t) <==> has_token(lines(diff@), '+', t),
        forall|t: Seq<char>| #[trigger] r.1.view().contains(t) <==> has_token(lines(diff@), '-', t),
{
    let s = chars_of(diff);
    let ranges = line_ranges(&s);
    let header = chars_of("diff --git ");
    let git_binary = chars_of("GIT binary patch");
    let binary_files = chars_of("Binary files ");
    let plus3 = chars_of("+++ ");
    let minus3 = chars_of("--- ");
    let ghost ls = lines(diff@);
    let mut added: Vec<String> = Vec::new();
    let mut removed: Vec<String> = Vec::new();
    let mut binary = false;
    let mut k: usize = 0;
    while k < ranges.len()
        invariant
            s@ == diff@,
            header@ == diff_header(),
            git_binary@ == "GIT binary patch"@,
            binary_files@ == "Binary files "@,
            plus3@ == "+++ "@,
            minus3@ == "--- "@,
            ls == lines(diff@),
            ranges@.len() == ls.len(),
            forall|q: int| #![trigger ranges@[q]] 0 <= q < ranges@.len() ==> ranges@[q].0 <= ranges@[q].1 <= s@.len()
                && s@.subrange(ranges@[q].0 as int, ranges@[q].1 as int) == ls[q],
            k <= ranges.len(),
            binary == binary_after(ls, k as int),
            forall|t: Seq<char>| #[trigger] in_names(added@, t) <==> has_token(ls.subrange(0, k as int), '+', t),
            forall|t: Seq<char>| #[trigger] in_names(removed@, t) <==> has_token(ls.subrange(0, k as int), '-', t),
        decreases ranges.len() - k,
    {
        let (from, to) = ranges[k];
        let ghost l = ls[k as int];
        let ghost a0 = added@;
        let ghost r0 = removed@;
        proof {
            assert(s@.subrange(from as int, to as int) == l);
        }
        let plus = token_of(&s, from, to, binary, '+', &header, &git_binary, &binary_files, &plus3, &minus3);
        let minus = token_of(&s, from, to, binary, '-', &header, &git_binary, &binary_files, &plus3, &minus3);
        if let Some(t) = plus {
            added.push(t);
        }
        if let Some(t) = minus {
            removed.push(t);
        }
        let next_binary = if range_starts_with(&s, from, to, &header) {
            false
        } else if range_starts_with(&s, from, to, &git_binary) || range_starts_with(&s, from, to, &binary_files) {
            true
        } else {
            binary
        };
        proof {
            let ls0 = ls.subrange(0, k as int);
            let ls1 = ls.subrange(0, k + 1);
            assert(ls1.subrange(0, k as int) =~= ls0);
            assert(ls1[k as int] == l);
            assert forall|q: int| 0 <= q <= k implies binary_after(ls1, q) == binary_after(ls, q) by {
                lemma_binary_after_prefix(ls, k + 1, q);
            }
            assert forall|q: int| 0 <= q <= k - 1 implies binary_after(ls0, q) == binary_after(ls, q) by {
                lemma_binary_after_prefix(ls, k as int, q);
            }
            assert forall|t: Seq<char>| #[trigger] has_token(ls1, '+', t)
                <==> (has_token(ls0, '+', t) || line_token(l, binary, '+') == Some(t)) by {
                if has_token(ls1, '+', t) {
                    let q = choose|q: int| 0 <= q < ls1.len() && #[trigger] line_token(ls1[q], binary_after(ls1, q), '+') == Some(t);
                    if q < k {
                        assert(ls0[q] == ls1[q]);
                        assert(line_token(ls0[q], binary_after(ls0, q), '+') == Some(t));
                    }
                }
                if has_token(ls0, '+', t) {
                    let q = choose|q: int| 0 <= q < ls0.len() && #[trigger] line_token(ls0[q], binary_after(ls0, q), '+') == Some(t);
                    assert(ls0[q] == ls1[q]);
                    assert(line_token(ls1[q], binary_after(ls1, q), '+') == Some(t));
                }
                if line_token(l, binary, '+') == Some(t) {
                    assert(line_token(ls1[k as int], binary_after(ls1, k as int), '+') == Some(t));
                }
            }
            assert forall|t: Seq<char>| #[trigger] has_token(ls1, '-', t)
                <==> (has_token(ls0, '-', t) || line_token(l, binary, '-') == Some(t)) by {
                if has_token(ls1, '-', t) {
                    let q = choose|q: int| 0 <= q < ls1.len() && #[trigger] line_token(ls1[q], binary_after(ls1, q), '-') == Some(t);
                    if q < k {
                        assert(ls0[q] == ls1[q]);
                        assert(line_token(ls0[q], binary_after(ls0, q), '-') == Some(t));
                    }
                }
                if has_token(ls0, '-', t) {
                    let q = choose|q: int| 0 <= q < ls0.len() && #[trigger] line_token(ls0[q], binary_after(ls0, q), '-') == Some(t);
                    assert(ls0[q] == ls1[q]);
                    assert(line_token(ls1[q], binary_after(ls1, q), '-') == Some(t));
                }
                if line_token(l, binary, '-') == Some(t) {
                    assert(line_token(ls1[k as int], binary_after(ls1, k as int), '-') == Some(t));
                }
            }
            if plus is Some {
                lemma_in_names_push(a0, plus->0);
            }
            if minus is Some {
                lemma_in_names_push(r0, minus->0);
            }
        }
        binary = next_binary;
        k = k + 1;
    }
    proof {
        assert(ls.subrange(0, ls.len() as int) =~= ls);
    }
    (TextSet::from_strings(added), TextSet::from_strings(removed))
}

/// What the fuzzy tier reads from one diff.
pub struct DiffSummary {
    pub files: TextSet,
    pub added: TextSet,
    pub removed: TextSet,
}

impl DiffSummary {
    pub open spec fn wf(&self) -> bool {
        self.files.wf() && self.added.wf() && self.removed.wf()
    }
}

/// The touched files and the added and removed lines of a raw diff.
pub fn summarize_diff(diff: &[u8]) -> (r: DiffSummary)
    ensures
        r.wf(),
        forall|f: Seq<char>| #[trigger] r.files.view().contains(f) <==> is_touched(lines(lossy_text(diff@)), f),
        forall|t: Seq<char>| #[trigger] r.added.view().contains(t) <==> has_token(lines(lossy_text(diff@)), '+', t),
        forall|t: Seq<char>| #[trigger] r.removed.view().contains(t) <==> has_token(lines(lossy_text(diff@)), '-', t),
{
    let text = utf8_lossy(diff);
    let files = touched_files(text.as_str());
    let (added, removed) = added_removed_lines(text.as_str());
    DiffSummary { files, added, removed }
}

/// Set sizes for comparing two diffs: files in common and in either, tagged
/// line tokens in common and in either, and each diff's token count.
pub struct PairCounts {
    pub common_files: usize,
    pub union_files: usize,
    pub common_tokens: usize,
    pub union_tokens: usize,
    pub tokens_a: usize,
    pub tokens_b: usize,
}

/// The sizes the fuzzy tier compares two diffs by. Added and removed lines
/// are kept apart, so an added line never matches a removed one.
pub fn pair_counts(a: &DiffSummary, b: &DiffSummary) -> (r: PairCounts)
    requires
        a.wf(),
        b.wf(),
        a.files.items@.len() + b.files.items@.len() <= usize::MAX,
        a.added.items@.len() + a.removed.items@.len() + b.added.items@.len() + b.removed.items@.len() <= usize::MAX,
    ensures
        r.common_files == common_upto(a.files.items@, b.files.view(), a.files.items@.len() as int),
        r.union_files == a.files.items@.len() + b.files.items@.len() - r.common_files,
        r.common_tokens == common_upto(a.added.items@, b.added.view(), a.added.items@.len() as int)
            + common_upto(a.removed.items@, b.removed.view(), a.removed.items@.len() as int),
        r.tokens_a == a.added.items@.len() + a.removed.items@.len(),
        r.tokens_b == b.added.items@.len() + b.removed.items@.len(),
        r.union_tokens == r.tokens_a + r.tokens_b - r.common_tokens,
{
    let common_files = common_count(&a.files, &b.files);
    let union_files = a.files.len() + b.files.len() - common_files;
    let ca = common_count(&a.added, &b.added);
    let cr = common_count(&a.removed, &b.removed);
    let tokens_a = a.added.len() + a.removed.len();
    let tokens_b = b.added.len() + b.removed.len();
    let common_tokens = ca + cr;
    PairCounts {
        common_files,
        union_files,
        common_tokens,
        union_tokens: tokens_a + tokens_b - common_tokens,
        tokens_a,
        tokens_b,
    }
}

} // verus!
