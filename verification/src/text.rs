//! Small text utilities over `Seq<char>` views, with the few std calls they
//! rest on.

use vstd::prelude::*;
use vstd::string::StringExecFns;

verus! {

/// Compares two string slices (std's `PartialEq` for `str`: equal exactly
/// when they hold the same characters).
#[verifier::external_body]
pub fn str_eq(a: &str, b: &str) -> (r: bool)
    ensures
        r == (a@ == b@),
{
    a == b
}

/// The characters of `s` in order (std's `str::chars`, collected).
#[verifier::external_body]
pub fn chars_of(s: &str) -> (v: Vec<char>)
    ensures
        v@ == s@,
{
    s.chars().collect()
}

/// The string made of the given characters (std's `FromIterator<char>`).
#[verifier::external_body]
pub fn string_from_chars(v: &[char]) -> (s: String)
    ensures
        s@ == v@,
{
    v.iter().collect()
}

/// An owned copy of `s`.
pub fn to_owned_string(s: &str) -> (r: String)
    ensures
        r@ == s@,
{
    s.to_owned()
}

/// `a` followed by `b`.
pub fn concat2(a: &str, b: &str) -> (r: String)
    ensures
        r@ == a@ + b@,
{
    let mut r = a.to_owned();
    r.append(b);
    r
}

/// `a`, `b` and `c` in order.
pub fn concat3(a: &str, b: &str, c: &str) -> (r: String)
    ensures
        r@ == a@ + b@ + c@,
{
    let ab = concat2(a, b);
    concat2(ab.as_str(), c)
}

/// `a`, `b`, `c` and `d` in order.
pub fn concat4(a: &str, b: &str, c: &str, d: &str) -> (r: String)
    ensures
        r@ == a@ + b@ + c@ + d@,
{
    let abc = concat3(a, b, c);
    concat2(abc.as_str(), d)
}

/// The decimal digit character for `d < 10`.
pub open spec fn digit_char(d: nat) -> char {
    if d == 0 { '0' } else if d == 1 { '1' } else if d == 2 { '2' } else if d == 3 { '3' }
    else if d == 4 { '4' } else if d == 5 { '5' } else if d == 6 { '6' } else if d == 7 { '7' }
    else if d == 8 { '8' } else { '9' }
}

/// Decimal notation of `n`, without leading zeros.
pub open spec fn decimal(n: nat) -> Seq<char>
    decreases n,
{
    if n < 10 {
        seq![digit_char(n)]
    } else {
        decimal(n / 10).push(digit_char(n % 10))
    }
}

pub proof fn lemma_decimal_len(n: nat)
    ensures
        decimal(n).len() >= 1,
        n >= 10 ==> decimal(n).len() >= 2,
    decreases n,
{
    if n >= 10 {
        lemma_decimal_len(n / 10);
    }
}

/// Distinct numbers have distinct decimal notations.
pub proof fn lemma_decimal_injective(a: nat, b: nat)
    requires
        decimal(a) == decimal(b),
    ensures
        a == b,
    decreases a,
{
    lemma_decimal_len(a);
    lemma_decimal_len(b);
    if a < 10 && b < 10 {
        assert(decimal(a)[0] == digit_char(a));
        assert(decimal(b)[0] == digit_char(b));
    } else if a >= 10 && b >= 10 {
        let da = decimal(a);
        let db = decimal(b);
        assert(da.last() == digit_char(a % 10));
        assert(db.last() == digit_char(b % 10));
        assert(da.drop_last() =~= decimal(a / 10));
        assert(db.drop_last() =~= decimal(b / 10));
        lemma_decimal_injective(a / 10, b / 10);
    } else {
        assert(decimal(a).len() != decimal(b).len());
    }
}

/// The lowercase hexadecimal digit character for `d < 16`.
pub open spec fn hex_char(d: nat) -> char {
    if d < 10 { digit_char(d) } else if d == 10 { 'a' } else if d == 11 { 'b' } else if d == 12 { 'c' }
    else if d == 13 { 'd' } else if d == 14 { 'e' } else { 'f' }
}

/// Lowercase hexadecimal notation of `n`, without leading zeros.
pub open spec fn hex(n: nat) -> Seq<char>
    decreases n,
{
    if n < 16 {
        seq![hex_char(n)]
    } else {
        hex(n / 16).push(hex_char(n % 16))
    }
}

fn hex_digit(d: u64) -> (c: char)
    requires
        d < 16,
    ensures
        c == hex_char(d as nat),
{
    if d < 10 { digit(d as u32) } else if d == 10 { 'a' } else if d == 11 { 'b' } else if d == 12 { 'c' }
    else if d == 13 { 'd' } else if d == 14 { 'e' } else { 'f' }
}

fn push_hex(n: u64, out: &mut Vec<char>)
    ensures
        final(out)@ == old(out)@ + hex(n as nat),
    decreases n,
{
    if n >= 16 {
        push_hex(n / 16, out);
    }
    let c = hex_digit(n % 16);
    out.push(c);
    proof {
        if n >= 16 {
            assert(out@ =~= old(out)@ + hex((n / 16) as nat).push(c));
        } else {
            assert(out@ =~= old(out)@ + seq![c]);
        }
    }
}

/// Lowercase hexadecimal notation of `n`.
pub fn hex_string_u64(n: u64) -> (s: String)
    ensures
        s@ == hex(n as nat),
{
    let mut out: Vec<char> = Vec::new();
    push_hex(n, &mut out);
    assert(out@ =~= hex(n as nat));
    string_from_chars(out.as_slice())
}

fn digit(d: u32) -> (c: char)
    requires
        d < 10,
    ensures
        c == digit_char(d as nat),
{
    if d == 0 { '0' } else if d == 1 { '1' } else if d == 2 { '2' } else if d == 3 { '3' }
    else if d == 4 { '4' } else if d == 5 { '5' } else if d == 6 { '6' } else if d == 7 { '7' }
    else if d == 8 { '8' } else { '9' }
}

/// Decimal notation of `n`.
pub fn decimal_string(n: u32) -> (s: String)
    ensures
        s@ == decimal(n as nat),
{
    decimal_string_u64(n as u64)
}

/// Decimal notation of `n`.
pub fn decimal_string_usize(n: usize) -> (s: String)
    ensures
        s@ == decimal(n as nat),
{
    decimal_string_u64(n as u64)
}

/// Decimal notation of `n`.
pub fn decimal_string_u64(n: u64) -> (s: String)
    ensures
        s@ == decimal(n as nat),
{
    let mut rev: Vec<char> = Vec::new();
    let mut m = n;
    // digits are collected least significant first
    while m >= 10
        invariant
            decimal(n as nat) == decimal(m as nat) + rev@.reverse(),
        decreases m,
    {
        let d = digit((m % 10) as u32);
        proof {
            assert(decimal(m as nat) == decimal((m / 10) as nat).push(d));
            assert(rev@.push(d).reverse() =~= seq![d] + rev@.reverse());
            assert(decimal((m / 10) as nat).push(d) + rev@.reverse()
                =~= decimal((m / 10) as nat) + (seq![d] + rev@.reverse()));
        }
        rev.push(d);
        m = m / 10;
    }
    let last = digit(m as u32);
    rev.push(last);
    proof {
        assert(rev@.reverse() =~= seq![last] + rev@.drop_last().reverse());
    }
    let mut out: Vec<char> = Vec::new();
    let mut i = rev.len();
    while i > 0
        invariant
            i <= rev.len(),
            out@ =~= rev@.subrange(i as int, rev.len() as int).reverse(),
        decreases i,
    {
        i = i - 1;
        out.push(rev[i]);
        proof {
            assert(rev@.subrange(i as int, rev.len() as int) =~= seq![rev@[i as int]]
                + rev@.subrange(i + 1, rev.len() as int));
        }
    }
    proof {
        assert(rev@.subrange(0, rev.len() as int) =~= rev@);
    }
    string_from_chars(out.as_slice())
}

/// Whether `s` starts with `p`.
pub open spec fn starts_with(s: Seq<char>, p: Seq<char>) -> bool {
    p.len() <= s.len() && s.subrange(0, p.len() as int) == p
}

/// Whether `p` occurs in `s` at position `i`.
pub open spec fn occurs_at(s: Seq<char>, p: Seq<char>, i: int) -> bool {
    0 <= i && i + p.len() <= s.len() && s.subrange(i, i + p.len()) == p
}

/// Whether `p` occurs anywhere in `s`.
pub open spec fn contains(s: Seq<char>, p: Seq<char>) -> bool {
    exists|i: int| occurs_at(s, p, i)
}

/// Whether `s[i..]` starts with `p`, checked on vectors.
pub fn matches_at(s: &Vec<char>, p: &Vec<char>, i: usize) -> (r: bool)
    ensures
        r == occurs_at(s@, p@, i as int),
{
    if i > s.len() || p.len() > s.len() - i {
        return false;
    }
    let mut j: usize = 0;
    while j < p.len()
        invariant
            i + p.len() <= s.len(),
            j <= p.len(),
            forall|k: int| 0 <= k < j ==> s@[i + k] == p@[k],
        decreases p.len() - j,
    {
        if s[i + j] != p[j] {
            proof {
                assert(s@.subrange(i as int, i + p.len())[j as int] != p@[j as int]);
            }
            return false;
        }
        j = j + 1;
    }
    assert(s@.subrange(i as int, i + p.len()) =~= p@);
    true
}

/// The first position at or after `from` where `p` occurs in `s`.
pub fn find_from(s: &Vec<char>, p: &Vec<char>, from: usize) -> (r: Option<usize>)
    ensures
        match r {
            Some(i) => from <= i && occurs_at(s@, p@, i as int)
                && forall|k: int| from <= k < i ==> !occurs_at(s@, p@, k),
            None => forall|k: int| from <= k ==> !occurs_at(s@, p@, k),
        },
{
    if from > s.len() {
        return None;
    }
    let mut i = from;
    loop
        invariant
            from <= i <= s.len(),
            forall|k: int| from <= k < i ==> !occurs_at(s@, p@, k),
        decreases s.len() - i,
    {
        if matches_at(s, p, i) {
            return Some(i);
        }
        if i == s.len() {
            return None;
        }
        i = i + 1;
    }
}

/// Whether `p` occurs in `s`.
pub fn vec_contains(s: &Vec<char>, p: &Vec<char>) -> (r: bool)
    ensures
        r == contains(s@, p@),
{
    match find_from(s, p, 0) {
        Some(i) => true,
        None => {
            assert forall|k: int| !occurs_at(s@, p@, k) by {
                if k < 0 {} else {}
            }
            false
        }
    }
}

/// Whether `s` starts with `p`, checked on vectors.
pub fn vec_starts_with(s: &Vec<char>, p: &Vec<char>) -> (r: bool)
    ensures
        r == starts_with(s@, p@),
{
    matches_at(s, p, 0)
}

/// ASCII lower-casing of one character.
pub open spec fn lower_char(c: char) -> char {
    if 'A' <= c && c <= 'Z' { ((c as u32) + 32) as char } else { c }
}

/// ASCII lower-casing of a character sequence (std's `to_ascii_lowercase`).
pub open spec fn lower(s: Seq<char>) -> Seq<char> {
    s.map_values(|c: char| lower_char(c))
}

pub fn lower_vec(s: &Vec<char>) -> (r: Vec<char>)
    ensures
        r@ == lower(s@),
{
    let mut r: Vec<char> = Vec::new();
    let mut i: usize = 0;
    while i < s.len()
        invariant
            i <= s.len(),
            r@ =~= lower(s@.subrange(0, i as int)),
        decreases s.len() - i,
    {
        let c = s[i];
        let l = if 'A' <= c && c <= 'Z' { ((c as u8) + 32) as char } else { c };
        r.push(l);
        proof {
            assert(s@.subrange(0, i + 1) =~= s@.subrange(0, i as int).push(c));
        }
        i = i + 1;
    }
    assert(s@.subrange(0, s.len() as int) =~= s@);
    r
}

/// Whether a character is whitespace in the sense of `str::trim`: the
/// Unicode `White_Space` characters.
pub open spec fn is_space(c: char) -> bool {
    let u = c as u32;
    (0x09 <= u && u <= 0x0D) || u == 0x20 || u == 0x85 || u == 0xA0 || u == 0x1680
        || (0x2000 <= u && u <= 0x200A) || u == 0x2028 || u == 0x2029 || u == 0x202F
        || u == 0x205F || u == 0x3000
}

/// Number of leading whitespace characters.
pub open spec fn lead_len(s: Seq<char>) -> nat
    decreases s.len(),
{
    if s.len() > 0 && is_space(s[0]) { 1 + lead_len(s.drop_first()) } else { 0 }
}

/// Number of trailing whitespace characters.
pub open spec fn trail_len(s: Seq<char>) -> nat
    decreases s.len(),
{
    if s.len() > 0 && is_space(s.last()) { 1 + trail_len(s.drop_last()) } else { 0 }
}

/// `s` without leading and trailing whitespace.
pub open spec fn trim(s: Seq<char>) -> Seq<char> {
    let t = s.subrange(lead_len(s) as int, s.len() as int);
    t.subrange(0, t.len() - trail_len(t))
}

pub proof fn lemma_lead_len_bound(s: Seq<char>)
    ensures
        lead_len(s) <= s.len(),
        forall|k: int| 0 <= k < lead_len(s) ==> is_space(#[trigger] s[k]),
        lead_len(s) < s.len() ==> !is_space(s[lead_len(s) as int]),
    decreases s.len(),
{
    if s.len() > 0 && is_space(s[0]) {
        lemma_lead_len_bound(s.drop_first());
        assert forall|k: int| 0 <= k < lead_len(s) implies is_space(#[trigger] s[k]) by {
            if k > 0 {
                assert(s[k] == s.drop_first()[k - 1]);
            }
        }
    }
}

pub proof fn lemma_trail_len_bound(s: Seq<char>)
    ensures
        trail_len(s) <= s.len(),
        forall|k: int| s.len() - trail_len(s) <= k < s.len() ==> is_space(#[trigger] s[k]),
        trail_len(s) < s.len() ==> !is_space(s[s.len() - trail_len(s) - 1]),
    decreases s.len(),
{
    if s.len() > 0 && is_space(s.last()) {
        lemma_trail_len_bound(s.drop_last());
        assert forall|k: int| s.len() - trail_len(s) <= k < s.len() implies is_space(#[trigger] s[k]) by {
            if k < s.len() - 1 {
                assert(s[k] == s.drop_last()[k]);
            }
        }
    }
}

/// Trimming twice trims no more than once.
pub proof fn lemma_trim_idempotent(s: Seq<char>)
    ensures
        trim(trim(s)) == trim(s),
{
    let t = s.subrange(lead_len(s) as int, s.len() as int);
    let r = trim(s);
    lemma_lead_len_bound(s);
    lemma_trail_len_bound(t);
    if r.len() == 0 {
        assert(trim(r) =~= r);
    } else {
        assert(r[0] == t[0]);
        assert(t[0] == s[lead_len(s) as int]);
        assert(r.last() == t[t.len() - trail_len(t) - 1]);
        assert(lead_len(r) == 0);
        assert(trail_len(r) == 0);
        assert(trim(r) =~= r);
    }
}

pub fn is_space_exec(c: char) -> (b: bool)
    ensures
        b == is_space(c),
{
    let u = c as u32;
    (0x09 <= u && u <= 0x0D) || u == 0x20 || u == 0x85 || u == 0xA0 || u == 0x1680
        || (0x2000 <= u && u <= 0x200A) || u == 0x2028 || u == 0x2029 || u == 0x202F
        || u == 0x205F || u == 0x3000
}

/// The bounds `[start, end)` of `s[from..to]` once trimmed.
pub fn trim_bounds(s: &Vec<char>, from: usize, to: usize) -> (r: (usize, usize))
    requires
        from <= to <= s.len(),
    ensures
        from <= r.0 <= r.1 <= to,
        s@.subrange(r.0 as int, r.1 as int) == trim(s@.subrange(from as int, to as int)),
{
    let ghost w = s@.subrange(from as int, to as int);
    assert(w.subrange(0, w.len() as int) =~= w);
    let mut a = from;
    while a < to && is_space_exec(s[a])
        invariant
            from <= a <= to <= s.len(),
            w == s@.subrange(from as int, to as int),
            lead_len(w) >= a - from,
            lead_len(w.subrange(a - from, w.len() as int)) == lead_len(w) - (a - from),
        decreases to - a,
    {
        proof {
            let rest = w.subrange(a - from, w.len() as int);
            assert(rest[0] == s@[a as int]);
            assert(rest.drop_first() =~= w.subrange(a - from + 1, w.len() as int));
        }
        a = a + 1;
    }
    proof {
        let rest = w.subrange(a - from, w.len() as int);
        if a < to {
            assert(rest[0] == s@[a as int]);
        }
        assert(lead_len(rest) == 0);
    }
    let ghost t = w.subrange(lead_len(w) as int, w.len() as int);
    assert(t =~= s@.subrange(a as int, to as int));
    assert(t.subrange(0, t.len() as int) =~= t);
    let mut b = to;
    while b > a && is_space_exec(s[b - 1])
        invariant
            from <= a <= b <= to <= s.len(),
            t == s@.subrange(a as int, to as int),
            trail_len(t) >= to - b,
            trail_len(t.subrange(0, t.len() - (to - b))) == trail_len(t) - (to - b),
        decreases b - a,
    {
        proof {
            let rest = t.subrange(0, t.len() - (to - b));
            assert(rest.last() == s@[b - 1]);
            assert(rest.drop_last() =~= t.subrange(0, t.len() - (to - b) - 1));
        }
        b = b - 1;
    }
    proof {
        let rest = t.subrange(0, t.len() - (to - b));
        if b > a {
            assert(rest.last() == s@[b - 1]);
        }
        assert(trail_len(rest) == 0);
        assert(s@.subrange(a as int, b as int) =~= t.subrange(0, t.len() - trail_len(t)));
    }
    (a, b)
}

/// Copy of `s[from..to]` as a string.
pub fn slice_string(s: &Vec<char>, from: usize, to: usize) -> (r: String)
    requires
        from <= to <= s.len(),
    ensures
        r@ == s@.subrange(from as int, to as int),
{
    let mut v: Vec<char> = Vec::new();
    let mut i = from;
    while i < to
        invariant
            from <= i <= to <= s.len(),
            v@ =~= s@.subrange(from as int, i as int),
        decreases to - i,
    {
        v.push(s[i]);
        i = i + 1;
    }
    string_from_chars(v.as_slice())
}

/// Copy of `s[from..to]` as a character vector.
pub fn slice_vec(s: &Vec<char>, from: usize, to: usize) -> (v: Vec<char>)
    requires
        from <= to <= s.len(),
    ensures
        v@ == s@.subrange(from as int, to as int),
{
    let mut v: Vec<char> = Vec::new();
    let mut i = from;
    while i < to
        invariant
            from <= i <= to <= s.len(),
            v@ =~= s@.subrange(from as int, i as int),
        decreases to - i,
    {
        v.push(s[i]);
        i = i + 1;
    }
    v
}


/// The pieces of `s` between occurrences of `sep` (std's `str::split` on a
/// character): one more piece than there are separators.
pub open spec fn split_on(s: Seq<char>, sep: char) -> Seq<Seq<char>>
    decreases s.len(),
{
    if s.len() == 0 {
        seq![Seq::<char>::empty()]
    } else {
        let p = split_on(s.drop_last(), sep);
        if s.last() == sep {
            p.push(Seq::<char>::empty())
        } else {
            p.update(p.len() - 1, p.last().push(s.last()))
        }
    }
}

pub proof fn lemma_split_on_len(s: Seq<char>, sep: char)
    ensures
        split_on(s, sep).len() >= 1,
    decreases s.len(),
{
    if s.len() > 0 {
        lemma_split_on_len(s.drop_last(), sep);
    }
}

/// A line that ended in a line feed, without a carriage return before it.
pub open spec fn strip_cr(l: Seq<char>) -> Seq<char> {
    if l.len() > 0 && l.last() == '\r' { l.drop_last() } else { l }
}

/// The lines of `s` (std's `str::lines`): split at line feeds, a carriage
/// return before a line feed dropped, and no empty line after a final line
/// feed.
pub open spec fn lines(s: Seq<char>) -> Seq<Seq<char>> {
    let p = split_on(s, '\n');
    let body = p.drop_last().map_values(|l: Seq<char>| strip_cr(l));
    if p.last().len() == 0 { body } else { body.push(p.last()) }
}

/// The bounds of each line of `s`, in order.
pub fn line_ranges(s: &Vec<char>) -> (r: Vec<(usize, usize)>)
    ensures
        r@.len() == lines(s@).len(),
        forall|k: int| #![trigger r@[k]] 0 <= k < r@.len() ==> r@[k].0 <= r@[k].1 <= s@.len()
            && s@.subrange(r@[k].0 as int, r@[k].1 as int) == lines(s@)[k],
{
    let mut r: Vec<(usize, usize)> = Vec::new();
    let mut start: usize = 0;
    let mut i: usize = 0;
    let ghost mut pieces: Seq<Seq<char>> = seq![Seq::<char>::empty()];
    while i < s.len()
        invariant
            start <= i <= s.len(),
            pieces == split_on(s@.subrange(0, i as int), '\n'),
            pieces.len() == r@.len() + 1,
            pieces.last() == s@.subrange(start as int, i as int),
            forall|k: int| #![trigger r@[k]] 0 <= k < r@.len() ==> r@[k].0 <= r@[k].1 <= s@.len()
                && s@.subrange(r@[k].0 as int, r@[k].1 as int) == strip_cr(pieces[k]),
        decreases s.len() - i,
    {
        let c = s[i];
        proof {
            assert(s@.subrange(0, i + 1).drop_last() =~= s@.subrange(0, i as int));
            assert(s@.subrange(0, i + 1).last() == c);
        }
        if c == '\n' {
            let end = if i > start && s[i - 1] == '\r' { i - 1 } else { i };
            proof {
                let l = s@.subrange(start as int, i as int);
                if i > start && s@[i - 1] == '\r' {
                    assert(l.drop_last() =~= s@.subrange(start as int, end as int));
                }
                assert(strip_cr(l) =~= s@.subrange(start as int, end as int));
                let np = pieces.push(Seq::<char>::empty());
                assert forall|k: int| 0 <= k < r@.len() implies np[k] == pieces[k] by {}
                pieces = np;
            }
            let ghost r0 = r@;
            r.push((start, end));
            proof {
                assert forall|k: int| #![trigger r@[k]] 0 <= k < r@.len() implies r@[k].0 <= r@[k].1 <= s@.len()
                    && s@.subrange(r@[k].0 as int, r@[k].1 as int) == strip_cr(pieces[k]) by {
                    if k < r0.len() {
                        assert(r@[k] == r0[k]);
                        assert(r0[k].0 <= r0[k].1 <= s@.len());
                    } else {
                        assert(r@[k] == (start, end));
                    }
                }
            }
            start = i + 1;
            proof {
                assert(s@.subrange(start as int, i + 1) =~= Seq::<char>::empty());
            }
        } else {
            proof {
                let np = pieces.update(pieces.len() - 1, pieces.last().push(c));
                assert(np.last() =~= s@.subrange(start as int, i + 1));
                assert forall|k: int| 0 <= k < r@.len() implies np[k] == pieces[k] by {}
                pieces = np;
            }
        }
        i = i + 1;
    }
    proof {
        assert(s@.subrange(0, s.len() as int) =~= s@);
    }
    let ghost r0 = r@;
    let ghost body = pieces.drop_last().map_values(|l: Seq<char>| strip_cr(l));
    if start < s.len() {
        r.push((start, s.len()));
        proof {
            assert(lines(s@) == body.push(pieces.last()));
            assert forall|k: int| #![trigger r@[k]] 0 <= k < r@.len() implies r@[k].0 <= r@[k].1 <= s@.len()
                && s@.subrange(r@[k].0 as int, r@[k].1 as int) == lines(s@)[k] by {
                if k < r0.len() {
                    assert(r@[k] == r0[k]);
                    assert(body[k] == strip_cr(pieces[k]));
                } else {
                    assert(r@[k] == (start, s.len()));
                }
            }
        }
    } else {
        proof {
            assert(pieces.last().len() == 0);
            assert(lines(s@) == body);
            assert forall|k: int| #![trigger r@[k]] 0 <= k < r@.len() implies r@[k].0 <= r@[k].1 <= s@.len()
                && s@.subrange(r@[k].0 as int, r@[k].1 as int) == lines(s@)[k] by {
                assert(body[k] == strip_cr(pieces[k]));
            }
        }
    }
    r
}

/// Whether `s[from..to]` begins with `p`.
pub fn range_starts_with(s: &Vec<char>, from: usize, to: usize, p: &Vec<char>) -> (b: bool)
    requires
        from <= to <= s.len(),
    ensures
        b == starts_with(s@.subrange(from as int, to as int), p@),
{
    if to - from < p.len() {
        return false;
    }
    let mut k: usize = 0;
    while k < p.len()
        invariant
            from <= to <= s.len(),
            p.len() <= to - from,
            k <= p.len(),
            forall|j: int| 0 <= j < k ==> s@[from + j] == p@[j],
        decreases p.len() - k,
    {
        if s[from + k] != p[k] {
            assert(s@.subrange(from as int, to as int)[k as int] == s@[from + k]);
            return false;
        }
        k = k + 1;
    }
    assert(s@.subrange(from as int, to as int).subrange(0, p@.len() as int) =~= p@);
    true
}

/// Whether `s[from..to]` is exactly `p`.
pub fn range_equals(s: &Vec<char>, from: usize, to: usize, p: &Vec<char>) -> (b: bool)
    requires
        from <= to <= s.len(),
    ensures
        b == (s@.subrange(from as int, to as int) == p@),
{
    if to - from != p.len() {
        return false;
    }
    let b = range_starts_with(s, from, to, p);
    proof {
        let w = s@.subrange(from as int, to as int);
        assert(w.subrange(0, p@.len() as int) =~= w);
    }
    b
}


/// `i` is the first position where `p` occurs in `s`.
pub open spec fn first_occurrence(s: Seq<char>, p: Seq<char>, i: int) -> bool {
    occurs_at(s, p, i) && forall|k: int| 0 <= k < i ==> !occurs_at(s, p, k)
}

pub proof fn lemma_first_occurrence_unique(s: Seq<char>, p: Seq<char>)
    ensures
        forall|i: int, j: int| first_occurrence(s, p, i) && first_occurrence(s, p, j) ==> i == j,
{
    assert forall|i: int, j: int| first_occurrence(s, p, i) && first_occurrence(s, p, j) implies i == j by {
        if i < j {
            assert(!occurs_at(s, p, i));
        } else if j < i {
            assert(!occurs_at(s, p, j));
        }
    }
}

/// `j` is the first position of `c` in `s`.
pub open spec fn first_char_at(s: Seq<char>, c: char, j: int) -> bool {
    0 <= j < s.len() && s[j] == c && forall|k: int| 0 <= k < j ==> s[k] != c
}

pub proof fn lemma_first_char_unique(s: Seq<char>, c: char)
    ensures
        forall|i: int, j: int| first_char_at(s, c, i) && first_char_at(s, c, j) ==> i == j,
{
    assert forall|i: int, j: int| first_char_at(s, c, i) && first_char_at(s, c, j) implies i == j by {
        if i < j {
            assert(s[i] != c);
        } else if j < i {
            assert(s[j] != c);
        }
    }
}

/// The first position at or after `from` holding `c`.
pub fn find_char(s: &Vec<char>, c: char, from: usize) -> (r: Option<usize>)
    ensures
        match r {
            Some(j) => from <= j < s@.len() && s@[j as int] == c && forall|k: int| from <= k < j ==> s@[k] != c,
            None => forall|k: int| from <= k < s@.len() ==> s@[k] != c,
        },
{
    if from >= s.len() {
        return None;
    }
    let mut j = from;
    while j < s.len()
        invariant
            from <= j,
            forall|k: int| from <= k < j ==> s@[k] != c,
        decreases s.len() - j,
    {
        if s[j] == c {
            return Some(j);
        }
        j = j + 1;
    }
    None
}


/// Whether `s` ends with `suffix`.
pub fn ends_with_exec(s: &str, suffix: &str) -> (b: bool)
    ensures
        b == (s@.len() >= suffix@.len() && s@.subrange(s@.len() - suffix@.len(), s@.len() as int) == suffix@),
{
    let v = chars_of(s);
    let p = chars_of(suffix);
    if v.len() < p.len() {
        return false;
    }
    range_equals(&v, v.len() - p.len(), v.len(), &p)
}

/// The first position of `c` in `s[from..to]`.
pub fn find_char_in(s: &Vec<char>, c: char, from: usize, to: usize) -> (r: Option<usize>)
    requires
        from <= to <= s@.len(),
    ensures
        match r {
            Some(j) => from <= j < to && first_char_at(s@.subrange(from as int, to as int), c, j - from),
            None => forall|k: int| from <= k < to ==> s@[k] != c,
        },
{
    let mut j = from;
    while j < to
        invariant
            from <= j <= to <= s@.len(),
            forall|k: int| from <= k < j ==> s@[k] != c,
        decreases to - j,
    {
        if s[j] == c {
            proof {
                let l = s@.subrange(from as int, to as int);
                assert forall|k: int| 0 <= k < j - from implies l[k] != c by {
                    assert(l[k] == s@[from + k]);
                }
            }
            return Some(j);
        }
        j = j + 1;
    }
    None
}

/// `c` is an ASCII decimal digit.
pub open spec fn is_digit(c: char) -> bool {
    '0' <= c && c <= '9'
}

/// The value of the decimal digits `s`.
pub open spec fn digits_value(s: Seq<char>) -> int
    decreases s.len(),
{
    if s.len() == 0 {
        0
    } else {
        digits_value(s.drop_last()) * 10 + (s.last() as int - '0' as int)
    }
}

/// `s` is made of decimal digits only.
pub open spec fn all_digits(s: Seq<char>) -> bool {
    forall|i: int| 0 <= i < s.len() ==> is_digit(#[trigger] s[i])
}

/// `s` starts with a sign.
pub open spec fn signed(s: Seq<char>) -> bool {
    s.len() > 0 && (s[0] == '-' || s[0] == '+')
}

/// `s` without its leading sign, if any.
pub open spec fn unsigned_part(s: Seq<char>) -> Seq<char> {
    if signed(s) { s.drop_first() } else { s }
}

/// The integer that `s` spells, as `str::parse::<i64>` reads it: an
/// optional sign, then at least one decimal digit and nothing else, within
/// the range of `i64`.
pub open spec fn i64_of(s: Seq<char>) -> Option<int> {
    let ds = unsigned_part(s);
    let v = if s.len() > 0 && s[0] == '-' { -digits_value(ds) } else { digits_value(ds) };
    if ds.len() == 0 || !all_digits(ds) {
        None
    } else if i64::MIN <= v && v <= i64::MAX {
        Some(v)
    } else {
        None
    }
}

proof fn lemma_digits_value_grows(s: Seq<char>, k: int)
    requires
        0 <= k <= s.len(),
        forall|i: int| 0 <= i < s.len() ==> is_digit(#[trigger] s[i]),
    ensures
        digits_value(s) >= digits_value(s.subrange(0, k)),
        digits_value(s.subrange(0, k)) >= 0,
    decreases s.len(),
{
    if s.len() == k {
        assert(s.subrange(0, k) =~= s);
        if s.len() > 0 {
            lemma_digits_value_grows(s.drop_last(), k - 1);
            assert(s.drop_last().subrange(0, k - 1) =~= s.drop_last());
        }
    } else {
        lemma_digits_value_grows(s.drop_last(), k);
        assert(s.drop_last().subrange(0, k) =~= s.subrange(0, k));
        lemma_digits_value_grows(s.drop_last(), s.len() - 1);
        assert(s.drop_last().subrange(0, s.len() - 1) =~= s.drop_last());
    }
}

/// The integer `s` spells, if any (see [`i64_of`]).
pub fn parse_i64(s: &str) -> (r: Option<i64>)
    ensures
        match i64_of(s@) {
            Some(v) => r == Some(v as i64),
            None => r is None,
        },
{
    let cs = chars_of(s);
    let n = cs.len();
    let signed = n > 0 && (cs[0] == '-' || cs[0] == '+');
    let neg = n > 0 && cs[0] == '-';
    let start: usize = if signed { 1 } else { 0 };
    let ghost ds = unsigned_part(cs@);
    assert(ds =~= cs@.subrange(start as int, n as int));
    if start == n {
        return None;
    }
    let mut acc: u64 = 0;
    let mut i: usize = start;
    while i < n
        invariant
            start <= i <= n,
            n == cs@.len(),
            ds =~= cs@.subrange(start as int, n as int),
            ds == unsigned_part(cs@),
            cs@ == s@,
            forall|k: int| start <= k < i ==> is_digit(#[trigger] cs@[k]),
            acc as int == digits_value(cs@.subrange(start as int, i as int)),
            acc <= 9223372036854775808u64,
        decreases n - i,
    {
        let c = cs[i];
        if !(c >= '0' && c <= '9') {
            assert(!is_digit(ds[i - start]));
            return None;
        }
        let d = (c as u32 - '0' as u32) as u64;
        assert(cs@.subrange(start as int, i + 1).drop_last() =~= cs@.subrange(start as int, i as int));
        if acc > (9223372036854775808u64 - d) / 10 {
            proof {
                if all_digits(ds) {
                    lemma_digits_value_grows(ds, i + 1 - start);
                    assert(ds.subrange(0, i + 1 - start) =~= cs@.subrange(start as int, i + 1));
                    assert(digits_value(ds) > 9223372036854775808);
                }
            }
            return None;
        }
        acc = acc * 10 + d;
        i = i + 1;
    }
    assert(cs@.subrange(start as int, n as int) =~= ds);
    if neg {
        if acc == 9223372036854775808u64 {
            Some(i64::MIN)
        } else {
            Some(-(acc as i64))
        }
    } else if acc > 9223372036854775807u64 {
        None
    } else {
        Some(acc as i64)
    }
}

} // verus!
