//! Working-tree status of a checkout, as read from `git status --porcelain=v2`.

use vstd::prelude::*;
use crate::text::{chars_of, find_char_in, first_char_at, lemma_first_char_unique, line_ranges, lines, slice_string};

verus! {

/// Which side of the working tree a changed file is on.
#[derive(Debug, Clone, Copy, PartialEq, Eq, Structural)]
pub enum ChangedFileKind {
    Staged,
    Modified,
    Untracked,
}

/// A changed path and the side it changed on.
#[derive(Debug)]
pub struct ChangedFile {
    pub path: String,
    pub kind: ChangedFileKind,
}

/// Summary of uncommitted changes in a checkout.
#[derive(Debug)]
pub struct WorkingTreeStatus {
    pub has_staged: bool,
    pub has_modified: bool,
    pub has_untracked: bool,
    pub changed_files: Vec<ChangedFile>,
}

/// A status with no changes.
pub open spec fn is_clean_status(s: WorkingTreeStatus) -> bool {
    !s.has_staged && !s.has_modified && !s.has_untracked && s.changed_files@.len() == 0
}

impl WorkingTreeStatus {
    /// The status of a checkout without changes.
    pub fn clean() -> (s: Self)
        ensures
            is_clean_status(s),
    {
        WorkingTreeStatus { has_staged: false, has_modified: false, has_untracked: false, changed_files: Vec::new() }
    }

    /// Whether nothing is staged, modified or untracked.
    pub fn is_clean(&self) -> (b: bool)
        ensures
            b == (!self.has_staged && !self.has_modified && !self.has_untracked),
    {
        !self.has_staged && !self.has_modified && !self.has_untracked
    }
}

/// The first position of `c` in `s`, if any.
pub open spec fn first_of(s: Seq<char>, c: char) -> Option<int> {
    if exists|j: int| first_char_at(s, c, j) {
        Some(choose|j: int| first_char_at(s, c, j))
    } else {
        None
    }
}

/// The last piece of `s` split at no more than `k` spaces (std's
/// `splitn(k + 1, ' ').last()`).
pub open spec fn after_spaces(s: Seq<char>, k: nat) -> Seq<char>
    decreases k,
{
    if k == 0 {
        s
    } else {
        match first_of(s, ' ') {
            Some(j) => after_spaces(s.subrange(j + 1, s.len() as int), (k - 1) as nat),
            None => s,
        }
    }
}

/// `s` up to its first tab.
pub open spec fn before_tab(s: Seq<char>) -> Seq<char> {
    match first_of(s, '\t') {
        Some(j) => s.subrange(0, j),
        None => s,
    }
}

/// The changed files one line of `git status --porcelain=v2` reports:
/// ordinary (`1`) and renamed or copied (`2`) entries by their index and
/// work-tree columns, unmerged (`u`) entries on both sides, untracked (`?`)
/// entries, and nothing for any other line.
pub open spec fn line_entries(l: Seq<char>) -> Seq<(Seq<char>, ChangedFileKind)> {
    match first_of(l, ' ') {
        None => Seq::empty(),
        Some(j) => {
            let head = l.subrange(0, j);
            let rest = l.subrange(j + 1, l.len() as int);
            if head == "1"@ || head == "2"@ {
                match first_of(rest, ' ') {
                    None => Seq::empty(),
                    Some(a) => {
                        let xy = rest.subrange(0, a);
                        let fields = rest.subrange(a + 1, rest.len() as int);
                        let x = if xy.len() > 0 { xy[0] } else { '.' };
                        let y = if xy.len() > 1 { xy[1] } else { '.' };
                        let k: nat = if head == "2"@ { 7 } else { 6 };
                        let path = before_tab(after_spaces(fields, k));
                        (if x != '.' { seq![(path, ChangedFileKind::Staged)] } else { Seq::empty() })
                            + (if y != '.' { seq![(path, ChangedFileKind::Modified)] } else { Seq::empty() })
                    },
                }
            } else if head == "u"@ {
                match first_of(rest, ' ') {
                    None => Seq::empty(),
                    Some(a) => {
                        let path = after_spaces(rest.subrange(a + 1, rest.len() as int), 8);
                        seq![(path, ChangedFileKind::Staged), (path, ChangedFileKind::Modified)]
                    },
                }
            } else if head == "?"@ {
                seq![(rest, ChangedFileKind::Untracked)]
            } else {
                Seq::empty()
            }
        },
    }
}

/// The changed files of the first `k` lines.
pub open spec fn entries_upto(ls: Seq<Seq<char>>, k: int) -> Seq<(Seq<char>, ChangedFileKind)>
    decreases k,
{
    if k <= 0 { Seq::empty() } else { entries_upto(ls, k - 1) + line_entries(ls[k - 1]) }
}

pub open spec fn file_view(f: ChangedFile) -> (Seq<char>, ChangedFileKind) {
    (f.path@, f.kind)
}

pub open spec fn has_kind(es: Seq<(Seq<char>, ChangedFileKind)>, k: ChangedFileKind) -> bool {
    exists|i: int| 0 <= i < es.len() && (#[trigger] es[i]).1 == k
}

/// `st` is the status the porcelain output `out` reports.
pub open spec fn status_of(out: Seq<char>, st: WorkingTreeStatus) -> bool {
    let es = entries_upto(lines(out), lines(out).len() as int);
    &&& st.changed_files@.map_values(|f: ChangedFile| file_view(f)) == es
    &&& st.has_staged == has_kind(es, ChangedFileKind::Staged)
    &&& st.has_modified == has_kind(es, ChangedFileKind::Modified)
    &&& st.has_untracked == has_kind(es, ChangedFileKind::Untracked)
}

fn first_of_in(s: &Vec<char>, c: char, from: usize, to: usize) -> (r: Option<usize>)
    requires
        from <= to <= s@.len(),
    ensures
        match first_of(s@.subrange(from as int, to as int), c) {
            Some(j) => r == Some((from + j) as usize),
            None => r is None,
        },
{
    let ghost l = s@.subrange(from as int, to as int);
    proof {
        lemma_first_char_unique(l, c);
    }
    let r = find_char_in(s, c, from, to);
    proof {
        if r is None {
            assert forall|q: int| !first_char_at(l, c, q) by {
                if 0 <= q < l.len() {
                    assert(l[q] == s@[from + q]);
                }
            }
        }
    }
    r
}

/// Where the last piece of `s[from..to]` split at `k` spaces starts.
fn after_spaces_at(s: &Vec<char>, from: usize, to: usize, k: usize) -> (r: usize)
    requires
        from <= to <= s@.len(),
    ensures
        from <= r <= to,
        s@.subrange(r as int, to as int) == after_spaces(s@.subrange(from as int, to as int), k as nat),
    decreases k,
{
    if k == 0 {
        return from;
    }
    match first_of_in(s, ' ', from, to) {
        Some(j) => {
            proof {
                assert(s@.subrange(from as int, to as int).subrange(j - from + 1, to - from) =~= s@.subrange(j + 1, to as int));
            }
            after_spaces_at(s, j + 1, to, k - 1)
        },
        None => from,
    }
}

/// Where `s[from..to]` up to its first tab ends.
fn before_tab_at(s: &Vec<char>, from: usize, to: usize) -> (r: usize)
    requires
        from <= to <= s@.len(),
    ensures
        from <= r <= to,
        s@.subrange(from as int, r as int) == before_tab(s@.subrange(from as int, to as int)),
{
    match first_of_in(s, '\t', from, to) {
        Some(j) => {
            assert(s@.subrange(from as int, to as int).subrange(0, j - from) =~= s@.subrange(from as int, j as int));
            j
        },
        None => {
            assert(s@.subrange(from as int, to as int) =~= s@.subrange(from as int, to as int));
            to
        },
    }
}

fn push_file(files: &mut Vec<ChangedFile>, s: &Vec<char>, from: usize, to: usize, kind: ChangedFileKind)
    requires
        from <= to <= s@.len(),
    ensures
        final(files)@.map_values(|f: ChangedFile| file_view(f))
            == old(files)@.map_values(|f: ChangedFile| file_view(f)).push((s@.subrange(from as int, to as int), kind)),
{
    let ghost before = files@;
    files.push(ChangedFile { path: slice_string(s, from, to), kind });
    proof {
        assert(files@.map_values(|f: ChangedFile| file_view(f))
            =~= before.map_values(|f: ChangedFile| file_view(f)).push((s@.subrange(from as int, to as int), kind)));
    }
}

proof fn lemma_one_char(head: Seq<char>, lit: Seq<char>)
    requires
        lit.len() == 1,
    ensures
        (head == lit) == (head.len() == 1 && head[0] == lit[0]),
{
    if head.len() == 1 && head[0] == lit[0] {
        assert(head =~= lit);
    }
}

/// Appends the changed files of line `s[from..to]`.
fn read_status_line(files: &mut Vec<ChangedFile>, s: &Vec<char>, from: usize, to: usize)
    requires
        from <= to <= s@.len(),
    ensures
        final(files)@.map_values(|f: ChangedFile| file_view(f))
            == old(files)@.map_values(|f: ChangedFile| file_view(f)) + line_entries(s@.subrange(from as int, to as int)),
{
    let ghost l = s@.subrange(from as int, to as int);
    let ghost before = files@.map_values(|f: ChangedFile| file_view(f));
    let j = match first_of_in(s, ' ', from, to) {
        None => {
            assert(before + line_entries(l) =~= before);
            return;
        },
        Some(j) => j,
    };
    let ghost rest = l.subrange(j - from + 1, l.len() as int);
    proof {
        assert(rest =~= s@.subrange(j + 1, to as int));
        assert(l.subrange(0, j - from) =~= s@.subrange(from as int, j as int));
    }
    let head_len = j - from;
    let c0 = s[from];
    let one_or_two = head_len == 1 && (c0 == '1' || c0 == '2');
    let unmerged = head_len == 1 && c0 == 'u';
    let untracked = head_len == 1 && c0 == '?';
    proof {
        let head = s@.subrange(from as int, j as int);
        if head_len == 1 {
            assert(head[0] == c0);
        }
        reveal_strlit("1");
        reveal_strlit("2");
        reveal_strlit("u");
        reveal_strlit("?");
        lemma_one_char(head, "1"@);
        lemma_one_char(head, "2"@);
        lemma_one_char(head, "u"@);
        lemma_one_char(head, "?"@);
    }
    if one_or_two {
        let a = match first_of_in(s, ' ', j + 1, to) {
            None => {
                assert(before + line_entries(l) =~= before);
                return;
            },
            Some(a) => a,
        };
        let x = if a > j + 1 { s[j + 1] } else { '.' };
        let y = if a > j + 2 { s[j + 2] } else { '.' };
        let k: usize = if c0 == '2' { 7 } else { 6 };
        let p = after_spaces_at(s, a + 1, to, k);
        let e = before_tab_at(s, p, to);
        proof {
            assert(rest.subrange(0, a - j - 1) =~= s@.subrange(j + 1, a as int));
            assert(rest.subrange(a - j, rest.len() as int) =~= s@.subrange(a + 1, to as int));
        }
        if x != '.' {
            push_file(files, s, p, e, ChangedFileKind::Staged);
        }
        if y != '.' {
            push_file(files, s, p, e, ChangedFileKind::Modified);
        }
        proof {
            let path = s@.subrange(p as int, e as int);
            let st: Seq<(Seq<char>, ChangedFileKind)> = if x != '.' { seq![(path, ChangedFileKind::Staged)] } else { Seq::empty() };
            let md: Seq<(Seq<char>, ChangedFileKind)> = if y != '.' { seq![(path, ChangedFileKind::Modified)] } else { Seq::empty() };
            assert(line_entries(l) == st + md);
            assert(files@.map_values(|f: ChangedFile| file_view(f)) =~= before + (st + md));
        }
    } else if unmerged {
        let a = match first_of_in(s, ' ', j + 1, to) {
            None => {
                assert(before + line_entries(l) =~= before);
                return;
            },
            Some(a) => a,
        };
        let p = after_spaces_at(s, a + 1, to, 8);
        proof {
            assert(rest.subrange(a - j, rest.len() as int) =~= s@.subrange(a + 1, to as int));
        }
        push_file(files, s, p, to, ChangedFileKind::Staged);
        push_file(files, s, p, to, ChangedFileKind::Modified);
        proof {
            let path = s@.subrange(p as int, to as int);
            assert(files@.map_values(|f: ChangedFile| file_view(f))
                =~= before + seq![(path, ChangedFileKind::Staged), (path, ChangedFileKind::Modified)]);
        }
    } else if untracked {
        push_file(files, s, j + 1, to, ChangedFileKind::Untracked);
        proof {
            assert(files@.map_values(|f: ChangedFile| file_view(f)) =~= before + seq![(rest, ChangedFileKind::Untracked)]);
        }
    } else {
        assert(before + line_entries(l) =~= before);
    }
}

/// The status `git status --porcelain=v2` output reports.
pub fn parse_porcelain_v2(stdout: &str) -> (st: WorkingTreeStatus)
    ensures
        status_of(stdout@, st),
{
    let s = chars_of(stdout);
    let ranges = line_ranges(&s);
    let ghost ls = lines(stdout@);
    let mut files: Vec<ChangedFile> = Vec::new();
    let mut k: usize = 0;
    while k < ranges.len()
        invariant
            s@ == stdout@,
            ls == lines(stdout@),
            ranges@.len() == ls.len(),
            forall|q: int| #![trigger ranges@[q]] 0 <= q < ranges@.len() ==> ranges@[q].0 <= ranges@[q].1 <= s@.len()
                && s@.subrange(ranges@[q].0 as int, ranges@[q].1 as int) == ls[q],
            k <= ranges.len(),
            files@.map_values(|f: ChangedFile| file_view(f)) == entries_upto(ls, k as int),
        decreases ranges.len() - k,
    {
        let (from, to) = ranges[k];
        proof {
            assert(s@.subrange(from as int, to as int) == ls[k as int]);
        }
        read_status_line(&mut files, &s, from, to);
        k = k + 1;
    }
    let mut has_staged = false;
    let mut has_modified = false;
    let mut has_untracked = false;
    let ghost es = entries_upto(ls, ls.len() as int);
    let mut i: usize = 0;
    while i < files.len()
        invariant
            i <= files.len(),
            files@.map_values(|f: ChangedFile| file_view(f)) == es,
            has_staged == exists|q: int| 0 <= q < i && (#[trigger] es[q]).1 == ChangedFileKind::Staged,
            has_modified == exists|q: int| 0 <= q < i && (#[trigger] es[q]).1 == ChangedFileKind::Modified,
            has_untracked == exists|q: int| 0 <= q < i && (#[trigger] es[q]).1 == ChangedFileKind::Untracked,
        decreases files.len() - i,
    {
        proof {
            assert(es[i as int] == file_view(files@[i as int]));
        }
        match files[i].kind {
            ChangedFileKind::Staged => has_staged = true,
            ChangedFileKind::Modified => has_modified = true,
            ChangedFileKind::Untracked => has_untracked = true,
        }
        i = i + 1;
    }
    WorkingTreeStatus { has_staged, has_modified, has_untracked, changed_files: files }
}

/// The status of a checkout from the outcome of `git status --porcelain=v2`:
/// its standard output where the command ran and succeeded, and a clean
/// status otherwise.
pub fn status_from_output(stdout: Option<&str>) -> (st: WorkingTreeStatus)
    ensures
        match stdout {
            Some(out) => status_of(out@, st),
            None => is_clean_status(st),
        },
{
    match stdout {
        Some(out) => parse_porcelain_v2(out),
        None => WorkingTreeStatus::clean(),
    }
}

} // verus!
