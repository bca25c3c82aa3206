//! Worktrees of a repository: the `git worktree list --porcelain` listing,
//! and the lookups the delete pre-flight and the views make on it.
//!
//! Running git, canonicalising paths and reading the clock belong to the
//! caller; the functions here take what those produced.

use vstd::prelude::*;
use crate::types::{BranchInfo, MergeStatus, PrInfo};
use crate::status::{WorkingTreeStatus, is_clean_status};
use crate::keyed::KeySet;
use crate::tags::{representable, utc_representable};
use crate::text::{
    chars_of, lines, line_ranges, range_equals, range_starts_with, slice_string, slice_vec,
    starts_with, str_eq, trim, trim_bounds, i64_of, parse_i64,
};

verus! {

/// One worktree of the repository.
#[derive(Debug)]
pub struct WorktreeInfo {
    pub path: String,
    /// Short name of the checked-out branch; `None` when HEAD is detached.
    pub branch: Option<String>,
    /// The primary worktree, listed first by git.
    pub is_main: bool,
    pub is_base: bool,
    /// HEAD commit, abbreviated to seven characters.
    pub commit_hash: String,
    pub wt_status: WorkingTreeStatus,
    /// UNIX time in seconds of the HEAD commit, once known.
    pub age_date: i64,
    pub merge_status: MergeStatus,
    pub ahead: Option<u32>,
    pub behind: Option<u32>,
    pub pr: Option<PrInfo>,
}

/// The view of an optional string.
pub open spec fn opt_view(o: Option<String>) -> Option<Seq<char>> {
    match o {
        Some(s) => Some(s@),
        None => None,
    }
}

/// One block of the porcelain listing.
pub struct PorcelainEntry {
    pub path: Seq<char>,
    pub hash: Seq<char>,
    pub branch: Option<Seq<char>>,
}

/// Blocks read so far and the block being read.
pub struct PorcelainState {
    pub done: Seq<PorcelainEntry>,
    pub path: Option<Seq<char>>,
    pub hash: Seq<char>,
    pub branch: Option<Seq<char>>,
}

/// The blocks read, with the open block closed.
pub open spec fn porcelain_flush(st: PorcelainState) -> Seq<PorcelainEntry> {
    match st.path {
        Some(p) => st.done.push(PorcelainEntry { path: p, hash: st.hash, branch: st.branch }),
        None => st.done,
    }
}

/// `line` without its first `n` characters.
pub open spec fn after(line: Seq<char>, n: nat) -> Seq<char> {
    line.subrange(n as int, line.len() as int)
}

/// Reading one line of the listing: `worktree <path>` opens a block,
/// `HEAD <hash>` keeps the hash's first seven characters, `branch <ref>`
/// keeps the short name of a `refs/heads/` ref, and `detached` clears the
/// branch. Other lines change nothing.
pub open spec fn porcelain_step(st: PorcelainState, line: Seq<char>) -> PorcelainState {
    if starts_with(line, "worktree "@) {
        PorcelainState {
            done: porcelain_flush(st),
            path: Some(after(line, "worktree "@.len())),
            hash: Seq::empty(),
            branch: None,
        }
    } else if starts_with(line, "HEAD "@) {
        let h = after(line, "HEAD "@.len());
        PorcelainState { hash: h.subrange(0, if h.len() < 7 { h.len() as int } else { 7 }), ..st }
    } else if starts_with(line, "branch "@) {
        let r = after(line, "branch "@.len());
        PorcelainState {
            branch: if starts_with(r, "refs/heads/"@) { Some(after(r, "refs/heads/"@.len())) } else { None },
            ..st
        }
    } else if line == "detached"@ {
        PorcelainState { branch: None, ..st }
    } else {
        st
    }
}

pub open spec fn porcelain_fold(ls: Seq<Seq<char>>) -> PorcelainState
    decreases ls.len(),
{
    if ls.len() == 0 {
        PorcelainState { done: Seq::empty(), path: None, hash: Seq::empty(), branch: None }
    } else {
        porcelain_step(porcelain_fold(ls.drop_last()), ls.last())
    }
}

/// The blocks of a porcelain listing, once trimmed.
pub open spec fn worktree_entries(text: Seq<char>) -> Seq<PorcelainEntry> {
    porcelain_flush(porcelain_fold(lines(trim(text))))
}

/// A line that opens a block of the listing.
pub open spec fn opens_block(line: Seq<char>) -> bool {
    starts_with(line, "worktree "@)
}

/// `b` is named by a `branch refs/heads/<b>` line among `ls`.
pub open spec fn branch_line_for(ls: Seq<Seq<char>>, b: Seq<char>) -> bool {
    exists|j: int| 0 <= j < ls.len() && #[trigger] ls[j] == "branch refs/heads/"@ + b
}

/// The branch of a block, when it has one, is named by a line of the listing.
pub open spec fn branch_from_line(branch: Option<Seq<char>>, ls: Seq<Seq<char>>) -> bool {
    match branch {
        Some(b) => branch_line_for(ls, b),
        None => true,
    }
}

proof fn lemma_fold_blocks(ls: Seq<Seq<char>>)
    ensures
        porcelain_flush(porcelain_fold(ls)).len() == ls.filter(|l: Seq<char>| opens_block(l)).len(),
        porcelain_fold(ls).hash.len() <= 7,
        branch_from_line(porcelain_fold(ls).branch, ls),
        forall|i: int| 0 <= i < porcelain_flush(porcelain_fold(ls)).len()
            ==> (#[trigger] porcelain_flush(porcelain_fold(ls))[i]).hash.len() <= 7
                && branch_from_line(porcelain_flush(porcelain_fold(ls))[i].branch, ls),
    decreases ls.len(),
{
    reveal(Seq::filter);
    if ls.len() > 0 {
        let prev = ls.drop_last();
        lemma_fold_blocks(prev);
        let st = porcelain_fold(prev);
        let fl = porcelain_flush(st);
        let nst = porcelain_fold(ls);
        let nf = porcelain_flush(nst);
        let line = ls.last();
        assert forall|b: Seq<char>| branch_line_for(prev, b) implies branch_line_for(ls, b) by {
            let j = choose|j: int| 0 <= j < prev.len() && #[trigger] prev[j] == "branch refs/heads/"@ + b;
            assert(ls[j] == prev[j]);
        }
        if !opens_block(line) && !starts_with(line, "HEAD "@) && starts_with(line, "branch "@) {
            let r = after(line, "branch "@.len());
            if starts_with(r, "refs/heads/"@) {
                let b = after(r, "refs/heads/"@.len());
                assert(line =~= "branch "@ + r);
                assert(r =~= "refs/heads/"@ + b);
                reveal_strlit("branch ");
                reveal_strlit("refs/heads/");
                reveal_strlit("branch refs/heads/");
                assert("branch "@ + "refs/heads/"@ =~= "branch refs/heads/"@);
                assert(line =~= "branch refs/heads/"@ + b);
                assert(ls[ls.len() - 1] == line);
            }
        }
        assert forall|i: int| 0 <= i < nf.len() implies (#[trigger] nf[i]).hash.len() <= 7
            && branch_from_line(nf[i].branch, ls) by {
            if opens_block(line) {
                if i < fl.len() {
                    assert(nf[i] == fl[i]);
                }
            } else if i < st.done.len() {
                assert(nf[i] == fl[i]);
            }
        }
    }
}

/// A listing has one block per line that starts with `worktree `; each
/// block keeps at most seven characters of its commit hash, and a block's
/// branch is named by a `branch refs/heads/<name>` line of the listing.
pub proof fn lemma_worktree_blocks(text: Seq<char>)
    ensures
        worktree_entries(text).len() == lines(trim(text)).filter(|l: Seq<char>| opens_block(l)).len(),
        forall|i: int| 0 <= i < worktree_entries(text).len() ==> (#[trigger] worktree_entries(text)[i]).hash.len() <= 7
            && branch_from_line(worktree_entries(text)[i].branch, lines(trim(text))),
{
    lemma_fold_blocks(lines(trim(text)));
}

/// `w` is the worktree read from block `e`, listed at position `i`, at time `now`.
pub open spec fn worktree_of_entry(w: WorktreeInfo, e: PorcelainEntry, i: int, now: i64) -> bool {
    &&& w.path@ == e.path
    &&& w.commit_hash@ == e.hash
    &&& opt_view(w.branch) == e.branch
    &&& w.is_main == (i == 0)
    &&& !w.is_base
    &&& is_clean_status(w.wt_status)
    &&& w.age_date == now
    &&& w.merge_status == MergeStatus::Unmerged
    &&& w.ahead is None
    &&& w.behind is None
    &&& w.pr is None
}

/// The worktrees of a listing read at time `now`.
pub open spec fn listed_worktrees(ws: Seq<WorktreeInfo>, text: Seq<char>, now: i64) -> bool {
    let es = worktree_entries(text);
    &&& ws.len() == es.len()
    &&& forall|i: int| 0 <= i < ws.len() ==> #[trigger] worktree_of_entry(ws[i], es[i], i, now)
}

fn build_worktree(path: String, commit_hash: String, branch: Option<String>, is_main: bool, now: i64) -> (w: WorktreeInfo)
    ensures
        w.path == path,
        w.commit_hash == commit_hash,
        w.branch == branch,
        w.is_main == is_main,
        !w.is_base,
        is_clean_status(w.wt_status),
        w.age_date == now,
        w.merge_status == MergeStatus::Unmerged,
        w.ahead is None,
        w.behind is None,
        w.pr is None,
{
    WorktreeInfo {
        path,
        branch,
        is_main,
        is_base: false,
        commit_hash,
        wt_status: WorkingTreeStatus::clean(),
        age_date: now,
        merge_status: MergeStatus::Unmerged,
        ahead: None,
        behind: None,
        pr: None,
    }
}

/// The worktrees described by the output of `git worktree list --porcelain`,
/// with `now` as their age until enrichment reads the real one.
pub fn parse_worktree_list(stdout: &str, now: i64) -> (ws: Vec<WorktreeInfo>)
    ensures
        listed_worktrees(ws@, stdout@, now),
{
    let all = chars_of(stdout);
    let (a, b) = trim_bounds(&all, 0, all.len());
    assert(all@.subrange(0, all@.len() as int) =~= all@);
    let t = slice_vec(&all, a, b);
    let ranges = line_ranges(&t);
    let ghost ls = lines(t@);
    let p_worktree = chars_of("worktree ");
    let p_head = chars_of("HEAD ");
    let p_branch = chars_of("branch ");
    let p_heads = chars_of("refs/heads/");
    let p_detached = chars_of("detached");
    let mut worktrees: Vec<WorktreeInfo> = Vec::new();
    let mut cur_path: Option<String> = None;
    let mut hash = String::new();
    let mut branch: Option<String> = None;
    let mut k: usize = 0;
    while k < ranges.len()
        invariant
            k <= ranges.len(),
            ls == lines(t@),
            ranges@.len() == ls.len(),
            forall|j: int| #![trigger ranges@[j]] 0 <= j < ranges@.len() ==> ranges@[j].0 <= ranges@[j].1 <= t@.len()
                && t@.subrange(ranges@[j].0 as int, ranges@[j].1 as int) == ls[j],
            p_worktree@ == "worktree "@,
            p_head@ == "HEAD "@,
            p_branch@ == "branch "@,
            p_heads@ == "refs/heads/"@,
            p_detached@ == "detached"@,
            ({
                let st = porcelain_fold(ls.subrange(0, k as int));
                &&& worktrees@.len() == st.done.len()
                &&& forall|i: int| 0 <= i < worktrees@.len() ==> #[trigger] worktree_of_entry(worktrees@[i], st.done[i], i, now)
                &&& opt_view(cur_path) == st.path
                &&& hash@ == st.hash
                &&& opt_view(branch) == st.branch
            }),
        decreases ranges.len() - k,
    {
        let (lo, hi) = ranges[k];
        let ghost st0 = porcelain_fold(ls.subrange(0, k as int));
        let ghost line = ls[k as int];
        proof {
            assert(ranges@[k as int].0 <= ranges@[k as int].1 <= t@.len());
            assert(ls.subrange(0, k + 1).drop_last() =~= ls.subrange(0, k as int));
            assert(ls.subrange(0, k + 1).last() == line);
        }
        if range_starts_with(&t, lo, hi, &p_worktree) {
            proof {
                assert(t@.subrange(lo + p_worktree@.len(), hi as int) =~= after(line, "worktree "@.len()));
            }
            let ghost w0 = worktrees@;
            match cur_path {
                Some(path) => {
                    let is_main = worktrees.len() == 0;
                    let w = build_worktree(path, hash, branch, is_main, now);
                    worktrees.push(w);
                    proof {
                        let done = porcelain_flush(st0);
                        assert forall|i: int| 0 <= i < worktrees@.len() implies #[trigger] worktree_of_entry(worktrees@[i], done[i], i, now) by {
                            if i < w0.len() {
                                assert(worktrees@[i] == w0[i]);
                                assert(done[i] == st0.done[i]);
                            }
                        }
                    }
                },
                None => {},
            }
            cur_path = Some(slice_string(&t, lo + p_worktree.len(), hi));
            hash = String::new();
            branch = None;
        } else if range_starts_with(&t, lo, hi, &p_head) {
            let from = lo + p_head.len();
            let n: usize = if hi - from < 7 { hi - from } else { 7 };
            proof {
                let h = after(line, "HEAD "@.len());
                assert(t@.subrange(from as int, from + n) =~= h.subrange(0, n as int));
            }
            hash = slice_string(&t, from, from + n);
        } else if range_starts_with(&t, lo, hi, &p_branch) {
            let from = lo + p_branch.len();
            proof {
                assert(t@.subrange(from as int, hi as int) =~= after(line, "branch "@.len()));
            }
            if range_starts_with(&t, from, hi, &p_heads) {
                proof {
                    let r = after(line, "branch "@.len());
                    assert(t@.subrange(from + p_heads@.len(), hi as int) =~= after(r, "refs/heads/"@.len()));
                }
                branch = Some(slice_string(&t, from + p_heads.len(), hi));
            } else {
                branch = None;
            }
        } else if range_equals(&t, lo, hi, &p_detached) {
            branch = None;
        }
        k = k + 1;
    }
    assert(ls.subrange(0, ranges@.len() as int) =~= ls);
    let ghost w0 = worktrees@;
    let ghost st = porcelain_fold(ls);
    match cur_path {
        Some(path) => {
            let is_main = worktrees.len() == 0;
            let w = build_worktree(path, hash, branch, is_main, now);
            worktrees.push(w);
        },
        None => {},
    }
    proof {
        assert(trim(stdout@) == t@);
        let es = porcelain_flush(st);
        assert forall|i: int| 0 <= i < worktrees@.len() implies #[trigger] worktree_of_entry(worktrees@[i], es[i], i, now) by {
            if i < w0.len() {
                assert(worktrees@[i] == w0[i]);
                assert(es[i] == st.done[i]);
            }
        }
    }
    worktrees
}


/// The result of reading the worktree listing: the listing's worktrees when
/// git succeeded, and git's error otherwise.
pub fn try_list_worktrees(listing: Result<String, String>, now: i64) -> (r: Result<Vec<WorktreeInfo>, String>)
    ensures
        match listing {
            Ok(out) => r is Ok && listed_worktrees(r->Ok_0@, out@, now),
            Err(e) => r is Err && r->Err_0 == e,
        },
{
    match listing {
        Ok(out) => Ok(parse_worktree_list(out.as_str(), now)),
        Err(e) => Err(e),
    }
}

/// Like [`try_list_worktrees`], with no worktrees when git failed.
pub fn list_worktrees(listing: Result<String, String>, now: i64) -> (ws: Vec<WorktreeInfo>)
    ensures
        match listing {
            Ok(out) => listed_worktrees(ws@, out@, now),
            Err(_) => ws@.len() == 0,
        },
{
    match try_list_worktrees(listing, now) {
        Ok(ws) => ws,
        Err(_) => Vec::new(),
    }
}

/// `j` is the first branch of `bs` called `name`.
pub open spec fn first_branch_named(bs: Seq<BranchInfo>, name: Seq<char>, j: int) -> bool {
    &&& 0 <= j < bs.len()
    &&& bs[j].name@ == name
    &&& forall|k: int| 0 <= k < j ==> (#[trigger] bs[k]).name@ != name
}

/// No branch of `bs` is called `name`.
pub open spec fn no_branch_named(bs: Seq<BranchInfo>, name: Seq<char>) -> bool {
    forall|k: int| 0 <= k < bs.len() ==> (#[trigger] bs[k]).name@ != name
}

/// The first branch called `name`, if any.
pub fn find_branch_index(bs: &Vec<BranchInfo>, name: &str) -> (r: Option<usize>)
    ensures
        match r {
            Some(j) => first_branch_named(bs@, name@, j as int),
            None => no_branch_named(bs@, name@),
        },
{
    let mut j: usize = 0;
    while j < bs.len()
        invariant
            j <= bs.len(),
            forall|k: int| 0 <= k < j ==> (#[trigger] bs@[k]).name@ != name@,
        decreases bs.len() - j,
    {
        if str_eq(bs[j].name.as_str(), name) {
            return Some(j);
        }
        j = j + 1;
    }
    None
}

/// The worktree `w` after taking the merge status of its branch in `bs`.
pub open spec fn with_branch_status(w: WorktreeInfo, bs: Seq<BranchInfo>) -> WorktreeInfo {
    match w.branch {
        Some(n) => if exists|j: int| first_branch_named(bs, n@, j) {
            let j = choose|j: int| first_branch_named(bs, n@, j);
            WorktreeInfo { merge_status: bs[j].merge_status, is_base: bs[j].is_base, ..w }
        } else {
            w
        },
        None => w,
    }
}

proof fn lemma_first_branch_unique(bs: Seq<BranchInfo>, name: Seq<char>, j: int, j2: int)
    requires
        first_branch_named(bs, name, j),
        first_branch_named(bs, name, j2),
    ensures
        j == j2,
{
    if j < j2 {
        assert(bs[j].name@ != name);
    } else if j2 < j {
        assert(bs[j2].name@ != name);
    }
}

/// Copies each worktree's merge status, and whether it is the base branch,
/// from the first branch of `branches` with its checked-out branch's name.
/// Detached worktrees and those whose branch is not listed keep theirs.
pub fn apply_branch_merge_status(worktrees: &mut Vec<WorktreeInfo>, branches: &Vec<BranchInfo>)
    ensures
        final(worktrees)@.len() == old(worktrees)@.len(),
        forall|i: int| 0 <= i < old(worktrees)@.len() ==>
            #[trigger] final(worktrees)@[i] == with_branch_status(old(worktrees)@[i], branches@),
{
    let ghost w0 = worktrees@;
    let mut i: usize = 0;
    while i < worktrees.len()
        invariant
            i <= worktrees.len(),
            worktrees@.len() == w0.len(),
            forall|k: int| 0 <= k < i ==> #[trigger] worktrees@[k] == with_branch_status(w0[k], branches@),
            forall|k: int| i <= k < w0.len() ==> #[trigger] worktrees@[k] == w0[k],
        decreases worktrees.len() - i,
    {
        let found = match &worktrees[i].branch {
            Some(name) => find_branch_index(branches, name.as_str()),
            None => None,
        };
        proof {
            let w = w0[i as int];
            match w.branch {
                Some(n) => {
                    match found {
                        Some(j) => {
                            assert(first_branch_named(branches@, n@, j as int));
                            let c = choose|j2: int| first_branch_named(branches@, n@, j2);
                            lemma_first_branch_unique(branches@, n@, j as int, c);
                        },
                        None => {
                            if exists|j2: int| first_branch_named(branches@, n@, j2) {
                                let c = choose|j2: int| first_branch_named(branches@, n@, j2);
                                assert(branches@[c].name@ != n@);
                            }
                        },
                    }
                },
                None => {},
            }
        }
        match found {
            Some(j) => {
                let status = branches[j].merge_status;
                let is_base = branches[j].is_base;
                worktrees[i].merge_status = status;
                worktrees[i].is_base = is_base;
            },
            None => {},
        }
        i = i + 1;
    }
}

/// Paths are equal as `std::path::Path` values: component by component.
pub uninterp spec fn path_eq(a: Seq<char>, b: Seq<char>) -> bool;

/// Compares two paths with std's `PartialEq` for `Path`. What is claimed:
/// the answer is a function of the two paths; equal strings are equal
/// paths; the comparison does not depend on the order of its arguments
/// (std's `Path` equality is an equivalence). How components compare is
/// left to std.
#[verifier::external_body]
pub(crate) fn paths_equal(a: &str, b: &str) -> (r: bool)
    ensures
        r == path_eq(a@, b@),
        r == path_eq(b@, a@),
        a@ == b@ ==> r,
{
    std::path::Path::new(a) == std::path::Path::new(b)
}

/// The text of an optional string.
pub open spec fn opt_str(o: Option<&str>) -> Option<Seq<char>> {
    match o {
        Some(s) => Some(s@),
        None => None,
    }
}

/// Whether `worktree_path` is the worktree the caller runs from, at
/// `repo_path`: their canonical forms compare when both could be had, and
/// the paths themselves otherwise.
pub fn is_current_worktree(
    repo_path: &str,
    worktree_path: &str,
    repo_canonical: Option<&str>,
    worktree_canonical: Option<&str>,
) -> (b: bool)
    ensures
        b == match (repo_canonical, worktree_canonical) {
            (Some(x), Some(y)) => path_eq(x@, y@),
            _ => path_eq(repo_path@, worktree_path@),
        },
        b == match (repo_canonical, worktree_canonical) {
            (Some(x), Some(y)) => path_eq(y@, x@),
            _ => path_eq(worktree_path@, repo_path@),
        },
        repo_path@ == worktree_path@ && opt_str(repo_canonical) == opt_str(worktree_canonical) ==> b,
{
    match (repo_canonical, worktree_canonical) {
        (Some(x), Some(y)) => paths_equal(x, y),
        _ => paths_equal(repo_path, worktree_path),
    }
}

/// The form of a path that a removal compares: its canonical form when one
/// could be had, the path itself otherwise.
pub open spec fn compared_path(path: Seq<char>, canonical: Option<Seq<char>>) -> Seq<char> {
    match canonical {
        Some(c) => c,
        None => path,
    }
}

/// Whether the worktree at `worktree_path` is the repository's own checkout,
/// which is never removed: each path is compared in its canonical form when
/// one could be had, as given otherwise.
pub fn is_main_checkout(
    repo_path: &str,
    worktree_path: &str,
    repo_canonical: Option<&str>,
    worktree_canonical: Option<&str>,
) -> (b: bool)
    ensures
        b == path_eq(compared_path(repo_path@, opt_str(repo_canonical)), compared_path(worktree_path@, opt_str(worktree_canonical))),
{
    let a = match repo_canonical {
        Some(c) => c,
        None => repo_path,
    };
    let w = match worktree_canonical {
        Some(c) => c,
        None => worktree_path,
    };
    paths_equal(a, w)
}

/// A canonical path, when there is one, that is `target` as a path.
pub open spec fn canonical_is(canonical: Option<String>, target: Seq<char>) -> bool {
    match canonical {
        Some(c) => path_eq(c@, target),
        None => false,
    }
}

/// Whether a linked worktree is registered at the target path: only
/// canonical forms compare, so a target without one, and a worktree without
/// one, match nothing. `linked_canonical` holds the canonical path of each
/// linked worktree, where it could be had.
pub fn is_registered_worktree(target_canonical: Option<&str>, linked_canonical: &Vec<Option<String>>) -> (b: bool)
    ensures
        b == match target_canonical {
            None => false,
            Some(t) => exists|i: int| 0 <= i < linked_canonical@.len()
                && #[trigger] canonical_is(linked_canonical@[i], t@),
        },
{
    match target_canonical {
        None => false,
        Some(t) => any_canonical_is(linked_canonical, t),
    }
}

fn any_canonical_is(linked_canonical: &Vec<Option<String>>, t: &str) -> (b: bool)
    ensures
        b == exists|i: int| 0 <= i < linked_canonical@.len() && #[trigger] canonical_is(linked_canonical@[i], t@),
{
    let mut i: usize = 0;
    while i < linked_canonical.len()
        invariant
            i <= linked_canonical@.len(),
            forall|k: int| 0 <= k < i ==> !#[trigger] canonical_is(linked_canonical@[k], t@),
        decreases linked_canonical@.len() - i,
    {
        match &linked_canonical[i] {
            Some(c) => {
                if paths_equal(c.as_str(), t) {
                    assert(canonical_is(linked_canonical@[i as int], t@));
                    return true;
                }
            },
            None => {},
        }
        i = i + 1;
    }
    false
}

/// Worktree `i` has `branch` checked out.
pub open spec fn has_branch(ws: Seq<WorktreeInfo>, i: int, branch: Seq<char>) -> bool {
    opt_view(ws[i].branch) == Some(branch)
}

/// The first worktree with `branch` checked out, the primary and the
/// caller's own included; the listing's error when it could not be read.
pub fn try_worktree_for_branch(listing: Result<Vec<WorktreeInfo>, String>, branch: &str)
    -> (r: Result<Option<WorktreeInfo>, String>)
    ensures
        match listing {
            Err(e) => r is Err && r->Err_0 == e,
            Ok(ws) => r is Ok && match r->Ok_0 {
                Some(w) => exists|i: int| 0 <= i < ws@.len() && ws@[i] == w && has_branch(ws@, i, branch@)
                    && forall|k: int| 0 <= k < i ==> !has_branch(ws@, k, branch@),
                None => forall|k: int| 0 <= k < ws@.len() ==> !has_branch(ws@, k, branch@),
            },
        },
{
    match listing {
        Err(e) => Err(e),
        Ok(ws) => {
            let no_current: Vec<bool> = Vec::new();
            let ghost w0 = ws@;
            let found = first_with_branch(ws, &no_current, branch);
            proof {
                assert forall|k: int| #![trigger has_branch(w0, k, branch@)]
                    other_match(w0, no_current@, k, branch@) == has_branch(w0, k, branch@) by {}
                if found is Some {
                    let w = found->0;
                    {
                        let i = choose|i: int| 0 <= i < w0.len() && w0[i] == w && other_match(w0, no_current@, i, branch@)
                            && forall|k: int| 0 <= k < i ==> !other_match(w0, no_current@, k, branch@);
                        assert(has_branch(w0, i, branch@));
                    }
                }
            }
            Ok(found)
        },
    }
}

/// The first worktree with `branch` checked out that `is_current` does not
/// mark as the caller's own (positions past its end count as not own).
fn first_with_branch(list: Vec<WorktreeInfo>, is_current: &Vec<bool>, branch: &str) -> (r: Option<WorktreeInfo>)
    ensures
        match r {
            Some(w) => exists|i: int| 0 <= i < list@.len() && list@[i] == w && other_match(list@, is_current@, i, branch@)
                && forall|k: int| 0 <= k < i ==> !other_match(list@, is_current@, k, branch@),
            None => forall|k: int| 0 <= k < list@.len() ==> !other_match(list@, is_current@, k, branch@),
        },
{
    let ghost w0 = list@;
    let mut ws = list;
    let mut i: usize = 0;
    while i < ws.len()
        invariant
            ws@ == w0,
            w0 == list@,
            i <= ws.len(),
            forall|k: int| 0 <= k < i ==> !other_match(w0, is_current@, k, branch@),
        decreases ws.len() - i,
    {
        let matches = match &ws[i].branch {
            Some(b) => str_eq(b.as_str(), branch),
            None => false,
        };
        let own = i < is_current.len() && is_current[i];
        if matches && !own {
            let w = ws.remove(i);
            proof {
                assert(w == w0[i as int]);
                assert(other_match(w0, is_current@, i as int, branch@));
                assert(exists|j: int| 0 <= j < w0.len() && w0[j] == w && other_match(w0, is_current@, j, branch@)
                    && forall|k: int| 0 <= k < j ==> !other_match(w0, is_current@, k, branch@));
            }
            return Some(w);
        }
        i = i + 1;
    }
    None
}

/// Worktree `i` has `branch` checked out and is not the caller's own.
pub open spec fn other_match(ws: Seq<WorktreeInfo>, is_current: Seq<bool>, i: int, branch: Seq<char>) -> bool {
    has_branch(ws, i, branch) && !(0 <= i < is_current.len() && is_current[i])
}

/// The first worktree other than the caller's own with `branch` checked
/// out; `is_current[i]` tells whether worktree `i` is the caller's own (see
/// [`is_current_worktree`]).
pub fn try_other_worktree_for_branch(
    listing: Result<Vec<WorktreeInfo>, String>,
    is_current: &Vec<bool>,
    branch: &str,
) -> (r: Result<Option<WorktreeInfo>, String>)
    ensures
        match listing {
            Err(e) => r is Err && r->Err_0 == e,
            Ok(ws) => r is Ok && match r->Ok_0 {
                Some(w) => exists|i: int| 0 <= i < ws@.len() && ws@[i] == w && other_match(ws@, is_current@, i, branch@)
                    && forall|k: int| 0 <= k < i ==> !other_match(ws@, is_current@, k, branch@),
                None => forall|k: int| 0 <= k < ws@.len() ==> !other_match(ws@, is_current@, k, branch@),
            },
        },
{
    match listing {
        Err(e) => Err(e),
        Ok(ws) => Ok(first_with_branch(ws, is_current, branch)),
    }
}

/// The path of [`try_other_worktree_for_branch`]'s worktree, with a failed
/// listing read as no worktree.
pub fn worktree_path_for_branch(
    listing: Result<Vec<WorktreeInfo>, String>,
    is_current: &Vec<bool>,
    branch: &str,
) -> (r: Option<String>)
    ensures
        match listing {
            Err(_) => r is None,
            Ok(ws) => match r {
                Some(p) => exists|i: int| 0 <= i < ws@.len() && ws@[i].path == p && other_match(ws@, is_current@, i, branch@)
                    && forall|k: int| 0 <= k < i ==> !other_match(ws@, is_current@, k, branch@),
                None => forall|k: int| 0 <= k < ws@.len() ==> !other_match(ws@, is_current@, k, branch@),
            },
        },
{
    match try_other_worktree_for_branch(listing, is_current, branch) {
        Ok(Some(w)) => Some(w.path),
        _ => None,
    }
}

/// Short names of the branches checked out in worktrees other than the
/// primary one (the caller's own linked worktree included).
pub fn branches_checked_out_in_worktrees(worktrees: &Vec<WorktreeInfo>) -> (r: KeySet)
    ensures
        r.wf(),
        r@ == Set::new(|b: Seq<char>| exists|i: int| 0 <= i < worktrees@.len()
            && !worktrees@[i].is_main && opt_view(worktrees@[i].branch) == Some(b)),
{
    let mut r = KeySet::new();
    let mut i: usize = 0;
    while i < worktrees.len()
        invariant
            i <= worktrees.len(),
            r.wf(),
            r@ == Set::new(|b: Seq<char>| exists|k: int| 0 <= k < i
                && !worktrees@[k].is_main && opt_view(worktrees@[k].branch) == Some(b)),
        decreases worktrees.len() - i,
    {
        let ghost before = r@;
        if !worktrees[i].is_main {
            match &worktrees[i].branch {
                Some(b) => r.insert(b.clone()),
                None => {},
            }
        }
        proof {
            assert(r@ =~= Set::new(|b: Seq<char>| exists|k: int| 0 <= k < i + 1
                && !worktrees@[k].is_main && opt_view(worktrees@[k].branch) == Some(b))) by {
                assert forall|b: Seq<char>| #[trigger] r@.contains(b) implies exists|k: int| 0 <= k < i + 1
                    && !worktrees@[k].is_main && opt_view(worktrees@[k].branch) == Some(b) by {
                    if !before.contains(b) {
                        assert(!worktrees@[i as int].is_main && opt_view(worktrees@[i as int].branch) == Some(b));
                    }
                }
                assert forall|b: Seq<char>| (exists|k: int| 0 <= k < i + 1
                    && !worktrees@[k].is_main && opt_view(worktrees@[k].branch) == Some(b)) implies #[trigger] r@.contains(b) by {
                    let k = choose|k: int| 0 <= k < i + 1
                        && !worktrees@[k].is_main && opt_view(worktrees@[k].branch) == Some(b);
                    if k < i {
                        assert(before.contains(b));
                    }
                }
            }
        }
        i = i + 1;
    }
    r
}


/// What enriching worktree `index` found: its working-tree status and the
/// time of its HEAD commit, in seconds since the UNIX epoch.
#[derive(Debug)]
pub struct WorktreeEnrichResult {
    pub index: usize,
    pub wt_status: WorkingTreeStatus,
    pub age_date: i64,
}

/// The time of a worktree's HEAD commit from what `git log -1 --format=%ct
/// HEAD` printed; `now` when that is not a time in range.
pub fn head_commit_date(output: &str, now: i64) -> (t: i64)
    ensures
        match i64_of(trim(output@)) {
            Some(v) => t == if utc_representable(v as i64) { v as i64 } else { now },
            None => t == now,
        },
{
    let text = crate::operations::trimmed(output);
    match parse_i64(text.as_str()) {
        Some(v) => if representable(v) { v } else { now },
        None => now,
    }
}

/// Files an enrichment result under its worktree; one for a worktree no
/// longer listed is dropped.
pub fn apply_enrich_result(worktrees: &mut Vec<WorktreeInfo>, result: WorktreeEnrichResult)
    ensures
        final(worktrees)@.len() == old(worktrees)@.len(),
        result.index < old(worktrees)@.len() ==> final(worktrees)@ == old(worktrees)@.update(result.index as int,
            WorktreeInfo { wt_status: result.wt_status, age_date: result.age_date, ..old(worktrees)@[result.index as int] }),
        result.index >= old(worktrees)@.len() ==> final(worktrees)@ == old(worktrees)@,
{
    if result.index < worktrees.len() {
        let mut w = worktrees.remove(result.index);
        w.wt_status = result.wt_status;
        w.age_date = result.age_date;
        worktrees.insert(result.index, w);
    }
}

} // verus!
