//! Access to a repository through libgit2. Each function here makes one call
//! into the `git2` crate; what a repository holds is on disk, so apart from
//! the shape of an object id nothing is claimed about what comes back.

use vstd::prelude::*;

verus! {

#[verifier::external_type_specification]
#[verifier::external_body]
pub struct ExRepository(git2::Repository);

#[verifier::external_type_specification]
#[verifier::external_body]
pub struct ExGitError(git2::Error);

#[verifier::external_type_specification]
#[verifier::external_body]
pub struct ExOid(git2::Oid);

#[verifier::external_type_specification]
#[verifier::external_body]
pub struct ExBranch<'repo>(git2::Branch<'repo>);

#[verifier::external_type_specification]
#[verifier::external_body]
pub struct ExBranchType(git2::BranchType);

#[verifier::external_type_specification]
#[verifier::external_body]
pub struct ExBranches<'repo>(git2::Branches<'repo>);

#[verifier::external_type_specification]
#[verifier::external_body]
pub struct ExReference<'repo>(git2::Reference<'repo>);

#[verifier::external_type_specification]
#[verifier::external_body]
pub struct ExCommit<'repo>(git2::Commit<'repo>);

#[verifier::external_type_specification]
#[verifier::external_body]
pub struct ExRevwalk<'repo>(git2::Revwalk<'repo>);

#[verifier::external_type_specification]
#[verifier::external_body]
pub struct ExObject<'repo>(git2::Object<'repo>);

/// `Repository::find_branch`, for a local branch or, with `remote`, a
/// remote-tracking one.
#[verifier::external_body]
pub fn find_branch<'r>(repo: &'r git2::Repository, name: &str, remote: bool) -> (r: Result<git2::Branch<'r>, git2::Error>) {
    let kind = if remote { git2::BranchType::Remote } else { git2::BranchType::Local };
    repo.find_branch(name, kind)
}

/// `Repository::branches` restricted to local branches or, with `remote`,
/// to remote-tracking ones.
#[verifier::external_body]
pub fn branch_iter<'r>(repo: &'r git2::Repository, remote: bool) -> (r: Result<git2::Branches<'r>, git2::Error>) {
    let kind = if remote { git2::BranchType::Remote } else { git2::BranchType::Local };
    repo.branches(Some(kind))
}

/// `Iterator::next` of `Branches`, keeping the branch of each item.
#[verifier::external_body]
pub fn next_branch<'r>(it: &mut git2::Branches<'r>) -> (r: Option<Result<git2::Branch<'r>, git2::Error>>) {
    it.next().map(|item| item.map(|(branch, _)| branch))
}

/// `Branch::name`: `None` where the name is not UTF-8.
#[verifier::external_body]
pub fn branch_name(b: &git2::Branch) -> (r: Result<Option<String>, git2::Error>) {
    b.name().map(|n| n.map(|s| s.to_string()))
}

/// `Branch::upstream`.
#[verifier::external_body]
pub fn branch_upstream<'r>(b: &git2::Branch<'r>) -> (r: Result<git2::Branch<'r>, git2::Error>) {
    b.upstream()
}

/// `Branch::get`: the reference behind a branch.
#[verifier::external_body]
pub fn branch_reference<'a, 'r>(b: &'a git2::Branch<'r>) -> (r: &'a git2::Reference<'r>) {
    b.get()
}

/// `Reference::target`: the object id of a direct reference.
#[verifier::external_body]
pub fn reference_target(r: &git2::Reference) -> (o: Option<git2::Oid>) {
    r.target()
}

/// `Reference::name`: the full name of a reference.
#[verifier::external_body]
pub fn reference_name(r: &git2::Reference) -> (n: Result<String, git2::Error>) {
    r.name().map(|s| s.to_string())
}

/// `Reference::shorthand`: the short, human-readable name of a reference.
#[verifier::external_body]
pub fn reference_shorthand(r: &git2::Reference) -> (n: Result<String, git2::Error>) {
    r.shorthand().map(|s| s.to_string())
}

/// `Reference::symbolic_target`: the target name of a symbolic reference.
#[verifier::external_body]
pub fn reference_symbolic_target(r: &git2::Reference) -> (n: Result<Option<String>, git2::Error>) {
    r.symbolic_target().map(|t| t.map(|s| s.to_string()))
}

/// `Reference::peel_to_commit`.
#[verifier::external_body]
pub fn peel_to_commit<'r>(r: &git2::Reference<'r>) -> (c: Result<git2::Commit<'r>, git2::Error>) {
    r.peel_to_commit()
}

/// `Commit::id`.
#[verifier::external_body]
pub fn commit_id(c: &git2::Commit) -> (o: git2::Oid) {
    c.id()
}

/// `Commit::committer`, read for the seconds of its time stamp.
#[verifier::external_body]
pub fn commit_time(c: &git2::Commit) -> (t: i64) {
    c.committer().when().seconds()
}

/// `Repository::head`.
#[verifier::external_body]
pub fn repo_head<'r>(repo: &'r git2::Repository) -> (r: Result<git2::Reference<'r>, git2::Error>) {
    repo.head()
}

/// `Repository::find_reference`.
#[verifier::external_body]
pub fn find_reference<'r>(repo: &'r git2::Repository, name: &str) -> (r: Result<git2::Reference<'r>, git2::Error>) {
    repo.find_reference(name)
}

/// `Repository::graph_ahead_behind`: commits unique to `local` and to `upstream`.
#[verifier::external_body]
pub fn graph_ahead_behind(repo: &git2::Repository, local: git2::Oid, upstream: git2::Oid) -> (r: Result<(usize, usize), git2::Error>) {
    repo.graph_ahead_behind(local, upstream)
}

/// `Repository::graph_descendant_of`: whether `commit` descends from `ancestor`.
#[verifier::external_body]
pub fn graph_descendant_of(repo: &git2::Repository, commit: git2::Oid, ancestor: git2::Oid) -> (r: Result<bool, git2::Error>) {
    repo.graph_descendant_of(commit, ancestor)
}

/// `Repository::merge_base`.
#[verifier::external_body]
pub fn merge_base(repo: &git2::Repository, one: git2::Oid, two: git2::Oid) -> (r: Result<git2::Oid, git2::Error>) {
    repo.merge_base(one, two)
}

/// `Repository::revwalk`.
#[verifier::external_body]
pub fn revwalk<'r>(repo: &'r git2::Repository) -> (r: Result<git2::Revwalk<'r>, git2::Error>) {
    repo.revwalk()
}

/// `Revwalk::set_sorting` with no particular order.
#[verifier::external_body]
pub fn revwalk_unsorted(w: &mut git2::Revwalk) -> (r: Result<(), git2::Error>) {
    w.set_sorting(git2::Sort::NONE)
}

/// `Revwalk::push`: walk from `oid`.
#[verifier::external_body]
pub fn revwalk_push(w: &mut git2::Revwalk, oid: git2::Oid) -> (r: Result<(), git2::Error>) {
    w.push(oid)
}

/// `Iterator::next` of `Revwalk`.
#[verifier::external_body]
pub fn revwalk_next(w: &mut git2::Revwalk) -> (r: Option<Result<git2::Oid, git2::Error>>) {
    w.next()
}

/// `Oid`'s `Display`: the hexadecimal text of an object id, which libgit2
/// writes in full, 40 digits for SHA-1 and 64 for SHA-256.
#[verifier::external_body]
pub fn oid_hex(o: &git2::Oid) -> (s: String)
    ensures
        s@.len() == 40 || s@.len() == 64,
{
    o.to_string()
}

/// `Error::message`.
#[verifier::external_body]
pub fn error_message(e: &git2::Error) -> (s: String) {
    e.message().to_string()
}

/// `Repository::tag_names` with no pattern; a name that cannot be read as
/// UTF-8 comes back as `None`.
#[verifier::external_body]
pub fn tag_names(repo: &git2::Repository) -> (r: Result<Vec<Option<String>>, git2::Error>) {
    repo.tag_names(None).map(|names| names.iter().map(|n| n.ok().flatten().map(|s| s.to_string())).collect())
}

/// `Repository::revparse_single`.
#[verifier::external_body]
pub fn revparse_single<'r>(repo: &'r git2::Repository, spec: &str) -> (r: Result<git2::Object<'r>, git2::Error>) {
    repo.revparse_single(spec)
}

/// `Object::peel_to_commit`.
#[verifier::external_body]
pub fn object_peel_to_commit<'r>(o: &git2::Object<'r>) -> (c: Result<git2::Commit<'r>, git2::Error>) {
    o.peel_to_commit()
}

/// `Oid::from_str`.
#[verifier::external_body]
pub fn oid_from_str(s: &str) -> (r: Result<git2::Oid, git2::Error>) {
    git2::Oid::from_str(s)
}

} // verus!
