//! Tags: listing them from the repository, deleting them, and what pushing
//! them or deleting them on `origin` came to.

use vstd::prelude::*;
use crate::types::{BranchAction, OperationResult};
use crate::operations::{CmdOutcome, outcome_result, plain_result, trimmed};
use crate::repo::{
    commit_id, commit_time, find_reference, oid_hex, peel_to_commit, reference_target, tag_names,
};
use crate::text::{chars_of, concat2, slice_string, to_owned_string, trim};
use crate::gitlog::string_views;

verus! {

#[verifier::external_type_specification]
#[verifier::external_body]
pub struct ExTag<'repo>(git2::Tag<'repo>);

/// `Repository::find_object`, then `Object::kind`: whether the object with
/// id `oid` is an annotated tag.
#[verifier::external_body]
fn object_is_tag(repo: &git2::Repository, oid: git2::Oid) -> (r: Result<bool, git2::Error>) {
    repo.find_object(oid, None).map(|o| o.kind() == Some(git2::ObjectType::Tag))
}

/// `Repository::find_tag`.
#[verifier::external_body]
fn find_tag<'r>(repo: &'r git2::Repository, oid: git2::Oid) -> (r: Result<git2::Tag<'r>, git2::Error>) {
    repo.find_tag(oid)
}

/// `Tag::message`: `None` where the tag has no message or it is not UTF-8.
#[verifier::external_body]
fn tag_message(t: &git2::Tag) -> (r: Option<String>) {
    t.message().ok().flatten().map(|m| m.to_string())
}

/// `Repository::tag_delete`.
#[verifier::external_body]
fn tag_delete(repo: &git2::Repository, name: &str) -> (r: Result<(), git2::Error>) {
    repo.tag_delete(name)
}

/// `Error`'s `Display`: the message, with the error class and code where
/// they are not the generic ones.
#[verifier::external_body]
fn error_text(e: &git2::Error) -> (s: String) {
    e.to_string()
}

/// Whether a count of seconds since the UNIX epoch is a time chrono can
/// represent.
pub uninterp spec fn utc_representable(secs: i64) -> bool;

/// `TimeZone::timestamp_opt` for `Utc`, read for whether it gives a single
/// time. What is claimed: the answer depends on the seconds alone.
#[verifier::external_body]
pub(crate) fn representable(secs: i64) -> (r: bool)
    ensures
        r == utc_representable(secs),
{
    chrono::TimeZone::timestamp_opt(&chrono::Utc, secs, 0).single().is_some()
}

/// `Utc::now`, in seconds since the UNIX epoch. Nothing is claimed of it:
/// the value is the machine's clock.
#[verifier::external_body]
pub(crate) fn current_time_secs() -> (t: i64) {
    chrono::Utc::now().timestamp()
}

/// A tag of the repository. `date` is the commit time, in seconds since the
/// UNIX epoch.
#[derive(Debug)]
pub struct TagInfo {
    pub name: String,
    /// The tagged commit, abbreviated to seven characters.
    pub commit_hash: String,
    pub date: i64,
    /// The annotation's message, trimmed; `None` for lightweight tags.
    pub message: Option<String>,
    pub is_annotated: bool,
}

/// Tag `t` is listed as the repository shows it: a representable date, an
/// abbreviated hash, a message only where annotated.
pub open spec fn tag_ok(t: TagInfo) -> bool {
    &&& utc_representable(t.date)
    &&& t.commit_hash@.len() == 7
    &&& (t.message matches Some(m) ==> t.is_annotated && m@ == trim(m@))
}

/// The first seven characters of a commit id.
fn abbreviated(oid: &git2::Oid) -> (s: String)
    ensures
        s@.len() == 7,
{
    let hex = oid_hex(oid);
    let v = chars_of(hex.as_str());
    slice_string(&v, 0, 7)
}

/// The tag `name`, where its reference resolves to a commit.
fn read_tag(repo: &git2::Repository, name: &str) -> (r: Option<TagInfo>)
    ensures
        r matches Some(t) ==> tag_ok(t) && t.name@ == name@,
{
    let ref_name = concat2("refs/tags/", name);
    let reference = match find_reference(repo, ref_name.as_str()) {
        Ok(r) => r,
        Err(_) => return None,
    };
    let target = match reference_target(&reference) {
        Some(t) => t,
        None => return None,
    };
    let annotated = match object_is_tag(repo, target) {
        Ok(b) => b,
        Err(_) => return None,
    };
    let message = if annotated {
        let tag = match find_tag(repo, target) {
            Ok(t) => t,
            Err(_) => return None,
        };
        match tag_message(&tag) {
            Some(m) => {
                let t = trimmed(m.as_str());
                proof {
                    crate::text::lemma_trim_idempotent(m@);
                }
                Some(t)
            },
            None => None,
        }
    } else {
        None
    };
    let commit = match peel_to_commit(&reference) {
        Ok(c) => c,
        Err(_) => return None,
    };
    let date = commit_time(&commit);
    if !representable(date) {
        return None;
    }
    Some(TagInfo {
        name: to_owned_string(name),
        commit_hash: abbreviated(&commit_id(&commit)),
        date,
        message,
        is_annotated: annotated,
    })
}

fn tag_order(a: &TagInfo, b: &TagInfo) -> (o: std::cmp::Ordering)
    ensures
        (o is Less) == (a.date > b.date),
        (o is Greater) == (a.date < b.date),
{
    if a.date > b.date {
        std::cmp::Ordering::Less
    } else if a.date < b.date {
        std::cmp::Ordering::Greater
    } else {
        std::cmp::Ordering::Equal
    }
}

/// `slice::sort_by`, newest tag first. What is claimed: the tags come out
/// rearranged, no tag before a newer one.
#[verifier::external_body]
fn sort_tags(tags: &mut Vec<TagInfo>)
    ensures
        final(tags)@.to_multiset() == old(tags)@.to_multiset(),
        forall|i: int, j: int| 0 <= i < j < final(tags)@.len() ==> final(tags)@[i].date >= final(tags)@[j].date,
{
    tags.sort_by(|a, b| tag_order(a, b));
}

/// The tags of the repository, newest first; none when they cannot be listed.
pub fn list_tags(repo: &git2::Repository) -> (r: Vec<TagInfo>)
    ensures
        forall|i: int| 0 <= i < r@.len() ==> tag_ok(#[trigger] r@[i]),
        forall|i: int, j: int| 0 <= i < j < r@.len() ==> r@[i].date >= r@[j].date,
{
    let names = match tag_names(repo) {
        Ok(n) => n,
        Err(_) => return Vec::new(),
    };
    let mut tags: Vec<TagInfo> = Vec::new();
    let mut i: usize = 0;
    while i < names.len()
        invariant
            i <= names.len(),
            forall|k: int| 0 <= k < tags@.len() ==> tag_ok(#[trigger] tags@[k]),
        decreases names.len() - i,
    {
        if let Some(name) = &names[i] {
            if let Some(t) = read_tag(repo, name.as_str()) {
                tags.push(t);
            }
        }
        i = i + 1;
    }
    let ghost before = tags@;
    sort_tags(&mut tags);
    proof {
        broadcast use vstd::seq_lib::group_to_multiset_ensures;
        assert forall|k: int| 0 <= k < tags@.len() implies tag_ok(#[trigger] tags@[k]) by {
            let t = tags@[k];
            assert(tags@.contains(t));
            assert(tags@.to_multiset().count(t) > 0);
            assert(before.contains(t));
        }
    }
    tags
}

/// Deletes the local tag `name`.
pub fn delete_tag(repo: &git2::Repository, name: &str) -> (r: OperationResult)
    ensures
        r.branch_name@ == name@,
        r.action == BranchAction::DeleteTag,
        r.failure is None,
        r.success ==> r.message@ == "Deleted tag "@ + name@,
{
    match tag_delete(repo, name) {
        Ok(()) => OperationResult {
            branch_name: to_owned_string(name),
            action: BranchAction::DeleteTag,
            success: true,
            message: concat2("Deleted tag ", name),
            failure: None,
        },
        Err(e) => {
            let text = error_text(&e);
            OperationResult {
                branch_name: to_owned_string(name),
                action: BranchAction::DeleteTag,
                success: false,
                message: concat2("Failed: ", text.as_str()),
                failure: None,
            }
        },
    }
}

/// Deletes each of the local tags, in order.
pub fn delete_tags_batch(repo: &git2::Repository, names: &Vec<String>) -> (r: Vec<OperationResult>)
    ensures
        r@.len() == names@.len(),
        forall|i: int| 0 <= i < r@.len() ==> (#[trigger] r@[i]).branch_name@ == names@[i]@
            && r@[i].action == BranchAction::DeleteTag,
{
    let mut r: Vec<OperationResult> = Vec::new();
    let mut i: usize = 0;
    while i < names.len()
        invariant
            i <= names.len(),
            r@.len() == i,
            forall|k: int| 0 <= k < r@.len() ==> (#[trigger] r@[k]).branch_name@ == names@[k]@
                && r@[k].action == BranchAction::DeleteTag,
        decreases names.len() - i,
    {
        r.push(delete_tag(repo, names[i].as_str()));
        i = i + 1;
    }
    r
}

/// The arguments of `git push origin --delete` for the tags.
pub fn remote_tag_delete_args(names: &Vec<String>) -> (r: Vec<String>)
    ensures
        string_views(r@) == seq!["push"@, "origin"@, "--delete"@] + string_views(names@),
{
    let mut r: Vec<String> = Vec::new();
    r.push(to_owned_string("push"));
    r.push(to_owned_string("origin"));
    r.push(to_owned_string("--delete"));
    let mut i: usize = 0;
    while i < names.len()
        invariant
            i <= names.len(),
            string_views(r@) == seq!["push"@, "origin"@, "--delete"@] + string_views(names@.subrange(0, i as int)),
        decreases names.len() - i,
    {
        let ghost r_old = r@;
        let x = names[i].clone();
        r.push(x);
        proof {
            let head = seq!["push"@, "origin"@, "--delete"@];
            assert(string_views(r@) =~= string_views(r_old).push(x@));
            assert(string_views(names@.subrange(0, i + 1)) =~= string_views(names@.subrange(0, i as int)).push(names@[i as int]@));
            assert(head + string_views(names@.subrange(0, i + 1)) =~= (head + string_views(names@.subrange(0, i as int))).push(x@));
        }
        i = i + 1;
    }
    assert(names@.subrange(0, names@.len() as int) =~= names@);
    r
}

/// The result of deleting tag `name` on `origin`.
pub open spec fn remote_tag_result(r: OperationResult, name: Seq<char>, ok: bool) -> bool {
    plain_result(r, name, BranchAction::DeleteTagAndRemote, ok,
        if ok { "Deleted remote tag "@ + name } else { "Failed to delete remote tag "@ + name })
}

/// What deleting the tags on `origin` came to: all of them when the batch
/// push succeeded; otherwise each by its own push, `singles[i]` telling
/// whether the push for tag `i` succeeded. No tags, no results.
pub fn delete_remote_tags_batch(names: &Vec<String>, batch_ok: bool, singles: &Vec<bool>) -> (r: Vec<OperationResult>)
    requires
        batch_ok || names@.len() == 0 || singles@.len() == names@.len(),
    ensures
        r@.len() == names@.len(),
        forall|i: int| 0 <= i < r@.len() ==> remote_tag_result(#[trigger] r@[i], names@[i]@, batch_ok || singles@[i]),
{
    let mut r: Vec<OperationResult> = Vec::new();
    let mut i: usize = 0;
    while i < names.len()
        invariant
            batch_ok || names@.len() == 0 || singles@.len() == names@.len(),
            i <= names.len(),
            r@.len() == i,
            forall|k: int| 0 <= k < r@.len() ==> remote_tag_result(#[trigger] r@[k], names@[k]@, batch_ok || singles@[k]),
        decreases names.len() - i,
    {
        let name = names[i].as_str();
        let ok = batch_ok || singles[i];
        let message = if ok { concat2("Deleted remote tag ", name) } else { concat2("Failed to delete remote tag ", name) };
        r.push(OperationResult {
            branch_name: to_owned_string(name),
            action: BranchAction::DeleteTagAndRemote,
            success: ok,
            message,
            failure: None,
        });
        i = i + 1;
    }
    r
}

/// What `git push origin <tag>` came to.
pub fn push_tag(name: &str, outcome: &CmdOutcome) -> (r: OperationResult)
    ensures
        outcome_result(r, name@, BranchAction::PushTag, *outcome, "Pushed tag "@ + name@),
{
    match outcome {
        CmdOutcome::Succeeded => OperationResult {
            branch_name: to_owned_string(name),
            action: BranchAction::PushTag,
            success: true,
            message: concat2("Pushed tag ", name),
            failure: None,
        },
        CmdOutcome::Failed { stderr } => OperationResult {
            branch_name: to_owned_string(name),
            action: BranchAction::PushTag,
            success: false,
            message: trimmed(stderr.as_str()),
            failure: None,
        },
        CmdOutcome::SpawnFailed { error } => OperationResult {
            branch_name: to_owned_string(name),
            action: BranchAction::PushTag,
            success: false,
            message: to_owned_string(error.as_str()),
            failure: None,
        },
        CmdOutcome::Cancelled => crate::operations::cancelled(name, BranchAction::PushTag),
    }
}

} // verus!
