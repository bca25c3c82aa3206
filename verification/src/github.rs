//! Pull requests of the repository, as listed by
//! `gh pr list --json number,headRefName,isDraft,state`.
//!
//! Running `gh` belongs to the caller; the listing's bytes are parsed as
//! JSON by `serde_json` and decoded here.

use vstd::prelude::*;
use crate::keyed::KeyedList;
use crate::types::{PrInfo, PrStatus};
use crate::text::{concat2, concat4, str_eq, trim};

verus! {

/// Pull requests by the name of their head branch.
pub type PrMap = KeyedList<PrInfo>;

/// A JSON document, holding of each number its value as a `u64` when it is
/// a non-negative integer that fits one.
#[derive(Debug)]
pub enum Json {
    Null,
    Bool(bool),
    Number(Option<u64>),
    Str(String),
    Array(Vec<Json>),
    /// Members in key order, each key once.
    Object(Vec<(String, Json)>),
}

/// The JSON value `serde_json` reads from `bytes`, when they hold one.
pub uninterp spec fn json_parse(bytes: Seq<u8>) -> Option<Json>;

#[verifier::external_type_specification]
#[verifier::external_body]
pub struct ExJsonValue(serde_json::Value);

/// Reads `bytes` as a JSON value with `serde_json::from_slice`. What is
/// claimed: the outcome is a function of the bytes alone, named
/// [`json_parse`], and the error carries `serde_json`'s message.
#[verifier::external_body]
fn parse_json(bytes: &[u8]) -> (r: Result<Json, String>)
    ensures
        match r {
            Ok(j) => json_parse(bytes@) == Some(j),
            Err(_) => json_parse(bytes@) is None,
        },
{
    match serde_json::from_slice::<serde_json::Value>(bytes) {
        Ok(v) => Ok(json_from_value(v)),
        Err(e) => Err(e.to_string()),
    }
}

/// The document `parse_json` hands back for a parsed `serde_json::Value`:
/// each variant moved into its counterpart, numbers by `Number::as_u64`.
#[verifier::external_body]
fn json_from_value(v: serde_json::Value) -> Json {
    match v {
        serde_json::Value::Null => Json::Null,
        serde_json::Value::Bool(b) => Json::Bool(b),
        serde_json::Value::Number(n) => Json::Number(n.as_u64()),
        serde_json::Value::String(s) => Json::Str(s),
        serde_json::Value::Array(a) => Json::Array(a.into_iter().map(json_from_value).collect()),
        serde_json::Value::Object(o) => Json::Object(o.into_iter().map(|(k, x)| (k, json_from_value(x))).collect()),
    }
}

/// One entry of the listing.
#[derive(Debug)]
pub struct PrEntry {
    pub number: u32,
    pub head_ref_name: String,
    pub is_draft: bool,
    pub state: String,
}

/// The value of member `key` of an object's members, if present.
pub open spec fn member(members: Seq<(String, Json)>, key: Seq<char>) -> Option<Json> {
    if exists|i: int| 0 <= i < members.len() && members[i].0@ == key {
        let i = choose|i: int| 0 <= i < members.len() && members[i].0@ == key
            && forall|k: int| 0 <= k < i ==> members[k].0@ != key;
        Some(members[i].1)
    } else {
        None
    }
}

/// An entry read from its four values: `number` a `u32`, `headRefName` a
/// string, `isDraft` a boolean and `state` a string.
pub open spec fn entry_from_values(number: Json, head: Json, draft: Json, state: Json) -> Option<PrEntry> {
    match (number, head, draft, state) {
        (Json::Number(Some(n)), Json::Str(h), Json::Bool(d), Json::Str(st)) =>
            if n <= u32::MAX {
                Some(PrEntry { number: n as u32, head_ref_name: h, is_draft: d, state: st })
            } else {
                None
            },
        _ => None,
    }
}

/// An entry read from a JSON object with members `number`, `headRefName`,
/// `isDraft` and `state` (other members are ignored), or from an array of
/// exactly those four values in that order.
pub open spec fn entry_of(j: Json) -> Option<PrEntry> {
    match j {
        Json::Array(vs) => if vs@.len() == 4 {
            entry_from_values(vs@[0], vs@[1], vs@[2], vs@[3])
        } else {
            None
        },
        Json::Object(ms) => {
            match (member(ms@, "number"@), member(ms@, "headRefName"@), member(ms@, "isDraft"@), member(ms@, "state"@)) {
                (Some(Json::Number(Some(n))), Some(Json::Str(h)), Some(Json::Bool(d)), Some(Json::Str(st))) =>
                    if n <= u32::MAX {
                        Some(PrEntry { number: n as u32, head_ref_name: h, is_draft: d, state: st })
                    } else {
                        None
                    },
                _ => None,
            }
        },
        _ => None,
    }
}

/// The entries of a JSON array whose items all read as entries.
pub open spec fn entries_of(j: Json) -> Option<Seq<PrEntry>> {
    match j {
        Json::Array(items) => if forall|i: int| 0 <= i < items@.len() ==> (#[trigger] entry_of(items@[i])) is Some {
            Some(items@.map_values(|x: Json| entry_of(x)->0))
        } else {
            None
        },
        _ => None,
    }
}

/// The status an entry shows: draft first, then merged or closed, open otherwise.
pub open spec fn status_of(e: PrEntry) -> PrStatus {
    if e.is_draft {
        PrStatus::Draft
    } else if e.state@ == "MERGED"@ {
        PrStatus::Merged
    } else if e.state@ == "CLOSED"@ {
        PrStatus::Closed
    } else {
        PrStatus::Open
    }
}

/// The pull requests of the entries, a later entry for a branch replacing an earlier one.
pub open spec fn pr_map_of(es: Seq<PrEntry>) -> Map<Seq<char>, PrInfo>
    decreases es.len(),
{
    if es.len() == 0 {
        Map::empty()
    } else {
        let e = es.last();
        pr_map_of(es.drop_last()).insert(e.head_ref_name@, PrInfo { number: e.number, status: status_of(e) })
    }
}

fn status_for(e: &PrEntry) -> (s: PrStatus)
    ensures
        s == status_of(*e),
{
    if e.is_draft {
        PrStatus::Draft
    } else if str_eq(e.state.as_str(), "MERGED") {
        PrStatus::Merged
    } else if str_eq(e.state.as_str(), "CLOSED") {
        PrStatus::Closed
    } else {
        PrStatus::Open
    }
}

/// The pull requests of a listing's entries by head branch.
pub fn entries_to_pr_map(entries: Vec<PrEntry>) -> (m: PrMap)
    ensures
        m.wf(),
        m.view() == pr_map_of(entries@),
{
    let mut m: PrMap = KeyedList::new();
    let mut i: usize = 0;
    while i < entries.len()
        invariant
            i <= entries.len(),
            m.wf(),
            m.view() == pr_map_of(entries@.subrange(0, i as int)),
        decreases entries.len() - i,
    {
        let e = &entries[i];
        let info = PrInfo { number: e.number, status: status_for(e) };
        m.set(e.head_ref_name.clone(), info);
        proof {
            assert(entries@.subrange(0, i + 1).drop_last() =~= entries@.subrange(0, i as int));
        }
        i = i + 1;
    }
    assert(entries@.subrange(0, entries.len() as int) =~= entries@);
    m
}

fn member_of<'a>(members: &'a Vec<(String, Json)>, key: &str) -> (r: Option<&'a Json>)
    ensures
        match r {
            Some(v) => member(members@, key@) == Some(*v),
            None => member(members@, key@) is None,
        },
{
    let mut i: usize = 0;
    while i < members.len()
        invariant
            i <= members.len(),
            forall|k: int| 0 <= k < i ==> members@[k].0@ != key@,
        decreases members.len() - i,
    {
        if str_eq(members[i].0.as_str(), key) {
            proof {
                let c = choose|c: int| 0 <= c < members@.len() && members@[c].0@ == key@
                    && forall|k: int| 0 <= k < c ==> members@[k].0@ != key@;
                assert(0 <= i < members@.len() && members@[i as int].0@ == key@
                    && forall|k: int| 0 <= k < i ==> members@[k].0@ != key@);
                if c < i {
                    assert(members@[c].0@ != key@);
                } else if c > i {
                    assert(members@[i as int].0@ != key@);
                }
            }
            return Some(&members[i].1);
        }
        i = i + 1;
    }
    None
}

fn clone_string(s: &String) -> (r: String)
    ensures
        r == *s,
{
    s.clone()
}

fn entry_from_json(j: &Json) -> (r: Option<PrEntry>)
    ensures
        r == entry_of(*j),
{
    reveal(entry_of);
    match j {
        Json::Array(vs) => {
            if vs.len() != 4 {
                return None;
            }
            match (&vs[0], &vs[1], &vs[2], &vs[3]) {
                (Json::Number(Some(n)), Json::Str(h), Json::Bool(d), Json::Str(st)) => {
                    if *n <= 0xffff_ffffu64 {
                        Some(PrEntry { number: *n as u32, head_ref_name: clone_string(h), is_draft: *d, state: clone_string(st) })
                    } else {
                        None
                    }
                },
                _ => None,
            }
        },
        Json::Object(ms) => {
            let number = member_of(ms, "number");
            let head = member_of(ms, "headRefName");
            let draft = member_of(ms, "isDraft");
            let state = member_of(ms, "state");
            match (number, head, draft, state) {
                (Some(Json::Number(Some(n))), Some(Json::Str(h)), Some(Json::Bool(d)), Some(Json::Str(st))) => {
                    if *n <= 0xffff_ffffu64 {
                        Some(PrEntry { number: *n as u32, head_ref_name: clone_string(h), is_draft: *d, state: clone_string(st) })
                    } else {
                        None
                    }
                },
                _ => None,
            }
        },
        _ => None,
    }
}

fn entries_from_items(items: &Vec<Json>) -> (r: Option<Vec<PrEntry>>)
    ensures
        match r {
            Some(es) => es@.len() == items@.len()
                && forall|k: int| 0 <= k < items@.len() ==> (#[trigger] entry_of(items@[k])) == Some(es@[k]),
            None => exists|k: int| 0 <= k < items@.len() && (#[trigger] entry_of(items@[k])) is None,
        },
{
    let mut es: Vec<PrEntry> = Vec::new();
    let mut i: usize = 0;
    while i < items.len()
        invariant
            i <= items.len(),
            es@.len() == i,
            forall|k: int| 0 <= k < i ==> (#[trigger] entry_of(items@[k])) == Some(es@[k]),
        decreases items.len() - i,
    {
        let e = entry_from_json(&items[i]);
        match e {
            Some(e) => es.push(e),
            None => {
                return None;
            },
        }
        i = i + 1;
    }
    Some(es)
}

/// The entries of a parsed listing, or an error naming what did not fit.
pub fn entries_from_json(doc: &Json) -> (r: Result<Vec<PrEntry>, String>)
    ensures
        match r {
            Ok(es) => entries_of(*doc) == Some(es@),
            Err(_) => entries_of(*doc) is None,
        },
{
    match doc {
        Json::Array(items) => {
            match entries_from_items(items) {
                Some(es) => {
                    proof {
                        assert(es@ =~= items@.map_values(|x: Json| entry_of(x)->0));
                    }
                    Ok(es)
                },
                None => Err("gh pr list entry has an unexpected shape".to_string()),
            }
        },
        _ => Err("gh pr list output is not a JSON array".to_string()),
    }
}

/// The pull requests of a parsed listing.
pub fn pr_list_from_json(doc: &Json) -> (r: Result<PrMap, String>)
    ensures
        match r {
            Ok(m) => m.wf() && entries_of(*doc) is Some && m.view() == pr_map_of(entries_of(*doc)->0),
            Err(_) => entries_of(*doc) is None,
        },
{
    match entries_from_json(doc) {
        Ok(es) => Ok(entries_to_pr_map(es)),
        Err(e) => Err(e),
    }
}

/// The pull requests of the bytes `gh pr list --json ...` printed; an error
/// when they are not JSON or not a list of entries.
pub fn parse_pr_list(bytes: &[u8]) -> (r: Result<PrMap, String>)
    ensures
        match json_parse(bytes@) {
            None => r is Err,
            Some(doc) => match r {
                Ok(m) => m.wf() && entries_of(doc) is Some && m.view() == pr_map_of(entries_of(doc)->0),
                Err(_) => entries_of(doc) is None,
            },
        },
{
    match parse_json(bytes) {
        Ok(doc) => pr_list_from_json(&doc),
        Err(e) => Err(e),
    }
}

/// The pull requests of the listing, with none when `gh` failed (`stdout`
/// is `None`) or printed something else.
pub fn fetch_open_prs(stdout: Option<&[u8]>) -> (m: PrMap)
    ensures
        m.wf(),
        match stdout {
            None => m.view() == Map::<Seq<char>, PrInfo>::empty(),
            Some(bytes) => match json_parse(bytes@) {
                Some(doc) if entries_of(doc) is Some => m.view() == pr_map_of(entries_of(doc)->0),
                _ => m.view() == Map::<Seq<char>, PrInfo>::empty(),
            },
        },
{
    match stdout {
        None => KeyedList::new(),
        Some(bytes) => match parse_pr_list(bytes) {
            Ok(m) => m,
            Err(_) => KeyedList::new(),
        },
    }
}


/// What running `gh pr list --json ...` came to.
#[derive(Debug)]
pub enum GhOutcome {
    /// `gh` ran; whether it exited with status zero, the status as shown,
    /// what it printed, and its standard error decoded lossily.
    Exited { success: bool, status: String, stdout: Vec<u8>, stderr: String },
    /// `gh` could not be run; the error's text.
    SpawnFailed { error: String },
}

/// The pull requests `gh pr list` reported: an error when `gh` could not
/// run, exited with another status (naming it and its trimmed standard
/// error), or printed something other than a list of entries.
pub fn fetch_open_prs_checked(outcome: &GhOutcome) -> (r: Result<PrMap, String>)
    ensures
        match *outcome {
            GhOutcome::SpawnFailed { error } => r is Err && r->Err_0@ == "failed to spawn gh: "@ + error@,
            GhOutcome::Exited { success, status, stdout, stderr } => if !success {
                r is Err && r->Err_0@ == "gh exited with status "@ + status@ + ": "@ + trim(stderr@)
            } else {
                match json_parse(stdout@) {
                    None => r is Err,
                    Some(doc) => match r {
                        Ok(m) => m.wf() && entries_of(doc) is Some && m.view() == pr_map_of(entries_of(doc)->0),
                        Err(_) => entries_of(doc) is None,
                    },
                }
            },
        },
{
    match outcome {
        GhOutcome::SpawnFailed { error } => Err(concat2("failed to spawn gh: ", error.as_str())),
        GhOutcome::Exited { success, status, stdout, stderr } => {
            if !*success {
                let e = crate::operations::trimmed(stderr.as_str());
                Err(concat4("gh exited with status ", status.as_str(), ": ", e.as_str()))
            } else {
                parse_pr_list(stdout.as_slice())
            }
        },
    }
}

} // verus!
