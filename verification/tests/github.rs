use git_branch_manager::github::{fetch_open_prs_checked, GhOutcome};
use git_branch_manager::github::{entries_to_pr_map, fetch_open_prs, parse_pr_list, PrEntry};
use git_branch_manager::types::PrStatus;

#[test]
fn parse_pr_list_invalid_json_returns_err() {
    let err = parse_pr_list(b"not valid json");
    assert!(err.is_err(), "expected Err for invalid JSON");
}

#[test]
fn parse_pr_list_wrong_shape_returns_err() {
    // Valid JSON but not an array of entries
    let err = parse_pr_list(b"{\"foo\": 1}");
    assert!(err.is_err(), "expected Err for wrong-shape JSON");
}

#[test]
fn parse_pr_list_empty_array_returns_empty_map() {
    let map = parse_pr_list(b"[]").expect("empty array should parse");
    assert!(map.is_empty());
}

#[test]
fn parse_pr_list_valid_entries() {
    let json = br#"[
        {"number": 42, "headRefName": "feat/foo", "isDraft": false, "state": "OPEN"},
        {"number": 7,  "headRefName": "feat/bar", "isDraft": true,  "state": "OPEN"},
        {"number": 99, "headRefName": "feat/baz", "isDraft": false, "state": "MERGED"}
    ]"#;
    let map = parse_pr_list(json).expect("valid JSON should parse");
    assert_eq!(map.len(), 3);

    let foo = map.get("feat/foo").expect("feat/foo missing");
    assert_eq!(foo.number, 42);
    assert!(matches!(foo.status, PrStatus::Open));

    let bar = map.get("feat/bar").expect("feat/bar missing");
    assert!(matches!(bar.status, PrStatus::Draft));

    let baz = map.get("feat/baz").expect("feat/baz missing");
    assert!(matches!(baz.status, PrStatus::Merged));
}

#[test]
fn parse_pr_list_closed_and_missing_field() {
    let closed = parse_pr_list(br#"[{"number": 3, "headRefName": "x", "isDraft": false, "state": "CLOSED", "extra": 1}]"#)
        .expect("extra members are ignored");
    assert!(matches!(closed.get("x").unwrap().status, PrStatus::Closed));
    assert!(parse_pr_list(br#"[{"number": 3, "headRefName": "x", "state": "OPEN"}]"#).is_err());
    assert!(parse_pr_list(br#"[{"number": -3, "headRefName": "x", "isDraft": false, "state": "OPEN"}]"#).is_err());
    assert!(parse_pr_list(br#"[{"number": 4294967296, "headRefName": "x", "isDraft": false, "state": "OPEN"}]"#).is_err());
}

#[test]
fn later_entry_for_a_branch_wins() {
    let map = entries_to_pr_map(vec![
        PrEntry { number: 1, head_ref_name: "b".into(), is_draft: false, state: "CLOSED".into() },
        PrEntry { number: 2, head_ref_name: "b".into(), is_draft: false, state: "OPEN".into() },
    ]);
    assert_eq!(map.len(), 1);
    assert_eq!(map.get("b").unwrap().number, 2);
    assert!(matches!(map.get("b").unwrap().status, PrStatus::Open));
}

#[test]
fn fetch_open_prs_is_empty_on_failure() {
    assert!(fetch_open_prs(None).is_empty());
    assert!(fetch_open_prs(Some(b"garbage")).is_empty());
    assert_eq!(fetch_open_prs(Some(br#"[{"number": 5, "headRefName": "a", "isDraft": false, "state": "OPEN"}]"#)).len(), 1);
}

#[test]
fn checked_fetch_reports_why_it_failed() {
    let spawn = fetch_open_prs_checked(&GhOutcome::SpawnFailed { error: "No such file".into() });
    assert_eq!(spawn.err().unwrap(), "failed to spawn gh: No such file");
    let exited = fetch_open_prs_checked(&GhOutcome::Exited {
        success: false,
        status: "exit status: 4".into(),
        stdout: Vec::new(),
        stderr: "  not logged in\n".into(),
    });
    assert_eq!(exited.err().unwrap(), "gh exited with status exit status: 4: not logged in");
    let bad = fetch_open_prs_checked(&GhOutcome::Exited {
        success: true,
        status: "exit status: 0".into(),
        stdout: b"{\"foo\": 1}".to_vec(),
        stderr: String::new(),
    });
    assert!(bad.is_err());
    let ok = fetch_open_prs_checked(&GhOutcome::Exited {
        success: true,
        status: "exit status: 0".into(),
        stdout: br#"[{"number": 7, "headRefName": "feat", "isDraft": true, "state": "OPEN"}]"#.to_vec(),
        stderr: String::new(),
    })
    .unwrap();
    assert_eq!(ok.len(), 1);
}

#[test]
fn an_entry_may_be_written_as_its_four_values_in_order() {
    let m = parse_pr_list(br#"[[12, "feature/a", false, "OPEN"], {"number": 3, "headRefName": "b", "isDraft": true, "state": "OPEN"}]"#)
        .unwrap();
    assert_eq!(m.get("feature/a").map(|p| p.number), Some(12));
    assert_eq!(m.get("b").map(|p| p.number), Some(3));
    assert!(parse_pr_list(br#"[[12, "feature/a", false]]"#).is_err());
    assert!(parse_pr_list(br#"[[12, "feature/a", false, "OPEN", 1]]"#).is_err());
}
