use git_branch_manager::worktree::{head_commit_date, is_main_checkout, is_registered_worktree};
use git_branch_manager::worktree::{apply_enrich_result, WorktreeEnrichResult};
use git_branch_manager::status::WorkingTreeStatus;
use git_branch_manager::types::{BranchInfo, MergeStatus, TrackingStatus};
use git_branch_manager::worktree::{
    apply_branch_merge_status, branches_checked_out_in_worktrees, list_worktrees, parse_worktree_list,
    try_list_worktrees, try_other_worktree_for_branch, try_worktree_for_branch, worktree_path_for_branch,
};

const LISTING: &str = "worktree /repo\nHEAD 0123456789abcdef0123456789abcdef01234567\nbranch refs/heads/main\n\nworktree /repo/.worktrees/feat\nHEAD fedcba9876543210fedcba9876543210fedcba98\nbranch refs/heads/feature/x\n\nworktree /tmp/detached\nHEAD 1111111111111111111111111111111111111111\ndetached\n\n";

#[test]
fn porcelain_listing_is_parsed_into_worktrees() {
    let ws = parse_worktree_list(LISTING, 7);
    assert_eq!(ws.len(), 3);
    assert_eq!(ws[0].path, "/repo");
    assert!(ws[0].is_main);
    assert_eq!(ws[0].branch.as_deref(), Some("main"));
    assert_eq!(ws[0].commit_hash, "0123456");
    assert_eq!(ws[1].path, "/repo/.worktrees/feat");
    assert!(!ws[1].is_main);
    assert_eq!(ws[1].branch.as_deref(), Some("feature/x"));
    assert_eq!(ws[1].commit_hash, "fedcba9");
    assert_eq!(ws[2].branch, None);
    assert_eq!(ws[2].age_date, 7);
    assert_eq!(ws[2].merge_status, MergeStatus::Unmerged);
    assert!(ws[2].wt_status.is_clean());
}

#[test]
fn empty_listing_and_failures() {
    assert!(parse_worktree_list("  \n", 0).is_empty());
    assert!(try_list_worktrees(Err("boom".into()), 0).is_err());
    assert!(list_worktrees(Err("boom".into()), 0).is_empty());
    assert_eq!(try_list_worktrees(Ok(LISTING.into()), 0).unwrap().len(), 3);
}

#[test]
fn crlf_lines_and_short_hashes() {
    let ws = parse_worktree_list("worktree /a\r\nHEAD abc\r\nbranch refs/remotes/x\r\n", 0);
    assert_eq!(ws.len(), 1);
    assert_eq!(ws[0].path, "/a");
    assert_eq!(ws[0].commit_hash, "abc");
    assert_eq!(ws[0].branch, None);
}

fn branch(name: &str, status: MergeStatus, is_base: bool) -> BranchInfo {
    BranchInfo {
        name: name.into(),
        is_current: false,
        is_base,
        tracking: TrackingStatus::Local,
        ahead: None,
        behind: None,
        last_commit_date: 0,
        merge_status: status,
        base_branch: "main".into(),
        merge_base_commit: None,
        pr: None,
        squash_confidence: None,
    }
}

#[test]
fn merge_status_is_copied_from_the_checked_out_branch() {
    let mut ws = parse_worktree_list(LISTING, 0);
    let branches = vec![branch("main", MergeStatus::InSync, true), branch("feature/x", MergeStatus::Merged, false)];
    apply_branch_merge_status(&mut ws, &branches);
    assert_eq!(ws[0].merge_status, MergeStatus::InSync);
    assert!(ws[0].is_base);
    assert_eq!(ws[1].merge_status, MergeStatus::Merged);
    assert!(!ws[1].is_base);
    assert_eq!(ws[2].merge_status, MergeStatus::Unmerged);
}

#[test]
fn branch_lookups_respect_the_callers_own_worktree() {
    let ws = || parse_worktree_list(LISTING, 0);
    let found = try_worktree_for_branch(Ok(ws()), "feature/x").unwrap().unwrap();
    assert_eq!(found.path, "/repo/.worktrees/feat");
    assert!(try_worktree_for_branch(Ok(ws()), "nope").unwrap().is_none());
    assert!(try_worktree_for_branch(Err("x".into()), "main").is_err());

    let own_is_linked = vec![false, true, false];
    assert!(try_other_worktree_for_branch(Ok(ws()), &own_is_linked, "feature/x").unwrap().is_none());
    assert_eq!(
        try_other_worktree_for_branch(Ok(ws()), &own_is_linked, "main").unwrap().unwrap().path,
        "/repo"
    );
    assert_eq!(worktree_path_for_branch(Ok(ws()), &vec![], "feature/x"), Some("/repo/.worktrees/feat".to_string()));
    assert_eq!(worktree_path_for_branch(Err("x".into()), &vec![], "feature/x"), None);

    let names = branches_checked_out_in_worktrees(&ws());
    assert!(names.contains("feature/x"));
    assert!(!names.contains("main"));
}

#[test]
fn head_commit_date_reads_the_commit_time_or_falls_back() {
    assert_eq!(head_commit_date("1700000000\n", 5), 1_700_000_000);
    assert_eq!(head_commit_date("  -12 ", 5), -12);
    assert_eq!(head_commit_date("", 5), 5);
    assert_eq!(head_commit_date("12abc", 5), 5);
    assert_eq!(head_commit_date("99999999999999999999", 5), 5);
    // representable by i64 but not as a calendar time
    assert_eq!(head_commit_date("9223372036854775807", 5), 5);
}

#[test]
fn enrichment_results_land_on_their_worktree() {
    let mut ws = parse_worktree_list(LISTING, 0);
    let n = ws.len();
    let mut dirty = WorkingTreeStatus::clean();
    dirty.has_untracked = true;
    apply_enrich_result(&mut ws, WorktreeEnrichResult { index: 1, wt_status: dirty, age_date: 77 });
    assert_eq!(ws.len(), n);
    assert_eq!(ws[1].age_date, 77);
    assert!(ws[1].wt_status.has_untracked);
    assert_eq!(ws[0].age_date, 0);
    apply_enrich_result(&mut ws, WorktreeEnrichResult { index: 99, wt_status: WorkingTreeStatus::clean(), age_date: 1 });
    assert_eq!(ws.len(), n);
}

#[test]
fn main_checkout_compares_canonical_forms_and_falls_back_to_the_paths() {
    assert!(is_main_checkout("/repo", "./repo", Some("/real/repo"), Some("/real/repo")));
    assert!(!is_main_checkout("/repo", "/repo", Some("/real/repo"), Some("/real/other")));
    assert!(is_main_checkout("/repo", "/repo/", None, None));
    assert!(is_main_checkout("/repo", "/gone", Some("/gone"), None));
    assert!(!is_main_checkout("/repo", "/gone", None, None));
}

#[test]
fn registered_worktrees_compare_only_canonical_paths() {
    let linked = vec![None, Some("/real/wt-a".to_string()), Some("/real/wt-b".to_string())];
    assert!(is_registered_worktree(Some("/real/wt-b"), &linked));
    assert!(!is_registered_worktree(Some("/real/wt-c"), &linked));
    assert!(!is_registered_worktree(None, &linked));
    assert!(!is_registered_worktree(Some("/real/wt-a"), &Vec::new()));
}
