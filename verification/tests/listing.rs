use git_branch_manager::keyed::KeyedList;
use git_branch_manager::listing::{attach_prs, order_branch_rows, pin_first};
use git_branch_manager::types::{BranchInfo, MergeStatus, PrInfo, PrStatus, TrackingStatus};

fn row(name: &str, is_current: bool, is_base: bool) -> BranchInfo {
    BranchInfo {
        name: name.into(),
        is_current,
        is_base,
        tracking: TrackingStatus::Local,
        ahead: None,
        behind: None,
        last_commit_date: 0,
        merge_status: MergeStatus::Unmerged,
        base_branch: "main".into(),
        merge_base_commit: None,
        pr: Some(PrInfo { number: 1, status: PrStatus::Closed }),
        squash_confidence: None,
    }
}

#[test]
fn pin_first_is_stable() {
    let rows = vec![1, 2, 3, 4, 5];
    let pinned = vec![false, true, false, true, false];
    assert_eq!(pin_first(rows, &pinned), vec![2, 4, 1, 3, 5]);
    assert_eq!(pin_first(Vec::<u8>::new(), &Vec::new()), Vec::<u8>::new());
}

#[test]
fn branch_rows_put_base_then_current_first() {
    let rows = vec![
        row("newest", false, false),
        row("feature", true, false),
        row("older", false, false),
        row("main", false, true),
    ];
    let names: Vec<String> = order_branch_rows(rows).into_iter().map(|b| b.name).collect();
    assert_eq!(names, vec!["main", "feature", "newest", "older"]);
}

#[test]
fn prs_are_attached_by_branch_name() {
    let mut prs = KeyedList::new();
    prs.set("feature".to_string(), PrInfo { number: 42, status: PrStatus::Open });
    let mut rows = vec![row("feature", false, false), row("other", false, false)];
    attach_prs(&mut rows, &prs);
    assert_eq!(rows[0].pr, Some(PrInfo { number: 42, status: PrStatus::Open }));
    assert_eq!(rows[1].pr, None);
    assert_eq!(rows[1].name, "other");
}
