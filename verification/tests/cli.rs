use git_branch_manager::cli::{Cli, DumpView};

fn flags() -> Cli {
    Cli {
        repo: None,
        base: None,
        list: false,
        symbols: None,
        branches: false,
        remotes: false,
        tags: false,
        worktrees: false,
    }
}

#[test]
fn no_flag_starts_the_ui() {
    let c = flags();
    assert_eq!(c.dump_view(), None);
    assert!(!c.warns_list_deprecated());
    assert_eq!(c.search_path(), ".");
}

#[test]
fn branch_flags_win_over_the_others() {
    let mut c = flags();
    c.tags = true;
    c.remotes = true;
    assert_eq!(c.dump_view(), Some(DumpView::Remotes));
    c.list = true;
    assert_eq!(c.dump_view(), Some(DumpView::Branches));
    assert!(c.warns_list_deprecated());
    let mut w = flags();
    w.worktrees = true;
    w.repo = Some("/tmp/repo".into());
    assert_eq!(w.dump_view(), Some(DumpView::Worktrees));
    assert_eq!(w.search_path(), "/tmp/repo");
}
