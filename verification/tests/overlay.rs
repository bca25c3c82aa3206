use git_branch_manager::delete_preflight::ConfirmExtraKey;
use git_branch_manager::diagnostics::CacheAudit;
use git_branch_manager::menu::MenuItem;
use git_branch_manager::overlay::{overlay_key_step, InfoFocus, KeyInput, Overlay, OverlayChange, OverlayEffect};
use git_branch_manager::types::{BranchAction, FailureCause, OperationResult};

fn confirm() -> Overlay {
    Overlay::Confirm {
        action: BranchAction::DeleteLocal,
        targets: vec!["feature/x".to_string()],
        remote: None,
        reason: Some("Branch feature/x has unique commits not on main".to_string()),
        extra_keys: vec![ConfirmExtraKey {
            key: '!',
            label: "force-delete".to_string(),
            action: BranchAction::DeleteLocalForce,
            targets: vec!["feature/x".to_string()],
        }],
    }
}

fn failed(name: &str, failure: Option<FailureCause>) -> OperationResult {
    OperationResult { branch_name: name.into(), action: BranchAction::DeleteLocal, success: false, message: "no".into(), failure }
}

#[test]
fn confirm_y_and_enter_start_the_action() {
    for key in [KeyInput::Char('y'), KeyInput::Enter] {
        match overlay_key_step(confirm(), key) {
            OverlayEffect::Start { action, targets, remote } => {
                assert_eq!(action, BranchAction::DeleteLocal);
                assert_eq!(targets, vec!["feature/x".to_string()]);
                assert_eq!(remote, None);
            }
            other => panic!("unexpected {other:?}"),
        }
    }
}

#[test]
fn confirm_n_and_esc_cancel() {
    assert!(matches!(overlay_key_step(confirm(), KeyInput::Char('n')), OverlayEffect::Close));
    assert!(matches!(overlay_key_step(confirm(), KeyInput::Esc), OverlayEffect::Close));
    assert!(matches!(overlay_key_step(Overlay::Help, KeyInput::Char('q')), OverlayEffect::Close));
}

#[test]
fn confirm_extra_key_swaps_the_pending_action() {
    match overlay_key_step(confirm(), KeyInput::Char('!')) {
        OverlayEffect::Show(Overlay::Confirm { action, targets, reason, extra_keys, .. }) => {
            assert_eq!(action, BranchAction::DeleteLocalForce);
            assert_eq!(targets, vec!["feature/x".to_string()]);
            assert!(reason.is_some());
            assert_eq!(extra_keys.len(), 1);
        }
        other => panic!("unexpected {other:?}"),
    }
    match overlay_key_step(confirm(), KeyInput::Char('z')) {
        OverlayEffect::Show(Overlay::Confirm { action, .. }) => assert_eq!(action, BranchAction::DeleteLocal),
        other => panic!("unexpected {other:?}"),
    }
}

#[test]
fn results_keys_recover_only_the_matching_failures() {
    let results = || Overlay::Results {
        results: vec![
            failed("a", Some(FailureCause::NotMerged)),
            failed("b", Some(FailureCause::CheckedOutInWorktree { worktree_path: "/w/b".into(), is_main: false })),
            failed("c", Some(FailureCause::CheckedOutInWorktree { worktree_path: "/repo".into(), is_main: true })),
            failed("d", Some(FailureCause::NotMerged)),
        ],
    };
    match overlay_key_step(results(), KeyInput::Char('!')) {
        OverlayEffect::Start { action, targets, .. } => {
            assert_eq!(action, BranchAction::DeleteLocalForce);
            assert_eq!(targets, vec!["a".to_string(), "d".to_string()]);
        }
        other => panic!("unexpected {other:?}"),
    }
    match overlay_key_step(results(), KeyInput::Char('r')) {
        OverlayEffect::Start { action, targets, .. } => {
            assert_eq!(action, BranchAction::DeleteBranchAndRemoveWorktree);
            assert_eq!(targets, vec!["b".to_string()]);
        }
        other => panic!("unexpected {other:?}"),
    }
    assert!(matches!(overlay_key_step(results(), KeyInput::Enter), OverlayEffect::Close));
    let only_other = Overlay::Results { results: vec![failed("x", None)] };
    assert!(matches!(overlay_key_step(only_other, KeyInput::Char('!')), OverlayEffect::Show(Overlay::Results { .. })));
}

fn item(label: &str, enabled: bool, shortcut: Option<char>) -> MenuItem {
    MenuItem {
        label: label.into(),
        enabled,
        reason: None,
        shortcut,
        action: BranchAction::DeleteLocal,
        target: "feature/x".into(),
        remote: None,
    }
}

fn menu(cursor: usize) -> Overlay {
    Overlay::Menu {
        cursor,
        items: vec![item("a", true, Some('a')), item("b", false, Some('b')), item("c", true, Some('c'))],
    }
}

fn menu_cursor(e: OverlayEffect) -> usize {
    match e {
        OverlayEffect::Show(Overlay::Menu { cursor, .. }) => cursor,
        other => panic!("expected the menu, got {other:?}"),
    }
}

#[test]
fn menu_cursor_skips_disabled_entries() {
    assert_eq!(menu_cursor(overlay_key_step(menu(0), KeyInput::Char('j'))), 2);
    assert_eq!(menu_cursor(overlay_key_step(menu(2), KeyInput::Down)), 2);
    assert_eq!(menu_cursor(overlay_key_step(menu(2), KeyInput::Up)), 0);
    assert_eq!(menu_cursor(overlay_key_step(menu(0), KeyInput::Char('k'))), 0);
}

#[test]
fn menu_runs_enabled_entries_by_enter_or_shortcut() {
    match overlay_key_step(menu(2), KeyInput::Enter) {
        OverlayEffect::RunMenuItem(i) => assert_eq!(i.label, "c"),
        other => panic!("{other:?}"),
    }
    match overlay_key_step(menu(0), KeyInput::Char('c')) {
        OverlayEffect::RunMenuItem(i) => assert_eq!(i.label, "c"),
        other => panic!("{other:?}"),
    }
    assert_eq!(menu_cursor(overlay_key_step(menu(1), KeyInput::Enter)), 1);
    assert_eq!(menu_cursor(overlay_key_step(menu(0), KeyInput::Char('b'))), 0);
    assert!(matches!(overlay_key_step(menu(0), KeyInput::Char('q')), OverlayEffect::Close));
}

#[test]
fn info_modal_switches_panes_and_copies_fields() {
    let modal = |focus, info_cursor| Overlay::InfoModal {
        cursor: 0,
        info_cursor,
        focus,
        items: vec![item("a", true, Some('a'))],
        info_fields: 3,
    };
    match overlay_key_step(modal(InfoFocus::Actions, 0), KeyInput::Tab) {
        OverlayEffect::Show(Overlay::InfoModal { focus, .. }) => assert_eq!(focus, InfoFocus::Info),
        other => panic!("{other:?}"),
    }
    match overlay_key_step(modal(InfoFocus::Info, 2), KeyInput::Down) {
        OverlayEffect::Show(Overlay::InfoModal { info_cursor, .. }) => assert_eq!(info_cursor, 2),
        other => panic!("{other:?}"),
    }
    match overlay_key_step(modal(InfoFocus::Info, 1), KeyInput::Char('y')) {
        OverlayEffect::ShowAnd(_, change) => assert_eq!(change, OverlayChange::CopyInfoField { index: 1 }),
        other => panic!("{other:?}"),
    }
    match overlay_key_step(modal(InfoFocus::Info, 0), KeyInput::Char('d')) {
        OverlayEffect::ShowAnd(_, change) => assert_eq!(change, OverlayChange::ScrollInfo { down: true }),
        other => panic!("{other:?}"),
    }
    assert!(matches!(overlay_key_step(modal(InfoFocus::Actions, 0), KeyInput::Char('a')), OverlayEffect::RunMenuItem(_)));
    assert!(matches!(overlay_key_step(modal(InfoFocus::Info, 0), KeyInput::Char('a')), OverlayEffect::Show(_)));
}

#[test]
fn executing_settings_filter_graph_and_diagnostics_keys() {
    let exec = Overlay::Executing { label: "Deleting".into(), progress: None };
    assert!(matches!(overlay_key_step(exec, KeyInput::Esc), OverlayEffect::CancelJob));
    match overlay_key_step(Overlay::Settings { cursor: 7 }, KeyInput::Down) {
        OverlayEffect::Show(Overlay::Settings { cursor }) => assert_eq!(cursor, 7),
        other => panic!("{other:?}"),
    }
    match overlay_key_step(Overlay::Settings { cursor: 3 }, KeyInput::Char('h')) {
        OverlayEffect::ShowAnd(_, change) => assert_eq!(change, OverlayChange::Setting { row: 3, forward: false }),
        other => panic!("{other:?}"),
    }
    assert!(matches!(overlay_key_step(Overlay::Settings { cursor: 3 }, KeyInput::Char('q')), OverlayEffect::Show(_)));
    assert!(matches!(overlay_key_step(Overlay::Filter, KeyInput::Char('\\')), OverlayEffect::Close));
    match overlay_key_step(Overlay::Filter, KeyInput::Char('m')) {
        OverlayEffect::ShowAnd(_, change) => assert_eq!(change, OverlayChange::ToggleFilterToken('m')),
        other => panic!("{other:?}"),
    }
    match overlay_key_step(Overlay::GraphOptions { cursor: 0, include_remotes: false }, KeyInput::Char(' ')) {
        OverlayEffect::Show(Overlay::GraphOptions { include_remotes, .. }) => assert!(include_remotes),
        other => panic!("{other:?}"),
    }
    assert!(matches!(
        overlay_key_step(Overlay::GraphOptions { cursor: 1, include_remotes: true }, KeyInput::Enter),
        OverlayEffect::ApplyGraphOptions { cursor: 1, include_remotes: true }
    ));
    assert!(matches!(overlay_key_step(Overlay::Diagnostics { cursor: 0 }, KeyInput::Enter), OverlayEffect::RunCacheAudit));
    let report = Overlay::DiagnosticsReport { audit: CacheAudit::new(), scroll: 0 };
    assert!(matches!(overlay_key_step(report, KeyInput::Char('f')), OverlayEffect::Show(_)));
    let mut dirty = CacheAudit::new();
    dirty.orphans.push("gone".into());
    let report = Overlay::DiagnosticsReport { audit: dirty, scroll: 4 };
    assert!(matches!(overlay_key_step(report, KeyInput::Char('f')), OverlayEffect::ApplyCacheFix(_)));
}
