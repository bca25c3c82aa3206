//! The keys of the modal overlays: help, the confirmation asked before an
//! action runs, the results shown after one failed, the action menus, the
//! running-job screen, settings, filters, graph options and diagnostics.

use vstd::prelude::*;
use crate::types::{BranchAction, FailureCause, OperationResult, ProgressUpdate};
use crate::menu::MenuItem;
use crate::diagnostics::CacheAudit;
use crate::delete_preflight::ConfirmExtraKey;
use crate::gitlog::string_views;

verus! {

/// A key press, as the overlays tell keys apart.
#[derive(Debug, Clone, Copy, PartialEq, Eq, Structural)]
pub enum KeyInput {
    Char(char),
    Enter,
    Esc,
    Up,
    Down,
    Left,
    Right,
    Tab,
    BackTab,
    PageUp,
    PageDown,
    Other,
}

/// Which pane of the info modal has the keys.
#[derive(Debug, Clone, Copy, PartialEq, Eq, Structural)]
pub enum InfoFocus {
    Info,
    Actions,
}

/// The rows of the settings overlay: symbols, theme, the sort of the four
/// lists, automatic fetch and loading worktrees on launch.
pub const SETTINGS_ROWS: usize = 8;

/// The actions of the diagnostics overlay: verifying the cache.
pub const DIAGNOSTIC_ACTIONS: usize = 1;

/// A modal overlay.
#[derive(Debug)]
pub enum Overlay {
    /// The help screen.
    Help,
    /// Asks before `action` runs on `targets`: `reason` holds the warnings,
    /// and `extra_keys` the other actions offered.
    Confirm {
        action: BranchAction,
        targets: Vec<String>,
        remote: Option<String>,
        reason: Option<String>,
        extra_keys: Vec<ConfirmExtraKey>,
    },
    /// The results of a job that failed somewhere.
    Results { results: Vec<OperationResult> },
    /// The actions offered for a row, with the highlighted one.
    Menu { cursor: usize, items: Vec<MenuItem> },
    /// A row's details beside its actions: `info_cursor` picks one of the
    /// row's `info_fields` fields, `cursor` one of the actions.
    InfoModal { cursor: usize, info_cursor: usize, focus: InfoFocus, items: Vec<MenuItem>, info_fields: usize },
    /// A job is running.
    Executing { label: String, progress: Option<ProgressUpdate> },
    /// The settings, with the highlighted row.
    Settings { cursor: usize },
    /// The filter tokens of the current list.
    Filter,
    /// The graph's options: the highlighted row, and whether remote
    /// branches are drawn.
    GraphOptions { cursor: usize, include_remotes: bool },
    /// The diagnostic actions, with the highlighted one.
    Diagnostics { cursor: usize },
    /// The report of a cache audit, scrolled by `scroll` lines.
    DiagnosticsReport { audit: CacheAudit, scroll: usize },
}

/// Something the interface does while an overlay stays shown.
#[derive(Debug, Clone, Copy, PartialEq, Eq, Structural)]
pub enum OverlayChange {
    /// Steps settings row `row` to its next (`forward`) or previous value,
    /// and saves the settings.
    Setting { row: usize, forward: bool },
    /// Scrolls the info modal five lines down, or up.
    ScrollInfo { down: bool },
    /// Copies the info field at `index` of the row shown.
    CopyInfoField { index: usize },
    /// Toggles the filter token bound to this key, if the list has one.
    ToggleFilterToken(char),
    /// Clears the list's filters.
    ClearFilters,
}

/// What a key press on an overlay comes to.
#[derive(Debug)]
pub enum OverlayEffect {
    /// The overlay closes.
    Close,
    /// This overlay is shown (the same one, or a replacement).
    Show(Overlay),
    /// The overlay closes and `action` is queued on `targets`.
    Start { action: BranchAction, targets: Vec<String>, remote: Option<String> },
    /// This overlay is shown and the change is made.
    ShowAnd(Overlay, OverlayChange),
    /// The overlay closes and the menu entry's action runs.
    RunMenuItem(MenuItem),
    /// The overlay closes and the running job is cancelled.
    CancelJob,
    /// The overlay closes and the graph is drawn with these options, which
    /// are saved.
    ApplyGraphOptions { cursor: usize, include_remotes: bool },
    /// The overlay closes and a cache audit starts.
    RunCacheAudit,
    /// The overlay closes and the audit's findings are corrected in the cache.
    ApplyCacheFix(CacheAudit),
}

/// The first enabled entry at or after `j`.
pub open spec fn enabled_from(items: Seq<MenuItem>, j: int) -> Option<int>
    decreases items.len() - j,
{
    if j < 0 || j >= items.len() {
        None
    } else if items[j].enabled {
        Some(j)
    } else {
        enabled_from(items, j + 1)
    }
}

/// The cursor after moving down: the next enabled entry, or where it was.
pub open spec fn menu_down(items: Seq<MenuItem>, cursor: int) -> int {
    match enabled_from(items, cursor + 1) {
        Some(j) => j,
        None => cursor,
    }
}

/// The cursor after moving up: the previous enabled entry, or the first
/// entry when none before it is enabled.
pub open spec fn menu_up(items: Seq<MenuItem>, cursor: int) -> int
    decreases cursor,
{
    if cursor <= 0 {
        0
    } else if items[cursor - 1].enabled {
        cursor - 1
    } else {
        menu_up(items, cursor - 1)
    }
}

/// The first enabled entry with shortcut `c`.
pub open spec fn shortcut_entry(items: Seq<MenuItem>, c: char) -> Option<int>
    decreases items.len(),
{
    if items.len() == 0 {
        None
    } else {
        match shortcut_entry(items.drop_last(), c) {
            Some(i) => Some(i),
            None => if items.last().enabled && items.last().shortcut == Some(c) { Some(items.len() - 1) } else { None },
        }
    }
}

/// The cursor moved down by one, not past `last`.
pub open spec fn step_down(cursor: int, last: int) -> int {
    if cursor + 1 < last { cursor + 1 } else { last }
}

/// The cursor moved up by one, not before the first row.
pub open spec fn step_up(cursor: int) -> int {
    if cursor > 0 { cursor - 1 } else { 0 }
}

/// The shape an overlay keeps: a menu's cursor is on one of its entries
/// (or zero when it has none), and a report can scroll one line further.
pub open spec fn overlay_wf(o: Overlay) -> bool {
    match o {
        Overlay::Menu { cursor, items } => cursor < items@.len() || cursor == 0,
        Overlay::InfoModal { cursor, items, .. } => cursor < items@.len() || cursor == 0,
        Overlay::DiagnosticsReport { scroll, .. } => scroll < usize::MAX,
        _ => true,
    }
}

/// A key that moves down.
pub open spec fn is_down(key: KeyInput) -> bool {
    key == KeyInput::Char('j') || key == KeyInput::Down
}

/// A key that moves up.
pub open spec fn is_up(key: KeyInput) -> bool {
    key == KeyInput::Char('k') || key == KeyInput::Up
}

/// A key that closes a list overlay.
pub open spec fn is_quit(key: KeyInput) -> bool {
    key == KeyInput::Esc || key == KeyInput::Char('q')
}

/// The first extra key bound to `c`.
pub open spec fn extra_key_for(keys: Seq<ConfirmExtraKey>, c: char) -> Option<int>
    decreases keys.len(),
{
    if keys.len() == 0 {
        None
    } else {
        match extra_key_for(keys.drop_last(), c) {
            Some(i) => Some(i),
            None => if keys.last().key == c { Some(keys.len() - 1) } else { None },
        }
    }
}

/// The branches whose deletion failed because they are not merged.
pub open spec fn not_merged_names(rs: Seq<OperationResult>) -> Seq<Seq<char>>
    decreases rs.len(),
{
    if rs.len() == 0 {
        Seq::empty()
    } else if rs.last().failure matches Some(FailureCause::NotMerged) {
        not_merged_names(rs.drop_last()).push(rs.last().branch_name@)
    } else {
        not_merged_names(rs.drop_last())
    }
}

/// The branches whose deletion failed because a linked (not the main)
/// worktree has them checked out.
pub open spec fn linked_checkout_names(rs: Seq<OperationResult>) -> Seq<Seq<char>>
    decreases rs.len(),
{
    if rs.len() == 0 {
        Seq::empty()
    } else if rs.last().failure matches Some(FailureCause::CheckedOutInWorktree { is_main, .. }) && !is_main {
        linked_checkout_names(rs.drop_last()).push(rs.last().branch_name@)
    } else {
        linked_checkout_names(rs.drop_last())
    }
}

/// `r` starts `action` on targets `ts` with `remote`.
pub open spec fn starts(r: OverlayEffect, action: BranchAction, ts: Seq<Seq<char>>, remote: Option<Seq<char>>) -> bool {
    match r {
        OverlayEffect::Start { action: a, targets, remote: rm } =>
            a == action && string_views(targets@) == ts && match rm { Some(x) => remote == Some(x@), None => remote is None },
        _ => false,
    }
}

/// The confirmation and results keys. Help closes on any key. Confirm:
/// `y` or Enter queues the action, `n` or Esc closes, an extra key replaces
/// the pending action and its targets and keeps asking, any other key keeps
/// the overlay. Results: Enter or Esc closes, `!` force-deletes the branches
/// that failed as not merged, `r` removes the linked worktrees of those that
/// failed as checked out there and deletes them; either keeps the overlay
/// when no result qualifies; any other key keeps it.
/// Menus (and the actions pane of the info modal): `j`/Down and `k`/Up move
/// to the next and previous enabled entry, Enter runs the highlighted entry
/// when it is enabled, Esc or `q` closes, and another key runs the first
/// enabled entry with that shortcut. The info modal's Tab switches panes,
/// `u`/`d` (or Page Up/Down) scroll, and in the info pane Down/Up move among
/// the fields and Enter or `y` copies one. Executing: Esc cancels the job.
/// Settings: `j`/`k` move among the rows, Right/`l`/Space and Left/`h` step
/// the row's value forward and back, Esc closes. Filter: Esc or `\` closes,
/// `c` clears, another character toggles its token. Graph options: `j`/`k`
/// move, Space toggles remote branches, Enter applies. Diagnostics: Enter
/// runs the audit. Audit report: `j`/`k` scroll and `f` applies the fix
/// when there is something to fix.
pub open spec fn overlay_key_ok(o: Overlay, key: KeyInput, r: OverlayEffect) -> bool {
    match o {
        Overlay::Help => r is Close,
        Overlay::Confirm { action, targets, remote, reason, extra_keys } => {
            let rv = match remote { Some(x) => Some(x@), None => None };
            if key == KeyInput::Char('y') || key == KeyInput::Enter {
                starts(r, action, string_views(targets@), rv)
            } else if key == KeyInput::Char('n') || key == KeyInput::Esc {
                r is Close
            } else {
                match key {
                    KeyInput::Char(c) => match extra_key_for(extra_keys@, c) {
                        Some(i) => r matches OverlayEffect::Show(Overlay::Confirm { action: a2, targets: t2, remote: r2, reason: s2, extra_keys: k2 })
                            && a2 == extra_keys@[i].action && string_views(t2@) == string_views(extra_keys@[i].targets@)
                            && r2 == remote && s2 == reason && k2 == extra_keys,
                        None => r == OverlayEffect::Show(o),
                    },
                    _ => r == OverlayEffect::Show(o),
                }
            }
        },
        Overlay::Results { results } => {
            if key == KeyInput::Enter || key == KeyInput::Esc {
                r is Close
            } else if key == KeyInput::Char('!') && not_merged_names(results@).len() > 0 {
                starts(r, BranchAction::DeleteLocalForce, not_merged_names(results@), None)
            } else if key == KeyInput::Char('r') && linked_checkout_names(results@).len() > 0 {
                starts(r, BranchAction::DeleteBranchAndRemoveWorktree, linked_checkout_names(results@), None)
            } else {
                r == OverlayEffect::Show(o)
            }
        },
        Overlay::Menu { cursor, items } => {
            if is_down(key) {
                r == OverlayEffect::Show(Overlay::Menu { cursor: menu_down(items@, cursor as int) as usize, items })
            } else if is_up(key) {
                r == OverlayEffect::Show(Overlay::Menu { cursor: menu_up(items@, cursor as int) as usize, items })
            } else if key == KeyInput::Enter {
                if cursor < items@.len() {
                    if items@[cursor as int].enabled { r == OverlayEffect::RunMenuItem(items@[cursor as int]) } else { r == OverlayEffect::Show(o) }
                } else {
                    r is Close
                }
            } else if is_quit(key) {
                r is Close
            } else {
                match key {
                    KeyInput::Char(c) => match shortcut_entry(items@, c) {
                        Some(i) => r == OverlayEffect::RunMenuItem(items@[i]),
                        None => r == OverlayEffect::Show(o),
                    },
                    _ => r == OverlayEffect::Show(o),
                }
            }
        },
        Overlay::InfoModal { cursor, info_cursor, focus, items, info_fields } => {
            let actions = focus == InfoFocus::Actions;
            if key == KeyInput::Tab || key == KeyInput::BackTab {
                r == OverlayEffect::Show(Overlay::InfoModal {
                    cursor, info_cursor, focus: if actions { InfoFocus::Info } else { InfoFocus::Actions }, items, info_fields })
            } else if is_down(key) && actions {
                r == OverlayEffect::Show(Overlay::InfoModal {
                    cursor: menu_down(items@, cursor as int) as usize, info_cursor, focus, items, info_fields })
            } else if is_up(key) && actions {
                r == OverlayEffect::Show(Overlay::InfoModal {
                    cursor: menu_up(items@, cursor as int) as usize, info_cursor, focus, items, info_fields })
            } else if key == KeyInput::Char('u') || key == KeyInput::PageUp {
                r == OverlayEffect::ShowAnd(o, OverlayChange::ScrollInfo { down: false })
            } else if key == KeyInput::Char('d') || key == KeyInput::PageDown {
                r == OverlayEffect::ShowAnd(o, OverlayChange::ScrollInfo { down: true })
            } else if key == KeyInput::Down && !actions {
                let last: int = if info_fields > 0 { info_fields - 1 } else { 0 };
                let next: int = if info_cursor < usize::MAX { info_cursor + 1 } else { info_cursor as int };
                r == OverlayEffect::Show(Overlay::InfoModal {
                    cursor, info_cursor: (if next < last { next } else { last }) as usize, focus, items, info_fields })
            } else if key == KeyInput::Up && !actions {
                r == OverlayEffect::Show(Overlay::InfoModal {
                    cursor, info_cursor: step_up(info_cursor as int) as usize, focus, items, info_fields })
            } else if (key == KeyInput::Enter || key == KeyInput::Char('y')) && !actions {
                r == OverlayEffect::ShowAnd(o, OverlayChange::CopyInfoField { index: info_cursor })
            } else if key == KeyInput::Enter && actions {
                if cursor < items@.len() {
                    if items@[cursor as int].enabled { r == OverlayEffect::RunMenuItem(items@[cursor as int]) } else { r == OverlayEffect::Show(o) }
                } else {
                    r is Close
                }
            } else if is_quit(key) {
                r is Close
            } else {
                match key {
                    KeyInput::Char(c) => if actions {
                        match shortcut_entry(items@, c) {
                            Some(i) => r == OverlayEffect::RunMenuItem(items@[i]),
                            None => r == OverlayEffect::Show(o),
                        }
                    } else {
                        r == OverlayEffect::Show(o)
                    },
                    _ => r == OverlayEffect::Show(o),
                }
            }
        },
        Overlay::Executing { .. } => {
            if key == KeyInput::Esc { r is CancelJob } else { r == OverlayEffect::Show(o) }
        },
        Overlay::Settings { cursor } => {
            if is_down(key) {
                r == OverlayEffect::Show(Overlay::Settings { cursor: step_down(cursor as int, SETTINGS_ROWS - 1) as usize })
            } else if is_up(key) {
                r == OverlayEffect::Show(Overlay::Settings { cursor: step_up(cursor as int) as usize })
            } else if key == KeyInput::Right || key == KeyInput::Char('l') || key == KeyInput::Char(' ') {
                r == OverlayEffect::ShowAnd(o, OverlayChange::Setting { row: cursor, forward: true })
            } else if key == KeyInput::Left || key == KeyInput::Char('h') {
                r == OverlayEffect::ShowAnd(o, OverlayChange::Setting { row: cursor, forward: false })
            } else if key == KeyInput::Esc {
                r is Close
            } else {
                r == OverlayEffect::Show(o)
            }
        },
        Overlay::Filter => {
            if key == KeyInput::Esc || key == KeyInput::Char('\\') {
                r is Close
            } else if key == KeyInput::Char('c') {
                r == OverlayEffect::ShowAnd(o, OverlayChange::ClearFilters)
            } else {
                match key {
                    KeyInput::Char(ch) => r == OverlayEffect::ShowAnd(o, OverlayChange::ToggleFilterToken(ch)),
                    _ => r == OverlayEffect::Show(o),
                }
            }
        },
        Overlay::GraphOptions { cursor, include_remotes } => {
            if is_down(key) {
                r == OverlayEffect::Show(Overlay::GraphOptions { cursor: step_down(cursor as int, 1) as usize, include_remotes })
            } else if is_up(key) {
                r == OverlayEffect::Show(Overlay::GraphOptions { cursor: step_up(cursor as int) as usize, include_remotes })
            } else if key == KeyInput::Char(' ') {
                r == OverlayEffect::Show(Overlay::GraphOptions { cursor, include_remotes: !include_remotes })
            } else if key == KeyInput::Enter {
                r == OverlayEffect::ApplyGraphOptions { cursor, include_remotes }
            } else if is_quit(key) {
                r is Close
            } else {
                r == OverlayEffect::Show(o)
            }
        },
        Overlay::Diagnostics { cursor } => {
            if is_down(key) {
                r == OverlayEffect::Show(Overlay::Diagnostics { cursor: step_down(cursor as int, DIAGNOSTIC_ACTIONS - 1) as usize })
            } else if is_up(key) {
                r == OverlayEffect::Show(Overlay::Diagnostics { cursor: step_up(cursor as int) as usize })
            } else if key == KeyInput::Enter {
                if cursor < DIAGNOSTIC_ACTIONS { r is RunCacheAudit } else { r is Close }
            } else if is_quit(key) {
                r is Close
            } else {
                r == OverlayEffect::Show(o)
            }
        },
        Overlay::DiagnosticsReport { audit, scroll } => {
            let clean = audit.discrepancies@.len() == 0 && audit.orphans@.len() == 0;
            if is_down(key) {
                r == OverlayEffect::Show(Overlay::DiagnosticsReport { audit, scroll: (scroll + 1) as usize })
            } else if is_up(key) {
                r == OverlayEffect::Show(Overlay::DiagnosticsReport { audit, scroll: step_up(scroll as int) as usize })
            } else if key == KeyInput::Char('f') && !clean {
                r == OverlayEffect::ApplyCacheFix(audit)
            } else if is_quit(key) {
                r is Close
            } else {
                r == OverlayEffect::Show(o)
            }
        },
    }
}

fn copy_strings(v: &Vec<String>) -> (r: Vec<String>)
    ensures
        r@ == v@,
{
    let mut r: Vec<String> = Vec::new();
    let mut i: usize = 0;
    while i < v.len()
        invariant
            i <= v@.len(),
            r@ == v@.subrange(0, i as int),
        decreases v@.len() - i,
    {
        r.push(v[i].clone());
        i = i + 1;
        assert(r@ =~= v@.subrange(0, i as int));
    }
    assert(r@ =~= v@);
    r
}

fn find_extra_key(keys: &Vec<ConfirmExtraKey>, c: char) -> (r: Option<usize>)
    ensures
        r is Some <==> extra_key_for(keys@, c) is Some,
        r is Some ==> r->0 < keys@.len() && extra_key_for(keys@, c) == Some(r->0 as int),
{
    let mut found: Option<usize> = None;
    let mut k: usize = 0;
    while k < keys.len()
        invariant
            k <= keys@.len(),
            found is Some <==> extra_key_for(keys@.subrange(0, k as int), c) is Some,
            found is Some ==> found->0 < k && extra_key_for(keys@.subrange(0, k as int), c) == Some(found->0 as int),
        decreases keys@.len() - k,
    {
        assert(keys@.subrange(0, k + 1).drop_last() =~= keys@.subrange(0, k as int));
        if found.is_none() && keys[k].key == c {
            found = Some(k);
        }
        k = k + 1;
    }
    assert(keys@.subrange(0, keys@.len() as int) =~= keys@);
    found
}

proof fn lemma_views_push(v: Seq<String>, x: String)
    ensures
        string_views(v.push(x)) == string_views(v).push(x@),
{
    assert(string_views(v.push(x)) =~= string_views(v).push(x@));
}

/// The branches of the results that failed as not merged, or, with
/// `linked`, as checked out in a linked worktree.
fn failed_names(rs: &Vec<OperationResult>, linked: bool) -> (r: Vec<String>)
    ensures
        string_views(r@) == if linked { linked_checkout_names(rs@) } else { not_merged_names(rs@) },
{
    let mut r: Vec<String> = Vec::new();
    let mut i: usize = 0;
    while i < rs.len()
        invariant
            i <= rs@.len(),
            string_views(r@) == if linked { linked_checkout_names(rs@.subrange(0, i as int)) } else { not_merged_names(rs@.subrange(0, i as int)) },
        decreases rs@.len() - i,
    {
        assert(rs@.subrange(0, i + 1).drop_last() =~= rs@.subrange(0, i as int));
        let take = match &rs[i].failure {
            Some(FailureCause::NotMerged) => !linked,
            Some(FailureCause::CheckedOutInWorktree { is_main, .. }) => linked && !*is_main,
            _ => false,
        };
        if take {
            let n = rs[i].branch_name.clone();
            proof { lemma_views_push(r@, n); }
            r.push(n);
        }
        i = i + 1;
    }
    assert(rs@.subrange(0, rs@.len() as int) =~= rs@);
    r
}

fn down_index(items: &Vec<MenuItem>, cursor: usize) -> (r: usize)
    requires
        cursor < items@.len() || cursor == 0,
    ensures
        r as int == menu_down(items@, cursor as int),
{
    let n = items.len();
    if cursor >= n {
        return cursor;
    }
    let mut j: usize = cursor + 1;
    while j < n
        invariant
            n == items@.len(),
            cursor + 1 <= j <= n,
            enabled_from(items@, cursor + 1) == enabled_from(items@, j as int),
        decreases n - j,
    {
        if items[j].enabled {
            return j;
        }
        j = j + 1;
    }
    cursor
}

fn up_index(items: &Vec<MenuItem>, cursor: usize) -> (r: usize)
    requires
        cursor <= items@.len(),
    ensures
        r as int == menu_up(items@, cursor as int),
{
    let mut c: usize = cursor;
    while c > 0
        invariant
            c <= cursor <= items@.len(),
            menu_up(items@, cursor as int) == menu_up(items@, c as int),
        decreases c,
    {
        if items[c - 1].enabled {
            return c - 1;
        }
        c = c - 1;
    }
    0
}

fn shortcut_index(items: &Vec<MenuItem>, c: char) -> (r: Option<usize>)
    ensures
        match r {
            Some(i) => i < items@.len() && shortcut_entry(items@, c) == Some(i as int),
            None => shortcut_entry(items@, c) is None,
        },
{
    let mut found: Option<usize> = None;
    let mut k: usize = 0;
    while k < items.len()
        invariant
            k <= items@.len(),
            match found {
                Some(i) => i < k && shortcut_entry(items@.subrange(0, k as int), c) == Some(i as int),
                None => shortcut_entry(items@.subrange(0, k as int), c) is None,
            },
        decreases items@.len() - k,
    {
        assert(items@.subrange(0, k + 1).drop_last() =~= items@.subrange(0, k as int));
        if found.is_none() && items[k].enabled && items[k].shortcut == Some(c) {
            found = Some(k);
        }
        k = k + 1;
    }
    assert(items@.subrange(0, items@.len() as int) =~= items@);
    found
}

/// Enter on a list of actions whose highlighted entry, if any, is enabled:
/// that entry runs; with none highlighted the overlay closes.
fn run_entry(items: Vec<MenuItem>, cursor: usize) -> (r: OverlayEffect)
    requires
        cursor < items@.len() ==> items@[cursor as int].enabled,
    ensures
        if cursor < items@.len() { r == OverlayEffect::RunMenuItem(items@[cursor as int]) } else { r is Close },
{
    if cursor < items.len() {
        let mut items = items;
        let item = items.remove(cursor);
        OverlayEffect::RunMenuItem(item)
    } else {
        OverlayEffect::Close
    }
}

/// What key `key` does on overlay `overlay`.
pub fn overlay_key_step(overlay: Overlay, key: KeyInput) -> (r: OverlayEffect)
    requires
        overlay_wf(overlay),
    ensures
        overlay_key_ok(overlay, key, r),
{
    match overlay {
        Overlay::Help => OverlayEffect::Close,
        Overlay::Confirm { action, targets, remote, reason, extra_keys } => {
            let is_yes = match key {
                KeyInput::Char(c) => c == 'y',
                KeyInput::Enter => true,
                _ => false,
            };
            let is_no = match key {
                KeyInput::Char(c) => c == 'n',
                KeyInput::Esc => true,
                _ => false,
            };
            if is_yes {
                OverlayEffect::Start { action, targets, remote }
            } else if is_no {
                OverlayEffect::Close
            } else {
                let hit = match key {
                    KeyInput::Char(c) => find_extra_key(&extra_keys, c),
                    _ => None,
                };
                match hit {
                    Some(i) => {
                        let a2 = extra_keys[i].action;
                        let t2 = copy_strings(&extra_keys[i].targets);
                        OverlayEffect::Show(Overlay::Confirm { action: a2, targets: t2, remote, reason, extra_keys })
                    },
                    None => OverlayEffect::Show(Overlay::Confirm { action, targets, remote, reason, extra_keys }),
                }
            }
        },
        Overlay::Results { results } => {
            let (close, force, linked) = match key {
                KeyInput::Enter | KeyInput::Esc => (true, false, false),
                KeyInput::Char(c) => (false, c == '!', c == 'r'),
                _ => (false, false, false),
            };
            if close {
                OverlayEffect::Close
            } else if force || linked {
                let names = failed_names(&results, linked);
                if names.len() > 0 {
                    let action = if linked { BranchAction::DeleteBranchAndRemoveWorktree } else { BranchAction::DeleteLocalForce };
                    OverlayEffect::Start { action, targets: names, remote: None }
                } else {
                    OverlayEffect::Show(Overlay::Results { results })
                }
            } else {
                OverlayEffect::Show(Overlay::Results { results })
            }
        },
        Overlay::Menu { cursor, items } => {
            if key == KeyInput::Char('j') || key == KeyInput::Down {
                let c = down_index(&items, cursor);
                OverlayEffect::Show(Overlay::Menu { cursor: c, items })
            } else if key == KeyInput::Char('k') || key == KeyInput::Up {
                let c = up_index(&items, cursor);
                OverlayEffect::Show(Overlay::Menu { cursor: c, items })
            } else if key == KeyInput::Enter {
                if cursor < items.len() && !items[cursor].enabled {
                    OverlayEffect::Show(Overlay::Menu { cursor, items })
                } else {
                    run_entry(items, cursor)
                }
            } else if key == KeyInput::Esc || key == KeyInput::Char('q') {
                OverlayEffect::Close
            } else {
                let hit = match key {
                    KeyInput::Char(c) => shortcut_index(&items, c),
                    _ => None,
                };
                match hit {
                    Some(i) => {
                        let mut items = items;
                        let item = items.remove(i);
                        OverlayEffect::RunMenuItem(item)
                    },
                    None => OverlayEffect::Show(Overlay::Menu { cursor, items }),
                }
            }
        },
        Overlay::InfoModal { cursor, info_cursor, focus, items, info_fields } => {
            let actions = focus == InfoFocus::Actions;
            if key == KeyInput::Tab || key == KeyInput::BackTab {
                let f = if actions { InfoFocus::Info } else { InfoFocus::Actions };
                OverlayEffect::Show(Overlay::InfoModal { cursor, info_cursor, focus: f, items, info_fields })
            } else if (key == KeyInput::Char('j') || key == KeyInput::Down) && actions {
                let c = down_index(&items, cursor);
                OverlayEffect::Show(Overlay::InfoModal { cursor: c, info_cursor, focus, items, info_fields })
            } else if (key == KeyInput::Char('k') || key == KeyInput::Up) && actions {
                let c = up_index(&items, cursor);
                OverlayEffect::Show(Overlay::InfoModal { cursor: c, info_cursor, focus, items, info_fields })
            } else if key == KeyInput::Char('u') || key == KeyInput::PageUp {
                OverlayEffect::ShowAnd(Overlay::InfoModal { cursor, info_cursor, focus, items, info_fields },
                    OverlayChange::ScrollInfo { down: false })
            } else if key == KeyInput::Char('d') || key == KeyInput::PageDown {
                OverlayEffect::ShowAnd(Overlay::InfoModal { cursor, info_cursor, focus, items, info_fields },
                    OverlayChange::ScrollInfo { down: true })
            } else if key == KeyInput::Down && !actions {
                let last: usize = if info_fields > 0 { info_fields - 1 } else { 0 };
                let next: usize = if info_cursor < usize::MAX { info_cursor + 1 } else { info_cursor };
                let ic = if next < last { next } else { last };
                OverlayEffect::Show(Overlay::InfoModal { cursor, info_cursor: ic, focus, items, info_fields })
            } else if key == KeyInput::Up && !actions {
                let ic = if info_cursor > 0 { info_cursor - 1 } else { 0 };
                OverlayEffect::Show(Overlay::InfoModal { cursor, info_cursor: ic, focus, items, info_fields })
            } else if (key == KeyInput::Enter || key == KeyInput::Char('y')) && !actions {
                OverlayEffect::ShowAnd(Overlay::InfoModal { cursor, info_cursor, focus, items, info_fields },
                    OverlayChange::CopyInfoField { index: info_cursor })
            } else if key == KeyInput::Enter && actions {
                if cursor < items.len() && !items[cursor].enabled {
                    OverlayEffect::Show(Overlay::InfoModal { cursor, info_cursor, focus, items, info_fields })
                } else {
                    run_entry(items, cursor)
                }
            } else if key == KeyInput::Esc || key == KeyInput::Char('q') {
                OverlayEffect::Close
            } else {
                let hit = match key {
                    KeyInput::Char(c) => if actions { shortcut_index(&items, c) } else { None },
                    _ => None,
                };
                match hit {
                    Some(i) => {
                        let mut items = items;
                        let item = items.remove(i);
                        OverlayEffect::RunMenuItem(item)
                    },
                    None => OverlayEffect::Show(Overlay::InfoModal { cursor, info_cursor, focus, items, info_fields }),
                }
            }
        },
        Overlay::Executing { label, progress } => {
            if key == KeyInput::Esc {
                OverlayEffect::CancelJob
            } else {
                OverlayEffect::Show(Overlay::Executing { label, progress })
            }
        },
        Overlay::Settings { cursor } => {
            if key == KeyInput::Char('j') || key == KeyInput::Down {
                let c = if cursor < SETTINGS_ROWS - 1 { cursor + 1 } else { SETTINGS_ROWS - 1 };
                OverlayEffect::Show(Overlay::Settings { cursor: c })
            } else if key == KeyInput::Char('k') || key == KeyInput::Up {
                let c = if cursor > 0 { cursor - 1 } else { 0 };
                OverlayEffect::Show(Overlay::Settings { cursor: c })
            } else if key == KeyInput::Right || key == KeyInput::Char('l') || key == KeyInput::Char(' ') {
                OverlayEffect::ShowAnd(Overlay::Settings { cursor }, OverlayChange::Setting { row: cursor, forward: true })
            } else if key == KeyInput::Left || key == KeyInput::Char('h') {
                OverlayEffect::ShowAnd(Overlay::Settings { cursor }, OverlayChange::Setting { row: cursor, forward: false })
            } else if key == KeyInput::Esc {
                OverlayEffect::Close
            } else {
                OverlayEffect::Show(Overlay::Settings { cursor })
            }
        },
        Overlay::Filter => {
            if key == KeyInput::Esc || key == KeyInput::Char('\\') {
                OverlayEffect::Close
            } else if key == KeyInput::Char('c') {
                OverlayEffect::ShowAnd(Overlay::Filter, OverlayChange::ClearFilters)
            } else {
                match key {
                    KeyInput::Char(ch) => OverlayEffect::ShowAnd(Overlay::Filter, OverlayChange::ToggleFilterToken(ch)),
                    _ => OverlayEffect::Show(Overlay::Filter),
                }
            }
        },
        Overlay::GraphOptions { cursor, include_remotes } => {
            if key == KeyInput::Char('j') || key == KeyInput::Down {
                let c = if cursor < 1 { cursor + 1 } else { 1 };
                OverlayEffect::Show(Overlay::GraphOptions { cursor: c, include_remotes })
            } else if key == KeyInput::Char('k') || key == KeyInput::Up {
                let c = if cursor > 0 { cursor - 1 } else { 0 };
                OverlayEffect::Show(Overlay::GraphOptions { cursor: c, include_remotes })
            } else if key == KeyInput::Char(' ') {
                OverlayEffect::Show(Overlay::GraphOptions { cursor, include_remotes: !include_remotes })
            } else if key == KeyInput::Enter {
                OverlayEffect::ApplyGraphOptions { cursor, include_remotes }
            } else if key == KeyInput::Esc || key == KeyInput::Char('q') {
                OverlayEffect::Close
            } else {
                OverlayEffect::Show(Overlay::GraphOptions { cursor, include_remotes })
            }
        },
        Overlay::Diagnostics { cursor } => {
            if key == KeyInput::Char('j') || key == KeyInput::Down {
                let c = if cursor < DIAGNOSTIC_ACTIONS - 1 { cursor + 1 } else { DIAGNOSTIC_ACTIONS - 1 };
                OverlayEffect::Show(Overlay::Diagnostics { cursor: c })
            } else if key == KeyInput::Char('k') || key == KeyInput::Up {
                let c = if cursor > 0 { cursor - 1 } else { 0 };
                OverlayEffect::Show(Overlay::Diagnostics { cursor: c })
            } else if key == KeyInput::Enter {
                if cursor < DIAGNOSTIC_ACTIONS { OverlayEffect::RunCacheAudit } else { OverlayEffect::Close }
            } else if key == KeyInput::Esc || key == KeyInput::Char('q') {
                OverlayEffect::Close
            } else {
                OverlayEffect::Show(Overlay::Diagnostics { cursor })
            }
        },
        Overlay::DiagnosticsReport { audit, scroll } => {
            if key == KeyInput::Char('j') || key == KeyInput::Down {
                OverlayEffect::Show(Overlay::DiagnosticsReport { audit, scroll: scroll + 1 })
            } else if key == KeyInput::Char('k') || key == KeyInput::Up {
                let c = if scroll > 0 { scroll - 1 } else { 0 };
                OverlayEffect::Show(Overlay::DiagnosticsReport { audit, scroll: c })
            } else if key == KeyInput::Char('f') && !audit.is_clean() {
                OverlayEffect::ApplyCacheFix(audit)
            } else if key == KeyInput::Esc || key == KeyInput::Char('q') {
                OverlayEffect::Close
            } else {
                OverlayEffect::Show(Overlay::DiagnosticsReport { audit, scroll })
            }
        },
    }
}

} // verus!
