//! The command line, as plain values: which repository to open, which base
//! branch to use, and whether to print a view instead of starting the UI.

use vstd::prelude::*;

verus! {

/// The command-line options.
#[derive(Debug, Clone)]
pub struct Cli {
    /// Path to the git repository (the current directory when absent).
    pub repo: Option<String>,
    /// Overrides the detected base branch.
    pub base: Option<String>,
    /// Deprecated spelling of `branches`.
    pub list: bool,
    /// Overrides the symbol set (ascii, unicode, powerline).
    pub symbols: Option<String>,
    /// Print the branch list instead of starting the UI.
    pub branches: bool,
    /// Print the remote branch list.
    pub remotes: bool,
    /// Print the tag list.
    pub tags: bool,
    /// Print the worktree list.
    pub worktrees: bool,
}

/// A view that can be printed without the UI.
#[derive(Clone, Copy, Debug, PartialEq, Eq, Structural)]
pub enum DumpView {
    Branches,
    Remotes,
    Tags,
    Worktrees,
}

/// The view the flags ask to print: branches (also for `list`) before
/// remotes, before tags, before worktrees; none when no flag is set.
pub open spec fn dump_view_of(c: Cli) -> Option<DumpView> {
    if c.branches || c.list {
        Some(DumpView::Branches)
    } else if c.remotes {
        Some(DumpView::Remotes)
    } else if c.tags {
        Some(DumpView::Tags)
    } else if c.worktrees {
        Some(DumpView::Worktrees)
    } else {
        None
    }
}

impl Cli {
    /// The view to print instead of starting the UI, if any.
    pub fn dump_view(&self) -> (v: Option<DumpView>)
        ensures
            v == dump_view_of(*self),
    {
        if self.branches || self.list {
            Some(DumpView::Branches)
        } else if self.remotes {
            Some(DumpView::Remotes)
        } else if self.tags {
            Some(DumpView::Tags)
        } else if self.worktrees {
            Some(DumpView::Worktrees)
        } else {
            None
        }
    }

    /// Whether to print the note that `--list` is deprecated: the branch
    /// list was asked for by that name.
    pub fn warns_list_deprecated(&self) -> (b: bool)
        ensures
            b == (self.list && dump_view_of(*self) is Some),
    {
        self.list
    }

    /// Where to look for the repository: the given path, or `.`.
    pub fn search_path(&self) -> (p: String)
        ensures
            p@ == match self.repo {
                Some(r) => r@,
                None => "."@,
            },
    {
        match &self.repo {
            Some(r) => r.clone(),
            None => crate::text::to_owned_string("."),
        }
    }
}

} // verus!
