//! Verified core of a branch manager for git repositories: the decisions
//! behind which branch actions are offered, the merge-status cache, the
//! sequential action queue, parsing of git's machine-readable output, and
//! the commit-graph analysis used for squash-merge hints.

pub mod types;
pub mod capability;
pub mod text;
pub mod keyed;
pub mod cache;
pub mod job_queue;
pub mod status;
pub mod worktree;
pub mod github;
pub mod config;
pub mod graph;
pub mod operations;
pub mod history;
pub mod labels;
pub mod executor;
pub mod menu;
pub mod listing;
pub mod repo;
pub mod oidset;
pub mod branches;
pub mod merges;
pub mod gitlog;
pub mod graph_refs;
pub mod graph_load;
pub mod squash;
pub mod tags;
pub mod diagnostics;
pub mod fuzzy;
pub mod cli;
pub mod views;
pub mod delete_preflight;
pub mod remotes;
pub mod refresh;
pub mod overlay;
pub mod drain;
pub mod git_steps;
