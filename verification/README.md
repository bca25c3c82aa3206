# git-branch-manager

A branch manager for git repositories: it lists local and remote branches,
tags and worktrees with their merge status (merged, squash-merged,
cherry-picked, ahead/behind), and runs deletions, merges, rebases and
checkouts on them one job at a time.

The project is written in Verus. Its logic is a library whose behaviour is
stated in `requires`/`ensures` contracts and proved.

## Layout

- `src/` — the verified library.
  - `types.rs`, `capability.rs`, `menu.rs`, `views.rs`: what a branch is and
    which actions each row offers.
  - `cache.rs`, `keyed.rs`: the merge-status cache and the keyed tables it
    is made of, with the laws of a save and a reload.
  - `job_queue.rs`, `executor.rs`, `git_steps.rs`, `operations.rs`: the
    sequential action queue and the step functions of each action; the
    order of git commands for checkout, merge and rebase.
  - `overlay.rs`, `drain.rs`, `refresh.rs`: the interface's decisions as
    step functions from state and event to next state and effects.
  - `branches.rs`, `remotes.rs`, `tags.rs`, `worktree.rs`, `graph*.rs`,
    `merges.rs`, `squash.rs`: reading the repository through `git2` and
    the analysis built on what was read.
  - `gitlog.rs`, `status.rs`, `github.rs`, `config.rs`, `cli.rs`: parsers of
    git's, `gh`'s and the configuration's text.
  - `repo.rs` and the `external_body` items of each module: the trusted
    boundary to `git2`, `serde_json`, `chrono` and std, each with a doc
    comment saying what its contract claims.
- `tests/` — tests of the library on concrete values.
- `app/` — the program around the library: argument handling, running
  `git` and `gh`, the SQLite store of the cache, and printing. It hands the
  library plain values and performs the effects the library decides.
