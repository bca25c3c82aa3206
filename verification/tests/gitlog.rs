use git2::{Repository, RepositoryInitOptions, Signature, Time};
use git_branch_manager::gitlog::parse_git_log;
use git_branch_manager::graph::{GraphLoadOptions, GraphRef, GraphRefKind, GraphSource};
use git_branch_manager::graph_load::{
    fallback_outcome, git_cli_snapshot, git_log_args, renderer_panic_cause, rendered_snapshot, RenderedCommit,
};
use git_branch_manager::graph_refs::{collect_ref_data, insert_ref};
use git_branch_manager::keyed::{KeySet, KeyedList};

const LOG: &str = "* \u{1e}bbb\u{1f}aaa\u{1f}Merge branch 'feature'\n|\\\n| * \u{1e}ccc\u{1f}aaa extra\u{1f}Work: a\u{1f}b\n|/\n* \u{1e}aaa\u{1f}\u{1f}Root\n";

#[test]
fn git_log_output_is_read_into_lines_and_commits() {
    let mut refs = KeyedList::new();
    insert_ref(
        &mut refs,
        "bbb",
        GraphRef { name: "main".into(), kind: GraphRefKind::LocalBranch, has_linked_worktree: false, tracking: None },
    );
    let (commits, lines) = parse_git_log(LOG, &refs).unwrap();
    assert_eq!(lines.len(), 5);
    assert_eq!(commits.len(), 3);
    assert_eq!(lines[0].graph, "* ");
    assert_eq!(lines[0].commit_index, Some(0));
    assert_eq!(lines[1].graph, "|\\");
    assert_eq!(lines[1].commit_index, None);
    assert_eq!(lines[2].commit_index, Some(1));
    assert_eq!(commits[0].oid, "bbb");
    assert_eq!(commits[0].refs.len(), 1);
    assert_eq!(commits[0].lane, Some(0));
    assert_eq!(commits[1].lane, Some(1));
    assert_eq!(commits[1].parents, vec!["aaa".to_string(), "extra".to_string()]);
    assert_eq!(commits[1].summary, "Work: a\u{1f}b");
    assert!(commits[2].parents.is_empty());
    assert!(commits[2].refs.is_empty());
}

#[test]
fn unreadable_record_is_reported() {
    let refs = KeyedList::new();
    let err = parse_git_log("* \u{1e}\u{1f}x\u{1f}y\n", &refs).unwrap_err();
    assert_eq!(err, "could not parse git log record: * \u{1e}\u{1f}x\u{1f}y");
    assert!(parse_git_log("* \u{1e}abc\u{1f}only two\n", &refs).is_err());
    let (commits, lines) = parse_git_log("", &refs).unwrap();
    assert!(commits.is_empty() && lines.is_empty());
}

#[test]
fn git_log_arguments_follow_the_options() {
    let mut options = GraphLoadOptions::default();
    let args = git_log_args(&options);
    assert_eq!(args[9], "--max-count=500");
    assert_eq!(args[10], "--branches");
    options.include_remotes = true;
    options.max_count = 7;
    let args = git_log_args(&options);
    assert_eq!(args.len(), 11);
    assert_eq!(args[8], "--format=%x1e%H%x1f%P%x1f%s");
    assert_eq!(args[9], "--max-count=7");
    assert_eq!(args[10], "--all");
}

fn sample_repo(dir: &str) -> Repository {
    let mut opts = RepositoryInitOptions::new();
    opts.bare(true).initial_head("main");
    let repo = Repository::init_opts(dir, &opts).unwrap();
    let tree_id = repo.treebuilder(None).unwrap().write().unwrap();
    let (first, second) = {
        let tree = repo.find_tree(tree_id).unwrap();
        let sig = Signature::new("Test", "test@example.com", &Time::new(1_000, 0)).unwrap();
        let first = repo.commit(None, &sig, &sig, "first", &tree, &[]).unwrap();
        let parent = repo.find_commit(first).unwrap();
        let second = repo.commit(None, &sig, &sig, "second", &tree, &[&parent]).unwrap();
        (first, second)
    };
    repo.reference("refs/heads/main", second, true, "test").unwrap();
    repo.reference("refs/heads/topic", first, true, "test").unwrap();
    repo.reference("refs/remotes/origin/main", first, true, "test").unwrap();
    repo.reference("refs/tags/v1", first, true, "test").unwrap();
    repo
}

#[test]
fn refs_are_collected_by_commit() {
    let repo = sample_repo("/tmp/git-branch-manager-tests/refs");
    let mut linked = KeySet::new();
    linked.insert("topic".to_string());
    let data = collect_ref_data(&repo, false, None, &linked).unwrap();
    assert_eq!(data.base_branch.as_deref(), Some("main"));
    assert_eq!(data.ref_counts.local, 2);
    assert_eq!(data.ref_counts.remote, 0);
    let main_tip = repo.refname_to_id("refs/heads/main").unwrap().to_string();
    let first = repo.refname_to_id("refs/heads/topic").unwrap().to_string();
    let on_main = data.refs_by_oid.get(&main_tip).unwrap();
    assert_eq!(on_main.len(), 1);
    let tracking = on_main[0].tracking.unwrap();
    assert_eq!((tracking.ahead, tracking.behind), (1, 0));
    let on_first = data.refs_by_oid.get(&first).unwrap();
    assert!(on_first.iter().any(|r| r.name == "topic" && r.has_linked_worktree));
    assert!(on_first.iter().any(|r| r.name == "v1" && r.kind == GraphRefKind::Tag));
    assert!(on_first.iter().all(|r| r.kind != GraphRefKind::RemoteBranch));

    let with_remotes = collect_ref_data(&repo, true, Some("topic"), &KeySet::new()).unwrap();
    assert_eq!(with_remotes.base_branch.as_deref(), Some("topic"));
    assert_eq!(with_remotes.ref_counts.remote, 1);
    let on_first = with_remotes.refs_by_oid.get(&first).unwrap();
    assert!(on_first.iter().any(|r| r.name == "origin/main" && r.kind == GraphRefKind::RemoteBranch));
}

#[test]
fn snapshots_from_either_loader() {
    let repo = sample_repo("/tmp/git-branch-manager-tests/snapshot");
    let data = collect_ref_data(&repo, false, None, &KeySet::new()).unwrap();
    let options = GraphLoadOptions::default();
    let snap = git_cli_snapshot("* \u{1e}abc\u{1f}\u{1f}Root\n", "no lanes".into(), &options, &data).unwrap();
    assert_eq!(snap.source, GraphSource::GitCliFallback { cause: "no lanes".into() });
    assert_eq!(snap.commits.len(), 1);
    assert_eq!(snap.max_count, 500);

    let rendered = vec![
        RenderedCommit { oid: "b".into(), summary: "two".into(), parents: vec!["a".into()], lane: Some(0) },
        RenderedCommit { oid: "a".into(), summary: "one".into(), parents: vec![], lane: Some(0) },
    ];
    let lines = vec!["*".to_string(), "|".to_string(), "*".to_string()];
    let snap = rendered_snapshot(rendered, lines, &vec![0, 2], 0, &options, &data);
    assert_eq!(snap.source, GraphSource::Gleisbau);
    assert_eq!(snap.lines[0].commit_index, Some(0));
    assert_eq!(snap.lines[1].commit_index, None);
    assert_eq!(snap.lines[2].commit_index, Some(1));
    assert_eq!(snap.commits[1].summary, "one");

    let failed = fallback_outcome(renderer_panic_cause(), Err("git missing".into())).unwrap_err();
    assert_eq!(
        failed.message(),
        "Gleisbau failed (Gleisbau panicked while building the graph) and the git CLI fallback failed (git missing)"
    );
    assert!(fallback_outcome("x".into(), Ok(snap)).is_ok());
}
