use git_branch_manager::graph::{
    apply_enrichment_msg, apply_squash_enrichment, GraphEnrichmentMsg, GraphEnrichmentUpdate, GraphLine,
    compute_possible_squash_updates, load_graph_with_squash_annotations, matching_base_oids,
    squash_patch_jobs, FuzzySquashMatch, GraphBranchLabel, GraphRef, GraphRefCounts, GraphRefKind,
    GraphSnapshot, GraphSource, PatchResult, PatchTarget,
    displayed_ancestors, displayed_branch_relation, parse_merge_branch_name, remote_short_name,
    DisplayedBranchRelation, GraphCommit, GraphLineStyle, GraphLoadError, GraphLoadOptions,
};

fn commit(oid: &str, parents: &[&str]) -> GraphCommit {
    GraphCommit {
        oid: oid.into(),
        summary: oid.into(),
        parents: parents.iter().map(|parent| (*parent).into()).collect(),
        lane: None,
        branch: None,
        refs: Vec::new(),
        is_possible_squash_merge: false,
        fuzzy_squash_match: None,
    }
}

#[test]
fn displayed_history_bounds_branch_relationships() {
    let commits = vec![
        commit("base-tip", &["base-parent"]),
        commit("branch-tip", &["shared"]),
        commit("base-parent", &["shared"]),
        commit("shared", &["root"]),
        commit("root", &[]),
    ];
    assert_eq!(
        displayed_branch_relation(&commits, "base-tip", "branch-tip"),
        DisplayedBranchRelation::Diverged { merge_base: "shared".into() }
    );

    let regular = vec![
        commit("base-tip", &["branch-tip"]),
        commit("branch-tip", &["root"]),
        commit("root", &[]),
    ];
    assert_eq!(
        displayed_branch_relation(&regular, "base-tip", "branch-tip"),
        DisplayedBranchRelation::RegularlyMerged
    );

    let truncated = vec![
        commit("base-tip", &["missing-base-parent"]),
        commit("branch-tip", &["missing-branch-parent"]),
    ];
    assert_eq!(
        displayed_branch_relation(&truncated, "base-tip", "branch-tip"),
        DisplayedBranchRelation::Ineligible
    );
}

#[test]
fn criss_cross_histories_have_no_single_merge_base() {
    let commits = vec![
        commit("base-tip", &["m1", "m2"]),
        commit("branch-tip", &["m2", "m1"]),
        commit("m1", &["root"]),
        commit("m2", &["root"]),
        commit("root", &[]),
    ];
    assert_eq!(
        displayed_branch_relation(&commits, "base-tip", "branch-tip"),
        DisplayedBranchRelation::Ineligible
    );
}

#[test]
fn ancestors_follow_every_displayed_parent() {
    let commits = vec![
        commit("merge", &["a", "b"]),
        commit("a", &["root"]),
        commit("b", &["gone"]),
        commit("root", &[]),
        commit("other", &["root"]),
    ];
    assert_eq!(displayed_ancestors(&commits, "merge"), vec![true, true, true, true, false]);
    assert_eq!(displayed_ancestors(&commits, "b"), vec![false, false, true, false, false]);
    assert_eq!(displayed_ancestors(&commits, "missing"), vec![false; 5]);
}

#[test]
fn symbol_sets_only_select_rounded_lines_for_powerline() {
    assert_eq!(GraphLineStyle::from_symbol_name("powerline"), GraphLineStyle::Round);
    assert_eq!(GraphLineStyle::from_symbol_name("unicode"), GraphLineStyle::Thin);
    assert_eq!(GraphLineStyle::from_symbol_name("ascii"), GraphLineStyle::Thin);
}

#[test]
fn load_options_default_to_five_hundred_local_commits() {
    let o = GraphLoadOptions::default();
    assert_eq!(o.max_count, 500);
    assert!(!o.include_remotes);
    assert_eq!(o.line_style, GraphLineStyle::Thin);
    assert_eq!(o.base_branch, None);
}

#[test]
fn merge_subjects_name_their_branch() {
    assert_eq!(parse_merge_branch_name("Merge branch 'feature/x' into main"), Some("feature/x".to_string()));
    assert_eq!(parse_merge_branch_name("Merge branch 'hotfix'"), Some("hotfix".to_string()));
    assert_eq!(parse_merge_branch_name("Merge branch ''"), None);
    assert_eq!(parse_merge_branch_name("Merge branch 'unterminated"), None);
    assert_eq!(parse_merge_branch_name("Merge pull request #4 from a/b"), None);
}

#[test]
fn remote_short_name_drops_the_remote() {
    assert_eq!(remote_short_name("origin/feature/x"), "feature/x");
    assert_eq!(remote_short_name("main"), "main");
}

#[test]
fn load_error_message_names_both_failures() {
    let e = GraphLoadError::Both { gleisbau: "boom".into(), fallback: "no git".into() };
    assert_eq!(e.message(), "Gleisbau failed (boom) and the git CLI fallback failed (no git)");
}

fn on_branch(oid: &str, parents: &[&str], branch: &str, tip: bool) -> GraphCommit {
    let mut c = commit(oid, parents);
    c.branch = Some(GraphBranchLabel { name: branch.into(), target_oid: oid.into(), kind: GraphRefKind::LocalBranch });
    if tip {
        c.refs.push(GraphRef { name: branch.into(), kind: GraphRefKind::LocalBranch, has_linked_worktree: false, tracking: None });
    }
    c
}

fn squash_snapshot() -> GraphSnapshot {
    GraphSnapshot {
        source: GraphSource::Gleisbau,
        commits: vec![
            on_branch("b1", &["b2"], "main", true),
            on_branch("f1", &["root"], "feature", true),
            on_branch("b2", &["root"], "main", false),
            on_branch("root", &[], "main", false),
        ],
        lines: Vec::new(),
        ref_counts: GraphRefCounts { local: 2, remote: 0 },
        max_count: 500,
        includes_remotes: false,
        generation: Some(3),
    }
}

#[test]
fn squash_jobs_cover_base_commits_then_diverged_tips() {
    let jobs = squash_patch_jobs(&squash_snapshot(), "main");
    let shown: Vec<(Option<String>, String, String)> = jobs
        .iter()
        .map(|j| {
            let base = match &j.target {
                PatchTarget::BaseCommit(o) => Some(o.clone()),
                PatchTarget::BranchTip => None,
            };
            (base, j.old_oid.clone(), j.new_oid.clone())
        })
        .collect();
    assert_eq!(
        shown,
        vec![
            (Some("b1".to_string()), "b2".to_string(), "b1".to_string()),
            (Some("b2".to_string()), "root".to_string(), "b2".to_string()),
            (None, "root".to_string(), "f1".to_string()),
        ]
    );
    assert!(squash_patch_jobs(&squash_snapshot(), "trunk").is_empty());
}

fn squash_results() -> Vec<PatchResult> {
    vec![
        PatchResult { target: PatchTarget::BaseCommit("b1".into()), patch_id: Some("p-other".into()), diff_text: None },
        PatchResult { target: PatchTarget::BaseCommit("b2".into()), patch_id: Some("p-feature".into()), diff_text: None },
        PatchResult { target: PatchTarget::BranchTip, patch_id: Some("p-feature".into()), diff_text: None },
    ]
}

#[test]
fn exact_patch_matches_mark_base_commits() {
    let m = matching_base_oids(&squash_results());
    assert!(m.contains("b2"));
    assert!(!m.contains("b1"));
    let updates = compute_possible_squash_updates(&squash_snapshot(), Some("main"), &squash_results(), &vec![("b1".to_string(), 87)]);
    let oids: Vec<&str> = updates.iter().map(|u| u.oid.as_str()).collect();
    assert_eq!(oids, vec!["b1", "b2", "root"]);
    assert!(!updates[0].is_possible_squash_merge);
    assert_eq!(updates[0].fuzzy_squash_match, Some(FuzzySquashMatch { similarity_percent: 87 }));
    assert!(updates[1].is_possible_squash_merge);
    assert_eq!(updates[1].fuzzy_squash_match, None);
    assert!(compute_possible_squash_updates(&squash_snapshot(), None, &squash_results(), &Vec::new()).is_empty());
}

#[test]
fn annotated_load_applies_the_hints() {
    let annotated = load_graph_with_squash_annotations(
        Ok(squash_snapshot()),
        Some("main"),
        &squash_results(),
        &vec![("b1".to_string(), 87)],
    )
    .unwrap();
    assert_eq!(annotated.commits.len(), 4);
    assert!(annotated.commits[2].is_possible_squash_merge);
    assert_eq!(annotated.commits[0].fuzzy_squash_match, Some(FuzzySquashMatch { similarity_percent: 87 }));
    assert!(!annotated.commits[1].is_possible_squash_merge);
    assert_eq!(annotated.generation, Some(3));
    let failed = load_graph_with_squash_annotations(
        Err(GraphLoadError::Both { gleisbau: "a".into(), fallback: "b".into() }),
        Some("main"),
        &Vec::new(),
        &Vec::new(),
    );
    assert!(failed.is_err());
}

fn one_commit_snapshot(oid: &str, generation: u64) -> GraphSnapshot {
    let mut c = commit(oid, &[]);
    c.lane = Some(0);
    GraphSnapshot {
        source: GraphSource::Gleisbau,
        commits: vec![c],
        lines: vec![GraphLine { graph: "*".into(), commit_index: Some(0) }],
        ref_counts: GraphRefCounts { local: 0, remote: 0 },
        max_count: 500,
        includes_remotes: false,
        generation: Some(generation),
    }
}

fn squash_hint(oid: &str, generation: u64) -> GraphEnrichmentMsg {
    GraphEnrichmentMsg {
        generation,
        updates: vec![GraphEnrichmentUpdate { oid: oid.into(), is_possible_squash_merge: true, fuzzy_squash_match: None }],
    }
}

#[test]
fn graph_enrichment_with_stale_generation_is_dropped_by_drain() {
    let first_generation = 1;
    let second_generation = 2;
    let mut current = one_commit_snapshot("2222222222222222222222222222222222222222", second_generation);
    let applied = apply_enrichment_msg(
        &mut current,
        second_generation,
        &squash_hint("2222222222222222222222222222222222222222", first_generation),
    );
    assert!(!applied);
    assert!(
        !current.commits[0].is_possible_squash_merge,
        "stale enrichment must not overwrite the newer snapshot's marker"
    );
}

#[test]
fn graph_enrichment_with_matching_generation_is_applied_by_drain() {
    let generation = 1;
    let mut current = one_commit_snapshot("3333333333333333333333333333333333333333", generation);
    let applied = apply_enrichment_msg(
        &mut current,
        generation,
        &squash_hint("3333333333333333333333333333333333333333", generation),
    );
    assert!(applied);
    assert!(
        current.commits[0].is_possible_squash_merge,
        "matching-generation enrichment must be applied by the drain"
    );
}

#[test]
fn applying_the_same_hints_twice_equals_applying_them_once() {
    let mut once = squash_snapshot();
    let updates = vec![
        GraphEnrichmentUpdate { oid: "b1".into(), is_possible_squash_merge: true, fuzzy_squash_match: None },
        GraphEnrichmentUpdate {
            oid: "f1".into(),
            is_possible_squash_merge: false,
            fuzzy_squash_match: Some(FuzzySquashMatch { similarity_percent: 91 }),
        },
        GraphEnrichmentUpdate { oid: "b1".into(), is_possible_squash_merge: false, fuzzy_squash_match: None },
        GraphEnrichmentUpdate { oid: "unknown".into(), is_possible_squash_merge: true, fuzzy_squash_match: None },
    ];
    apply_squash_enrichment(&mut once, &updates);
    let mut twice = once.clone();
    apply_squash_enrichment(&mut twice, &updates);
    assert_eq!(twice, once);
    assert_eq!(once.commits.len(), squash_snapshot().commits.len());
    assert!(!once.commits[0].is_possible_squash_merge);
    assert_eq!(once.commits[1].fuzzy_squash_match, Some(FuzzySquashMatch { similarity_percent: 91 }));
}
