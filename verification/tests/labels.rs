use git_branch_manager::graph::{GraphBranchLabel, GraphCommit, GraphRefKind};
use git_branch_manager::labels::{assign_graph_branch_labels, first_parent_chain, first_parent_history};

fn commit(oid: &str, parents: &[&str], summary: &str) -> GraphCommit {
    GraphCommit {
        oid: oid.into(),
        summary: summary.into(),
        parents: parents.iter().map(|p| (*p).into()).collect(),
        lane: None,
        branch: None,
        refs: Vec::new(),
        is_possible_squash_merge: false,
        fuzzy_squash_match: None,
    }
}

fn label(name: &str, target: &str, kind: GraphRefKind) -> GraphBranchLabel {
    GraphBranchLabel { name: name.into(), target_oid: target.into(), kind }
}

fn names(commits: &[GraphCommit]) -> Vec<Option<String>> {
    commits.iter().map(|c| c.branch.as_ref().map(|b| b.name.clone())).collect()
}

#[test]
fn base_branch_claims_its_chain_before_other_labels() {
    let mut commits = vec![
        commit("m", &["b1", "f1"], "Merge branch 'feature' into main"),
        commit("f1", &["b1"], "feature work"),
        commit("b1", &["root"], "base work"),
        commit("root", &[], "root"),
    ];
    let labels = vec![
        label("zzz-retained", "b1", GraphRefKind::LocalBranch),
        label("main", "m", GraphRefKind::LocalBranch),
    ];
    assign_graph_branch_labels(&mut commits, &labels, Some("main"));
    assert_eq!(
        names(&commits),
        vec![Some("main".into()), Some("feature".into()), Some("main".into()), Some("main".into())]
    );
    assert_eq!(commits[1].branch.as_ref().unwrap().target_oid, "f1");
}

#[test]
fn local_branches_outrank_remote_ones_and_names_break_ties() {
    let mut commits = vec![commit("a", &["r"], "a"), commit("r", &[], "r")];
    let labels = vec![
        label("origin/a", "a", GraphRefKind::RemoteBranch),
        label("b", "r", GraphRefKind::LocalBranch),
        label("a", "a", GraphRefKind::LocalBranch),
    ];
    assign_graph_branch_labels(&mut commits, &labels, None);
    assert_eq!(names(&commits), vec![Some("a".into()), Some("a".into())]);
}

#[test]
fn first_parent_walks_stop_at_the_window_and_cycles() {
    let commits = vec![commit("x", &["y"], ""), commit("y", &["gone"], ""), commit("z", &[], "")];
    assert_eq!(first_parent_chain(&commits, "x"), vec![true, true, false]);
    let h = first_parent_history(&commits, "x");
    assert!(h.contains("x") && h.contains("y") && h.contains("gone"));
    assert!(!h.contains("z"));
    let looped = vec![commit("p", &["q"], ""), commit("q", &["p"], "")];
    assert_eq!(first_parent_chain(&looped, "p"), vec![true, true]);
}
