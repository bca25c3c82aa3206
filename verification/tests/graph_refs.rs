use git_branch_manager::graph::{GraphRefKind, GraphRefTracking};
use git_branch_manager::graph_refs::ref_data_from;
use git_branch_manager::keyed::KeySet;

fn pairs(v: &[(&str, &str)]) -> Vec<(String, String)> {
    v.iter().map(|(a, b)| (a.to_string(), b.to_string())).collect()
}

#[test]
fn refs_are_grouped_by_commit_and_remotes_follow_the_setting() {
    let locals = pairs(&[("main", "c1"), ("feature", "c2")]);
    let remotes = pairs(&[("origin/main", "c1")]);
    let tags = pairs(&[("v1", "c1")]);
    let trackings = vec![Some(GraphRefTracking { ahead: 0, behind: 2 }), None];
    let mut linked = KeySet::new();
    linked.insert("feature".to_string());
    let d = ref_data_from(&locals, &remotes, &tags, &trackings, true, Some("main".into()), &linked);
    assert_eq!((d.ref_counts.local, d.ref_counts.remote), (2, 1));
    let c1 = d.refs_by_oid.get("c1").unwrap();
    let kinds: Vec<GraphRefKind> = c1.iter().map(|r| r.kind).collect();
    assert_eq!(kinds, vec![GraphRefKind::LocalBranch, GraphRefKind::RemoteBranch, GraphRefKind::Tag]);
    assert_eq!(c1[0].tracking, Some(GraphRefTracking { ahead: 0, behind: 2 }));
    let c2 = d.refs_by_oid.get("c2").unwrap();
    assert!(c2[0].has_linked_worktree);
    assert_eq!(d.branch_labels.get("origin/main").unwrap().kind, GraphRefKind::RemoteBranch);
    assert_eq!(d.branch_labels.get("feature").unwrap().target_oid, "c2");
    assert_eq!(d.base_branch.as_deref(), Some("main"));

    let local_only = ref_data_from(&locals, &remotes, &tags, &trackings, false, None, &linked);
    assert_eq!(local_only.ref_counts.remote, 0);
    assert_eq!(local_only.refs_by_oid.get("c1").unwrap().len(), 2);
    assert!(local_only.branch_labels.get("origin/main").is_none());
}
