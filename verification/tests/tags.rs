use git2::{Repository, RepositoryInitOptions, Signature, Time};
use git_branch_manager::operations::CmdOutcome;
use git_branch_manager::tags::{
    delete_remote_tags_batch, delete_tag, delete_tags_batch, list_tags, push_tag, remote_tag_delete_args,
};
use git_branch_manager::types::BranchAction;

fn tagged_repo(dir: &str) -> Repository {
    let mut opts = RepositoryInitOptions::new();
    opts.bare(true).initial_head("main");
    let repo = Repository::init_opts(dir, &opts).unwrap();
    let tree_id = repo.treebuilder(None).unwrap().write().unwrap();
    {
        let tree = repo.find_tree(tree_id).unwrap();
        let old = Signature::new("Test", "test@example.com", &Time::new(1_000, 0)).unwrap();
        let new = Signature::new("Test", "test@example.com", &Time::new(5_000, 0)).unwrap();
        let first = repo.commit(None, &old, &old, "first", &tree, &[]).unwrap();
        let parent = repo.find_commit(first).unwrap();
        let second = repo.commit(None, &new, &new, "second", &tree, &[&parent]).unwrap();
        repo.reference("refs/heads/main", second, true, "test").unwrap();
        let second_obj = repo.find_object(second, None).unwrap();
        repo.tag("v2", &second_obj, &new, "  release two \n", true).unwrap();
        let first_obj = repo.find_object(first, None).unwrap();
        repo.tag_lightweight("v1", &first_obj, true).unwrap();
    }
    repo
}

#[test]
fn tags_are_listed_newest_first() {
    let repo = tagged_repo("/tmp/git-branch-manager-tests/tags-list");
    let tags = list_tags(&repo);
    assert_eq!(tags.len(), 2);
    assert_eq!(tags[0].name, "v2");
    assert!(tags[0].is_annotated);
    assert_eq!(tags[0].message.as_deref(), Some("release two"));
    assert_eq!(tags[0].date, 5_000);
    assert_eq!(tags[0].commit_hash.len(), 7);
    assert_eq!(tags[1].name, "v1");
    assert!(!tags[1].is_annotated);
    assert_eq!(tags[1].message, None);
}

#[test]
fn local_tags_are_deleted() {
    let repo = tagged_repo("/tmp/git-branch-manager-tests/tags-delete");
    let r = delete_tag(&repo, "v1");
    assert!(r.success);
    assert_eq!(r.message, "Deleted tag v1");
    let again = delete_tags_batch(&repo, &vec!["v1".to_string(), "v2".to_string()]);
    assert!(!again[0].success);
    assert!(again[0].message.starts_with("Failed: "));
    assert!(again[1].success);
    assert!(list_tags(&repo).is_empty());
}

#[test]
fn remote_tag_deletion_falls_back_to_single_pushes() {
    let names = vec!["v1".to_string(), "v2".to_string()];
    assert_eq!(remote_tag_delete_args(&names), vec!["push", "origin", "--delete", "v1", "v2"]);
    let all = delete_remote_tags_batch(&names, true, &vec![]);
    assert!(all.iter().all(|r| r.success && r.action == BranchAction::DeleteTagAndRemote));
    assert_eq!(all[1].message, "Deleted remote tag v2");
    let some = delete_remote_tags_batch(&names, false, &vec![false, true]);
    assert_eq!(some[0].message, "Failed to delete remote tag v1");
    assert!(some[1].success);
    assert!(delete_remote_tags_batch(&vec![], false, &vec![]).is_empty());
}

#[test]
fn pushing_a_tag() {
    assert_eq!(push_tag("v1", &CmdOutcome::Succeeded).message, "Pushed tag v1");
    let failed = push_tag("v1", &CmdOutcome::Failed { stderr: "  rejected\n".into() });
    assert!(!failed.success);
    assert_eq!(failed.message, "rejected");
}
