use git_branch_manager::squash::{
    cherry_args, cherry_marks_applied, commit_tree_args, known_merge_base, merge_base_args, squash_branchish,
    squash_check_verdict,
};
use git_branch_manager::cache::{BranchCache, CacheRows};
use git_branch_manager::squash::{
    cache_checked, cherry_verdict, confidence_rank, split_cached, squash_verdict, strongest_confidence, Candidate,
};
use git_branch_manager::types::{MergeStatus, SquashConfidence};

fn empty_cache() -> BranchCache {
    BranchCache::load_from_path(
        "/nowhere/cache.db".to_string(),
        CacheRows { entries: vec![], ahead_behind: vec![], merge_bases: vec![], base_tip: None, graph_patches: vec![] },
    )
}

fn candidate(name: &str, hash: &str) -> Candidate {
    Candidate { branch_name: name.to_string(), commit_hash: hash.to_string(), merge_base: None }
}

#[test]
fn confidence_ranks_prefer_confirmed_then_similarity() {
    assert_eq!(confidence_rank(&SquashConfidence::MergeTreeConfirmed), (0, 0));
    assert_eq!(confidence_rank(&SquashConfidence::FuzzyMatch { similarity_percent: 90 }), (1, 165));
    let fuzzy = |p| Some(SquashConfidence::FuzzyMatch { similarity_percent: p });
    assert_eq!(strongest_confidence(fuzzy(80), fuzzy(95)), fuzzy(95));
    assert_eq!(strongest_confidence(fuzzy(95), Some(SquashConfidence::MergeTreeConfirmed)), Some(SquashConfidence::MergeTreeConfirmed));
    assert_eq!(strongest_confidence(fuzzy(70), fuzzy(70)), fuzzy(70));
    assert_eq!(strongest_confidence(None, fuzzy(60)), fuzzy(60));
    assert_eq!(strongest_confidence(None, None), None);
}

#[test]
fn verdicts_combine_local_and_remote_checks() {
    assert_eq!(squash_verdict(true, true, None, None), (MergeStatus::SquashMerged, None));
    assert_eq!(squash_verdict(false, true, None, None), (MergeStatus::RemoteSquashMerged, None));
    assert_eq!(squash_verdict(true, false, None, None), (MergeStatus::LocalSquashMerged, None));
    assert_eq!(
        squash_verdict(false, false, None, Some(SquashConfidence::MergeTreeConfirmed)),
        (MergeStatus::LikelySquashMerged, Some(SquashConfidence::MergeTreeConfirmed))
    );
    assert_eq!(squash_verdict(false, false, None, None), (MergeStatus::Unmerged, None));
    assert_eq!(cherry_verdict(true, true), MergeStatus::CherryPicked);
    assert_eq!(cherry_verdict(false, true), MergeStatus::RemoteCherryPicked);
    assert_eq!(cherry_verdict(true, false), MergeStatus::LocalCherryPicked);
    assert_eq!(cherry_verdict(false, false), MergeStatus::Unmerged);
}

#[test]
fn cached_answers_skip_the_checks_except_unmerged_for_squash() {
    let mut cache = empty_cache();
    cache.insert("merged", &MergeStatus::SquashMerged, "h1");
    cache.insert("open", &MergeStatus::Unmerged, "h2");
    let cands = || vec![candidate("merged", "h1"), candidate("open", "h2"), candidate("new", "h3")];
    let (hits, misses) = split_cached(&mut cache, cands(), true);
    assert_eq!(hits, vec![("merged".to_string(), MergeStatus::SquashMerged)]);
    let names: Vec<&str> = misses.iter().map(|c| c.branch_name.as_str()).collect();
    assert_eq!(names, vec!["open", "new"]);
    let (hits, misses) = split_cached(&mut cache, cands(), false);
    assert_eq!(hits.len(), 2);
    assert_eq!(misses.len(), 1);
}

#[test]
fn cache_is_written_every_hundred_results() {
    let mut cache = empty_cache();
    assert_eq!(cache_checked(&mut cache, 0, "a", "h", MergeStatus::Unmerged), (1, false));
    assert_eq!(cache_checked(&mut cache, 99, "b", "h", MergeStatus::SquashMerged), (0, true));
    assert_eq!(cache.lookup("b", "other"), Some(MergeStatus::SquashMerged));
}

#[test]
fn squash_check_needs_all_three_steps() {
    assert_eq!(known_merge_base(Some("abc")), Some("abc".to_string()));
    assert_eq!(known_merge_base(Some("")), None);
    assert_eq!(known_merge_base(None), None);
    assert!(cherry_marks_applied("- 1234"));
    assert!(!cherry_marks_applied("+ 1234"));
    assert!(!cherry_marks_applied(""));
    assert!(squash_check_verdict(Some("base"), Some("tmp"), Some("- tmp")));
    assert!(!squash_check_verdict(Some("base"), Some("tmp"), Some("+ tmp")));
    assert!(!squash_check_verdict(Some(""), Some("tmp"), Some("- tmp")));
    assert!(!squash_check_verdict(Some("base"), None, Some("- tmp")));
    assert!(!squash_check_verdict(Some("base"), Some("tmp"), None));
}

#[test]
fn squash_check_commands_name_the_tip_and_the_base() {
    let b = squash_branchish("feature/x", Some("abc1234"));
    assert_eq!(b, "abc1234");
    assert_eq!(squash_branchish("feature/x", None), "feature/x");
    assert_eq!(merge_base_args("main", b), vec!["merge-base", "main", "abc1234"]);
    assert_eq!(
        commit_tree_args(b, "0ff1ce"),
        vec!["commit-tree", "abc1234^{tree}", "-p", "0ff1ce", "-m", "_"]
    );
    assert_eq!(cherry_args("origin/main", "7e3p"), vec!["cherry", "origin/main", "7e3p"]);
}
