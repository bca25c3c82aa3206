use git_branch_manager::fuzzy::{added_removed_lines, pair_counts, summarize_diff, touched_files};

fn diff_for(paths_and_hunks: &[(&str, &str)]) -> Vec<u8> {
    let mut out = String::new();
    for (path, hunk) in paths_and_hunks {
        out.push_str(&format!("diff --git a/{path} b/{path}\n"));
        out.push_str("index 0000000..1111111 100644\n");
        out.push_str(&format!("--- a/{path}\n"));
        out.push_str(&format!("+++ b/{path}\n"));
        out.push_str(hunk);
    }
    out.into_bytes()
}

#[test]
fn binary_sections_are_excluded_from_line_level_comparison() {
    let mut diff = String::new();
    diff.push_str("diff --git a/bin.dat b/bin.dat\n");
    diff.push_str("index 0000000..1111111 100644\n");
    diff.push_str("GIT binary patch\n");
    diff.push_str("literal 4\n");
    diff.push_str("+abcd\n"); // would look like an added line if not excluded
    let (added, removed) = added_removed_lines(&diff);
    assert!(added.items.is_empty());
    assert!(removed.items.is_empty());
}

#[test]
fn headers_name_the_touched_files() {
    let diff = String::from_utf8(diff_for(&[("src/a.rs", "@@ -1 +1 @@\n-x\n+y\n"), ("b.txt", "")])).unwrap();
    let files = touched_files(&diff);
    assert_eq!(files.items, vec!["b.txt".to_string(), "src/a.rs".to_string()]);
    let odd = touched_files("diff --git weird-header\n");
    assert_eq!(odd.items, vec!["weird-header".to_string()]);
}

#[test]
fn added_and_removed_lines_are_trimmed_and_deduplicated() {
    let diff = String::from_utf8(diff_for(&[("f.txt", "@@ -1,3 +1,3 @@\n-  old  \n+new\n+new\n+   \n context\n")])).unwrap();
    let (added, removed) = added_removed_lines(&diff);
    assert_eq!(added.items, vec!["new".to_string()]);
    assert_eq!(removed.items, vec!["old".to_string()]);
}

#[test]
fn pair_counts_keep_added_and_removed_apart() {
    let a = summarize_diff(&diff_for(&[("f.txt", "@@ -1 +1 @@\n-x\n+y\n"), ("g.txt", "@@ -1 +1 @@\n+z\n")]));
    let b = summarize_diff(&diff_for(&[("f.txt", "@@ -1 +1 @@\n-y\n+y\n")]));
    let c = pair_counts(&a, &b);
    assert_eq!((c.common_files, c.union_files), (1, 2));
    assert_eq!((c.tokens_a, c.tokens_b), (3, 2));
    assert_eq!(c.common_tokens, 1);
    assert_eq!(c.union_tokens, 4);
}
