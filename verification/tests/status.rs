use git_branch_manager::status::{parse_porcelain_v2, status_from_output, ChangedFileKind};

#[test]
fn porcelain_v2_entries_are_read_by_kind() {
    let out = "# branch.oid abc\n1 M. N... 100644 100644 100644 aaa bbb src/lib.rs\n1 .M N... 100644 100644 100644 aaa bbb dir/with space.txt\n2 R. N... 100644 100644 100644 aaa bbb R100 new name.rs\told.rs\nu UU N... 100644 100644 100644 100644 aaa bbb ccc conflict.rs\n? untracked file\n! ignored\n";
    let st = parse_porcelain_v2(out);
    assert!(st.has_staged && st.has_modified && st.has_untracked);
    let files: Vec<(&str, ChangedFileKind)> = st.changed_files.iter().map(|f| (f.path.as_str(), f.kind)).collect();
    assert_eq!(
        files,
        vec![
            ("src/lib.rs", ChangedFileKind::Staged),
            ("dir/with space.txt", ChangedFileKind::Modified),
            ("new name.rs", ChangedFileKind::Staged),
            ("conflict.rs", ChangedFileKind::Staged),
            ("conflict.rs", ChangedFileKind::Modified),
            ("untracked file", ChangedFileKind::Untracked),
        ]
    );
}

#[test]
fn clean_and_failed_status() {
    let st = parse_porcelain_v2("# branch.head main\n");
    assert!(st.is_clean() && st.changed_files.is_empty());
    assert!(status_from_output(None).is_clean());
    assert!(!status_from_output(Some("? x\n")).is_clean());
}
