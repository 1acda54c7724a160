use darkshell::upload_diff::{build_filtered_tar_command, compute_upload_diff, FileEntry};

fn entry(path: &str, hash: &str, size: u64) -> FileEntry {
    FileEntry { path: path.to_string(), hash: hash.to_string(), size }
}

#[test]
fn test_dry_run_diff_computation() {
    let local_files = vec![
        entry("src/main.rs", "aaa", 100),
        entry("src/lib.rs", "bbb_changed", 200),
        entry("new_file.txt", "ccc", 50),
    ];
    let remote_files = vec![
        entry("src/main.rs", "aaa", 100),
        entry("src/lib.rs", "bbb_original", 180),
        entry("old_file.txt", "ddd", 75),
    ];
    let diff = compute_upload_diff(&local_files, &remote_files);
    assert_eq!(diff.added.len(), 1, "expected 1 added file");
    assert_eq!(diff.added[0].path, "new_file.txt");
    assert_eq!(diff.modified.len(), 1, "expected 1 modified file");
    assert_eq!(diff.modified[0].path, "src/lib.rs");
    assert_eq!(diff.modified[0].local_size, 200);
    assert_eq!(diff.modified[0].remote_size, 180);
    assert_eq!(diff.deleted.len(), 1, "expected 1 deleted file");
    assert_eq!(diff.deleted[0].path, "old_file.txt");
    assert_eq!(diff.unchanged.len(), 1, "expected 1 unchanged file");
    assert_eq!(diff.unchanged[0].path, "src/main.rs");
}

#[test]
fn test_dry_run_diff_empty_local_means_all_deleted() {
    let remote_files = vec![entry("a.txt", "xxx", 10)];
    let diff = compute_upload_diff(&vec![], &remote_files);
    assert!(diff.added.is_empty());
    assert!(diff.modified.is_empty());
    assert_eq!(diff.deleted.len(), 1);
    assert!(diff.unchanged.is_empty());
}

#[test]
fn test_dry_run_diff_empty_remote_means_all_added() {
    let local_files = vec![entry("a.txt", "xxx", 10)];
    let diff = compute_upload_diff(&local_files, &vec![]);
    assert_eq!(diff.added.len(), 1);
    assert!(diff.modified.is_empty());
    assert!(diff.deleted.is_empty());
    assert!(diff.unchanged.is_empty());
}

#[test]
fn every_local_file_is_classified_once() {
    let local = vec![entry("a", "1", 1), entry("b", "2", 2), entry("c", "3", 3), entry("d", "4", 4)];
    let remote = vec![entry("b", "2", 2), entry("c", "x", 9), entry("e", "5", 5), entry("c", "3", 3)];
    let diff = compute_upload_diff(&local, &remote);
    assert_eq!(diff.added.len() + diff.modified.len() + diff.unchanged.len(), local.len());
    assert_eq!(diff.added.iter().map(|f| f.path.as_str()).collect::<Vec<_>>(), vec!["a", "d"]);
    assert_eq!(diff.modified[0].remote_size, 9, "the first sandbox entry at a path is compared");
    assert_eq!(diff.deleted.iter().map(|f| f.path.as_str()).collect::<Vec<_>>(), vec!["e"]);
}

fn strs(v: &[&str]) -> Vec<String> {
    v.iter().map(|s| s.to_string()).collect()
}

#[test]
fn test_filtered_tar_command_with_include() {
    let cmd = build_filtered_tar_command("/workspace/project", &strs(&["*.json"]), &vec![]);
    assert!(cmd.contains("-name"), "include pattern should use find -name: {cmd}");
    assert!(cmd.contains("*.json"), "include pattern should appear in command: {cmd}");
}

#[test]
fn test_filtered_tar_command_with_exclude() {
    let cmd = build_filtered_tar_command("/workspace", &vec![], &strs(&["*.log"]));
    assert!(cmd.contains("! \\("), "exclude should use negated predicate: {cmd}");
    assert!(cmd.contains("-name"), "exclude pattern should use find -name: {cmd}");
    assert!(cmd.contains("*.log"), "exclude pattern should appear in command: {cmd}");
}

#[test]
fn test_filtered_tar_command_exclude_precedence() {
    let cmd = build_filtered_tar_command("/workspace", &strs(&["*.rs"]), &strs(&["*.bak"]));
    let include_pos = cmd.find("\\( -name").expect("include predicate should exist");
    let exclude_pos = cmd.find("! \\(").expect("exclude predicate should exist");
    assert!(include_pos < exclude_pos, "include predicates should precede exclude predicates in find command: {cmd}");
}

#[test]
fn test_filtered_tar_command_no_filters_matches_upstream() {
    let cmd = build_filtered_tar_command("/workspace/project", &vec![], &vec![]);
    assert!(cmd.contains("tar cf -"), "no-filter command should use plain tar: {cmd}");
    assert!(!cmd.contains("find"), "no-filter command should not use find: {cmd}");
}

#[test]
fn filtered_tar_command_exact_text() {
    assert_eq!(
        build_filtered_tar_command("/w", &strs(&["*.rs", "*.toml"]), &strs(&["target"])),
        "cd '/w' && find . -type f \\( -name '*.rs' -o -name '*.toml' \\) ! \\( -name 'target' \\) -print0 | tar cf - --null -T -"
    );
    assert_eq!(build_filtered_tar_command("/w", &vec![], &vec![]), "tar cf - -C '/w' .");
}
