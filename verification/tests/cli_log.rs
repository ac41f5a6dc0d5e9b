use ctx::cli::log::{
    classify_detail_line, commit_position_label, file_jump_target, format_commit_date,
    format_diff_number, is_file_jump_line, is_file_stat_line, is_valid_ref, path_matches_filter,
    push_unique, scroll_start, status_letter, visible_range_label, visible_scroll_start,
    ActivePanel, DetailLineKind, LogCommit,
};

#[test]
fn ref_validator_allows_conservative_branch_names() {
    assert!(is_valid_ref("main"));
    assert!(is_valid_ref("feature/ctx-log_1"));
    assert!(is_valid_ref("deadbeef"));
    assert!(!is_valid_ref("-n1"));
    assert!(!is_valid_ref("bad ref"));
    assert!(!is_valid_ref(""));
}

#[test]
fn detail_line_classification_matches_git_diff_semantics() {
    assert_eq!(classify_detail_line("+         1 | added"), DetailLineKind::Add);
    assert_eq!(classify_detail_line("-    1      | removed"), DetailLineKind::Delete);
    assert_eq!(classify_detail_line("     1    1 | context"), DetailLineKind::Context);
    assert_eq!(classify_detail_line("   old  new | code"), DetailLineKind::DiffColumnHeader);
    assert_eq!(classify_detail_line("diff -- src/main.rs"), DetailLineKind::FileHeader);
    assert_eq!(classify_detail_line(" A    3+    0- src/new.rs"), DetailLineKind::FileStatAdd);
    assert_eq!(classify_detail_line(" D    0+    3- src/old.rs"), DetailLineKind::FileStatDelete);
    assert_eq!(classify_detail_line(" M    2+    1- src/lib.rs"), DetailLineKind::FileStatModify);
    assert_eq!(classify_detail_line("  [binary] file changed"), DetailLineKind::Notice);
    assert_eq!(classify_detail_line("  [no text changes]"), DetailLineKind::Notice);
    assert_eq!(classify_detail_line("    subject"), DetailLineKind::Subject);
}

#[test]
fn commit_position_label_clamps_selection() {
    assert_eq!(commit_position_label(0, 0), "0/0");
    assert_eq!(commit_position_label(0, 3), "1/3");
    assert_eq!(commit_position_label(2, 3), "3/3");
    assert_eq!(commit_position_label(99, 3), "3/3");
}

#[test]
fn visible_range_label_reports_scroll_window() {
    assert_eq!(visible_range_label(0, 0, 25), "0/0");
    assert_eq!(visible_range_label(0, 10, 0), "0/0");
    assert_eq!(visible_range_label(0, 10, 25), "1-10/25");
    assert_eq!(visible_range_label(20, 10, 25), "21-25/25");
    assert_eq!(visible_range_label(99, 10, 25), "25-25/25");
}

#[test]
fn visible_scroll_start_keeps_last_page_dense() {
    assert_eq!(visible_scroll_start(0, 0, 25), 0);
    assert_eq!(visible_scroll_start(0, 10, 0), 0);
    assert_eq!(visible_scroll_start(0, 10, 25), 0);
    assert_eq!(visible_scroll_start(20, 10, 25), 15);
    assert_eq!(visible_scroll_start(99, 10, 25), 15);
    assert_eq!(visible_scroll_start(99, 30, 25), 0);
}

#[test]
fn file_jump_target_moves_between_file_boundaries() {
    let lines = vec![
        "commit abc".to_string(),
        " M    2+    1- src/lib.rs".to_string(),
        "+         1 | added".to_string(),
        "diff -- src/lib.rs".to_string(),
        "     1    1 | context".to_string(),
        "diff -- src/main.rs".to_string(),
    ];

    assert_eq!(file_jump_target(&lines, 0, 1), Some(1));
    assert_eq!(file_jump_target(&lines, 1, 1), Some(3));
    assert_eq!(file_jump_target(&lines, 4, 1), Some(5));
    assert_eq!(file_jump_target(&lines, 5, 1), None);
    assert_eq!(file_jump_target(&lines, 5, -1), Some(3));
    assert_eq!(file_jump_target(&lines, 3, -1), Some(1));
}

#[test]
fn file_jump_line_ignores_regular_diff_body() {
    assert!(is_file_jump_line("diff -- src/lib.rs"));
    assert!(is_file_jump_line(" A    3+    0- src/new.rs"));
    assert!(is_file_jump_line(" D    0+    3- src/old.rs"));
    assert!(is_file_jump_line(" M    2+    1- src/lib.rs"));
    assert!(!is_file_jump_line("+         1 | added"));
    assert!(!is_file_jump_line("-    1      | removed"));
    assert!(!is_file_jump_line("     1    1 | context"));
}

#[test]
fn file_jump_target_with_zero_delta_stays() {
    let lines = vec!["diff -- a".to_string(), "diff -- b".to_string()];
    assert_eq!(file_jump_target(&lines, 0, 0), None);
    assert_eq!(file_jump_target(&lines, 99, 1), None);
    assert_eq!(file_jump_target(&lines, 99, -1), Some(1));
}

#[test]
fn file_stat_line_needs_ascii_whitespace_after_status() {
    assert!(is_file_stat_line(" A\tx"));
    assert!(!is_file_stat_line(" A"));
    assert!(!is_file_stat_line(" Ax"));
    assert!(!is_file_stat_line(" R x"));
}

#[test]
fn push_unique_skips_values_already_present() {
    let mut values = vec!["a".to_string()];
    push_unique(&mut values, "b".to_string());
    push_unique(&mut values, "a".to_string());
    push_unique(&mut values, "b".to_string());
    assert_eq!(values, vec!["a".to_string(), "b".to_string()]);
}

#[test]
fn path_filter_matches_directories_only_at_separators() {
    assert!(path_matches_filter("src/main.rs", "src/main.rs"));
    assert!(path_matches_filter("src/main.rs", "src"));
    assert!(!path_matches_filter("srcx/main.rs", "src"));
    assert!(!path_matches_filter("src", "src/main.rs"));
}

#[test]
fn scroll_start_puts_selection_on_last_row() {
    assert_eq!(scroll_start(3, 0), 0);
    assert_eq!(scroll_start(3, 5), 0);
    assert_eq!(scroll_start(9, 5), 5);
    assert_eq!(scroll_start(usize::MAX, 1), usize::MAX);
}

#[test]
fn diff_numbers_dates_and_status_letters() {
    assert_eq!(format_diff_number(0), "    ");
    assert_eq!(format_diff_number(-3), "    ");
    assert_eq!(format_diff_number(7), "   7");
    assert_eq!(format_diff_number(12345), "12345");
    assert_eq!(format_commit_date(0), "@unknown");
    assert_eq!(format_commit_date(1700000000), "@1700000000");
    assert_eq!(status_letter("added"), "A");
    assert_eq!(status_letter("deleted"), "D");
    assert_eq!(status_letter("renamed"), "M");
}

#[test]
fn active_panel_labels() {
    assert_eq!(ActivePanel::Commits.label(), "commits");
    assert_eq!(ActivePanel::Detail.label(), "diff");
}

#[test]
fn worktree_commit_summarises_file_count() {
    let c = LogCommit::from_worktree(3, vec!["src/a.rs".to_string()]);
    assert_eq!(c.hash, "worktree");
    assert_eq!(c.subject, "uncommitted changes (3 files)");
    assert_eq!(c.author, "working tree");
    assert_eq!(c.date, 0);
    assert!(c.is_worktree);
    assert_eq!(c.matched_paths, vec!["src/a.rs".to_string()]);
}
