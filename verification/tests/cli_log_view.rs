use ctx::cli::log::ActivePanel;
use ctx::cli::log_view::{
    detail_title, footer_text, format_diff_line, format_file_stat, LogCursor, WorktreeDiffLine,
};

fn test_lines() -> Vec<String> {
    vec![
        "commit a1b2c3d000".to_string(),
        "diff -- src/lib.rs".to_string(),
        "+         1 | added".to_string(),
    ]
}

#[test]
fn active_panel_switches_with_left_and_right_behavior() {
    let mut state = LogCursor::new();
    let commits = 2;
    let lines = test_lines().len();
    assert_eq!(state.active_panel, ActivePanel::Commits);

    state.focus_detail();
    state.move_active_down(commits, lines);
    assert_eq!(state.diff_scroll, 1);
    assert_eq!(state.selected_commit, 0);

    state.move_active_up(commits, lines);
    assert_eq!(state.diff_scroll, 0);

    state.focus_commits();
    state.move_active_down(commits, lines);
    assert_eq!(state.selected_commit, 1);

    state.move_active_up(commits, lines);
    assert_eq!(state.selected_commit, 0);
}

#[test]
fn footer_text_shortens_for_narrow_terminals() {
    let state = LogCursor::new();
    let narrow = footer_text(&state, 2, true, 60);
    assert!(narrow.contains("left/right focus"));
    assert!(!narrow.contains("f/b page"));

    let wide = footer_text(&state, 2, true, 120);
    assert!(wide.contains("f/b page"));
    assert!(wide.contains("n/p file"));
}

#[test]
fn footer_text_exact_forms() {
    let state = LogCursor::new();
    assert_eq!(
        footer_text(&state, 2, false, 60),
        "commit 1/2 | commits | d load | left/right focus | j/k | q"
    );
    assert_eq!(
        footer_text(&state, 2, true, 88),
        "commit 1/2 | focus commits | diff | d top | left/right focus | j/k move/scroll | f/b page | n/p file | q"
    );
}

#[test]
fn commit_moves_clamp_and_report_changes() {
    let mut c = LogCursor::new();
    c.diff_scroll = 2;
    assert!(!c.move_commit(-1, 3));
    assert_eq!(c.diff_scroll, 2);
    assert!(c.move_commit(5, 3));
    assert_eq!(c.selected_commit, 2);
    assert_eq!(c.diff_scroll, 0);
    assert!(!c.move_end(3));
    assert!(c.move_home());
    assert_eq!(c.selected_commit, 0);
    assert!(!c.move_commit(1, 0));
    assert!(c.move_end(3));
    assert_eq!(c.selected_commit, 2);
}

#[test]
fn detail_scroll_clamps_to_last_line() {
    let mut c = LogCursor::new();
    c.scroll_diff(10, 3);
    assert_eq!(c.diff_scroll, 2);
    c.scroll_diff(-10, 3);
    assert_eq!(c.diff_scroll, 0);
    c.scroll_diff(1, 0);
    assert_eq!(c.diff_scroll, 0);
}

#[test]
fn file_jumps_move_the_scroll() {
    let mut c = LogCursor::new();
    let lines = test_lines();
    c.jump_file(&lines, 1);
    assert_eq!(c.diff_scroll, 1);
    c.jump_file(&lines, 1);
    assert_eq!(c.diff_scroll, 1);
    c.jump_file(&lines, -1);
    assert_eq!(c.diff_scroll, 1);
}

#[test]
fn loading_mark_needs_commits() {
    let mut c = LogCursor::new();
    c.error = Some("boom".to_string());
    c.mark_diff_loading(0);
    assert!(!c.diff_loading);
    assert_eq!(c.error.as_deref(), Some("boom"));
    c.mark_diff_loading(1);
    assert!(c.diff_loading);
    assert_eq!(c.error, None);
}

#[test]
fn detail_titles() {
    let c = LogCursor::new();
    assert_eq!(detail_title(&c, None, false, 10, 3, 0, false), " files | no commit selected ");
    assert_eq!(
        detail_title(&c, Some("a1b2c3d"), false, 10, 3, 2, true),
        " files a1b2c3d 1-3/3 | 2 files | d diff [focus] "
    );
    assert_eq!(
        detail_title(&c, Some("a1b2c3d"), true, 10, 0, 1, false),
        " diff a1b2c3d 0/0 | 1 files "
    );
}

#[test]
fn diff_and_stat_lines() {
    assert_eq!(format_diff_line(&diff_line("add", 0, 12, "x")), "+        12 | x");
    assert_eq!(format_diff_line(&diff_line("del", 3, 0, "y")), "-    3      | y");
    assert_eq!(format_diff_line(&diff_line("ctx", 4, 5, "z")), "     4    5 | z");
    assert_eq!(format_file_stat("added", 3, 0, "src/new.rs", false), " A    3+    0- src/new.rs");
    assert_eq!(
        format_file_stat("modified", 12345, 1, "img.png", true),
        " M 12345+    1- img.png binary"
    );
}

fn diff_line(typ: &str, old_num: i32, new_num: i32, text: &str) -> WorktreeDiffLine {
    WorktreeDiffLine { typ: typ.to_string(), text: text.to_string(), old_num, new_num }
}

#[test]
fn diff_lines_include_old_and_new_number_columns() {
    let added = diff_line("add", 0, 12, "hello");
    let deleted = diff_line("del", 7, 0, "bye");
    let context = diff_line("ctx", 3, 3, "same");

    let added = format_diff_line(&added);
    let deleted = format_diff_line(&deleted);
    let context = format_diff_line(&context);

    assert!(added.starts_with("+ "));
    assert!(added.contains("  12 | hello"));
    assert!(deleted.starts_with("- "));
    assert!(deleted.contains("   7      | bye"));
    assert!(context.starts_with("  "));
    assert!(context.contains("   3    3 | same"));
}
