use ctx::braid::types::PolicyKind;
use ctx::cli::digest::signed_fmt;
use ctx::cli::log_view::LogCursor;
use ctx::cli::noise::{aggregate_noise_globs, NoiseCandidate};
use ctx::cli::pack_ignore::glob_match;
use ctx::cli::pack_time::days_from_civil;
use ctx::cli::pack_why::levenshtein;
use ctx::cli::replay::tabwriter_format;
use ctx::cli::roots::{display_duration, parse_duration_arg, WaitTime};
use ctx::{merge_paths, StrandSelection};

#[test]
fn policy_kind_roundtrip() {
    for p in [PolicyKind::Merge, PolicyKind::PreferNewer, PolicyKind::ExcludeOverlap] {
        assert_eq!(PolicyKind::from_str_opt(p.as_str()), Some(p));
    }
}

#[test]
fn merge_policy_keeps_every_kept_entry() {
    let sel = |name: &str, paths: &[&str]| StrandSelection {
        name: name.to_string(),
        policy: PolicyKind::Merge,
        paths: paths.iter().map(|p| p.to_string()).collect(),
    };
    let merged = merge_paths(&[sel("a", &["x.go", "y.go:1-5"]), sel("b", &["x.go", "y.go:3-4", ""])]);
    let got: Vec<(String, String)> = merged.into_iter().map(|m| (m.path, m.origin)).collect();
    assert_eq!(
        got,
        vec![
            ("x.go".to_string(), "a".to_string()),
            ("y.go:1-5".to_string(), "a".to_string()),
            ("x.go".to_string(), "b".to_string()),
            ("y.go:3-4".to_string(), "b".to_string()),
        ]
    );
}

#[test]
fn edit_distance_is_symmetric_and_zero_on_itself() {
    for (a, b) in [("kitten", "sitting"), ("", "abc"), ("flaw", "lawn"), ("pack", "pack")] {
        assert_eq!(levenshtein(a, b), levenshtein(b, a));
    }
    assert_eq!(levenshtein("kitten", "sitting"), 3);
    assert_eq!(levenshtein("handler", "handler"), 0);
}

#[test]
fn civil_days_step_and_cycle() {
    assert_eq!(days_from_civil(1970, 1, 1), 0);
    assert_eq!(days_from_civil(2024, 2, 29) + 1, days_from_civil(2024, 2, 30));
    assert_eq!(days_from_civil(2400, 3, 1), days_from_civil(2000, 3, 1) + 146097);
    assert_eq!(days_from_civil(1600, 1, 15), days_from_civil(1200, 1, 15) + 146097);
}

#[test]
fn tabwriter_columns_line_up() {
    let row = |a: &str, b: &str| [a.to_string(), b.to_string(), "c".to_string(), "d".to_string(), "e".to_string()];
    let text = tabwriter_format(&[row("short", "x"), row("a much longer cell", "yy")], 2);
    let lines: Vec<Vec<char>> = text.lines().map(|l| l.chars().collect()).collect();
    // The second column starts at the same character in every line.
    let start = "a much longer cell".chars().count() + 2;
    assert_eq!(lines[0][start], 'x');
    assert_eq!(lines[1][start], 'y');
}

#[test]
fn signed_rendering_reads_back() {
    for n in [0i64, 1, -1, 42, i64::MAX, i64::MIN] {
        assert_eq!(signed_fmt(n).parse::<i64>().unwrap(), n);
    }
}

#[test]
fn wait_time_reads_back() {
    for w in [
        WaitTime { secs: 10, millis: 0 },
        WaitTime { secs: 0, millis: 100 },
        WaitTime { secs: 3, millis: 5 },
    ] {
        assert_eq!(parse_duration_arg(&display_duration(w)), Some(w));
    }
}

#[test]
fn glob_star_and_literal_patterns() {
    for t in ["", "a.go", "dir/x"] {
        assert!(glob_match("*", t));
    }
    assert!(glob_match("a.go", "a.go"));
    assert!(!glob_match("a.go", "b.go"));
    assert!(!glob_match("a.go", "a.gox"));
}

#[test]
fn ignore_lines_are_distinct() {
    let cand = |p: &str| NoiseCandidate {
        path: p.into(),
        tokens: 1,
        reason: "r".into(),
        size: 1,
        gitignore_status: "tracked".into(),
    };
    let globs = aggregate_noise_globs(&[cand("b"), cand("a"), cand("b"), cand("a")]);
    assert_eq!(globs, vec!["a".to_string(), "b".to_string()]);
}

#[test]
fn moves_stay_in_range() {
    let mut c = LogCursor::new();
    c.move_commit(1000, 5);
    assert_eq!(c.selected_commit, 4);
    c.move_commit(-1000, 5);
    assert_eq!(c.selected_commit, 0);
    c.scroll_diff(50, 10);
    assert_eq!(c.diff_scroll, 9);
}
