use ctx::cli::pack_paths::parse_diff_revspec;
use ctx::cli::pack_why::{has_exact_keyword_match, nearest_keyword_for_input};

fn strings(v: &[&str]) -> Vec<String> {
    v.iter().map(|s| s.to_string()).collect()
}

#[test]
fn revspec_splits_base_and_head() {
    assert_eq!(parse_diff_revspec("main..feature"), Ok(("main".to_string(), "feature".to_string())));
    assert_eq!(parse_diff_revspec("HEAD~3..HEAD"), Ok(("HEAD~3".to_string(), "HEAD".to_string())));
}

#[test]
fn revspec_refuses_other_shapes() {
    let refused = Err("diff revspec must be BASE..HEAD".to_string());
    assert_eq!(parse_diff_revspec("main"), refused);
    assert_eq!(parse_diff_revspec("..head"), refused);
    assert_eq!(parse_diff_revspec("base.."), refused);
    assert_eq!(parse_diff_revspec("a..b..c"), refused);
    assert_eq!(parse_diff_revspec("a....b"), refused);
    assert_eq!(parse_diff_revspec("a...b"), Ok(("a".to_string(), ".b".to_string())));
}

#[test]
fn exact_keyword_match_looks_at_path_and_symbols() {
    let kws = strings(&["limiter"]);
    assert!(has_exact_keyword_match("src/RateLimiter.go", &[], &kws));
    assert!(has_exact_keyword_match("src/x.go", &strings(&["NewLimiter"]), &kws));
    assert!(!has_exact_keyword_match("src/x.go", &strings(&["Other"]), &kws));
    assert!(!has_exact_keyword_match("src/x.go", &[], &[]));
}

#[test]
fn nearest_keyword_for_input_adds_symbol_names() {
    let kws = strings(&["handler"]);
    assert_eq!(
        nearest_keyword_for_input("a/b.go", &strings(&["Handle"]), &kws),
        ("handler".to_string(), 1)
    );
    assert_eq!(nearest_keyword_for_input("x.go", &strings(&["", "Handler"]), &kws), ("handler".to_string(), 7));
}
