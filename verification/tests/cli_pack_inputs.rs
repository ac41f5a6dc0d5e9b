use ctx::cli::pack_paths::{
    clean_pack_diff_path, clean_pack_input_path, normalize_pack_why_path, parse_pack_git_diff_paths,
    parse_pack_path_list, parse_pack_stdin_paths,
};
use ctx::cli::pack_why::{
    default_reason, levenshtein, name_tokens_for_path, nearest_keyword_for_path,
    nearest_keyword_over, threshold_gap_for_score,
};

#[test]
fn input_paths_are_cleaned() {
    assert_eq!(clean_pack_input_path("  \"src//lib.rs\" "), "src/lib.rs");
    assert_eq!(clean_pack_input_path("./a/./b"), "./a/b");
    assert_eq!(clean_pack_input_path("."), "");
    assert_eq!(clean_pack_input_path("/dev/null"), "");
    assert_eq!(clean_pack_input_path("a\\b"), "a/b");
    assert_eq!(clean_pack_input_path("/abs/x/"), "/abs/x");
    assert_eq!(clean_pack_diff_path("a/src/x.rs"), "src/x.rs");
    assert_eq!(clean_pack_diff_path("\"b/src/y.rs\""), "src/y.rs");
    assert_eq!(clean_pack_diff_path("a/b/z.rs"), "z.rs");
}

#[test]
fn path_lists_keep_first_occurrences() {
    assert_eq!(
        parse_pack_path_list("src/a.rs\n\n./src/b.rs\r\nsrc/a.rs\n"),
        vec!["src/a.rs".to_string(), "./src/b.rs".to_string()]
    );
}

#[test]
fn diff_headers_give_paths() {
    let diff = "diff --git a/src/a.rs b/src/a.rs\nindex 1..2\n--- a/src/a.rs\ndiff --git a/x b/y\n";
    assert_eq!(parse_pack_git_diff_paths(diff), vec!["src/a.rs", "x", "y"]);
    assert_eq!(parse_pack_stdin_paths(diff), vec!["src/a.rs", "x", "y"]);
    assert_eq!(parse_pack_stdin_paths("one\ntwo"), vec!["one", "two"]);
}

#[test]
fn why_paths_are_made_relative() {
    assert_eq!(normalize_pack_why_path(" /repo/src/a.rs ", "/repo"), "src/a.rs");
    assert_eq!(normalize_pack_why_path("\"src/b.rs\"", "/repo"), "src/b.rs");
    assert_eq!(normalize_pack_why_path("/other/c.rs", "/repo"), "/other/c.rs");
}

#[test]
fn levenshtein_distances() {
    assert_eq!(levenshtein("kitten", "sitting"), 3);
    assert_eq!(levenshtein("", "abc"), 3);
    assert_eq!(levenshtein("abc", ""), 3);
    assert_eq!(levenshtein("flaw", "lawn"), 2);
    assert_eq!(levenshtein("same", "same"), 0);
    assert_eq!(levenshtein("ü", "u"), 1);
}

#[test]
fn nearest_keywords_skip_exact_matches() {
    let tokens = vec!["auth".to_string(), "login".to_string()];
    let keywords = vec!["auth".to_string(), "logon".to_string(), "lgin".to_string()];
    assert_eq!(nearest_keyword_over(&tokens, &keywords), ("logon".to_string(), 1));
    assert_eq!(nearest_keyword_over(&tokens, &["auth".to_string()]), ("auth".to_string(), 5));
    assert_eq!(
        nearest_keyword_over(&["auth".to_string()], &["auth".to_string()]),
        (String::new(), 0)
    );
    assert_eq!(nearest_keyword_over(&[], &keywords), (String::new(), 0));
}

#[test]
fn path_name_tokens() {
    assert_eq!(name_tokens_for_path("Src/Auth/Login.rs"), vec!["login", "src", "auth"]);
    assert_eq!(name_tokens_for_path(".bashrc"), vec![".bashrc"]);
    assert_eq!(name_tokens_for_path("a/b.tar.gz"), vec!["b.tar", "a"]);
    assert_eq!(name_tokens_for_path("/x/.."), vec!["/", "x"]);
    assert_eq!(name_tokens_for_path("/"), Vec::<String>::new());
    let kw = vec!["logins".to_string()];
    assert_eq!(nearest_keyword_for_path("src/login.rs", &kw), ("logins".to_string(), 1));
}

#[test]
fn score_gaps_and_reasons() {
    assert_eq!(threshold_gap_for_score(12), (0, String::new()));
    assert_eq!(threshold_gap_for_score(5), (5, "high".to_string()));
    assert_eq!(threshold_gap_for_score(-1), (4, "medium".to_string()));
    assert_eq!(default_reason("", "fallback"), "fallback");
    assert_eq!(default_reason("why", "fallback"), "why");
}
