use ctx::cli::pack_ignore::{glob_match, matches_ignore_pattern, relative_path, PackIgnore};

#[test]
fn globs_match_pieces_in_order() {
    assert!(glob_match("*.lock", "Cargo.lock"));
    assert!(glob_match("src/*/mod.rs", "src/a/b/mod.rs"));
    assert!(glob_match("a*b*c", "aXbYc"));
    assert!(!glob_match("a*b*c", "aXcYb"));
    assert!(glob_match("*", ""));
    assert!(glob_match("abc", "abc"));
    assert!(!glob_match("abc", "abcd"));
    assert!(glob_match("a**b", "ab"));
    assert!(!glob_match("ab*ba", "aba"));
}

#[test]
fn ignore_patterns_by_shape() {
    assert!(matches_ignore_pattern("node_modules/**", "node_modules", true));
    assert!(matches_ignore_pattern("node_modules/**", "node_modules/x/y.js", false));
    assert!(!matches_ignore_pattern("node_modules/**", "src/node_modules", true));
    assert!(matches_ignore_pattern("build/", "build/out.o", false));
    assert!(matches_ignore_pattern("build/", "pkg/build", true));
    assert!(!matches_ignore_pattern("build/", "pkg/build", false));
    assert!(matches_ignore_pattern("secret.txt", "a/b/secret.txt", false));
    assert!(!matches_ignore_pattern("secret.txt", "a/b/mysecret.txt", false));
    assert!(matches_ignore_pattern(" ./././*.log ", "x.log", false));
    assert!(!matches_ignore_pattern("  ", "x", false));
}

#[test]
fn ctxignore_lines_add_patterns() {
    let extra = vec!["*.tmp".to_string()];
    let ig = PackIgnore::from_sources(&extra, Some("# comment\n\n  target/  \r\n!keep.rs\nnotes.md"));
    assert_eq!(
        ig.patterns,
        vec![
            "node_modules/**", "dist/**", "coverage/**", "*.lock", ".git/**", "*.tmp", "target/",
            "notes.md",
        ]
    );
    assert!(ig.is_ignored_rel("target/debug/x", false));
    assert!(ig.is_ignored_rel("docs/notes.md", false));
    assert!(!ig.is_ignored_rel("src/main.rs", false));
    let plain = PackIgnore::from_sources(&[], None);
    assert_eq!(plain.patterns.len(), 5);
}

#[test]
fn paths_are_read_relative_to_the_root() {
    assert_eq!(relative_path("/repo", "/repo/src/./lib.rs"), "src/lib.rs");
    assert_eq!(relative_path("/repo", "/elsewhere/x"), "/elsewhere/x");
    let ig = PackIgnore::from_sources(&[], None);
    assert!(ig.is_ignored("/repo", "/repo/dist/app.js", false));
    assert!(!ig.is_ignored("/repo", "/repo/src/app.js", false));
    assert!(ig.is_ignored("/repo", "dist\\app.js", false));
}
