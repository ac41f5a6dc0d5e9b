use ctx::cli::digest::DigestHotFile;
use ctx::cli::digest_log::{digest_log_stats, rank_hot_files, DigestFileStat};

fn stat(path: &str, commits: usize, added: bool, deleted: bool) -> DigestFileStat {
    DigestFileStat { path: path.to_string(), commits, added, deleted }
}

fn hot(path: &str, commits: usize) -> DigestHotFile {
    DigestHotFile { path: path.to_string(), commits, token_delta: 0, symbol_delta: 0 }
}

#[test]
fn log_stats_count_commits_authors_and_files() {
    let log = "commit:c3\0ann@x.io\0c2\n\nM\tsrc/a.rs\nA\tsrc/b.rs\n\
               commit:c2\0bob@x.io\0c1\n\nM\tsrc/a.rs\nD\told.rs\n\
               commit:c1\0ann@x.io\0\n\nA\tREADME.md\nR100\tsrc/x.rs\tsrc/y.rs\n";
    let st = digest_log_stats(log);
    assert_eq!(st.commits, 3);
    assert_eq!(st.authors, vec!["ann@x.io".to_string(), "bob@x.io".to_string()]);
    assert_eq!(
        st.files,
        vec![
            stat("src/a.rs", 2, false, false),
            stat("src/b.rs", 1, true, false),
            stat("old.rs", 1, false, true),
            stat("README.md", 1, false, false),
            stat("src/x.rs", 1, false, false),
        ]
    );
    assert_eq!(st.oldest_hash, "c1");
    assert!(st.oldest_is_root);
}

#[test]
fn log_stats_of_empty_log() {
    let st = digest_log_stats("");
    assert_eq!(st.commits, 0);
    assert!(st.authors.is_empty() && st.files.is_empty());
    assert_eq!(st.oldest_hash, "");
}

#[test]
fn hot_files_rank_by_commits_then_path_and_cut() {
    let files = vec![hot("b.rs", 2), hot("a.rs", 2), hot("c.rs", 5), hot("d.rs", 1)];
    let ranked = rank_hot_files(&files, 3);
    let names: Vec<(&str, usize)> = ranked.iter().map(|h| (h.path.as_str(), h.commits)).collect();
    assert_eq!(names, vec![("c.rs", 5), ("a.rs", 2), ("b.rs", 2)]);
    assert_eq!(rank_hot_files(&files, 0).len(), 4);
    assert_eq!(rank_hot_files(&files, 10).len(), 4);
}
