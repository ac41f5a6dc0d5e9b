use ctx::cli::noise::NoiseCandidate;
use ctx::cli::noise_report::render_noise_text;

fn cand(path: &str, tokens: i64, reason: &str, status: &str) -> NoiseCandidate {
    NoiseCandidate {
        path: path.to_string(),
        tokens,
        reason: reason.to_string(),
        size: 0,
        gitignore_status: status.to_string(),
    }
}

#[test]
fn noise_text_tables_candidates_and_totals() {
    let cands = vec![
        cand("gen/a.pb.go", 12345, "generated", "not-ignored"),
        cand("yarn.lock", 800, "lockfile", "ignored"),
    ];
    assert_eq!(
        render_noise_text(&cands, 13145, 2, 1, 42),
        "Top noise candidates by token impact:\n\n #    Tokens    Reason        Gitignore   Path\n 1.   12,345    generated     not-ignored gen/a.pb.go\n 2.   800       lockfile      ignored     yarn.lock\n\nTotal noise: 13k tokens across 2 files (42% of repo).\nShowing top 1 of 2. Use --top 2 to see all.\nRun `ctx noise --apply > .ctxignore` to write the proposal.\n"
    );
}

#[test]
fn noise_text_without_candidates() {
    assert_eq!(render_noise_text(&[], 0, 0, 20, 0), "No noise candidates found.\n");
}

#[test]
fn noise_text_omits_top_hint_when_all_shown() {
    let cands = vec![cand("x.lock", 5, "lockfile", "ignored")];
    let text = render_noise_text(&cands, 5, 1, 20, 0);
    assert!(!text.contains("Showing top"));
    assert!(text.ends_with("Total noise: 5 tokens across 1 files (0% of repo).\nRun `ctx noise --apply > .ctxignore` to write the proposal.\n"));
}
