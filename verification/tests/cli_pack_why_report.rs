use ctx::cli::pack_why_report::{render_why_text, WhyBreakdown, WhyDiagnostic};

fn diag(path: &str, exists: bool) -> WhyDiagnostic {
    WhyDiagnostic {
        path: path.to_string(),
        exists,
        score: 0,
        breakdown: WhyBreakdown { basename: 0, path: 0, symbol: 0, content: 0, role: 0 },
        tier: String::new(),
        decision: String::new(),
        reason: String::new(),
        threshold_gap: 0,
        next_tier: String::new(),
        nearest_keyword: String::new(),
        keyword_dist: 0,
    }
}

#[test]
fn why_text_shows_score_tier_and_keyword() {
    let mut d = diag("src/a.go", true);
    d.score = 7;
    d.breakdown = WhyBreakdown { basename: 3, path: 2, symbol: 1, content: 1, role: 0 };
    d.tier = "medium".to_string();
    d.decision = "included".to_string();
    d.threshold_gap = 3;
    d.next_tier = "high".to_string();
    d.nearest_keyword = "auth".to_string();
    d.keyword_dist = 2;
    let mut gone = diag("gone.go", false);
    gone.decision = "excluded".to_string();
    assert_eq!(
        render_why_text(&[d, gone]),
        "File: src/a.go\n  Decision: included\n  Score: 7 [basename:3, path:2, symbol:1, content:1, role:0]\n  Tier: medium (would need +3 to reach high tier)\n  Nearest keyword: \"auth\" (distance 2) - try refining your goal\n\nFile: gone.go\n  Decision: excluded (file not found)\n"
    );
}

#[test]
fn why_text_of_missing_file_keeps_its_reason_and_keyword() {
    let mut gone = diag("x.go", false);
    gone.decision = "excluded".to_string();
    gone.reason = "outside root".to_string();
    gone.nearest_keyword = "xs".to_string();
    gone.keyword_dist = 1;
    assert_eq!(
        render_why_text(&[gone]),
        "File: x.go\n  Decision: excluded (outside root)\n  Nearest keyword: \"xs\" (distance 1)\n"
    );
}

#[test]
fn why_text_of_existing_file_with_reason_and_top_tier() {
    let mut d = diag("b.go", true);
    d.score = 12;
    d.tier = "high".to_string();
    d.decision = "excluded".to_string();
    d.reason = "budget".to_string();
    assert_eq!(
        render_why_text(&[d]),
        "File: b.go\n  Decision: excluded (budget)\n  Score: 12 [basename:0, path:0, symbol:0, content:0, role:0]\n  Tier: high\n"
    );
    assert_eq!(render_why_text(&[]), "");
}
