use ctx::cli::replay_diff::{
    write_replay_diff_markdown, SelectionChange, SelectionChanges, SelectionCounts,
    SelectionSummary,
};

fn change(path: &str, base: (&str, &str, i64), cur: (&str, &str, i64), reason: &str) -> SelectionChange {
    SelectionChange {
        path: path.to_string(),
        base_score: base.0.to_string(),
        base_tier: base.1.to_string(),
        base_tokens: base.2,
        cur_score: cur.0.to_string(),
        cur_tier: cur.1.to_string(),
        cur_tokens: cur.2,
        reason_change: reason.to_string(),
    }
}

fn summary(changes: SelectionChanges) -> SelectionSummary {
    let summary = SelectionCounts {
        added: changes.added.len(),
        removed: changes.removed.len(),
        promoted: changes.promoted.len(),
        demoted: changes.demoted.len(),
        score_changed: changes.score_changed.len(),
    };
    SelectionSummary { a: "snapA".to_string(), b: "snapB".to_string(), changes, summary }
}

#[test]
fn replay_diff_renders_each_kind_of_change() {
    let s = summary(SelectionChanges {
        added: vec![
            change("src/new.rs", ("", "", 0), ("7", "high", 120), ""),
            change("docs/x.md", ("", "", 0), ("1", "", 30), ""),
        ],
        promoted: vec![change("lib.rs", ("2", "low", 10), ("9", "high", 40), "")],
        demoted: vec![],
        removed: vec![change("old.rs", ("3", "", 55), ("", "", 0), "")],
        score_changed: vec![change("a.rs", ("4", "mid", 1), ("5", "mid", 1), "keyword")],
    });
    assert_eq!(
        write_replay_diff_markdown(&s),
        "# Replay Diff \u{2014} snapA \u{2192} snapB\n\n**Added** (2 file(s), +150 tokens)\n| Path        | Score  | Tier  | Tokens  |\n|---          |---     |---    |---      |\n| src/new.rs  | 7      | high  | 120     |\n| docs/x.md   | 1      | -     | 30      |\n\n**Promoted** (1 file(s))\n| Path    | Score A\u{2192}B  | Tier A\u{2192}B    | Tokens  |\n|---      |---         |---          |---      |\n| lib.rs  | 2 \u{2192} 9      | low \u{2192} high  | 40      |\n\n**Removed** (1 file(s), -55 tokens)\n| Path    | Score  | Tier  | Tokens  |\n|---      |---     |---    |---      |\n| old.rs  | 3      | -     | 55      |\n\n**Score Changed (same tier)** (1 file(s))\n| Path  | Score A\u{2192}B  | Tier  | Reason   |\n|---    |---         |---    |---       |\n| a.rs  | 4 \u{2192} 5      | mid   | keyword  |\n\n"
    );
}

#[test]
fn replay_diff_without_changes_says_so() {
    let s = summary(SelectionChanges {
        added: vec![],
        promoted: vec![],
        demoted: vec![],
        removed: vec![],
        score_changed: vec![],
    });
    assert_eq!(
        write_replay_diff_markdown(&s),
        "# Replay Diff \u{2014} snapA \u{2192} snapB\n\n_No selection changes between the two snapshots._\n"
    );
}
