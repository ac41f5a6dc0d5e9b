use ctx::braid::report::{render_markdown, render_plain, BraidReport, StrandReport};
use ctx::braid::trim::{trim_note_text, trim_strand_paths};
use ctx::braid::types::MergedFile;
use ctx::PolicyKind;

fn sample_result() -> BraidReport {
    BraidReport {
        file: "braid.toml".into(),
        budget: 32000,
        strands: vec![StrandReport {
            name: "a".into(),
            share_2dp: format!("{:.2}", 0.5_f64),
            share_3dp: format!("{:.3}", 0.5_f64),
            budget: 16000,
            selected: 2,
            tokens: 1200,
            policy: PolicyKind::Merge,
            raw_paths: 3,
            trim_note: String::new(),
        }],
        files: vec![MergedFile { path: "internal/a.go".into(), origin: "a".into() }],
        tokens_used: 1200,
        dry_run: false,
    }
}

#[test]
fn markdown_contains_header_and_table() {
    let md = render_markdown(&sample_result(), false);
    assert!(md.contains("# CTX-BRAID:"));
    assert!(md.contains("| a | 0.50 |"));
    assert!(!md.contains("## Files"));
}

#[test]
fn plain_renders_tab_rows() {
    let p = render_plain(&sample_result());
    assert!(p.starts_with("file=braid.toml budget=32000"));
    assert!(p.contains("a\tshare=0.500\tbudget=16000"));
}

#[test]
fn markdown_dry_run_lists_files_by_strand() {
    let mut r = sample_result();
    r.dry_run = true;
    r.files.push(MergedFile { path: "b.go".into(), origin: "a".into() });
    r.files.push(MergedFile { path: "c.go".into(), origin: "b".into() });
    assert_eq!(
        render_markdown(&r, false),
        "# CTX-BRAID: file=braid.toml strands=1 budget=32000 selected=3 tokens_used=1200 mode=dry-run\n\n\
         ## Strand allocation\n\n\
         | Strand | Share | Budget | Selected | Tokens | Policy |\n\
         |--------|-------|--------|----------|--------|--------|\n\
         | a | 0.50 | 16000 | 2 | 1200 | merge |\n\n\
         ## Files (by strand)\n\n\
         ### Strand: a\n\n- internal/a.go\n- b.go\n### Strand: b\n\n- c.go\n\n\
         ## Dry run\nPack body not generated. Re-run without --dry-run to materialise the bundle.\n"
    );
    assert_eq!(
        render_plain(&r),
        "file=braid.toml budget=32000 strands=1 selected=3 tokens=1200 dry_run=true\n\
         a\tshare=0.500\tbudget=16000\tselected=2\ttokens=1200\tpolicy=merge\n\
         a\tinternal/a.go\na\tb.go\nb\tc.go\n"
    );
}

#[test]
fn strand_paths_trimmed_to_budget() {
    let paths: Vec<String> = ["a", "b", "c", "d"].iter().map(|s| s.to_string()).collect();
    let t = trim_strand_paths(&paths, &[40, 70, 30, 50], 100);
    assert_eq!(t.kept, vec!["a".to_string(), "c".to_string()]);
    assert_eq!((t.used, t.dropped), (70, 2));
    assert_eq!(trim_note_text(t.dropped), "2 paths dropped to fit per-strand budget");
    let all = trim_strand_paths(&paths, &[40, 70, 30, 50], 0);
    assert_eq!((all.kept.len(), all.used, all.dropped), (4, 190, 0));
    assert_eq!(trim_note_text(0), "");
}
