use ctx::cli::braid_cmd::{
    braid_render_pack_markdown, braid_render_pack_plain, is_braid_validation_error,
    parse_strand_positional_then_flags, string_flag_value, strip_line_range,
};
use ctx::cli::digest::{
    git_since_arg, render_digest_markdown, render_digest_plain, signed_fmt, DigestBrief,
    DigestHotFile, DigestPeriod,
};
use ctx::cli::doctor::{browse_recommendations, query_masking_status, AuditToml, CtxToml};
use ctx::cli::noise::{aggregate_noise_globs, classify_noise, contains_path_segment, NoiseCandidate};
use ctx::cli::onboarding::{
    is_onboarding_entry, is_onboarding_test_file, onboarding_description, onboarding_reason,
    onboarding_ref_counts, OnboardingFile,
};
use ctx::cli::pack_api::{
    extract_go_api_light, extract_jsts_api_light, extract_public_api_light,
    extract_python_api_light, finish_api_lines, line_has_exported_identifier,
    supports_api_only_light, trim_signature_line,
};
use ctx::cli::pack_time::{
    days_from_civil, parse_pack_time_filter, parse_positive_u64_filter, parse_yyyy_mm_dd_utc,
    FilterTime,
};
use ctx::cli::replay::{display_replay_created_at, tabwriter_format};
use ctx::cli::skim::{detect_skim_lang, render_skim_tier};
use ctx::cli::tree_budget::BudgetItem;
use ctx::cli::tree_render::{max_budget_path_width, render_budget_items};
use ctx::cli::where_symbols::{
    extract_go_symbol, extract_js_symbol, extract_python_symbol, extract_rust_symbol,
    extract_where_symbols, first_ident, first_ident_with_tail, symbol_input, SymbolInput,
};

fn s(v: &[&str]) -> Vec<String> {
    v.iter().map(|x| x.to_string()).collect()
}

#[test]
fn braid_helpers() {
    assert_eq!(string_flag_value("--name=x", "--name"), Some("x".to_string()));
    assert_eq!(string_flag_value("--name=", "--name"), Some(String::new()));
    assert_eq!(string_flag_value("--namex", "--name"), None);
    assert_eq!(strip_line_range("a.go:10-20"), "a.go");
    assert_eq!(strip_line_range("a.go:7"), "a.go");
    assert_eq!(strip_line_range("a.go:x"), "a.go:x");
    assert_eq!(strip_line_range("a.go:-3"), "a.go:-3");
    assert_eq!(strip_line_range("a.go"), "a.go");
    assert!(is_braid_validation_error("braid: strand \"a\": share must be in (0, 1]"));
    assert!(!is_braid_validation_error("read braid.toml: no such file"));
    let (pos, flags) = parse_strand_positional_then_flags(&s(&["handler", "--limit", "5", "--regex=x", "extra"])).unwrap();
    assert_eq!(pos, "handler");
    assert_eq!(flags, s(&["--limit", "5", "--regex=x", "extra"]));
    let (pos, flags) = parse_strand_positional_then_flags(&s(&["--a", "-b", "x"])).unwrap();
    assert_eq!(pos, "");
    assert_eq!(flags, s(&["--a", "-b", "x"]));
}

#[test]
fn braid_pack_bodies() {
    let plain = braid_render_pack_plain(&s(&["a.go", "b.go"]), &[10, 5], 100);
    assert_eq!(plain, "Context Pack\nGoal: -\nBudget: 15 / 100 tokens\nFiles: 2\n\n+ a.go  (10 tokens)\n+ b.go  (5 tokens)\n");
    let md = braid_render_pack_markdown(&s(&["a.go"]), &s(&["go"]), &s(&["package a"]));
    assert_eq!(md, "## File contents\n\n### a.go\n\n```go\npackage a\n```\n\n");
    let md = braid_render_pack_markdown(&s(&["a.py"]), &s(&["python"]), &s(&["x = 1\n"]));
    assert_eq!(md, "## File contents\n\n### a.py\n\n```python\nx = 1\n```\n\n");
}

fn brief(hot: Vec<DigestHotFile>) -> DigestBrief {
    DigestBrief {
        period: DigestPeriod {
            since: "7d".into(),
            since_date: "2024-01-01".into(),
            until: "now".into(),
            until_date: "2024-01-08".into(),
            duration: "7d".into(),
            since_ref: "a".into(),
            head_ref: "b".into(),
        },
        commits: 3,
        authors: 2,
        files_changed: 4,
        files_added: 1,
        files_deleted: 0,
        token_delta: 120,
        symbol_delta: -2,
        hot_files: hot,
    }
}

#[test]
fn digest_reports() {
    assert_eq!(signed_fmt(0), "+0");
    assert_eq!(signed_fmt(5), "+5");
    assert_eq!(signed_fmt(-7), "-7");
    assert_eq!(git_since_arg("7d").unwrap(), "7 days ago");
    assert_eq!(git_since_arg("3MO").unwrap(), "3 months ago");
    assert_eq!(git_since_arg("2024-01-01").unwrap(), "2024-01-01 ago");
    assert_eq!(git_since_arg("").unwrap_err(), "parsing duration \"\": empty string");
    assert_eq!(git_since_arg("xd").unwrap_err(), "parsing duration \"xd\": invalid numeric part");
    let md = render_digest_markdown(&brief(vec![]));
    assert_eq!(
        md,
        "# Digest \u{2014} 2024-01-01 \u{2192} 2024-01-08 (7d)\n\n- Commits: 3 by 2 author(s)\n- Files changed: 4 (added: 1, deleted: 0)\n- Token delta: +120 tokens (net)\n- Symbol delta: -2 symbols (net)\n"
    );
    let hot = vec![
        DigestHotFile { path: "src/a.rs".into(), commits: 5, token_delta: 10, symbol_delta: 1 },
        DigestHotFile { path: "b.md".into(), commits: 2, token_delta: -4, symbol_delta: 0 },
    ];
    let md = render_digest_markdown(&brief(hot.clone()));
    assert!(md.contains("| 1 | 5 | +10 | +1 | src/a.rs |\n| 2 | 2 | -4 | +0 | b.md |\n"));
    assert!(md.contains("## Suggested next reads\n\n- `ctx_focus {\"anchor\":\"src/a.rs\"}` \u{2014} src/a.rs (symbols \u{0394} +1)\n- `ctx_skim {\"path\":\"b.md\"}` \u{2014} b.md (tokens \u{0394} -4)\n"));
    let plain = render_digest_plain(&brief(hot));
    assert!(plain.starts_with("Digest: 2024-01-01 \u{2192} 2024-01-08 (7d)\nCommits: 3 by 2 authors\nFiles: 4 changed (+1 added, -0 deleted)\nTokens: +120 net\nSymbols: -2 net\n\nHot files (top 2):\n"));
    let row = format!("  1. {:<40}  commits={:<3}  tokens={:<6}  symbols={}\n", "src/a.rs", 5, "+10", "+1");
    assert!(plain.contains(&row));
}

#[test]
fn doctor_report_lines() {
    let mut audit = AuditToml::default();
    assert_eq!(audit.path, "~/.ctx/audit.log");
    assert_eq!(query_masking_status(&audit), "raw");
    audit.query_handling = "mask".into();
    audit.mask_patterns = s(&["a", "b"]);
    assert_eq!(query_masking_status(&audit), "mask (2 pattern(s))");
    audit.query_handling = "hash".into();
    assert_eq!(query_masking_status(&audit), "hash");
    let cfg = CtxToml::default();
    let recs = browse_recommendations(&cfg, false);
    assert_eq!(recs.len(), 2);
    assert!(recs[0].starts_with("Team mode"));
    assert!(recs[1].starts_with("Regulated industries"));
    let mut cfg = CtxToml::default();
    cfg.audit.enabled = true;
    cfg.security.secret_scan = false;
    let recs = browse_recommendations(&cfg, true);
    assert_eq!(recs, vec!["Enable [security].secret_scan so served files redact tokens before reaching the browser.".to_string()]);
}

#[test]
fn noise_classification() {
    assert_eq!(classify_noise("api/user.pb.go", 10, 0), Some("generated"));
    assert_eq!(classify_noise("web\\dist\\app.js", 10, 0), Some("generated"));
    assert_eq!(classify_noise("Cargo.lock", 10, 0), Some("lockfile"));
    assert_eq!(classify_noise("pkg/testdata/in.txt", 10, 0), Some("testdata"));
    assert_eq!(classify_noise("logo.PNG", 10, 0), Some("binary"));
    assert_eq!(classify_noise("data.json", 51200, 0), Some("huge-json"));
    assert_eq!(classify_noise("data.json", 51199, 0), None);
    assert_eq!(classify_noise("big.go", 20480, 9), Some("low-density"));
    assert_eq!(classify_noise("big.go", 20480, 10), None);
    assert_eq!(classify_noise(".gitignore", 10, 0), None);
    assert!(contains_path_segment("build/x", &["dist", "build"]));
    assert!(contains_path_segment("a/dist/x", &["dist"]));
    assert!(!contains_path_segment("a/distx/y", &["dist"]));
    let cand = |p: &str| NoiseCandidate {
        path: p.into(),
        tokens: 1,
        reason: "generated".into(),
        size: 1,
        gitignore_status: "tracked".into(),
    };
    let globs = aggregate_noise_globs(&[cand("gen/a.pb.go"), cand("gen/b.pb.go"), cand("gen/c.PB.GO"), cand("x.lock"), cand("x.lock")]);
    assert_eq!(globs, s(&["gen/*.go", "x.lock"]));
    let globs = aggregate_noise_globs(&[cand("a.min.js"), cand("b.min.js"), cand("c.min.js")]);
    assert_eq!(globs, s(&["*.js"]));
}

#[test]
fn onboarding_helpers() {
    assert!(is_onboarding_test_file("pkg/a_test.go"));
    assert!(is_onboarding_test_file("SRC/App.Spec.TS"));
    assert!(is_onboarding_test_file("x/testdata/y"));
    assert!(!is_onboarding_test_file("src/main.go"));
    assert!(is_onboarding_entry("cmd/Main.go", &[]));
    assert!(is_onboarding_entry("tool.py", &s(&["if __name__ == \"__main__\":"])));
    assert!(!is_onboarding_entry("lib.rs", &s(&["fn main() {}"])));
    assert_eq!(onboarding_reason("entry", 3, true, 2), "application entry point. frequently modified");
    assert_eq!(onboarding_reason("core", 12, false, 4), "core domain (12 symbols). referenced by 4 files");
    assert_eq!(onboarding_reason("core", 2, false, 0), "2 symbols");
    assert_eq!(onboarding_reason("core", 0, false, 0), "source file");
    assert_eq!(onboarding_description(&s(&["package main", "  // Package main runs it.  ", "# no"])), "Package main runs it.");
    assert_eq!(onboarding_description(&s(&["### Title"])), "Title");
    assert_eq!(onboarding_description(&s(&["code"])), "");
    let f = |p: &str, lines: &[&str]| OnboardingFile { path: p.into(), lines: s(lines) };
    let counts = onboarding_ref_counts(&[
        f("src/auth.go", &["package auth"]),
        f("src/main.go", &["use auth"]),
        f("web/auth.ts", &["import auth"]),
        f(".", &[]),
    ]);
    assert_eq!(counts, vec![Some(2), Some(0), Some(2), None]);
}

#[test]
fn pack_api_extraction() {
    let go = "package x\n\nimport \"fmt\"\nfunc Public(a int) error {\n\treturn nil\n}\nfunc private() {}\nfunc (s *S) Method() {\ntype Thing struct {\n";
    assert_eq!(extract_go_api_light(go), "package x\nimport \"fmt\"\nfunc Public(a int) error\nfunc (s *S) Method()\ntype Thing struct\n");
    let ts = "import x from 'y';\nconst a = 1;\nexport function f(): void {\n";
    assert_eq!(extract_jsts_api_light(ts), "import x from 'y';\nexport function f(): void\n");
    let py = "import os\nfrom a import b\ndef run(x):\ndef _hidden():\nclass Api:  \r\n";
    assert_eq!(extract_python_api_light(py), "import os\nfrom a import b\ndef run(x):\nclass Api:\n");
    assert_eq!(extract_public_api_light("a/b.GO", "package x\n"), Some("package x\n".to_string()));
    assert_eq!(extract_public_api_light("a/b.rs", "fn x() {}"), None);
    assert!(supports_api_only_light("x.tsx"));
    assert!(!supports_api_only_light("Makefile"));
    assert!(line_has_exported_identifier("type Big struct"));
    assert!(!line_has_exported_identifier("func small()"));
    assert!(line_has_exported_identifier("func (r *R) Big()"));
    assert_eq!(trim_signature_line("fn a() {  body }"), "fn a()");
    assert_eq!(finish_api_lines(vec![]), "");
    assert_eq!(finish_api_lines(s(&["a", "b"])), "a\nb\n");
}

#[test]
fn pack_time_filters() {
    assert_eq!(days_from_civil(1970, 1, 1), 0);
    assert_eq!(days_from_civil(2000, 3, 1), 11017);
    assert_eq!(days_from_civil(1969, 12, 31), -1);
    assert_eq!(parse_yyyy_mm_dd_utc("2024-01-02"), Some(19724 * 86400));
    assert_eq!(parse_yyyy_mm_dd_utc("1969-12-31"), None);
    assert_eq!(parse_yyyy_mm_dd_utc("2024-13-01"), None);
    assert_eq!(parse_yyyy_mm_dd_utc("2024-01"), None);
    assert_eq!(parse_pack_time_filter("1970-01-02"), Ok(FilterTime::At(86400)));
    assert_eq!(parse_pack_time_filter("7d"), Ok(FilterTime::Ago(7 * 86400)));
    assert_eq!(parse_pack_time_filter("2W"), Ok(FilterTime::Ago(14 * 86400)));
    assert_eq!(parse_pack_time_filter("1mo"), Ok(FilterTime::Ago(30 * 86400)));
    assert_eq!(parse_pack_time_filter("5m"), Ok(FilterTime::Ago(300)));
    assert_eq!(parse_pack_time_filter("").unwrap_err(), "time filter: empty string");
    assert_eq!(parse_pack_time_filter("0d").unwrap_err(), "time filter \"0d\": value must be positive, got 0");
    assert_eq!(parse_pack_time_filter("d").unwrap_err(), "time filter \"d\": missing numeric part");
    assert_eq!(parse_pack_time_filter("x1d").unwrap_err(), "time filter \"x1d\": invalid numeric part \"x1\"");
    assert_eq!(parse_pack_time_filter("99999999999999999999s").unwrap_err(), "time filter \"99999999999999999999s\": number too large to fit in target type");
    assert_eq!(parse_pack_time_filter("18446744073709551615y").unwrap_err(), "time filter \"18446744073709551615y\": duration overflow");
    assert_eq!(
        parse_pack_time_filter("soon").unwrap_err(),
        "time filter \"soon\": unrecognised format (expected YYYY-MM-DD or relative like 7d/2w/1m/1y)"
    );
    assert_eq!(parse_positive_u64_filter("12", "12d"), Ok(12));
}

#[test]
fn replay_tables_and_times() {
    assert_eq!(display_replay_created_at("2024-01-02T03:04:05.678Z"), "2024-01-02 03:04:05");
    assert_eq!(display_replay_created_at("2024-01-02T03:04:05Z"), "2024-01-02 03:04:05");
    assert_eq!(display_replay_created_at("2024-01-02"), "2024-01-02");
    assert_eq!(display_replay_created_at("noTZ"), "no ");
    assert_eq!(display_replay_created_at("plain"), "plain");
    let rows = vec![
        ["ID".to_string(), "CREATED".to_string(), "GOAL".to_string(), "FILES".to_string(), "TOKENS".to_string()],
        ["a1".to_string(), "2024".to_string(), "→ x".to_string(), "3".to_string(), "100".to_string()],
    ];
    assert_eq!(
        tabwriter_format(&rows, 2),
        "ID  CREATED  GOAL  FILES  TOKENS\na1  2024     → x   3      100\n"
    );
    assert_eq!(tabwriter_format(&[], 2), "");
}

#[test]
fn skim_tiers() {
    assert_eq!(detect_skim_lang("a/b.rs", "auto"), "rust");
    assert_eq!(detect_skim_lang("a/b.tsx", ""), "typescript");
    assert_eq!(detect_skim_lang("Makefile", "auto"), "text");
    assert_eq!(detect_skim_lang("a.go", "python"), "python");
    let syms = vec![symbol_input("Run", "function", 3), symbol_input("T", "type", 9)];
    assert_eq!(render_skim_tier("full", "body", "a.go", &syms).unwrap(), "body");
    assert_eq!(render_skim_tier("outline", "b", "a.go", &syms).unwrap(), "a.go:3 function Run\na.go:9 type T\n");
    assert_eq!(render_skim_tier("signatures", "b", "a.go", &[]).unwrap(), "(no public symbols)\n");
    assert_eq!(render_skim_tier("outline", "b", "a.go", &[]).unwrap(), "(no symbols)\n");
    assert_eq!(render_skim_tier("tiny", "b", "a.go", &[]).unwrap_err(), "skim: unknown tier \"tiny\"");
}

#[test]
fn budget_rows() {
    let item = |p: &str, t: i64, r: &str| BudgetItem { path: p.into(), tokens: t, reason: r.into(), group: String::new() };
    let items = vec![item("src/main.rs", 1234, "role"), item("README.md", 5, "budget")];
    assert_eq!(max_budget_path_width(&items), 28);
    let mut out = String::new();
    render_budget_items(&mut out, &items, true);
    assert_eq!(
        out,
        format!("\u{251c}\u{2500} {:<28}  1,234 tokens\n\u{2514}\u{2500} {:<28}  5 tokens\n", "src/main.rs", "README.md")
    );
    let mut out = String::new();
    render_budget_items(&mut out, &items[1..], false);
    assert_eq!(out, format!("\u{2514}\u{2500} {:<28}  budget\n", "README.md"));
    let mut out = String::from("x\n");
    render_budget_items(&mut out, &[], true);
    assert_eq!(out, "x\n\u{2514}\u{2500} -\n");
    let long = "a".repeat(40);
    assert_eq!(max_budget_path_width(&[item(&long, 1, "")]), 40);
}

fn sym(name: &str, kind: &str, line: i64) -> SymbolInput {
    SymbolInput { name: name.into(), kind: kind.into(), line }
}

#[test]
fn where_symbol_extraction() {
    assert_eq!(first_ident_with_tail("  foo_1(bar)"), Some(("foo_1".to_string(), "(bar)".to_string())));
    assert_eq!(first_ident("9abc"), None);
    assert_eq!(first_ident(""), None);
    let mut out = Vec::new();
    extract_go_symbol("func (s *Server) Handle(w) {", 1, &mut out);
    extract_go_symbol("func main() {", 2, &mut out);
    extract_go_symbol("type Config struct {", 3, &mut out);
    extract_go_symbol("var x = 1", 4, &mut out);
    assert_eq!(out, vec![sym("Handle", "function", 1), sym("main", "function", 2), sym("Config", "type", 3)]);
    let mut out = Vec::new();
    extract_rust_symbol("pub fn run() {", 5, &mut out);
    extract_rust_symbol("struct S;", 6, &mut out);
    extract_rust_symbol("pub trait T {", 7, &mut out);
    extract_rust_symbol("impl S {", 8, &mut out);
    assert_eq!(out, vec![sym("run", "function", 5), sym("S", "type", 6), sym("T", "interface", 7)]);
    let mut out = Vec::new();
    extract_js_symbol("export default function App() {", 1, &mut out);
    extract_js_symbol("export const handler = async (req) => {", 2, &mut out);
    extract_js_symbol("const VALUE = 3;", 3, &mut out);
    extract_js_symbol("interface Props {", 4, &mut out);
    assert_eq!(out, vec![sym("App", "function", 1), sym("handler", "function", 2), sym("Props", "interface", 4)]);
    let mut out = Vec::new();
    extract_python_symbol("def run(x):", 1, &mut out);
    extract_python_symbol("    class Inner:", 2, &mut out);
    assert_eq!(out, vec![sym("run", "function", 1), sym("Inner", "class", 2)]);
    let found = extract_where_symbols("pkg/a.go", &s(&["package a", "func Do() {}"]));
    assert_eq!(found, vec![sym("Do", "function", 2)]);
    assert!(extract_where_symbols("README", &s(&["func Do() {}"])).is_empty());
}
