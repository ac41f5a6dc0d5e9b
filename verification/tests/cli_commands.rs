use ctx::cli::braid_args::parse_braid_args;
use ctx::cli::browse::{browse_bind_port, parse_browse_args, parse_mcp_serve_args};
use ctx::cli::contract::parse_contract_verify_args;
use ctx::cli::diff::{parse_args, parse_duration};
use ctx::cli::digest::parse_digest_args;
use ctx::cli::doctor::parse_doctor_args;
use ctx::cli::focus::{build_focus_pack_args, parse_focus_args};
use ctx::cli::map::{parse_map_args, validate_map_args};
use ctx::cli::noise::parse_noise_args;
use ctx::cli::onboarding::parse_onboarding_args;
use ctx::cli::relations::parse_relation_args;
use ctx::cli::replay::{parse_replay_args, ReplayCommand};
use ctx::cli::roots::WaitTime;
use ctx::cli::roots_args::{parse_roots_args, parse_roots_port, RootsCommand};
use ctx::cli::skim::parse_skim_args;
use ctx::cli::tree_args::parse_root_args;
use ctx::cli::where_args::parse_where_args;

fn args(v: &[&str]) -> Vec<String> {
    v.iter().map(|s| s.to_string()).collect()
}

#[test]
fn parse_browse_opens_browser_by_default() {
    let parsed = parse_browse_args(&args(&["browse"]), None).expect("parse browse");
    assert!(!parsed.no_open);
}

#[test]
fn parse_browse_honors_no_open() {
    let parsed =
        parse_browse_args(&args(&["browse", ".", "--no-open"]), None).expect("parse browse");
    assert!(parsed.no_open);
    assert_eq!(parsed.path, ".");
}

#[test]
fn browse_defaults_and_bind_port() {
    let p = parse_browse_args(&args(&["browse", "repo", "--bind", "0.0.0.0:8080"]), None).unwrap();
    assert_eq!(p.bind, "0.0.0.0:8080");
    assert_eq!(p.port, 8080);
    assert_eq!(p.web_engine, "rust");
    assert_eq!(p.path, "repo");
    let p = parse_browse_args(&args(&["browse", "--bind=[::1]:9000", "--port", "7"]), Some("go")).unwrap();
    assert_eq!(p.port, 7);
    assert_eq!(p.web_engine, "go");
    let p = parse_browse_args(&args(&["browse"]), Some("")).unwrap();
    assert_eq!(p.web_engine, "rust");
    assert!(parse_browse_args(&args(&["browse", "a", "b"]), None).is_none());
    assert!(parse_browse_args(&args(&["browse", "--port", "70000"]), None).is_none());
    assert!(parse_browse_args(&args(&["browse", "--unknown"]), None).is_none());
    assert!(parse_browse_args(&args(&["x", "browse"]), None).is_none());
    assert_eq!(browse_bind_port("localhost:80"), Some(80));
    assert_eq!(browse_bind_port(":80"), None);
    assert_eq!(browse_bind_port("localhost"), None);
}

#[test]
fn mcp_serve_arguments() {
    assert!(parse_mcp_serve_args(&args(&["mcp"])).is_none());
    assert!(parse_mcp_serve_args(&args(&["mcp", "run"])).is_none());
    let ok = parse_mcp_serve_args(&args(&["mcp", "serve"])).unwrap().unwrap();
    assert_eq!(ok.root, ".");
    assert!(!ok.allow_outside_root);
    let ok = parse_mcp_serve_args(&args(&["mcp", "serve", "--root=/r", "--allow-outside-root", "--log-file", "x"]))
        .unwrap()
        .unwrap();
    assert_eq!(ok.root, "/r");
    assert!(ok.allow_outside_root);
    assert_eq!(
        parse_mcp_serve_args(&args(&["mcp", "serve", "--root"])).unwrap().unwrap_err(),
        "ctx mcp serve: --root requires a value"
    );
    assert_eq!(
        parse_mcp_serve_args(&args(&["mcp", "serve", "--bogus"])).unwrap().unwrap_err(),
        "ctx mcp serve: unrecognized argument \"--bogus\""
    );
    assert_eq!(
        parse_mcp_serve_args(&args(&["mcp", "serve", "extra"])).unwrap().unwrap_err(),
        "ctx mcp serve: unexpected argument \"extra\""
    );
}

#[test]
fn braid_arguments() {
    let b = parse_braid_args(&args(&["braid"])).unwrap();
    assert_eq!(b.file, "braid.toml");
    assert_eq!(b.budget, 32000);
    assert_eq!(b.format, "markdown");
    assert!(b.contract);
    let b = parse_braid_args(&args(&["braid", "--plain", "--budget=100", "--file", "x.toml", "--contract=false"])).unwrap();
    assert_eq!(b.format, "plain");
    assert_eq!(b.budget, 100);
    assert_eq!(b.file, "x.toml");
    assert!(!b.contract);
    let b = parse_braid_args(&args(&["braid", "--json", "--format", "plain", "--no-contract", "--dry-run"])).unwrap();
    assert_eq!(b.format, "json");
    assert!(!b.contract);
    assert!(b.dry_run);
    assert!(parse_braid_args(&args(&["braid", "braid"])).is_none());
    assert!(parse_braid_args(&args(&["braid", "pos"])).is_none());
    assert!(parse_braid_args(&args(&["braid", "--budget", "lots"])).is_none());
    assert!(parse_braid_args(&args(&["--json"])).is_none());
}

#[test]
fn doctor_arguments() {
    let d = parse_doctor_args(&args(&["doctor"])).unwrap();
    assert_eq!(d.root, ".");
    let d = parse_doctor_args(&args(&["doctor", "repo", "--json", "--strict-offline"])).unwrap();
    assert_eq!(d.root, "repo");
    assert!(d.json && d.strict_offline);
    assert!(parse_doctor_args(&args(&["doctor", "a", "b"])).is_none());
    assert!(parse_doctor_args(&args(&["doctor", "-x"])).is_none());
    assert!(parse_doctor_args(&args(&["repo", "doctor"])).is_none());
}

#[test]
fn replay_arguments() {
    let r = parse_replay_args(&args(&["replay", "list", "--json"])).unwrap();
    assert_eq!(r.command, ReplayCommand::List);
    assert!(r.json);
    let r = parse_replay_args(&args(&["replay", "diff", "a", "b", "--by=path"])).unwrap();
    assert_eq!(
        r.command,
        ReplayCommand::Diff { a: "a".into(), b: "b".into(), by: "path".into(), format: "markdown".into() }
    );
    let r = parse_replay_args(&args(&["replay", "prune", "--older-than", "7d", "--shared"])).unwrap();
    assert_eq!(r.command, ReplayCommand::Prune { older_than: "7d".into() });
    assert!(r.shared);
    assert!(parse_replay_args(&args(&["replay", "prune"])).is_none());
    assert!(parse_replay_args(&args(&["replay", "show"])).is_none());
    assert!(parse_replay_args(&args(&["replay", "bogus"])).is_none());
    assert!(parse_replay_args(&args(&["replay"])).is_none());
}

#[test]
fn roots_arguments() {
    let r = parse_roots_args(&args(&["roots", "add"])).unwrap();
    assert_eq!(r.command, RootsCommand::Add { path: ".".into(), name: String::new() });
    let r = parse_roots_args(&args(&["roots", "register", "repo", "--name", "main"])).unwrap();
    assert_eq!(r.command, RootsCommand::Add { path: "repo".into(), name: "main".into() });
    let r = parse_roots_args(&args(&["roots", "o", "main", "--port=8080", "--timeout", "2m", "--no-open"])).unwrap();
    assert_eq!(
        r.command,
        RootsCommand::Open {
            name_or_path: "main".into(),
            port: 8080,
            bind: "127.0.0.1".into(),
            no_open: true,
            audit: false,
            timeout: WaitTime { secs: 120, millis: 0 },
        }
    );
    assert!(parse_roots_args(&args(&["roots", "add", "--port", "1"])).is_none());
    assert!(parse_roots_args(&args(&["roots", "ls", "--name=x"])).is_none());
    assert!(parse_roots_args(&args(&["roots", "rm"])).is_none());
    assert!(parse_roots_args(&args(&["roots", "open", "a", "--timeout", "soon"])).is_none());
    assert_eq!(parse_roots_port("65535"), Some(65535));
    assert_eq!(parse_roots_port("65536"), None);
    assert_eq!(parse_roots_port("+8"), Some(8));
}

#[test]
fn digest_arguments() {
    let d = parse_digest_args(&args(&["digest"])).unwrap();
    assert_eq!((d.since.as_str(), d.top, d.out.as_str(), d.format.as_str()), ("7d", 10, "", "markdown"));
    let d = parse_digest_args(&args(&["digest", "--since=2w", "--top", "3", "--json"])).unwrap();
    assert_eq!((d.since.as_str(), d.top, d.format.as_str()), ("2w", 3, "json"));
    assert!(parse_digest_args(&args(&["digest", "--top", "-1"])).is_none());
    assert!(parse_digest_args(&args(&["digest", "extra"])).is_none());
}

#[test]
fn noise_onboarding_skim_arguments() {
    let n = parse_noise_args(&args(&["noise", "repo", "--apply", "--top=5", "--json"])).unwrap();
    assert_eq!((n.root.as_str(), n.top, n.apply, n.format.as_str()), ("repo", 5, true, "json"));
    assert_eq!(parse_noise_args(&args(&["noise"])).unwrap().top, 20);
    let o = parse_onboarding_args(&args(&["onboarding", "--persona", "ai", "--limit", "4"])).unwrap();
    assert_eq!((o.root.as_str(), o.limit, o.persona.as_str(), o.format.as_str()), (".", 4, "ai", "text"));
    let s = parse_skim_args(&args(&["skim", "main.rs", "--budget", "800", "--tier=outline"])).unwrap();
    assert_eq!((s.path.as_str(), s.budget, s.unit.as_str(), s.lang.as_str(), s.tier.as_str()), ("main.rs", 800, "tokens", "auto", "outline"));
    assert!(parse_skim_args(&args(&["skim"])).is_none());
    assert!(parse_skim_args(&args(&["skim", "a", "b"])).is_none());
}

#[test]
fn relation_focus_map_where_arguments() {
    let r = parse_relation_args(&args(&["deps", "src/lib.rs", "--json"])).unwrap();
    assert_eq!((r.kind.as_str(), r.path.as_str(), r.format.as_str()), ("deps", "src/lib.rs", "json"));
    let r = parse_relation_args(&args(&["impact", "x", "--format=dot", "--json"])).unwrap();
    assert_eq!(r.format, "dot");
    assert!(parse_relation_args(&args(&["deps", "impact", "x"])).is_none());
    assert!(parse_relation_args(&args(&["x"])).is_none());

    let f = parse_focus_args(&args(&["focus", "Pack", "--hops", "2", "--plain"])).unwrap();
    assert_eq!((f.anchor.as_str(), f.hops, f.budget, f.format.as_str()), ("Pack", 2, 8000, "plain"));
    let pa = build_focus_pack_args(&f, 500);
    assert_eq!(pa.root, ".");
    assert_eq!(pa.budget, 500);
    assert_eq!(pa.format, "plain");
    assert!(pa.no_contract && pa.no_warnings && pa.no_metadata && !pa.no_paths);
    assert_eq!(pa.layout, "sequential");

    let m = parse_map_args(&args(&["map", "--depth=3", "--by", "files", "--width", "100"])).unwrap();
    assert_eq!((m.root.as_str(), m.depth, m.by.as_str(), m.format.as_str(), m.width, m.height), (".", 3, "files", "ascii", 100, 20));
    assert_eq!(validate_map_args(&m), Ok(()));
    let mut bad = m.clone();
    bad.by = "churn".into();
    assert!(validate_map_args(&bad).unwrap_err().starts_with("--by churn is not yet supported"));
    bad.by = "size".into();
    assert_eq!(validate_map_args(&bad).unwrap_err(), "unknown --by value \"size\" (allowed: tokens, files, symbols)");
    let mut bad = m.clone();
    bad.format = "png".into();
    assert_eq!(validate_map_args(&bad).unwrap_err(), "unknown --format value \"png\" (allowed: ascii, json, svg)");

    let w = parse_where_args(&args(&["where", "session login", "repo", "--all", "--limit", "5"])).unwrap();
    assert_eq!((w.query.as_str(), w.root.as_str(), w.limit, w.require_all, w.format.as_str()), ("session login", "repo", 5, true, "default"));
    let w = parse_where_args(&args(&["where"])).unwrap();
    assert_eq!((w.query.as_str(), w.root.as_str()), ("", "."));
    assert!(parse_where_args(&args(&["where", "a", "b", "c"])).is_none());
}

#[test]
fn contract_arguments() {
    let c = parse_contract_verify_args(&args(&["pack.md", "--strict", "--response=r.txt", "--engine", "go"])).unwrap();
    assert_eq!(c.pack_path, "pack.md");
    assert!(c.strict);
    assert_eq!(c.response_path, Some("r.txt".to_string()));
    assert_eq!(c.format, "markdown");
    assert!(parse_contract_verify_args(&args(&["pack.md", "--engine=python"])).is_none());
    assert!(parse_contract_verify_args(&args(&[])).is_none());
    assert!(parse_contract_verify_args(&args(&["a", "b"])).is_none());
}

#[test]
fn parses_supported_durations() {
    assert_eq!(parse_duration("25ms").unwrap(), WaitTime { secs: 0, millis: 25 });
    assert_eq!(parse_duration("2s").unwrap(), WaitTime { secs: 2, millis: 0 });
    assert_eq!(parse_duration("3m").unwrap(), WaitTime { secs: 180, millis: 0 });
    assert!(parse_duration("0ms").is_err());
    assert!(parse_duration("1.5s").is_err());
}

#[test]
fn diff_arguments_and_duration_errors() {
    assert_eq!(parse_duration("0ms").unwrap_err(), "duration must be positive: 0ms");
    assert_eq!(parse_duration("1.5s").unwrap_err(), "invalid duration 1.5s");
    assert_eq!(parse_duration("ms").unwrap_err(), "invalid duration ms");
    assert_eq!(parse_duration("99999999999999999999h").unwrap_err(), "invalid duration 99999999999999999999h");
    assert_eq!(parse_duration("18446744073709551615h").unwrap_err(), "duration out of range 18446744073709551615h");
    let o = parse_args(&args(&["diff"])).unwrap();
    assert_eq!(o.root, ".");
    assert!(!o.watch);
    assert_eq!(o.debounce, WaitTime { secs: 0, millis: 200 });
    let o = parse_args(&args(&["diff", "repo", "--watch", "--debounce=1s", "--path", "a", "--path=b"])).unwrap();
    assert_eq!(o.root, "repo");
    assert_eq!(o.debounce, WaitTime { secs: 1, millis: 0 });
    assert_eq!(o.paths, vec!["a".to_string(), "b".to_string()]);
    assert_eq!(parse_args(&args(&["diff", "--debounce", "5s"])).unwrap_err(), "--debounce requires --watch");
    assert_eq!(parse_args(&args(&["diff", "--path="])).unwrap_err(), "--path cannot be empty");
    assert_eq!(parse_args(&args(&["diff", "--x"])).unwrap_err(), "unknown option --x");
    assert_eq!(parse_args(&args(&["diff", "a", "b"])).unwrap_err(), "unexpected argument b");
}

#[test]
fn root_command_flags() {
    let r = parse_root_args(&args(&["--git=false", "--json", "-L2", "--budget", "500", "src"])).unwrap();
    assert!(!r.show_git && r.want_json);
    assert_eq!(r.depth, 2);
    assert_eq!(r.budget, 500);
    assert_eq!(r.path, Some("src".to_string()));
    assert_eq!(r.unit, "tokens");
    let r = parse_root_args(&args(&["--depth=4", "--unit", "chars", "--since=7d", "-L", "1"])).unwrap();
    assert_eq!(r.depth, 1);
    assert_eq!(r.unit, "chars");
    assert_eq!(r.since, "7d");
    assert!(parse_root_args(&args(&["--symbols"])).is_none());
    assert!(parse_root_args(&args(&["--tui=false"])).is_none());
    assert!(parse_root_args(&args(&["-Lx"])).is_none());
    assert!(parse_root_args(&args(&["a", "b"])).is_none());
    assert!(parse_root_args(&args(&["--plan"])).is_none());
}
