use ctx::cli::pack_args::{apply_pack_preset, parse_pack_args, validate_mix_id, PresetPatch};

fn args(a: &[&str]) -> Vec<String> {
    a.iter().map(|s| s.to_string()).collect()
}

#[test]
fn pack_defaults_apply_without_flags() {
    let p = parse_pack_args(&args(&["pack"])).unwrap();
    assert_eq!(p.root, ".");
    assert_eq!(p.budget, 50000);
    assert_eq!(p.format, "markdown");
    assert_eq!(p.layout, "sequential");
    assert!(!p.format_changed && !p.budget_changed && !p.no_contract);
    assert!(p.why_paths.is_empty());
}

#[test]
fn pack_reads_values_in_both_forms() {
    let p = parse_pack_args(&args(&[
        "pack", "src", "--budget", "1200", "--goal=fix bug", "--diff", "HEAD~1", "--why", "a.rs",
        "--why=b.rs", "--no-contract", "--layout=grouped",
    ]))
    .unwrap();
    assert_eq!(p.root, "src");
    assert_eq!(p.budget, 1200);
    assert!(p.budget_changed);
    assert_eq!(p.goal, "fix bug");
    assert!(p.goal_changed);
    assert_eq!(p.diff_spec, "HEAD~1");
    assert_eq!(p.why_paths, vec!["a.rs".to_string(), "b.rs".to_string()]);
    assert!(p.no_contract);
    assert_eq!(p.layout, "grouped");
}

#[test]
fn pack_format_flags_combine() {
    let p = parse_pack_args(&args(&["pack", "--plain"])).unwrap();
    assert_eq!(p.format, "plain");
    assert!(p.format_changed);
    let p = parse_pack_args(&args(&["pack", "--plain", "--format", "xml"])).unwrap();
    assert_eq!(p.format, "xml");
    let p = parse_pack_args(&args(&["pack", "--format=xml", "--json"])).unwrap();
    assert_eq!(p.format, "json");
}

#[test]
fn pack_contract_switches_toggle() {
    let p = parse_pack_args(&args(&["pack", "--contract=0", "--contract"])).unwrap();
    assert!(!p.no_contract);
    let p = parse_pack_args(&args(&["pack", "--contract=true", "--no-contract"])).unwrap();
    assert!(p.no_contract);
}

#[test]
fn pack_refuses_bad_command_lines() {
    assert!(parse_pack_args(&args(&[])).is_none());
    assert!(parse_pack_args(&args(&["where"])).is_none());
    assert!(parse_pack_args(&args(&["pack", "pack"])).is_none());
    assert!(parse_pack_args(&args(&["pack", "a", "b"])).is_none());
    assert!(parse_pack_args(&args(&["pack", "--budget", "lots"])).is_none());
    assert!(parse_pack_args(&args(&["pack", "--goal"])).is_none());
    assert!(parse_pack_args(&args(&["pack", "--bogus"])).is_none());
    assert!(parse_pack_args(&args(&["pack", "--scan-engine"])).is_none());
}

#[test]
fn pack_engine_flags_are_accepted_and_ignored() {
    let p = parse_pack_args(&args(&["pack", "--scan-engine", "fast", "--pack-engine=x", "."]))
        .unwrap();
    assert_eq!(p.root, ".");
    let p = parse_pack_args(&args(&["--json", "pack", "--shared", "--strict"])).unwrap();
    assert_eq!(p.format, "json");
    assert!(p.replay_shared && p.replay_strict);
}

#[test]
fn pack_marks_switches_given() {
    let p = parse_pack_args(&args(&[
        "pack", "--no-warnings", "--no-paths", "--no-metadata", "--frontmatter", "yaml",
        "--preset=review", "--explain", "--changed", "--api-only", "--from-where",
        "--from-stdin", "--use-mtime", "--since", "7d", "--until=1d", "--out", "o.md",
        "--from-mix", "m1", "--snapshot", "s1", "--since-snapshot=s0",
    ]))
    .unwrap();
    assert!(p.no_warnings && p.no_warnings_changed);
    assert!(p.no_paths && p.no_paths_changed);
    assert!(p.no_metadata && p.no_metadata_changed);
    assert_eq!(p.frontmatter, "yaml");
    assert!(p.frontmatter_changed);
    assert_eq!(p.preset, "review");
    assert!(p.preset_changed);
    assert!(p.explain && p.changed && p.api_only && p.from_where && p.from_stdin && p.use_mtime);
    assert_eq!(p.since, "7d");
    assert_eq!(p.until, "1d");
    assert_eq!(p.out, "o.md");
    assert_eq!(p.from_mix, "m1");
    assert_eq!(p.snapshot_id, "s1");
    assert_eq!(p.since_snapshot, "s0");
    assert!(!p.plain_file_contents);
}

#[test]
fn presets_respect_options_given_on_the_command_line() {
    let p = parse_pack_args(&args(&["pack", "--format", "xml", "--no-paths"])).unwrap();
    let patch = PresetPatch {
        format: Some("plain".to_string()),
        no_warnings: Some(true),
        no_paths: Some(false),
        no_metadata: None,
        frontmatter: Some("toml".to_string()),
        plain_file_contents: Some(true),
        explain: Some(true),
    };
    let q = apply_pack_preset(p, patch);
    assert_eq!(q.format, "xml");
    assert!(q.no_warnings);
    assert!(q.no_paths);
    assert!(!q.no_metadata);
    assert_eq!(q.frontmatter, "toml");
    assert!(q.plain_file_contents && q.explain);
}

#[test]
fn mix_ids_are_checked() {
    assert_eq!(validate_mix_id("team-review_1.v2"), Ok(()));
    assert_eq!(
        validate_mix_id(""),
        Err("pack: --from-mix: mix: invalid recipe id: empty id".to_string())
    );
    assert_eq!(
        validate_mix_id(".."),
        Err("pack: --from-mix: mix: invalid recipe id: \"..\"".to_string())
    );
    assert_eq!(
        validate_mix_id("a/b"),
        Err("pack: --from-mix: mix: invalid recipe id: \"a/b\" contains disallowed character '/'"
            .to_string())
    );
}
