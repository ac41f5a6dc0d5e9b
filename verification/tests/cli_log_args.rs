use ctx::cli::log_args::{
    normalize_log_path, parse_limit, parse_log_args, parse_nonempty_value, parse_ref,
    resolve_log_args, OutputMode,
};

fn os_args(args: &[&str]) -> Vec<String> {
    args.iter().map(|a| a.to_string()).collect()
}

#[test]
fn parse_defaults_to_tui_with_limit_100() {
    let args = parse_log_args(&os_args(&["log"])).unwrap().expect("parsed");
    assert_eq!(args.limit, 100);
    assert_eq!(args.output_mode, OutputMode::Tui);
}

#[test]
fn parse_accepts_path_query_and_ref_separately() {
    let request = parse_log_args(&os_args(&["log", "--path", "src/main.rs", "--ref", "main"]))
        .unwrap()
        .expect("parsed");
    let path_args = resolve_log_args(request, "/repo".to_string()).unwrap();
    assert_eq!(path_args.path.as_deref(), Some("src/main.rs"));
    assert_eq!(path_args.ref_name.as_deref(), Some("main"));

    let query_args =
        parse_log_args(&os_args(&["log", "--query=auth", "--plain"])).unwrap().expect("parsed");
    assert_eq!(query_args.query.as_deref(), Some("auth"));
    assert_eq!(query_args.output_mode, OutputMode::Plain);
}

#[test]
fn parse_rejects_bad_limit_and_ref() {
    assert!(parse_log_args(&os_args(&["log", "--limit", "0"])).is_err());
    assert!(parse_log_args(&os_args(&["log", "--limit", "501"])).is_err());
    assert!(parse_log_args(&os_args(&["log", "--ref", "-n1"])).is_err());
    assert!(parse_log_args(&os_args(&["log", "--ref", "bad ref"])).is_err());
}

#[test]
fn non_log_command_lines_are_not_claimed() {
    assert_eq!(parse_log_args(&os_args(&["where", "x"])), Ok(None));
    assert_eq!(parse_log_args(&os_args(&[])), Ok(None));
    assert_eq!(parse_log_args(&os_args(&["--plain"])), Ok(None));
}

#[test]
fn log_argument_errors_name_the_problem() {
    assert_eq!(
        parse_log_args(&os_args(&["log", "log"])),
        Err("duplicate log command".to_string())
    );
    assert_eq!(
        parse_log_args(&os_args(&["log", "--plain", "--json"])),
        Err("choose only one of --plain or --json".to_string())
    );
    assert_eq!(
        parse_log_args(&os_args(&["log", "--limit"])),
        Err("--limit requires a value".to_string())
    );
    assert_eq!(
        parse_log_args(&os_args(&["log", "--bogus"])),
        Err("unrecognized argument --bogus".to_string())
    );
    assert_eq!(
        parse_log_args(&os_args(&["log", "a", "b"])),
        Err("accepts at most one positional path".to_string())
    );
    assert_eq!(
        parse_log_args(&os_args(&["log", "a", "--path", "b"])),
        Err("use either positional path or --path, not both".to_string())
    );
    assert_eq!(
        parse_log_args(&os_args(&["log", "--path=a", "--query", "q"])),
        Err("use either --path or --query for this MVP".to_string())
    );
    assert_eq!(
        parse_log_args(&os_args(&["log", "--path", "  "])),
        Err("--path requires a non-empty value".to_string())
    );
}

#[test]
fn log_positional_path_and_limit_forms() {
    let request = parse_log_args(&os_args(&["log", "--limit=25", " src ", "--json"]))
        .unwrap()
        .expect("parsed");
    assert_eq!(request.limit, 25);
    assert_eq!(request.path.as_deref(), Some("src"));
    assert_eq!(request.output_mode, OutputMode::Json);
}

#[test]
fn limit_values() {
    assert_eq!(parse_limit("1"), Ok(1));
    assert_eq!(parse_limit("+500"), Ok(500));
    assert_eq!(parse_limit("0"), Err("--limit must be between 1 and 500".to_string()));
    assert_eq!(parse_limit("ten"), Err("--limit must be a number from 1 to 500".to_string()));
    assert_eq!(parse_limit("-1"), Err("--limit must be a number from 1 to 500".to_string()));
    assert_eq!(
        parse_limit("99999999999999999999999"),
        Err("--limit must be a number from 1 to 500".to_string())
    );
}

#[test]
fn ref_and_value_checks() {
    assert_eq!(parse_ref(" main "), Ok("main".to_string()));
    assert_eq!(parse_ref("bad ref"), Err("invalid --ref \"bad ref\"".to_string()));
    assert_eq!(parse_ref(""), Err("--ref requires a non-empty value".to_string()));
    assert_eq!(parse_nonempty_value("--x", "\t v \n"), Ok("v".to_string()));
}

#[test]
fn log_paths_are_made_relative_to_the_root() {
    assert_eq!(normalize_log_path("/repo", "./src//lib.rs"), Ok("src/lib.rs".to_string()));
    assert_eq!(normalize_log_path("/repo", "src/../docs/./a.md"), Ok("docs/a.md".to_string()));
    assert_eq!(normalize_log_path("/repo", "/repo/src/x.rs"), Ok("src/x.rs".to_string()));
    assert_eq!(
        normalize_log_path("/repo", "/other/x.rs"),
        Err("path \"/other/x.rs\" is outside the repository root: prefix not found".to_string())
    );
    assert_eq!(
        normalize_log_path("/repo", "../x"),
        Err("path \"../x\" is outside the repository root".to_string())
    );
    assert_eq!(
        normalize_log_path("/repo", "/repo"),
        Err("path \"/repo\" is outside the repository root".to_string())
    );
}
