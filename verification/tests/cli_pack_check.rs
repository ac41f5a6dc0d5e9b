use ctx::cli::pack_args::parse_pack_args;
use ctx::cli::pack_check::check_pack_request;

fn check(v: &[&str]) -> Result<(), String> {
    let args: Vec<String> = v.iter().map(|s| s.to_string()).collect();
    check_pack_request(&parse_pack_args(&args).unwrap())
}

#[test]
fn pack_request_accepts_defaults() {
    assert_eq!(check(&["pack"]), Ok(()));
    assert_eq!(check(&["pack", "--layout", "unified"]), Ok(()));
}

#[test]
fn pack_request_refusals() {
    assert_eq!(check(&["pack", "--budget", "0"]), Err("pack: budget must be positive".to_string()));
    assert_eq!(
        check(&["pack", "--from-mix", "m.toml", "--from-stdin"]),
        Err("pack: --from-mix and --from-stdin are mutually exclusive".to_string())
    );
    assert_eq!(
        check(&["pack", "--snapshot", "a", "--since-snapshot", "b"]),
        Err("--snapshot and --since-snapshot are mutually exclusive".to_string())
    );
    assert_eq!(check(&["pack", "--layout", "zigzag"]), Err("unknown --layout value \"zigzag\"".to_string()));
}
