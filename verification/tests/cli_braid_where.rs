use ctx::cli::braid_where::{parse_where_strand_flags, WhereStrandFlags};

fn flags(v: &[&str]) -> Vec<String> {
    v.iter().map(|s| s.to_string()).collect()
}

#[test]
fn where_strand_flags_default_and_set() {
    assert_eq!(
        parse_where_strand_flags("s", &[]),
        Ok(WhereStrandFlags { limit: 50, regex: String::new(), require_all: false, context: 0 })
    );
    assert_eq!(
        parse_where_strand_flags(
            "s",
            &flags(&["--limit", "10", "--regex=fo+", "--all", "--context=3", "--format", "json"])
        ),
        Ok(WhereStrandFlags { limit: 10, regex: "fo+".to_string(), require_all: true, context: 3 })
    );
    assert_eq!(
        parse_where_strand_flags("s", &flags(&["--limit=7", "--regex", "x", "--format=json", "--context", "2"])),
        Ok(WhereStrandFlags { limit: 7, regex: "x".to_string(), require_all: false, context: 2 })
    );
}

#[test]
fn where_strand_flags_errors() {
    assert_eq!(
        parse_where_strand_flags("api", &flags(&["--limit"])),
        Err("braid: strand \"api\": parse strand source flags: flag needs an argument: --limit".to_string())
    );
    assert_eq!(
        parse_where_strand_flags("api", &flags(&["--limit", "many"])),
        Err("braid: strand \"api\": parse strand source flags: invalid digit found in string".to_string())
    );
    assert_eq!(
        parse_where_strand_flags("api", &flags(&["--context="])),
        Err("braid: strand \"api\": parse strand source flags: cannot parse integer from empty string".to_string())
    );
    assert_eq!(
        parse_where_strand_flags("api", &flags(&["--verbose"])),
        Err("braid: strand \"api\": parse strand source flags: flag provided but not defined: --verbose".to_string())
    );
    assert_eq!(
        parse_where_strand_flags("api", &flags(&["--format"])),
        Err("braid: strand \"api\": parse strand source flags: flag needs an argument: --format".to_string())
    );
    let bad = parse_where_strand_flags("api", &flags(&["--regex", "("])).unwrap_err();
    assert!(bad.starts_with("braid: strand \"api\": invalid regex: "));
}
