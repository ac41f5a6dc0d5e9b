use ctx::{is_supported_source, strand_subcommand, PolicyKind, PolicyKindOrEmpty};

#[test]
fn subcommand_extracts_first_token() {
    assert_eq!(strand_subcommand("where 'foo' --format json"), "where");
    assert_eq!(strand_subcommand("ctx focus Bar"), "focus");
    assert_eq!(strand_subcommand("  digest --since 7d"), "digest");
    assert_eq!(strand_subcommand(""), "");
}

#[test]
fn strand_subcommand_extracts_first_token() {
    assert_eq!(strand_subcommand("where 'foo' --format json"), "where");
    assert_eq!(strand_subcommand("ctx focus Bar"), "focus");
    assert_eq!(strand_subcommand("  digest --since 7d"), "digest");
    assert_eq!(strand_subcommand(""), "");
}

#[test]
fn supported_source_set() {
    assert!(is_supported_source("where"));
    assert!(is_supported_source("focus"));
    assert!(is_supported_source("digest"));
    assert!(!is_supported_source("bogus"));
    assert!(!is_supported_source(""));
}

#[test]
fn subcommand_lowers_ascii_and_skips_only_lowercase_ctx() {
    assert_eq!(strand_subcommand("ctx\tWHERE x"), "where");
    assert_eq!(strand_subcommand("CTX where"), "ctx");
    assert_eq!(strand_subcommand("ctx ctx"), "");
    assert_eq!(strand_subcommand("\u{3000}Focus\u{a0}Bar"), "focus");
}

#[test]
fn policy_kind_names_round_trip() {
    for p in [
        PolicyKind::Merge,
        PolicyKind::PreferNewer,
        PolicyKind::ExcludeOverlap,
    ] {
        assert_eq!(PolicyKind::from_str_opt(p.as_str()), Some(p));
    }
    assert_eq!(PolicyKind::PreferNewer.as_str(), "prefer-newer");
    assert_eq!(PolicyKind::from_str_opt("weird"), None);
    assert_eq!(PolicyKind::from_str_opt("Merge"), None);
}

#[test]
fn unset_policy_reads_as_merge() {
    let p = PolicyKindOrEmpty::default();
    assert!(p.is_empty());
    assert_eq!(p.unwrap_or_merge(), PolicyKind::Merge);
    assert_eq!(p.as_str(), "");
    let q = PolicyKindOrEmpty(Some(PolicyKind::ExcludeOverlap));
    assert!(!q.is_empty());
    assert_eq!(q.unwrap_or_merge(), PolicyKind::ExcludeOverlap);
    assert_eq!(q.as_str(), "exclude-overlap");
}
