use ctx::braid::config::{
    from_document, sorted_strand_names, validate, Config, ConfigError, RawConfig, RawStrand,
    Strand,
};
use ctx::{PolicyKind, PolicyKindOrEmpty};

fn strand(name: &str, source: &str, share: f64) -> Strand {
    Strand {
        name: name.into(),
        source: source.into(),
        share_in_range: share > 0.0 && share <= 1.0,
        share_text: format!("{share}"),
        policy: Default::default(),
    }
}

fn raw(name: &str, source: &str, share: f64, policy: &str) -> RawStrand {
    RawStrand {
        name: name.into(),
        source: source.into(),
        share_in_range: share > 0.0 && share <= 1.0,
        share_text: format!("{share}"),
        policy: policy.into(),
    }
}

#[test]
fn validate_rejects_duplicate_names() {
    let mut cfg = Config {
        schema_version: 1,
        strands: vec![strand("x", "where 'a'", 0.5), strand("x", "focus B", 0.5)],
    };
    match validate(&mut cfg).unwrap_err() {
        ConfigError::DuplicateStrandName(s) => assert_eq!(s, "x"),
        e => panic!("expected duplicate-name, got {e:?}"),
    }
}

#[test]
fn validate_rejects_share_zero() {
    let mut cfg = Config { schema_version: 1, strands: vec![strand("x", "where 'a'", 0.0)] };
    match validate(&mut cfg).unwrap_err() {
        ConfigError::ShareOutOfRange { strand, .. } => assert_eq!(strand, "x"),
        e => panic!("expected share-out-of-range, got {e:?}"),
    }
}

#[test]
fn sorted_strand_names_alpha() {
    let cfg = Config {
        schema_version: 1,
        strands: vec![strand("zebra", "where 'x'", 0.5), strand("alpha", "where 'y'", 0.5)],
    };
    let names = sorted_strand_names(&cfg);
    assert_eq!(names, vec!["alpha".to_string(), "zebra".into()]);
}

#[test]
fn validate_rejects_duplicate_strand_name() {
    let mut cfg = Config {
        schema_version: 1,
        strands: vec![strand("x", "where 'a'", 0.5), strand("x", "focus B", 0.5)],
    };
    let err = validate(&mut cfg).unwrap_err();
    assert!(
        err.message().contains("duplicate strand name"),
        "error should mention duplicate-strand-name: {}",
        err.message()
    );
}

#[test]
fn validate_rejects_share_out_of_range() {
    let mut cfg = Config { schema_version: 1, strands: vec![strand("x", "where 'a'", 0.0)] };
    let err = validate(&mut cfg).unwrap_err();
    assert!(err.message().contains("share must be in"));
}

#[test]
fn sorted_strand_names_returns_alpha_order() {
    let cfg = Config {
        schema_version: 1,
        strands: vec![strand("zebra", "where 'x'", 0.5), strand("alpha", "where 'y'", 0.5)],
    };
    assert_eq!(sorted_strand_names(&cfg), vec!["alpha", "zebra"]);
}

#[test]
fn validate_sets_unset_policies_to_merge() {
    let mut cfg = Config {
        schema_version: 1,
        strands: vec![strand("a", "where 'a'", 0.4), strand("b", "digest --since 7d", 0.6)],
    };
    cfg.strands[1].policy = PolicyKindOrEmpty(Some(PolicyKind::PreferNewer));
    assert!(validate(&mut cfg).is_ok());
    assert_eq!(cfg.strands[0].policy, PolicyKindOrEmpty(Some(PolicyKind::Merge)));
    assert_eq!(cfg.strands[1].policy, PolicyKindOrEmpty(Some(PolicyKind::PreferNewer)));
}

#[test]
fn validate_reports_each_rule_in_order() {
    let mut cfg = Config { schema_version: 2, strands: vec![] };
    assert_eq!(validate(&mut cfg), Err(ConfigError::SchemaTooNew(2)));
    let mut cfg = Config { schema_version: 1, strands: vec![] };
    assert_eq!(validate(&mut cfg), Err(ConfigError::NoStrands));
    let mut cfg = Config { schema_version: 1, strands: vec![strand("  ", "where x", 0.5)] };
    assert_eq!(validate(&mut cfg), Err(ConfigError::StrandNameRequired(0)));
    let mut cfg = Config { schema_version: 1, strands: vec![strand("n", " \t", 0.5)] };
    assert_eq!(validate(&mut cfg), Err(ConfigError::SourceRequired("n".into())));
    let mut cfg = Config { schema_version: 1, strands: vec![strand("n", "grep x", 0.5)] };
    assert_eq!(
        validate(&mut cfg),
        Err(ConfigError::UnsupportedSource { strand: "n".into(), source: "grep".into() })
    );
}

#[test]
fn error_messages_match_display_text() {
    assert_eq!(
        ConfigError::SchemaTooNew(3).message(),
        "braid: schema_version 3 not supported (max 1)"
    );
    assert_eq!(ConfigError::StrandNameRequired(2).message(), "braid: strand[2].name is required");
    assert_eq!(
        ConfigError::ShareOutOfRange { strand: "x".into(), share: "1.5".into() }.message(),
        "braid: strand \"x\": share must be in (0, 1], got 1.5"
    );
    assert_eq!(
        ConfigError::UnsupportedSource { strand: "s".into(), source: "grep".into() }.message(),
        "braid: strand \"s\": unsupported source \"grep\" (allowed: where|focus|digest)"
    );
    assert_eq!(ConfigError::Parse("bad".into()).message(), "parse braid toml: bad");
}

#[test]
fn document_with_unknown_policy_is_rejected_first() {
    let doc = RawConfig {
        schema_version: 0,
        strands: vec![raw("", "where x", 0.0, "newest"), raw("b", "where y", 0.5, "")],
    };
    assert_eq!(
        from_document(doc),
        Err(ConfigError::UnknownPolicy { strand: "<unnamed>".into(), policy: "newest".into() })
    );
}

#[test]
fn document_reads_absent_version_as_current() {
    let doc = RawConfig {
        schema_version: 0,
        strands: vec![raw("a", "where 'foo'", 0.4, ""), raw("b", "focus Bar", 0.3, "prefer-newer")],
    };
    let cfg = from_document(doc).unwrap();
    assert_eq!(cfg.schema_version, 1);
    assert_eq!(cfg.strands.len(), 2);
    assert_eq!(cfg.strands[0].policy, PolicyKindOrEmpty(Some(PolicyKind::Merge)));
    assert_eq!(cfg.strands[1].policy, PolicyKindOrEmpty(Some(PolicyKind::PreferNewer)));
}
