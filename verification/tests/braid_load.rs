use ctx::braid::config::{from_document, Config, ConfigError, RawConfig, RawStrand};
use ctx::PolicyKind;

/// Reads a `braid.toml` text into the raw document and checks it.
fn load(data: &str) -> Result<Config, ConfigError> {
    let table: toml::Table = match data.parse::<toml::Table>() {
        Ok(t) => t,
        Err(e) => return Err(ConfigError::Parse(e.message().to_string())),
    };
    let schema_version = table.get("schema_version").and_then(|v| v.as_integer()).unwrap_or(0);
    let mut strands = Vec::new();
    if let Some(list) = table.get("strand").and_then(|v| v.as_array()) {
        for item in list {
            let text = |key: &str| {
                item.get(key).and_then(|v| v.as_str()).unwrap_or("").to_string()
            };
            let share = item.get("share").and_then(|v| v.as_float()).unwrap_or(0.0);
            strands.push(RawStrand {
                name: text("name"),
                source: text("source"),
                share_in_range: share > 0.0 && share <= 1.0,
                share_text: format!("{share}"),
                policy: text("policy"),
            });
        }
    }
    from_document(RawConfig { schema_version, strands })
}

const VALID_TOML: &str = r#"schema_version = 1

[[strand]]
name = "a"
source = "where 'foo'"
share = 0.4

[[strand]]
name = "b"
source = "focus Bar"
share = 0.3
policy = "prefer-newer"

[[strand]]
name = "c"
source = "digest --since 7d"
share = 0.3
"#;

#[test]
fn load_valid_toml() {
    let cfg = load(VALID_TOML).unwrap();
    assert_eq!(cfg.schema_version, 1);
    assert_eq!(cfg.strands.len(), 3);
    assert_eq!(cfg.strands[0].policy.unwrap_or_merge(), PolicyKind::Merge);
    assert_eq!(cfg.strands[1].policy.unwrap_or_merge(), PolicyKind::PreferNewer);
}

const REGRESSION_VALID_TOML: &str = r#"schema_version = 1

[[strand]]
name = "api-surface"
source = "where 'handler' --format json"
share  = 0.4

[[strand]]
name = "recent-changes"
source = "digest --since 7d --format json"
share  = 0.3
policy = "prefer-newer"

[[strand]]
name = "anchor-deep"
source = "focus RateLimiter --hops 2 --format json"
share  = 0.3
"#;

const INVALID_SOURCE_TOML: &str = r#"schema_version = 1

[[strand]]
name = "bogus"
source = "unknown-subcommand --flag"
share  = 0.5
"#;

#[test]
fn load_valid_returns_three_strands_with_default_policy() {
    let cfg = load(REGRESSION_VALID_TOML).unwrap();
    assert_eq!(cfg.schema_version, 1);
    assert_eq!(cfg.strands.len(), 3);
    assert_eq!(cfg.strands[0].policy.unwrap_or_merge(), PolicyKind::Merge);
    assert_eq!(cfg.strands[1].policy.unwrap_or_merge(), PolicyKind::PreferNewer);
}

#[test]
fn load_rejects_invalid_source() {
    let data = r#"schema_version = 1

[[strand]]
name = "bogus"
source = "unknown-subcommand --flag"
share = 0.5
"#;
    let err = load(data).unwrap_err();
    match err {
        ConfigError::UnsupportedSource { source, .. } => {
            assert_eq!(source, "unknown-subcommand");
        }
        other => panic!("expected unsupported-source, got {other:?}"),
    }
}

#[test]
fn load_invalid_source_errors_with_unsupported_source_substring() {
    let err = load(INVALID_SOURCE_TOML).unwrap_err();
    let msg = err.message();
    assert!(
        msg.contains("unsupported source"),
        "error message must mention 'unsupported source', got {msg}"
    );
}

#[test]
fn load_rejects_unknown_policy() {
    let data = r#"schema_version = 1

[[strand]]
name = "a"
source = "where 'foo'"
share = 0.5
policy = "weird"
"#;
    let err = load(data).unwrap_err();
    match err {
        ConfigError::UnknownPolicy { strand, policy } => {
            assert_eq!(strand, "a");
            assert_eq!(policy, "weird");
        }
        other => panic!("expected unknown-policy, got {other:?}"),
    }
}

#[test]
fn load_reports_malformed_text_and_share() {
    assert!(matches!(load("schema_version = ").unwrap_err(), ConfigError::Parse(_)));
    let data = r#"[[strand]]
name = "a"
source = "where 'x'"
share = 1.5
"#;
    assert_eq!(
        load(data).unwrap_err().message(),
        "braid: strand \"a\": share must be in (0, 1], got 1.5"
    );
}
