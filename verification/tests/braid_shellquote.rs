use ctx::{shell_split, strip_ctx_and_sub, ShellSplitError};

#[test]
fn split_single_quote_preserves_run() {
    let got = shell_split("where 'multi word' --limit 5").unwrap();
    assert_eq!(got, vec!["where", "multi word", "--limit", "5"]);
}

#[test]
fn split_double_quote_preserves_run() {
    let got = shell_split(r#"where "multi word" --regex "a|b""#).unwrap();
    assert_eq!(got, vec!["where", "multi word", "--regex", "a|b"]);
}

#[test]
fn double_quote_keeps_unknown_escape_verbatim() {
    let got = shell_split(r#"where "a\d""#).unwrap();
    assert_eq!(got, vec!["where", r"a\d"]);
}

#[test]
fn double_quote_processes_known_escapes() {
    let got = shell_split(r#"echo "say \"hi\" and \\""#).unwrap();
    assert_eq!(got, vec!["echo", "say \"hi\" and \\"]);
}

#[test]
fn unclosed_single_quote_errors() {
    assert_eq!(
        shell_split("where 'unclosed"),
        Err(ShellSplitError::UnclosedSingleQuote)
    );
}

#[test]
fn unclosed_double_quote_errors() {
    assert_eq!(
        shell_split(r#"where "unclosed"#),
        Err(ShellSplitError::UnclosedDoubleQuote)
    );
}

#[test]
fn strip_ctx_and_sub_drops_leading_ctx_and_subcommand() {
    let tokens = strip_ctx_and_sub("where 'handler' --regex 'router|Handler'").unwrap();
    assert_eq!(tokens, vec!["handler", "--regex", "router|Handler"]);

    let tokens = strip_ctx_and_sub("ctx focus Bar --hops 2").unwrap();
    assert_eq!(tokens, vec!["Bar", "--hops", "2"]);
}

#[test]
fn strip_ctx_and_sub_empty_for_empty_source() {
    let tokens = strip_ctx_and_sub("").unwrap();
    assert!(tokens.is_empty());
}

#[test]
fn shell_split_single_quote_preserves_run() {
    let got = shell_split("where 'multi word' --limit 5").unwrap();
    assert_eq!(got, vec!["where", "multi word", "--limit", "5"]);
}

#[test]
fn shell_split_double_quote_preserves_run() {
    let got = shell_split(r#"where "multi word" --regex "a|b""#).unwrap();
    assert_eq!(got, vec!["where", "multi word", "--regex", "a|b"]);
}

#[test]
fn strip_ctx_and_sub_mixed_quotes() {
    let tokens = strip_ctx_and_sub("where 'handler' --regex 'router|Handler'").unwrap();
    assert_eq!(tokens, vec!["handler", "--regex", "router|Handler"]);
}

#[test]
fn shell_split_unclosed_quote_errors() {
    assert!(shell_split("where 'unclosed").is_err());
    assert!(shell_split(r#"where "unclosed"#).is_err());
    assert!(strip_ctx_and_sub("where 'unclosed").is_err());
}

#[test]
fn adjacent_runs_form_one_token_and_empty_quotes_count() {
    let got = shell_split(r#"foo"bar baz"'x y' '' """#).unwrap();
    assert_eq!(got, vec!["foobar bazx y", "", ""]);
    let got = shell_split(" \t a\r\nb  ").unwrap();
    assert_eq!(got, vec!["a", "b"]);
    let got = shell_split("").unwrap();
    assert!(got.is_empty());
}

#[test]
fn backslash_outside_double_quotes_is_literal() {
    let got = shell_split(r#"a\ b "c\"" 'd\'"#).unwrap();
    assert_eq!(got, vec![r"a\", "b", "c\"", r"d\"]);
}

#[test]
fn shell_split_error_messages() {
    assert_eq!(
        ShellSplitError::UnclosedSingleQuote.message(),
        "unclosed single quote"
    );
    assert_eq!(
        ShellSplitError::UnclosedDoubleQuote.message(),
        "unclosed double quote"
    );
}

#[test]
fn strip_keeps_tail_after_lone_ctx() {
    assert!(strip_ctx_and_sub("ctx").unwrap().is_empty());
    assert_eq!(strip_ctx_and_sub("focus").unwrap(), Vec::<String>::new());
}
