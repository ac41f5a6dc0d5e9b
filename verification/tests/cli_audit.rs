use ctx::cli::audit::{verify_audit_lines, AuditVerifyResult};

const L1: &str = r#"{"ts":"a","prev_hash":null}"#;
const L2: &str = r#"{"ts":"b","prev_hash":"a8a83a20dfb0aef38595602437b475ad1fb545278cb89ba8567bce517af30169"}"#;
const L3: &str = r#"{"ts":"c","prev_hash":"fb0f829be7dd23f17433b1e73281d94412c6f863b0f61a70fbb7e664c49aef8b"}"#;

fn lines(v: &[&str]) -> Vec<String> {
    v.iter().map(|s| s.to_string()).collect()
}

#[test]
fn linked_chain_verifies() {
    assert_eq!(
        verify_audit_lines(&lines(&[L1, L2, "", L3])),
        AuditVerifyResult { ok: true, total: 3, broken_at: 0, broken_end: 0 }
    );
    assert_eq!(
        verify_audit_lines(&[]),
        AuditVerifyResult { ok: true, total: 0, broken_at: 0, broken_end: 0 }
    );
}

#[test]
fn tampered_entry_breaks_the_chain() {
    let tampered = r#"{"ts":"B","prev_hash":"a8a83a20dfb0aef38595602437b475ad1fb545278cb89ba8567bce517af30169"}"#;
    // The changed second entry still links, but the third no longer does.
    assert_eq!(
        verify_audit_lines(&lines(&[L1, tampered, L3])),
        AuditVerifyResult { ok: false, total: 3, broken_at: 3, broken_end: 3 }
    );
}

#[test]
fn first_entry_must_name_no_hash_and_runs_are_reported() {
    assert_eq!(
        verify_audit_lines(&lines(&[L2, "not json", L1, L2, L3])),
        AuditVerifyResult { ok: false, total: 5, broken_at: 1, broken_end: 3 }
    );
    assert_eq!(
        verify_audit_lines(&lines(&[L1, L3, L1, L2, "[1]"])),
        AuditVerifyResult { ok: false, total: 5, broken_at: 5, broken_end: 5 }
    );
}
