use ctx::cli::audit::{AuditVerifyResult};
use ctx::cli::doctor::{AuditToml, CtxToml};
use ctx::cli::doctor_report::{
    ChainRead, audit_path, audit_status, browse_readiness, chain_integrity_status, ctxignore_status_of, doctor_components, strict_offline_on,
    go_arch_name, go_os_name, render_browse_check, render_doctor, DoctorBrowse, DoctorCheck,
    DoctorComponent, DoctorConfiguration, DoctorReport, DoctorStrictOffline, DoctorSystem,
};

fn check(status: &str, detail: &str) -> DoctorCheck {
    DoctorCheck { status: status.to_string(), detail: detail.to_string() }
}

fn component(name: &str, detail: &str, status: &str, note: &str) -> DoctorComponent {
    DoctorComponent {
        name: name.to_string(),
        detail: detail.to_string(),
        status: status.to_string(),
        note: note.to_string(),
    }
}

#[test]
fn doctor_text_renders_every_section() {
    let report = DoctorReport {
        system: DoctorSystem { runtime: "ctx-rust 0.1.0".to_string(), platform: "linux/amd64".to_string() },
        components: vec![
            component("Tree", "native", "ok", ""),
            component("TUI", "not in this build", "na", "engine"),
        ],
        strict_offline: DoctorStrictOffline { flag_value: false, capability: "supported".to_string() },
        configuration: DoctorConfiguration {
            ctx_toml: "not found".to_string(),
            audit_log: "enabled".to_string(),
            chain_integrity: "ok".to_string(),
            query_masking: "off".to_string(),
            ctxignore: "present".to_string(),
        },
        browse: DoctorBrowse {
            loopback: check("ok", "127.0.0.1"),
            audit_writable: check("warn", "read-only"),
            embedded_ui: check("fail", "missing"),
            strict_offline: check("skip", "n/a"),
            recommendations: vec!["enable audit".to_string()],
        },
    };
    assert_eq!(
        render_doctor(&report),
        "System\n  Runtime:           ctx-rust 0.1.0\n  Platform:          linux/amd64\n\nComponents\n  Tree:             native                          \u{2713}\n  TUI:              not in this build               \u{2014} (engine)\n\nStrict offline\n  Flag value:        false\n  Capability:        \u{2713} supported\n\nConfiguration\n  ctx.toml:          not found\n  Audit log:         enabled\n  Chain integrity:   ok\n  Query masking:     off\n  .ctxignore:        present\n\nBrowse readiness\n  Loopback bind:    \u{2713} 127.0.0.1\n  Audit writable:   \u{26a0} read-only\n  Embedded UI:      \u{2717} missing\n  Strict offline:   \u{2014} n/a\n  Recommendations:\n    - enable audit\n"
    );
}

#[test]
fn browse_check_line_marks_status() {
    assert_eq!(render_browse_check("Loopback bind", &check("ok", "yes")), "  Loopback bind:    \u{2713} yes\n");
}

#[test]
fn go_names_of_platform() {
    assert_eq!(go_os_name("macos"), "darwin");
    assert_eq!(go_os_name("linux"), "linux");
    assert_eq!(go_arch_name("aarch64"), "arm64");
    assert_eq!(go_arch_name("x86_64"), "amd64");
    assert_eq!(go_arch_name("riscv64"), "riscv64");
}

#[test]
fn browse_readiness_reports_each_check() {
    let mut cfg = CtxToml::default();
    cfg.audit.enabled = true;
    cfg.security.secret_scan = true;
    let b = browse_readiness(&cfg, true, true, "/home/u/.ctx/audit.log", Ok(()), true);
    assert_eq!(b.loopback, check("ok", "127.0.0.1 is bindable; default browse target works"));
    assert_eq!(b.audit_writable, check("ok", "/home/u/.ctx/audit.log is writable"));
    assert_eq!(b.embedded_ui, check("ok", "SPA build (index.html + assets) embedded in binary"));
    assert_eq!(b.strict_offline, check("ok", "strict offline is on; ctx browse remains fully local"));
    assert!(b.recommendations.is_empty());

    let cfg = CtxToml::default();
    let b = browse_readiness(&cfg, false, false, "/a.log", Ok(()), false);
    assert_eq!(b.loopback.status, "fail");
    assert_eq!(
        b.audit_writable,
        check("warn", "/a.log writable but audit disabled; enable [audit].enabled or pass --audit")
    );
    assert_eq!(b.embedded_ui, check("fail", "ctx-web dist not embedded: index.html missing"));
    assert_eq!(b.strict_offline.status, "warn");
    assert_eq!(b.recommendations.len(), 2);

    let b = browse_readiness(&cfg, false, true, "/a.log", Err("permission denied".to_string()), true);
    assert_eq!(b.audit_writable, check("fail", "/a.log not writable: permission denied"));
}

#[test]
fn ctxignore_status_counts_rules() {
    assert_eq!(ctxignore_status_of("# comment\n\nvendor/\n  *.lock \n"), "present (2 rules)");
    assert_eq!(ctxignore_status_of(""), "present (0 rules)");
}

#[test]
fn audit_path_prefers_disable_then_env_then_config() {
    let mut cfg = AuditToml::default();
    assert_eq!(audit_path(false, None, &cfg), None);
    assert_eq!(audit_path(false, Some("/var/log/ctx.log"), &cfg), Some("/var/log/ctx.log".to_string()));
    assert_eq!(audit_path(true, Some("/var/log/ctx.log"), &cfg), None);
    cfg.enabled = true;
    assert_eq!(audit_path(false, Some(""), &cfg), Some("~/.ctx/audit.log".to_string()));
    cfg.path = String::new();
    assert_eq!(audit_path(false, None, &cfg), Some("~/.ctx/audit.log".to_string()));
    cfg.path = "~/logs/a.log".to_string();
    assert_eq!(audit_path(false, None, &cfg), Some("~/logs/a.log".to_string()));
}

#[test]
fn audit_status_names_log_and_state() {
    let mut cfg = AuditToml::default();
    assert_eq!(audit_status(Some("/h/.ctx/audit.log"), &cfg, "/h/.ctx/audit.log"), "/h/.ctx/audit.log (enabled)");
    assert_eq!(audit_status(None, &cfg, "/h/.ctx/audit.log"), "/h/.ctx/audit.log (disabled)");
    cfg.path = String::new();
    assert_eq!(audit_status(None, &cfg, ""), "~/.ctx/audit.log (disabled)");
}

#[test]
fn chain_status_describes_each_outcome() {
    let now = "2024-01-01T00:00:00Z";
    assert_eq!(chain_integrity_status(&ChainRead::Disabled, now), "\u{2014} (audit disabled)");
    assert_eq!(
        chain_integrity_status(&ChainRead::Checked(AuditVerifyResult { ok: true, total: 2, broken_at: 0, broken_end: 0 }), now),
        "\u{2713} (last verified 2024-01-01T00:00:00Z)"
    );
    assert_eq!(
        chain_integrity_status(&ChainRead::Checked(AuditVerifyResult { ok: false, total: 9, broken_at: 3, broken_end: 5 }), now),
        "\u{2717} broken range: 3-5"
    );
    assert_eq!(
        chain_integrity_status(&ChainRead::Checked(AuditVerifyResult { ok: false, total: 9, broken_at: 4, broken_end: 4 }), now),
        "\u{2717} broken at line 4"
    );
    assert_eq!(chain_integrity_status(&ChainRead::Missing, now), "\u{2014} (no audit log yet)");
    assert_eq!(chain_integrity_status(&ChainRead::Failed("denied".to_string()), now), "\u{2717} error: denied");
}

#[test]
fn components_and_strict_mode() {
    let cs = doctor_components();
    assert_eq!(cs.len(), 5);
    assert_eq!(cs[4], component("AI summary", "not implemented", "na", ""));
    let mut cfg = CtxToml::default();
    assert!(!strict_offline_on(false, false, &cfg));
    assert!(strict_offline_on(false, true, &cfg));
    cfg.security.strict_offline = true;
    assert!(strict_offline_on(false, false, &cfg));
}
