//! The text report of `ctx doctor`: the system, the components, the strict
//! offline mode, the configuration and whether `ctx browse` can start.
use vstd::prelude::*;

use crate::cli::digest::{pad_right, push_pad_right};
use crate::cli::audit::AuditVerifyResult;
use crate::cli::doctor::{browse_recommendations, recommendations, AuditToml, CtxToml};
use crate::text::{
    append_chars, append_str, chars_eq, chars_of, decimal, decimal_chars, split_on, split_on_exec,
    string_of, trim, trim_exec, vec_views, views,
};

verus! {

/// The runtime and the platform it runs on.
#[derive(Debug, Clone, PartialEq, Eq)]
pub struct DoctorSystem {
    pub runtime: String,
    pub platform: String,
}

/// A component of ctx and whether this build has it (`na` when not).
#[derive(Debug, Clone, PartialEq, Eq)]
pub struct DoctorComponent {
    pub name: String,
    pub detail: String,
    pub status: String,
    pub note: String,
}

/// The strict offline flag and what it guarantees.
#[derive(Debug, Clone, PartialEq, Eq)]
pub struct DoctorStrictOffline {
    pub flag_value: bool,
    pub capability: String,
}

/// The state of each configuration file and setting.
#[derive(Debug, Clone, PartialEq, Eq)]
pub struct DoctorConfiguration {
    pub ctx_toml: String,
    pub audit_log: String,
    pub chain_integrity: String,
    pub query_masking: String,
    pub ctxignore: String,
}

/// One readiness check: `ok`, `warn`, `fail` or another status, and what
/// was found.
#[derive(Debug, Clone, PartialEq, Eq)]
pub struct DoctorCheck {
    pub status: String,
    pub detail: String,
}

/// Whether `ctx browse` can start, and what to change when it cannot.
#[derive(Debug, Clone, PartialEq, Eq)]
pub struct DoctorBrowse {
    pub loopback: DoctorCheck,
    pub audit_writable: DoctorCheck,
    pub embedded_ui: DoctorCheck,
    pub strict_offline: DoctorCheck,
    pub recommendations: Vec<String>,
}

/// Everything `ctx doctor` reports.
#[derive(Debug, Clone, PartialEq, Eq)]
pub struct DoctorReport {
    pub system: DoctorSystem,
    pub components: Vec<DoctorComponent>,
    pub strict_offline: DoctorStrictOffline,
    pub configuration: DoctorConfiguration,
    pub browse: DoctorBrowse,
}

/// The mark of a check's status: a tick, a warning sign, a cross, or a
/// dash for any other status.
pub open spec fn check_mark(status: Seq<char>) -> Seq<char> {
    if status == "ok"@ {
        "\u{2713}"@
    } else if status == "warn"@ {
        "\u{26a0}"@
    } else if status == "fail"@ {
        "\u{2717}"@
    } else {
        "\u{2014}"@
    }
}

/// The line of a readiness check: the label and a colon padded to 17
/// characters, the mark and the detail.
pub open spec fn check_line(label: Seq<char>, c: DoctorCheck) -> Seq<char> {
    "  "@ + pad_right(label + ":"@, 17) + " "@ + check_mark(c.status@) + " "@ + c.detail@ + "\n"@
}

/// The line of a component: its name and a colon padded to 17 characters,
/// its detail padded to 31, a tick (a dash for `na`) and its note in
/// brackets when it has one.
pub open spec fn component_line(c: DoctorComponent) -> Seq<char> {
    "  "@ + pad_right(c.name@ + ":"@, 17) + " "@ + pad_right(c.detail@, 31) + " "@ + (if c.status@
        == "na"@ {
        "\u{2014}"@
    } else {
        "\u{2713}"@
    }) + (if c.note@.len() == 0 {
        Seq::<char>::empty()
    } else {
        " ("@ + c.note@ + ")"@
    }) + "\n"@
}

/// The lines of the first `n` components.
pub open spec fn component_lines(cs: Seq<DoctorComponent>, n: int) -> Seq<char>
    decreases n,
{
    if n <= 0 {
        Seq::<char>::empty()
    } else {
        component_lines(cs, n - 1) + component_line(cs[n - 1])
    }
}

/// The lines of the first `n` recommendations.
pub open spec fn recommendation_lines(rs: Seq<String>, n: int) -> Seq<char>
    decreases n,
{
    if n <= 0 {
        Seq::<char>::empty()
    } else {
        recommendation_lines(rs, n - 1) + "    - "@ + rs[n - 1]@ + "\n"@
    }
}

/// `true` or `false`.
pub open spec fn bool_text(b: bool) -> Seq<char> {
    if b {
        "true"@
    } else {
        "false"@
    }
}

/// The system section and the heading of the components.
pub open spec fn system_text(s: DoctorSystem) -> Seq<char> {
    "System\n  Runtime:           "@ + s.runtime@ + "\n  Platform:          "@ + s.platform@
        + "\n\nComponents\n"@
}

/// The strict offline and configuration sections.
pub open spec fn settings_text(so: DoctorStrictOffline, c: DoctorConfiguration) -> Seq<char> {
    "\nStrict offline\n  Flag value:        "@ + bool_text(so.flag_value) + "\n  Capability:        \u{2713} "@
        + so.capability@ + "\n\nConfiguration\n  ctx.toml:          "@ + c.ctx_toml@
        + "\n  Audit log:         "@ + c.audit_log@ + "\n  Chain integrity:   "@ + c.chain_integrity@
        + "\n  Query masking:     "@ + c.query_masking@ + "\n  .ctxignore:        "@ + c.ctxignore@
        + "\n\n"@
}

/// The browse readiness section.
pub open spec fn browse_text(b: DoctorBrowse) -> Seq<char> {
    "Browse readiness\n"@ + check_line("Loopback bind"@, b.loopback) + check_line(
        "Audit writable"@,
        b.audit_writable,
    ) + check_line("Embedded UI"@, b.embedded_ui) + check_line("Strict offline"@, b.strict_offline)
        + (if b.recommendations.len() == 0 {
        Seq::<char>::empty()
    } else {
        "  Recommendations:\n"@ + recommendation_lines(
            b.recommendations@,
            b.recommendations.len() as int,
        )
    })
}

/// The whole report.
pub open spec fn doctor_text(r: DoctorReport) -> Seq<char> {
    system_text(r.system) + component_lines(r.components@, r.components.len() as int)
        + settings_text(r.strict_offline, r.configuration) + browse_text(r.browse)
}

/// The mark of a check's status (see [`check_mark`]).
fn check_mark_exec(status: &str) -> (r: &'static str)
    ensures
        r@ == check_mark(status@),
{
    let s = chars_of(status);
    if chars_eq(&s, &chars_of("ok")) {
        "\u{2713}"
    } else if chars_eq(&s, &chars_of("warn")) {
        "\u{26a0}"
    } else if chars_eq(&s, &chars_of("fail")) {
        "\u{2717}"
    } else {
        "\u{2014}"
    }
}

/// The line of a readiness check (see [`check_line`]).
pub fn render_browse_check(label: &str, check: &DoctorCheck) -> (r: String)
    ensures
        r@ == check_line(label@, *check),
{
    let mut out: Vec<char> = Vec::new();
    append_str(&mut out, "  ");
    let mut head = chars_of(label);
    head.push(':');
    proof {
        reveal_strlit(":");
    }
    assert(head@ =~= label@ + ":"@);
    push_pad_right(&mut out, &head, 17);
    append_str(&mut out, " ");
    append_str(&mut out, check_mark_exec(check.status.as_str()));
    append_str(&mut out, " ");
    append_str(&mut out, check.detail.as_str());
    append_str(&mut out, "\n");
    assert(out@ =~= check_line(label@, *check));
    string_of(&out)
}

/// Appends the line of a component (see [`component_line`]).
fn push_component_line(out: &mut Vec<char>, c: &DoctorComponent)
    ensures
        final(out)@ == old(out)@ + component_line(*c),
{
    let ghost start = old(out)@;
    append_str(out, "  ");
    let mut head = chars_of(c.name.as_str());
    head.push(':');
    proof {
        reveal_strlit(":");
    }
    assert(head@ =~= c.name@ + ":"@);
    push_pad_right(out, &head, 17);
    append_str(out, " ");
    push_pad_right(out, &chars_of(c.detail.as_str()), 31);
    append_str(out, " ");
    if chars_eq(&chars_of(c.status.as_str()), &chars_of("na")) {
        append_str(out, "\u{2014}");
    } else {
        append_str(out, "\u{2713}");
    }
    if !c.note.as_str().is_empty() {
        append_str(out, " (");
        append_str(out, c.note.as_str());
        append_str(out, ")");
    }
    append_str(out, "\n");
    assert(out@ =~= start + component_line(*c));
}

/// Appends the strict offline and configuration sections (see
/// [`settings_text`]).
fn push_settings(out: &mut Vec<char>, so: &DoctorStrictOffline, c: &DoctorConfiguration)
    ensures
        final(out)@ == old(out)@ + settings_text(*so, *c),
{
    let ghost start = old(out)@;
    append_str(out, "\nStrict offline\n  Flag value:        ");
    if so.flag_value {
        append_str(out, "true");
    } else {
        append_str(out, "false");
    }
    append_str(out, "\n  Capability:        \u{2713} ");
    append_str(out, so.capability.as_str());
    append_str(out, "\n\nConfiguration\n  ctx.toml:          ");
    append_str(out, c.ctx_toml.as_str());
    append_str(out, "\n  Audit log:         ");
    append_str(out, c.audit_log.as_str());
    append_str(out, "\n  Chain integrity:   ");
    append_str(out, c.chain_integrity.as_str());
    append_str(out, "\n  Query masking:     ");
    append_str(out, c.query_masking.as_str());
    append_str(out, "\n  .ctxignore:        ");
    append_str(out, c.ctxignore.as_str());
    append_str(out, "\n\n");
    assert(out@ =~= start + settings_text(*so, *c));
}

/// Appends the browse readiness section (see [`browse_text`]).
fn push_browse(out: &mut Vec<char>, b: &DoctorBrowse)
    ensures
        final(out)@ == old(out)@ + browse_text(*b),
{
    let ghost start = old(out)@;
    append_str(out, "Browse readiness\n");
    append_str(out, render_browse_check("Loopback bind", &b.loopback).as_str());
    append_str(out, render_browse_check("Audit writable", &b.audit_writable).as_str());
    append_str(out, render_browse_check("Embedded UI", &b.embedded_ui).as_str());
    append_str(out, render_browse_check("Strict offline", &b.strict_offline).as_str());
    let ghost checks = out@;
    if b.recommendations.len() > 0 {
        append_str(out, "  Recommendations:\n");
        let ghost head = out@;
        let mut i: usize = 0;
        while i < b.recommendations.len()
            invariant
                i <= b.recommendations.len(),
                out@ == head + recommendation_lines(b.recommendations@, i as int),
            decreases b.recommendations.len() - i,
        {
            append_str(out, "    - ");
            append_str(out, b.recommendations[i].as_str());
            append_str(out, "\n");
            i = i + 1;
            assert(out@ =~= head + recommendation_lines(b.recommendations@, i as int));
        }
    }
    assert(out@ =~= start + browse_text(*b));
}

/// The text report of `ctx doctor` (see [`doctor_text`]).
pub fn render_doctor(report: &DoctorReport) -> (r: String)
    ensures
        r@ == doctor_text(*report),
{
    let mut out: Vec<char> = Vec::new();
    append_str(&mut out, "System\n  Runtime:           ");
    append_str(&mut out, report.system.runtime.as_str());
    append_str(&mut out, "\n  Platform:          ");
    append_str(&mut out, report.system.platform.as_str());
    append_str(&mut out, "\n\nComponents\n");
    assert(out@ =~= system_text(report.system));
    let ghost head = out@;
    let mut i: usize = 0;
    while i < report.components.len()
        invariant
            i <= report.components.len(),
            out@ == head + component_lines(report.components@, i as int),
        decreases report.components.len() - i,
    {
        push_component_line(&mut out, &report.components[i]);
        i = i + 1;
        assert(out@ =~= head + component_lines(report.components@, i as int));
    }
    push_settings(&mut out, &report.strict_offline, &report.configuration);
    push_browse(&mut out, &report.browse);
    assert(out@ =~= doctor_text(*report));
    string_of(&out)
}

/// The name Go gives an operating system: `darwin` for macOS, else the
/// name itself.
pub open spec fn go_os(os: Seq<char>) -> Seq<char> {
    if os == "macos"@ {
        "darwin"@
    } else {
        os
    }
}

/// The name Go gives an operating system (see [`go_os`]).
pub fn go_os_name(os: &str) -> (r: String)
    ensures
        r@ == go_os(os@),
{
    if chars_eq(&chars_of(os), &chars_of("macos")) {
        string_of(&chars_of("darwin"))
    } else {
        string_of(&chars_of(os))
    }
}

/// The name Go gives an architecture: `arm64` for `aarch64`, `amd64` for
/// `x86_64`, else the name itself.
pub open spec fn go_arch(arch: Seq<char>) -> Seq<char> {
    if arch == "aarch64"@ {
        "arm64"@
    } else if arch == "x86_64"@ {
        "amd64"@
    } else {
        arch
    }
}

/// The name Go gives an architecture (see [`go_arch`]).
pub fn go_arch_name(arch: &str) -> (r: String)
    ensures
        r@ == go_arch(arch@),
{
    let a = chars_of(arch);
    if chars_eq(&a, &chars_of("aarch64")) {
        string_of(&chars_of("arm64"))
    } else if chars_eq(&a, &chars_of("x86_64")) {
        string_of(&chars_of("amd64"))
    } else {
        string_of(&a)
    }
}

/// The check holds `status` and `detail`.
pub open spec fn check_is(c: DoctorCheck, status: Seq<char>, detail: Seq<char>) -> bool {
    c.status@ == status && c.detail@ == detail
}

/// A check of the given status and detail.
fn make_check(status: &str, detail: Vec<char>) -> (r: DoctorCheck)
    ensures
        check_is(r, status@, detail@),
{
    DoctorCheck { status: string_of(&chars_of(status)), detail: string_of(&detail) }
}

/// The readiness of `ctx browse` from what was found: whether 127.0.0.1
/// could be bound, whether the audit log at `audit_path` can be written
/// (the error when not), whether the web UI is embedded, and the strict
/// offline flag. An audit log that is writable warns when auditing is off.
pub fn browse_readiness(
    cfg: &CtxToml,
    strict: bool,
    loopback_ok: bool,
    audit_path: &str,
    writable: Result<(), String>,
    ui_embedded: bool,
) -> (r: DoctorBrowse)
    ensures
        if loopback_ok {
            check_is(r.loopback, "ok"@, "127.0.0.1 is bindable; default browse target works"@)
        } else {
            check_is(
                r.loopback,
                "fail"@,
                "127.0.0.1 unavailable; ctx browse will fail without --bind override"@,
            )
        },
        match writable {
            Ok(_) => if cfg.audit.enabled {
                check_is(r.audit_writable, "ok"@, audit_path@ + " is writable"@)
            } else {
                check_is(
                    r.audit_writable,
                    "warn"@,
                    audit_path@ + " writable but audit disabled; enable [audit].enabled or pass --audit"@,
                )
            },
            Err(e) => check_is(r.audit_writable, "fail"@, audit_path@ + " not writable: "@ + e@),
        },
        if ui_embedded {
            check_is(r.embedded_ui, "ok"@, "SPA build (index.html + assets) embedded in binary"@)
        } else {
            check_is(r.embedded_ui, "fail"@, "ctx-web dist not embedded: index.html missing"@)
        },
        if strict {
            check_is(r.strict_offline, "ok"@, "strict offline is on; ctx browse remains fully local"@)
        } else {
            check_is(
                r.strict_offline,
                "warn"@,
                "strict offline is off; ctx browse is still local but other ctx features may not be"@,
            )
        },
        views(r.recommendations@) == recommendations(cfg.audit.enabled, strict, cfg.security.secret_scan),
{
    let loopback = if loopback_ok {
        make_check("ok", chars_of("127.0.0.1 is bindable; default browse target works"))
    } else {
        make_check("fail", chars_of("127.0.0.1 unavailable; ctx browse will fail without --bind override"))
    };
    let mut detail = chars_of(audit_path);
    let audit_writable = match &writable {
        Ok(_) => if cfg.audit.enabled {
            append_str(&mut detail, " is writable");
            make_check("ok", detail)
        } else {
            append_str(&mut detail, " writable but audit disabled; enable [audit].enabled or pass --audit");
            make_check("warn", detail)
        },
        Err(e) => {
            append_str(&mut detail, " not writable: ");
            append_str(&mut detail, e.as_str());
            make_check("fail", detail)
        },
    };
    let embedded_ui = if ui_embedded {
        make_check("ok", chars_of("SPA build (index.html + assets) embedded in binary"))
    } else {
        make_check("fail", chars_of("ctx-web dist not embedded: index.html missing"))
    };
    let strict_offline = if strict {
        make_check("ok", chars_of("strict offline is on; ctx browse remains fully local"))
    } else {
        make_check(
            "warn",
            chars_of("strict offline is off; ctx browse is still local but other ctx features may not be"),
        )
    };
    DoctorBrowse {
        loopback,
        audit_writable,
        embedded_ui,
        strict_offline,
        recommendations: browse_recommendations(cfg, strict),
    }
}

/// The rules of a `.ctxignore` body: its lines that, trimmed, are neither
/// empty nor comments.
pub open spec fn rule_count(lines: Seq<Seq<char>>) -> nat
    decreases lines.len(),
{
    if lines.len() == 0 {
        0
    } else {
        rule_count(lines.drop_last()) + if trim(lines.last()).len() > 0 && trim(lines.last())[0] != '#' {
            1nat
        } else {
            0nat
        }
    }
}

/// What the doctor says of a `.ctxignore` body: how many rules it holds.
pub fn ctxignore_status_of(body: &str) -> (r: String)
    ensures
        r@ == "present ("@ + decimal(rule_count(split_on(body@, '\n'))) + " rules)"@,
{
    let lines = split_on_exec(&chars_of(body), '\n');
    let ghost ls = vec_views(lines@);
    let mut n: usize = 0;
    let mut i: usize = 0;
    assert(ls.take(0) =~= Seq::<Seq<char>>::empty());
    while i < lines.len()
        invariant
            i <= lines.len(),
            ls == vec_views(lines@),
            n == rule_count(ls.take(i as int)),
            n <= i,
        decreases lines.len() - i,
    {
        assert(ls.take(i + 1).drop_last() =~= ls.take(i as int));
        let t = trim_exec(&lines[i]);
        if t.len() > 0 && t[0] != '#' {
            n = n + 1;
        }
        i = i + 1;
    }
    assert(ls.take(lines.len() as int) =~= ls);
    let mut out = chars_of("present (");
    append_chars(&mut out, &decimal_chars(n as u64));
    append_str(&mut out, " rules)");
    string_of(&out)
}

/// A component of the report.
pub open spec fn component_is(c: DoctorComponent, name: Seq<char>, detail: Seq<char>, status: Seq<char>, note: Seq<char>) -> bool {
    c.name@ == name && c.detail@ == detail && c.status@ == status && c.note@ == note
}

/// A component with the given texts.
fn make_component(name: &str, detail: &str, status: &str, note: &str) -> (r: DoctorComponent)
    ensures
        component_is(r, name@, detail@, status@, note@),
{
    DoctorComponent {
        name: string_of(&chars_of(name)),
        detail: string_of(&chars_of(detail)),
        status: string_of(&chars_of(status)),
        note: string_of(&chars_of(note)),
    }
}

/// The components the doctor lists: the local tokenizer and grammars, the
/// native git reader, the stdio MCP transport, and the AI summary, which
/// does not exist.
pub fn doctor_components() -> (r: Vec<DoctorComponent>)
    ensures
        r.len() == 5,
        component_is(r[0], "Tokenizer"@, "ctx-tokens / cl100k_base (local)"@, "ok"@, "local"@),
        component_is(r[1], "Tree-sitter"@, "vendored C grammars (no CGO)"@, "ok"@, "local"@),
        component_is(r[2], "Git"@, "ctx-git (native Rust object reader)"@, "ok"@, ""@),
        component_is(r[3], "MCP transport"@, "stdio"@, "ok"@, "no network"@),
        component_is(r[4], "AI summary"@, "not implemented"@, "na"@, ""@),
{
    let mut v: Vec<DoctorComponent> = Vec::new();
    v.push(make_component("Tokenizer", "ctx-tokens / cl100k_base (local)", "ok", "local"));
    v.push(make_component("Tree-sitter", "vendored C grammars (no CGO)", "ok", "local"));
    v.push(make_component("Git", "ctx-git (native Rust object reader)", "ok", ""));
    v.push(make_component("MCP transport", "stdio", "ok", "no network"));
    v.push(make_component("AI summary", "not implemented", "na", ""));
    v
}

/// The audit log in use, before `~` is expanded: none when auditing is
/// disabled through the environment (`disabled`), the log the environment
/// names when it names one, else the configured log (the default one when
/// none is configured) when auditing is enabled, else none.
pub open spec fn audit_log_choice(disabled: bool, env_log: Option<Seq<char>>, enabled: bool, cfg_path: Seq<char>) -> Option<Seq<char>> {
    if disabled {
        None
    } else if env_log matches Some(p) && p.len() > 0 {
        env_log
    } else if enabled {
        Some(if cfg_path.len() == 0 {
            "~/.ctx/audit.log"@
        } else {
            cfg_path
        })
    } else {
        None
    }
}

/// The audit log in use, before `~` is expanded (see [`audit_log_choice`]);
/// `disabled` is whether `CTX_AUDIT_DISABLE` is `1`, `env_log` the value of
/// `CTX_AUDIT_LOG`.
pub fn audit_path(disabled: bool, env_log: Option<&str>, cfg: &AuditToml) -> (r: Option<String>)
    ensures
        (match r {
            Some(p) => Some(p@),
            None => None::<Seq<char>>,
        }) == audit_log_choice(
            disabled,
            match env_log {
                Some(e) => Some(e@),
                None => None::<Seq<char>>,
            },
            cfg.enabled,
            cfg.path@,
        ),
{
    if disabled {
        return None;
    }
    if let Some(e) = env_log {
        if !e.is_empty() {
            return Some(string_of(&chars_of(e)));
        }
    }
    if cfg.enabled {
        if cfg.path.as_str().is_empty() {
            Some(string_of(&chars_of("~/.ctx/audit.log")))
        } else {
            Some(cfg.path.clone())
        }
    } else {
        None
    }
}

/// What the doctor says of the audit log: the log in use (expanded) and
/// that it is enabled, else the configured log (expanded, when one is
/// configured) and that it is disabled.
pub open spec fn audit_status_text(active: Option<Seq<char>>, cfg_path: Seq<char>, cfg_expanded: Seq<char>) -> Seq<char> {
    match active {
        Some(p) => p + " (enabled)"@,
        None => if cfg_path.len() > 0 {
            cfg_expanded + " (disabled)"@
        } else {
            "~/.ctx/audit.log (disabled)"@
        },
    }
}

/// What the doctor says of the audit log (see [`audit_status_text`]);
/// `active` is the log in use with `~` expanded, `cfg_expanded` the
/// configured log with `~` expanded.
pub fn audit_status(active: Option<&str>, cfg: &AuditToml, cfg_expanded: &str) -> (r: String)
    ensures
        r@ == audit_status_text(
            match active {
                Some(p) => Some(p@),
                None => None::<Seq<char>>,
            },
            cfg.path@,
            cfg_expanded@,
        ),
{
    let mut out: Vec<char> = Vec::new();
    match active {
        Some(p) => {
            append_str(&mut out, p);
            append_str(&mut out, " (enabled)");
        },
        None => {
            if !cfg.path.as_str().is_empty() {
                append_str(&mut out, cfg_expanded);
                append_str(&mut out, " (disabled)");
            } else {
                append_str(&mut out, "~/.ctx/audit.log (disabled)");
            }
        },
    }
    string_of(&out)
}

/// What reading the audit log for its chain gave.
#[derive(Debug, Clone, PartialEq, Eq)]
pub enum ChainRead {
    /// Auditing is disabled.
    Disabled,
    /// The log was read and checked.
    Checked(AuditVerifyResult),
    /// There is no log yet.
    Missing,
    /// The log could not be read.
    Failed(String),
}

/// What the doctor says of the audit chain; `now` is the time of the
/// check.
pub open spec fn chain_status_text(read: ChainRead, now: Seq<char>) -> Seq<char> {
    match read {
        ChainRead::Disabled => "\u{2014} (audit disabled)"@,
        ChainRead::Checked(r) => if r.ok {
            "\u{2713} (last verified "@ + now + ")"@
        } else if r.broken_end > r.broken_at {
            "\u{2717} broken range: "@ + decimal(r.broken_at as nat) + "-"@ + decimal(r.broken_end as nat)
        } else {
            "\u{2717} broken at line "@ + decimal(r.broken_at as nat)
        },
        ChainRead::Missing => "\u{2014} (no audit log yet)"@,
        ChainRead::Failed(e) => "\u{2717} error: "@ + e@,
    }
}

/// What the doctor says of the audit chain (see [`chain_status_text`]).
pub fn chain_integrity_status(read: &ChainRead, now: &str) -> (r: String)
    ensures
        r@ == chain_status_text(*read, now@),
{
    let mut out: Vec<char> = Vec::new();
    match read {
        ChainRead::Disabled => append_str(&mut out, "\u{2014} (audit disabled)"),
        ChainRead::Checked(r) => {
            if r.ok {
                append_str(&mut out, "\u{2713} (last verified ");
                append_str(&mut out, now);
                append_str(&mut out, ")");
            } else if r.broken_end > r.broken_at {
                append_str(&mut out, "\u{2717} broken range: ");
                append_chars(&mut out, &decimal_chars(r.broken_at as u64));
                append_str(&mut out, "-");
                append_chars(&mut out, &decimal_chars(r.broken_end as u64));
            } else {
                append_str(&mut out, "\u{2717} broken at line ");
                append_chars(&mut out, &decimal_chars(r.broken_at as u64));
            }
        },
        ChainRead::Missing => append_str(&mut out, "\u{2014} (no audit log yet)"),
        ChainRead::Failed(e) => {
            append_str(&mut out, "\u{2717} error: ");
            append_str(&mut out, e.as_str());
        },
    }
    string_of(&out)
}

/// The strict offline mode is on: by the flag, by `CTX_STRICT_OFFLINE=1`
/// (`env_on`) or by the configuration.
pub fn strict_offline_on(flag: bool, env_on: bool, cfg: &CtxToml) -> (r: bool)
    ensures
        r == (flag || env_on || cfg.security.strict_offline),
{
    flag || env_on || cfg.security.strict_offline
}

} // verus!
