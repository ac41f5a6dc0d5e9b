//! The configuration that `ctx doctor` reads from `ctx.toml`, and the lines
//! of its report that follow from it.
use vstd::prelude::*;

use crate::cli::log::is;
use crate::text::{append_chars, append_str, chars_of, decimal, decimal_chars, string_of, views};

verus! {

/// The `[audit]` table of `ctx.toml`.
#[derive(Debug, Clone)]
pub struct AuditToml {
    pub enabled: bool,
    pub path: String,
    pub query_handling: String,
    pub mask_patterns: Vec<String>,
}

/// The `[security]` table of `ctx.toml`.
#[derive(Debug, Clone)]
pub struct SecurityToml {
    pub strict_offline: bool,
    pub secret_scan: bool,
    pub redact: bool,
    pub allowlist: Vec<String>,
    pub allowlist_files: Vec<String>,
    pub enable_entropy: bool,
}

/// The tables of `ctx.toml` that `ctx doctor` reads.
#[derive(Debug, Clone)]
pub struct CtxToml {
    pub audit: AuditToml,
    pub security: SecurityToml,
}

impl Default for AuditToml {
    /// Auditing off, with the log at `~/.ctx/audit.log` and queries kept raw.
    fn default() -> (r: Self)
        ensures
            !r.enabled,
            r.path@ == "~/.ctx/audit.log"@,
            r.query_handling@.len() == 0,
            r.mask_patterns@.len() == 0,
    {
        AuditToml {
            enabled: false,
            path: "~/.ctx/audit.log".to_owned(),
            query_handling: String::new(),
            mask_patterns: Vec::new(),
        }
    }
}

impl Default for SecurityToml {
    /// Secret scanning and redaction on; everything else off or empty.
    fn default() -> (r: Self)
        ensures
            !r.strict_offline,
            r.secret_scan,
            r.redact,
            r.allowlist@.len() == 0,
            r.allowlist_files@.len() == 0,
            !r.enable_entropy,
    {
        SecurityToml {
            strict_offline: false,
            secret_scan: true,
            redact: true,
            allowlist: Vec::new(),
            allowlist_files: Vec::new(),
            enable_entropy: false,
        }
    }
}

impl Default for CtxToml {
    /// Both tables at their defaults.
    fn default() -> (r: Self)
        ensures
            !r.audit.enabled,
            r.audit.path@ == "~/.ctx/audit.log"@,
            r.audit.query_handling@.len() == 0,
            r.audit.mask_patterns@.len() == 0,
            !r.security.strict_offline,
            r.security.secret_scan,
            r.security.redact,
            r.security.allowlist@.len() == 0,
            r.security.allowlist_files@.len() == 0,
            !r.security.enable_entropy,
    {
        CtxToml { audit: AuditToml::default(), security: SecurityToml::default() }
    }
}

/// The query-masking line: `raw` when no handling is set, the number of
/// mask patterns when queries are masked, else the handling as written.
pub open spec fn masking_text(handling: Seq<char>, patterns: nat) -> Seq<char> {
    if handling.len() == 0 {
        "raw"@
    } else if handling == "mask"@ {
        "mask ("@ + decimal(patterns) + " pattern(s))"@
    } else {
        handling
    }
}

/// How queries are recorded in the audit log (see [`masking_text`]).
pub fn query_masking_status(cfg: &AuditToml) -> (r: String)
    ensures
        r@ == masking_text(cfg.query_handling@, cfg.mask_patterns@.len()),
{
    let h = chars_of(cfg.query_handling.as_str());
    if h.len() == 0 {
        "raw".to_owned()
    } else if is(&h, "mask") {
        let mut out = chars_of("mask (");
        append_chars(&mut out, &decimal_chars(cfg.mask_patterns.len() as u64));
        append_str(&mut out, " pattern(s))");
        string_of(&out)
    } else {
        cfg.query_handling.clone()
    }
}

/// The advice for audit logging off.
pub open spec fn audit_advice() -> Seq<char> {
    "Team mode: set [audit].enabled = true so every `ctx browse` request is traceable."@
}

/// The advice for strict offline mode off.
pub open spec fn offline_advice() -> Seq<char> {
    "Regulated industries: set [security].strict_offline = true for a defensible offline posture."@
}

/// The advice for secret scanning off.
pub open spec fn secret_advice() -> Seq<char> {
    "Enable [security].secret_scan so served files redact tokens before reaching the browser."@
}

/// The browse recommendations, in order: one for each of auditing, strict
/// offline mode and secret scanning that is off.
pub open spec fn recommendations(audit: bool, strict: bool, secret_scan: bool) -> Seq<Seq<char>> {
    (if audit {
        Seq::empty()
    } else {
        seq![audit_advice()]
    }) + (if strict {
        Seq::empty()
    } else {
        seq![offline_advice()]
    }) + (if secret_scan {
        Seq::empty()
    } else {
        seq![secret_advice()]
    })
}

/// The recommendations for `ctx browse` (see [`recommendations`]).
pub fn browse_recommendations(cfg: &CtxToml, strict: bool) -> (r: Vec<String>)
    ensures
        crate::text::views(r@) == recommendations(cfg.audit.enabled, strict, cfg.security.secret_scan),
{
    let mut recs: Vec<String> = Vec::new();
    let ghost g0 = crate::text::views(recs@);
    if !cfg.audit.enabled {
        recs.push(
            "Team mode: set [audit].enabled = true so every `ctx browse` request is traceable.".to_owned(),
        );
    }
    let ghost g1 = crate::text::views(recs@);
    assert(g1 =~= g0 + (if cfg.audit.enabled { Seq::empty() } else { seq![audit_advice()] }));
    if !strict {
        recs.push(
            "Regulated industries: set [security].strict_offline = true for a defensible offline posture.".to_owned(),
        );
    }
    let ghost g2 = crate::text::views(recs@);
    assert(g2 =~= g1 + (if strict { Seq::empty() } else { seq![offline_advice()] }));
    if !cfg.security.secret_scan {
        recs.push(
            "Enable [security].secret_scan so served files redact tokens before reaching the browser.".to_owned(),
        );
    }
    let ghost g3 = crate::text::views(recs@);
    assert(g3 =~= g2 + (if cfg.security.secret_scan { Seq::empty() } else { seq![secret_advice()] }));
    assert(g0 =~= Seq::<Seq<char>>::empty());
    recs
}

/// What the arguments of `ctx doctor` read so far have set.
pub struct DoctorScan {
    pub saw: bool,
    pub json: bool,
    pub strict_offline: bool,
    pub positionals: Seq<Seq<char>>,
}

/// Reads the arguments from `i` on; `None` when one is refused.
pub open spec fn doctor_scan(args: Seq<Seq<char>>, i: int, st: DoctorScan) -> Option<DoctorScan>
    decreases args.len() - i,
{
    if i < 0 || i >= args.len() {
        Some(st)
    } else {
        let a = args[i];
        if a == "doctor"@ {
            if st.saw {
                None
            } else {
                doctor_scan(args, i + 1, DoctorScan { saw: true, ..st })
            }
        } else if a == "--json"@ {
            doctor_scan(args, i + 1, DoctorScan { json: true, ..st })
        } else if a == "--strict-offline"@ {
            doctor_scan(args, i + 1, DoctorScan { strict_offline: true, ..st })
        } else if a.len() > 0 && a[0] == '-' {
            None
        } else if st.saw {
            doctor_scan(args, i + 1, DoctorScan { positionals: st.positionals.push(a), ..st })
        } else {
            None
        }
    }
}

/// The options of `ctx doctor`, by view.
pub struct DoctorArgsView {
    pub root: Seq<char>,
    pub json: bool,
    pub strict_offline: bool,
}

/// What a command line asks of `ctx doctor`: `None` unless it names
/// `doctor` once, with at most one root (`.` when none) and known flags.
pub open spec fn doctor_request(args: Seq<Seq<char>>) -> Option<DoctorArgsView> {
    match doctor_scan(args, 0, DoctorScan { saw: false, json: false, strict_offline: false, positionals: Seq::empty() }) {
        None => None,
        Some(st) => if !st.saw || st.positionals.len() > 1 {
            None
        } else {
            Some(
                DoctorArgsView {
                    root: if st.positionals.len() == 1 {
                        st.positionals[0]
                    } else {
                        "."@
                    },
                    json: st.json,
                    strict_offline: st.strict_offline,
                },
            )
        },
    }
}

/// The options of `ctx doctor`.
#[derive(Debug, Clone, PartialEq, Eq)]
pub struct DoctorArgs {
    pub root: String,
    pub json: bool,
    pub strict_offline: bool,
}

/// Reads the command line of `ctx doctor` (see [`doctor_request`]).
pub fn parse_doctor_args(args: &[String]) -> (r: Option<DoctorArgs>)
    ensures
        match r {
            Some(d) => doctor_request(views(args@)) == Some(
                DoctorArgsView { root: d.root@, json: d.json, strict_offline: d.strict_offline },
            ),
            None => doctor_request(views(args@)) is None,
        },
{
    let ghost all = views(args@);
    let mut saw = false;
    let mut json = false;
    let mut strict_offline = false;
    let mut positionals: Vec<String> = Vec::new();
    let mut i: usize = 0;
    assert(views(positionals@) =~= Seq::<Seq<char>>::empty());
    while i < args.len()
        invariant
            all == views(args@),
            i <= args.len(),
            doctor_scan(all, 0, DoctorScan { saw: false, json: false, strict_offline: false, positionals: Seq::empty() })
                == doctor_scan(
                all,
                i as int,
                DoctorScan { saw, json, strict_offline, positionals: views(positionals@) },
            ),
        decreases args.len() - i,
    {
        let arg = &args[i];
        let a = chars_of(arg.as_str());
        assert(a@ == all[i as int]);
        if is(&a, "doctor") {
            if saw {
                return None;
            }
            saw = true;
        } else if is(&a, "--json") {
            json = true;
        } else if is(&a, "--strict-offline") {
            strict_offline = true;
        } else if a.len() > 0 && a[0] == '-' {
            return None;
        } else if saw {
            let ghost before = views(positionals@);
            positionals.push(arg.clone());
            assert(views(positionals@) =~= before.push(a@));
        } else {
            return None;
        }
        i = i + 1;
    }
    if !saw || positionals.len() > 1 {
        return None;
    }
    let root = if positionals.len() == 1 {
        positionals[0].clone()
    } else {
        ".".to_owned()
    };
    Some(DoctorArgs { root, json, strict_offline })
}

} // verus!
