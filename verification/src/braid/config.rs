//! The structural rules of a braid configuration, and the sorted list of its
//! strand names.
//!
//! A strand's share is a floating-point number that the library does not
//! hold; what the rules read of it, whether it lies in `(0, 1]`, comes in
//! as `share_in_range`.
use vstd::prelude::*;

use crate::braid::policy::{is_supported, strand_subcommand, subcommand_of, is_supported_source};
use crate::braid::types::{policy_from_text, PolicyKind, PolicyKindOrEmpty};
use crate::order::{sort_strings, sorted_by_lex, string_views};
use crate::text::{
    append_chars, append_str, chars_of, decimal, decimal_chars, is_ws, is_ws_exec, push_signed,
    signed_decimal, string_of,
};

verus! {

/// The current `braid.toml` schema version.
pub const SCHEMA_VERSION: i64 = 1;

/// One `[[strand]]` entry, as the rules read it.
#[derive(Debug, Clone, PartialEq)]
pub struct Strand {
    pub name: String,
    pub source: String,
    /// Whether the declared share lies in `(0, 1]`.
    pub share_in_range: bool,
    /// The declared share as the error message shows it.
    pub share_text: String,
    pub policy: PolicyKindOrEmpty,
}

/// A `braid.toml` document.
#[derive(Debug, Clone, PartialEq)]
pub struct Config {
    pub schema_version: i64,
    pub strands: Vec<Strand>,
}

/// Why a configuration was rejected.
#[derive(Debug, Clone, PartialEq, Eq)]
pub enum ConfigError {
    Read(String),
    Parse(String),
    SchemaTooNew(i64),
    NoStrands,
    StrandNameRequired(usize),
    DuplicateStrandName(String),
    SourceRequired(String),
    /// The strand named `strand` has a share outside `(0, 1]`; `share` is
    /// that share as text.
    ShareOutOfRange { strand: String, share: String },
    UnknownPolicy { strand: String, policy: String },
    UnsupportedSource { strand: String, source: String },
    UnclosedQuote(String),
}

/// A configuration error by view.
pub enum ErrorView {
    SchemaTooNew(int),
    NoStrands,
    StrandNameRequired(int),
    DuplicateStrandName(Seq<char>),
    SourceRequired(Seq<char>),
    ShareOutOfRange(Seq<char>, Seq<char>),
    UnsupportedSource(Seq<char>, Seq<char>),
    Other,
}

/// The view of a configuration error.
pub open spec fn error_view(e: ConfigError) -> ErrorView {
    match e {
        ConfigError::SchemaTooNew(v) => ErrorView::SchemaTooNew(v as int),
        ConfigError::NoStrands => ErrorView::NoStrands,
        ConfigError::StrandNameRequired(i) => ErrorView::StrandNameRequired(i as int),
        ConfigError::DuplicateStrandName(n) => ErrorView::DuplicateStrandName(n@),
        ConfigError::SourceRequired(n) => ErrorView::SourceRequired(n@),
        ConfigError::ShareOutOfRange { strand, share } => ErrorView::ShareOutOfRange(
            strand@,
            share@,
        ),
        ConfigError::UnsupportedSource { strand, source } => ErrorView::UnsupportedSource(
            strand@,
            source@,
        ),
        _ => ErrorView::Other,
    }
}

/// The message a configuration error reads as.
pub open spec fn error_text(e: ConfigError) -> Seq<char> {
    match e {
        ConfigError::Read(s) => s@,
        ConfigError::Parse(s) => "parse braid toml: "@ + s@,
        ConfigError::SchemaTooNew(v) => "braid: schema_version "@ + signed_decimal(v as int)
            + " not supported (max 1)"@,
        ConfigError::NoStrands => "braid: at least one [[strand]] is required"@,
        ConfigError::StrandNameRequired(i) => "braid: strand["@ + decimal(i as nat)
            + "].name is required"@,
        ConfigError::DuplicateStrandName(name) => "braid: duplicate strand name \""@ + name@
            + "\""@,
        ConfigError::SourceRequired(name) => "braid: strand \""@ + name@
            + "\": source is required"@,
        ConfigError::ShareOutOfRange { strand, share } => "braid: strand \""@ + strand@
            + "\": share must be in (0, 1], got "@ + share@,
        ConfigError::UnknownPolicy { strand, policy } => "braid: strand \""@ + strand@
            + "\": unknown policy \""@ + policy@
            + "\" (allowed: merge|prefer-newer|exclude-overlap)"@,
        ConfigError::UnsupportedSource { strand, source } => "braid: strand \""@ + strand@
            + "\": unsupported source \""@ + source@ + "\" (allowed: where|focus|digest)"@,
        ConfigError::UnclosedQuote(s) => "braid: "@ + s@,
    }
}

impl ConfigError {
    /// The message of the error, as its display shows it.
    pub fn message(&self) -> (r: String)
        ensures
            r@ == error_text(*self),
    {
        let mut v: Vec<char> = Vec::new();
        match self {
            ConfigError::Read(s) => {
                append_str(&mut v, s.as_str());
            },
            ConfigError::Parse(s) => {
                append_str(&mut v, "parse braid toml: ");
                append_str(&mut v, s.as_str());
            },
            ConfigError::SchemaTooNew(n) => {
                append_str(&mut v, "braid: schema_version ");
                push_signed(&mut v, *n);
                append_str(&mut v, " not supported (max 1)");
            },
            ConfigError::NoStrands => {
                append_str(&mut v, "braid: at least one [[strand]] is required");
            },
            ConfigError::StrandNameRequired(i) => {
                append_str(&mut v, "braid: strand[");
                append_chars(&mut v, &decimal_chars(*i as u64));
                append_str(&mut v, "].name is required");
            },
            ConfigError::DuplicateStrandName(name) => {
                append_str(&mut v, "braid: duplicate strand name \"");
                append_str(&mut v, name.as_str());
                append_str(&mut v, "\"");
            },
            ConfigError::SourceRequired(name) => {
                append_str(&mut v, "braid: strand \"");
                append_str(&mut v, name.as_str());
                append_str(&mut v, "\": source is required");
            },
            ConfigError::ShareOutOfRange { strand, share } => {
                append_str(&mut v, "braid: strand \"");
                append_str(&mut v, strand.as_str());
                append_str(&mut v, "\": share must be in (0, 1], got ");
                append_str(&mut v, share.as_str());
            },
            ConfigError::UnknownPolicy { strand, policy } => {
                append_str(&mut v, "braid: strand \"");
                append_str(&mut v, strand.as_str());
                append_str(&mut v, "\": unknown policy \"");
                append_str(&mut v, policy.as_str());
                append_str(&mut v, "\" (allowed: merge|prefer-newer|exclude-overlap)");
            },
            ConfigError::UnsupportedSource { strand, source } => {
                append_str(&mut v, "braid: strand \"");
                append_str(&mut v, strand.as_str());
                append_str(&mut v, "\": unsupported source \"");
                append_str(&mut v, source.as_str());
                append_str(&mut v, "\" (allowed: where|focus|digest)");
            },
            ConfigError::UnclosedQuote(s) => {
                append_str(&mut v, "braid: ");
                append_str(&mut v, s.as_str());
            },
        }
        string_of(&v)
    }
}

/// Every character of `s` is whitespace (what `s.trim().is_empty()` says).
pub open spec fn blank(s: Seq<char>) -> bool {
    forall|i: int| 0 <= i < s.len() ==> #[trigger] is_ws(s[i])
}

/// The rule that strand `i` breaks, given the strands before it, if any.
pub open spec fn strand_error(strands: Seq<Strand>, i: int) -> Option<ErrorView> {
    let s = strands[i];
    if blank(s.name@) {
        Some(ErrorView::StrandNameRequired(i))
    } else if exists|j: int| 0 <= j < i && #[trigger] strands[j].name@ == s.name@ {
        Some(ErrorView::DuplicateStrandName(s.name@))
    } else if blank(s.source@) {
        Some(ErrorView::SourceRequired(s.name@))
    } else if !s.share_in_range {
        Some(ErrorView::ShareOutOfRange(s.name@, s.share_text@))
    } else if !is_supported(subcommand_of(s.source@)) {
        Some(ErrorView::UnsupportedSource(s.name@, subcommand_of(s.source@)))
    } else {
        None
    }
}

/// The first strand from `i` on that breaks a rule, or the strand count.
pub open spec fn first_bad(strands: Seq<Strand>, i: int) -> int
    decreases strands.len() - i,
{
    if i >= strands.len() {
        strands.len() as int
    } else if strand_error(strands, i) is Some {
        i
    } else {
        first_bad(strands, i + 1)
    }
}

/// What validation answers for a configuration.
pub open spec fn validation(schema_version: int, strands: Seq<Strand>) -> Option<ErrorView> {
    if schema_version > SCHEMA_VERSION {
        Some(ErrorView::SchemaTooNew(schema_version))
    } else if strands.len() == 0 {
        Some(ErrorView::NoStrands)
    } else if first_bad(strands, 0) < strands.len() {
        strand_error(strands, first_bad(strands, 0))
    } else {
        None
    }
}

/// Whether validation reaches the policy step of strand `k` (and so sets an
/// unset policy to `merge`): every earlier strand passed, and strand `k`
/// itself passed all rules up to its share, or all of them.
pub open spec fn policy_reached(schema_version: int, strands: Seq<Strand>, k: int) -> bool {
    let stop = first_bad(strands, 0);
    schema_version <= SCHEMA_VERSION && strands.len() > 0 && (k < stop || (k == stop && stop
        < strands.len() && strand_error(strands, k) matches Some(
        ErrorView::UnsupportedSource(_, _),
    )))
}

/// Checks the structural rules of `cfg` and sets each unset policy it gets
/// to, in order, to `merge`.
///
/// The rules, in the order they are checked: the schema version is at most
/// [`SCHEMA_VERSION`]; there is at least one strand; and, strand by strand,
/// the name is not blank, is not the name of an earlier strand, the source
/// is not blank, the share lies in `(0, 1]`, and the source names a
/// supported subcommand. The first broken rule is the error.
pub fn validate(cfg: &mut Config) -> (r: Result<(), ConfigError>)
    ensures
        (match r {
            Ok(()) => None,
            Err(e) => Some(error_view(e)),
        }) == validation(old(cfg).schema_version as int, old(cfg).strands@),
        final(cfg).schema_version == old(cfg).schema_version,
        final(cfg).strands.len() == old(cfg).strands.len(),
        forall|k: int|
            0 <= k < old(cfg).strands.len() ==> {
                let before = #[trigger] old(cfg).strands@[k];
                let after = final(cfg).strands@[k];
                &&& after.name == before.name
                &&& after.source == before.source
                &&& after.share_in_range == before.share_in_range
                &&& after.share_text == before.share_text
                &&& after.policy == (if policy_reached(
                    old(cfg).schema_version as int,
                    old(cfg).strands@,
                    k,
                ) && before.policy.0 is None {
                    PolicyKindOrEmpty(Some(PolicyKind::Merge))
                } else {
                    before.policy
                })
            },
{
    if cfg.schema_version > SCHEMA_VERSION {
        return Err(ConfigError::SchemaTooNew(cfg.schema_version));
    }
    if cfg.strands.len() == 0 {
        return Err(ConfigError::NoStrands);
    }
    let ghost old_strands = cfg.strands@;
    let ghost version = cfg.schema_version as int;
    let mut i: usize = 0;
    while i < cfg.strands.len()
        invariant
            cfg.schema_version == version,
            version == old(cfg).schema_version,
            old_strands == old(cfg).strands@,
            version <= SCHEMA_VERSION,
            cfg.strands.len() == old_strands.len() > 0,
            i <= cfg.strands.len(),
            forall|k: int| 0 <= k < i ==> #[trigger] strand_error(old_strands, k) is None,
            forall|k: int|
                0 <= k < old_strands.len() ==> {
                    let before = #[trigger] old_strands[k];
                    let after = cfg.strands@[k];
                    &&& after.name == before.name
                    &&& after.source == before.source
                    &&& after.share_in_range == before.share_in_range
                    &&& after.share_text == before.share_text
                    &&& after.policy == (if k < i && before.policy.0 is None {
                        PolicyKindOrEmpty(Some(PolicyKind::Merge))
                    } else {
                        before.policy
                    })
                },
        decreases cfg.strands.len() - i,
    {
        assert(old_strands[i as int].name == cfg.strands@[i as int].name);
        if is_blank(&cfg.strands[i].name) {
            proof {
                lemma_first_bad(old_strands, 0, i as int);
            }
            return Err(ConfigError::StrandNameRequired(i));
        }
        let mut j: usize = 0;
        let mut dup = false;
        while j < i
            invariant
                i < cfg.strands.len() == old_strands.len(),
                j <= i,
                forall|k: int|
                    0 <= k < old_strands.len() ==> #[trigger] cfg.strands@[k].name
                        == old_strands[k].name,
                dup == exists|k: int| 0 <= k < j && #[trigger] old_strands[k].name@
                    == old_strands[i as int].name@,
            decreases i - j,
        {
            if cfg.strands[j].name == cfg.strands[i].name {
                assert(old_strands[j as int].name@ == old_strands[i as int].name@);
                dup = true;
            }
            j = j + 1;
        }
        if dup {
            proof {
                lemma_first_bad(old_strands, 0, i as int);
            }
            return Err(ConfigError::DuplicateStrandName(cfg.strands[i].name.clone()));
        }
        if is_blank(&cfg.strands[i].source) {
            proof {
                lemma_first_bad(old_strands, 0, i as int);
            }
            return Err(ConfigError::SourceRequired(cfg.strands[i].name.clone()));
        }
        if !cfg.strands[i].share_in_range {
            proof {
                lemma_first_bad(old_strands, 0, i as int);
            }
            return Err(
                ConfigError::ShareOutOfRange {
                    strand: cfg.strands[i].name.clone(),
                    share: cfg.strands[i].share_text.clone(),
                },
            );
        }
        if cfg.strands[i].policy.is_empty() {
            let updated = Strand {
                name: cfg.strands[i].name.clone(),
                source: cfg.strands[i].source.clone(),
                share_in_range: cfg.strands[i].share_in_range,
                share_text: cfg.strands[i].share_text.clone(),
                policy: PolicyKindOrEmpty(Some(PolicyKind::Merge)),
            };
            cfg.strands.set(i, updated);
        }
        let sub = strand_subcommand(cfg.strands[i].source.as_str());
        if !is_supported_source(sub.as_str()) {
            proof {
                lemma_first_bad(old_strands, 0, i as int);
            }
            return Err(ConfigError::UnsupportedSource { strand: cfg.strands[i].name.clone(), source: sub });
        }
        assert(strand_error(old_strands, i as int) is None);
        i = i + 1;
    }
    proof {
        lemma_first_bad(old_strands, 0, old_strands.len() as int);
    }
    Ok(())
}

/// Whether every character of `s` is whitespace.
pub fn is_blank(s: &String) -> (r: bool)
    ensures
        r == blank(s@),
{
    let v = chars_of(s.as_str());
    let mut i: usize = 0;
    while i < v.len()
        invariant
            i <= v.len(),
            v@ == s@,
            forall|k: int| 0 <= k < i ==> #[trigger] is_ws(v@[k]),
        decreases v.len() - i,
    {
        if !is_ws_exec(v[i]) {
            return false;
        }
        i = i + 1;
    }
    true
}

/// `first_bad` from `j` is `i` when the strands in between pass and `i`
/// fails (or ends the list).
pub proof fn lemma_first_bad(strands: Seq<Strand>, j: int, i: int)
    requires
        0 <= j <= i <= strands.len(),
        forall|k: int| j <= k < i ==> #[trigger] strand_error(strands, k) is None,
        i == strands.len() || strand_error(strands, i) is Some,
    ensures
        first_bad(strands, j) == i,
    decreases i - j,
{
    if j < i {
        lemma_first_bad(strands, j + 1, i);
    }
}

/// The names of the strands.
pub open spec fn strand_names(strands: Seq<Strand>) -> Seq<String> {
    strands.map_values(|s: Strand| s.name)
}

/// The strand names in ascending lexicographic order (each name as often as
/// it is declared).
pub fn sorted_strand_names(cfg: &Config) -> (r: Vec<String>)
    ensures
        sorted_by_lex(string_views(r@)),
        r@.to_multiset() == strand_names(cfg.strands@).to_multiset(),
{
    let mut names: Vec<String> = Vec::new();
    let mut i: usize = 0;
    while i < cfg.strands.len()
        invariant
            i <= cfg.strands.len(),
            names@ == strand_names(cfg.strands@).take(i as int),
        decreases cfg.strands.len() - i,
    {
        names.push(cfg.strands[i].name.clone());
        i = i + 1;
        assert(names@ =~= strand_names(cfg.strands@).take(i as int));
    }
    assert(strand_names(cfg.strands@).take(i as int) =~= strand_names(cfg.strands@));
    sort_strings(names)
}

/// One `[[strand]]` table as read from the document, its policy still text.
#[derive(Debug)]
pub struct RawStrand {
    pub name: String,
    pub source: String,
    /// Whether the declared share lies in `(0, 1]`.
    pub share_in_range: bool,
    /// The declared share as the error message shows it.
    pub share_text: String,
    pub policy: String,
}

/// A `braid.toml` document as read, before its rules are checked.
#[derive(Debug)]
pub struct RawConfig {
    pub schema_version: i64,
    pub strands: Vec<RawStrand>,
}

/// The policy a raw policy text stands for: unset when empty, `merge` when
/// unknown (an unknown one is rejected before it is used).
pub open spec fn raw_policy(text: Seq<char>) -> PolicyKindOrEmpty {
    if text.len() == 0 {
        PolicyKindOrEmpty(None)
    } else {
        match policy_from_text(text) {
            Some(p) => PolicyKindOrEmpty(Some(p)),
            None => PolicyKindOrEmpty(Some(PolicyKind::Merge)),
        }
    }
}

/// The raw strand `k` names a policy that does not exist.
pub open spec fn unknown_policy(raw: Seq<RawStrand>, k: int) -> bool {
    raw[k].policy@.len() > 0 && policy_from_text(raw[k].policy@) is None
}

/// A strand as the rules read it, from its raw table.
pub open spec fn strand_from_raw(r: RawStrand) -> Strand {
    Strand {
        name: r.name,
        source: r.source,
        share_in_range: r.share_in_range,
        share_text: r.share_text,
        policy: raw_policy(r.policy@),
    }
}

/// The schema version a document declares; an absent (zero) one reads as
/// the current version.
pub open spec fn declared_version(v: int) -> int {
    if v == 0 {
        SCHEMA_VERSION as int
    } else {
        v
    }
}

/// Turns a read document into a checked configuration.
///
/// An absent schema version reads as the current one. The first strand whose
/// policy text is not a known policy is rejected with `UnknownPolicy`
/// (naming the strand, or `<unnamed>` when its name is empty); otherwise
/// the configuration is checked by [`validate`], and on success every
/// policy is set.
pub fn from_document(raw: RawConfig) -> (r: Result<Config, ConfigError>)
    ensures
        (exists|k: int| 0 <= k < raw.strands.len() && #[trigger] unknown_policy(raw.strands@, k))
            ==> (r matches Err(ConfigError::UnknownPolicy { strand, policy }) && exists|k: int|
            0 <= k < raw.strands.len() && #[trigger] unknown_policy(raw.strands@, k) && (forall|
                j: int,
            | 0 <= j < k ==> !#[trigger] unknown_policy(raw.strands@, j)) && policy@
                == raw.strands@[k].policy@ && strand@ == (if raw.strands@[k].name@.len() == 0 {
                "<unnamed>"@
            } else {
                raw.strands@[k].name@
            })),
        (forall|k: int| 0 <= k < raw.strands.len() ==> !#[trigger] unknown_policy(raw.strands@, k))
            ==> {
            let strands = raw.strands@.map_values(|s: RawStrand| strand_from_raw(s));
            let version = declared_version(raw.schema_version as int);
            &&& (match r {
                Ok(_) => None,
                Err(e) => Some(error_view(e)),
            }) == validation(version, strands)
            &&& r matches Ok(c) ==> {
                &&& c.schema_version == version
                &&& c.strands.len() == strands.len()
                &&& forall|k: int|
                    0 <= k < strands.len() ==> {
                        let s = #[trigger] c.strands@[k];
                        &&& s.name == strands[k].name
                        &&& s.source == strands[k].source
                        &&& s.share_in_range == strands[k].share_in_range
                        &&& s.share_text == strands[k].share_text
                        &&& s.policy == PolicyKindOrEmpty(
                            Some(strands[k].policy.unwrap_or_merge_spec()),
                        )
                    }
            }
        },
{
    let version = if raw.schema_version == 0 {
        SCHEMA_VERSION
    } else {
        raw.schema_version
    };
    // Reject unknown policy texts first, while the text is still at hand.
    let mut k: usize = 0;
    while k < raw.strands.len()
        invariant
            k <= raw.strands.len(),
            forall|j: int| 0 <= j < k ==> !#[trigger] unknown_policy(raw.strands@, j),
        decreases raw.strands.len() - k,
    {
        let text = &raw.strands[k].policy;
        if !text.as_str().is_empty() && PolicyKind::from_str_opt(text.as_str()).is_none() {
            let strand = if raw.strands[k].name.as_str().is_empty() {
                "<unnamed>".to_owned()
            } else {
                raw.strands[k].name.clone()
            };
            assert(unknown_policy(raw.strands@, k as int));
            return Err(ConfigError::UnknownPolicy { strand, policy: text.clone() });
        }
        k = k + 1;
    }
    let ghost spec_strands = raw.strands@.map_values(|s: RawStrand| strand_from_raw(s));
    let mut strands: Vec<Strand> = Vec::new();
    let mut raw_strands = raw.strands;
    let ghost all = raw_strands@;
    // Move the tables out from the back, then restore the order.
    let mut rev: Vec<Strand> = Vec::new();
    while raw_strands.len() > 0
        invariant
            raw_strands@ == all.take(raw_strands.len() as int),
            raw_strands.len() <= all.len(),
            spec_strands == all.map_values(|s: RawStrand| strand_from_raw(s)),
            rev.len() == all.len() - raw_strands.len(),
            forall|j: int| 0 <= j < rev.len() ==> #[trigger] rev@[j] == spec_strands[all.len() - 1 - j],
        decreases raw_strands.len(),
    {
        let r = raw_strands.pop().unwrap();
        let policy = if r.policy.as_str().is_empty() {
            PolicyKindOrEmpty(None)
        } else {
            match PolicyKind::from_str_opt(r.policy.as_str()) {
                Some(p) => PolicyKindOrEmpty(Some(p)),
                None => PolicyKindOrEmpty(Some(PolicyKind::Merge)),
            }
        };
        let ghost idx = raw_strands.len() as int;
        assert(all[idx] == r);
        rev.push(
            Strand {
                name: r.name,
                source: r.source,
                share_in_range: r.share_in_range,
                share_text: r.share_text,
                policy,
            },
        );
        assert(raw_strands@ =~= all.take(raw_strands.len() as int));
    }
    while rev.len() > 0
        invariant
            spec_strands.len() == all.len(),
            strands.len() + rev.len() == all.len(),
            forall|j: int| 0 <= j < rev.len() ==> #[trigger] rev@[j] == spec_strands[all.len() - 1 - j],
            forall|j: int| 0 <= j < strands.len() ==> #[trigger] strands@[j] == spec_strands[j],
        decreases rev.len(),
    {
        let s = rev.pop().unwrap();
        strands.push(s);
    }
    assert(strands@ =~= spec_strands);
    let mut cfg = Config { schema_version: version, strands };
    assert(cfg.strands@ == spec_strands);
    let checked = validate(&mut cfg);
    match checked {
        Ok(()) => {
            proof {
                lemma_first_bad_bound(spec_strands, 0);
                assert(validation(version as int, spec_strands) is None);
                assert(version <= SCHEMA_VERSION);
                assert(spec_strands.len() > 0);
                assert(!(first_bad(spec_strands, 0) < spec_strands.len()));
                lemma_first_bad_bound(spec_strands, 0);
                assert(first_bad(spec_strands, 0) == spec_strands.len());
            }
            assert forall|k: int| 0 <= k < spec_strands.len() implies policy_reached(
                version as int,
                spec_strands,
                k,
            ) by {}
            Ok(cfg)
        },
        Err(e) => Err(e),
    }
}

/// `first_bad` never exceeds the strand count.
pub proof fn lemma_first_bad_bound(strands: Seq<Strand>, i: int)
    requires
        0 <= i,
    ensures
        first_bad(strands, i) <= strands.len(),
        i <= strands.len() ==> i <= first_bad(strands, i),
        first_bad(strands, i) < strands.len() ==> strand_error(strands, first_bad(strands, i)) is Some,
    decreases strands.len() - i,
{
    if i < strands.len() && strand_error(strands, i) is None {
        lemma_first_bad_bound(strands, i + 1);
    }
}

} // verus!
