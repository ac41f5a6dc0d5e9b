//! The checks `ctx pack` makes of its options before any work: a positive
//! budget, sources and modes that exclude each other, and a known layout.
use vstd::prelude::*;

use crate::cli::pack_args::PackArgs;
use crate::text::{append_str, chars_eq, chars_of, debug_quoted, debug_text, string_of};

verus! {

/// A layout `ctx pack` knows (the empty one is the default).
pub open spec fn known_layout(l: Seq<char>) -> bool {
    l == ""@ || l == "sequential"@ || l == "side-by-side"@ || l == "unified"@
}

/// The first refusal of the options, if any: a budget that is not
/// positive; `--from-where` with `--from-stdin`; `--from-mix` with either;
/// `--why` with `--explain`; `--snapshot` with `--since-snapshot`; an
/// unknown layout.
pub open spec fn pack_request_error(a: PackArgs) -> Option<Seq<char>> {
    if a.budget <= 0 {
        Some("pack: budget must be positive"@)
    } else if a.from_where && a.from_stdin {
        Some("pack: --from-where and --from-stdin are mutually exclusive"@)
    } else if a.from_mix@.len() > 0 && a.from_where {
        Some("pack: --from-mix and --from-where are mutually exclusive"@)
    } else if a.from_mix@.len() > 0 && a.from_stdin {
        Some("pack: --from-mix and --from-stdin are mutually exclusive"@)
    } else if a.why_paths@.len() > 0 && a.explain {
        Some("pack: --why is mutually exclusive with --explain"@)
    } else if a.snapshot_id@.len() > 0 && a.since_snapshot@.len() > 0 {
        Some("--snapshot and --since-snapshot are mutually exclusive"@)
    } else if !known_layout(a.layout@) {
        Some("unknown --layout value "@ + debug_text(a.layout@))
    } else {
        None
    }
}

/// Checks the options of `ctx pack` (see [`pack_request_error`]).
pub fn check_pack_request(a: &PackArgs) -> (r: Result<(), String>)
    ensures
        match pack_request_error(*a) {
            None => r is Ok,
            Some(e) => r matches Err(m) && m@ == e,
        },
{
    let refuse = |t: &str| -> (m: Result<(), String>)
        ensures
            m matches Err(s) && s@ == t@,
        { Err(string_of(&chars_of(t))) };
    if a.budget <= 0 {
        return refuse("pack: budget must be positive");
    }
    if a.from_where && a.from_stdin {
        return refuse("pack: --from-where and --from-stdin are mutually exclusive");
    }
    let mix = !a.from_mix.as_str().is_empty();
    if mix && a.from_where {
        return refuse("pack: --from-mix and --from-where are mutually exclusive");
    }
    if mix && a.from_stdin {
        return refuse("pack: --from-mix and --from-stdin are mutually exclusive");
    }
    if a.why_paths.len() > 0 && a.explain {
        return refuse("pack: --why is mutually exclusive with --explain");
    }
    if !a.snapshot_id.as_str().is_empty() && !a.since_snapshot.as_str().is_empty() {
        return refuse("--snapshot and --since-snapshot are mutually exclusive");
    }
    let l = chars_of(a.layout.as_str());
    let known = chars_eq(&l, &chars_of("")) || chars_eq(&l, &chars_of("sequential"))
        || chars_eq(&l, &chars_of("side-by-side")) || chars_eq(&l, &chars_of("unified"));
    if !known {
        let mut v = chars_of("unknown --layout value ");
        append_str(&mut v, debug_quoted(a.layout.as_str()).as_str());
        return Err(string_of(&v));
    }
    Ok(())
}

} // verus!
