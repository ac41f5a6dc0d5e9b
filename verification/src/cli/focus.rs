//! `ctx focus`: its command line and the pack options it packs with.
use vstd::prelude::*;

use crate::cli::common::{flag_value, flag_value_of};
use crate::cli::log_args::{is_word, next_arg};
use crate::cli::pack_args::{pack_defaults, PackArgs, PackFields};
use crate::text::{chars_of, parse_i64, parse_i64_exec, views};

verus! {

/// The options of `ctx focus`.
#[derive(Debug, Clone, PartialEq, Eq)]
pub struct FocusArgs {
    pub anchor: String,
    pub hops: i64,
    pub budget: i64,
    pub format: String,
}

/// What the arguments read so far have set.
pub struct FocusScan {
    pub saw: bool,
    pub json: bool,
    pub plain: bool,
    pub hops: int,
    pub budget: int,
    pub format: Seq<char>,
    pub positionals: Seq<Seq<char>>,
}

/// Nothing read yet.
pub open spec fn focus_start() -> FocusScan {
    FocusScan {
        saw: false,
        json: false,
        plain: false,
        hops: 1,
        budget: 8000,
        format: "markdown"@,
        positionals: Seq::empty(),
    }
}

/// Reads the arguments from `i` on; `None` when one is refused.
pub open spec fn focus_scan(args: Seq<Seq<char>>, i: int, st: FocusScan) -> Option<FocusScan>
    decreases args.len() - i,
{
    if i < 0 || i >= args.len() {
        Some(st)
    } else {
        let a = args[i];
        let has_next = i + 1 < args.len();
        if a == "--json"@ {
            focus_scan(args, i + 1, FocusScan { json: true, ..st })
        } else if a == "--plain"@ {
            focus_scan(args, i + 1, FocusScan { plain: true, ..st })
        } else if a == "focus"@ {
            if st.saw {
                None
            } else {
                focus_scan(args, i + 1, FocusScan { saw: true, ..st })
            }
        } else if flag_value_of(a, "--hops"@) is Some {
            match parse_i64(flag_value_of(a, "--hops"@)->0) {
                None => None,
                Some(n) => focus_scan(args, i + 1, FocusScan { hops: n, ..st }),
            }
        } else if a == "--hops"@ {
            if !has_next {
                None
            } else {
                match parse_i64(args[i + 1]) {
                    None => None,
                    Some(n) => focus_scan(args, i + 2, FocusScan { hops: n, ..st }),
                }
            }
        } else if flag_value_of(a, "--budget"@) is Some {
            match parse_i64(flag_value_of(a, "--budget"@)->0) {
                None => None,
                Some(n) => focus_scan(args, i + 1, FocusScan { budget: n, ..st }),
            }
        } else if a == "--budget"@ {
            if !has_next {
                None
            } else {
                match parse_i64(args[i + 1]) {
                    None => None,
                    Some(n) => focus_scan(args, i + 2, FocusScan { budget: n, ..st }),
                }
            }
        } else if flag_value_of(a, "--format"@) is Some {
            focus_scan(args, i + 1, FocusScan { format: flag_value_of(a, "--format"@)->0, ..st })
        } else if a == "--format"@ {
            if !has_next {
                None
            } else {
                focus_scan(args, i + 2, FocusScan { format: args[i + 1], ..st })
            }
        } else if flag_value_of(a, "--focus-engine"@) is Some {
            focus_scan(args, i + 1, st)
        } else if a == "--focus-engine"@ {
            if !has_next {
                None
            } else {
                focus_scan(args, i + 2, st)
            }
        } else if a.len() > 0 && a[0] == '-' {
            None
        } else if st.saw {
            focus_scan(args, i + 1, FocusScan { positionals: st.positionals.push(a), ..st })
        } else {
            None
        }
    }
}

/// What a command line asks of `ctx focus`, as (anchor, hops, budget,
/// format): `None` unless exactly one anchor follows `focus`, with known
/// flags. `--json` wins over `--format`; `--plain` turns the default
/// markdown into plain.
pub open spec fn focus_request(args: Seq<Seq<char>>) -> Option<(Seq<char>, int, int, Seq<char>)> {
    match focus_scan(args, 0, focus_start()) {
        None => None,
        Some(st) => if st.positionals.len() != 1 {
            None
        } else {
            Some(
                (
                    st.positionals[0],
                    st.hops,
                    st.budget,
                    if st.json {
                        "json"@
                    } else if st.plain && st.format == "markdown"@ {
                        "plain"@
                    } else {
                        st.format
                    },
                ),
            )
        },
    }
}

/// Reads the command line of `ctx focus` (see [`focus_request`]).
pub fn parse_focus_args(args: &[String]) -> (r: Option<FocusArgs>)
    ensures
        match r {
            Some(f) => focus_request(views(args@)) == Some((f.anchor@, f.hops as int, f.budget as int, f.format@)),
            None => focus_request(views(args@)) is None,
        },
{
    let ghost all = views(args@);
    let mut saw: bool = false;
    let mut json: bool = false;
    let mut plain: bool = false;
    let mut hops: i64 = 1;
    let mut budget: i64 = 8000;
    let mut format: String = "markdown".to_owned();
    let mut positionals: Vec<String> = Vec::new();
    let mut i: usize = 0;
    assert(views(positionals@) =~= Seq::<Seq<char>>::empty());
    while i < args.len()
        invariant
            all == views(args@),
            i <= args.len(),
            focus_scan(all, 0, focus_start()) == focus_scan(all, i as int, FocusScan { saw: saw, json: json, plain: plain, hops: hops as int, budget: budget as int, format: format@, positionals: views(positionals@) }),
        decreases args.len() - i,
    {
        let arg = &args[i];
        let a = chars_of(arg.as_str());
        assert(a@ == all[i as int]);
        if is_word(&a, "--json") {
            json = true;
            i = i + 1;
        } else if is_word(&a, "--plain") {
            plain = true;
            i = i + 1;
        } else if is_word(&a, "focus") {
            if saw {
                return None;
            }
            saw = true;
            i = i + 1;
        } else if let Some(v) = flag_value(arg.as_str(), "--hops") {
            match parse_i64_exec(&chars_of(v.as_str())) {
                None => return None,
                Some(n) => {
                    hops = n;
                },
            }
            i = i + 1;
        } else if is_word(&a, "--hops") {
            match next_arg(args, i) {
                None => return None,
                Some(v) => {
                    assert(v@ == all[i + 1]);
                    match parse_i64_exec(&chars_of(v.as_str())) {
                        None => return None,
                        Some(n) => {
                            hops = n;
                        },
                    }
                },
            }
            i = i + 2;
        } else if let Some(v) = flag_value(arg.as_str(), "--budget") {
            match parse_i64_exec(&chars_of(v.as_str())) {
                None => return None,
                Some(n) => {
                    budget = n;
                },
            }
            i = i + 1;
        } else if is_word(&a, "--budget") {
            match next_arg(args, i) {
                None => return None,
                Some(v) => {
                    assert(v@ == all[i + 1]);
                    match parse_i64_exec(&chars_of(v.as_str())) {
                        None => return None,
                        Some(n) => {
                            budget = n;
                        },
                    }
                },
            }
            i = i + 2;
        } else if let Some(v) = flag_value(arg.as_str(), "--format") {
            format = v;
            i = i + 1;
        } else if is_word(&a, "--format") {
            match next_arg(args, i) {
                None => return None,
                Some(v) => {
                    assert(v@ == all[i + 1]);
                    format = v.clone();
                },
            }
            i = i + 2;
        } else if flag_value(arg.as_str(), "--focus-engine").is_some() {
            i = i + 1;
        } else if is_word(&a, "--focus-engine") {
            if next_arg(args, i).is_none() {
                return None;
            }
            i = i + 2;
        } else if a.len() > 0 && a[0] == '-' {
            return None;
        } else if saw {
            let ghost before = views(positionals@);
            positionals.push(arg.clone());
            assert(views(positionals@) =~= before.push(a@));
            i = i + 1;
        } else {
            return None;
        }
    }
    let fc = chars_of(format.as_str());
    if json {
        format = "json".to_owned();
    } else if plain && is_word(&fc, "markdown") {
        format = "plain".to_owned();
    }
    if positionals.len() != 1 {
        return None;
    }
    let anchor = positionals[0].clone();
    Some(FocusArgs { anchor, hops, budget, format })
}

/// The pack options that focus packs its files with: the defaults, from
/// `.`, with the given budget and the focus format, and no contract,
/// warnings or metadata.
pub open spec fn focus_pack_fields(format: Seq<char>, budget: int) -> PackFields {
    PackFields {
        root: "."@,
        budget,
        format,
        no_contract: true,
        no_warnings: true,
        no_metadata: true,
        ..pack_defaults()
    }
}

/// The pack options for the files of a focus (see [`focus_pack_fields`]).
pub fn build_focus_pack_args(args: &FocusArgs, budget: i64) -> (r: PackArgs)
    ensures
        r.view_of() == focus_pack_fields(args.format@, budget as int),
{
    let r = PackArgs {
        root: ".".to_owned(),
        from_where: false,
        from_stdin: false,
        diff_spec: String::new(),
        since: String::new(),
        until: String::new(),
        use_mtime: false,
        budget,
        format: args.format.clone(),
        out: String::new(),
        goal: String::new(),
        no_contract: true,
        no_warnings: true,
        no_paths: false,
        no_metadata: true,
        frontmatter: String::new(),
        plain_file_contents: false,
        explain: false,
        preset: String::new(),
        changed: false,
        api_only: false,
        layout: "sequential".to_owned(),
        from_mix: String::new(),
        why_paths: Vec::new(),
        snapshot_id: String::new(),
        since_snapshot: String::new(),
        replay_shared: false,
        replay_strict: false,
        format_changed: false,
        goal_changed: false,
        budget_changed: false,
        preset_changed: false,
        no_warnings_changed: false,
        no_paths_changed: false,
        no_metadata_changed: false,
        frontmatter_changed: false,
    };
    assert(views(r.why_paths@) =~= Seq::<Seq<char>>::empty());
    r
}

} // verus!

