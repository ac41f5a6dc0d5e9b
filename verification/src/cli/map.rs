//! `ctx map`: its command line and the checks of its options.
use vstd::prelude::*;

use crate::cli::common::{flag_value, flag_value_of};
use crate::cli::log_args::{is_word, next_arg};
use crate::text::{append_chars, chars_of, debug_quoted, debug_text, parse_i64, parse_i64_exec, string_of, views};

verus! {

/// The options of `ctx map`.
#[derive(Debug, Clone, PartialEq, Eq)]
pub struct MapArgs {
    pub root: String,
    pub depth: i64,
    pub top: i64,
    pub by: String,
    pub format: String,
    pub budget: i64,
    pub plain: bool,
    pub width: i64,
    pub height: i64,
}

/// The options of `ctx map`, by view.
pub struct MapArgsView {
    pub root: Seq<char>,
    pub depth: int,
    pub top: int,
    pub by: Seq<char>,
    pub format: Seq<char>,
    pub budget: int,
    pub plain: bool,
    pub width: int,
    pub height: int,
}

impl MapArgs {
    /// The view of the options.
    pub open spec fn view_of(self) -> MapArgsView {
        MapArgsView {
            root: self.root@,
            depth: self.depth as int,
            top: self.top as int,
            by: self.by@,
            format: self.format@,
            budget: self.budget as int,
            plain: self.plain,
            width: self.width as int,
            height: self.height as int,
        }
    }
}

/// What the arguments read so far have set.
pub struct MapScan {
    pub saw: bool,
    pub json: bool,
    pub plain: bool,
    pub depth: int,
    pub top: int,
    pub by: Seq<char>,
    pub format: Seq<char>,
    pub budget: int,
    pub width: int,
    pub height: int,
    pub positionals: Seq<Seq<char>>,
}

/// Nothing read yet.
pub open spec fn map_start() -> MapScan {
    MapScan {
        saw: false,
        json: false,
        plain: false,
        depth: 2,
        top: 0,
        by: "tokens"@,
        format: "ascii"@,
        budget: 0,
        width: 80,
        height: 20,
        positionals: Seq::empty(),
    }
}

/// Reads the arguments from `i` on; `None` when one is refused.
pub open spec fn map_scan(args: Seq<Seq<char>>, i: int, st: MapScan) -> Option<MapScan>
    decreases args.len() - i,
{
    if i < 0 || i >= args.len() {
        Some(st)
    } else {
        let a = args[i];
        let has_next = i + 1 < args.len();
        if a == "--json"@ {
            map_scan(args, i + 1, MapScan { json: true, ..st })
        } else if a == "--plain"@ {
            map_scan(args, i + 1, MapScan { plain: true, ..st })
        } else if a == "map"@ {
            if st.saw {
                None
            } else {
                map_scan(args, i + 1, MapScan { saw: true, ..st })
            }
        } else if flag_value_of(a, "--depth"@) is Some {
            match parse_i64(flag_value_of(a, "--depth"@)->0) {
                None => None,
                Some(n) => map_scan(args, i + 1, MapScan { depth: n, ..st }),
            }
        } else if a == "--depth"@ {
            if !has_next {
                None
            } else {
                match parse_i64(args[i + 1]) {
                    None => None,
                    Some(n) => map_scan(args, i + 2, MapScan { depth: n, ..st }),
                }
            }
        } else if flag_value_of(a, "--top"@) is Some {
            match parse_i64(flag_value_of(a, "--top"@)->0) {
                None => None,
                Some(n) => map_scan(args, i + 1, MapScan { top: n, ..st }),
            }
        } else if a == "--top"@ {
            if !has_next {
                None
            } else {
                match parse_i64(args[i + 1]) {
                    None => None,
                    Some(n) => map_scan(args, i + 2, MapScan { top: n, ..st }),
                }
            }
        } else if flag_value_of(a, "--by"@) is Some {
            map_scan(args, i + 1, MapScan { by: flag_value_of(a, "--by"@)->0, ..st })
        } else if a == "--by"@ {
            if !has_next {
                None
            } else {
                map_scan(args, i + 2, MapScan { by: args[i + 1], ..st })
            }
        } else if flag_value_of(a, "--format"@) is Some {
            map_scan(args, i + 1, MapScan { format: flag_value_of(a, "--format"@)->0, ..st })
        } else if a == "--format"@ {
            if !has_next {
                None
            } else {
                map_scan(args, i + 2, MapScan { format: args[i + 1], ..st })
            }
        } else if flag_value_of(a, "--budget"@) is Some {
            match parse_i64(flag_value_of(a, "--budget"@)->0) {
                None => None,
                Some(n) => map_scan(args, i + 1, MapScan { budget: n, ..st }),
            }
        } else if a == "--budget"@ {
            if !has_next {
                None
            } else {
                match parse_i64(args[i + 1]) {
                    None => None,
                    Some(n) => map_scan(args, i + 2, MapScan { budget: n, ..st }),
                }
            }
        } else if flag_value_of(a, "--width"@) is Some {
            match parse_i64(flag_value_of(a, "--width"@)->0) {
                None => None,
                Some(n) => map_scan(args, i + 1, MapScan { width: n, ..st }),
            }
        } else if a == "--width"@ {
            if !has_next {
                None
            } else {
                match parse_i64(args[i + 1]) {
                    None => None,
                    Some(n) => map_scan(args, i + 2, MapScan { width: n, ..st }),
                }
            }
        } else if flag_value_of(a, "--height"@) is Some {
            match parse_i64(flag_value_of(a, "--height"@)->0) {
                None => None,
                Some(n) => map_scan(args, i + 1, MapScan { height: n, ..st }),
            }
        } else if a == "--height"@ {
            if !has_next {
                None
            } else {
                match parse_i64(args[i + 1]) {
                    None => None,
                    Some(n) => map_scan(args, i + 2, MapScan { height: n, ..st }),
                }
            }
        } else if flag_value_of(a, "--heatmap-engine"@) is Some {
            map_scan(args, i + 1, st)
        } else if a == "--heatmap-engine"@ {
            if !has_next {
                None
            } else {
                map_scan(args, i + 2, st)
            }
        } else if a.len() > 0 && a[0] == '-' {
            None
        } else if st.saw {
            map_scan(args, i + 1, MapScan { positionals: st.positionals.push(a), ..st })
        } else {
            None
        }
    }
}

/// What a command line asks of `ctx map`: `None` unless it names `map`
/// once, with at most one root (`.` when none) and known flags; `--json`
/// sets the format to `json`.
pub open spec fn map_request(args: Seq<Seq<char>>) -> Option<MapArgsView> {
    match map_scan(args, 0, map_start()) {
        None => None,
        Some(st) => if !st.saw || st.positionals.len() > 1 {
            None
        } else {
            Some(
                MapArgsView {
                    root: if st.positionals.len() == 1 {
                        st.positionals[0]
                    } else {
                        "."@
                    },
                    depth: st.depth,
                    top: st.top,
                    by: st.by,
                    format: if st.json {
                        "json"@
                    } else {
                        st.format
                    },
                    budget: st.budget,
                    plain: st.plain,
                    width: st.width,
                    height: st.height,
                },
            )
        },
    }
}

/// Reads the command line of `ctx map` (see [`map_request`]).
pub fn parse_map_args(args: &[String]) -> (r: Option<MapArgs>)
    ensures
        match r {
            Some(m) => map_request(views(args@)) == Some(m.view_of()),
            None => map_request(views(args@)) is None,
        },
{
    let ghost all = views(args@);
    let mut saw: bool = false;
    let mut json: bool = false;
    let mut plain: bool = false;
    let mut depth: i64 = 2;
    let mut top: i64 = 0;
    let mut by: String = "tokens".to_owned();
    let mut format: String = "ascii".to_owned();
    let mut budget: i64 = 0;
    let mut width: i64 = 80;
    let mut height: i64 = 20;
    let mut positionals: Vec<String> = Vec::new();
    let mut i: usize = 0;
    assert(views(positionals@) =~= Seq::<Seq<char>>::empty());
    while i < args.len()
        invariant
            all == views(args@),
            i <= args.len(),
            map_scan(all, 0, map_start()) == map_scan(all, i as int, MapScan { saw: saw, json: json, plain: plain, depth: depth as int, top: top as int, by: by@, format: format@, budget: budget as int, width: width as int, height: height as int, positionals: views(positionals@) }),
        decreases args.len() - i,
    {
        let arg = &args[i];
        let a = chars_of(arg.as_str());
        assert(a@ == all[i as int]);
        if is_word(&a, "--json") {
            json = true;
            i = i + 1;
        } else if is_word(&a, "--plain") {
            plain = true;
            i = i + 1;
        } else if is_word(&a, "map") {
            if saw {
                return None;
            }
            saw = true;
            i = i + 1;
        } else if let Some(v) = flag_value(arg.as_str(), "--depth") {
            match parse_i64_exec(&chars_of(v.as_str())) {
                None => return None,
                Some(n) => {
                    depth = n;
                },
            }
            i = i + 1;
        } else if is_word(&a, "--depth") {
            match next_arg(args, i) {
                None => return None,
                Some(v) => {
                    assert(v@ == all[i + 1]);
                    match parse_i64_exec(&chars_of(v.as_str())) {
                        None => return None,
                        Some(n) => {
                            depth = n;
                        },
                    }
                },
            }
            i = i + 2;
        } else if let Some(v) = flag_value(arg.as_str(), "--top") {
            match parse_i64_exec(&chars_of(v.as_str())) {
                None => return None,
                Some(n) => {
                    top = n;
                },
            }
            i = i + 1;
        } else if is_word(&a, "--top") {
            match next_arg(args, i) {
                None => return None,
                Some(v) => {
                    assert(v@ == all[i + 1]);
                    match parse_i64_exec(&chars_of(v.as_str())) {
                        None => return None,
                        Some(n) => {
                            top = n;
                        },
                    }
                },
            }
            i = i + 2;
        } else if let Some(v) = flag_value(arg.as_str(), "--by") {
            by = v;
            i = i + 1;
        } else if is_word(&a, "--by") {
            match next_arg(args, i) {
                None => return None,
                Some(v) => {
                    assert(v@ == all[i + 1]);
                    by = v.clone();
                },
            }
            i = i + 2;
        } else if let Some(v) = flag_value(arg.as_str(), "--format") {
            format = v;
            i = i + 1;
        } else if is_word(&a, "--format") {
            match next_arg(args, i) {
                None => return None,
                Some(v) => {
                    assert(v@ == all[i + 1]);
                    format = v.clone();
                },
            }
            i = i + 2;
        } else if let Some(v) = flag_value(arg.as_str(), "--budget") {
            match parse_i64_exec(&chars_of(v.as_str())) {
                None => return None,
                Some(n) => {
                    budget = n;
                },
            }
            i = i + 1;
        } else if is_word(&a, "--budget") {
            match next_arg(args, i) {
                None => return None,
                Some(v) => {
                    assert(v@ == all[i + 1]);
                    match parse_i64_exec(&chars_of(v.as_str())) {
                        None => return None,
                        Some(n) => {
                            budget = n;
                        },
                    }
                },
            }
            i = i + 2;
        } else if let Some(v) = flag_value(arg.as_str(), "--width") {
            match parse_i64_exec(&chars_of(v.as_str())) {
                None => return None,
                Some(n) => {
                    width = n;
                },
            }
            i = i + 1;
        } else if is_word(&a, "--width") {
            match next_arg(args, i) {
                None => return None,
                Some(v) => {
                    assert(v@ == all[i + 1]);
                    match parse_i64_exec(&chars_of(v.as_str())) {
                        None => return None,
                        Some(n) => {
                            width = n;
                        },
                    }
                },
            }
            i = i + 2;
        } else if let Some(v) = flag_value(arg.as_str(), "--height") {
            match parse_i64_exec(&chars_of(v.as_str())) {
                None => return None,
                Some(n) => {
                    height = n;
                },
            }
            i = i + 1;
        } else if is_word(&a, "--height") {
            match next_arg(args, i) {
                None => return None,
                Some(v) => {
                    assert(v@ == all[i + 1]);
                    match parse_i64_exec(&chars_of(v.as_str())) {
                        None => return None,
                        Some(n) => {
                            height = n;
                        },
                    }
                },
            }
            i = i + 2;
        } else if flag_value(arg.as_str(), "--heatmap-engine").is_some() {
            i = i + 1;
        } else if is_word(&a, "--heatmap-engine") {
            if next_arg(args, i).is_none() {
                return None;
            }
            i = i + 2;
        } else if a.len() > 0 && a[0] == '-' {
            return None;
        } else if saw {
            let ghost before = views(positionals@);
            positionals.push(arg.clone());
            assert(views(positionals@) =~= before.push(a@));
            i = i + 1;
        } else {
            return None;
        }
    }
    if !saw || positionals.len() > 1 {
        return None;
    }
    if json {
        format = "json".to_owned();
    }
    let root = if positionals.len() == 1 {
        positionals[0].clone()
    } else {
        ".".to_owned()
    };
    Some(MapArgs { root, depth, top, by, format, budget, plain, width, height })
}

/// The check of the map options: `--by` is `tokens`, `files` or `symbols`
/// (`churn` is refused with its own message), and `--format` is `ascii`,
/// `json`, `svg` or empty.
pub open spec fn map_args_check(by: Seq<char>, format: Seq<char>) -> Result<(), Seq<char>> {
    if by == "churn"@ {
        Err("--by churn is not yet supported (requires git log history); use tokens, files, or symbols"@)
    } else if !(by == "tokens"@ || by == "files"@ || by == "symbols"@) {
        Err("unknown --by value "@ + debug_text(by) + " (allowed: tokens, files, symbols)"@)
    } else if !(format == "ascii"@ || format == "json"@ || format == "svg"@ || format.len() == 0) {
        Err("unknown --format value "@ + debug_text(format) + " (allowed: ascii, json, svg)"@)
    } else {
        Ok(())
    }
}

/// Checks the map options (see [`map_args_check`]).
pub fn validate_map_args(args: &MapArgs) -> (r: Result<(), String>)
    ensures
        match r {
            Ok(()) => map_args_check(args.by@, args.format@) == Ok::<(), Seq<char>>(()),
            Err(e) => map_args_check(args.by@, args.format@) == Err::<(), Seq<char>>(e@),
        },
{
    let by = chars_of(args.by.as_str());
    if is_word(&by, "churn") {
        return Err(
            "--by churn is not yet supported (requires git log history); use tokens, files, or symbols".to_owned(),
        );
    }
    if !(is_word(&by, "tokens") || is_word(&by, "files") || is_word(&by, "symbols")) {
        let mut e = chars_of("unknown --by value ");
        append_chars(&mut e, &chars_of(debug_quoted(args.by.as_str()).as_str()));
        append_chars(&mut e, &chars_of(" (allowed: tokens, files, symbols)"));
        return Err(string_of(&e));
    }
    let f = chars_of(args.format.as_str());
    if !(is_word(&f, "ascii") || is_word(&f, "json") || is_word(&f, "svg") || f.len() == 0) {
        let mut e = chars_of("unknown --format value ");
        append_chars(&mut e, &chars_of(debug_quoted(args.format.as_str()).as_str()));
        append_chars(&mut e, &chars_of(" (allowed: ascii, json, svg)"));
        return Err(string_of(&e));
    }
    Ok(())
}

} // verus!

