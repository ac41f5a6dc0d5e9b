//! The command line of `ctx deps` and `ctx impact`.
use vstd::prelude::*;

use crate::cli::common::{flag_value, flag_value_of};
use crate::cli::log_args::{is_word, next_arg};
use crate::text::{append_str, chars_eq, chars_of, string_of, views};

verus! {

/// The options of `ctx deps` and `ctx impact`: which relation, of which
/// path, in which format.
#[derive(Debug, Clone, PartialEq, Eq)]
pub struct RelationArgs {
    pub kind: String,
    pub path: String,
    pub format: String,
}

/// What the arguments read so far have set.
pub struct RelationScan {
    pub json: bool,
    pub format: Seq<char>,
    pub command: Option<Seq<char>>,
    pub positionals: Seq<Seq<char>>,
}

/// Nothing read yet.
pub open spec fn relation_start() -> RelationScan {
    RelationScan {
        json: false,
        format: "text"@,
        command: None,
        positionals: Seq::empty(),
    }
}

/// Reads the arguments from `i` on; `None` when one is refused.
pub open spec fn relation_scan(args: Seq<Seq<char>>, i: int, st: RelationScan) -> Option<RelationScan>
    decreases args.len() - i,
{
    if i < 0 || i >= args.len() {
        Some(st)
    } else {
        let a = args[i];
        let has_next = i + 1 < args.len();
        if a == "--json"@ {
            relation_scan(args, i + 1, RelationScan { json: true, ..st })
        } else if flag_value_of(a, "--format"@) is Some {
            relation_scan(args, i + 1, RelationScan { format: flag_value_of(a, "--format"@)->0, ..st })
        } else if a == "--format"@ {
            if !has_next {
                None
            } else {
                relation_scan(args, i + 2, RelationScan { format: args[i + 1], ..st })
            }
        } else if flag_value_of(a, "--relations-engine"@) is Some {
            relation_scan(args, i + 1, st)
        } else if a == "--relations-engine"@ {
            if !has_next {
                None
            } else {
                relation_scan(args, i + 2, st)
            }
        } else if a == "deps"@ {
            if st.command is Some {
                None
            } else {
                relation_scan(args, i + 1, RelationScan { command: Some("deps"@), ..st })
            }
        } else if a == "impact"@ {
            if st.command is Some {
                None
            } else {
                relation_scan(args, i + 1, RelationScan { command: Some("impact"@), ..st })
            }
        } else if a.len() > 0 && a[0] == '-' {
            None
        } else if st.command is Some {
            relation_scan(args, i + 1, RelationScan { positionals: st.positionals.push(a), ..st })
        } else {
            None
        }
    }
}

/// What a command line asks of `ctx deps` or `ctx impact`, as (kind, path,
/// format): `None` unless it names exactly one of `deps` and `impact`,
/// then exactly one path, with known flags; `--json` turns the default text
/// format into `json`.
pub open spec fn relation_request(args: Seq<Seq<char>>) -> Option<(Seq<char>, Seq<char>, Seq<char>)> {
    match relation_scan(args, 0, relation_start()) {
        None => None,
        Some(st) => if st.command is None || st.positionals.len() != 1 {
            None
        } else {
            Some(
                (
                    st.command->0,
                    st.positionals[0],
                    if st.json && st.format == "text"@ {
                        "json"@
                    } else {
                        st.format
                    },
                ),
            )
        },
    }
}

/// Reads the command line of `ctx deps` or `ctx impact` (see
/// [`relation_request`]).
pub fn parse_relation_args(args: &[String]) -> (r: Option<RelationArgs>)
    ensures
        match r {
            Some(p) => relation_request(views(args@)) == Some((p.kind@, p.path@, p.format@)),
            None => relation_request(views(args@)) is None,
        },
{
    let ghost all = views(args@);
    let mut json: bool = false;
    let mut format: String = "text".to_owned();
    let mut command: Option<String> = None;
    let mut positionals: Vec<String> = Vec::new();
    let mut i: usize = 0;
    assert(views(positionals@) =~= Seq::<Seq<char>>::empty());
    while i < args.len()
        invariant
            all == views(args@),
            i <= args.len(),
            relation_scan(all, 0, relation_start()) == relation_scan(all, i as int, RelationScan { json: json, format: format@, command: match command { Some(s) => Some(s@), None => None, }, positionals: views(positionals@) }),
        decreases args.len() - i,
    {
        let arg = &args[i];
        let a = chars_of(arg.as_str());
        assert(a@ == all[i as int]);
        if is_word(&a, "--json") {
            json = true;
            i = i + 1;
        } else if let Some(v) = flag_value(arg.as_str(), "--format") {
            format = v;
            i = i + 1;
        } else if is_word(&a, "--format") {
            match next_arg(args, i) {
                None => return None,
                Some(v) => {
                    assert(v@ == all[i + 1]);
                    format = v.clone();
                },
            }
            i = i + 2;
        } else if flag_value(arg.as_str(), "--relations-engine").is_some() {
            i = i + 1;
        } else if is_word(&a, "--relations-engine") {
            if next_arg(args, i).is_none() {
                return None;
            }
            i = i + 2;
        } else if is_word(&a, "deps") {
            if command.is_some() {
                return None;
            }
            command = Some("deps".to_owned());
            i = i + 1;
        } else if is_word(&a, "impact") {
            if command.is_some() {
                return None;
            }
            command = Some("impact".to_owned());
            i = i + 1;
        } else if a.len() > 0 && a[0] == '-' {
            return None;
        } else if command.is_some() {
            let ghost before = views(positionals@);
            positionals.push(arg.clone());
            assert(views(positionals@) =~= before.push(a@));
            i = i + 1;
        } else {
            return None;
        }
    }
    if json && is_word(&chars_of(format.as_str()), "text") {
        format = "json".to_owned();
    }
    let kind = match command {
        None => return None,
        Some(c) => c,
    };
    if positionals.len() != 1 {
        return None;
    }
    let path = positionals[0].clone();
    Some(RelationArgs { kind, path, format })
}

/// The files one file depends on (`deps`) or that depend on it (`impact`).
#[derive(Debug, Clone, PartialEq, Eq)]
pub struct RelationList {
    pub path: String,
    pub kind: String,
    pub items: Vec<String>,
}

/// The item lines of the text view, from the first `n` items.
pub open spec fn relation_lines(items: Seq<Seq<char>>, n: int) -> Seq<char>
    decreases n,
{
    if n <= 0 {
        Seq::<char>::empty()
    } else {
        relation_lines(items, n - 1) + "  - "@ + items[n - 1] + "\n"@
    }
}

/// The text view of a relation list: a heading naming dependents (for
/// `impact`) or dependencies, then one line per file; a single line saying
/// none were found when there are none.
pub open spec fn relation_text(path: Seq<char>, kind: Seq<char>, items: Seq<Seq<char>>) -> Seq<char> {
    let impact = kind == "impact"@;
    if items.len() == 0 {
        (if impact {
            "No dependents found"@
        } else {
            "No dependencies found"@
        }) + " for "@ + path + ".\n"@
    } else {
        (if impact {
            "Dependents"@
        } else {
            "Dependencies"@
        }) + " for "@ + path + ":\n"@ + relation_lines(items, items.len() as int)
    }
}

/// The text view of a relation list (see [`relation_text`]).
pub fn render_relation_text(res: &RelationList) -> (r: String)
    ensures
        r@ == relation_text(res.path@, res.kind@, views(res.items@)),
{
    let impact = chars_eq(&chars_of(res.kind.as_str()), &chars_of("impact"));
    let mut out: Vec<char> = Vec::new();
    if res.items.len() == 0 {
        if impact {
            append_str(&mut out, "No dependents found");
        } else {
            append_str(&mut out, "No dependencies found");
        }
        append_str(&mut out, " for ");
        append_str(&mut out, res.path.as_str());
        append_str(&mut out, ".\n");
        return string_of(&out);
    }
    if impact {
        append_str(&mut out, "Dependents");
    } else {
        append_str(&mut out, "Dependencies");
    }
    append_str(&mut out, " for ");
    append_str(&mut out, res.path.as_str());
    append_str(&mut out, ":\n");
    let ghost head = out@;
    let ghost items = views(res.items@);
    let mut i: usize = 0;
    while i < res.items.len()
        invariant
            i <= res.items.len(),
            items == views(res.items@),
            out@ == head + relation_lines(items, i as int),
        decreases res.items.len() - i,
    {
        append_str(&mut out, "  - ");
        append_str(&mut out, res.items[i].as_str());
        append_str(&mut out, "\n");
        i = i + 1;
        assert(out@ =~= head + relation_lines(items, i as int));
    }
    string_of(&out)
}

} // verus!

