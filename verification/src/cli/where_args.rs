//! The command line of `ctx where`.
use vstd::prelude::*;

use crate::cli::common::{flag_value, flag_value_of};
use crate::cli::log_args::{is_word, next_arg};
use crate::text::{chars_of, parse_i64, parse_i64_exec, views};

verus! {

/// The options of `ctx where`.
#[derive(Debug, Clone, PartialEq, Eq)]
pub struct WhereArgs {
    pub root: String,
    pub query: String,
    pub limit: i64,
    pub format: String,
    pub context_n: i64,
    pub no_suggest: bool,
    pub require_all: bool,
    pub regex: String,
    pub explain: bool,
    pub plain: bool,
}

/// The options of `ctx where`, by view.
pub struct WhereArgsView {
    pub root: Seq<char>,
    pub query: Seq<char>,
    pub limit: int,
    pub format: Seq<char>,
    pub context_n: int,
    pub no_suggest: bool,
    pub require_all: bool,
    pub regex: Seq<char>,
    pub explain: bool,
    pub plain: bool,
}

impl WhereArgs {
    /// The view of the options.
    pub open spec fn view_of(self) -> WhereArgsView {
        WhereArgsView {
            root: self.root@,
            query: self.query@,
            limit: self.limit as int,
            format: self.format@,
            context_n: self.context_n as int,
            no_suggest: self.no_suggest,
            require_all: self.require_all,
            regex: self.regex@,
            explain: self.explain,
            plain: self.plain,
        }
    }
}

/// What the arguments read so far have set.
pub struct WhereScan {
    pub json: bool,
    pub plain: bool,
    pub limit: int,
    pub format: Seq<char>,
    pub context_n: int,
    pub no_suggest: bool,
    pub require_all: bool,
    pub regex: Seq<char>,
    pub explain: bool,
    pub saw: bool,
    pub positionals: Seq<Seq<char>>,
}

/// Nothing read yet.
pub open spec fn where_start() -> WhereScan {
    WhereScan {
        json: false,
        plain: false,
        limit: 10,
        format: "default"@,
        context_n: 0,
        no_suggest: false,
        require_all: false,
        regex: Seq::empty(),
        explain: false,
        saw: false,
        positionals: Seq::empty(),
    }
}

/// Reads the arguments from `i` on; `None` when one is refused.
pub open spec fn where_scan(args: Seq<Seq<char>>, i: int, st: WhereScan) -> Option<WhereScan>
    decreases args.len() - i,
{
    if i < 0 || i >= args.len() {
        Some(st)
    } else {
        let a = args[i];
        let has_next = i + 1 < args.len();
        if a == "--json"@ {
            where_scan(args, i + 1, WhereScan { json: true, ..st })
        } else if a == "--plain"@ {
            where_scan(args, i + 1, WhereScan { plain: true, ..st })
        } else if a == "where"@ {
            if st.saw {
                None
            } else {
                where_scan(args, i + 1, WhereScan { saw: true, ..st })
            }
        } else if flag_value_of(a, "--limit"@) is Some {
            match parse_i64(flag_value_of(a, "--limit"@)->0) {
                None => None,
                Some(n) => where_scan(args, i + 1, WhereScan { limit: n, ..st }),
            }
        } else if a == "--limit"@ {
            if !has_next {
                None
            } else {
                match parse_i64(args[i + 1]) {
                    None => None,
                    Some(n) => where_scan(args, i + 2, WhereScan { limit: n, ..st }),
                }
            }
        } else if flag_value_of(a, "--format"@) is Some {
            where_scan(args, i + 1, WhereScan { format: flag_value_of(a, "--format"@)->0, ..st })
        } else if a == "--format"@ {
            if !has_next {
                None
            } else {
                where_scan(args, i + 2, WhereScan { format: args[i + 1], ..st })
            }
        } else if flag_value_of(a, "--context"@) is Some {
            match parse_i64(flag_value_of(a, "--context"@)->0) {
                None => None,
                Some(n) => where_scan(args, i + 1, WhereScan { context_n: n, ..st }),
            }
        } else if a == "--context"@ {
            if !has_next {
                None
            } else {
                match parse_i64(args[i + 1]) {
                    None => None,
                    Some(n) => where_scan(args, i + 2, WhereScan { context_n: n, ..st }),
                }
            }
        } else if a == "--no-suggest"@ {
            where_scan(args, i + 1, WhereScan { no_suggest: true, ..st })
        } else if a == "--all"@ {
            where_scan(args, i + 1, WhereScan { require_all: true, ..st })
        } else if flag_value_of(a, "--regex"@) is Some {
            where_scan(args, i + 1, WhereScan { regex: flag_value_of(a, "--regex"@)->0, ..st })
        } else if a == "--regex"@ {
            if !has_next {
                None
            } else {
                where_scan(args, i + 2, WhereScan { regex: args[i + 1], ..st })
            }
        } else if a == "--explain"@ {
            where_scan(args, i + 1, WhereScan { explain: true, ..st })
        } else if flag_value_of(a, "--where-engine"@) is Some {
            where_scan(args, i + 1, st)
        } else if a == "--where-engine"@ {
            if !has_next {
                None
            } else {
                where_scan(args, i + 2, st)
            }
        } else if a.len() > 0 && a[0] == '-' {
            None
        } else if st.saw {
            where_scan(args, i + 1, WhereScan { positionals: st.positionals.push(a), ..st })
        } else {
            None
        }
    }
}

/// What a command line asks of `ctx where`: `None` unless it names `where`
/// once, with at most a query and a root (empty and `.` when left out) and
/// known flags; `--json` sets the format to `json`.
pub open spec fn where_request(args: Seq<Seq<char>>) -> Option<WhereArgsView> {
    match where_scan(args, 0, where_start()) {
        None => None,
        Some(st) => if !st.saw || st.positionals.len() > 2 {
            None
        } else {
            Some(
                WhereArgsView {
                    root: if st.positionals.len() == 2 {
                        st.positionals[1]
                    } else {
                        "."@
                    },
                    query: if st.positionals.len() >= 1 {
                        st.positionals[0]
                    } else {
                        Seq::empty()
                    },
                    limit: st.limit,
                    format: if st.json {
                        "json"@
                    } else {
                        st.format
                    },
                    context_n: st.context_n,
                    no_suggest: st.no_suggest,
                    require_all: st.require_all,
                    regex: st.regex,
                    explain: st.explain,
                    plain: st.plain,
                },
            )
        },
    }
}

/// Reads the command line of `ctx where` (see [`where_request`]).
pub fn parse_where_args(args: &[String]) -> (r: Option<WhereArgs>)
    ensures
        match r {
            Some(w) => where_request(views(args@)) == Some(w.view_of()),
            None => where_request(views(args@)) is None,
        },
{
    let ghost all = views(args@);
    let mut json: bool = false;
    let mut plain: bool = false;
    let mut limit: i64 = 10;
    let mut format: String = "default".to_owned();
    let mut context_n: i64 = 0;
    let mut no_suggest: bool = false;
    let mut require_all: bool = false;
    let mut regex: String = String::new();
    let mut explain: bool = false;
    let mut saw: bool = false;
    let mut positionals: Vec<String> = Vec::new();
    let mut i: usize = 0;
    assert(views(positionals@) =~= Seq::<Seq<char>>::empty());
    while i < args.len()
        invariant
            all == views(args@),
            i <= args.len(),
            where_scan(all, 0, where_start()) == where_scan(all, i as int, WhereScan { json: json, plain: plain, limit: limit as int, format: format@, context_n: context_n as int, no_suggest: no_suggest, require_all: require_all, regex: regex@, explain: explain, saw: saw, positionals: views(positionals@) }),
        decreases args.len() - i,
    {
        let arg = &args[i];
        let a = chars_of(arg.as_str());
        assert(a@ == all[i as int]);
        if is_word(&a, "--json") {
            json = true;
            i = i + 1;
        } else if is_word(&a, "--plain") {
            plain = true;
            i = i + 1;
        } else if is_word(&a, "where") {
            if saw {
                return None;
            }
            saw = true;
            i = i + 1;
        } else if let Some(v) = flag_value(arg.as_str(), "--limit") {
            match parse_i64_exec(&chars_of(v.as_str())) {
                None => return None,
                Some(n) => {
                    limit = n;
                },
            }
            i = i + 1;
        } else if is_word(&a, "--limit") {
            match next_arg(args, i) {
                None => return None,
                Some(v) => {
                    assert(v@ == all[i + 1]);
                    match parse_i64_exec(&chars_of(v.as_str())) {
                        None => return None,
                        Some(n) => {
                            limit = n;
                        },
                    }
                },
            }
            i = i + 2;
        } else if let Some(v) = flag_value(arg.as_str(), "--format") {
            format = v;
            i = i + 1;
        } else if is_word(&a, "--format") {
            match next_arg(args, i) {
                None => return None,
                Some(v) => {
                    assert(v@ == all[i + 1]);
                    format = v.clone();
                },
            }
            i = i + 2;
        } else if let Some(v) = flag_value(arg.as_str(), "--context") {
            match parse_i64_exec(&chars_of(v.as_str())) {
                None => return None,
                Some(n) => {
                    context_n = n;
                },
            }
            i = i + 1;
        } else if is_word(&a, "--context") {
            match next_arg(args, i) {
                None => return None,
                Some(v) => {
                    assert(v@ == all[i + 1]);
                    match parse_i64_exec(&chars_of(v.as_str())) {
                        None => return None,
                        Some(n) => {
                            context_n = n;
                        },
                    }
                },
            }
            i = i + 2;
        } else if is_word(&a, "--no-suggest") {
            no_suggest = true;
            i = i + 1;
        } else if is_word(&a, "--all") {
            require_all = true;
            i = i + 1;
        } else if let Some(v) = flag_value(arg.as_str(), "--regex") {
            regex = v;
            i = i + 1;
        } else if is_word(&a, "--regex") {
            match next_arg(args, i) {
                None => return None,
                Some(v) => {
                    assert(v@ == all[i + 1]);
                    regex = v.clone();
                },
            }
            i = i + 2;
        } else if is_word(&a, "--explain") {
            explain = true;
            i = i + 1;
        } else if flag_value(arg.as_str(), "--where-engine").is_some() {
            i = i + 1;
        } else if is_word(&a, "--where-engine") {
            if next_arg(args, i).is_none() {
                return None;
            }
            i = i + 2;
        } else if a.len() > 0 && a[0] == '-' {
            return None;
        } else if saw {
            let ghost before = views(positionals@);
            positionals.push(arg.clone());
            assert(views(positionals@) =~= before.push(a@));
            i = i + 1;
        } else {
            return None;
        }
    }
    if !saw || positionals.len() > 2 {
        return None;
    }
    if json {
        format = "json".to_owned();
    }
    let query = if positionals.len() >= 1 {
        positionals[0].clone()
    } else {
        String::new()
    };
    let root = if positionals.len() == 2 {
        positionals[1].clone()
    } else {
        ".".to_owned()
    };
    Some(WhereArgs { root, query, limit, format, context_n, no_suggest, require_all, regex, explain, plain })
}

} // verus!

