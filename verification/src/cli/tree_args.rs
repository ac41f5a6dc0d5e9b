//! The flags of `ctx [PATH]`, the command without a subcommand that shows
//! the tree of a directory.
use vstd::prelude::*;

use crate::cli::common::{flag_value, flag_value_of};
use crate::cli::log_args::is_word;
use crate::text::{chars_of, parse_i64, parse_i64_exec, slice_chars, starts_with, starts_with_exec, string_of, views};

verus! {

/// An integer flag at `args[i]`, long form `name` or short form `short`
/// (none when empty): `None` when its value is missing or not an `i64`,
/// `Some(None)` when the argument is not this flag, else the index after
/// the flag and its value, and the value. The short form takes its value
/// attached (`-L2`) or as the next argument.
pub open spec fn int_flag(args: Seq<Seq<char>>, i: int, name: Seq<char>, short: Seq<char>) -> Option<Option<(int, int)>> {
    let s = args[i];
    let has_next = i + 1 < args.len();
    if flag_value_of(s, name) is Some {
        match parse_i64(flag_value_of(s, name)->0) {
            None => None,
            Some(v) => Some(Some((i + 1, v))),
        }
    } else if short.len() > 0 && starts_with(s, short) && s.len() > short.len() {
        match parse_i64(s.skip(short.len() as int)) {
            None => None,
            Some(v) => Some(Some((i + 1, v))),
        }
    } else if (short.len() > 0 && s == short) || s == name {
        if !has_next {
            None
        } else {
            match parse_i64(args[i + 1]) {
                None => None,
                Some(v) => Some(Some((i + 2, v))),
            }
        }
    } else {
        Some(None)
    }
}

/// Reads an integer flag at `args[*i]` (see [`int_flag`]). When it matches,
/// `*i` is left at the last argument it used and `*out` holds the value.
pub fn int_root_flag(s: &str, name: &str, short: &str, i: &mut usize, args: &[String], out: &mut i64) -> (r: Option<bool>)
    requires
        *old(i) < args@.len(),
        s@ == args@[*old(i) as int]@,
    ensures
        match int_flag(views(args@), *old(i) as int, name@, short@) {
            None => r is None,
            Some(None) => r == Some(false) && *final(i) == *old(i) && *final(out) == *old(out),
            Some(Some((j, v))) => r == Some(true) && *final(i) == j - 1 && *final(out) == v,
        },
{
    assert(views(args@)[*i as int] == s@);
    if let Some(v) = flag_value(s, name) {
        match parse_i64_exec(&chars_of(v.as_str())) {
            None => return None,
            Some(n) => {
                *out = n;
                return Some(true);
            },
        }
    }
    let sc = chars_of(s);
    let shc = chars_of(short);
    if shc.len() > 0 && starts_with_exec(&sc, &shc) && sc.len() > shc.len() {
        let rest = slice_chars(&sc, shc.len(), sc.len());
        assert(rest@ =~= s@.skip(short@.len() as int));
        match parse_i64_exec(&rest) {
            None => return None,
            Some(n) => {
                *out = n;
                return Some(true);
            },
        }
    }
    if (shc.len() > 0 && crate::text::chars_eq(&sc, &shc)) || is_word(&sc, name) {
        assert(*i < args.len());
        if *i + 1 >= args.len() {
            return None;
        }
        *i = *i + 1;
        assert(views(args@)[*i as int] == args@[*i as int]@);
        match parse_i64_exec(&chars_of(args[*i].as_str())) {
            None => return None,
            Some(n) => {
                *out = n;
                return Some(true);
            },
        }
    }
    Some(false)
}

/// A text flag at `args[i]`, `name=value` or `name value`: `None` when the
/// value is missing, `Some(None)` when the argument is not this flag, else
/// the index after it and the value.
pub open spec fn string_flag(args: Seq<Seq<char>>, i: int, name: Seq<char>) -> Option<Option<(int, Seq<char>)>> {
    let s = args[i];
    if flag_value_of(s, name) is Some {
        Some(Some((i + 1, flag_value_of(s, name)->0)))
    } else if s == name {
        if i + 1 < args.len() {
            Some(Some((i + 2, args[i + 1])))
        } else {
            None
        }
    } else {
        Some(None)
    }
}

/// Reads a text flag at `args[*i]` (see [`string_flag`]). When it matches,
/// `*i` is left at the last argument it used and `*out` holds the value.
pub fn string_root_flag(s: &str, name: &str, i: &mut usize, args: &[String], out: &mut String) -> (r: Option<bool>)
    requires
        *old(i) < args@.len(),
        s@ == args@[*old(i) as int]@,
    ensures
        match string_flag(views(args@), *old(i) as int, name@) {
            None => r is None,
            Some(None) => r == Some(false) && *final(i) == *old(i) && final(out)@ == old(out)@,
            Some(Some((j, v))) => r == Some(true) && *final(i) == j - 1 && final(out)@ == v,
        },
{
    assert(views(args@)[*i as int] == s@);
    if let Some(v) = flag_value(s, name) {
        *out = v;
        return Some(true);
    }
    if is_word(&chars_of(s), name) {
        assert(*i < args.len());
        if *i + 1 >= args.len() {
            return None;
        }
        *i = *i + 1;
        assert(views(args@)[*i as int] == args@[*i as int]@);
        *out = args[*i].clone();
        return Some(true);
    }
    Some(false)
}

/// The flags of `ctx [PATH]`, by view.
pub struct RootScan {
    pub path: Option<Seq<char>>,
    pub want_json: bool,
    pub show_git: bool,
    pub plain: bool,
    pub depth: int,
    pub budget: int,
    pub unit: Seq<char>,
    pub plan: Seq<char>,
    pub since: Seq<char>,
    pub until: Seq<char>,
    pub use_mtime: bool,
}

/// The defaults: git shown, tokens as the unit.
pub open spec fn root_start() -> RootScan {
    RootScan {
        path: None,
        want_json: false,
        show_git: true,
        plain: false,
        depth: 0,
        budget: 0,
        unit: "tokens"@,
        plan: Seq::empty(),
        since: Seq::empty(),
        until: Seq::empty(),
        use_mtime: false,
    }
}

/// The switches of the root command, each on or off (`--x`, `--x=true`,
/// `--x=false`), and the flags that end native handling: `Some(st)` with
/// the switch applied, `None` to refuse, or `st` itself untouched when the
/// argument is none of them (told apart by the caller).
pub open spec fn root_switch(a: Seq<char>, st: RootScan) -> Option<RootScan> {
    if a == "--json"@ || a == "--json=true"@ {
        Some(RootScan { want_json: true, ..st })
    } else if a == "--json=false"@ {
        Some(RootScan { want_json: false, ..st })
    } else if a == "--git"@ || a == "--git=true"@ {
        Some(RootScan { show_git: true, ..st })
    } else if a == "--git=false"@ {
        Some(RootScan { show_git: false, ..st })
    } else if a == "--plain"@ || a == "--plain=true"@ {
        Some(RootScan { plain: true, ..st })
    } else if a == "--plain=false"@ {
        Some(RootScan { plain: false, ..st })
    } else if a == "--tokens"@ || a == "--tokens=true"@ || a == "--tokens=false"@ {
        Some(st)
    } else if a == "--use-mtime"@ || a == "--use-mtime=true"@ {
        Some(RootScan { use_mtime: true, ..st })
    } else {
        Some(RootScan { use_mtime: false, ..st })
    }
}

/// Whether `a` is one of the switches of [`root_switch`].
pub open spec fn is_root_switch(a: Seq<char>) -> bool {
    a == "--json"@ || a == "--json=true"@ || a == "--json=false"@ || a == "--git"@ || a
        == "--git=true"@ || a == "--git=false"@ || a == "--plain"@ || a == "--plain=true"@ || a
        == "--plain=false"@ || a == "--tokens"@ || a == "--tokens=true"@ || a == "--tokens=false"@
        || a == "--use-mtime"@ || a == "--use-mtime=true"@ || a == "--use-mtime=false"@
}

/// Flags whose output this command does not produce.
pub open spec fn refused_root_flag(a: Seq<char>) -> bool {
    a == "--symbols"@ || a == "--symbols=true"@ || a == "--tui"@ || a == "--tui=true"@
}

/// Reads the arguments from `i` on; `None` when one is refused.
pub open spec fn root_scan(args: Seq<Seq<char>>, i: int, st: RootScan) -> Option<RootScan>
    decreases args.len() - i, 1nat,
{
    if i < 0 || i >= args.len() {
        Some(st)
    } else {
        let a = args[i];
        if is_root_switch(a) {
            root_scan(args, i + 1, root_switch(a, st)->0)
        } else if refused_root_flag(a) {
            None
        } else {
            match int_flag(args, i, "--depth"@, "-L"@) {
                None => None,
                Some(Some((j, v))) => if j > i {
                    root_scan(args, j, RootScan { depth: v, ..st })
                } else {
                    None
                },
                Some(None) => match int_flag(args, i, "--budget"@, Seq::empty()) {
                    None => None,
                    Some(Some((j, v))) => if j > i {
                        root_scan(args, j, RootScan { budget: v, ..st })
                    } else {
                        None
                    },
                    Some(None) => root_text_flags(args, i, st),
                },
            }
        }
    }
}

/// The text flags and positional path of [`root_scan`].
pub open spec fn root_text_flags(args: Seq<Seq<char>>, i: int, st: RootScan) -> Option<RootScan>
    decreases args.len() - i, 0nat,
{
    if i < 0 || i >= args.len() {
        Some(st)
    } else {
        let a = args[i];
        match string_flag(args, i, "--unit"@) {
            None => None,
            Some(Some((j, v))) => if j > i {
                root_scan(args, j, RootScan { unit: v, ..st })
            } else {
                None
            },
            Some(None) => match string_flag(args, i, "--plan"@) {
                None => None,
                Some(Some((j, v))) => if j > i {
                    root_scan(args, j, RootScan { plan: v, ..st })
                } else {
                    None
                },
                Some(None) => match string_flag(args, i, "--since"@) {
                    None => None,
                    Some(Some((j, v))) => if j > i {
                        root_scan(args, j, RootScan { since: v, ..st })
                    } else {
                        None
                    },
                    Some(None) => match string_flag(args, i, "--until"@) {
                        None => None,
                        Some(Some((j, v))) => if j > i {
                            root_scan(args, j, RootScan { until: v, ..st })
                        } else {
                            None
                        },
                        Some(None) => if starts_with(a, "--symbols"@) || starts_with(a, "--tui"@) {
                            None
                        } else if a.len() > 0 && a[0] == '-' {
                            None
                        } else if st.path is Some {
                            None
                        } else {
                            root_scan(args, i + 1, RootScan { path: Some(a), ..st })
                        },
                    },
                },
            },
        }
    }
}

/// The flags of `ctx [PATH]`.
#[derive(Debug, Clone, PartialEq, Eq)]
pub struct RootArgs {
    pub path: Option<String>,
    pub want_json: bool,
    pub show_git: bool,
    pub plain: bool,
    pub depth: i64,
    pub budget: i64,
    pub unit: String,
    pub plan: String,
    pub since: String,
    pub until: String,
    pub use_mtime: bool,
}

impl RootArgs {
    /// The view of the flags.
    pub open spec fn view_of(self) -> RootScan {
        RootScan {
            path: match self.path {
                Some(p) => Some(p@),
                None => None,
            },
            want_json: self.want_json,
            show_git: self.show_git,
            plain: self.plain,
            depth: self.depth as int,
            budget: self.budget as int,
            unit: self.unit@,
            plan: self.plan@,
            since: self.since@,
            until: self.until@,
            use_mtime: self.use_mtime,
        }
    }
}

/// Whether `a` is one of the switches of [`root_switch`].
fn root_switch_exec(a: &Vec<char>, r: &mut RootArgs) -> (matched: bool)
    ensures
        matched == is_root_switch(a@),
        matched ==> final(r).view_of() == root_switch(a@, old(r).view_of())->0,
        !matched ==> *final(r) == *old(r),
{
    if is_word(a, "--json") || is_word(a, "--json=true") {
        r.want_json = true;
    } else if is_word(a, "--json=false") {
        r.want_json = false;
    } else if is_word(a, "--git") || is_word(a, "--git=true") {
        r.show_git = true;
    } else if is_word(a, "--git=false") {
        r.show_git = false;
    } else if is_word(a, "--plain") || is_word(a, "--plain=true") {
        r.plain = true;
    } else if is_word(a, "--plain=false") {
        r.plain = false;
    } else if is_word(a, "--tokens") || is_word(a, "--tokens=true") || is_word(a, "--tokens=false") {
    } else if is_word(a, "--use-mtime") || is_word(a, "--use-mtime=true") {
        r.use_mtime = true;
    } else if is_word(a, "--use-mtime=false") {
        r.use_mtime = false;
    } else {
        return false;
    }
    true
}

/// Reads the flags of `ctx [PATH]` (see [`root_scan`]): `None` for the
/// flags whose output is not produced here, unknown flags, a missing or
/// malformed value, or a second path.
pub fn parse_root_args(args: &[String]) -> (r: Option<RootArgs>)
    ensures
        match r {
            Some(p) => root_scan(views(args@), 0, root_start()) == Some(p.view_of()),
            None => root_scan(views(args@), 0, root_start()) is None,
        },
{
    let ghost all = views(args@);
    let mut r = RootArgs {
        path: None,
        want_json: false,
        show_git: true,
        plain: false,
        depth: 0,
        budget: 0,
        unit: "tokens".to_owned(),
        plan: String::new(),
        since: String::new(),
        until: String::new(),
        use_mtime: false,
    };
    let mut i: usize = 0;
    while i < args.len()
        invariant
            all == views(args@),
            i <= args.len(),
            root_scan(all, 0, root_start()) == root_scan(all, i as int, r.view_of()),
        decreases args.len() - i,
    {
        let a = chars_of(args[i].as_str());
        assert(a@ == all[i as int]);
        match root_step_exec(&a, &mut i, args, &mut r) {
            None => return None,
            Some(()) => {},
        }
    }
    Some(r)
}

/// One step of [`root_scan`] at `args[*i]`; on success `*i` is the index
/// of the next argument to read.
fn root_step_exec(a: &Vec<char>, i: &mut usize, args: &[String], r: &mut RootArgs) -> (res: Option<()>)
    requires
        *old(i) < args@.len(),
        a@ == args@[*old(i) as int]@,
    ensures
        match res {
            None => root_scan(views(args@), *old(i) as int, old(r).view_of()) is None,
            Some(()) => *old(i) < *final(i) <= args@.len() && root_scan(
                views(args@),
                *old(i) as int,
                old(r).view_of(),
            ) == root_scan(views(args@), *final(i) as int, final(r).view_of()),
        },
{
    let ghost all = views(args@);
    let ghost st = r.view_of();
    let ghost i0 = *i as int;
    assert(*i < args.len());
    assert(all[i0] == a@);
    if root_switch_exec(a, r) {
        *i = *i + 1;
        return Some(());
    }
    if is_word(a, "--symbols") || is_word(a, "--symbols=true") || is_word(a, "--tui") || is_word(
        a,
        "--tui=true",
    ) {
        return None;
    }
    let s = string_of(a);
    let mut depth = r.depth;
    assert(!is_root_switch(all[i0]));
    assert(!refused_root_flag(all[i0]));
    match int_root_flag(s.as_str(), "--depth", "-L", i, args, &mut depth) {
        None => {
            assert(int_flag(all, i0, "--depth"@, "-L"@) is None);
            assert(root_scan(all, i0, st) is None);
            return None;
        },
        Some(true) => {
            r.depth = depth;
            *i = *i + 1;
            assert(r.view_of() == RootScan { depth: depth as int, ..st });
            return Some(());
        },
        Some(false) => {},
    }
    assert(*i as int == i0);
    let mut budget = r.budget;
    proof {
        reveal_strlit("");
    }
    assert(""@ =~= Seq::<char>::empty());
    match int_root_flag(s.as_str(), "--budget", "", i, args, &mut budget) {
        None => return None,
        Some(true) => {
            r.budget = budget;
            *i = *i + 1;
            assert(r.view_of() == RootScan { budget: budget as int, ..st });
            return Some(());
        },
        Some(false) => {},
    }
    assert(*i as int == i0);
    assert(root_scan(all, i0, st) == root_text_flags(all, i0, st));
    root_text_exec(a, i, args, r)
}

/// The text flags and the path of [`root_text_flags`] at `args[*i]`; on
/// success `*i` is the index of the next argument to read.
fn root_text_exec(a: &Vec<char>, i: &mut usize, args: &[String], r: &mut RootArgs) -> (res: Option<()>)
    requires
        *old(i) < args@.len(),
        a@ == args@[*old(i) as int]@,
    ensures
        match res {
            None => root_text_flags(views(args@), *old(i) as int, old(r).view_of()) is None,
            Some(()) => *old(i) < *final(i) <= args@.len() && root_text_flags(
                views(args@),
                *old(i) as int,
                old(r).view_of(),
            ) == root_scan(views(args@), *final(i) as int, final(r).view_of()),
        },
{
    let ghost all = views(args@);
    let ghost st = r.view_of();
    let ghost i0 = *i as int;
    assert(*i < args.len());
    assert(all[i0] == a@);
    let s = string_of(a);
    let mut v = r.unit.clone();
    match string_root_flag(s.as_str(), "--unit", i, args, &mut v) {
        None => return None,
        Some(true) => {
            r.unit = v;
            *i = *i + 1;
            assert(r.view_of() == RootScan { unit: r.unit@, ..st });
            return Some(());
        },
        Some(false) => {},
    }
    assert(*i as int == i0);
    let mut v = r.plan.clone();
    match string_root_flag(s.as_str(), "--plan", i, args, &mut v) {
        None => return None,
        Some(true) => {
            r.plan = v;
            *i = *i + 1;
            assert(r.view_of() == RootScan { plan: r.plan@, ..st });
            return Some(());
        },
        Some(false) => {},
    }
    assert(*i as int == i0);
    let mut v = r.since.clone();
    match string_root_flag(s.as_str(), "--since", i, args, &mut v) {
        None => return None,
        Some(true) => {
            r.since = v;
            *i = *i + 1;
            assert(r.view_of() == RootScan { since: r.since@, ..st });
            return Some(());
        },
        Some(false) => {},
    }
    assert(*i as int == i0);
    let mut v = r.until.clone();
    match string_root_flag(s.as_str(), "--until", i, args, &mut v) {
        None => return None,
        Some(true) => {
            r.until = v;
            *i = *i + 1;
            assert(r.view_of() == RootScan { until: r.until@, ..st });
            return Some(());
        },
        Some(false) => {},
    }
    assert(*i as int == i0);
    if starts_with_exec(a, &chars_of("--symbols")) || starts_with_exec(a, &chars_of("--tui")) {
        return None;
    }
    if a.len() > 0 && a[0] == '-' {
        return None;
    }
    if r.path.is_some() {
        return None;
    }
    r.path = Some(s);
    *i = *i + 1;
    assert(r.view_of() == RootScan { path: Some(a@), ..st });
    Some(())
}

} // verus!
