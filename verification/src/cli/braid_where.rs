//! The flags of a `where` strand of `braid.toml`: how many files to keep,
//! a regular expression to match, whether every term must match, and how
//! many lines of context to show.
use vstd::prelude::*;

use regex::Regex;

use crate::cli::braid_cmd::{flag_text, string_flag_value};
use crate::text::{append_str, chars_eq, chars_of, debug_quoted, debug_text, parse_i64, parse_i64_exec, string_of, views};

verus! {

/// Names the text of the error `str::parse::<i64>` gives for `s`.
pub uninterp spec fn int_error_text(s: Seq<char>) -> Seq<char>;

/// Calls `str::parse::<i64>` and renders its error. The text is a function
/// of `s` alone, named [`int_error_text`]; nothing more is claimed of it.
#[verifier::external_body]
fn int_parse_error(s: &str) -> (r: String)
    ensures
        r@ == int_error_text(s@),
{
    match s.parse::<i64>() {
        Ok(_) => String::new(),
        Err(e) => e.to_string(),
    }
}

/// Names what `regex::Regex::new` says of a pattern: `None` when it
/// compiles, else the text of its error.
pub uninterp spec fn regex_error_text(pattern: Seq<char>) -> Option<Seq<char>>;

/// Calls `regex::Regex::new` on the pattern and renders its error. The
/// outcome is a function of the pattern alone, named
/// [`regex_error_text`]; nothing more is claimed of it.
#[verifier::external_body]
fn regex_error(pattern: &str) -> (r: Option<String>)
    ensures
        regex_error_text(pattern@) == (match r {
            Some(e) => Some(e@),
            None => None::<Seq<char>>,
        }),
{
    match Regex::new(pattern) {
        Ok(_) => None,
        Err(e) => Some(e.to_string()),
    }
}

/// The options of a `where` strand.
#[derive(Debug, Clone, PartialEq, Eq)]
pub struct WhereStrandFlags {
    pub limit: i64,
    pub regex: String,
    pub require_all: bool,
    pub context: i64,
}

/// The options by view.
pub struct WhereFlagsView {
    pub limit: int,
    pub regex: Seq<char>,
    pub require_all: bool,
    pub context: int,
}

impl WhereStrandFlags {
    /// The view of the options.
    pub open spec fn view_of(self) -> WhereFlagsView {
        WhereFlagsView {
            limit: self.limit as int,
            regex: self.regex@,
            require_all: self.require_all,
            context: self.context as int,
        }
    }
}

/// The start of the errors of a strand's flags.
pub open spec fn flag_error(strand: Seq<char>, what: Seq<char>) -> Seq<char> {
    "braid: strand "@ + debug_text(strand) + ": parse strand source flags: "@ + what
}

/// The options before any flag: 50 files, no pattern, any term, no
/// context.
pub open spec fn where_defaults() -> WhereFlagsView {
    WhereFlagsView { limit: 50, regex: Seq::empty(), require_all: false, context: 0 }
}

/// The value of a numeric flag, or the error of reading it.
pub open spec fn int_flag(strand: Seq<char>, v: Seq<char>) -> Result<int, Seq<char>> {
    match parse_i64(v) {
        Some(n) => Ok(n),
        None => Err(flag_error(strand, int_error_text(v))),
    }
}

/// The options after the flags from `i` on, `st` holding those before:
/// `--limit` and `--context` take a number and `--regex` a pattern, each
/// as `--flag=value` or followed by the value; `--all` asks for every
/// term; `--format` and its value are accepted and ignored. A flag missing
/// its value, a value that is not a number, and an unknown flag are
/// refused.
pub open spec fn where_flags_from(
    strand: Seq<char>,
    flags: Seq<Seq<char>>,
    i: int,
    st: WhereFlagsView,
) -> Result<WhereFlagsView, Seq<char>>
    decreases flags.len() - i,
{
    if i < 0 || i >= flags.len() {
        Ok(st)
    } else {
        let arg = flags[i];
        let has_next = i + 1 < flags.len();
        if flag_text(arg, "--limit"@) is Some {
            match int_flag(strand, flag_text(arg, "--limit"@)->0) {
                Err(e) => Err(e),
                Ok(n) => where_flags_from(strand, flags, i + 1, WhereFlagsView { limit: n, ..st }),
            }
        } else if arg == "--limit"@ {
            if !has_next {
                Err(flag_error(strand, "flag needs an argument: --limit"@))
            } else {
                match int_flag(strand, flags[i + 1]) {
                    Err(e) => Err(e),
                    Ok(n) => where_flags_from(strand, flags, i + 2, WhereFlagsView { limit: n, ..st }),
                }
            }
        } else if flag_text(arg, "--regex"@) is Some {
            where_flags_from(
                strand,
                flags,
                i + 1,
                WhereFlagsView { regex: flag_text(arg, "--regex"@)->0, ..st },
            )
        } else if arg == "--regex"@ {
            if !has_next {
                Err(flag_error(strand, "flag needs an argument: --regex"@))
            } else {
                where_flags_from(strand, flags, i + 2, WhereFlagsView { regex: flags[i + 1], ..st })
            }
        } else if arg == "--all"@ {
            where_flags_from(strand, flags, i + 1, WhereFlagsView { require_all: true, ..st })
        } else if flag_text(arg, "--context"@) is Some {
            match int_flag(strand, flag_text(arg, "--context"@)->0) {
                Err(e) => Err(e),
                Ok(n) => where_flags_from(strand, flags, i + 1, WhereFlagsView { context: n, ..st }),
            }
        } else if arg == "--context"@ {
            if !has_next {
                Err(flag_error(strand, "flag needs an argument: --context"@))
            } else {
                match int_flag(strand, flags[i + 1]) {
                    Err(e) => Err(e),
                    Ok(n) => where_flags_from(strand, flags, i + 2, WhereFlagsView { context: n, ..st }),
                }
            }
        } else if flag_text(arg, "--format"@) is Some {
            where_flags_from(strand, flags, i + 1, st)
        } else if arg == "--format"@ {
            if !has_next {
                Err(flag_error(strand, "flag needs an argument: --format"@))
            } else {
                where_flags_from(strand, flags, i + 2, st)
            }
        } else {
            Err(flag_error(strand, "flag provided but not defined: "@ + arg))
        }
    }
}

/// The options of a `where` strand named `strand`: its flags read from the
/// defaults (see [`where_flags_from`]), then a pattern that does not
/// compile refused.
pub open spec fn where_strand_request(strand: Seq<char>, flags: Seq<Seq<char>>) -> Result<WhereFlagsView, Seq<char>> {
    match where_flags_from(strand, flags, 0, where_defaults()) {
        Err(e) => Err(e),
        Ok(st) => if st.regex.len() > 0 && regex_error_text(st.regex) is Some {
            Err("braid: strand "@ + debug_text(strand) + ": invalid regex: "@ + regex_error_text(st.regex)->0)
        } else {
            Ok(st)
        },
    }
}

/// An error of a strand's flags (see [`flag_error`]).
fn flag_error_exec(strand: &str, what: &str) -> (r: String)
    ensures
        r@ == flag_error(strand@, what@),
{
    let mut v = chars_of("braid: strand ");
    append_str(&mut v, debug_quoted(strand).as_str());
    append_str(&mut v, ": parse strand source flags: ");
    append_str(&mut v, what);
    string_of(&v)
}

/// The value of a numeric flag (see [`int_flag`]).
fn int_flag_exec(strand: &str, v: &str) -> (r: Result<i64, String>)
    ensures
        match int_flag(strand@, v@) {
            Ok(n) => r == Ok::<i64, String>(n as i64),
            Err(e) => r matches Err(m) && m@ == e,
        },
{
    match parse_i64_exec(&chars_of(v)) {
        Some(n) => Ok(n),
        None => Err(flag_error_exec(strand, int_parse_error(v).as_str())),
    }
}

/// Whether `arg` is the word `w`.
fn is_arg(arg: &str, w: &str) -> (r: bool)
    ensures
        r == (arg@ == w@),
{
    chars_eq(&chars_of(arg), &chars_of(w))
}

/// Reads the flag at `i` into `st` (see [`where_flags_from`]): the index
/// of the next flag, or the error.
fn where_step(strand: &str, flags: &[String], i: usize, st: &mut WhereStrandFlags) -> (r: Result<usize, String>)
    requires
        i < flags.len(),
    ensures
        match r {
            Ok(j) => i < j <= flags.len() && where_flags_from(strand@, views(flags@), i as int, old(st).view_of())
                == where_flags_from(strand@, views(flags@), j as int, final(st).view_of()),
            Err(m) => where_flags_from(strand@, views(flags@), i as int, old(st).view_of()) == Err::<
                WhereFlagsView,
                Seq<char>,
            >(m@),
        },
{
    let ghost fl = views(flags@);
    let arg = flags[i].as_str();
    assert(fl[i as int] == arg@);
    let has_next = i + 1 < flags.len();
    if has_next {
        assert(fl[i + 1] == flags@[i + 1]@);
    }
    if let Some(v) = string_flag_value(arg, "--limit") {
        let n = int_flag_exec(strand, v.as_str())?;
        st.limit = n;
        Ok(i + 1)
    } else if is_arg(arg, "--limit") {
        if !has_next {
            return Err(flag_error_exec(strand, "flag needs an argument: --limit"));
        }
        let n = int_flag_exec(strand, flags[i + 1].as_str())?;
        st.limit = n;
        Ok(i + 2)
    } else if let Some(v) = string_flag_value(arg, "--regex") {
        st.regex = v;
        Ok(i + 1)
    } else if is_arg(arg, "--regex") {
        if !has_next {
            return Err(flag_error_exec(strand, "flag needs an argument: --regex"));
        }
        st.regex = flags[i + 1].clone();
        Ok(i + 2)
    } else if is_arg(arg, "--all") {
        st.require_all = true;
        Ok(i + 1)
    } else if let Some(v) = string_flag_value(arg, "--context") {
        let n = int_flag_exec(strand, v.as_str())?;
        st.context = n;
        Ok(i + 1)
    } else if is_arg(arg, "--context") {
        if !has_next {
            return Err(flag_error_exec(strand, "flag needs an argument: --context"));
        }
        let n = int_flag_exec(strand, flags[i + 1].as_str())?;
        st.context = n;
        Ok(i + 2)
    } else if string_flag_value(arg, "--format").is_some() {
        Ok(i + 1)
    } else if is_arg(arg, "--format") {
        if !has_next {
            return Err(flag_error_exec(strand, "flag needs an argument: --format"));
        }
        Ok(i + 2)
    } else {
        let mut v = chars_of("flag provided but not defined: ");
        append_str(&mut v, arg);
        Err(flag_error_exec(strand, string_of(&v).as_str()))
    }
}

/// Reads the flags of a `where` strand named `strand` (see
/// [`where_strand_request`]).
pub fn parse_where_strand_flags(strand: &str, flags: &[String]) -> (r: Result<WhereStrandFlags, String>)
    ensures
        match where_strand_request(strand@, views(flags@)) {
            Ok(v) => r matches Ok(f) && f.view_of() == v,
            Err(e) => r matches Err(m) && m@ == e,
        },
{
    let ghost fl = views(flags@);
    let mut st = WhereStrandFlags { limit: 50, regex: String::new(), require_all: false, context: 0 };
    assert(st.view_of() == where_defaults()) by {
        assert(st.regex@ =~= Seq::<char>::empty());
    }
    let ghost goal = where_flags_from(strand@, fl, 0, where_defaults());
    let mut i: usize = 0;
    while i < flags.len()
        invariant
            i <= flags.len(),
            fl == views(flags@),
            where_flags_from(strand@, fl, i as int, st.view_of()) == goal,
            goal == where_flags_from(strand@, fl, 0, where_defaults()),
        decreases flags.len() - i,
    {
        let ghost before = st.view_of();
        match where_step(strand, flags, i, &mut st) {
            Err(e) => {
                assert(goal == Err::<WhereFlagsView, Seq<char>>(e@));
                assert(where_strand_request(strand@, fl) == Err::<WhereFlagsView, Seq<char>>(e@));
                return Err(e);
            },
            Ok(j) => i = j,
        }
    }
    assert(goal == Ok::<WhereFlagsView, Seq<char>>(st.view_of()));
    if !st.regex.as_str().is_empty() {
        if let Some(e) = regex_error(st.regex.as_str()) {
            let mut v = chars_of("braid: strand ");
            append_str(&mut v, debug_quoted(strand).as_str());
            append_str(&mut v, ": invalid regex: ");
            append_str(&mut v, e.as_str());
            return Err(string_of(&v));
        }
    }
    Ok(st)
}

} // verus!
