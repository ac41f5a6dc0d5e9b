//! The command line of `ctx log`: its flags, their values, and the path it
//! is asked about, made relative to the repository root.
use vstd::prelude::*;

use crate::cli::common::{flag_value, flag_value_of};
use crate::cli::log::{is_valid_ref, valid_ref};
use crate::paths::{
    clean_components, clean_components_of, clean_relative, clean_relative_path, components,
    components_of, is_prefix_components, is_prefix_of,
};
use crate::text::{
    append_str, chars_of, debug_quoted, debug_text, parse_unsigned, parse_usize_exec, string_of,
    trim, trim_exec, vec_views, views,
};

verus! {

/// How the log is shown.
#[derive(Debug, Clone, Copy, PartialEq, Eq, Structural)]
pub enum OutputMode {
    Tui,
    Plain,
    Json,
}

/// The number of commits shown when `--limit` is not given.
pub const DEFAULT_LIMIT: usize = 100;

/// The largest `--limit` accepted.
pub const MAX_LIMIT: usize = 500;

/// The view of a text result.
pub open spec fn text_result(r: Result<String, String>) -> Result<Seq<char>, Seq<char>> {
    match r {
        Ok(v) => Ok(v@),
        Err(e) => Err(e@),
    }
}

/// The view of an optional string.
pub open spec fn opt_text(o: Option<String>) -> Option<Seq<char>> {
    match o {
        Some(s) => Some(s@),
        None => None,
    }
}

/// A flag value: `raw` trimmed, refused when nothing is left.
pub open spec fn nonempty_value(name: Seq<char>, raw: Seq<char>) -> Result<Seq<char>, Seq<char>> {
    if trim(raw).len() == 0 {
        Err(name + " requires a non-empty value"@)
    } else {
        Ok(trim(raw))
    }
}

/// The `--limit` a text gives: a number from 1 to 500.
pub open spec fn limit_value(raw: Seq<char>) -> Result<int, Seq<char>> {
    match parse_unsigned(raw, usize::MAX as int) {
        None => Err("--limit must be a number from 1 to 500"@),
        Some(n) => if 1 <= n <= 500 {
            Ok(n)
        } else {
            Err("--limit must be between 1 and 500"@)
        },
    }
}

/// The `--ref` a text gives: a non-empty value that [`valid_ref`] accepts.
pub open spec fn ref_value(raw: Seq<char>) -> Result<Seq<char>, Seq<char>> {
    match nonempty_value("--ref"@, raw) {
        Err(e) => Err(e),
        Ok(v) => if valid_ref(v) {
            Ok(v)
        } else {
            Err("invalid --ref "@ + debug_text(v))
        },
    }
}

/// `raw` trimmed, or an error naming the flag when it is blank.
pub fn parse_nonempty_value(name: &str, raw: &str) -> (r: Result<String, String>)
    ensures
        text_result(r) == nonempty_value(name@, raw@),
{
    let trimmed = trim_exec(&chars_of(raw));
    if trimmed.len() == 0 {
        let mut e = chars_of(name);
        append_str(&mut e, " requires a non-empty value");
        return Err(string_of(&e));
    }
    Ok(string_of(&trimmed))
}

/// The `--limit` value of `raw` (see [`limit_value`]).
pub fn parse_limit(raw: &str) -> (r: Result<usize, String>)
    ensures
        match r {
            Ok(n) => limit_value(raw@) == Ok::<int, Seq<char>>(n as int),
            Err(e) => limit_value(raw@) == Err::<int, Seq<char>>(e@),
        },
{
    match parse_usize_exec(&chars_of(raw)) {
        None => Err("--limit must be a number from 1 to 500".to_owned()),
        Some(n) => {
            if 1 <= n && n <= MAX_LIMIT {
                Ok(n)
            } else {
                Err("--limit must be between 1 and 500".to_owned())
            }
        },
    }
}

/// The `--ref` value of `raw` (see [`ref_value`]).
pub fn parse_ref(raw: &str) -> (r: Result<String, String>)
    ensures
        text_result(r) == ref_value(raw@),
{
    let value = match parse_nonempty_value("--ref", raw) {
        Ok(v) => v,
        Err(e) => return Err(e),
    };
    if !is_valid_ref(value.as_str()) {
        let mut e = chars_of("invalid --ref ");
        let quoted = debug_quoted(value.as_str());
        append_str(&mut e, quoted.as_str());
        return Err(string_of(&e));
    }
    Ok(value)
}

// ---------------------------------------------------------------------------
// The whole command line
// ---------------------------------------------------------------------------

/// What the arguments read so far have set.
pub struct LogScan {
    pub saw_log: bool,
    pub limit: int,
    pub ref_name: Option<Seq<char>>,
    pub path: Option<Seq<char>>,
    pub query: Option<Seq<char>>,
    pub mode: OutputMode,
    pub positionals: Seq<Seq<char>>,
}

/// How reading the arguments ends.
pub enum LogScanEnd {
    /// An argument was refused with this message.
    Fail(Seq<char>),
    /// A word came before `log`: the command line is not a `log` command.
    NotLog,
    /// Every argument was read.
    Done(LogScan),
}

/// Nothing read yet.
pub open spec fn scan_start() -> LogScan {
    LogScan {
        saw_log: false,
        limit: DEFAULT_LIMIT as int,
        ref_name: None,
        path: None,
        query: None,
        mode: OutputMode::Tui,
        positionals: Seq::empty(),
    }
}

/// Reads the arguments from `i` on, one flag (and its value) at a time.
pub open spec fn log_scan(args: Seq<Seq<char>>, i: int, st: LogScan) -> LogScanEnd
    decreases args.len() - i,
{
    if i < 0 || i >= args.len() {
        LogScanEnd::Done(st)
    } else {
        let a = args[i];
        let has_next = i + 1 < args.len();
        if a == "log"@ {
            if st.saw_log {
                LogScanEnd::Fail("duplicate log command"@)
            } else {
                log_scan(args, i + 1, LogScan { saw_log: true, ..st })
            }
        } else if a == "--plain"@ {
            if st.mode == OutputMode::Json {
                LogScanEnd::Fail("choose only one of --plain or --json"@)
            } else {
                log_scan(args, i + 1, LogScan { mode: OutputMode::Plain, ..st })
            }
        } else if a == "--json"@ {
            if st.mode == OutputMode::Plain {
                LogScanEnd::Fail("choose only one of --plain or --json"@)
            } else {
                log_scan(args, i + 1, LogScan { mode: OutputMode::Json, ..st })
            }
        } else if flag_value_of(a, "--limit"@) is Some {
            match limit_value(flag_value_of(a, "--limit"@)->0) {
                Err(e) => LogScanEnd::Fail(e),
                Ok(n) => log_scan(args, i + 1, LogScan { limit: n, ..st }),
            }
        } else if a == "--limit"@ {
            if !has_next {
                LogScanEnd::Fail("--limit requires a value"@)
            } else {
                match limit_value(args[i + 1]) {
                    Err(e) => LogScanEnd::Fail(e),
                    Ok(n) => log_scan(args, i + 2, LogScan { limit: n, ..st }),
                }
            }
        } else if flag_value_of(a, "--ref"@) is Some {
            match ref_value(flag_value_of(a, "--ref"@)->0) {
                Err(e) => LogScanEnd::Fail(e),
                Ok(v) => log_scan(args, i + 1, LogScan { ref_name: Some(v), ..st }),
            }
        } else if a == "--ref"@ {
            if !has_next {
                LogScanEnd::Fail("--ref requires a value"@)
            } else {
                match ref_value(args[i + 1]) {
                    Err(e) => LogScanEnd::Fail(e),
                    Ok(v) => log_scan(args, i + 2, LogScan { ref_name: Some(v), ..st }),
                }
            }
        } else if flag_value_of(a, "--path"@) is Some {
            match nonempty_value("--path"@, flag_value_of(a, "--path"@)->0) {
                Err(e) => LogScanEnd::Fail(e),
                Ok(v) => log_scan(args, i + 1, LogScan { path: Some(v), ..st }),
            }
        } else if a == "--path"@ {
            if !has_next {
                LogScanEnd::Fail("--path requires a value"@)
            } else {
                match nonempty_value("--path"@, args[i + 1]) {
                    Err(e) => LogScanEnd::Fail(e),
                    Ok(v) => log_scan(args, i + 2, LogScan { path: Some(v), ..st }),
                }
            }
        } else if flag_value_of(a, "--query"@) is Some {
            match nonempty_value("--query"@, flag_value_of(a, "--query"@)->0) {
                Err(e) => LogScanEnd::Fail(e),
                Ok(v) => log_scan(args, i + 1, LogScan { query: Some(v), ..st }),
            }
        } else if a == "--query"@ {
            if !has_next {
                LogScanEnd::Fail("--query requires a value"@)
            } else {
                match nonempty_value("--query"@, args[i + 1]) {
                    Err(e) => LogScanEnd::Fail(e),
                    Ok(v) => log_scan(args, i + 2, LogScan { query: Some(v), ..st }),
                }
            }
        } else if a.len() > 0 && a[0] == '-' {
            LogScanEnd::Fail("unrecognized argument "@ + a)
        } else if st.saw_log {
            log_scan(args, i + 1, LogScan { positionals: st.positionals.push(a), ..st })
        } else {
            LogScanEnd::NotLog
        }
    }
}

/// A parsed `log` command line, by view.
pub struct LogRequestView {
    pub limit: int,
    pub ref_name: Option<Seq<char>>,
    pub path: Option<Seq<char>>,
    pub query: Option<Seq<char>>,
    pub mode: OutputMode,
}

/// The checks made once every argument is read: at most one positional
/// path, not together with `--path`, and not a path together with a query.
pub open spec fn finish_scan(st: LogScan) -> Result<Option<LogRequestView>, Seq<char>> {
    if !st.saw_log {
        Ok(None)
    } else if st.positionals.len() > 1 {
        Err("accepts at most one positional path"@)
    } else {
        let path: Result<Option<Seq<char>>, Seq<char>> = if st.positionals.len() == 1 {
            if st.path is Some {
                Err("use either positional path or --path, not both"@)
            } else {
                match nonempty_value("path"@, st.positionals[0]) {
                    Err(e) => Err(e),
                    Ok(p) => Ok(Some(p)),
                }
            }
        } else {
            Ok(st.path)
        };
        match path {
            Err(e) => Err(e),
            Ok(path) => if path is Some && st.query is Some {
                Err("use either --path or --query for this MVP"@)
            } else {
                Ok(
                    Some(
                        LogRequestView {
                            limit: st.limit,
                            ref_name: st.ref_name,
                            path,
                            query: st.query,
                            mode: st.mode,
                        },
                    ),
                )
            },
        }
    }
}

/// What a command line asks of `ctx log`: `Ok(None)` when it is not a
/// `log` command, the refusal message when an argument is refused.
pub open spec fn log_request(args: Seq<Seq<char>>) -> Result<Option<LogRequestView>, Seq<char>> {
    match log_scan(args, 0, scan_start()) {
        LogScanEnd::Fail(e) => Err(e),
        LogScanEnd::NotLog => Ok(None),
        LogScanEnd::Done(st) => finish_scan(st),
    }
}

/// A parsed `log` command line, its path not yet made relative to the root.
#[derive(Debug, Clone, PartialEq, Eq)]
pub struct LogRequest {
    pub limit: usize,
    pub ref_name: Option<String>,
    pub path: Option<String>,
    pub query: Option<String>,
    pub output_mode: OutputMode,
}

impl LogRequest {
    /// The view of the request.
    pub open spec fn view_of(self) -> LogRequestView {
        LogRequestView {
            limit: self.limit as int,
            ref_name: opt_text(self.ref_name),
            path: opt_text(self.path),
            query: opt_text(self.query),
            mode: self.output_mode,
        }
    }
}

/// Whether the argument's text is `word`.
pub(crate) fn is_word(arg: &Vec<char>, word: &str) -> (r: bool)
    ensures
        r == (arg@ == word@),
{
    crate::text::chars_eq(arg, &chars_of(word))
}

/// The argument after `i`, if there is one.
pub(crate) fn next_arg(args: &[String], i: usize) -> (r: Option<&String>)
    ensures
        i + 1 < args.len() ==> r == Some(&args@[i + 1]),
        i + 1 >= args.len() ==> r is None,
{
    if i < args.len() && i + 1 < args.len() {
        Some(&args[i + 1])
    } else {
        None
    }
}

/// Reads the command line of `ctx log` (see [`log_request`]). `Ok(None)`
/// means the arguments are not a `log` command.
pub fn parse_log_args(args: &[String]) -> (r: Result<Option<LogRequest>, String>)
    ensures
        match r {
            Ok(None) => log_request(views(args@)) == Ok::<Option<LogRequestView>, Seq<char>>(None),
            Ok(Some(q)) => log_request(views(args@)) == Ok::<Option<LogRequestView>, Seq<char>>(
                Some(q.view_of()),
            ),
            Err(e) => log_request(views(args@)) == Err::<Option<LogRequestView>, Seq<char>>(e@),
        },
{
    let ghost all = views(args@);
    let mut saw_log = false;
    let mut limit: usize = DEFAULT_LIMIT;
    let mut ref_name: Option<String> = None;
    let mut path: Option<String> = None;
    let mut query: Option<String> = None;
    let mut mode = OutputMode::Tui;
    let mut positionals: Vec<String> = Vec::new();
    let mut i: usize = 0;
    assert(views(positionals@) =~= Seq::<Seq<char>>::empty());
    while i < args.len()
        invariant
            all == views(args@),
            i <= args.len(),
            log_scan(all, 0, scan_start()) == log_scan(
                all,
                i as int,
                LogScan {
                    saw_log,
                    limit: limit as int,
                    ref_name: opt_text(ref_name),
                    path: opt_text(path),
                    query: opt_text(query),
                    mode,
                    positionals: views(positionals@),
                },
            ),
        decreases args.len() - i,
    {
        let ghost st = LogScan {
            saw_log,
            limit: limit as int,
            ref_name: opt_text(ref_name),
            path: opt_text(path),
            query: opt_text(query),
            mode,
            positionals: views(positionals@),
        };
        let arg = &args[i];
        let a = chars_of(arg.as_str());
        assert(a@ == all[i as int]);
        if is_word(&a, "log") {
            if saw_log {
                return Err("duplicate log command".to_owned());
            }
            saw_log = true;
            i = i + 1;
        } else if is_word(&a, "--plain") {
            if mode == OutputMode::Json {
                return Err("choose only one of --plain or --json".to_owned());
            }
            mode = OutputMode::Plain;
            i = i + 1;
        } else if is_word(&a, "--json") {
            if mode == OutputMode::Plain {
                return Err("choose only one of --plain or --json".to_owned());
            }
            mode = OutputMode::Json;
            i = i + 1;
        } else if let Some(v) = flag_value(arg.as_str(), "--limit") {
            match parse_limit(v.as_str()) {
                Err(e) => return Err(e),
                Ok(n) => {
                    limit = n;
                },
            }
            i = i + 1;
        } else if is_word(&a, "--limit") {
            match next_arg(args, i) {
                None => return Err("--limit requires a value".to_owned()),
                Some(v) => {
                    assert(v@ == all[i + 1]);
                    match parse_limit(v.as_str()) {
                        Err(e) => return Err(e),
                        Ok(n) => {
                            limit = n;
                        },
                    }
                },
            }
            i = i + 2;
        } else if let Some(v) = flag_value(arg.as_str(), "--ref") {
            match parse_ref(v.as_str()) {
                Err(e) => return Err(e),
                Ok(t) => {
                    ref_name = Some(t);
                },
            }
            i = i + 1;
        } else if is_word(&a, "--ref") {
            match next_arg(args, i) {
                None => return Err("--ref requires a value".to_owned()),
                Some(v) => {
                    assert(v@ == all[i + 1]);
                    match parse_ref(v.as_str()) {
                        Err(e) => return Err(e),
                        Ok(t) => {
                            ref_name = Some(t);
                        },
                    }
                },
            }
            i = i + 2;
        } else if let Some(v) = flag_value(arg.as_str(), "--path") {
            match parse_nonempty_value("--path", v.as_str()) {
                Err(e) => return Err(e),
                Ok(t) => {
                    path = Some(t);
                },
            }
            i = i + 1;
        } else if is_word(&a, "--path") {
            match next_arg(args, i) {
                None => return Err("--path requires a value".to_owned()),
                Some(v) => {
                    assert(v@ == all[i + 1]);
                    match parse_nonempty_value("--path", v.as_str()) {
                        Err(e) => return Err(e),
                        Ok(t) => {
                            path = Some(t);
                        },
                    }
                },
            }
            i = i + 2;
        } else if let Some(v) = flag_value(arg.as_str(), "--query") {
            match parse_nonempty_value("--query", v.as_str()) {
                Err(e) => return Err(e),
                Ok(t) => {
                    query = Some(t);
                },
            }
            i = i + 1;
        } else if is_word(&a, "--query") {
            match next_arg(args, i) {
                None => return Err("--query requires a value".to_owned()),
                Some(v) => {
                    assert(v@ == all[i + 1]);
                    match parse_nonempty_value("--query", v.as_str()) {
                        Err(e) => return Err(e),
                        Ok(t) => {
                            query = Some(t);
                        },
                    }
                },
            }
            i = i + 2;
        } else if a.len() > 0 && a[0] == '-' {
            let mut e = chars_of("unrecognized argument ");
            crate::text::append_chars(&mut e, &a);
            return Err(string_of(&e));
        } else if saw_log {
            let ghost before = views(positionals@);
            positionals.push(arg.clone());
            assert(views(positionals@) =~= before.push(a@));
            i = i + 1;
        } else {
            return Ok(None);
        }
    }
    let ghost st = LogScan {
        saw_log,
        limit: limit as int,
        ref_name: opt_text(ref_name),
        path: opt_text(path),
        query: opt_text(query),
        mode,
        positionals: views(positionals@),
    };
    assert(log_scan(all, i as int, st) == LogScanEnd::Done(st));
    if !saw_log {
        return Ok(None);
    }
    if positionals.len() > 1 {
        return Err("accepts at most one positional path".to_owned());
    }
    if positionals.len() == 1 {
        if path.is_some() {
            return Err("use either positional path or --path, not both".to_owned());
        }
        match parse_nonempty_value("path", positionals[0].as_str()) {
            Err(e) => return Err(e),
            Ok(p) => {
                path = Some(p);
            },
        }
    }
    if path.is_some() && query.is_some() {
        return Err("use either --path or --query for this MVP".to_owned());
    }
    Ok(Some(LogRequest { limit, ref_name, path, query, output_mode: mode }))
}

// ---------------------------------------------------------------------------
// The path, relative to the repository root
// ---------------------------------------------------------------------------

/// The refusal of a path that leaves the repository root.
pub open spec fn outside_root(raw: Seq<char>) -> Seq<char> {
    "path "@ + debug_text(raw) + " is outside the repository root"@
}

/// The path `raw` names, relative to `root`: an absolute path must lie
/// under `root` (compared component by component) and is taken from there;
/// either way the path is cleaned, and refused when it climbs out or names
/// nothing.
pub open spec fn normalized_path(root: Seq<char>, raw: Seq<char>) -> Result<Seq<char>, Seq<char>> {
    if raw.len() > 0 && raw[0] == '/' {
        let rc = components(root);
        let pc = components(raw);
        if !is_prefix_of(rc, pc) {
            Err(outside_root(raw) + ": prefix not found"@)
        } else {
            match clean_components(pc.skip(rc.len() as int)) {
                None => Err(outside_root(raw)),
                Some(p) => Ok(p),
            }
        }
    } else {
        match clean_relative(raw) {
            None => Err(outside_root(raw)),
            Some(p) => Ok(p),
        }
    }
}

/// The path `raw` relative to the repository `root` (see
/// [`normalized_path`]).
pub fn normalize_log_path(root: &str, raw: &str) -> (r: Result<String, String>)
    ensures
        text_result(r) == normalized_path(root@, raw@),
{
    let raw_chars = chars_of(raw);
    let mut outside = chars_of("path ");
    let quoted = debug_quoted(raw);
    append_str(&mut outside, quoted.as_str());
    append_str(&mut outside, " is outside the repository root");
    assert(outside@ == outside_root(raw@));
    if raw_chars.len() > 0 && raw_chars[0] == '/' {
        let rc = components_of(&chars_of(root));
        let pc = components_of(&raw_chars);
        if !is_prefix_components(&rc, &pc) {
            append_str(&mut outside, ": prefix not found");
            return Err(string_of(&outside));
        }
        let mut rest: Vec<Vec<char>> = Vec::new();
        let mut k: usize = rc.len();
        while k < pc.len()
            invariant
                rc.len() <= k <= pc.len(),
                vec_views(rest@) == vec_views(pc@).subrange(rc.len() as int, k as int),
            decreases pc.len() - k,
        {
            let ghost before = vec_views(rest@);
            let mut piece: Vec<char> = Vec::new();
            crate::text::append_chars(&mut piece, &pc[k]);
            assert(piece@ =~= pc@[k as int]@);
            rest.push(piece);
            assert(vec_views(rest@) =~= before.push(pc@[k as int]@));
            assert(vec_views(pc@).subrange(rc.len() as int, k + 1) =~= vec_views(pc@).subrange(
                rc.len() as int,
                k as int,
            ).push(vec_views(pc@)[k as int]));
            k = k + 1;
        }
        assert(vec_views(pc@).subrange(rc.len() as int, pc.len() as int) =~= vec_views(pc@).skip(
            rc.len() as int,
        ));
        match clean_components_of(&rest) {
            None => Err(string_of(&outside)),
            Some(p) => Ok(string_of(&p)),
        }
    } else {
        match clean_relative_path(raw) {
            None => Err(string_of(&outside)),
            Some(p) => Ok(p),
        }
    }
}

/// A `log` command line with its path made relative to the root.
#[derive(Debug, Clone, PartialEq, Eq)]
pub struct LogArgs {
    pub root: String,
    pub limit: usize,
    pub ref_name: Option<String>,
    pub path: Option<String>,
    pub query: Option<String>,
    pub output_mode: OutputMode,
}

/// Completes a request with the repository root, making its path relative
/// to it; fails as [`normalize_log_path`] does.
pub fn resolve_log_args(request: LogRequest, root: String) -> (r: Result<LogArgs, String>)
    ensures
        match request.path {
            None => r matches Ok(a) && a.path is None,
            Some(p) => match normalized_path(root@, p@) {
                Ok(n) => r matches Ok(a) && a.path matches Some(ap) && ap@ == n,
                Err(e) => r matches Err(re) && re@ == e,
            },
        },
        r matches Ok(a) ==> {
            &&& a.root == root
            &&& a.limit == request.limit
            &&& a.ref_name == request.ref_name
            &&& a.query == request.query
            &&& a.output_mode == request.output_mode
        },
{
    let path = match &request.path {
        None => None,
        Some(p) => match normalize_log_path(root.as_str(), p.as_str()) {
            Ok(n) => Some(n),
            Err(e) => return Err(e),
        },
    };
    Ok(
        LogArgs {
            root,
            limit: request.limit,
            ref_name: request.ref_name,
            path,
            query: request.query,
            output_mode: request.output_mode,
        },
    )
}

} // verus!
