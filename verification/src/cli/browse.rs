//! The command lines of `ctx browse` and `ctx mcp serve`, and the port a
//! `--bind` value carries.
use vstd::prelude::*;

use crate::cli::common::{flag_value, flag_value_of};
use crate::cli::log_args::{is_word, next_arg};
use crate::cli::roots_args::parse_roots_port;
use crate::text::{
    decimal, decimal_chars, append_chars, chars_of, debug_quoted, debug_text, last_index_of, parse_unsigned,
    slice_chars, string_of, views,
};

verus! {

/// The port of a `host:port` bind value: what follows its last `:` read
/// as a `u16`, when the host before it is not empty.
pub open spec fn bind_port(bind: Seq<char>) -> Option<int> {
    let k = last_index_of(bind, ':');
    if k <= 0 {
        None
    } else {
        parse_unsigned(bind.skip(k + 1), 65535)
    }
}

/// The port embedded in a `--bind` value (see [`bind_port`]). A value that
/// reads as a socket address gives the same port this way, so no address
/// parsing is needed.
pub fn browse_bind_port(bind: &str) -> (r: Option<u16>)
    ensures
        bind_port(bind@) == (match r {
            Some(p) => Some(p as int),
            None => None,
        }),
{
    let b = chars_of(bind);
    match crate::text::rfind_char(&b, ':') {
        None => None,
        Some(k) => {
            if k == 0 {
                return None;
            }
            let port = slice_chars(&b, k + 1, b.len());
            assert(port@ =~= b@.skip(k + 1));
            parse_roots_port(string_of(&port).as_str())
        },
    }
}

/// What the arguments of `ctx browse` read so far have set.
pub struct BrowseScan {
    pub saw: bool,
    pub bind: Seq<char>,
    pub allow_nonlocal: bool,
    pub web_engine: Seq<char>,
    pub port: int,
    pub port_set: bool,
    pub no_open: bool,
    pub positionals: Seq<Seq<char>>,
}

/// The web engine when no flag names one: `CTX_WEB_ENGINE` when it is set
/// and not empty, else `rust`.
pub open spec fn engine_default(env: Option<Seq<char>>) -> Seq<char> {
    match env {
        Some(v) => if v.len() > 0 {
            v
        } else {
            "rust"@
        },
        None => "rust"@,
    }
}

/// Nothing read yet.
pub open spec fn browse_start(env: Option<Seq<char>>) -> BrowseScan {
    BrowseScan {
        saw: false,
        bind: "127.0.0.1"@,
        allow_nonlocal: false,
        web_engine: engine_default(env),
        port: 0,
        port_set: false,
        no_open: false,
        positionals: Seq::empty(),
    }
}

/// Reads the arguments from `i` on; `None` when one is refused.
pub open spec fn browse_scan(args: Seq<Seq<char>>, i: int, st: BrowseScan) -> Option<BrowseScan>
    decreases args.len() - i,
{
    if i < 0 || i >= args.len() {
        Some(st)
    } else {
        let a = args[i];
        let has_next = i + 1 < args.len();
        if a == "browse"@ {
            if st.saw {
                None
            } else {
                browse_scan(args, i + 1, BrowseScan { saw: true, ..st })
            }
        } else if flag_value_of(a, "--bind"@) is Some {
            browse_scan(args, i + 1, BrowseScan { bind: flag_value_of(a, "--bind"@)->0, ..st })
        } else if a == "--bind"@ {
            if !has_next {
                None
            } else {
                browse_scan(args, i + 2, BrowseScan { bind: args[i + 1], ..st })
            }
        } else if flag_value_of(a, "--web-engine"@) is Some {
            browse_scan(
                args,
                i + 1,
                BrowseScan { web_engine: flag_value_of(a, "--web-engine"@)->0, ..st },
            )
        } else if a == "--web-engine"@ {
            if !has_next {
                None
            } else {
                browse_scan(args, i + 2, BrowseScan { web_engine: args[i + 1], ..st })
            }
        } else if flag_value_of(a, "--port"@) is Some {
            match parse_unsigned(flag_value_of(a, "--port"@)->0, 65535) {
                None => None,
                Some(p) => browse_scan(args, i + 1, BrowseScan { port: p, port_set: true, ..st }),
            }
        } else if a == "--port"@ {
            if !has_next {
                None
            } else {
                match parse_unsigned(args[i + 1], 65535) {
                    None => None,
                    Some(p) => browse_scan(
                        args,
                        i + 2,
                        BrowseScan { port: p, port_set: true, ..st },
                    ),
                }
            }
        } else if a == "--allow-nonlocal"@ {
            browse_scan(args, i + 1, BrowseScan { allow_nonlocal: true, ..st })
        } else if a == "--no-open"@ {
            browse_scan(args, i + 1, BrowseScan { no_open: true, ..st })
        } else if a == "--audit"@ || a == "--no-register"@ {
            browse_scan(args, i + 1, st)
        } else if flag_value_of(a, "--relations-engine"@) is Some {
            browse_scan(args, i + 1, st)
        } else if a == "--relations-engine"@ {
            if !has_next {
                None
            } else {
                browse_scan(args, i + 2, st)
            }
        } else if a.len() > 0 && a[0] == '-' {
            None
        } else if st.saw {
            browse_scan(args, i + 1, BrowseScan { positionals: st.positionals.push(a), ..st })
        } else {
            None
        }
    }
}

/// The options of `ctx browse`.
#[derive(Debug, Clone, PartialEq, Eq)]
pub struct BrowseArgs {
    pub bind: String,
    pub allow_nonlocal: bool,
    pub web_engine: String,
    pub port: u16,
    pub path: String,
    pub no_open: bool,
}

/// The options of `ctx browse`, by view.
pub struct BrowseArgsView {
    pub bind: Seq<char>,
    pub allow_nonlocal: bool,
    pub web_engine: Seq<char>,
    pub port: int,
    pub path: Seq<char>,
    pub no_open: bool,
}

impl BrowseArgs {
    /// The view of the options.
    pub open spec fn view_of(self) -> BrowseArgsView {
        BrowseArgsView {
            bind: self.bind@,
            allow_nonlocal: self.allow_nonlocal,
            web_engine: self.web_engine@,
            port: self.port as int,
            path: self.path@,
            no_open: self.no_open,
        }
    }
}

/// What a command line asks of `ctx browse`, with `env` the value of
/// `CTX_WEB_ENGINE`: `None` unless it names `browse` once, with at most
/// one path (`.` when none) and known flags. Without `--port`, a port in
/// `--bind` is used.
pub open spec fn browse_request(args: Seq<Seq<char>>, env: Option<Seq<char>>) -> Option<BrowseArgsView> {
    match browse_scan(args, 0, browse_start(env)) {
        None => None,
        Some(st) => if !st.saw || st.positionals.len() > 1 {
            None
        } else {
            Some(
                BrowseArgsView {
                    bind: st.bind,
                    allow_nonlocal: st.allow_nonlocal,
                    web_engine: st.web_engine,
                    port: if !st.port_set && bind_port(st.bind) is Some {
                        bind_port(st.bind)->0
                    } else {
                        st.port
                    },
                    path: if st.positionals.len() == 1 {
                        st.positionals[0]
                    } else {
                        "."@
                    },
                    no_open: st.no_open,
                },
            )
        },
    }
}

/// Reads the command line of `ctx browse`; `env_engine` is the value of
/// `CTX_WEB_ENGINE`, if set (see [`browse_request`]).
pub fn parse_browse_args(args: &[String], env_engine: Option<&str>) -> (r: Option<BrowseArgs>)
    ensures
        match r {
            Some(b) => browse_request(
                views(args@),
                match env_engine {
                    Some(v) => Some(v@),
                    None => None,
                },
            ) == Some(b.view_of()),
            None => browse_request(
                views(args@),
                match env_engine {
                    Some(v) => Some(v@),
                    None => None,
                },
            ) is None,
        },
{
    let ghost all = views(args@);
    let ghost env = match env_engine {
        Some(v) => Some(v@),
        None => None,
    };
    let mut saw = false;
    let mut bind = "127.0.0.1".to_owned();
    let mut allow_nonlocal = false;
    let mut web_engine = match env_engine {
        Some(v) => if !v.is_empty() {
            v.to_owned()
        } else {
            "rust".to_owned()
        },
        None => "rust".to_owned(),
    };
    let mut port: u16 = 0;
    let mut port_set = false;
    let mut no_open = false;
    let mut positionals: Vec<String> = Vec::new();
    let mut i: usize = 0;
    assert(views(positionals@) =~= Seq::<Seq<char>>::empty());
    while i < args.len()
        invariant
            all == views(args@),
            i <= args.len(),
            env == match env_engine {
                Some(v) => Some(v@),
                None => None,
            },
            browse_scan(all, 0, browse_start(env)) == browse_scan(
                all,
                i as int,
                BrowseScan {
                    saw,
                    bind: bind@,
                    allow_nonlocal,
                    web_engine: web_engine@,
                    port: port as int,
                    port_set,
                    no_open,
                    positionals: views(positionals@),
                },
            ),
        decreases args.len() - i,
    {
        let arg = &args[i];
        let a = chars_of(arg.as_str());
        assert(a@ == all[i as int]);
        if is_word(&a, "browse") {
            if saw {
                return None;
            }
            saw = true;
            i = i + 1;
        } else if let Some(v) = flag_value(arg.as_str(), "--bind") {
            bind = v;
            i = i + 1;
        } else if is_word(&a, "--bind") {
            match next_arg(args, i) {
                None => return None,
                Some(v) => {
                    assert(v@ == all[i + 1]);
                    bind = v.clone();
                },
            }
            i = i + 2;
        } else if let Some(v) = flag_value(arg.as_str(), "--web-engine") {
            web_engine = v;
            i = i + 1;
        } else if is_word(&a, "--web-engine") {
            match next_arg(args, i) {
                None => return None,
                Some(v) => {
                    assert(v@ == all[i + 1]);
                    web_engine = v.clone();
                },
            }
            i = i + 2;
        } else if let Some(v) = flag_value(arg.as_str(), "--port") {
            match parse_roots_port(v.as_str()) {
                None => return None,
                Some(p) => {
                    port = p;
                },
            }
            port_set = true;
            i = i + 1;
        } else if is_word(&a, "--port") {
            match next_arg(args, i) {
                None => return None,
                Some(v) => {
                    assert(v@ == all[i + 1]);
                    match parse_roots_port(v.as_str()) {
                        None => return None,
                        Some(p) => {
                            port = p;
                        },
                    }
                },
            }
            port_set = true;
            i = i + 2;
        } else if is_word(&a, "--allow-nonlocal") {
            allow_nonlocal = true;
            i = i + 1;
        } else if is_word(&a, "--no-open") {
            no_open = true;
            i = i + 1;
        } else if is_word(&a, "--audit") || is_word(&a, "--no-register") {
            i = i + 1;
        } else if flag_value(arg.as_str(), "--relations-engine").is_some() {
            i = i + 1;
        } else if is_word(&a, "--relations-engine") {
            if next_arg(args, i).is_none() {
                return None;
            }
            i = i + 2;
        } else if a.len() > 0 && a[0] == '-' {
            return None;
        } else if saw {
            let ghost before = views(positionals@);
            positionals.push(arg.clone());
            assert(views(positionals@) =~= before.push(a@));
            i = i + 1;
        } else {
            return None;
        }
    }
    if !saw || positionals.len() > 1 {
        return None;
    }
    let path = if positionals.len() == 1 {
        positionals[0].clone()
    } else {
        ".".to_owned()
    };
    if !port_set {
        if let Some(p) = browse_bind_port(bind.as_str()) {
            port = p;
        }
    }
    Some(BrowseArgs { bind, allow_nonlocal, web_engine, port, path, no_open })
}

/// The options of `ctx mcp serve`: the root as written (`.` when none),
/// still to be made absolute against the working directory.
#[derive(Debug, Clone, PartialEq, Eq)]
pub struct McpServeArgs {
    pub root: String,
    pub allow_outside_root: bool,
}

/// Reads the arguments of `ctx mcp serve` from `i` on, with the root and
/// the switch read so far; the error message when one is refused.
pub open spec fn mcp_scan(args: Seq<Seq<char>>, i: int, root: Option<Seq<char>>, allow: bool) -> Result<(Option<Seq<char>>, bool), Seq<char>>
    decreases args.len() - i,
{
    if i < 0 || i >= args.len() {
        Ok((root, allow))
    } else {
        let a = args[i];
        let has_next = i + 1 < args.len();
        if flag_value_of(a, "--root"@) is Some {
            mcp_scan(args, i + 1, Some(flag_value_of(a, "--root"@)->0), allow)
        } else if a == "--root"@ {
            if !has_next {
                Err("ctx mcp serve: --root requires a value"@)
            } else {
                mcp_scan(args, i + 2, Some(args[i + 1]), allow)
            }
        } else if a == "--allow-outside-root"@ {
            mcp_scan(args, i + 1, root, true)
        } else if flag_value_of(a, "--log-file"@) is Some {
            mcp_scan(args, i + 1, root, allow)
        } else if a == "--log-file"@ {
            if !has_next {
                Err("ctx mcp serve: --log-file requires a value"@)
            } else {
                mcp_scan(args, i + 2, root, allow)
            }
        } else if a.len() > 0 && a[0] == '-' {
            Err("ctx mcp serve: unrecognized argument "@ + debug_text(a))
        } else {
            Err("ctx mcp serve: unexpected argument "@ + debug_text(a))
        }
    }
}

/// What a command line asks of `ctx mcp serve`: `None` unless it begins
/// with `mcp serve`; then the root (`.` when none) and the switch, or the
/// message of the first refused argument.
pub open spec fn mcp_request(args: Seq<Seq<char>>) -> Option<Result<(Seq<char>, bool), Seq<char>>> {
    if args.len() < 2 || args[0] != "mcp"@ || args[1] != "serve"@ {
        None
    } else {
        match mcp_scan(args, 2, None, false) {
            Err(e) => Some(Err(e)),
            Ok((root, allow)) => Some(
                Ok(
                    (
                        match root {
                            Some(r) => r,
                            None => "."@,
                        },
                        allow,
                    ),
                ),
            ),
        }
    }
}

/// Reads the command line of `ctx mcp serve` (see [`mcp_request`]).
pub fn parse_mcp_serve_args(args: &[String]) -> (r: Option<Result<McpServeArgs, String>>)
    ensures
        match r {
            None => mcp_request(views(args@)) is None,
            Some(Ok(m)) => mcp_request(views(args@)) == Some(
                Ok::<(Seq<char>, bool), Seq<char>>((m.root@, m.allow_outside_root)),
            ),
            Some(Err(e)) => mcp_request(views(args@)) == Some(
                Err::<(Seq<char>, bool), Seq<char>>(e@),
            ),
        },
{
    let ghost all = views(args@);
    if args.len() < 2 {
        return None;
    }
    assert(all[0] == args@[0]@ && all[1] == args@[1]@);
    if !is_word(&chars_of(args[0].as_str()), "mcp") || !is_word(&chars_of(args[1].as_str()), "serve") {
        return None;
    }
    let mut root: Option<String> = None;
    let mut allow = false;
    let mut i: usize = 2;
    while i < args.len()
        invariant
            all == views(args@),
            2 <= i <= args.len(),
            all[0] == "mcp"@,
            all[1] == "serve"@,
            mcp_scan(all, 2, None, false) == mcp_scan(
                all,
                i as int,
                match root {
                    Some(r) => Some(r@),
                    None => None,
                },
                allow,
            ),
        decreases args.len() - i,
    {
        let arg = &args[i];
        let a = chars_of(arg.as_str());
        assert(a@ == all[i as int]);
        if let Some(v) = flag_value(arg.as_str(), "--root") {
            root = Some(v);
            i = i + 1;
        } else if is_word(&a, "--root") {
            match next_arg(args, i) {
                None => return Some(Err("ctx mcp serve: --root requires a value".to_owned())),
                Some(v) => {
                    assert(v@ == all[i + 1]);
                    root = Some(v.clone());
                },
            }
            i = i + 2;
        } else if is_word(&a, "--allow-outside-root") {
            allow = true;
            i = i + 1;
        } else if flag_value(arg.as_str(), "--log-file").is_some() {
            i = i + 1;
        } else if is_word(&a, "--log-file") {
            if next_arg(args, i).is_none() {
                return Some(Err("ctx mcp serve: --log-file requires a value".to_owned()));
            }
            i = i + 2;
        } else {
            let mut e = if a.len() > 0 && a[0] == '-' {
                chars_of("ctx mcp serve: unrecognized argument ")
            } else {
                chars_of("ctx mcp serve: unexpected argument ")
            };
            append_chars(&mut e, &chars_of(debug_quoted(arg.as_str()).as_str()));
            return Some(Err(string_of(&e)));
        }
    }
    let root = match root {
        Some(r) => r,
        None => ".".to_owned(),
    };
    Some(Ok(McpServeArgs { root, allow_outside_root: allow }))
}

/// The arguments of the `ctx browse` child that `ctx roots open` starts for
/// the root at `path`.
pub open spec fn child_args(path: Seq<char>, port: u16, bind: Seq<char>, audit: bool) -> Seq<Seq<char>> {
    seq![
        "browse"@,
        path,
        "--port"@,
        decimal(port as nat),
        "--no-open"@,
        "--bind"@,
        bind,
        "--no-register"@,
    ] + if audit {
        seq!["--audit"@]
    } else {
        Seq::<Seq<char>>::empty()
    }
}

/// The arguments of the browse child (see [`child_args`]).
pub fn browse_child_args(path: &str, port: u16, bind: &str, audit: bool) -> (r: Vec<String>)
    ensures
        views(r@) == child_args(path@, port, bind@, audit),
{
    let mut args: Vec<String> = Vec::new();
    args.push(string_of(&chars_of("browse")));
    args.push(string_of(&chars_of(path)));
    args.push(string_of(&chars_of("--port")));
    args.push(string_of(&decimal_chars(port as u64)));
    args.push(string_of(&chars_of("--no-open")));
    args.push(string_of(&chars_of("--bind")));
    args.push(string_of(&chars_of(bind)));
    args.push(string_of(&chars_of("--no-register")));
    if audit {
        args.push(string_of(&chars_of("--audit")));
    }
    assert(views(args@) =~= child_args(path@, port, bind@, audit));
    args
}

} // verus!
