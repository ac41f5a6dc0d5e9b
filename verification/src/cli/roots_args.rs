//! The command line of `ctx roots`.
use vstd::prelude::*;

use crate::cli::common::{flag_value, flag_value_of};
use crate::cli::log_args::{is_word, next_arg};
use crate::cli::roots::{duration_millis, parse_duration_arg, WaitTime};
use crate::text::{chars_of, parse_unsigned, parse_usize_exec, views};

verus! {

/// A `ctx roots` subcommand.
#[derive(Debug, Clone, PartialEq, Eq)]
pub enum RootsCommand {
    Add { path: String, name: String },
    List,
    Open {
        name_or_path: String,
        port: u16,
        bind: String,
        no_open: bool,
        audit: bool,
        timeout: WaitTime,
    },
    Remove { name_or_path: String },
}

/// A `ctx roots` subcommand, by view; the timeout in milliseconds.
pub enum RootsCommandView {
    Add { path: Seq<char>, name: Seq<char> },
    List,
    Open {
        name_or_path: Seq<char>,
        port: int,
        bind: Seq<char>,
        no_open: bool,
        audit: bool,
        timeout: int,
    },
    Remove { name_or_path: Seq<char> },
}

impl RootsCommand {
    /// The view of the subcommand.
    pub open spec fn view_of(self) -> RootsCommandView {
        match self {
            RootsCommand::Add { path, name } => RootsCommandView::Add { path: path@, name: name@ },
            RootsCommand::List => RootsCommandView::List,
            RootsCommand::Open { name_or_path, port, bind, no_open, audit, timeout } =>
                RootsCommandView::Open {
                name_or_path: name_or_path@,
                port: port as int,
                bind: bind@,
                no_open,
                audit,
                timeout: timeout.total_millis(),
            },
            RootsCommand::Remove { name_or_path } => RootsCommandView::Remove {
                name_or_path: name_or_path@,
            },
        }
    }

    /// The timeout of `open` is a well-formed wait.
    pub open spec fn wf(self) -> bool {
        match self {
            RootsCommand::Open { timeout, .. } => timeout.wf(),
            _ => true,
        }
    }
}

/// Reads a port number as `str::parse::<u16>` does.
pub fn parse_roots_port(raw: &str) -> (r: Option<u16>)
    ensures
        parse_unsigned(raw@, 65535) == (match r {
            Some(p) => Some(p as int),
            None => None,
        }),
{
    match parse_usize_exec(&chars_of(raw)) {
        None => {
            proof {
                lemma_parse_narrower(raw@);
            }
            None
        },
        Some(n) => {
            proof {
                lemma_parse_narrower(raw@);
            }
            if n <= 65535 {
                Some(n as u16)
            } else {
                None
            }
        },
    }
}

/// A number that fits a narrower type reads the same as in `usize`.
proof fn lemma_parse_narrower(s: Seq<char>)
    ensures
        parse_unsigned(s, 65535) == (match parse_unsigned(s, usize::MAX as int) {
            Some(v) => if v <= 65535 {
                Some(v)
            } else {
                None
            },
            None => None,
        }),
{
}

/// What the arguments of `ctx roots` read so far have set; `opts` records
/// an option that only `open` takes.
pub struct RootsScan {
    pub saw: bool,
    pub sub: Option<Seq<char>>,
    pub name: Seq<char>,
    pub port: int,
    pub bind: Seq<char>,
    pub no_open: bool,
    pub audit: bool,
    pub timeout: int,
    pub opts: bool,
    pub positionals: Seq<Seq<char>>,
}

/// Nothing read yet: any port, the loopback address, ten seconds.
pub open spec fn roots_start() -> RootsScan {
    RootsScan {
        saw: false,
        sub: None,
        name: Seq::empty(),
        port: 0,
        bind: "127.0.0.1"@,
        no_open: false,
        audit: false,
        timeout: 10000,
        opts: false,
        positionals: Seq::empty(),
    }
}

/// Reads the arguments from `i` on; `None` when one is refused.
pub open spec fn roots_scan(args: Seq<Seq<char>>, i: int, st: RootsScan) -> Option<RootsScan>
    decreases args.len() - i,
{
    if i < 0 || i >= args.len() {
        Some(st)
    } else {
        let a = args[i];
        let has_next = i + 1 < args.len();
        if a == "roots"@ {
            if st.saw {
                None
            } else {
                roots_scan(args, i + 1, RootsScan { saw: true, ..st })
            }
        } else if flag_value_of(a, "--name"@) is Some {
            roots_scan(args, i + 1, RootsScan { name: flag_value_of(a, "--name"@)->0, ..st })
        } else if a == "--name"@ {
            if !has_next {
                None
            } else {
                roots_scan(args, i + 2, RootsScan { name: args[i + 1], ..st })
            }
        } else if flag_value_of(a, "--port"@) is Some {
            match parse_unsigned(flag_value_of(a, "--port"@)->0, 65535) {
                None => None,
                Some(p) => roots_scan(args, i + 1, RootsScan { port: p, opts: true, ..st }),
            }
        } else if a == "--port"@ {
            if !has_next {
                None
            } else {
                match parse_unsigned(args[i + 1], 65535) {
                    None => None,
                    Some(p) => roots_scan(args, i + 2, RootsScan { port: p, opts: true, ..st }),
                }
            }
        } else if flag_value_of(a, "--bind"@) is Some {
            roots_scan(
                args,
                i + 1,
                RootsScan { bind: flag_value_of(a, "--bind"@)->0, opts: true, ..st },
            )
        } else if a == "--bind"@ {
            if !has_next {
                None
            } else {
                roots_scan(args, i + 2, RootsScan { bind: args[i + 1], opts: true, ..st })
            }
        } else if a == "--no-open"@ {
            roots_scan(args, i + 1, RootsScan { no_open: true, opts: true, ..st })
        } else if a == "--audit"@ {
            roots_scan(args, i + 1, RootsScan { audit: true, opts: true, ..st })
        } else if flag_value_of(a, "--timeout"@) is Some {
            match duration_millis(flag_value_of(a, "--timeout"@)->0) {
                None => None,
                Some(ms) => roots_scan(args, i + 1, RootsScan { timeout: ms, opts: true, ..st }),
            }
        } else if a == "--timeout"@ {
            if !has_next {
                None
            } else {
                match duration_millis(args[i + 1]) {
                    None => None,
                    Some(ms) => roots_scan(args, i + 2, RootsScan { timeout: ms, opts: true, ..st }),
                }
            }
        } else if a.len() > 0 && a[0] == '-' {
            None
        } else if st.saw && st.sub is None {
            roots_scan(args, i + 1, RootsScan { sub: Some(a), ..st })
        } else if st.saw {
            roots_scan(args, i + 1, RootsScan { positionals: st.positionals.push(a), ..st })
        } else {
            None
        }
    }
}

/// The subcommand that the arguments read ask for: `add` (or `register`)
/// takes at most one path and no `open` option, `list` (or `ls`) nothing,
/// `remove` (or `rm`) one root and no name or `open` option, `open` (or `o`)
/// one root and no name.
pub open spec fn roots_command_of(st: RootsScan) -> Option<RootsCommandView> {
    match st.sub {
        None => None,
        Some(sub) => if sub == "add"@ || sub == "register"@ {
            if st.positionals.len() > 1 || st.opts {
                None
            } else {
                Some(
                    RootsCommandView::Add {
                        path: if st.positionals.len() == 1 {
                            st.positionals[0]
                        } else {
                            "."@
                        },
                        name: st.name,
                    },
                )
            }
        } else if sub == "list"@ || sub == "ls"@ {
            if st.positionals.len() > 0 || st.name.len() > 0 || st.opts {
                None
            } else {
                Some(RootsCommandView::List)
            }
        } else if sub == "remove"@ || sub == "rm"@ {
            if st.positionals.len() == 1 && st.name.len() == 0 && !st.opts {
                Some(RootsCommandView::Remove { name_or_path: st.positionals[0] })
            } else {
                None
            }
        } else if sub == "open"@ || sub == "o"@ {
            if st.positionals.len() == 1 && st.name.len() == 0 {
                Some(
                    RootsCommandView::Open {
                        name_or_path: st.positionals[0],
                        port: st.port,
                        bind: st.bind,
                        no_open: st.no_open,
                        audit: st.audit,
                        timeout: st.timeout,
                    },
                )
            } else {
                None
            }
        } else {
            None
        },
    }
}

/// What a command line asks of `ctx roots`, or `None` when it is refused.
pub open spec fn roots_request(args: Seq<Seq<char>>) -> Option<RootsCommandView> {
    match roots_scan(args, 0, roots_start()) {
        None => None,
        Some(st) => roots_command_of(st),
    }
}

/// The options of `ctx roots`.
#[derive(Debug, Clone, PartialEq, Eq)]
pub struct RootsArgs {
    pub command: RootsCommand,
}

/// Reads the command line of `ctx roots` (see [`roots_request`]).
pub fn parse_roots_args(args: &[String]) -> (r: Option<RootsArgs>)
    ensures
        match r {
            Some(p) => p.command.wf() && roots_request(views(args@)) == Some(p.command.view_of()),
            None => roots_request(views(args@)) is None,
        },
{
    let ghost all = views(args@);
    let mut saw = false;
    let mut sub: Option<String> = None;
    let mut name = String::new();
    let mut port: u16 = 0;
    let mut bind = "127.0.0.1".to_owned();
    let mut no_open = false;
    let mut audit = false;
    let mut timeout = WaitTime { secs: 10, millis: 0 };
    let mut opts = false;
    let mut positionals: Vec<String> = Vec::new();
    let mut i: usize = 0;
    assert(views(positionals@) =~= Seq::<Seq<char>>::empty());
    while i < args.len()
        invariant
            all == views(args@),
            i <= args.len(),
            timeout.wf(),
            roots_scan(all, 0, roots_start()) == roots_scan(
                all,
                i as int,
                RootsScan {
                    saw,
                    sub: match sub {
                        Some(s) => Some(s@),
                        None => None,
                    },
                    name: name@,
                    port: port as int,
                    bind: bind@,
                    no_open,
                    audit,
                    timeout: timeout.total_millis(),
                    opts,
                    positionals: views(positionals@),
                },
            ),
        decreases args.len() - i,
    {
        let arg = &args[i];
        let a = chars_of(arg.as_str());
        assert(a@ == all[i as int]);
        if is_word(&a, "roots") {
            if saw {
                return None;
            }
            saw = true;
            i = i + 1;
        } else if let Some(v) = flag_value(arg.as_str(), "--name") {
            name = v;
            i = i + 1;
        } else if is_word(&a, "--name") {
            match next_arg(args, i) {
                None => return None,
                Some(v) => {
                    assert(v@ == all[i + 1]);
                    name = v.clone();
                },
            }
            i = i + 2;
        } else if let Some(v) = flag_value(arg.as_str(), "--port") {
            match parse_roots_port(v.as_str()) {
                None => return None,
                Some(p) => {
                    port = p;
                },
            }
            opts = true;
            i = i + 1;
        } else if is_word(&a, "--port") {
            match next_arg(args, i) {
                None => return None,
                Some(v) => {
                    assert(v@ == all[i + 1]);
                    match parse_roots_port(v.as_str()) {
                        None => return None,
                        Some(p) => {
                            port = p;
                        },
                    }
                },
            }
            opts = true;
            i = i + 2;
        } else if let Some(v) = flag_value(arg.as_str(), "--bind") {
            bind = v;
            opts = true;
            i = i + 1;
        } else if is_word(&a, "--bind") {
            match next_arg(args, i) {
                None => return None,
                Some(v) => {
                    assert(v@ == all[i + 1]);
                    bind = v.clone();
                },
            }
            opts = true;
            i = i + 2;
        } else if is_word(&a, "--no-open") {
            no_open = true;
            opts = true;
            i = i + 1;
        } else if is_word(&a, "--audit") {
            audit = true;
            opts = true;
            i = i + 1;
        } else if let Some(v) = flag_value(arg.as_str(), "--timeout") {
            match parse_duration_arg(v.as_str()) {
                None => return None,
                Some(w) => {
                    timeout = w;
                },
            }
            opts = true;
            i = i + 1;
        } else if is_word(&a, "--timeout") {
            match next_arg(args, i) {
                None => return None,
                Some(v) => {
                    assert(v@ == all[i + 1]);
                    match parse_duration_arg(v.as_str()) {
                        None => return None,
                        Some(w) => {
                            timeout = w;
                        },
                    }
                },
            }
            opts = true;
            i = i + 2;
        } else if a.len() > 0 && a[0] == '-' {
            return None;
        } else if saw && sub.is_none() {
            sub = Some(arg.clone());
            i = i + 1;
        } else if saw {
            let ghost before = views(positionals@);
            positionals.push(arg.clone());
            assert(views(positionals@) =~= before.push(a@));
            i = i + 1;
        } else {
            return None;
        }
    }
    let command = match sub {
        None => return None,
        Some(s) => {
            let sc = chars_of(s.as_str());
            let name_empty = name.as_str().is_empty();
            if is_word(&sc, "add") || is_word(&sc, "register") {
                if positionals.len() > 1 || opts {
                    return None;
                }
                let path = if positionals.len() == 1 {
                    positionals[0].clone()
                } else {
                    ".".to_owned()
                };
                RootsCommand::Add { path, name }
            } else if is_word(&sc, "list") || is_word(&sc, "ls") {
                if positionals.len() > 0 || !name_empty || opts {
                    return None;
                }
                RootsCommand::List
            } else if is_word(&sc, "remove") || is_word(&sc, "rm") {
                if !(positionals.len() == 1 && name_empty && !opts) {
                    return None;
                }
                RootsCommand::Remove { name_or_path: positionals[0].clone() }
            } else if is_word(&sc, "open") || is_word(&sc, "o") {
                if !(positionals.len() == 1 && name_empty) {
                    return None;
                }
                RootsCommand::Open {
                    name_or_path: positionals[0].clone(),
                    port,
                    bind,
                    no_open,
                    audit,
                    timeout,
                }
            } else {
                return None;
            }
        },
    };
    Some(RootsArgs { command })
}

} // verus!
