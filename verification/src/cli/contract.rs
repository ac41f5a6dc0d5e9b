//! The command line of `ctx contract verify`.
use vstd::prelude::*;

use crate::cli::common::{flag_value, flag_value_of};
use crate::cli::log_args::{is_word, next_arg};
use crate::text::{chars_of, views};

verus! {

/// The options of `ctx contract verify`.
#[derive(Debug, Clone, PartialEq, Eq)]
pub struct ContractVerifyArgs {
    pub pack_path: String,
    pub format: String,
    pub response_path: Option<String>,
    pub strict: bool,
    pub no_symbols: bool,
    pub check_worktree: bool,
    pub root: Option<String>,
}

/// An `--engine` value that is accepted: `go` or `rust`.
pub open spec fn known_engine(v: Seq<char>) -> bool {
    v == "go"@ || v == "rust"@
}

/// Whether an `--engine` value is accepted (see [`known_engine`]).
fn is_known_engine(v: &str) -> (r: bool)
    ensures
        r == known_engine(v@),
{
    let c = chars_of(v);
    is_word(&c, "go") || is_word(&c, "rust")
}

/// What the arguments read so far have set.
pub struct ContractScan {
    pub format: Seq<char>,
    pub response_path: Option<Seq<char>>,
    pub strict: bool,
    pub no_symbols: bool,
    pub check_worktree: bool,
    pub root: Option<Seq<char>>,
    pub positionals: Seq<Seq<char>>,
}

/// Nothing read yet.
pub open spec fn contract_start() -> ContractScan {
    ContractScan {
        format: "markdown"@,
        response_path: None,
        strict: false,
        no_symbols: false,
        check_worktree: false,
        root: None,
        positionals: Seq::empty(),
    }
}

/// Reads the arguments from `i` on; `None` when one is refused.
pub open spec fn contract_scan(args: Seq<Seq<char>>, i: int, st: ContractScan) -> Option<ContractScan>
    decreases args.len() - i,
{
    if i < 0 || i >= args.len() {
        Some(st)
    } else {
        let a = args[i];
        let has_next = i + 1 < args.len();
        if a == "--strict"@ {
            contract_scan(args, i + 1, ContractScan { strict: true, ..st })
        } else if a == "--no-symbols"@ {
            contract_scan(args, i + 1, ContractScan { no_symbols: true, ..st })
        } else if a == "--check-worktree"@ {
            contract_scan(args, i + 1, ContractScan { check_worktree: true, ..st })
        } else if flag_value_of(a, "--format"@) is Some {
            contract_scan(args, i + 1, ContractScan { format: flag_value_of(a, "--format"@)->0, ..st })
        } else if a == "--format"@ {
            if !has_next {
                None
            } else {
                contract_scan(args, i + 2, ContractScan { format: args[i + 1], ..st })
            }
        } else if flag_value_of(a, "--response"@) is Some {
            contract_scan(args, i + 1, ContractScan { response_path: Some(flag_value_of(a, "--response"@)->0), ..st })
        } else if a == "--response"@ {
            if !has_next {
                None
            } else {
                contract_scan(args, i + 2, ContractScan { response_path: Some(args[i + 1]), ..st })
            }
        } else if flag_value_of(a, "--root"@) is Some {
            contract_scan(args, i + 1, ContractScan { root: Some(flag_value_of(a, "--root"@)->0), ..st })
        } else if a == "--root"@ {
            if !has_next {
                None
            } else {
                contract_scan(args, i + 2, ContractScan { root: Some(args[i + 1]), ..st })
            }
        } else if flag_value_of(a, "--engine"@) is Some {
            if !known_engine(flag_value_of(a, "--engine"@)->0) {
                None
            } else {
                contract_scan(args, i + 1, st)
            }
        } else if a == "--engine"@ {
            if !has_next || !known_engine(args[i + 1]) {
                None
            } else {
                contract_scan(args, i + 2, st)
            }
        } else if a.len() > 0 && a[0] == '-' {
            None
        } else {
            contract_scan(args, i + 1, ContractScan { positionals: st.positionals.push(a), ..st })
        }
    }
}

/// What a command line asks of `ctx contract verify`, as (pack, format,
/// response, strict, no symbols, check worktree, root): `None` unless
/// exactly one pack path is given, with known flags and engine.
pub open spec fn contract_request(args: Seq<Seq<char>>) -> Option<(Seq<char>, Seq<char>, Option<Seq<char>>, bool, bool, bool, Option<Seq<char>>)> {
    match contract_scan(args, 0, contract_start()) {
        None => None,
        Some(st) => if st.positionals.len() != 1 {
            None
        } else {
            Some((st.positionals[0], st.format, st.response_path, st.strict, st.no_symbols, st.check_worktree, st.root))
        },
    }
}

/// The view of an optional text.
pub open spec fn opt_view(o: Option<String>) -> Option<Seq<char>> {
    match o {
        Some(s) => Some(s@),
        None => None,
    }
}

/// Reads the command line of `ctx contract verify` (see
/// [`contract_request`]).
pub fn parse_contract_verify_args(args: &[String]) -> (r: Option<ContractVerifyArgs>)
    ensures
        match r {
            Some(c) => contract_request(views(args@)) == Some((c.pack_path@, c.format@, opt_view(c.response_path), c.strict, c.no_symbols, c.check_worktree, opt_view(c.root))),
            None => contract_request(views(args@)) is None,
        },
{
    let ghost all = views(args@);
    let mut format: String = "markdown".to_owned();
    let mut response_path: Option<String> = None;
    let mut strict: bool = false;
    let mut no_symbols: bool = false;
    let mut check_worktree: bool = false;
    let mut root: Option<String> = None;
    let mut positionals: Vec<String> = Vec::new();
    let mut i: usize = 0;
    assert(views(positionals@) =~= Seq::<Seq<char>>::empty());
    while i < args.len()
        invariant
            all == views(args@),
            i <= args.len(),
            contract_scan(all, 0, contract_start()) == contract_scan(all, i as int, ContractScan { format: format@, response_path: match response_path { Some(s) => Some(s@), None => None, }, strict: strict, no_symbols: no_symbols, check_worktree: check_worktree, root: match root { Some(s) => Some(s@), None => None, }, positionals: views(positionals@) }),
        decreases args.len() - i,
    {
        let arg = &args[i];
        let a = chars_of(arg.as_str());
        assert(a@ == all[i as int]);
        if is_word(&a, "--strict") {
            strict = true;
            i = i + 1;
        } else if is_word(&a, "--no-symbols") {
            no_symbols = true;
            i = i + 1;
        } else if is_word(&a, "--check-worktree") {
            check_worktree = true;
            i = i + 1;
        } else if let Some(v) = flag_value(arg.as_str(), "--format") {
            format = v;
            i = i + 1;
        } else if is_word(&a, "--format") {
            match next_arg(args, i) {
                None => return None,
                Some(v) => {
                    assert(v@ == all[i + 1]);
                    format = v.clone();
                },
            }
            i = i + 2;
        } else if let Some(v) = flag_value(arg.as_str(), "--response") {
            response_path = Some(v);
            i = i + 1;
        } else if is_word(&a, "--response") {
            match next_arg(args, i) {
                None => return None,
                Some(v) => {
                    assert(v@ == all[i + 1]);
                    response_path = Some(v.clone());
                },
            }
            i = i + 2;
        } else if let Some(v) = flag_value(arg.as_str(), "--root") {
            root = Some(v);
            i = i + 1;
        } else if is_word(&a, "--root") {
            match next_arg(args, i) {
                None => return None,
                Some(v) => {
                    assert(v@ == all[i + 1]);
                    root = Some(v.clone());
                },
            }
            i = i + 2;
        } else if let Some(v) = flag_value(arg.as_str(), "--engine") {
            if !is_known_engine(v.as_str()) {
                return None;
            }
            i = i + 1;
        } else if is_word(&a, "--engine") {
            match next_arg(args, i) {
                None => return None,
                Some(v) => {
                    assert(v@ == all[i + 1]);
                    if !is_known_engine(v.as_str()) {
                        return None;
                    }
                },
            }
            i = i + 2;
        } else if a.len() > 0 && a[0] == '-' {
            return None;
        } else {
            let ghost before = views(positionals@);
            positionals.push(arg.clone());
            assert(views(positionals@) =~= before.push(a@));
            i = i + 1;
        }
    }
    if positionals.len() != 1 {
        return None;
    }
    let pack_path = positionals[0].clone();
    Some(ContractVerifyArgs { pack_path, format, response_path, strict, no_symbols, check_worktree, root })
}

} // verus!

