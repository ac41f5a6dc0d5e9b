//! The command line of `ctx skim`.
use vstd::prelude::*;

use crate::cli::common::{flag_value, flag_value_of};
use crate::cli::log_args::{is_word, next_arg};
use crate::cli::where_symbols::{extension_text, path_extension, SymbolInput};
use crate::text::{
    append_chars, chars_of, debug_quoted, debug_text, parse_i64, parse_i64_exec, push_signed,
    signed_decimal, string_of, views,
};

verus! {

/// The options of `ctx skim`.
#[derive(Debug, Clone, PartialEq, Eq)]
pub struct SkimArgs {
    pub path: String,
    pub budget: i64,
    pub unit: String,
    pub lang: String,
    pub tier: String,
}

/// What the arguments read so far have set.
pub struct SkimScan {
    pub saw: bool,
    pub budget: int,
    pub unit: Seq<char>,
    pub lang: Seq<char>,
    pub tier: Seq<char>,
    pub positionals: Seq<Seq<char>>,
}

/// Nothing read yet.
pub open spec fn skim_start() -> SkimScan {
    SkimScan {
        saw: false,
        budget: 1000,
        unit: "tokens"@,
        lang: "auto"@,
        tier: Seq::empty(),
        positionals: Seq::empty(),
    }
}

/// Reads the arguments from `i` on; `None` when one is refused.
pub open spec fn skim_scan(args: Seq<Seq<char>>, i: int, st: SkimScan) -> Option<SkimScan>
    decreases args.len() - i,
{
    if i < 0 || i >= args.len() {
        Some(st)
    } else {
        let a = args[i];
        let has_next = i + 1 < args.len();
        if a == "skim"@ {
            if st.saw {
                None
            } else {
                skim_scan(args, i + 1, SkimScan { saw: true, ..st })
            }
        } else if flag_value_of(a, "--budget"@) is Some {
            match parse_i64(flag_value_of(a, "--budget"@)->0) {
                None => None,
                Some(n) => skim_scan(args, i + 1, SkimScan { budget: n, ..st }),
            }
        } else if a == "--budget"@ {
            if !has_next {
                None
            } else {
                match parse_i64(args[i + 1]) {
                    None => None,
                    Some(n) => skim_scan(args, i + 2, SkimScan { budget: n, ..st }),
                }
            }
        } else if flag_value_of(a, "--unit"@) is Some {
            skim_scan(args, i + 1, SkimScan { unit: flag_value_of(a, "--unit"@)->0, ..st })
        } else if a == "--unit"@ {
            if !has_next {
                None
            } else {
                skim_scan(args, i + 2, SkimScan { unit: args[i + 1], ..st })
            }
        } else if flag_value_of(a, "--lang"@) is Some {
            skim_scan(args, i + 1, SkimScan { lang: flag_value_of(a, "--lang"@)->0, ..st })
        } else if a == "--lang"@ {
            if !has_next {
                None
            } else {
                skim_scan(args, i + 2, SkimScan { lang: args[i + 1], ..st })
            }
        } else if flag_value_of(a, "--tier"@) is Some {
            skim_scan(args, i + 1, SkimScan { tier: flag_value_of(a, "--tier"@)->0, ..st })
        } else if a == "--tier"@ {
            if !has_next {
                None
            } else {
                skim_scan(args, i + 2, SkimScan { tier: args[i + 1], ..st })
            }
        } else if a.len() > 0 && a[0] == '-' {
            None
        } else if st.saw {
            skim_scan(args, i + 1, SkimScan { positionals: st.positionals.push(a), ..st })
        } else {
            None
        }
    }
}

/// What a command line asks of `ctx skim`, as (path, budget, unit, lang,
/// tier): `None` unless it names `skim` once, with exactly one path and
/// known flags.
pub open spec fn skim_request(args: Seq<Seq<char>>) -> Option<(Seq<char>, int, Seq<char>, Seq<char>, Seq<char>)> {
    match skim_scan(args, 0, skim_start()) {
        None => None,
        Some(st) => if !st.saw || st.positionals.len() != 1 {
            None
        } else {
            Some((st.positionals[0], st.budget, st.unit, st.lang, st.tier))
        },
    }
}

/// Reads the command line of `ctx skim` (see [`skim_request`]).
pub fn parse_skim_args(args: &[String]) -> (r: Option<SkimArgs>)
    ensures
        match r {
            Some(s) => skim_request(views(args@)) == Some((s.path@, s.budget as int, s.unit@, s.lang@, s.tier@)),
            None => skim_request(views(args@)) is None,
        },
{
    let ghost all = views(args@);
    let mut saw: bool = false;
    let mut budget: i64 = 1000;
    let mut unit: String = "tokens".to_owned();
    let mut lang: String = "auto".to_owned();
    let mut tier: String = String::new();
    let mut positionals: Vec<String> = Vec::new();
    let mut i: usize = 0;
    assert(views(positionals@) =~= Seq::<Seq<char>>::empty());
    while i < args.len()
        invariant
            all == views(args@),
            i <= args.len(),
            skim_scan(all, 0, skim_start()) == skim_scan(all, i as int, SkimScan { saw: saw, budget: budget as int, unit: unit@, lang: lang@, tier: tier@, positionals: views(positionals@) }),
        decreases args.len() - i,
    {
        let arg = &args[i];
        let a = chars_of(arg.as_str());
        assert(a@ == all[i as int]);
        if is_word(&a, "skim") {
            if saw {
                return None;
            }
            saw = true;
            i = i + 1;
        } else if let Some(v) = flag_value(arg.as_str(), "--budget") {
            match parse_i64_exec(&chars_of(v.as_str())) {
                None => return None,
                Some(n) => {
                    budget = n;
                },
            }
            i = i + 1;
        } else if is_word(&a, "--budget") {
            match next_arg(args, i) {
                None => return None,
                Some(v) => {
                    assert(v@ == all[i + 1]);
                    match parse_i64_exec(&chars_of(v.as_str())) {
                        None => return None,
                        Some(n) => {
                            budget = n;
                        },
                    }
                },
            }
            i = i + 2;
        } else if let Some(v) = flag_value(arg.as_str(), "--unit") {
            unit = v;
            i = i + 1;
        } else if is_word(&a, "--unit") {
            match next_arg(args, i) {
                None => return None,
                Some(v) => {
                    assert(v@ == all[i + 1]);
                    unit = v.clone();
                },
            }
            i = i + 2;
        } else if let Some(v) = flag_value(arg.as_str(), "--lang") {
            lang = v;
            i = i + 1;
        } else if is_word(&a, "--lang") {
            match next_arg(args, i) {
                None => return None,
                Some(v) => {
                    assert(v@ == all[i + 1]);
                    lang = v.clone();
                },
            }
            i = i + 2;
        } else if let Some(v) = flag_value(arg.as_str(), "--tier") {
            tier = v;
            i = i + 1;
        } else if is_word(&a, "--tier") {
            match next_arg(args, i) {
                None => return None,
                Some(v) => {
                    assert(v@ == all[i + 1]);
                    tier = v.clone();
                },
            }
            i = i + 2;
        } else if a.len() > 0 && a[0] == '-' {
            return None;
        } else if saw {
            let ghost before = views(positionals@);
            positionals.push(arg.clone());
            assert(views(positionals@) =~= before.push(a@));
            i = i + 1;
        } else {
            return None;
        }
    }
    if !saw || positionals.len() != 1 {
        return None;
    }
    let path = positionals[0].clone();
    Some(SkimArgs { path, budget, unit, lang, tier })
}

/// The language of a file for skimming: the one requested unless it is
/// empty or `auto`, else by the extension of the path.
pub open spec fn skim_lang(path: Seq<char>, requested: Seq<char>) -> Seq<char> {
    if requested != "auto"@ && requested.len() > 0 {
        requested
    } else {
        let e = match extension_text(path) {
            Some(e) => e,
            None => Seq::empty(),
        };
        if e == "go"@ {
            "go"@
        } else if e == "rs"@ {
            "rust"@
        } else if e == "ts"@ || e == "tsx"@ {
            "typescript"@
        } else if e == "js"@ || e == "jsx"@ || e == "mjs"@ {
            "javascript"@
        } else if e == "py"@ {
            "python"@
        } else if e == "rb"@ {
            "ruby"@
        } else {
            "text"@
        }
    }
}

/// The language of a file for skimming (see [`skim_lang`]).
pub fn detect_skim_lang(path: &str, requested: &str) -> (r: String)
    ensures
        r@ == skim_lang(path@, requested@),
{
    let rq = chars_of(requested);
    if !is_word(&rq, "auto") && rq.len() > 0 {
        return requested.to_owned();
    }
    let e = match path_extension(path) {
        Some(e) => chars_of(e.as_str()),
        None => Vec::new(),
    };
    if is_word(&e, "go") {
        "go".to_owned()
    } else if is_word(&e, "rs") {
        "rust".to_owned()
    } else if is_word(&e, "ts") || is_word(&e, "tsx") {
        "typescript".to_owned()
    } else if is_word(&e, "js") || is_word(&e, "jsx") || is_word(&e, "mjs") {
        "javascript".to_owned()
    } else if is_word(&e, "py") {
        "python".to_owned()
    } else if is_word(&e, "rb") {
        "ruby".to_owned()
    } else {
        "text".to_owned()
    }
}

/// The lines listing the first `n` symbols: `path:line kind name`.
pub open spec fn symbol_lines(path: Seq<char>, syms: Seq<SymbolInput>, n: int) -> Seq<char>
    decreases n,
{
    if n <= 0 {
        Seq::empty()
    } else {
        symbol_lines(path, syms, n - 1) + path + seq![':'] + signed_decimal(syms[n - 1].line as int)
            + seq![' '] + syms[n - 1].kind@ + seq![' '] + syms[n - 1].name@ + seq!['\n']
    }
}

/// A file skimmed at a tier: `full` is the body; `api+doc` and
/// `signatures` list the symbols (or say there is no public one);
/// `outline` lists them (or says there is none); other tiers are refused.
pub open spec fn skim_text(tier: Seq<char>, body: Seq<char>, path: Seq<char>, syms: Seq<SymbolInput>) -> Result<Seq<char>, Seq<char>> {
    if tier == "full"@ {
        Ok(body)
    } else if tier == "api+doc"@ || tier == "signatures"@ {
        if syms.len() == 0 {
            Ok("(no public symbols)\n"@)
        } else {
            Ok(symbol_lines(path, syms, syms.len() as int))
        }
    } else if tier == "outline"@ {
        if syms.len() == 0 {
            Ok("(no symbols)\n"@)
        } else {
            Ok(symbol_lines(path, syms, syms.len() as int))
        }
    } else {
        Err("skim: unknown tier "@ + debug_text(tier))
    }
}

/// The symbol lines (see [`symbol_lines`]).
fn list_symbols(path: &str, symbols: &[SymbolInput]) -> (r: Vec<char>)
    ensures
        r@ == symbol_lines(path@, symbols@, symbols@.len() as int),
{
    let mut out: Vec<char> = Vec::new();
    let mut k: usize = 0;
    while k < symbols.len()
        invariant
            k <= symbols.len(),
            out@ == symbol_lines(path@, symbols@, k as int),
        decreases symbols.len() - k,
    {
        let s = &symbols[k];
        append_chars(&mut out, &chars_of(path));
        out.push(':');
        push_signed(&mut out, s.line);
        out.push(' ');
        append_chars(&mut out, &chars_of(s.kind.as_str()));
        out.push(' ');
        append_chars(&mut out, &chars_of(s.name.as_str()));
        out.push('\n');
        k = k + 1;
        assert(out@ =~= symbol_lines(path@, symbols@, k as int));
    }
    out
}

/// A file skimmed at a tier (see [`skim_text`]).
pub fn render_skim_tier(tier: &str, body: &str, path: &str, symbols: &[SymbolInput]) -> (r: Result<String, String>)
    ensures
        match r {
            Ok(t) => skim_text(tier@, body@, path@, symbols@) == Ok::<Seq<char>, Seq<char>>(t@),
            Err(e) => skim_text(tier@, body@, path@, symbols@) == Err::<Seq<char>, Seq<char>>(e@),
        },
{
    let t = chars_of(tier);
    if is_word(&t, "full") {
        Ok(body.to_owned())
    } else if is_word(&t, "api+doc") || is_word(&t, "signatures") {
        if symbols.len() == 0 {
            Ok("(no public symbols)\n".to_owned())
        } else {
            Ok(string_of(&list_symbols(path, symbols)))
        }
    } else if is_word(&t, "outline") {
        if symbols.len() == 0 {
            Ok("(no symbols)\n".to_owned())
        } else {
            Ok(string_of(&list_symbols(path, symbols)))
        }
    } else {
        let mut e = chars_of("skim: unknown tier ");
        append_chars(&mut e, &chars_of(debug_quoted(tier).as_str()));
        Err(string_of(&e))
    }
}

} // verus!

