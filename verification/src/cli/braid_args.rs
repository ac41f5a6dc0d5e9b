//! The command line of `ctx braid`.
use vstd::prelude::*;

use crate::cli::common::{flag_value, flag_value_of};
use crate::cli::log_args::{is_word, next_arg};
use crate::text::{chars_of, parse_i64, parse_i64_exec, views};

verus! {

/// What the arguments of `ctx braid` read so far have set.
pub struct BraidScan {
    pub saw: bool,
    pub json: bool,
    pub plain: bool,
    pub file: Seq<char>,
    pub budget: int,
    pub format: Seq<char>,
    pub explain: bool,
    pub dry_run: bool,
    pub out: Seq<char>,
    pub contract: bool,
    pub extra: bool,
}

/// Nothing read yet: `braid.toml`, a budget of 32000 tokens, markdown,
/// the contract on.
pub open spec fn braid_start() -> BraidScan {
    BraidScan {
        saw: false,
        json: false,
        plain: false,
        file: "braid.toml"@,
        budget: 32000,
        format: "markdown"@,
        explain: false,
        dry_run: false,
        out: Seq::empty(),
        contract: true,
        extra: false,
    }
}

/// Whether a `--contract=` value switches the contract on: anything but
/// `false` and `0`.
pub open spec fn contract_on(v: Seq<char>) -> bool {
    v != "false"@ && v != "0"@
}

/// Reads the arguments from `i` on; `None` when one is refused.
pub open spec fn braid_scan(args: Seq<Seq<char>>, i: int, st: BraidScan) -> Option<BraidScan>
    decreases args.len() - i,
{
    if i < 0 || i >= args.len() {
        Some(st)
    } else {
        let a = args[i];
        let has_next = i + 1 < args.len();
        if a == "--json"@ {
            braid_scan(args, i + 1, BraidScan { json: true, ..st })
        } else if a == "--plain"@ {
            braid_scan(args, i + 1, BraidScan { plain: true, ..st })
        } else if a == "braid"@ {
            if st.saw {
                None
            } else {
                braid_scan(args, i + 1, BraidScan { saw: true, ..st })
            }
        } else if flag_value_of(a, "--file"@) is Some {
            braid_scan(args, i + 1, BraidScan { file: flag_value_of(a, "--file"@)->0, ..st })
        } else if a == "--file"@ {
            if !has_next {
                None
            } else {
                braid_scan(args, i + 2, BraidScan { file: args[i + 1], ..st })
            }
        } else if flag_value_of(a, "--budget"@) is Some {
            match parse_i64(flag_value_of(a, "--budget"@)->0) {
                None => None,
                Some(n) => braid_scan(args, i + 1, BraidScan { budget: n, ..st }),
            }
        } else if a == "--budget"@ {
            if !has_next {
                None
            } else {
                match parse_i64(args[i + 1]) {
                    None => None,
                    Some(n) => braid_scan(args, i + 2, BraidScan { budget: n, ..st }),
                }
            }
        } else if flag_value_of(a, "--format"@) is Some {
            braid_scan(args, i + 1, BraidScan { format: flag_value_of(a, "--format"@)->0, ..st })
        } else if a == "--format"@ {
            if !has_next {
                None
            } else {
                braid_scan(args, i + 2, BraidScan { format: args[i + 1], ..st })
            }
        } else if a == "--explain"@ {
            braid_scan(args, i + 1, BraidScan { explain: true, ..st })
        } else if a == "--dry-run"@ {
            braid_scan(args, i + 1, BraidScan { dry_run: true, ..st })
        } else if flag_value_of(a, "--out"@) is Some {
            braid_scan(args, i + 1, BraidScan { out: flag_value_of(a, "--out"@)->0, ..st })
        } else if a == "--out"@ {
            if !has_next {
                None
            } else {
                braid_scan(args, i + 2, BraidScan { out: args[i + 1], ..st })
            }
        } else if flag_value_of(a, "--braid-engine"@) is Some {
            braid_scan(args, i + 1, st)
        } else if a == "--braid-engine"@ {
            if !has_next {
                None
            } else {
                braid_scan(args, i + 2, st)
            }
        } else if flag_value_of(a, "--contract"@) is Some {
            braid_scan(
                args,
                i + 1,
                BraidScan { contract: contract_on(flag_value_of(a, "--contract"@)->0), ..st },
            )
        } else if a == "--contract"@ {
            braid_scan(args, i + 1, BraidScan { contract: true, ..st })
        } else if a == "--no-contract"@ {
            braid_scan(args, i + 1, BraidScan { contract: false, ..st })
        } else if a.len() > 0 && a[0] == '-' {
            None
        } else if st.saw {
            braid_scan(args, i + 1, BraidScan { extra: true, ..st })
        } else {
            None
        }
    }
}

/// The options of `ctx braid`, by view.
pub struct BraidArgsView {
    pub file: Seq<char>,
    pub budget: int,
    pub format: Seq<char>,
    pub explain: bool,
    pub dry_run: bool,
    pub out: Seq<char>,
    pub contract: bool,
}

/// What a command line asks of `ctx braid`: `None` unless it names `braid`
/// once, with no positional argument and every flag known. `--json` wins
/// over `--format`; `--plain` turns the default markdown into plain.
pub open spec fn braid_request(args: Seq<Seq<char>>) -> Option<BraidArgsView> {
    match braid_scan(args, 0, braid_start()) {
        None => None,
        Some(st) => if !st.saw || st.extra {
            None
        } else {
            Some(
                BraidArgsView {
                    file: st.file,
                    budget: st.budget,
                    format: if st.json {
                        "json"@
                    } else if st.plain && st.format == "markdown"@ {
                        "plain"@
                    } else {
                        st.format
                    },
                    explain: st.explain,
                    dry_run: st.dry_run,
                    out: st.out,
                    contract: st.contract,
                },
            )
        },
    }
}

/// The options of `ctx braid`.
#[derive(Debug, Clone, PartialEq, Eq)]
pub struct BraidArgs {
    pub file: String,
    pub budget: i64,
    pub format: String,
    pub explain: bool,
    pub dry_run: bool,
    pub out: String,
    pub contract: bool,
}

impl BraidArgs {
    /// The view of the options.
    pub open spec fn view_of(self) -> BraidArgsView {
        BraidArgsView {
            file: self.file@,
            budget: self.budget as int,
            format: self.format@,
            explain: self.explain,
            dry_run: self.dry_run,
            out: self.out@,
            contract: self.contract,
        }
    }
}

/// Reads the command line of `ctx braid` (see [`braid_request`]).
pub fn parse_braid_args(args: &[String]) -> (r: Option<BraidArgs>)
    ensures
        match r {
            Some(b) => braid_request(views(args@)) == Some(b.view_of()),
            None => braid_request(views(args@)) is None,
        },
{
    let ghost all = views(args@);
    let mut saw = false;
    let mut json = false;
    let mut plain = false;
    let mut file = "braid.toml".to_owned();
    let mut budget: i64 = 32000;
    let mut format = "markdown".to_owned();
    let mut explain = false;
    let mut dry_run = false;
    let mut out = String::new();
    let mut contract = true;
    let mut extra = false;
    let mut i: usize = 0;
    while i < args.len()
        invariant
            all == views(args@),
            i <= args.len(),
            braid_scan(all, 0, braid_start()) == braid_scan(
                all,
                i as int,
                BraidScan {
                    saw,
                    json,
                    plain,
                    file: file@,
                    budget: budget as int,
                    format: format@,
                    explain,
                    dry_run,
                    out: out@,
                    contract,
                    extra,
                },
            ),
        decreases args.len() - i,
    {
        let arg = &args[i];
        let a = chars_of(arg.as_str());
        assert(a@ == all[i as int]);
        if is_word(&a, "--json") {
            json = true;
            i = i + 1;
        } else if is_word(&a, "--plain") {
            plain = true;
            i = i + 1;
        } else if is_word(&a, "braid") {
            if saw {
                return None;
            }
            saw = true;
            i = i + 1;
        } else if let Some(v) = flag_value(arg.as_str(), "--file") {
            file = v;
            i = i + 1;
        } else if is_word(&a, "--file") {
            match next_arg(args, i) {
                None => return None,
                Some(v) => {
                    assert(v@ == all[i + 1]);
                    file = v.clone();
                },
            }
            i = i + 2;
        } else if let Some(v) = flag_value(arg.as_str(), "--budget") {
            match parse_i64_exec(&chars_of(v.as_str())) {
                None => return None,
                Some(n) => {
                    budget = n;
                },
            }
            i = i + 1;
        } else if is_word(&a, "--budget") {
            match next_arg(args, i) {
                None => return None,
                Some(v) => {
                    assert(v@ == all[i + 1]);
                    match parse_i64_exec(&chars_of(v.as_str())) {
                        None => return None,
                        Some(n) => {
                            budget = n;
                        },
                    }
                },
            }
            i = i + 2;
        } else if let Some(v) = flag_value(arg.as_str(), "--format") {
            format = v;
            i = i + 1;
        } else if is_word(&a, "--format") {
            match next_arg(args, i) {
                None => return None,
                Some(v) => {
                    assert(v@ == all[i + 1]);
                    format = v.clone();
                },
            }
            i = i + 2;
        } else if is_word(&a, "--explain") {
            explain = true;
            i = i + 1;
        } else if is_word(&a, "--dry-run") {
            dry_run = true;
            i = i + 1;
        } else if let Some(v) = flag_value(arg.as_str(), "--out") {
            out = v;
            i = i + 1;
        } else if is_word(&a, "--out") {
            match next_arg(args, i) {
                None => return None,
                Some(v) => {
                    assert(v@ == all[i + 1]);
                    out = v.clone();
                },
            }
            i = i + 2;
        } else if flag_value(arg.as_str(), "--braid-engine").is_some() {
            i = i + 1;
        } else if is_word(&a, "--braid-engine") {
            if next_arg(args, i).is_none() {
                return None;
            }
            i = i + 2;
        } else if let Some(v) = flag_value(arg.as_str(), "--contract") {
            let vc = chars_of(v.as_str());
            contract = !is_word(&vc, "false") && !is_word(&vc, "0");
            i = i + 1;
        } else if is_word(&a, "--contract") {
            contract = true;
            i = i + 1;
        } else if is_word(&a, "--no-contract") {
            contract = false;
            i = i + 1;
        } else if a.len() > 0 && a[0] == '-' {
            return None;
        } else if saw {
            extra = true;
            i = i + 1;
        } else {
            return None;
        }
    }
    if !saw || extra {
        return None;
    }
    let fc = chars_of(format.as_str());
    if json {
        format = "json".to_owned();
    } else if plain && is_word(&fc, "markdown") {
        format = "plain".to_owned();
    }
    Some(BraidArgs { file, budget, format, explain, dry_run, out, contract })
}

} // verus!
