//! The command line of `ctx diff`, with its debounce durations.
use vstd::prelude::*;

use crate::cli::log_args::{is_word, next_arg};
use crate::cli::roots::{digit_run, WaitTime};
use crate::text::{
    all_digits, append_chars, chars_of, digits_value, is_digit, parse_unsigned, slice_chars,
    starts_with, starts_with_exec, string_of, views,
};

verus! {

/// A debounce duration in milliseconds: digits then no unit or `s`, `ms`,
/// `m` or `h`; zero, malformed and out-of-range values are refused with
/// their message.
pub open spec fn diff_duration(raw: Seq<char>) -> Result<int, Seq<char>> {
    let split = digit_run(raw);
    if split == 0 {
        Err("invalid duration "@ + raw)
    } else {
        match parse_unsigned(raw.take(split), u64::MAX as int) {
            None => Err("invalid duration "@ + raw),
            Some(v) => if v == 0 {
                Err("duration must be positive: "@ + raw)
            } else {
                let unit = raw.skip(split);
                if unit == "ms"@ {
                    Ok(v)
                } else if unit.len() == 0 || unit == "s"@ {
                    Ok(v * 1000)
                } else if unit == "m"@ {
                    if v * 60 > u64::MAX {
                        Err("duration out of range "@ + raw)
                    } else {
                        Ok(v * 60000)
                    }
                } else if unit == "h"@ {
                    if v * 3600 > u64::MAX {
                        Err("duration out of range "@ + raw)
                    } else {
                        Ok(v * 3600000)
                    }
                } else {
                    Err("invalid duration "@ + raw)
                }
            },
        }
    }
}

/// The value of a run of digits, when it fits in 64 bits.
pub(crate) fn digits_u64(digits: &Vec<char>) -> (r: Option<u64>)
    requires
        digits@.len() > 0,
        all_digits(digits@),
    ensures
        parse_unsigned(digits@, u64::MAX as int) == (match r {
            Some(v) => Some(v as int),
            None => None,
        }),
{
    assert(digits@[0] != '+') by {
        assert(is_digit(digits@[0]));
    }
    let mut acc: u128 = 0;
    let mut i: usize = 0;
    assert(digits@.take(0) =~= Seq::<char>::empty());
    while i < digits.len()
        invariant
            i <= digits.len(),
            digits@.len() > 0,
            all_digits(digits@),
            digits@[0] != '+',
            acc <= u64::MAX,
            acc == digits_value(digits@.take(i as int)),
        decreases digits.len() - i,
    {
        let c = digits[i];
        assert(is_digit(digits@[i as int]));
        let d = (c as u32 - '0' as u32) as u128;
        proof {
            crate::text::lemma_digits_value_push(digits@.take(i as int), c);
            assert(digits@.take(i + 1) =~= digits@.take(i as int).push(c));
        }
        if acc * 10 + d > 18446744073709551615u128 {
            proof {
                crate::text::lemma_digits_value_prefix(digits@, i + 1);
            }
            return None;
        }
        acc = acc * 10 + d;
        i = i + 1;
    }
    assert(digits@.take(digits@.len() as int) =~= digits@);
    Some(acc as u64)
}

/// A message naming the raw value after `what`.
fn message(what: &str, raw: &Vec<char>) -> (r: String)
    ensures
        r@ == what@ + raw@,
{
    let mut e = chars_of(what);
    append_chars(&mut e, raw);
    string_of(&e)
}

/// Reads a debounce duration (see [`diff_duration`]).
pub fn parse_duration(raw: &str) -> (r: Result<WaitTime, String>)
    ensures
        match r {
            Ok(w) => w.wf() && diff_duration(raw@) == Ok::<int, Seq<char>>(w.total_millis()),
            Err(e) => diff_duration(raw@) == Err::<int, Seq<char>>(e@),
        },
{
    let t = chars_of(raw);
    let mut split: usize = 0;
    assert(t@.skip(0) =~= t@);
    while split < t.len() && '0' <= t[split] && t[split] <= '9'
        invariant
            split <= t.len(),
            digit_run(t@) == split + digit_run(t@.skip(split as int)),
            forall|k: int| 0 <= k < split ==> #[trigger] is_digit(t@[k]),
        decreases t.len() - split,
    {
        assert(t@.skip(split as int).drop_first() =~= t@.skip(split + 1));
        split = split + 1;
    }
    if split == t.len() {
        assert(t@.skip(split as int) =~= Seq::<char>::empty());
    }
    assert(digit_run(t@) == split);
    if split == 0 {
        return Err(message("invalid duration ", &t));
    }
    let digits = slice_chars(&t, 0, split);
    assert(digits@ =~= t@.take(split as int));
    assert(all_digits(digits@)) by {
        assert forall|k: int| 0 <= k < digits@.len() implies #[trigger] is_digit(digits@[k]) by {
            assert(digits@[k] == t@[k]);
        }
    }
    let value = match digits_u64(&digits) {
        None => return Err(message("invalid duration ", &t)),
        Some(v) => v,
    };
    if value == 0 {
        return Err(message("duration must be positive: ", &t));
    }
    let unit = slice_chars(&t, split, t.len());
    assert(unit@ =~= t@.skip(split as int));
    if is_word(&unit, "ms") {
        Ok(WaitTime { secs: value / 1000, millis: (value % 1000) as u32 })
    } else if unit.len() == 0 || is_word(&unit, "s") {
        Ok(WaitTime { secs: value, millis: 0 })
    } else if is_word(&unit, "m") {
        match value.checked_mul(60) {
            Some(s) => Ok(WaitTime { secs: s, millis: 0 }),
            None => Err(message("duration out of range ", &t)),
        }
    } else if is_word(&unit, "h") {
        match value.checked_mul(3600) {
            Some(s) => Ok(WaitTime { secs: s, millis: 0 }),
            None => Err(message("duration out of range ", &t)),
        }
    } else {
        Err(message("invalid duration ", &t))
    }
}

/// What the arguments of `ctx diff` read so far have set; the debounce in
/// milliseconds.
pub struct DiffScan {
    pub root: Option<Seq<char>>,
    pub watch: bool,
    pub debounce: int,
    pub debounce_set: bool,
    pub paths: Seq<Seq<char>>,
}

/// Reads the arguments from `i` on; the message of the first refused one.
pub open spec fn diff_scan(args: Seq<Seq<char>>, i: int, st: DiffScan) -> Result<DiffScan, Seq<char>>
    decreases args.len() - i,
{
    if i < 0 || i >= args.len() {
        Ok(st)
    } else {
        let a = args[i];
        let has_next = i + 1 < args.len();
        if a == "--watch"@ {
            diff_scan(args, i + 1, DiffScan { watch: true, ..st })
        } else if a == "--debounce"@ {
            if !has_next {
                Err("--debounce requires a duration"@)
            } else {
                match diff_duration(args[i + 1]) {
                    Err(e) => Err(e),
                    Ok(ms) => diff_scan(args, i + 2, DiffScan { debounce: ms, debounce_set: true, ..st }),
                }
            }
        } else if starts_with(a, "--debounce="@) {
            match diff_duration(a.skip(11)) {
                Err(e) => Err(e),
                Ok(ms) => diff_scan(args, i + 1, DiffScan { debounce: ms, debounce_set: true, ..st }),
            }
        } else if a == "--path"@ {
            if !has_next {
                Err("--path requires a value"@)
            } else if args[i + 1].len() == 0 {
                Err("--path cannot be empty"@)
            } else {
                diff_scan(args, i + 2, DiffScan { paths: st.paths.push(args[i + 1]), ..st })
            }
        } else if starts_with(a, "--path="@) {
            if a.len() == 7 {
                Err("--path cannot be empty"@)
            } else {
                diff_scan(args, i + 1, DiffScan { paths: st.paths.push(a.skip(7)), ..st })
            }
        } else if a.len() > 0 && a[0] == '-' {
            Err("unknown option "@ + a)
        } else if st.root is None {
            diff_scan(args, i + 1, DiffScan { root: Some(a), ..st })
        } else {
            Err("unexpected argument "@ + a)
        }
    }
}

/// The options of `ctx diff`.
#[derive(Debug, Clone, PartialEq, Eq)]
pub struct DiffOptions {
    pub root: String,
    pub watch: bool,
    pub debounce: WaitTime,
    pub paths: Vec<String>,
}

/// What the arguments after `diff` ask for, as (root, watch, debounce in
/// milliseconds, paths), or the message of the refusal: a root (`.` when
/// none), `--watch`, a debounce (200 ms by default, and only with
/// `--watch`) and any number of non-empty `--path` values.
pub open spec fn diff_request(args: Seq<Seq<char>>) -> Result<(Seq<char>, bool, int, Seq<Seq<char>>), Seq<char>> {
    match diff_scan(args, 1, DiffScan { root: None, watch: false, debounce: 200, debounce_set: false, paths: Seq::empty() }) {
        Err(e) => Err(e),
        Ok(st) => if st.debounce_set && !st.watch {
            Err("--debounce requires --watch"@)
        } else {
            Ok(
                (
                    match st.root {
                        Some(r) => r,
                        None => "."@,
                    },
                    st.watch,
                    st.debounce,
                    st.paths,
                ),
            )
        },
    }
}

/// Reads the command line of `ctx diff`; `args[0]` is the command itself
/// (see [`diff_request`]).
pub fn parse_args(args: &[String]) -> (r: Result<DiffOptions, String>)
    ensures
        match r {
            Ok(o) => o.debounce.wf() && diff_request(views(args@)) == Ok::<(Seq<char>, bool, int, Seq<Seq<char>>), Seq<char>>(
                (o.root@, o.watch, o.debounce.total_millis(), views(o.paths@)),
            ),
            Err(e) => diff_request(views(args@)) == Err::<(Seq<char>, bool, int, Seq<Seq<char>>), Seq<char>>(e@),
        },
{
    let ghost all = views(args@);
    let mut root: Option<String> = None;
    let mut watch = false;
    let mut debounce = WaitTime { secs: 0, millis: 200 };
    let mut debounce_set = false;
    let mut paths: Vec<String> = Vec::new();
    let mut i: usize = 1;
    assert(views(paths@) =~= Seq::<Seq<char>>::empty());
    while i < args.len()
        invariant
            all == views(args@),
            1 <= i,
            i <= args.len() || args.len() == 0,
            debounce.wf(),
            diff_scan(all, 1, DiffScan { root: None, watch: false, debounce: 200, debounce_set: false, paths: Seq::empty() })
                == diff_scan(
                all,
                i as int,
                DiffScan {
                    root: match root {
                        Some(s) => Some(s@),
                        None => None,
                    },
                    watch,
                    debounce: debounce.total_millis(),
                    debounce_set,
                    paths: views(paths@),
                },
            ),
        decreases args.len() - i,
    {
        let arg = &args[i];
        let a = chars_of(arg.as_str());
        assert(a@ == all[i as int]);
        if is_word(&a, "--watch") {
            watch = true;
            i = i + 1;
        } else if is_word(&a, "--debounce") {
            match next_arg(args, i) {
                None => return Err("--debounce requires a duration".to_owned()),
                Some(v) => {
                    assert(v@ == all[i + 1]);
                    match parse_duration(v.as_str()) {
                        Err(e) => return Err(e),
                        Ok(w) => {
                            debounce = w;
                        },
                    }
                },
            }
            debounce_set = true;
            i = i + 2;
        } else if starts_with_exec(&a, &chars_of("--debounce=")) {
            proof {
                reveal_strlit("--debounce=");
            }
            let v = slice_chars(&a, 11, a.len());
            assert(v@ =~= a@.skip(11));
            match parse_duration(string_of(&v).as_str()) {
                Err(e) => return Err(e),
                Ok(w) => {
                    debounce = w;
                },
            }
            debounce_set = true;
            i = i + 1;
        } else if is_word(&a, "--path") {
            match next_arg(args, i) {
                None => return Err("--path requires a value".to_owned()),
                Some(v) => {
                    assert(v@ == all[i + 1]);
                    if v.as_str().is_empty() {
                        return Err("--path cannot be empty".to_owned());
                    }
                    let ghost before = views(paths@);
                    paths.push(v.clone());
                    assert(views(paths@) =~= before.push(v@));
                },
            }
            i = i + 2;
        } else if starts_with_exec(&a, &chars_of("--path=")) {
            proof {
                reveal_strlit("--path=");
            }
            if a.len() == 7 {
                return Err("--path cannot be empty".to_owned());
            }
            let v = slice_chars(&a, 7, a.len());
            assert(v@ =~= a@.skip(7));
            let ghost before = views(paths@);
            paths.push(string_of(&v));
            assert(views(paths@) =~= before.push(a@.skip(7)));
            i = i + 1;
        } else if a.len() > 0 && a[0] == '-' {
            return Err(message("unknown option ", &a));
        } else if root.is_none() {
            root = Some(arg.clone());
            i = i + 1;
        } else {
            return Err(message("unexpected argument ", &a));
        }
    }
    if debounce_set && !watch {
        return Err("--debounce requires --watch".to_owned());
    }
    let root = match root {
        Some(r) => r,
        None => ".".to_owned(),
    };
    Ok(DiffOptions { root, watch, debounce, paths })
}

} // verus!
