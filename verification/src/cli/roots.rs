//! Helpers of `ctx roots` and `ctx browse`: reading a wait time from the
//! command line, showing it again, and finding the address a browse server
//! announces.
use vstd::prelude::*;

use crate::cli::log::is;
use crate::text::{
    all_digits, append_chars, append_str, chars_of, contains, decimal, decimal_chars,
    decimal_chars_wide, digits_value, find_exec, is_digit, is_first_occurrence, is_ws, is_ws_exec,
    parse_unsigned, slice_chars, string_of, trim, trim_exec, trim_start,
};

verus! {

/// A wait time of whole seconds and the milliseconds beyond them.
#[derive(Debug, Clone, Copy, PartialEq, Eq, Structural)]
pub struct WaitTime {
    pub secs: u64,
    pub millis: u32,
}

impl WaitTime {
    /// The wait in milliseconds.
    pub open spec fn total_millis(self) -> int {
        self.secs * 1000 + self.millis
    }

    /// A well-formed wait holds fewer than 1000 extra milliseconds.
    pub open spec fn wf(self) -> bool {
        self.millis < 1000
    }
}

/// The length of the run of ASCII digits that `s` begins with.
pub open spec fn digit_run(s: Seq<char>) -> int
    decreases s.len(),
{
    if s.len() == 0 || !is_digit(s[0]) {
        0
    } else {
        1 + digit_run(s.drop_first())
    }
}

/// The wait a trimmed value asks for, in milliseconds: a number of digits
/// followed by no unit or `s` (seconds), `ms`, `m` or `h`; `None` when the
/// value is malformed or the seconds do not fit in 64 bits.
pub open spec fn trimmed_duration_millis(t: Seq<char>) -> Option<int> {
    let split = digit_run(t);
    if t.len() == 0 || split == 0 {
        None
    } else {
        match parse_unsigned(t.take(split), u64::MAX as int) {
            None => None,
            Some(value) => {
                let unit = t.skip(split);
                if unit == ""@ || unit == "s"@ {
                    Some(value * 1000)
                } else if unit == "ms"@ {
                    Some(value)
                } else if unit == "m"@ {
                    if value * 60 <= u64::MAX {
                        Some(value * 60 * 1000)
                    } else {
                        None
                    }
                } else if unit == "h"@ {
                    if value * 3600 <= u64::MAX {
                        Some(value * 3600 * 1000)
                    } else {
                        None
                    }
                } else {
                    None
                }
            },
        }
    }
}

/// The wait a command-line value asks for, in milliseconds, read after
/// trimming (see [`trimmed_duration_millis`]).
pub open spec fn duration_millis(raw: Seq<char>) -> Option<int> {
    trimmed_duration_millis(trim(raw))
}

/// Reads a wait time such as `100ms`, `10s`, `2m`, `1h` or `10` (see
/// [`duration_millis`]).
pub fn parse_duration_arg(raw: &str) -> (r: Option<WaitTime>)
    ensures
        match r {
            Some(w) => w.wf() && duration_millis(raw@) == Some(w.total_millis()),
            None => duration_millis(raw@) is None,
        },
{
    let t = trim_exec(&chars_of(raw));
    if t.len() == 0 {
        return None;
    }
    let mut split: usize = 0;
    assert(t@.skip(0) =~= t@);
    while split < t.len() && '0' <= t[split] && t[split] <= '9'
        invariant
            split <= t.len(),
            digit_run(t@) == split + digit_run(t@.skip(split as int)),
            forall|k: int| 0 <= k < split ==> #[trigger] is_digit(t@[k]),
        decreases t.len() - split,
    {
        assert(t@.skip(split as int).drop_first() =~= t@.skip(split + 1));
        split = split + 1;
    }
    if split == t.len() {
        assert(t@.skip(split as int) =~= Seq::<char>::empty());
    }
    assert(digit_run(t@) == split);
    if split == 0 {
        return None;
    }
    read_duration(&t, split)
}

/// Reads the value and unit of a trimmed wait text `t` whose first `split`
/// characters are its digits.
fn read_duration(t: &Vec<char>, split: usize) -> (r: Option<WaitTime>)
    requires
        0 < split <= t.len(),
        digit_run(t@) == split,
        forall|k: int| 0 <= k < split ==> #[trigger] is_digit(t@[k]),
    ensures
        match r {
            Some(w) => w.wf() && trimmed_duration_millis(t@) == Some(w.total_millis()),
            None => trimmed_duration_millis(t@) is None,
        },
{
    let digits = slice_chars(t, 0, split);
    assert(digits@ =~= t@.take(split as int));
    assert(all_digits(digits@)) by {
        assert forall|k: int| 0 <= k < digits@.len() implies #[trigger] is_digit(digits@[k]) by {
            assert(digits@[k] == t@[k]);
        }
    }
    assert(digits@[0] != '+') by {
        assert(is_digit(digits@[0]));
    }
    // Accumulate the digits in 128 bits; anything beyond `u64::MAX` fails.
    let mut acc: u128 = 0;
    let mut i: usize = 0;
    assert(digits@.take(0) =~= Seq::<char>::empty());
    while i < split
        invariant
            i <= split <= t.len(),
            digits@ == t@.take(split as int),
            digits@.len() == split,
            digit_run(t@) == split,
            all_digits(digits@),
            digits@[0] != '+',
            acc <= u64::MAX,
            acc == digits_value(digits@.take(i as int)),
        decreases split - i,
    {
        let c = digits[i];
        assert(is_digit(digits@[i as int]));
        let d = (c as u32 - '0' as u32) as u128;
        proof {
            crate::text::lemma_digits_value_push(digits@.take(i as int), c);
            assert(digits@.take(i + 1) =~= digits@.take(i as int).push(c));
        }
        if acc * 10 + d > 18446744073709551615u128 {
            proof {
                crate::text::lemma_digits_value_prefix(digits@, i + 1);
                assert(parse_unsigned(t@.take(split as int), u64::MAX as int) is None);
            }
            return None;
        }
        acc = acc * 10 + d;
        i = i + 1;
    }
    assert(digits@.take(split as int) =~= digits@);
    let value: u64 = acc as u64;
    assert(parse_unsigned(t@.take(split as int), u64::MAX as int) == Some(value as int));
    let unit = slice_chars(t, split, t.len());
    assert(unit@ =~= t@.skip(split as int));
    if is(&unit, "") || is(&unit, "s") {
        Some(WaitTime { secs: value, millis: 0 })
    } else if is(&unit, "ms") {
        Some(WaitTime { secs: value / 1000, millis: (value % 1000) as u32 })
    } else if is(&unit, "m") {
        match value.checked_mul(60) {
            Some(s) => Some(WaitTime { secs: s, millis: 0 }),
            None => None,
        }
    } else if is(&unit, "h") {
        match value.checked_mul(3600) {
            Some(s) => Some(WaitTime { secs: s, millis: 0 }),
            None => None,
        }
    } else {
        None
    }
}

/// A wait shown in whole seconds (`10s`) when it is a whole number of
/// seconds, else in milliseconds (`1500ms`).
pub open spec fn duration_text(w: WaitTime) -> Seq<char> {
    if w.total_millis() % 1000 == 0 {
        decimal(w.secs as nat) + "s"@
    } else {
        decimal(w.total_millis() as nat) + "ms"@
    }
}

/// Shows a wait time (see [`duration_text`]).
pub fn display_duration(w: WaitTime) -> (r: String)
    requires
        w.wf(),
    ensures
        r@ == duration_text(w),
{
    let total: u128 = w.secs as u128 * 1000 + w.millis as u128;
    let mut v: Vec<char>;
    if total % 1000 == 0 {
        v = decimal_chars(w.secs);
        append_str(&mut v, "s");
    } else {
        v = decimal_chars_wide(total);
        append_str(&mut v, "ms");
    }
    string_of(&v)
}

// ---------------------------------------------------------------------------
// The address a browse server announces
// ---------------------------------------------------------------------------

/// The position of the first whitespace character of `s`, or its length.
pub open spec fn first_ws(s: Seq<char>) -> int
    decreases s.len(),
{
    if s.len() == 0 || is_ws(s[0]) {
        0
    } else {
        1 + first_ws(s.drop_first())
    }
}

/// A character trimmed from the end of an announced address.
pub open spec fn url_punct(c: char) -> bool {
    c == '.' || c == ',' || c == ';' || c == ':'
}

/// `s` without its trailing `.`, `,`, `;` and `:` characters.
pub open spec fn trim_url_end(s: Seq<char>) -> Seq<char>
    decreases s.len(),
{
    if s.len() > 0 && url_punct(s.last()) {
        trim_url_end(s.drop_last())
    } else {
        s
    }
}

/// The address that begins at the first `marker` of `line`: up to the next
/// whitespace, its trailing punctuation trimmed; `None` when `marker` does
/// not occur.
pub open spec fn url_after(line: Seq<char>, marker: Seq<char>) -> Option<Seq<char>> {
    if contains(line, marker) {
        let start = choose|i: int| is_first_occurrence(line, marker, i);
        let rest = line.skip(start);
        Some(trim_url_end(rest.take(first_ws(rest))))
    } else {
        None
    }
}

/// The first non-empty address an `http://` marker, else an `https://`
/// marker, starts in `line`.
pub open spec fn browse_url(line: Seq<char>) -> Option<Seq<char>> {
    match url_after(line, "http://"@) {
        Some(u) if u.len() > 0 => Some(u),
        _ => match url_after(line, "https://"@) {
            Some(u) if u.len() > 0 => Some(u),
            _ => None,
        },
    }
}

/// The address after the first `marker` of `line` (see [`url_after`]).
fn url_after_marker(line: &Vec<char>, marker: &str) -> (r: Option<Vec<char>>)
    ensures
        match r {
            Some(u) => url_after(line@, marker@) == Some(u@),
            None => url_after(line@, marker@) is None,
        },
{
    let m = chars_of(marker);
    match find_exec(line, &m) {
        None => None,
        Some(start) => {
            proof {
                let chosen = choose|i: int| is_first_occurrence(line@, marker@, i);
                assert(is_first_occurrence(line@, marker@, chosen));
                if chosen < start {
                    assert(!crate::text::occurs_at(line@, m@, chosen));
                }
                if start < chosen {
                    assert(!crate::text::occurs_at(line@, m@, start as int));
                }
                assert(chosen == start);
            }
            let rest = slice_chars(line, start, line.len());
            assert(rest@ =~= line@.skip(start as int));
            let mut end: usize = 0;
            assert(rest@.skip(0) =~= rest@);
            while end < rest.len() && !is_ws_exec(rest[end])
                invariant
                    end <= rest.len(),
                    first_ws(rest@) == end + first_ws(rest@.skip(end as int)),
                decreases rest.len() - end,
            {
                assert(rest@.skip(end as int).drop_first() =~= rest@.skip(end + 1));
                end = end + 1;
            }
            if end == rest.len() {
                assert(rest@.skip(end as int) =~= Seq::<char>::empty());
            }
            assert(first_ws(rest@) == end);
            let mut stop: usize = end;
            assert(rest@.take(end as int) =~= rest@.subrange(0, end as int));
            while stop > 0 && (rest[stop - 1] == '.' || rest[stop - 1] == ','
                || rest[stop - 1] == ';' || rest[stop - 1] == ':')
                invariant
                    stop <= end <= rest.len(),
                    trim_url_end(rest@.take(end as int)) == trim_url_end(
                        rest@.take(stop as int),
                    ),
                decreases stop,
            {
                assert(rest@.take(stop as int).drop_last() =~= rest@.take(stop - 1));
                stop = stop - 1;
            }
            let url = slice_chars(&rest, 0, stop);
            assert(url@ =~= rest@.take(stop as int));
            Some(url)
        },
    }
}

/// The address a browse server announces in `line`, if any (see
/// [`browse_url`]).
pub fn extract_browse_url(line: &str) -> (r: Option<String>)
    ensures
        match r {
            Some(u) => browse_url(line@) == Some(u@),
            None => browse_url(line@) is None,
        },
{
    let text = chars_of(line);
    match url_after_marker(&text, "http://") {
        Some(u) => {
            if u.len() > 0 {
                return Some(string_of(&u));
            }
        },
        None => {},
    }
    match url_after_marker(&text, "https://") {
        Some(u) => {
            if u.len() > 0 {
                return Some(string_of(&u));
            }
        },
        None => {},
    }
    None
}

/// A run of digits followed by a non-digit has that many leading digits.
proof fn lemma_digit_run_split(d: Seq<char>, u: Seq<char>)
    requires
        all_digits(d),
        u.len() == 0 || !is_digit(u[0]),
    ensures
        digit_run(d + u) == d.len(),
    decreases d.len(),
{
    if d.len() == 0 {
        assert(d + u =~= u);
    } else {
        assert((d + u).drop_first() =~= d.drop_first() + u);
        assert(all_digits(d.drop_first())) by {
            assert forall|i: int| 0 <= i < d.drop_first().len() implies #[trigger] is_digit(d.drop_first()[i]) by {
                assert(d.drop_first()[i] == d[i + 1]);
            }
        }
        lemma_digit_run_split(d.drop_first(), u);
    }
}

/// Text that begins with a digit and ends with a letter has nothing to
/// trim.
proof fn lemma_trim_plain(s: Seq<char>)
    requires
        s.len() > 0,
        is_digit(s[0]),
        !is_ws(s.last()),
    ensures
        trim(s) == s,
{
    assert(trim_start(s) == s);
}

/// A shown wait time reads back as the same wait.
pub proof fn law_wait_time_round_trip(w: WaitTime)
    requires
        w.wf(),
        w.total_millis() <= u64::MAX,
    ensures
        duration_millis(duration_text(w)) == Some(w.total_millis()),
{
    reveal_strlit("s");
    reveal_strlit("ms");
    reveal_strlit("");
    if w.total_millis() % 1000 == 0 {
        let d = decimal(w.secs as nat);
        crate::text::lemma_decimal_digits(w.secs as nat);
        crate::text::lemma_decimal_value(w.secs as nat);
        let t = d + "s"@;
        lemma_digit_run_split(d, "s"@);
        lemma_trim_plain(t);
        assert(t.take(d.len() as int) =~= d);
        assert(t.skip(d.len() as int) =~= "s"@);
        assert(d[0] != '+') by {
            assert(is_digit(d[0]));
        }
        assert(w.millis == 0);
    } else {
        let d = decimal(w.total_millis() as nat);
        crate::text::lemma_decimal_digits(w.total_millis() as nat);
        crate::text::lemma_decimal_value(w.total_millis() as nat);
        let t = d + "ms"@;
        lemma_digit_run_split(d, "ms"@);
        lemma_trim_plain(t);
        assert(t.take(d.len() as int) =~= d);
        assert(t.skip(d.len() as int) =~= "ms"@);
        assert(d[0] != '+') by {
            assert(is_digit(d[0]));
        }
        assert("ms"@ != ""@ && "ms"@ != "s"@);
    }
}

} // verus!
