//! The `--since` and `--until` filters of `ctx pack`: a calendar date, or
//! a span of time before now.
use vstd::prelude::*;

use crate::text::{
    all_digits, append_chars, chars_of, debug_quoted, debug_text, digits_value, ends_with,
    ends_with_exec, lower, lower_exec, parse_i64, parse_i64_exec, parse_unsigned, slice_chars,
    split_on, split_on_exec, string_of, vec_views,
};

verus! {

/// The day of a proleptic Gregorian date, counted from 1970-01-01 (day 0),
/// by the era arithmetic of the civil calendar: years counted from March,
/// eras of 400 years of 146097 days.
pub open spec fn civil_days(year: int, month: int, day: int) -> int {
    let y = year - (if month <= 2 {
        1int
    } else {
        0int
    });
    let era = y / 400;
    let yoe = y - era * 400;
    let mp = month + (if month > 2 {
        -3int
    } else {
        9int
    });
    let doy = (153 * mp + 2) / 5 + day - 1;
    let doe = yoe * 365 + yoe / 4 - yoe / 100 + doy;
    era * 146097 + doe - 719468
}

/// The years for which the day count fits in 64 bits.
pub open spec fn year_in_range(year: int) -> bool {
    -25_000_000_000_000_000 <= year <= 25_000_000_000_000_000
}

/// The day of a date counted from 1970-01-01 (see [`civil_days`]).
pub fn days_from_civil(year: i64, month: u32, day: u32) -> (r: i64)
    requires
        year_in_range(year as int),
    ensures
        r as int == civil_days(year as int, month as int, day as int),
{
    let y: i64 = year - if month <= 2 {
        1
    } else {
        0
    };
    let era: i64 = if y >= 0 {
        y / 400
    } else {
        -((399 - y) / 400)
    };
    assert(era == y / 400) by (nonlinear_arith)
        requires
            era == (if y >= 0 {
                y / 400
            } else {
                -((399 - y) / 400)
            }),
    ;
    let yoe: i64 = y - era * 400;
    assert(0 <= yoe < 400) by (nonlinear_arith)
        requires
            era == y / 400,
            yoe == y - era * 400,
    ;
    let m: i64 = month as i64;
    let d: i64 = day as i64;
    let mp: i64 = m + if m > 2 {
        -3
    } else {
        9
    };
    let doy: i64 = (153 * mp + 2) / 5 + d - 1;
    let doe: i64 = yoe * 365 + yoe / 4 - yoe / 100 + doy;
    assert(-100_000_000_000_000 <= era <= 100_000_000_000_000) by (nonlinear_arith)
        requires
            era == y / 400,
            -25_000_000_000_000_001 <= y <= 25_000_000_000_000_000,
    ;
    era * 146097 + doe - 719468
}

/// A calendar date `YYYY-MM-DD`: three `-`-separated parts, the year an
/// `i64` and the month (1 to 12) and day (1 to 31) `u32` numbers, on or
/// after 1970-01-01; its seconds since the epoch at midnight UTC.
pub open spec fn date_seconds(input: Seq<char>) -> Option<int> {
    let parts = split_on(input, '-');
    if parts.len() != 3 {
        None
    } else {
        match (
            parse_i64(parts[0]),
            parse_unsigned(parts[1], u32::MAX as int),
            parse_unsigned(parts[2], u32::MAX as int),
        ) {
            (Some(y), Some(m), Some(d)) => if !(1 <= m <= 12) || !(1 <= d <= 31) {
                None
            } else if civil_days(y, m, d) < 0 {
                None
            } else {
                Some(civil_days(y, m, d) * 86400)
            },
            _ => None,
        }
    }
}

/// The year of a text of three `-`-separated parts, when it reads as one.
pub open spec fn date_year(input: Seq<char>) -> Option<int> {
    let parts = split_on(input, '-');
    if parts.len() != 3 {
        None
    } else {
        parse_i64(parts[0])
    }
}

/// The dates whose seconds since the epoch can be computed: a year up to
/// 500 billion (beyond it the seconds overflow 64 bits).
pub open spec fn date_computable(input: Seq<char>) -> bool {
    match date_year(input) {
        Some(y) => -25_000_000_000_000_000 <= y <= 500_000_000_000,
        None => true,
    }
}

/// Reads a `u32` as `str::parse` does.
fn parse_u32(s: &Vec<char>) -> (r: Option<u32>)
    ensures
        parse_unsigned(s@, u32::MAX as int) == (match r {
            Some(v) => Some(v as int),
            None => None,
        }),
{
    match crate::text::parse_usize_exec(s) {
        None => None,
        Some(n) => if n <= 4294967295 {
            Some(n as u32)
        } else {
            None
        },
    }
}

/// Reads a calendar date (see [`date_seconds`]): its seconds since the
/// epoch.
pub fn parse_yyyy_mm_dd_utc(input: &str) -> (r: Option<u64>)
    requires
        date_computable(input@),
    ensures
        date_seconds(input@) == (match r {
            Some(s) => Some(s as int),
            None => None,
        }),
{
    let parts = split_on_exec(&chars_of(input), '-');
    assert(vec_views(parts@) == split_on(input@, '-'));
    if parts.len() != 3 {
        return None;
    }
    assert(vec_views(parts@)[0] == parts@[0]@ && vec_views(parts@)[1] == parts@[1]@ && vec_views(
        parts@,
    )[2] == parts@[2]@);
    let year = match parse_i64_exec(&parts[0]) {
        None => return None,
        Some(y) => y,
    };
    let month = match parse_u32(&parts[1]) {
        None => return None,
        Some(m) => m,
    };
    let day = match parse_u32(&parts[2]) {
        None => return None,
        Some(d) => d,
    };
    if !(1 <= month && month <= 12) || !(1 <= day && day <= 31) {
        return None;
    }
    let days = days_from_civil(year, month, day);
    if days < 0 {
        return None;
    }
    assert(days * 86400 <= u64::MAX) by (nonlinear_arith)
        requires
            days as int == civil_days(year as int, month as int, day as int),
            year <= 500_000_000_000,
            1 <= month <= 12,
            1 <= day <= 31,
    {
        lemma_civil_days_bound(year as int, month as int, day as int);
    }
    Some(days as u64 * 86400)
}

/// The day count grows no faster than 366 days a year.
proof fn lemma_civil_days_bound(year: int, month: int, day: int)
    requires
        year <= 500_000_000_000,
        1 <= month <= 12,
        1 <= day <= 31,
    ensures
        civil_days(year, month, day) <= 200_000_000_000_000,
{
    let y = year - (if month <= 2 {
        1int
    } else {
        0int
    });
    let era = y / 400;
    assert(era * 400 <= y) by (nonlinear_arith)
        requires
            era == y / 400,
    ;
    assert(era <= 1_250_000_000) by (nonlinear_arith)
        requires
            era * 400 <= y,
            y <= 500_000_000_000,
    ;
    let yoe = y - era * 400;
    assert(0 <= yoe < 400) by (nonlinear_arith)
        requires
            era == y / 400,
            yoe == y - era * 400,
    ;
}

/// The number of a relative filter: digits, more than zero, within `u64`;
/// each refusal with its message, naming the filter `original`.
pub open spec fn positive_filter(number: Seq<char>, original: Seq<char>) -> Result<int, Seq<char>> {
    let head = "time filter "@ + debug_text(original);
    if number.len() == 0 {
        Err(head + ": missing numeric part"@)
    } else if !all_digits(number) {
        Err(head + ": invalid numeric part "@ + debug_text(number))
    } else if digits_value(number) > u64::MAX {
        Err(head + ": number too large to fit in target type"@)
    } else if digits_value(number) == 0 {
        Err(head + ": value must be positive, got 0"@)
    } else {
        Ok(digits_value(number))
    }
}

/// Whether the characters are all ASCII digits.
fn digits_only(s: &[char]) -> (r: bool)
    ensures
        r == all_digits(s@),
{
    let mut i: usize = 0;
    while i < s.len()
        invariant
            i <= s.len(),
            forall|k: int| 0 <= k < i ==> #[trigger] crate::text::is_digit(s@[k]),
        decreases s.len() - i,
    {
        if !('0' <= s[i] && s[i] <= '9') {
            assert(!crate::text::is_digit(s@[i as int]));
            return false;
        }
        i = i + 1;
    }
    true
}

/// Reads the number of a relative filter (see [`positive_filter`]).
pub fn parse_positive_u64_filter(number: &str, original: &str) -> (r: Result<u64, String>)
    ensures
        match r {
            Ok(v) => positive_filter(number@, original@) == Ok::<int, Seq<char>>(v as int),
            Err(e) => positive_filter(number@, original@) == Err::<int, Seq<char>>(e@),
        },
{
    let n = chars_of(number);
    let mut head = chars_of("time filter ");
    append_chars(&mut head, &chars_of(debug_quoted(original).as_str()));
    if n.len() == 0 {
        append_chars(&mut head, &chars_of(": missing numeric part"));
        return Err(string_of(&head));
    }
    if !digits_only(&n) {
        append_chars(&mut head, &chars_of(": invalid numeric part "));
        append_chars(&mut head, &chars_of(debug_quoted(number).as_str()));
        return Err(string_of(&head));
    }
    assert(n@[0] != '+') by {
        assert(crate::text::is_digit(n@[0]));
    }
    let value = match crate::cli::diff::digits_u64(&n) {
        None => {
            append_chars(&mut head, &chars_of(": number too large to fit in target type"));
            return Err(string_of(&head));
        },
        Some(v) => v,
    };
    if value == 0 {
        append_chars(&mut head, &chars_of(": value must be positive, got 0"));
        return Err(string_of(&head));
    }
    Ok(value)
}

/// A time filter: seconds since the epoch for a date, or seconds before now
/// for a relative span.
#[derive(Debug, Clone, Copy, PartialEq, Eq)]
pub enum FilterTime {
    At(u64),
    Ago(u64),
}

/// The units of relative filters, by suffix, in the order they are tried:
/// calendar units (a month of 30 days, a year of 365), then hours, minutes
/// and seconds.
pub open spec fn filter_units() -> Seq<(Seq<char>, int)> {
    seq![
        ("mo"@, 2592000int),
        ("w"@, 604800int),
        ("d"@, 86400int),
        ("y"@, 31536000int),
        ("h"@, 3600int),
        ("m"@, 60int),
        ("s"@, 1int),
    ]
}

/// A relative filter, trying the units from `k` on: the first whose suffix
/// ends the lowered input decides; its count times the unit must fit in 64
/// bits.
pub open spec fn relative_from(input: Seq<char>, low: Seq<char>, k: int) -> Result<int, Seq<char>>
    decreases 7 - k,
{
    if k < 0 || k >= 7 {
        Err(
            "time filter "@ + debug_text(input)
                + ": unrecognised format (expected YYYY-MM-DD or relative like 7d/2w/1m/1y)"@,
        )
    } else {
        let (suffix, unit) = filter_units()[k];
        if ends_with(low, suffix) {
            match positive_filter(input.take(input.len() - suffix.len()), input) {
                Err(e) => Err(e),
                Ok(n) => if n * unit > u64::MAX {
                    Err("time filter "@ + debug_text(input) + ": duration overflow"@)
                } else {
                    Ok(n * unit)
                },
            }
        } else {
            relative_from(input, low, k + 1)
        }
    }
}

/// A `--since` or `--until` value: a date (see [`date_seconds`]) or a
/// relative span (see [`relative_from`]); empty text is refused.
pub open spec fn time_filter(input: Seq<char>) -> Result<FilterTime, Seq<char>> {
    if input.len() == 0 {
        Err("time filter: empty string"@)
    } else if date_seconds(input) is Some {
        Ok(FilterTime::At(date_seconds(input)->0 as u64))
    } else {
        match relative_from(input, lower(input), 0) {
            Err(e) => Err(e),
            Ok(s) => Ok(FilterTime::Ago(s as u64)),
        }
    }
}

/// Reads a `--since` or `--until` value (see [`time_filter`]); the time it
/// names is then taken from the clock.
pub fn parse_pack_time_filter(input: &str) -> (r: Result<FilterTime, String>)
    requires
        date_computable(input@),
    ensures
        match r {
            Ok(t) => time_filter(input@) == Ok::<FilterTime, Seq<char>>(t),
            Err(e) => time_filter(input@) == Err::<FilterTime, Seq<char>>(e@),
        },
{
    if input.is_empty() {
        return Err("time filter: empty string".to_owned());
    }
    if let Some(t) = parse_yyyy_mm_dd_utc(input) {
        return Ok(FilterTime::At(t));
    }
    let c = chars_of(input);
    let low = lower_exec(&c);
    let suffixes: [&str; 7] = ["mo", "w", "d", "y", "h", "m", "s"];
    let units: [u64; 7] = [2592000, 604800, 86400, 31536000, 3600, 60, 1];
    let mut k: usize = 0;
    while k < 7
        invariant
            k <= 7,
            input@.len() > 0,
            date_seconds(input@) is None,
            c@ == input@,
            low@ == lower(input@),
            low@.len() == input@.len(),
            suffixes@ == seq!["mo", "w", "d", "y", "h", "m", "s"],
            units@ == seq![2592000u64, 604800u64, 86400u64, 31536000u64, 3600u64, 60u64, 1u64],
            relative_from(input@, low@, 0) == relative_from(input@, low@, k as int),
        decreases 7 - k,
    {
        let suffix = chars_of(suffixes[k]);
        assert(suffix@ == filter_units()[k as int].0);
        assert(units[k as int] as int == filter_units()[k as int].1);
        if ends_with_exec(&low, &suffix) {
            let num = slice_chars(&c, 0, c.len() - suffix.len());
            assert(num@ =~= input@.take(input@.len() - suffix@.len()));
            let n = match parse_positive_u64_filter(string_of(&num).as_str(), input) {
                Err(e) => return Err(e),
                Ok(n) => n,
            };
            match n.checked_mul(units[k]) {
                None => {
                    let mut e = chars_of("time filter ");
                    append_chars(&mut e, &chars_of(debug_quoted(input).as_str()));
                    append_chars(&mut e, &chars_of(": duration overflow"));
                    return Err(string_of(&e));
                },
                Some(s) => return Ok(FilterTime::Ago(s)),
            }
        }
        k = k + 1;
    }
    let mut e = chars_of("time filter ");
    append_chars(&mut e, &chars_of(debug_quoted(input).as_str()));
    append_chars(
        &mut e,
        &chars_of(": unrecognised format (expected YYYY-MM-DD or relative like 7d/2w/1m/1y)"),
    );
    Err(string_of(&e))
}

/// The day after a date is the next day number.
pub proof fn law_civil_days_next_day(year: int, month: int, day: int)
    requires
        1 <= month <= 12,
    ensures
        civil_days(year, month, day + 1) == civil_days(year, month, day) + 1,
{
}

/// The civil calendar repeats every 400 years, which hold 146097 days.
pub proof fn law_civil_days_400_years(year: int, month: int, day: int)
    requires
        1 <= month <= 12,
    ensures
        civil_days(year + 400, month, day) == civil_days(year, month, day) + 146097,
{
    let y = year - (if month <= 2 {
        1int
    } else {
        0int
    });
    assert((y + 400) / 400 == y / 400 + 1) by (nonlinear_arith);
}

/// The first of January 1970 is day zero.
pub proof fn law_civil_days_epoch()
    ensures
        civil_days(1970, 1, 1) == 0,
{
    assert(1969int / 400 == 4);
    assert(1532int / 5 == 306);
    assert(369int / 4 == 92);
    assert(369int / 100 == 3);
}

/// A relative `--since` or `--until` value of digits and a unit counts
/// back that many units of seconds: `mo` 30 days, `w` 7 days, `d` a day,
/// `y` 365 days, `h` an hour, `m` a minute, `s` a second.
pub proof fn law_relative_filter_units(digits: Seq<char>, suffix: Seq<char>, seconds: int)
    requires
        digits.len() > 0,
        all_digits(digits),
        digits_value(digits) > 0,
        digits_value(digits) * seconds <= u64::MAX,
        (suffix == "mo"@ && seconds == 30 * 86400) || (suffix == "w"@ && seconds == 7 * 86400) || (
        suffix == "d"@ && seconds == 86400) || (suffix == "y"@ && seconds == 365 * 86400) || (suffix
            == "h"@ && seconds == 3600) || (suffix == "m"@ && seconds == 60) || (suffix == "s"@
            && seconds == 1),
    ensures
        time_filter(digits + suffix) == Ok::<FilterTime, Seq<char>>(
            FilterTime::Ago((digits_value(digits) * seconds) as u64),
        ),
{
    reveal_strlit("mo");
    reveal_strlit("w");
    reveal_strlit("d");
    reveal_strlit("y");
    reveal_strlit("h");
    reveal_strlit("m");
    reveal_strlit("s");
    let s = digits + suffix;
    let n = s.len() as int;
    assert forall|i: int| 0 <= i < s.len() implies !('A' <= #[trigger] s[i] && s[i] <= 'Z') && s[i]
        != '-' by {
        if i < digits.len() {
            assert(s[i] == digits[i]);
            assert(crate::text::is_digit(digits[i]));
        } else {
            assert(s[i] == suffix[i - digits.len()]);
        }
    }
    assert(lower(s) =~= s);
    crate::cli::pack_ignore::lemma_split_without_sep(Seq::empty(), Seq::empty(), s, '-');
    assert(split_on(s, '-') =~= seq![Seq::<char>::empty() + s]);
    assert(date_seconds(s) is None);
    assert(s[n - 1] == suffix.last());
    assert(s.take(n - suffix.len()) =~= digits);
    assert(s.subrange(n - suffix.len(), n) =~= suffix);
    if suffix.len() == 1 {
        assert(!ends_with(s, "mo"@)) by {
            if ends_with(s, "mo"@) {
                assert(s.subrange(n - 2, n)[1] == s[n - 1]);
            }
        }
    }
    if suffix != "w"@ {
        assert(!ends_with(s, "w"@)) by {
            if ends_with(s, "w"@) {
                assert(s.subrange(n - 1, n)[0] == s[n - 1]);
            }
        }
    }
    if suffix != "d"@ {
        assert(!ends_with(s, "d"@)) by {
            if ends_with(s, "d"@) {
                assert(s.subrange(n - 1, n)[0] == s[n - 1]);
            }
        }
    }
    if suffix != "y"@ {
        assert(!ends_with(s, "y"@)) by {
            if ends_with(s, "y"@) {
                assert(s.subrange(n - 1, n)[0] == s[n - 1]);
            }
        }
    }
    if suffix != "h"@ {
        assert(!ends_with(s, "h"@)) by {
            if ends_with(s, "h"@) {
                assert(s.subrange(n - 1, n)[0] == s[n - 1]);
            }
        }
    }
    if suffix != "m"@ {
        assert(!ends_with(s, "m"@)) by {
            if ends_with(s, "m"@) {
                assert(s.subrange(n - 1, n)[0] == s[n - 1]);
            }
        }
    }
    let v = digits_value(digits);
    assert(v <= v * seconds) by (nonlinear_arith)
        requires
            v > 0,
            seconds >= 1,
    ;
    assert(positive_filter(digits, s) == Ok::<int, Seq<char>>(digits_value(digits)));
    reveal_with_fuel(relative_from, 8);
}

} // verus!
