//! Small helpers shared by the subcommands: number formatting and the
//! recognition of `--name=value` flags.
use vstd::prelude::*;

use crate::text::{
    append_chars, append_str, chars_of, decimal, decimal_chars, push_signed, signed_decimal,
    starts_with, starts_with_exec, string_of,
};

verus! {

/// A token count in thousands (`12k`) from 1000 on, else in full.
pub open spec fn k_tokens_text(n: int) -> Seq<char> {
    if n >= 1000 {
        decimal((n / 1000) as nat) + "k"@
    } else {
        signed_decimal(n)
    }
}

/// Formats a token count, abbreviating thousands.
pub fn format_k_tokens(n: i64) -> (r: String)
    ensures
        r@ == k_tokens_text(n as int),
{
    let mut v: Vec<char> = Vec::new();
    if n >= 1000 {
        append_chars(&mut v, &decimal_chars((n / 1000) as u64));
        append_str(&mut v, "k");
    } else {
        push_signed(&mut v, n);
    }
    string_of(&v)
}

/// `,` before every group of three characters of `s`.
pub open spec fn comma_groups(s: Seq<char>) -> Seq<char>
    decreases s.len(),
{
    if s.len() == 0 {
        Seq::empty()
    } else if s.len() <= 3 {
        seq![','] + s
    } else {
        seq![','] + s.take(3) + comma_groups(s.skip(3))
    }
}

/// The length of the leading group when `s` is split into threes from the
/// right: between one and three characters.
pub open spec fn lead_group_len(len: int) -> int {
    if len % 3 == 0 {
        3
    } else {
        len % 3
    }
}

/// The decimal text `s` with a comma between groups of three, counted from
/// the right. The groups are cut from the text as a whole, sign included.
pub open spec fn grouped(s: Seq<char>) -> Seq<char> {
    if s.len() <= 3 {
        s
    } else {
        let first = lead_group_len(s.len() as int);
        s.take(first) + comma_groups(s.skip(first))
    }
}

/// Formats an integer with thousands separators (`1,234,567`).
pub fn format_number_i64(n: i64) -> (r: String)
    ensures
        r@ == grouped(signed_decimal(n as int)),
{
    let mut s: Vec<char> = Vec::new();
    push_signed(&mut s, n);
    string_of(&group_digits(&s))
}

/// `s` with a comma between groups of three, counted from the right (see
/// [`grouped`]).
pub fn group_digits(s: &Vec<char>) -> (r: Vec<char>)
    ensures
        r@ == grouped(s@),
{
    if s.len() <= 3 {
        return crate::text::slice_chars(s, 0, s.len());
    }
    let ghost text = s@;
    let mut first = s.len() % 3;
    if first == 0 {
        first = 3;
    }
    let mut out: Vec<char> = Vec::new();
    let mut idx: usize = 0;
    while idx < first
        invariant
            idx <= first <= 3,
            first == lead_group_len(text.len() as int),
            text == s@,
            text.len() > 3,
            out@ == text.take(idx as int),
        decreases first - idx,
    {
        out.push(s[idx]);
        idx = idx + 1;
        assert(out@ =~= text.take(idx as int));
    }
    assert((text.len() - idx) % 3 == 0);
    while idx < s.len()
        invariant
            text == s@,
            text.len() > 3,
            first == lead_group_len(text.len() as int),
            first <= idx <= text.len(),
            (text.len() - idx) % 3 == 0,
            out@ + comma_groups(text.skip(idx as int)) == grouped(text),
        decreases s.len() - idx,
    {
        let ghost rest = text.skip(idx as int);
        proof {
            assert(rest.len() >= 3);
            assert(rest.take(3) =~= text.subrange(idx as int, idx + 3));
            assert(rest.skip(3) =~= text.skip(idx + 3));
            if rest.len() == 3 {
                assert(rest.take(3) =~= rest);
                assert(comma_groups(rest.skip(3)) =~= Seq::<char>::empty());
            }
            assert(comma_groups(rest) =~= seq![','] + rest.take(3) + comma_groups(rest.skip(3)));
        }
        let ghost before = out@;
        out.push(',');
        out.push(s[idx]);
        out.push(s[idx + 1]);
        out.push(s[idx + 2]);
        assert(out@ =~= before + seq![','] + text.subrange(idx as int, idx + 3));
        idx = idx + 3;
        assert(out@ + comma_groups(text.skip(idx as int)) =~= before + comma_groups(rest));
    }
    assert(text.skip(idx as int) =~= Seq::<char>::empty());
    assert(out@ + comma_groups(text.skip(idx as int)) =~= out@);
    out
}

/// What `--name=value` gives for `name`: the text after `name=`, if `arg`
/// begins with it.
pub open spec fn flag_value_of(arg: Seq<char>, name: Seq<char>) -> Option<Seq<char>> {
    let prefix = name.push('=');
    if starts_with(arg, prefix) {
        Some(arg.skip(prefix.len() as int))
    } else {
        None
    }
}

/// The value of `arg` when it is written `name=value`.
pub fn flag_value(arg: &str, name: &str) -> (r: Option<String>)
    ensures
        match r {
            Some(v) => flag_value_of(arg@, name@) == Some(v@),
            None => flag_value_of(arg@, name@) is None,
        },
{
    let text = chars_of(arg);
    let mut prefix = chars_of(name);
    prefix.push('=');
    if starts_with_exec(&text, &prefix) {
        let mut rest: Vec<char> = Vec::new();
        let mut i: usize = prefix.len();
        while i < text.len()
            invariant
                prefix.len() <= i <= text.len(),
                rest@ == text@.subrange(prefix.len() as int, i as int),
            decreases text.len() - i,
        {
            rest.push(text[i]);
            i = i + 1;
            assert(rest@ =~= text@.subrange(prefix.len() as int, i as int));
        }
        assert(rest@ =~= text@.skip(prefix.len() as int));
        Some(string_of(&rest))
    } else {
        None
    }
}

/// Whether `arg` looks like an option: it begins with `-`.
pub fn is_option(arg: &str) -> (r: bool)
    ensures
        r == (arg@.len() > 0 && arg@[0] == '-'),
{
    let v = chars_of(arg);
    v.len() > 0 && v[0] == '-'
}

/// The default of a flag that is on unless switched off.
pub fn default_true() -> (r: bool)
    ensures
        r,
{
    true
}

} // verus!
