//! Character-level text helpers shared by the rest of the library.
//!
//! Strings are reasoned about through their view, a `Seq<char>`; the
//! executable helpers here work on `Vec<char>` / `&[char]` and convert to and
//! from `String` at the edges.
use vstd::prelude::*;

verus! {

// ---------------------------------------------------------------------------
// Specifications
// ---------------------------------------------------------------------------

/// `c` is one of the ASCII digits `0`..=`9`.
pub open spec fn is_digit(c: char) -> bool {
    '0' <= c && c <= '9'
}

/// The numeric value of an ASCII digit.
pub open spec fn digit_value(c: char) -> int {
    c as int - '0' as int
}

/// The ASCII digit for `d` (`0 <= d < 10`).
pub open spec fn digit_char(d: int) -> char {
    (d + '0' as int) as char
}

/// Decimal rendering of a natural number, without leading zeros.
pub open spec fn decimal(n: nat) -> Seq<char>
    decreases n,
{
    if n < 10 {
        seq![digit_char(n as int)]
    } else {
        decimal(n / 10).push(digit_char((n % 10) as int))
    }
}

/// Decimal rendering of an integer: a leading `-` for negatives.
pub open spec fn signed_decimal(n: int) -> Seq<char> {
    if n < 0 {
        seq!['-'] + decimal((-n) as nat)
    } else {
        decimal(n as nat)
    }
}

/// The value of a run of ASCII digits (most significant first).
pub open spec fn digits_value(s: Seq<char>) -> int
    decreases s.len(),
{
    if s.len() == 0 {
        0
    } else {
        digits_value(s.drop_last()) * 10 + digit_value(s.last())
    }
}

/// Every character of `s` is an ASCII digit.
pub open spec fn all_digits(s: Seq<char>) -> bool {
    forall|i: int| 0 <= i < s.len() ==> #[trigger] is_digit(s[i])
}

/// Unicode `White_Space`, the set that `char::is_whitespace` accepts.
pub open spec fn is_ws(c: char) -> bool {
    ||| ('\u{9}' <= c && c <= '\u{d}')
    ||| c == ' '
    ||| c == '\u{85}'
    ||| c == '\u{a0}'
    ||| c == '\u{1680}'
    ||| ('\u{2000}' <= c && c <= '\u{200a}')
    ||| c == '\u{2028}'
    ||| c == '\u{2029}'
    ||| c == '\u{202f}'
    ||| c == '\u{205f}'
    ||| c == '\u{3000}'
}

/// ASCII whitespace as `u8::is_ascii_whitespace` defines it.
pub open spec fn is_ascii_ws(c: char) -> bool {
    c == ' ' || c == '\t' || c == '\n' || c == '\u{c}' || c == '\r'
}

/// ASCII letters are lowered, everything else is kept.
pub open spec fn ascii_lower(c: char) -> char {
    if 'A' <= c && c <= 'Z' {
        ((c as int) + 32) as char
    } else {
        c
    }
}

/// `s` with every ASCII letter lowered.
pub open spec fn lower(s: Seq<char>) -> Seq<char> {
    s.map_values(|c: char| ascii_lower(c))
}

/// `s` begins with `p`.
pub open spec fn starts_with(s: Seq<char>, p: Seq<char>) -> bool {
    p.len() <= s.len() && s.subrange(0, p.len() as int) == p
}

/// `s` ends with `p`.
pub open spec fn ends_with(s: Seq<char>, p: Seq<char>) -> bool {
    p.len() <= s.len() && s.subrange(s.len() - p.len(), s.len() as int) == p
}

/// `p` occurs in `s` starting at index `i`.
pub open spec fn occurs_at(s: Seq<char>, p: Seq<char>, i: int) -> bool {
    0 <= i && i + p.len() <= s.len() && s.subrange(i, i + p.len()) == p
}

/// `p` occurs somewhere in `s`.
pub open spec fn contains(s: Seq<char>, p: Seq<char>) -> bool {
    exists|i: int| occurs_at(s, p, i)
}

/// `c` occurs in `s`.
pub open spec fn has_char(s: Seq<char>, c: char) -> bool {
    exists|i: int| 0 <= i < s.len() && s[i] == c
}

/// `i` is the first position of `c` in `s`.
pub open spec fn is_first_index(s: Seq<char>, c: char, i: int) -> bool {
    0 <= i < s.len() && s[i] == c && forall|j: int| 0 <= j < i ==> s[j] != c
}

/// `i` is the last position of `c` in `s`.
pub open spec fn is_last_index(s: Seq<char>, c: char, i: int) -> bool {
    0 <= i < s.len() && s[i] == c && forall|j: int| i < j < s.len() ==> s[j] != c
}

/// The first position of `p` in `s`, when there is one.
pub open spec fn is_first_occurrence(s: Seq<char>, p: Seq<char>, i: int) -> bool {
    occurs_at(s, p, i) && forall|j: int| 0 <= j < i ==> !occurs_at(s, p, j)
}

/// The last position of `c` in `s`, or -1.
pub open spec fn last_index_of(s: Seq<char>, c: char) -> int
    decreases s.len(),
{
    if s.len() == 0 {
        -1
    } else if s.last() == c {
        s.len() - 1
    } else {
        last_index_of(s.drop_last(), c)
    }
}

/// The first position of `c` in `s`, or -1.
pub open spec fn first_index_of(s: Seq<char>, c: char) -> int
    decreases s.len(),
{
    if s.len() == 0 {
        -1
    } else if s[0] == c {
        0
    } else if first_index_of(s.drop_first(), c) < 0 {
        -1
    } else {
        first_index_of(s.drop_first(), c) + 1
    }
}

/// What `str::parse::<i64>` yields: an optional `+` or `-`, then one or more
/// ASCII digits, within the range of `i64`.
pub open spec fn parse_i64(s: Seq<char>) -> Option<int> {
    let signed = s.len() > 0 && (s[0] == '+' || s[0] == '-');
    let digits = if signed {
        s.drop_first()
    } else {
        s
    };
    let value = if signed && s[0] == '-' {
        -digits_value(digits)
    } else {
        digits_value(digits)
    };
    if digits.len() == 0 || !all_digits(digits) {
        None
    } else if value < i64::MIN || value > i64::MAX {
        None
    } else {
        Some(value)
    }
}

/// What `str::parse` yields for an unsigned type whose largest value is
/// `max`: an optional `+`, then one or more ASCII digits, at most `max`.
pub open spec fn parse_unsigned(s: Seq<char>, max: int) -> Option<int> {
    let digits = if s.len() > 0 && s[0] == '+' {
        s.drop_first()
    } else {
        s
    };
    if digits.len() == 0 || !all_digits(digits) {
        None
    } else if digits_value(digits) > max {
        None
    } else {
        Some(digits_value(digits))
    }
}

/// `s` without its leading whitespace.
pub open spec fn trim_start(s: Seq<char>) -> Seq<char>
    decreases s.len(),
{
    if s.len() > 0 && is_ws(s[0]) {
        trim_start(s.drop_first())
    } else {
        s
    }
}

/// `s` without its trailing whitespace.
pub open spec fn trim_end(s: Seq<char>) -> Seq<char>
    decreases s.len(),
{
    if s.len() > 0 && is_ws(s.last()) {
        trim_end(s.drop_last())
    } else {
        s
    }
}

/// `s` without leading and trailing whitespace (what `str::trim` yields).
pub open spec fn trim(s: Seq<char>) -> Seq<char> {
    trim_end(trim_start(s))
}

/// `s` right-aligned in a field of `width` characters: spaces in front
/// when it is shorter (what `{:>width}` does).
pub open spec fn pad_left(s: Seq<char>, width: int) -> Seq<char> {
    Seq::new(
        if s.len() < width {
            (width - s.len()) as nat
        } else {
            0
        },
        |i: int| ' ',
    ) + s
}

// ---------------------------------------------------------------------------
// Lemmas
// ---------------------------------------------------------------------------

/// A decimal rendering is never empty and consists of digits only.
pub proof fn lemma_decimal_digits(n: nat)
    ensures
        decimal(n).len() >= 1,
        all_digits(decimal(n)),
        n < 10 <==> decimal(n).len() == 1,
    decreases n,
{
    if n >= 10 {
        lemma_decimal_digits(n / 10);
        let d = decimal(n / 10);
        assert forall|i: int| 0 <= i < decimal(n).len() implies #[trigger] is_digit(
            decimal(n)[i],
        ) by {
            if i < d.len() {
                assert(decimal(n)[i] == d[i]);
            }
        }
    }
}

/// The digits of a decimal rendering evaluate back to the number.
pub proof fn lemma_decimal_value(n: nat)
    ensures
        digits_value(decimal(n)) == n,
    decreases n,
{
    if n >= 10 {
        lemma_decimal_value(n / 10);
        lemma_digit_char((n % 10) as int);
        lemma_digits_value_push(decimal(n / 10), digit_char((n % 10) as int));
        assert((n / 10) * 10 + n % 10 == n);
    } else {
        lemma_digit_char(n as int);
        lemma_digits_value_push(Seq::<char>::empty(), digit_char(n as int));
        assert(Seq::<char>::empty().push(digit_char(n as int)) == decimal(n));
    }
}

/// A digit character round-trips through its value.
pub proof fn lemma_digit_char(d: int)
    requires
        0 <= d < 10,
    ensures
        digit_value(digit_char(d)) == d,
        is_digit(digit_char(d)),
{
}

/// Decimal rendering is injective.
pub proof fn lemma_decimal_injective(a: nat, b: nat)
    requires
        decimal(a) == decimal(b),
    ensures
        a == b,
{
    lemma_decimal_value(a);
    lemma_decimal_value(b);
}

/// Appending a digit multiplies the value by ten and adds the digit.
pub proof fn lemma_digits_value_push(s: Seq<char>, c: char)
    ensures
        digits_value(s.push(c)) == digits_value(s) * 10 + digit_value(c),
{
    assert(s.push(c).drop_last() == s);
}

/// The value of a digit run never decreases as digits are appended.
pub proof fn lemma_digits_value_prefix(s: Seq<char>, k: int)
    requires
        all_digits(s),
        0 <= k <= s.len(),
    ensures
        0 <= digits_value(s.take(k)) <= digits_value(s),
    decreases s.len() - k,
{
    if k < s.len() {
        lemma_digits_value_prefix(s, k + 1);
        assert(s.take(k + 1).drop_last() == s.take(k));
        assert(is_digit(s[k]));
        lemma_digits_nonneg(s.take(k));
    } else {
        assert(s.take(k) == s);
        lemma_digits_nonneg(s);
    }
}

/// The value of a digit run is non-negative.
pub proof fn lemma_digits_nonneg(s: Seq<char>)
    requires
        all_digits(s),
    ensures
        digits_value(s) >= 0,
    decreases s.len(),
{
    if s.len() > 0 {
        assert(is_digit(s[s.len() - 1]));
        lemma_digits_nonneg(s.drop_last());
    }
}

/// `last_index_of` agrees with the quantified description.
pub proof fn lemma_last_index_of(s: Seq<char>, c: char)
    ensures
        last_index_of(s, c) >= 0 ==> is_last_index(s, c, last_index_of(s, c)),
        last_index_of(s, c) < 0 ==> !has_char(s, c),
        last_index_of(s, c) >= -1,
    decreases s.len(),
{
    if s.len() > 0 && s.last() != c {
        lemma_last_index_of(s.drop_last(), c);
        if last_index_of(s, c) < 0 {
            assert forall|i: int| 0 <= i < s.len() implies s[i] != c by {
                if i < s.len() - 1 {
                    assert(s[i] == s.drop_last()[i]);
                }
            }
        } else {
            let k = last_index_of(s, c);
            assert forall|j: int| k < j < s.len() implies s[j] != c by {
                if j < s.len() - 1 {
                    assert(s[j] == s.drop_last()[j]);
                }
            }
        }
    }
}

/// `first_index_of` agrees with the quantified description.
pub proof fn lemma_first_index_of(s: Seq<char>, c: char)
    ensures
        first_index_of(s, c) >= 0 ==> is_first_index(s, c, first_index_of(s, c)),
        first_index_of(s, c) < 0 ==> !has_char(s, c),
        first_index_of(s, c) >= -1,
    decreases s.len(),
{
    if s.len() > 0 && s[0] != c {
        lemma_first_index_of(s.drop_first(), c);
        if first_index_of(s, c) < 0 {
            assert forall|i: int| 0 <= i < s.len() implies s[i] != c by {
                if i > 0 {
                    assert(s[i] == s.drop_first()[i - 1]);
                }
            }
        } else {
            let k = first_index_of(s, c);
            assert forall|j: int| 0 <= j < k implies s[j] != c by {
                if j > 0 {
                    assert(s[j] == s.drop_first()[j - 1]);
                }
            }
        }
    }
}

// ---------------------------------------------------------------------------
// Trusted std call
// ---------------------------------------------------------------------------

/// Calls `String::push`, which std documents as appending the character to
/// the end of the string; the contract states exactly that.
#[verifier::external_body]
pub fn push_char(s: &mut String, c: char)
    ensures
        final(s)@ == old(s)@.push(c),
{
    s.push(c);
}

/// Names what `format!("{:?}", s)` renders for a string `s`: the string in
/// double quotes with its special characters escaped.
pub uninterp spec fn debug_text(s: Seq<char>) -> Seq<char>;

/// Calls the `Debug` formatting of `str`. Its output is a function of the
/// string alone, named [`debug_text`]; nothing more is claimed of it.
#[verifier::external_body]
pub fn debug_quoted(s: &str) -> (r: String)
    ensures
        r@ == debug_text(s@),
{
    format!("{:?}", s)
}

/// Names what `format!("{:?}", c)` renders for a character `c`: the
/// character in single quotes, escaped as needed.
pub uninterp spec fn debug_char_text(c: char) -> Seq<char>;

/// Calls the `Debug` formatting of `char`. Its output is a function of the
/// character alone, named [`debug_char_text`]; nothing more is claimed of it.
#[verifier::external_body]
pub fn debug_char(c: char) -> (r: String)
    ensures
        r@ == debug_char_text(c),
{
    format!("{:?}", c)
}

/// A lowercase hexadecimal digit.
pub open spec fn hex_digit(d: int) -> char {
    if d < 10 {
        (('0' as int) + d) as char
    } else {
        (('a' as int) + d - 10) as char
    }
}

/// How serde_json writes one character inside a JSON string: `"` and `\`
/// behind a backslash, the control characters below U+0020 as `\b`, `\t`,
/// `\n`, `\f`, `\r` or `\u00xx` (lowercase hex), every other character
/// as it is.
pub open spec fn json_char(c: char) -> Seq<char> {
    if c == '"' {
        seq!['\\', '"']
    } else if c == '\\' {
        seq!['\\', '\\']
    } else if c == '\u{8}' {
        seq!['\\', 'b']
    } else if c == '\t' {
        seq!['\\', 't']
    } else if c == '\n' {
        seq!['\\', 'n']
    } else if c == '\u{c}' {
        seq!['\\', 'f']
    } else if c == '\r' {
        seq!['\\', 'r']
    } else if (c as int) < 0x20 {
        seq!['\\', 'u', '0', '0', hex_digit((c as int) / 16), hex_digit((c as int) % 16)]
    } else {
        seq![c]
    }
}

/// The characters of `s`, each written as [`json_char`] writes it.
pub open spec fn json_escaped(s: Seq<char>) -> Seq<char>
    decreases s.len(),
{
    if s.len() == 0 {
        Seq::empty()
    } else {
        json_escaped(s.drop_last()) + json_char(s.last())
    }
}

/// The JSON string literal of `s`, as `serde_json::to_string` writes it:
/// the escaped characters between double quotes.
pub open spec fn json_text(s: Seq<char>) -> Seq<char> {
    seq!['"'] + json_escaped(s) + seq!['"']
}

/// Calls `serde_json::to_string` on a string. Serialising a string into
/// the `Vec` that `to_string` writes to cannot fail, and its output is the
/// string literal that serde_json's escape table gives (see
/// [`json_text`]).
#[verifier::external_body]
pub fn json_quoted(s: &str) -> (r: Option<String>)
    ensures
        r is Some,
        r matches Some(t) ==> t@ == json_text(s@),
{
    match serde_json::to_string(s) {
        Ok(t) => Some(t),
        Err(_) => None,
    }
}

// ---------------------------------------------------------------------------
// Executable helpers
// ---------------------------------------------------------------------------

/// The characters of `s`, in order.
pub fn chars_of(s: &str) -> (v: Vec<char>)
    ensures
        v@ == s@,
{
    let mut v: Vec<char> = Vec::new();
    for c in it: s.chars()
        invariant
            v@ == it.seq().take(it.index() as int),
    {
        v.push(c);
    }
    v
}

/// A `String` holding exactly the characters of `v`.
pub fn string_of(v: &[char]) -> (s: String)
    ensures
        s@ == v@,
{
    let mut s = String::new();
    let mut i: usize = 0;
    while i < v.len()
        invariant
            i <= v.len(),
            s@ == v@.take(i as int),
        decreases v.len() - i,
    {
        push_char(&mut s, v[i]);
        i = i + 1;
        assert(v@.take(i as int) == v@.take(i - 1).push(v@[i - 1]));
    }
    assert(v@.take(v.len() as int) == v@);
    s
}

/// The characters of a `String`.
pub fn chars_of_string(s: &String) -> (v: Vec<char>)
    ensures
        v@ == s@,
{
    chars_of(s.as_str())
}

/// Appends the characters of `src` to `dst`.
pub fn append_chars(dst: &mut Vec<char>, src: &[char])
    ensures
        final(dst)@ == old(dst)@ + src@,
{
    let mut i: usize = 0;
    while i < src.len()
        invariant
            i <= src.len(),
            dst@ == old(dst)@ + src@.take(i as int),
        decreases src.len() - i,
    {
        dst.push(src[i]);
        i = i + 1;
        assert(src@.take(i as int) == src@.take(i - 1).push(src@[i - 1]));
    }
    assert(src@.take(src.len() as int) == src@);
}

/// Appends the characters of `src` to `dst`.
pub fn append_str(dst: &mut Vec<char>, src: &str)
    ensures
        final(dst)@ == old(dst)@ + src@,
{
    let v = chars_of(src);
    append_chars(dst, &v);
}

/// Whether two character runs are equal.
pub fn chars_eq(a: &[char], b: &[char]) -> (r: bool)
    ensures
        r == (a@ == b@),
{
    if a.len() != b.len() {
        return false;
    }
    let mut i: usize = 0;
    while i < a.len()
        invariant
            i <= a.len(),
            a.len() == b.len(),
            a@.take(i as int) == b@.take(i as int),
        decreases a.len() - i,
    {
        if a[i] != b[i] {
            assert(a@.take(i + 1)[i as int] != b@.take(i + 1)[i as int]);
            return false;
        }
        i = i + 1;
        assert(a@.take(i as int) == a@.take(i - 1).push(a@[i - 1]));
        assert(b@.take(i as int) == b@.take(i - 1).push(b@[i - 1]));
    }
    assert(a@.take(a.len() as int) == a@);
    assert(b@.take(b.len() as int) == b@);
    true
}

/// Whether `p` occurs in `s` at position `at`.
pub fn occurs_at_exec(s: &[char], p: &[char], at: usize) -> (r: bool)
    ensures
        r == occurs_at(s@, p@, at as int),
{
    if at > s.len() || p.len() > s.len() - at {
        return false;
    }
    let mut i: usize = 0;
    while i < p.len()
        invariant
            i <= p.len(),
            at + p.len() <= s.len(),
            forall|k: int| 0 <= k < i ==> s@[at + k] == p@[k],
        decreases p.len() - i,
    {
        if s[at + i] != p[i] {
            assert(s@.subrange(at as int, at + p.len())[i as int] != p@[i as int]);
            return false;
        }
        i = i + 1;
    }
    assert(s@.subrange(at as int, at + p.len()) =~= p@);
    true
}

/// Whether `s` begins with `p`.
pub fn starts_with_exec(s: &[char], p: &[char]) -> (r: bool)
    ensures
        r == starts_with(s@, p@),
{
    occurs_at_exec(s, p, 0)
}

/// Whether `s` ends with `p`.
pub fn ends_with_exec(s: &[char], p: &[char]) -> (r: bool)
    ensures
        r == ends_with(s@, p@),
{
    if p.len() > s.len() {
        return false;
    }
    occurs_at_exec(s, p, s.len() - p.len())
}

/// The first position at which `p` occurs in `s`.
pub fn find_exec(s: &[char], p: &[char]) -> (r: Option<usize>)
    ensures
        r matches Some(i) ==> is_first_occurrence(s@, p@, i as int),
        r is None ==> !contains(s@, p@),
{
    if p.len() > s.len() {
        assert forall|j: int| !occurs_at(s@, p@, j) by {}
        return None;
    }
    let limit = s.len() - p.len();
    let mut i: usize = 0;
    while i < limit
        invariant
            p.len() <= s.len(),
            limit == s.len() - p.len(),
            i <= limit,
            forall|j: int| 0 <= j < i ==> !occurs_at(s@, p@, j),
        decreases limit - i,
    {
        if occurs_at_exec(s, p, i) {
            return Some(i);
        }
        i = i + 1;
    }
    if occurs_at_exec(s, p, limit) {
        return Some(limit);
    }
    assert forall|j: int| !occurs_at(s@, p@, j) by {
        if 0 <= j < i {
        }
    }
    None
}

/// Whether `p` occurs in `s`.
pub fn contains_exec(s: &[char], p: &[char]) -> (r: bool)
    ensures
        r == contains(s@, p@),
{
    match find_exec(s, p) {
        Some(_) => true,
        None => false,
    }
}

/// The first position of `c` in `s`.
pub fn find_char(s: &[char], c: char) -> (r: Option<usize>)
    ensures
        r matches Some(i) ==> is_first_index(s@, c, i as int),
        r is None ==> !has_char(s@, c),
        first_index_of(s@, c) == (match r {
            Some(i) => i as int,
            None => -1,
        }),
{
    proof {
        lemma_first_index_of(s@, c);
    }
    let mut i: usize = 0;
    while i < s.len()
        invariant
            i <= s.len(),
            forall|j: int| 0 <= j < i ==> s@[j] != c,
        decreases s.len() - i,
    {
        if s[i] == c {
            proof {
                lemma_first_index_of(s@, c);
                let k = first_index_of(s@, c);
                assert(s@[i as int] == c);
                if k < 0 {
                    assert(has_char(s@, c));
                } else if k < i {
                    assert(s@[k] != c);
                } else if k > i {
                    assert(s@[i as int] != c);
                }
            }
            return Some(i);
        }
        i = i + 1;
    }
    None
}

/// The last position of `c` in `s`.
pub fn rfind_char(s: &[char], c: char) -> (r: Option<usize>)
    ensures
        r matches Some(i) ==> is_last_index(s@, c, i as int),
        r is None ==> !has_char(s@, c),
        last_index_of(s@, c) == (match r {
            Some(i) => i as int,
            None => -1,
        }),
{
    proof {
        lemma_last_index_of(s@, c);
    }
    let mut i: usize = s.len();
    while i > 0
        invariant
            i <= s.len(),
            forall|j: int| i <= j < s.len() ==> s@[j] != c,
        decreases i,
    {
        if s[i - 1] == c {
            proof {
                lemma_last_index_of(s@, c);
                let k = last_index_of(s@, c);
                assert(s@[i - 1] == c);
                if k < 0 {
                    assert(has_char(s@, c));
                } else if k > i - 1 {
                    assert(s@[k] != c);
                } else if k < i - 1 {
                    assert(s@[i - 1] != c);
                }
            }
            return Some(i - 1);
        }
        i = i - 1;
    }
    None
}

/// A copy of `s[from..to]`.
pub fn slice_chars(s: &[char], from: usize, to: usize) -> (r: Vec<char>)
    requires
        from <= to <= s.len(),
    ensures
        r@ == s@.subrange(from as int, to as int),
{
    let mut r: Vec<char> = Vec::new();
    let mut i: usize = from;
    while i < to
        invariant
            from <= i <= to <= s.len(),
            r@ == s@.subrange(from as int, i as int),
        decreases to - i,
    {
        r.push(s[i]);
        i = i + 1;
        assert(s@.subrange(from as int, i as int) == s@.subrange(from as int, i - 1).push(
            s@[i - 1],
        ));
    }
    r
}

/// Whether `c` is Unicode whitespace.
pub fn is_ws_exec(c: char) -> (r: bool)
    ensures
        r == is_ws(c),
{
    ('\u{9}' <= c && c <= '\u{d}') || c == ' ' || c == '\u{85}' || c == '\u{a0}' || c
        == '\u{1680}' || ('\u{2000}' <= c && c <= '\u{200a}') || c == '\u{2028}' || c
        == '\u{2029}' || c == '\u{202f}' || c == '\u{205f}' || c == '\u{3000}'
}

/// `c` with an ASCII letter lowered.
pub fn ascii_lower_exec(c: char) -> (r: char)
    ensures
        r == ascii_lower(c),
{
    if 'A' <= c && c <= 'Z' {
        let code = c as u32 + 32;
        assert(code <= 0x7f);
        let r = code as u8 as char;
        r
    } else {
        c
    }
}

/// `s` with every ASCII letter lowered.
pub fn lower_exec(s: &[char]) -> (r: Vec<char>)
    ensures
        r@ == lower(s@),
{
    let mut r: Vec<char> = Vec::new();
    let mut i: usize = 0;
    while i < s.len()
        invariant
            i <= s.len(),
            r@ == lower(s@.take(i as int)),
        decreases s.len() - i,
    {
        let c = ascii_lower_exec(s[i]);
        r.push(c);
        i = i + 1;
        assert(lower(s@.take(i as int)) =~= lower(s@.take(i - 1)).push(ascii_lower(s@[i - 1])));
    }
    assert(s@.take(s.len() as int) == s@);
    r
}

/// The decimal digits of `n`.
pub fn decimal_chars(n: u64) -> (r: Vec<char>)
    ensures
        r@ == decimal(n as nat),
{
    decimal_chars_wide(n as u128)
}

/// The decimal digits of a 128-bit `n`.
pub fn decimal_chars_wide(n: u128) -> (r: Vec<char>)
    ensures
        r@ == decimal(n as nat),
{
    // Collect the digits least significant first, then reverse.
    let mut rev: Vec<char> = Vec::new();
    rev.push(char_of_digit((n % 10) as u32));
    let mut m: u128 = n / 10;
    assert(rev@.reverse() =~= rev@);
    while m > 0
        invariant
            decimal(n as nat) == (if m == 0 { Seq::<char>::empty() } else { decimal(m as nat) })
                + rev@.reverse(),
        decreases m,
    {
        let c = char_of_digit((m % 10) as u32);
        let ghost old_rev = rev@;
        let ghost old_m = m;
        rev.push(c);
        m = m / 10;
        proof {
            assert(rev@.reverse() =~= seq![c] + old_rev.reverse());
            if old_m >= 10 {
                assert(decimal(old_m as nat) == decimal(m as nat).push(c));
                assert(decimal(old_m as nat) + old_rev.reverse() =~= decimal(m as nat) + (seq![
                    c,
                ] + old_rev.reverse()));
            } else {
                assert(decimal(old_m as nat) == seq![c]);
                assert(Seq::<char>::empty() + rev@.reverse() =~= seq![c] + old_rev.reverse());
            }
        }
    }
    assert(decimal(n as nat) =~= rev@.reverse());
    let mut r: Vec<char> = Vec::new();
    let mut i: usize = rev.len();
    while i > 0
        invariant
            i <= rev.len(),
            r@ == rev@.reverse().take((rev.len() - i) as int),
        decreases i,
    {
        r.push(rev[i - 1]);
        i = i - 1;
        assert(rev@.reverse().take((rev.len() - i) as int) =~= rev@.reverse().take(
            (rev.len() - i - 1) as int,
        ).push(rev@[i as int]));
    }
    assert(rev@.reverse().take(rev.len() as int) == rev@.reverse());
    r
}

/// The ASCII digit for `d < 10`.
pub fn char_of_digit(d: u32) -> (c: char)
    requires
        d < 10,
    ensures
        c == digit_char(d as int),
{
    let b = (d + 48) as u8;
    b as char
}

/// Appends the decimal rendering of `n` (with a `-` for negatives).
pub fn push_signed(dst: &mut Vec<char>, n: i64)
    ensures
        final(dst)@ == old(dst)@ + signed_decimal(n as int),
{
    if n < 0 {
        dst.push('-');
        let mag: u64 = if n == i64::MIN {
            9223372036854775808u64
        } else {
            (-n) as u64
        };
        let digits = decimal_chars(mag);
        let ghost before = dst@;
        append_chars(dst, &digits);
        assert(dst@ =~= old(dst)@ + (seq!['-'] + decimal(mag as nat)));
    } else {
        let digits = decimal_chars(n as u64);
        append_chars(dst, &digits);
    }
}


// ---------------------------------------------------------------------------
// Whitespace-separated tokens
// ---------------------------------------------------------------------------

/// Splits `rest` on Unicode whitespace, given the tokens already finished
/// (`done`) and the token being read (`cur`).
pub open spec fn ws_split_from(done: Seq<Seq<char>>, cur: Seq<char>, rest: Seq<char>) -> Seq<
    Seq<char>,
>
    decreases rest.len(),
{
    if rest.len() == 0 {
        if cur.len() > 0 {
            done.push(cur)
        } else {
            done
        }
    } else if is_ws(rest[0]) {
        ws_split_from(
            if cur.len() > 0 {
                done.push(cur)
            } else {
                done
            },
            Seq::<char>::empty(),
            rest.drop_first(),
        )
    } else {
        ws_split_from(done, cur.push(rest[0]), rest.drop_first())
    }
}

/// The maximal runs of non-whitespace characters of `s`, in order (what
/// `str::split_whitespace` yields).
pub open spec fn ws_tokens(s: Seq<char>) -> Seq<Seq<char>> {
    ws_split_from(Seq::empty(), Seq::empty(), s)
}

/// The views of a sequence of strings.
pub open spec fn views(v: Seq<String>) -> Seq<Seq<char>> {
    v.map_values(|t: String| t@)
}

/// The views of a sequence of character vectors.
pub open spec fn vec_views(v: Seq<Vec<char>>) -> Seq<Seq<char>> {
    v.map_values(|t: Vec<char>| t@)
}

/// The whitespace-separated tokens of `s`.
pub fn ws_tokens_exec(s: &[char]) -> (r: Vec<Vec<char>>)
    ensures
        vec_views(r@) == ws_tokens(s@),
{
    let mut done: Vec<Vec<char>> = Vec::new();
    let mut cur: Vec<char> = Vec::new();
    let mut i: usize = 0;
    assert(vec_views(done@) =~= Seq::<Seq<char>>::empty());
    assert(s@.skip(0) =~= s@);
    while i < s.len()
        invariant
            i <= s.len(),
            ws_split_from(vec_views(done@), cur@, s@.skip(i as int)) == ws_tokens(s@),
        decreases s.len() - i,
    {
        let ghost rest = s@.skip(i as int);
        let ghost old_done = vec_views(done@);
        let ghost old_cur = cur@;
        assert(rest.drop_first() =~= s@.skip(i + 1));
        let c = s[i];
        assert(rest[0] == c);
        assert(rest.len() > 0);
        assert(ws_split_from(old_done, old_cur, rest) == (if is_ws(c) {
            ws_split_from(
                if old_cur.len() > 0 {
                    old_done.push(old_cur)
                } else {
                    old_done
                },
                Seq::<char>::empty(),
                rest.drop_first(),
            )
        } else {
            ws_split_from(old_done, old_cur.push(c), rest.drop_first())
        }));
        if is_ws_exec(c) {
            if cur.len() > 0 {
                let ghost before = vec_views(done@);
                let t = cur;
                done.push(t);
                assert(vec_views(done@) =~= before.push(t@));
                cur = Vec::new();
                assert(vec_views(done@) == old_done.push(old_cur));
                assert(cur@ == Seq::<char>::empty());
            } else {
                assert(cur@ == Seq::<char>::empty());
            }
        } else {
            cur.push(c);
            assert(cur@ == old_cur.push(c));
        }
        assert(ws_split_from(vec_views(done@), cur@, rest.drop_first()) == ws_split_from(
            old_done,
            old_cur,
            rest,
        ));
        i = i + 1;
    }
    assert(s@.skip(s.len() as int) =~= Seq::<char>::empty());
    if cur.len() > 0 {
        let ghost before = vec_views(done@);
        let t = cur;
        done.push(t);
        assert(vec_views(done@) =~= before.push(t@));
    }
    done
}

/// Strings holding the given character runs.
pub fn strings_of(v: &Vec<Vec<char>>) -> (r: Vec<String>)
    ensures
        views(r@) == vec_views(v@),
{
    let mut r: Vec<String> = Vec::new();
    let mut i: usize = 0;
    while i < v.len()
        invariant
            i <= v.len(),
            views(r@) =~= vec_views(v@).take(i as int),
        decreases v.len() - i,
    {
        let t = string_of(&v[i]);
        let ghost before = r@;
        r.push(t);
        assert(views(r@) =~= views(before).push(t@));
        assert(vec_views(v@).take(i + 1) =~= vec_views(v@).take(i as int).push(v@[i as int]@));
        i = i + 1;
    }
    assert(vec_views(v@).take(v.len() as int) =~= vec_views(v@));
    r
}

/// Parses a signed decimal integer as `str::parse::<i64>` does.
pub fn parse_i64_exec(s: &[char]) -> (r: Option<i64>)
    ensures
        parse_i64(s@) == (match r {
            Some(v) => Some(v as int),
            None => None,
        }),
{
    let signed = s.len() > 0 && (s[0] == '+' || s[0] == '-');
    let neg = signed && s[0] == '-';
    let from: usize = if signed {
        1
    } else {
        0
    };
    let ghost digits = if signed {
        s@.drop_first()
    } else {
        s@
    };
    assert(digits =~= s@.skip(from as int));
    if from >= s.len() {
        return None;
    }
    let bound: u128 = if neg {
        9223372036854775808u128
    } else {
        9223372036854775807u128
    };
    let mut acc: u128 = 0;
    let mut i: usize = from;
    assert(digits.take(0) =~= Seq::<char>::empty());
    while i < s.len()
        invariant
            from <= i <= s.len(),
            from == (if s@.len() > 0 && (s@[0] == '+' || s@[0] == '-') {
                1int
            } else {
                0int
            }),
            neg == (s@.len() > 0 && s@[0] == '-'),
            digits == s@.skip(from as int),
            digits == (if s@.len() > 0 && (s@[0] == '+' || s@[0] == '-') {
                s@.drop_first()
            } else {
                s@
            }),
            acc <= bound,
            bound == (if neg {
                9223372036854775808u128
            } else {
                9223372036854775807u128
            }),
            acc == digits_value(digits.take(i - from)),
            all_digits(digits.take(i - from)),
        decreases s.len() - i,
    {
        let c = s[i];
        let ghost k = i - from;
        assert(digits[k] == c);
        assert(digits.take(k + 1) =~= digits.take(k).push(c));
        if !('0' <= c && c <= '9') {
            assert(!is_digit(digits[k]));
            return None;
        }
        let d = (c as u32 - '0' as u32) as u128;
        proof {
            lemma_digits_value_push(digits.take(k), c);
        }
        if acc * 10 + d > bound {
            proof {
                assert(d == digit_value(c));
                assert(digits_value(digits.take(k + 1)) == acc * 10 + d);
                if all_digits(digits) {
                    lemma_digits_value_prefix(digits, k + 1);
                    assert(digits_value(digits) > bound);
                }
                assert(parse_i64(s@) is None);
            }
            return None;
        }
        acc = acc * 10 + d;
        i = i + 1;
        assert(all_digits(digits.take(i - from))) by {
            assert forall|j: int| 0 <= j < digits.take(i - from).len() implies #[trigger] is_digit(
                digits.take(i - from)[j],
            ) by {
                if j < k {
                    assert(digits.take(i - from)[j] == digits.take(k)[j]);
                }
            }
        }
    }
    assert(digits.take(i - from) =~= digits);
    let v: i128 = if neg {
        -(acc as i128)
    } else {
        acc as i128
    };
    Some(v as i64)
}

/// `s` without its leading whitespace (what `str::trim_start` yields).
pub fn trim_start_exec(s: &[char]) -> (r: Vec<char>)
    ensures
        r@ == trim_start(s@),
{
    let mut lo: usize = 0;
    assert(s@.skip(0) =~= s@);
    while lo < s.len() && is_ws_exec(s[lo])
        invariant
            lo <= s.len(),
            trim_start(s@) == trim_start(s@.skip(lo as int)),
        decreases s.len() - lo,
    {
        assert(s@.skip(lo as int).drop_first() =~= s@.skip(lo + 1));
        lo = lo + 1;
    }
    if lo == s.len() {
        assert(s@.skip(lo as int) =~= Seq::<char>::empty());
    }
    let r = slice_chars(s, lo, s.len());
    assert(r@ =~= s@.skip(lo as int));
    r
}

/// `s` without leading and trailing whitespace.
pub fn trim_exec(s: &[char]) -> (r: Vec<char>)
    ensures
        r@ == trim(s@),
{
    let mut lo: usize = 0;
    assert(s@.skip(0) =~= s@);
    while lo < s.len() && is_ws_exec(s[lo])
        invariant
            lo <= s.len(),
            trim_start(s@) == trim_start(s@.skip(lo as int)),
        decreases s.len() - lo,
    {
        assert(s@.skip(lo as int).drop_first() =~= s@.skip(lo + 1));
        lo = lo + 1;
    }
    if lo == s.len() {
        assert(s@.skip(lo as int) =~= Seq::<char>::empty());
    }
    assert(trim_start(s@) == s@.subrange(lo as int, s.len() as int));
    let mut hi: usize = s.len();
    while hi > lo && is_ws_exec(s[hi - 1])
        invariant
            lo <= hi <= s.len(),
            trim(s@) == trim_end(s@.subrange(lo as int, hi as int)),
        decreases hi,
    {
        assert(s@.subrange(lo as int, hi as int).drop_last() =~= s@.subrange(lo as int, hi - 1));
        hi = hi - 1;
    }
    slice_chars(s, lo, hi)
}

/// Parses an unsigned decimal as `str::parse::<usize>` does.
pub fn parse_usize_exec(s: &[char]) -> (r: Option<usize>)
    ensures
        parse_unsigned(s@, usize::MAX as int) == (match r {
            Some(v) => Some(v as int),
            None => None,
        }),
{
    let signed = s.len() > 0 && s[0] == '+';
    let from: usize = if signed {
        1
    } else {
        0
    };
    let ghost digits = if signed {
        s@.drop_first()
    } else {
        s@
    };
    assert(digits =~= s@.skip(from as int));
    if from >= s.len() {
        return None;
    }
    let bound: u128 = usize::MAX as u128;
    let mut acc: u128 = 0;
    let mut i: usize = from;
    assert(digits.take(0) =~= Seq::<char>::empty());
    while i < s.len()
        invariant
            from <= i <= s.len(),
            from == (if s@.len() > 0 && s@[0] == '+' {
                1int
            } else {
                0int
            }),
            digits == s@.skip(from as int),
            digits == (if s@.len() > 0 && s@[0] == '+' {
                s@.drop_first()
            } else {
                s@
            }),
            bound == usize::MAX as u128,
            acc <= bound,
            acc == digits_value(digits.take(i - from)),
            all_digits(digits.take(i - from)),
        decreases s.len() - i,
    {
        let c = s[i];
        let ghost k = i - from;
        assert(digits[k] == c);
        assert(digits.take(k + 1) =~= digits.take(k).push(c));
        if !('0' <= c && c <= '9') {
            assert(!is_digit(digits[k]));
            return None;
        }
        let d = (c as u32 - '0' as u32) as u128;
        proof {
            lemma_digits_value_push(digits.take(k), c);
        }
        if acc * 10 + d > bound {
            proof {
                assert(d == digit_value(c));
                assert(digits_value(digits.take(k + 1)) == acc * 10 + d);
                if all_digits(digits) {
                    lemma_digits_value_prefix(digits, k + 1);
                    assert(digits_value(digits) > bound);
                }
            }
            return None;
        }
        acc = acc * 10 + d;
        i = i + 1;
        assert(all_digits(digits.take(i - from))) by {
            assert forall|j: int| 0 <= j < digits.take(i - from).len() implies #[trigger] is_digit(
                digits.take(i - from)[j],
            ) by {
                if j < k {
                    assert(digits.take(i - from)[j] == digits.take(k)[j]);
                }
            }
        }
    }
    assert(digits.take(i - from) =~= digits);
    Some(acc as usize)
}

/// Appends `src` right-aligned in a field of `width` characters.
pub fn push_padded(dst: &mut Vec<char>, src: &[char], width: usize)
    ensures
        final(dst)@ == old(dst)@ + pad_left(src@, width as int),
{
    let mut pad: Vec<char> = Vec::new();
    let fill: usize = if src.len() < width {
        width - src.len()
    } else {
        0
    };
    while pad.len() < fill
        invariant
            pad.len() <= fill,
            forall|i: int| 0 <= i < pad.len() ==> pad@[i] == ' ',
        decreases fill - pad.len(),
    {
        pad.push(' ');
    }
    assert(pad@ =~= Seq::new(
        if src@.len() < width {
            (width - src@.len()) as nat
        } else {
            0
        },
        |i: int| ' ',
    ));
    append_chars(dst, &pad);
    append_chars(dst, src);
    assert(dst@ =~= old(dst)@ + pad_left(src@, width as int)) by {
        assert(pad@ + src@ == pad_left(src@, width as int));
    }
}

// ---------------------------------------------------------------------------
// Splitting at a separator
// ---------------------------------------------------------------------------

/// Splits `rest` at every `sep`, given the pieces finished (`done`) and the
/// piece being read (`cur`); empty pieces are kept.
pub open spec fn split_from(done: Seq<Seq<char>>, cur: Seq<char>, rest: Seq<char>, sep: char) -> Seq<
    Seq<char>,
>
    decreases rest.len(),
{
    if rest.len() == 0 {
        done.push(cur)
    } else if rest[0] == sep {
        split_from(done.push(cur), Seq::empty(), rest.drop_first(), sep)
    } else {
        split_from(done, cur.push(rest[0]), rest.drop_first(), sep)
    }
}

/// The pieces of `s` between the occurrences of `sep`, empty ones
/// included (what `str::split` with a character yields).
pub open spec fn split_on(s: Seq<char>, sep: char) -> Seq<Seq<char>> {
    split_from(Seq::empty(), Seq::empty(), s, sep)
}

/// Splitting always yields at least one piece.
pub proof fn lemma_split_from_nonempty(done: Seq<Seq<char>>, cur: Seq<char>, rest: Seq<char>, sep: char)
    ensures
        split_from(done, cur, rest, sep).len() >= done.len() + 1,
    decreases rest.len(),
{
    if rest.len() > 0 {
        if rest[0] == sep {
            lemma_split_from_nonempty(done.push(cur), Seq::empty(), rest.drop_first(), sep);
        } else {
            lemma_split_from_nonempty(done, cur.push(rest[0]), rest.drop_first(), sep);
        }
    }
}

/// The pieces of `s` between the occurrences of `sep` (see [`split_on`]).
pub fn split_on_exec(s: &[char], sep: char) -> (r: Vec<Vec<char>>)
    ensures
        vec_views(r@) == split_on(s@, sep),
{
    let mut done: Vec<Vec<char>> = Vec::new();
    let mut cur: Vec<char> = Vec::new();
    let mut i: usize = 0;
    assert(vec_views(done@) =~= Seq::<Seq<char>>::empty());
    assert(s@.skip(0) =~= s@);
    while i < s.len()
        invariant
            i <= s.len(),
            split_from(vec_views(done@), cur@, s@.skip(i as int), sep) == split_on(s@, sep),
        decreases s.len() - i,
    {
        let ghost rest = s@.skip(i as int);
        assert(rest.drop_first() =~= s@.skip(i + 1));
        let c = s[i];
        assert(rest[0] == c);
        if c == sep {
            let ghost before = vec_views(done@);
            let t = cur;
            done.push(t);
            assert(vec_views(done@) =~= before.push(t@));
            cur = Vec::new();
        } else {
            cur.push(c);
        }
        i = i + 1;
    }
    assert(s@.skip(s.len() as int) =~= Seq::<char>::empty());
    let ghost before = vec_views(done@);
    let t = cur;
    done.push(t);
    assert(vec_views(done@) =~= before.push(t@));
    done
}

} // verus!
