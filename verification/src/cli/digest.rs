//! `ctx digest`: its command line, the `git --since` argument it derives
//! from a duration, and the markdown and plain reports of a digest.
use vstd::prelude::*;

use crate::cli::common::{flag_value, flag_value_of};
use crate::cli::log_args::{is_word, next_arg};
use crate::text::{
    all_digits, append_chars, append_str, chars_of, debug_quoted, debug_text, decimal, json_quoted,
    json_text,
    decimal_chars, ends_with, lower, lower_exec, parse_i64, parse_unsigned, parse_usize_exec, push_signed,
    signed_decimal, slice_chars, string_of, views,
};

verus! {

/// What the arguments of `ctx digest` read so far have set.
pub struct DigestScan {
    pub saw: bool,
    pub since: Seq<char>,
    pub top: int,
    pub out: Seq<char>,
    pub format: Seq<char>,
    pub json: bool,
    pub extra: bool,
}

/// Nothing read yet: the last seven days, the ten hottest files, markdown.
pub open spec fn digest_start() -> DigestScan {
    DigestScan {
        saw: false,
        since: "7d"@,
        top: 10,
        out: Seq::empty(),
        format: "markdown"@,
        json: false,
        extra: false,
    }
}

/// Reads the arguments from `i` on; `None` when one is refused.
pub open spec fn digest_scan(args: Seq<Seq<char>>, i: int, st: DigestScan) -> Option<DigestScan>
    decreases args.len() - i,
{
    if i < 0 || i >= args.len() {
        Some(st)
    } else {
        let a = args[i];
        let has_next = i + 1 < args.len();
        if a == "--json"@ {
            digest_scan(args, i + 1, DigestScan { json: true, ..st })
        } else if a == "digest"@ {
            if st.saw {
                None
            } else {
                digest_scan(args, i + 1, DigestScan { saw: true, ..st })
            }
        } else if flag_value_of(a, "--since"@) is Some {
            digest_scan(args, i + 1, DigestScan { since: flag_value_of(a, "--since"@)->0, ..st })
        } else if a == "--since"@ {
            if !has_next {
                None
            } else {
                digest_scan(args, i + 2, DigestScan { since: args[i + 1], ..st })
            }
        } else if flag_value_of(a, "--top"@) is Some {
            match parse_unsigned(flag_value_of(a, "--top"@)->0, usize::MAX as int) {
                None => None,
                Some(n) => digest_scan(args, i + 1, DigestScan { top: n, ..st }),
            }
        } else if a == "--top"@ {
            if !has_next {
                None
            } else {
                match parse_unsigned(args[i + 1], usize::MAX as int) {
                    None => None,
                    Some(n) => digest_scan(args, i + 2, DigestScan { top: n, ..st }),
                }
            }
        } else if flag_value_of(a, "--out"@) is Some {
            digest_scan(args, i + 1, DigestScan { out: flag_value_of(a, "--out"@)->0, ..st })
        } else if a == "--out"@ {
            if !has_next {
                None
            } else {
                digest_scan(args, i + 2, DigestScan { out: args[i + 1], ..st })
            }
        } else if flag_value_of(a, "--format"@) is Some {
            digest_scan(args, i + 1, DigestScan { format: flag_value_of(a, "--format"@)->0, ..st })
        } else if a == "--format"@ {
            if !has_next {
                None
            } else {
                digest_scan(args, i + 2, DigestScan { format: args[i + 1], ..st })
            }
        } else if a.len() > 0 && a[0] == '-' {
            None
        } else if st.saw {
            digest_scan(args, i + 1, DigestScan { extra: true, ..st })
        } else {
            None
        }
    }
}

/// The options of `ctx digest`.
#[derive(Debug, Clone, PartialEq, Eq)]
pub struct DigestArgs {
    pub since: String,
    pub top: usize,
    pub out: String,
    pub format: String,
}

/// What a command line asks of `ctx digest`, as (since, top, out, format):
/// `None` unless it names `digest` once, with no positional argument and
/// known flags; `--json` sets the format to `json`.
pub open spec fn digest_request(args: Seq<Seq<char>>) -> Option<(Seq<char>, int, Seq<char>, Seq<char>)> {
    match digest_scan(args, 0, digest_start()) {
        None => None,
        Some(st) => if !st.saw || st.extra {
            None
        } else {
            Some(
                (
                    st.since,
                    st.top,
                    st.out,
                    if st.json {
                        "json"@
                    } else {
                        st.format
                    },
                ),
            )
        },
    }
}

/// Reads the command line of `ctx digest` (see [`digest_request`]).
pub fn parse_digest_args(args: &[String]) -> (r: Option<DigestArgs>)
    ensures
        match r {
            Some(d) => digest_request(views(args@)) == Some(
                (d.since@, d.top as int, d.out@, d.format@),
            ),
            None => digest_request(views(args@)) is None,
        },
{
    let ghost all = views(args@);
    let mut saw = false;
    let mut since = "7d".to_owned();
    let mut top: usize = 10;
    let mut out = String::new();
    let mut format = "markdown".to_owned();
    let mut json = false;
    let mut extra = false;
    let mut i: usize = 0;
    while i < args.len()
        invariant
            all == views(args@),
            i <= args.len(),
            digest_scan(all, 0, digest_start()) == digest_scan(
                all,
                i as int,
                DigestScan {
                    saw,
                    since: since@,
                    top: top as int,
                    out: out@,
                    format: format@,
                    json,
                    extra,
                },
            ),
        decreases args.len() - i,
    {
        let arg = &args[i];
        let a = chars_of(arg.as_str());
        assert(a@ == all[i as int]);
        if is_word(&a, "--json") {
            json = true;
            i = i + 1;
        } else if is_word(&a, "digest") {
            if saw {
                return None;
            }
            saw = true;
            i = i + 1;
        } else if let Some(v) = flag_value(arg.as_str(), "--since") {
            since = v;
            i = i + 1;
        } else if is_word(&a, "--since") {
            match next_arg(args, i) {
                None => return None,
                Some(v) => {
                    assert(v@ == all[i + 1]);
                    since = v.clone();
                },
            }
            i = i + 2;
        } else if let Some(v) = flag_value(arg.as_str(), "--top") {
            match parse_usize_exec(&chars_of(v.as_str())) {
                None => return None,
                Some(n) => {
                    top = n;
                },
            }
            i = i + 1;
        } else if is_word(&a, "--top") {
            match next_arg(args, i) {
                None => return None,
                Some(v) => {
                    assert(v@ == all[i + 1]);
                    match parse_usize_exec(&chars_of(v.as_str())) {
                        None => return None,
                        Some(n) => {
                            top = n;
                        },
                    }
                },
            }
            i = i + 2;
        } else if let Some(v) = flag_value(arg.as_str(), "--out") {
            out = v;
            i = i + 1;
        } else if is_word(&a, "--out") {
            match next_arg(args, i) {
                None => return None,
                Some(v) => {
                    assert(v@ == all[i + 1]);
                    out = v.clone();
                },
            }
            i = i + 2;
        } else if let Some(v) = flag_value(arg.as_str(), "--format") {
            format = v;
            i = i + 1;
        } else if is_word(&a, "--format") {
            match next_arg(args, i) {
                None => return None,
                Some(v) => {
                    assert(v@ == all[i + 1]);
                    format = v.clone();
                },
            }
            i = i + 2;
        } else if a.len() > 0 && a[0] == '-' {
            return None;
        } else if saw {
            extra = true;
            i = i + 1;
        } else {
            return None;
        }
    }
    if !saw || extra {
        return None;
    }
    if json {
        format = "json".to_owned();
    }
    Some(DigestArgs { since, top, out, format })
}

/// An integer with its sign always written: `+` before zero and positive
/// values.
pub open spec fn signed_text(n: int) -> Seq<char> {
    if n >= 0 {
        seq!['+'] + decimal(n as nat)
    } else {
        signed_decimal(n)
    }
}

/// Writes an integer with its sign (see [`signed_text`]).
pub fn signed_fmt(n: i64) -> (r: String)
    ensures
        r@ == signed_text(n as int),
{
    let mut out: Vec<char> = Vec::new();
    if n >= 0 {
        out.push('+');
    }
    push_signed(&mut out, n);
    string_of(&out)
}

/// The duration units that `git --since` understands, by the suffix that
/// stands for them, in the order they are tried.
pub open spec fn since_units() -> Seq<(Seq<char>, Seq<char>)> {
    seq![("mo"@, "months"@), ("w"@, "weeks"@), ("d"@, "days"@), ("y"@, "years"@), ("h"@, "hours"@)]
}

/// The `git --since` value for a duration, trying the units from `k` on:
/// the first unit whose suffix ends the lowered duration decides, and what
/// comes before it must be digits.
pub open spec fn since_from(since: Seq<char>, low: Seq<char>, k: int) -> Result<Seq<char>, Seq<char>>
    decreases 5 - k,
{
    if k < 0 || k >= 5 {
        Ok(since + " ago"@)
    } else {
        let (suffix, unit) = since_units()[k];
        if ends_with(low, suffix) {
            let num = low.take(low.len() - suffix.len());
            if num.len() == 0 || !all_digits(num) {
                Err("parsing duration "@ + debug_text(since) + ": invalid numeric part"@)
            } else {
                Ok(num + " "@ + unit + " ago"@)
            }
        } else {
            since_from(since, low, k + 1)
        }
    }
}

/// The `git --since` value for a `--since` duration (see [`since_from`]);
/// an empty duration is refused.
pub open spec fn since_arg(since: Seq<char>) -> Result<Seq<char>, Seq<char>> {
    if since.len() == 0 {
        Err("parsing duration \"\": empty string"@)
    } else {
        since_from(since, lower(since), 0)
    }
}

/// Whether the characters are all ASCII digits.
fn digits_only(s: &[char]) -> (r: bool)
    ensures
        r == all_digits(s@),
{
    let mut i: usize = 0;
    while i < s.len()
        invariant
            i <= s.len(),
            forall|k: int| 0 <= k < i ==> #[trigger] crate::text::is_digit(s@[k]),
        decreases s.len() - i,
    {
        if !('0' <= s[i] && s[i] <= '9') {
            assert(!crate::text::is_digit(s@[i as int]));
            return false;
        }
        i = i + 1;
    }
    true
}

/// The `git --since` value for a duration (see [`since_arg`]).
pub fn git_since_arg(since: &str) -> (r: Result<String, String>)
    ensures
        match r {
            Ok(v) => since_arg(since@) == Ok::<Seq<char>, Seq<char>>(v@),
            Err(e) => since_arg(since@) == Err::<Seq<char>, Seq<char>>(e@),
        },
{
    if since.is_empty() {
        return Err("parsing duration \"\": empty string".to_owned());
    }
    let low = lower_exec(&chars_of(since));
    let suffixes: [&str; 5] = ["mo", "w", "d", "y", "h"];
    let units: [&str; 5] = ["months", "weeks", "days", "years", "hours"];
    let mut k: usize = 0;
    while k < 5
        invariant
            k <= 5,
            since@.len() > 0,
            low@ == lower(since@),
            suffixes@ == seq!["mo", "w", "d", "y", "h"],
            units@ == seq!["months", "weeks", "days", "years", "hours"],
            since_from(since@, low@, 0) == since_from(since@, low@, k as int),
        decreases 5 - k,
    {
        let suffix = chars_of(suffixes[k]);
        assert(suffix@ == since_units()[k as int].0);
        assert(units[k as int]@ == since_units()[k as int].1);
        if crate::text::ends_with_exec(&low, &suffix) {
            let num = slice_chars(&low, 0, low.len() - suffix.len());
            assert(num@ =~= low@.take(low@.len() - suffix@.len()));
            if num.len() == 0 || !digits_only(&num) {
                let mut e = chars_of("parsing duration ");
                append_chars(&mut e, &chars_of(debug_quoted(since).as_str()));
                append_str(&mut e, ": invalid numeric part");
                return Err(string_of(&e));
            }
            let mut out = num;
            append_str(&mut out, " ");
            append_str(&mut out, units[k]);
            append_str(&mut out, " ago");
            return Ok(string_of(&out));
        }
        k = k + 1;
    }
    let mut out = chars_of(since);
    append_str(&mut out, " ago");
    Ok(string_of(&out))
}

/// The period a digest covers.
#[derive(Debug, Clone)]
pub struct DigestPeriod {
    pub since: String,
    pub since_date: String,
    pub until: String,
    pub until_date: String,
    pub duration: String,
    pub since_ref: String,
    pub head_ref: String,
}

/// A file changed often in the period.
#[derive(Debug, Clone)]
pub struct DigestHotFile {
    pub path: String,
    pub commits: usize,
    pub token_delta: i64,
    pub symbol_delta: i64,
}

/// What changed in a repository over a period.
#[derive(Debug, Clone)]
pub struct DigestBrief {
    pub period: DigestPeriod,
    pub commits: usize,
    pub authors: usize,
    pub files_changed: usize,
    pub files_added: usize,
    pub files_deleted: usize,
    pub token_delta: i64,
    pub symbol_delta: i64,
    pub hot_files: Vec<DigestHotFile>,
}

/// The markdown table row of the hot file at position `idx`.
pub open spec fn hot_row_md(idx: int, hf: DigestHotFile) -> Seq<char> {
    "| "@ + decimal((idx + 1) as nat) + " | "@ + decimal(hf.commits as nat) + " | "@ + signed_text(
        hf.token_delta as int,
    ) + " | "@ + signed_text(hf.symbol_delta as int) + " | "@ + hf.path@ + " |\n"@
}

/// The markdown table rows of the first `n` hot files.
pub open spec fn hot_rows_md(hot: Seq<DigestHotFile>, n: int) -> Seq<char>
    decreases n,
{
    if n <= 0 {
        Seq::empty()
    } else {
        hot_rows_md(hot, n - 1) + hot_row_md(n - 1, hot[n - 1])
    }
}

/// The suggested read for a hot file whose path, quoted, is `q`: a focus
/// on it when its symbols changed, else a skim.
pub open spec fn read_line(hf: DigestHotFile, q: Seq<char>) -> Seq<char> {
    if hf.symbol_delta != 0 {
        "- `ctx_focus {\"anchor\":"@ + q + "}` \u{2014} "@ + hf.path@ + " (symbols \u{0394} "@
            + signed_text(hf.symbol_delta as int) + ")\n"@
    } else {
        "- `ctx_skim {\"path\":"@ + q + "}` \u{2014} "@ + hf.path@ + " (tokens \u{0394} "@
            + signed_text(hf.token_delta as int) + ")\n"@
    }
}

/// The suggested reads for the first `n` hot files, with the quoted paths
/// `qs`.
pub open spec fn read_lines(hot: Seq<DigestHotFile>, qs: Seq<Seq<char>>, n: int) -> Seq<char>
    decreases n,
{
    if n <= 0 {
        Seq::empty()
    } else {
        read_lines(hot, qs, n - 1) + read_line(hot[n - 1], qs[n - 1])
    }
}

/// How many hot files get a suggested read: at most three.
pub open spec fn read_count(hot: Seq<DigestHotFile>) -> int {
    if hot.len() < 3 {
        hot.len() as int
    } else {
        3
    }
}

/// The path of each hot file as a JSON string literal, as the tool calls
/// of the suggested reads carry it.
pub open spec fn path_quotes(hot: Seq<DigestHotFile>) -> Seq<Seq<char>> {
    Seq::new(hot.len(), |i: int| json_text(hot[i].path@))
}

/// The section of suggested reads: none without hot files.
pub open spec fn next_reads_text(hot: Seq<DigestHotFile>, qs: Seq<Seq<char>>) -> Seq<char> {
    if hot.len() == 0 {
        Seq::empty()
    } else {
        "\n## Suggested next reads\n\n"@ + read_lines(hot, qs, read_count(hot))
    }
}

/// A path quoted for a tool call: as a JSON string literal.
fn quote_path(p: &str) -> (r: String)
    ensures
        r@ == json_text(p@),
{
    match json_quoted(p) {
        Some(t) => t,
        None => {
            assert(false);
            String::new()
        },
    }
}

/// Appends the suggested reads for the hot files (see [`next_reads_text`]).
pub fn render_digest_next_reads(out: &mut String, hot: &[DigestHotFile])
    ensures
        final(out)@ == old(out)@ + next_reads_text(hot@, path_quotes(hot@)),
{
    if hot.len() == 0 {
        assert(out@ =~= out@ + next_reads_text(hot@, path_quotes(hot@)));
        return;
    }
    let n: usize = if hot.len() < 3 {
        hot.len()
    } else {
        3
    };
    let mut text = chars_of(out.as_str());
    append_str(&mut text, "\n## Suggested next reads\n\n");
    let ghost head = text@;
    let ghost mut qs: Seq<Seq<char>> = Seq::empty();
    let mut i: usize = 0;
    while i < n
        invariant
            i <= n,
            n as int == read_count(hot@),
            n <= hot.len(),
            qs.len() == i,
            forall|k: int| 0 <= k < i ==> #[trigger] qs[k] == json_text(hot@[k].path@),
            text@ == head + read_lines(hot@, qs, i as int),
        decreases n - i,
    {
        let hf = &hot[i];
        let q = quote_path(hf.path.as_str());
        let ghost prev = qs;
        proof {
            qs = qs.push(q@);
        }
        assert(read_lines(hot@, prev, i as int) == read_lines(hot@, qs, i as int)) by {
            lemma_read_lines_prefix(hot@, prev, qs, i as int);
        }
        push_read_line(&mut text, hf, q.as_str());
        assert(qs[i as int] == q@);
        i = i + 1;
        assert(text@ =~= head + read_lines(hot@, qs, i as int));
    }
    assert(read_lines(hot@, qs, n as int) == read_lines(hot@, path_quotes(hot@), n as int)) by {
        lemma_read_lines_prefix(hot@, qs, path_quotes(hot@), n as int);
    }
    assert(text@ =~= old(out)@ + next_reads_text(hot@, path_quotes(hot@)));
    *out = string_of(&text);
}

/// Appends the suggested read for one hot file (see [`read_line`]).
fn push_read_line(text: &mut Vec<char>, hf: &DigestHotFile, q: &str)
    ensures
        final(text)@ == old(text)@ + read_line(*hf, q@),
{
    if hf.symbol_delta != 0 {
        append_str(text, "- `ctx_focus {\"anchor\":");
        append_str(text, q);
        append_str(text, "}` \u{2014} ");
        append_str(text, hf.path.as_str());
        append_str(text, " (symbols \u{0394} ");
        append_str(text, signed_fmt(hf.symbol_delta).as_str());
        append_str(text, ")\n");
    } else {
        append_str(text, "- `ctx_skim {\"path\":");
        append_str(text, q);
        append_str(text, "}` \u{2014} ");
        append_str(text, hf.path.as_str());
        append_str(text, " (tokens \u{0394} ");
        append_str(text, signed_fmt(hf.token_delta).as_str());
        append_str(text, ")\n");
    }
    assert(text@ =~= old(text)@ + read_line(*hf, q@));
}

/// Suggested reads depend only on the quoted paths they use.
proof fn lemma_read_lines_prefix(
    hot: Seq<DigestHotFile>,
    a: Seq<Seq<char>>,
    b: Seq<Seq<char>>,
    n: int,
)
    requires
        0 <= n <= a.len(),
        n <= b.len(),
        forall|k: int| 0 <= k < n ==> a[k] == b[k],
    ensures
        read_lines(hot, a, n) == read_lines(hot, b, n),
    decreases n,
{
    if n > 0 {
        lemma_read_lines_prefix(hot, a, b, n - 1);
    }
}

/// The markdown digest: a heading with the period, the counts and deltas,
/// then, when there are hot files, their table and the suggested reads.
pub open spec fn digest_markdown(b: DigestBrief, qs: Seq<Seq<char>>) -> Seq<char> {
    "# Digest \u{2014} "@ + b.period.since_date@ + " \u{2192} "@ + b.period.until_date@ + " ("@
        + b.period.duration@ + ")\n\n"@ + "- Commits: "@ + decimal(b.commits as nat) + " by "@
        + decimal(b.authors as nat) + " author(s)\n"@ + "- Files changed: "@ + decimal(
        b.files_changed as nat,
    ) + " (added: "@ + decimal(b.files_added as nat) + ", deleted: "@ + decimal(
        b.files_deleted as nat,
    ) + ")\n"@ + "- Token delta: "@ + signed_text(b.token_delta as int) + " tokens (net)\n"@
        + "- Symbol delta: "@ + signed_text(b.symbol_delta as int) + " symbols (net)\n"@ + (
    if b.hot_files@.len() == 0 {
        Seq::empty()
    } else {
        "\n## Hot files\n\n"@ + "| # | Commits | Token \u{0394} | Symbol \u{0394} | Path |\n"@
            + "|---|---|---|---|---|\n"@ + hot_rows_md(b.hot_files@, b.hot_files@.len() as int)
            + next_reads_text(b.hot_files@, qs)
    })
}

/// Appends the markdown row of the hot file at position `i` (see
/// [`hot_row_md`]).
fn push_hot_row_md(t: &mut Vec<char>, i: usize, hf: &DigestHotFile)
    requires
        i < usize::MAX,
    ensures
        final(t)@ == old(t)@ + hot_row_md(i as int, *hf),
{
    let ghost start = t@;
    append_str(t, "| ");
    append_chars(t, &decimal_chars((i + 1) as u64));
    append_str(t, " | ");
    append_chars(t, &decimal_chars(hf.commits as u64));
    append_str(t, " | ");
    append_str(t, signed_fmt(hf.token_delta).as_str());
    append_str(t, " | ");
    append_str(t, signed_fmt(hf.symbol_delta).as_str());
    append_str(t, " | ");
    append_str(t, hf.path.as_str());
    append_str(t, " |\n");
    assert(t@ =~= start + hot_row_md(i as int, *hf));
}

/// Renders a digest as markdown (see [`digest_markdown`]).
pub fn render_digest_markdown(b: &DigestBrief) -> (r: String)
    ensures
        r@ == digest_markdown(*b, path_quotes(b.hot_files@)),
{
    let mut t = chars_of("# Digest \u{2014} ");
    append_str(&mut t, b.period.since_date.as_str());
    append_str(&mut t, " \u{2192} ");
    append_str(&mut t, b.period.until_date.as_str());
    append_str(&mut t, " (");
    append_str(&mut t, b.period.duration.as_str());
    append_str(&mut t, ")\n\n");
    append_str(&mut t, "- Commits: ");
    append_chars(&mut t, &decimal_chars(b.commits as u64));
    append_str(&mut t, " by ");
    append_chars(&mut t, &decimal_chars(b.authors as u64));
    append_str(&mut t, " author(s)\n");
    append_str(&mut t, "- Files changed: ");
    append_chars(&mut t, &decimal_chars(b.files_changed as u64));
    append_str(&mut t, " (added: ");
    append_chars(&mut t, &decimal_chars(b.files_added as u64));
    append_str(&mut t, ", deleted: ");
    append_chars(&mut t, &decimal_chars(b.files_deleted as u64));
    append_str(&mut t, ")\n");
    append_str(&mut t, "- Token delta: ");
    append_str(&mut t, signed_fmt(b.token_delta).as_str());
    append_str(&mut t, " tokens (net)\n");
    append_str(&mut t, "- Symbol delta: ");
    append_str(&mut t, signed_fmt(b.symbol_delta).as_str());
    append_str(&mut t, " symbols (net)\n");
    let ghost top = t@;
    if b.hot_files.len() == 0 {
        assert(t@ =~= digest_markdown(*b, path_quotes(b.hot_files@)));
        return string_of(&t);
    }
    append_str(&mut t, "\n## Hot files\n\n");
    append_str(&mut t, "| # | Commits | Token \u{0394} | Symbol \u{0394} | Path |\n");
    append_str(&mut t, "|---|---|---|---|---|\n");
    let ghost table = t@;
    let hot = &b.hot_files;
    let mut i: usize = 0;
    while i < hot.len()
        invariant
            i <= hot.len(),
            t@ == table + hot_rows_md(hot@, i as int),
        decreases hot.len() - i,
    {
        push_hot_row_md(&mut t, i, &hot[i]);
        i = i + 1;
        assert(t@ =~= table + hot_rows_md(hot@, i as int));
    }
    let mut out = string_of(&t);
    let ghost before = out@;
    render_digest_next_reads(&mut out, hot.as_slice());
    assert(out@ =~= digest_markdown(*b, path_quotes(b.hot_files@)));
    out
}

/// `s` followed by spaces up to `width` characters (what `{:<width}` does).
pub open spec fn pad_right(s: Seq<char>, width: int) -> Seq<char> {
    s + Seq::new(
        if s.len() < width {
            (width - s.len()) as nat
        } else {
            0
        },
        |i: int| ' ',
    )
}

/// Appends `s` padded to `width` characters (see [`pad_right`]).
pub(crate) fn push_pad_right(dst: &mut Vec<char>, s: &[char], width: usize)
    ensures
        final(dst)@ == old(dst)@ + pad_right(s@, width as int),
{
    let ghost start = old(dst)@;
    append_chars(dst, s);
    let mut k: usize = s.len();
    while k < width
        invariant
            k == s.len() || k <= width,
            dst@ == start + s@ + Seq::new((k - s.len()) as nat, |i: int| ' '),
            s.len() <= k,
        decreases width - k,
    {
        dst.push(' ');
        k = k + 1;
        assert(dst@ =~= start + s@ + Seq::new((k - s.len()) as nat, |i: int| ' '));
    }
    assert(k - s.len() == (if s.len() < width { width - s.len() } else { 0 }));
    assert(dst@ =~= start + pad_right(s@, width as int));
}

/// The length of a string in UTF-8 bytes, as `str::len` gives it.
pub open spec fn byte_len(s: Seq<char>) -> int {
    (vstd::utf8::encode_utf8(s).len() as usize) as int
}

/// The row of the plain digest for the hot file at position `idx`; the
/// path is padded with spaces to 40 bytes.
pub open spec fn hot_row_plain(idx: int, hf: DigestHotFile) -> Seq<char> {
    "  "@ + decimal((idx + 1) as nat) + ". "@ + (if byte_len(hf.path@) < 40 {
        hf.path@ + Seq::new((40 - byte_len(hf.path@)) as nat, |i: int| ' ')
    } else {
        hf.path@
    }) + "  commits="@ + pad_right(decimal(hf.commits as nat), 3) + "  tokens="@ + pad_right(
        signed_text(hf.token_delta as int),
        6,
    ) + "  symbols="@ + signed_text(hf.symbol_delta as int) + "\n"@
}

/// The plain rows of the first `n` hot files.
pub open spec fn hot_rows_plain(hot: Seq<DigestHotFile>, n: int) -> Seq<char>
    decreases n,
{
    if n <= 0 {
        Seq::empty()
    } else {
        hot_rows_plain(hot, n - 1) + hot_row_plain(n - 1, hot[n - 1])
    }
}

/// Appends the plain row of the hot file at position `idx` (see
/// [`hot_row_plain`]).
fn push_plain_row(t: &mut Vec<char>, i: usize, hf: &DigestHotFile)
    requires
        i < usize::MAX,
    ensures
        final(t)@ == old(t)@ + hot_row_plain(i as int, *hf),
{
    let ghost row_start = t@;
    append_str(t, "  ");
    append_chars(t, &decimal_chars((i + 1) as u64));
    append_str(t, ". ");
    let n = hf.path.as_str().len();
    append_str(t, hf.path.as_str());
    if n < 40 {
        let ghost mid = t@;
        let mut k: usize = n;
        while k < 40
            invariant
                n <= k <= 40,
                t@ == mid + Seq::new((k - n) as nat, |j: int| ' '),
            decreases 40 - k,
        {
            t.push(' ');
            k = k + 1;
            assert(t@ =~= mid + Seq::new((k - n) as nat, |j: int| ' '));
        }
    }
    append_str(t, "  commits=");
    push_pad_right(t, &decimal_chars(hf.commits as u64), 3);
    append_str(t, "  tokens=");
    push_pad_right(t, &chars_of(signed_fmt(hf.token_delta).as_str()), 6);
    append_str(t, "  symbols=");
    append_str(t, signed_fmt(hf.symbol_delta).as_str());
    append_str(t, "\n");
    assert(t@ =~= row_start + hot_row_plain(i as int, *hf));
}

/// The plain digest: the period, the counts and deltas, then the hot files.
pub open spec fn digest_plain(b: DigestBrief) -> Seq<char> {
    "Digest: "@ + b.period.since_date@ + " \u{2192} "@ + b.period.until_date@ + " ("@
        + b.period.duration@ + ")\n"@ + "Commits: "@ + decimal(b.commits as nat) + " by "@ + decimal(
        b.authors as nat,
    ) + " authors\n"@ + "Files: "@ + decimal(b.files_changed as nat) + " changed (+"@ + decimal(
        b.files_added as nat,
    ) + " added, -"@ + decimal(b.files_deleted as nat) + " deleted)\n"@ + "Tokens: "@
        + signed_text(b.token_delta as int) + " net\n"@ + "Symbols: "@ + signed_text(
        b.symbol_delta as int,
    ) + " net\n"@ + (if b.hot_files@.len() == 0 {
        Seq::empty()
    } else {
        "\nHot files (top "@ + decimal(b.hot_files@.len()) + "):\n"@ + hot_rows_plain(
            b.hot_files@,
            b.hot_files@.len() as int,
        )
    })
}

/// Renders a digest as plain text (see [`digest_plain`]).
pub fn render_digest_plain(b: &DigestBrief) -> (r: String)
    ensures
        r@ == digest_plain(*b),
{
    let mut t = chars_of("Digest: ");
    append_str(&mut t, b.period.since_date.as_str());
    append_str(&mut t, " \u{2192} ");
    append_str(&mut t, b.period.until_date.as_str());
    append_str(&mut t, " (");
    append_str(&mut t, b.period.duration.as_str());
    append_str(&mut t, ")\n");
    append_str(&mut t, "Commits: ");
    append_chars(&mut t, &decimal_chars(b.commits as u64));
    append_str(&mut t, " by ");
    append_chars(&mut t, &decimal_chars(b.authors as u64));
    append_str(&mut t, " authors\n");
    append_str(&mut t, "Files: ");
    append_chars(&mut t, &decimal_chars(b.files_changed as u64));
    append_str(&mut t, " changed (+");
    append_chars(&mut t, &decimal_chars(b.files_added as u64));
    append_str(&mut t, " added, -");
    append_chars(&mut t, &decimal_chars(b.files_deleted as u64));
    append_str(&mut t, " deleted)\n");
    append_str(&mut t, "Tokens: ");
    append_str(&mut t, signed_fmt(b.token_delta).as_str());
    append_str(&mut t, " net\n");
    append_str(&mut t, "Symbols: ");
    append_str(&mut t, signed_fmt(b.symbol_delta).as_str());
    append_str(&mut t, " net\n");
    if b.hot_files.len() == 0 {
        assert(t@ =~= digest_plain(*b));
        return string_of(&t);
    }
    let hot = &b.hot_files;
    append_str(&mut t, "\nHot files (top ");
    append_chars(&mut t, &decimal_chars(hot.len() as u64));
    append_str(&mut t, "):\n");
    let ghost table = t@;
    let mut i: usize = 0;
    while i < hot.len()
        invariant
            i <= hot.len(),
            t@ == table + hot_rows_plain(hot@, i as int),
        decreases hot.len() - i,
    {
        push_plain_row(&mut t, i, &hot[i]);
        i = i + 1;
        assert(t@ =~= table + hot_rows_plain(hot@, i as int));
    }
    assert(t@ =~= digest_plain(*b));
    string_of(&t)
}

/// A signed rendering reads back as the same `i64`.
pub proof fn law_signed_text_parses(n: i64)
    ensures
        parse_i64(signed_text(n as int)) == Some(n as int),
{
    let m: nat = if n >= 0 {
        n as nat
    } else {
        (-(n as int)) as nat
    };
    crate::text::lemma_decimal_digits(m);
    crate::text::lemma_decimal_value(m);
    let s = signed_text(n as int);
    assert(s.drop_first() =~= decimal(m));
}

/// Lowering leaves text without ASCII capitals as it is.
proof fn lemma_lower_keeps(s: Seq<char>)
    requires
        forall|i: int| 0 <= i < s.len() ==> !('A' <= #[trigger] s[i] && s[i] <= 'Z'),
    ensures
        lower(s) == s,
{
    assert(lower(s) =~= s);
}

/// A `--since` duration of digits and a unit letter asks git for that many
/// of the unit: `mo` months, `w` weeks, `d` days, `y` years, `h` hours.
pub proof fn law_since_duration_units(digits: Seq<char>, suffix: Seq<char>, word: Seq<char>)
    requires
        digits.len() > 0,
        all_digits(digits),
        (suffix == "mo"@ && word == "months"@) || (suffix == "w"@ && word == "weeks"@) || (suffix
            == "d"@ && word == "days"@) || (suffix == "y"@ && word == "years"@) || (suffix == "h"@
            && word == "hours"@),
    ensures
        since_arg(digits + suffix) == Ok::<Seq<char>, Seq<char>>(digits + " "@ + word + " ago"@),
{
    reveal_strlit("mo");
    reveal_strlit("w");
    reveal_strlit("d");
    reveal_strlit("y");
    reveal_strlit("h");
    reveal_strlit("months");
    reveal_strlit("weeks");
    reveal_strlit("days");
    reveal_strlit("years");
    reveal_strlit("hours");
    let s = digits + suffix;
    assert forall|i: int| 0 <= i < s.len() implies !('A' <= #[trigger] s[i] && s[i] <= 'Z') by {
        if i < digits.len() {
            assert(s[i] == digits[i]);
            assert(crate::text::is_digit(digits[i]));
        } else {
            assert(s[i] == suffix[i - digits.len()]);
        }
    }
    lemma_lower_keeps(s);
    let n = s.len() as int;
    assert(s[n - 1] == suffix.last());
    assert(s.take(n - suffix.len()) =~= digits);
    assert(s.subrange(n - suffix.len(), n) =~= suffix);
    if suffix.len() == 1 {
        assert(!ends_with(s, "mo"@)) by {
            assert("mo"@[1] == 'o');
            if ends_with(s, "mo"@) {
                assert(s.subrange(n - 2, n)[1] == s[n - 1]);
            }
        }
    }
    if suffix != "w"@ {
        assert(!ends_with(s, "w"@)) by {
            if ends_with(s, "w"@) {
                assert(s.subrange(n - 1, n)[0] == s[n - 1]);
            }
        }
    }
    if suffix != "d"@ {
        assert(!ends_with(s, "d"@)) by {
            if ends_with(s, "d"@) {
                assert(s.subrange(n - 1, n)[0] == s[n - 1]);
            }
        }
    }
    if suffix != "y"@ {
        assert(!ends_with(s, "y"@)) by {
            if ends_with(s, "y"@) {
                assert(s.subrange(n - 1, n)[0] == s[n - 1]);
            }
        }
    }
    reveal_with_fuel(since_from, 6);
}

} // verus!
