//! Helpers of `ctx braid`: flag values, line ranges on paths, the errors
//! that are configuration errors, and the plain and markdown pack bodies.
use vstd::prelude::*;

use crate::cli::common::is_option;
use crate::cli::log::{has, starts};
use crate::text::{
    all_digits, append_chars, append_str, chars_of, contains, decimal_chars, ends_with, is_digit,
    is_last_index, last_index_of, push_signed, rfind_char, signed_decimal, slice_chars,
    starts_with, string_of, views,
};

verus! {

/// The value of `arg` written `name=value`: what follows `name` and `=`.
pub open spec fn flag_text(arg: Seq<char>, name: Seq<char>) -> Option<Seq<char>> {
    if starts_with(arg, name) && arg.len() > name.len() && arg[name.len() as int] == '=' {
        Some(arg.skip(name.len() as int + 1))
    } else {
        None
    }
}

/// The value of `arg` when it is written `name=value` (see [`flag_text`]).
pub fn string_flag_value(arg: &str, name: &str) -> (r: Option<String>)
    ensures
        match r {
            Some(v) => flag_text(arg@, name@) == Some(v@),
            None => flag_text(arg@, name@) is None,
        },
{
    let a = chars_of(arg);
    let n = chars_of(name);
    if crate::text::starts_with_exec(&a, &n) && a.len() > n.len() && a[n.len()] == '=' {
        let v = slice_chars(&a, n.len() + 1, a.len());
        assert(v@ =~= a@.skip(n@.len() as int + 1));
        Some(string_of(&v))
    } else {
        None
    }
}

/// Whether an argument is written as a flag (it begins with `-`).
pub open spec fn flag_like(a: Seq<char>) -> bool {
    a.len() > 0 && a[0] == '-'
}

/// The split of `args[i..]` into the first positional argument and the
/// rest: a flag without `=` takes the next argument along when that one is
/// no flag; positional arguments after the first go with the flags.
pub open spec fn strand_split(
    args: Seq<Seq<char>>,
    i: int,
    positional: Seq<char>,
    seen: bool,
    flags: Seq<Seq<char>>,
) -> (Seq<char>, Seq<Seq<char>>)
    decreases args.len() - i,
{
    if i < 0 || i >= args.len() {
        (positional, flags)
    } else if !flag_like(args[i]) {
        if !seen {
            strand_split(args, i + 1, args[i], true, flags)
        } else {
            strand_split(args, i + 1, positional, seen, flags.push(args[i]))
        }
    } else if !crate::text::has_char(args[i], '=') && i + 1 < args.len() && !flag_like(
        args[i + 1],
    ) {
        strand_split(args, i + 2, positional, seen, flags.push(args[i]).push(args[i + 1]))
    } else {
        strand_split(args, i + 1, positional, seen, flags.push(args[i]))
    }
}

/// The strand's positional argument and its flags (see [`strand_split`]).
/// Every input is accepted.
pub fn parse_strand_positional_then_flags(args: &[String]) -> (r: Result<(String, Vec<String>), String>)
    ensures
        r matches Ok((p, f)) && (p@, views(f@)) == strand_split(
            views(args@),
            0,
            Seq::empty(),
            false,
            Seq::empty(),
        ),
{
    let ghost a = views(args@);
    let ghost goal = strand_split(a, 0, Seq::empty(), false, Seq::empty());
    let mut positional = String::new();
    let mut flags: Vec<String> = Vec::new();
    let mut seen = false;
    let mut i: usize = 0;
    assert(views(flags@) =~= Seq::<Seq<char>>::empty());
    while i < args.len()
        invariant
            i <= args.len(),
            a == views(args@),
            goal == strand_split(a, 0, Seq::empty(), false, Seq::empty()),
            strand_split(a, i as int, positional@, seen, views(flags@)) == goal,
        decreases args.len() - i,
    {
        let arg = &args[i];
        assert(a[i as int] == arg@);
        if !is_option(arg.as_str()) {
            if !seen {
                positional = arg.clone();
                seen = true;
            } else {
                let ghost before = views(flags@);
                flags.push(arg.clone());
                assert(views(flags@) =~= before.push(arg@));
            }
            i = i + 1;
        } else {
            let ghost before = views(flags@);
            flags.push(arg.clone());
            assert(views(flags@) =~= before.push(arg@));
            let ac = chars_of(arg.as_str());
            let has_eq = crate::text::find_char(&ac, '=').is_some();
            if !has_eq && i + 1 < args.len() && !is_option(args[i + 1].as_str()) {
                assert(a[i + 1] == args@[i + 1]@);
                let ghost mid = views(flags@);
                flags.push(args[i + 1].clone());
                assert(views(flags@) =~= mid.push(args@[i + 1]@));
                i = i + 2;
            } else {
                i = i + 1;
            }
        }
    }
    Ok((positional, flags))
}

/// A line-range suffix: digits, or digits, `-` and digits.
pub open spec fn line_range_text(s: Seq<char>) -> bool {
    if crate::text::has_char(s, '-') {
        let k = crate::text::first_index_of(s, '-');
        k > 0 && k + 1 < s.len() && all_digits(s.take(k)) && all_digits(s.skip(k + 1))
    } else {
        all_digits(s)
    }
}

/// `path` without a trailing `:line` or `:start-end`.
pub open spec fn without_line_range(path: Seq<char>) -> Seq<char> {
    let k = last_index_of(path, ':');
    if k >= 0 && line_range_text(path.skip(k + 1)) {
        path.take(k)
    } else {
        path
    }
}

/// Whether every character of `s` is an ASCII digit.
fn digits_only(s: &Vec<char>) -> (r: bool)
    ensures
        r == all_digits(s@),
{
    let mut i: usize = 0;
    while i < s.len()
        invariant
            i <= s.len(),
            forall|k: int| 0 <= k < i ==> #[trigger] is_digit(s@[k]),
        decreases s.len() - i,
    {
        if !('0' <= s[i] && s[i] <= '9') {
            assert(!is_digit(s@[i as int]));
            return false;
        }
        i = i + 1;
    }
    true
}

/// The path of a `path:range` selection (see [`without_line_range`]).
pub fn strip_line_range(path: &str) -> (r: String)
    ensures
        r@ == without_line_range(path@),
{
    let p = chars_of(path);
    match rfind_char(&p, ':') {
        None => path.to_owned(),
        Some(k) => {
            assert(is_last_index(p@, ':', k as int));
            let suffix = slice_chars(&p, k + 1, p.len());
            assert(suffix@ =~= p@.skip(k + 1));
            let ok = match crate::text::find_char(&suffix, '-') {
                Some(d) => {
                    proof {
                        crate::text::lemma_first_index_of(suffix@, '-');
                    }
                    let start = slice_chars(&suffix, 0, d);
                    let end = slice_chars(&suffix, d + 1, suffix.len());
                    assert(start@ =~= suffix@.take(d as int));
                    assert(end@ =~= suffix@.skip(d + 1));
                    d > 0 && d + 1 < suffix.len() && digits_only(&start) && digits_only(&end)
                },
                None => digits_only(&suffix),
            };
            if ok {
                let prefix = slice_chars(&p, 0, k);
                assert(prefix@ =~= p@.take(k as int));
                string_of(&prefix)
            } else {
                path.to_owned()
            }
        },
    }
}

/// An error text that reports a broken braid configuration.
pub open spec fn braid_validation_text(err: Seq<char>) -> bool {
    starts_with(err, "braid: "@) && (contains(err, "unsupported source"@) || contains(
        err,
        "schema_version"@,
    ) || contains(err, "share must be in"@) || contains(err, "duplicate strand name"@)
        || contains(err, "unknown policy"@) || contains(err, "is required"@) || starts_with(
        err,
        "braid: at least one"@,
    ))
}

/// Whether an error text reports a broken braid configuration (see
/// [`braid_validation_text`]).
pub fn is_braid_validation_error(err: &str) -> (r: bool)
    ensures
        r == braid_validation_text(err@),
{
    let e = chars_of(err);
    starts(&e, "braid: ") && (has(&e, "unsupported source") || has(&e, "schema_version") || has(
        &e,
        "share must be in",
    ) || has(&e, "duplicate strand name") || has(&e, "unknown policy") || has(&e, "is required")
        || starts(&e, "braid: at least one"))
}

/// The sum of the token counts.
pub open spec fn token_sum(tokens: Seq<i64>) -> int
    decreases tokens.len(),
{
    if tokens.len() == 0 {
        0
    } else {
        token_sum(tokens.drop_last()) + tokens.last()
    }
}

/// The lines listing the files of a plain pack body.
pub open spec fn plain_rows(paths: Seq<Seq<char>>, tokens: Seq<i64>) -> Seq<char>
    decreases paths.len(),
{
    if paths.len() == 0 || tokens.len() == 0 {
        Seq::empty()
    } else {
        plain_rows(paths.drop_last(), tokens.drop_last()) + "+ "@ + paths.last() + "  ("@
            + signed_decimal(tokens.last() as int) + " tokens)\n"@
    }
}

/// The plain pack body: a header with the tokens used, the budget and the
/// file count, then one line per file.
pub open spec fn plain_body(paths: Seq<Seq<char>>, tokens: Seq<i64>, budget: int) -> Seq<char> {
    "Context Pack\nGoal: -\nBudget: "@ + signed_decimal(token_sum(tokens)) + " / "@
        + signed_decimal(budget) + " tokens\nFiles: "@ + crate::text::decimal(paths.len())
        + "\n\n"@ + plain_rows(paths, tokens)
}

/// The plain pack body of the files with `paths` and `tokens` (see
/// [`plain_body`]).
pub fn braid_render_pack_plain(paths: &[String], tokens: &[i64], budget: i64) -> (r: String)
    requires
        paths.len() == tokens.len(),
        forall|k: int| 0 <= k <= tokens.len() ==> i64::MIN <= #[trigger] token_sum(tokens@.take(k))
            <= i64::MAX,
    ensures
        r@ == plain_body(views(paths@), tokens@, budget as int),
{
    let mut used: i64 = 0;
    let mut i: usize = 0;
    assert(tokens@.take(0) =~= Seq::<i64>::empty());
    while i < tokens.len()
        invariant
            i <= tokens.len(),
            used == token_sum(tokens@.take(i as int)),
            forall|k: int| 0 <= k <= tokens.len() ==> i64::MIN <= #[trigger] token_sum(tokens@.take(k))
                <= i64::MAX,
        decreases tokens.len() - i,
    {
        assert(tokens@.take(i + 1).drop_last() =~= tokens@.take(i as int));
        assert(i64::MIN <= token_sum(tokens@.take(i + 1)) <= i64::MAX);
        used = used + tokens[i];
        i = i + 1;
    }
    assert(tokens@.take(tokens.len() as int) =~= tokens@);
    let mut out = chars_of("Context Pack\nGoal: -\nBudget: ");
    push_signed(&mut out, used);
    append_str(&mut out, " / ");
    push_signed(&mut out, budget);
    append_str(&mut out, " tokens\nFiles: ");
    append_chars(&mut out, &decimal_chars(paths.len() as u64));
    append_str(&mut out, "\n\n");
    let ghost head = out@;
    let mut j: usize = 0;
    assert(views(paths@).take(0) =~= Seq::<Seq<char>>::empty());
    while j < paths.len()
        invariant
            j <= paths.len(),
            paths.len() == tokens.len(),
            out@ == head + plain_rows(views(paths@).take(j as int), tokens@.take(j as int)),
        decreases paths.len() - j,
    {
        assert(views(paths@).take(j + 1).drop_last() =~= views(paths@).take(j as int));
        assert(tokens@.take(j + 1).drop_last() =~= tokens@.take(j as int));
        assert(views(paths@).take(j + 1).last() == paths@[j as int]@);
        append_str(&mut out, "+ ");
        append_str(&mut out, paths[j].as_str());
        append_str(&mut out, "  (");
        push_signed(&mut out, tokens[j]);
        append_str(&mut out, " tokens)\n");
        j = j + 1;
    }
    assert(views(paths@).take(paths.len() as int) =~= views(paths@));
    assert(tokens@.take(tokens.len() as int) =~= tokens@);
    string_of(&out)
}

/// One file of the markdown pack body: a heading with the path, the content
/// fenced with its language tag, a newline added when the content lacks a
/// final one.
pub open spec fn markdown_file(path: Seq<char>, lang: Seq<char>, content: Seq<char>) -> Seq<char> {
    "### "@ + path + "\n\n```"@ + lang + "\n"@ + content + (if ends_with(content, "\n"@) {
        Seq::empty()
    } else {
        "\n"@
    }) + "```\n\n"@
}

/// The files of a markdown pack body.
pub open spec fn markdown_files(
    paths: Seq<Seq<char>>,
    langs: Seq<Seq<char>>,
    contents: Seq<Seq<char>>,
) -> Seq<char>
    decreases paths.len(),
{
    if paths.len() == 0 || langs.len() == 0 || contents.len() == 0 {
        Seq::empty()
    } else {
        markdown_files(paths.drop_last(), langs.drop_last(), contents.drop_last()) + markdown_file(
            paths.last(),
            langs.last(),
            contents.last(),
        )
    }
}

/// The markdown pack body of the files with `paths`, the language tags
/// `langs` of their paths and their `contents`: a `## File contents`
/// heading, then each file.
pub fn braid_render_pack_markdown(paths: &[String], langs: &[String], contents: &[String]) -> (r:
    String)
    requires
        paths.len() == langs.len(),
        paths.len() == contents.len(),
    ensures
        r@ == "## File contents\n\n"@ + markdown_files(
            views(paths@),
            views(langs@),
            views(contents@),
        ),
{
    proof {
        reveal_strlit("\n");
    }
    let mut out = chars_of("## File contents\n\n");
    let ghost head = out@;
    let mut j: usize = 0;
    assert(views(paths@).take(0) =~= Seq::<Seq<char>>::empty());
    while j < paths.len()
        invariant
            j <= paths.len(),
            paths.len() == langs.len(),
            paths.len() == contents.len(),
            out@ == head + markdown_files(
                views(paths@).take(j as int),
                views(langs@).take(j as int),
                views(contents@).take(j as int),
            ),
        decreases paths.len() - j,
    {
        assert(views(paths@).take(j + 1).drop_last() =~= views(paths@).take(j as int));
        assert(views(langs@).take(j + 1).drop_last() =~= views(langs@).take(j as int));
        assert(views(contents@).take(j + 1).drop_last() =~= views(contents@).take(j as int));
        assert(views(paths@).take(j + 1).last() == paths@[j as int]@);
        assert(views(langs@).take(j + 1).last() == langs@[j as int]@);
        assert(views(contents@).take(j + 1).last() == contents@[j as int]@);
        proof {
            reveal_strlit("\n");
        }
        let ghost before = out@;
        append_str(&mut out, "### ");
        append_str(&mut out, paths[j].as_str());
        append_str(&mut out, "\n\n```");
        append_str(&mut out, langs[j].as_str());
        append_str(&mut out, "\n");
        let body = chars_of(contents[j].as_str());
        append_chars(&mut out, &body);
        let ghost mid = out@;
        let ends_nl = body.len() > 0 && body[body.len() - 1] == '\n';
        proof {
            if ends_nl {
                assert(body@.subrange(body@.len() - 1, body@.len() as int) =~= "\n"@);
                assert(ends_with(body@, "\n"@));
            } else {
                if ends_with(body@, "\n"@) {
                    assert(body@.subrange(body@.len() - 1, body@.len() as int)[0] == '\n');
                }
                assert(!ends_with(body@, "\n"@));
            }
        }
        if !ends_nl {
            out.push('\n');
            assert(out@ =~= mid + "\n"@);
        } else {
            assert(out@ =~= mid + Seq::<char>::empty());
        }
        append_str(&mut out, "```\n\n");
        j = j + 1;
    }
    assert(views(paths@).take(paths.len() as int) =~= views(paths@));
    assert(views(langs@).take(paths.len() as int) =~= views(langs@));
    assert(views(contents@).take(paths.len() as int) =~= views(contents@));
    string_of(&out)
}

} // verus!
