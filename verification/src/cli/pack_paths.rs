//! The paths `ctx pack` is handed on standard input or with `--why`: a list
//! of paths, or the file headers of a git diff, cleaned and without
//! repeats.
use vstd::prelude::*;

use crate::cli::pack_ignore::{relative_path, relative_to, rebuild_path, slashed};
use crate::paths::{components, components_of, rebuild};
use crate::text::{
    find_exec, is_first_occurrence, occurs_at, chars_eq, chars_of, contains, contains_exec, slice_chars, split_on, split_on_exec, starts_with,
    starts_with_exec, string_of, trim, trim_exec, vec_views, views, ws_tokens, ws_tokens_exec,
};

verus! {

/// `s` without its leading and trailing `"` characters.
pub open spec fn trim_quotes(s: Seq<char>) -> Seq<char>
    decreases s.len(),
{
    if s.len() > 0 && s[0] == '"' {
        trim_quotes(s.drop_first())
    } else if s.len() > 0 && s.last() == '"' {
        trim_quotes(s.drop_last())
    } else {
        s
    }
}

/// `s` without its leading and trailing `"` characters.
pub fn trim_quotes_exec(s: &[char]) -> (r: Vec<char>)
    ensures
        r@ == trim_quotes(s@),
{
    let mut lo: usize = 0;
    let mut hi: usize = s.len();
    assert(s@.subrange(0, s.len() as int) =~= s@);
    while lo < hi && (s[lo] == '"' || s[hi - 1] == '"')
        invariant
            lo <= hi <= s.len(),
            trim_quotes(s@) == trim_quotes(s@.subrange(lo as int, hi as int)),
        decreases hi - lo,
    {
        let ghost cur = s@.subrange(lo as int, hi as int);
        if s[lo] == '"' {
            assert(cur.drop_first() =~= s@.subrange(lo + 1, hi as int));
            lo = lo + 1;
        } else {
            assert(cur.drop_last() =~= s@.subrange(lo as int, hi - 1));
            hi = hi - 1;
        }
    }
    slice_chars(s, lo, hi)
}

/// The form in which `ctx pack` keeps an input path: trimmed, without
/// quotes, rebuilt from its components with `/` separators; empty for an
/// empty path, `/dev/null` and `.`.
pub open spec fn clean_input(raw: Seq<char>) -> Seq<char> {
    let p = trim_quotes(trim(raw));
    if p.len() == 0 || p == "/dev/null"@ {
        Seq::empty()
    } else {
        let c = slashed(rebuild(components(p)));
        if c == seq!['.'] {
            Seq::empty()
        } else {
            c
        }
    }
}

/// Cleans an input path (see [`clean_input`]).
pub fn clean_pack_input_path(raw: &str) -> (r: String)
    ensures
        r@ == clean_input(raw@),
{
    let p = trim_quotes_exec(&trim_exec(&chars_of(raw)));
    if p.len() == 0 || chars_eq(&p, &chars_of("/dev/null")) {
        return String::new();
    }
    let mut c = rebuild_path(&components_of(&p));
    let ghost built = c@;
    let mut i: usize = 0;
    while i < c.len()
        invariant
            i <= c.len(),
            c.len() == built.len(),
            forall|k: int| 0 <= k < i ==> c@[k] == slashed(built)[k],
            forall|k: int| i <= k < c.len() ==> c@[k] == built[k],
        decreases c.len() - i,
    {
        if c[i] == '\\' {
            c.set(i, '/');
        }
        i = i + 1;
    }
    assert(c@ =~= slashed(built));
    if c.len() == 1 && c[0] == '.' {
        assert(c@ =~= seq!['.']);
        return String::new();
    }
    assert(c@ != seq!['.']) by {
        if c@ == seq!['.'] {
            assert(c@.len() == 1);
        }
    }
    string_of(&c)
}

/// A diff header path: quotes trimmed, one `a/` and then one `b/` prefix
/// dropped, then cleaned as an input path.
pub open spec fn clean_diff(raw: Seq<char>) -> Seq<char> {
    let p = trim_quotes(raw);
    let p = if starts_with(p, "a/"@) {
        p.skip(2)
    } else {
        p
    };
    let p = if starts_with(p, "b/"@) {
        p.skip(2)
    } else {
        p
    };
    clean_input(p)
}

/// Cleans a path of a diff header (see [`clean_diff`]).
pub fn clean_pack_diff_path(raw: &str) -> (r: String)
    ensures
        r@ == clean_diff(raw@),
{
    proof {
        reveal_strlit("a/");
        reveal_strlit("b/");
    }
    let mut p = trim_quotes_exec(&chars_of(raw));
    if starts_with_exec(&p, &chars_of("a/")) {
        p = slice_chars(&p, 2, p.len());
    }
    if starts_with_exec(&p, &chars_of("b/")) {
        p = slice_chars(&p, 2, p.len());
    }
    clean_pack_input_path(string_of(&p).as_str())
}

/// Adds the non-empty `items` that are not yet in `acc`, in order.
pub open spec fn add_new(acc: Seq<Seq<char>>, items: Seq<Seq<char>>) -> Seq<Seq<char>>
    decreases items.len(),
{
    if items.len() == 0 {
        acc
    } else {
        let x = items[0];
        add_new(
            if x.len() == 0 || acc.contains(x) {
                acc
            } else {
                acc.push(x)
            },
            items.drop_first(),
        )
    }
}

/// The cleaned paths of a list, one per line, each once, in order.
pub open spec fn path_list(text: Seq<char>) -> Seq<Seq<char>> {
    add_new(Seq::empty(), split_on(text, '\n').map_values(|l: Seq<char>| clean_input(l)))
}

/// Whether `values` already holds `x`.
fn holds(values: &Vec<String>, x: &Vec<char>) -> (r: bool)
    ensures
        r == views(values@).contains(x@),
{
    let mut i: usize = 0;
    while i < values.len()
        invariant
            i <= values.len(),
            forall|k: int| 0 <= k < i ==> values@[k]@ != x@,
        decreases values.len() - i,
    {
        if chars_eq(&chars_of(values[i].as_str()), x) {
            assert(views(values@)[i as int] == x@);
            return true;
        }
        i = i + 1;
    }
    assert(!views(values@).contains(x@)) by {
        if views(values@).contains(x@) {
            let k = choose|k: int| 0 <= k < views(values@).len() && views(values@)[k] == x@;
            assert(values@[k]@ == x@);
        }
    }
    false
}

/// Adds `x` to `acc` unless it is empty or already there.
fn add_if_new(acc: &mut Vec<String>, x: String)
    ensures
        views(final(acc)@) == add_new(views(old(acc)@), seq![x@]),
{
    let ghost before = views(acc@);
    assert(seq![x@].drop_first() =~= Seq::<Seq<char>>::empty());
    proof {
        reveal_with_fuel(add_new, 2);
    }
    let xs = chars_of(x.as_str());
    if xs.len() == 0 || holds(acc, &xs) {
        return;
    }
    acc.push(x);
    assert(views(acc@) =~= before.push(xs@));
}

/// Folding one more item adds it at the end.
proof fn lemma_add_new_push(acc: Seq<Seq<char>>, items: Seq<Seq<char>>, x: Seq<char>)
    ensures
        add_new(acc, items.push(x)) == add_new(add_new(acc, items), seq![x]),
    decreases items.len(),
{
    if items.len() > 0 {
        let head = items[0];
        let next = if head.len() == 0 || acc.contains(head) {
            acc
        } else {
            acc.push(head)
        };
        assert(items.push(x).drop_first() =~= items.drop_first().push(x));
        lemma_add_new_push(next, items.drop_first(), x);
    } else {
        assert(items.push(x) =~= seq![x]);
    }
}

/// The cleaned paths of a list, one per line (see [`path_list`]).
pub fn parse_pack_path_list(text: &str) -> (r: Vec<String>)
    ensures
        views(r@) == path_list(text@),
{
    let lines = split_on_exec(&chars_of(text), '\n');
    let ghost cleaned = vec_views(lines@).map_values(|l: Seq<char>| clean_input(l));
    let mut out: Vec<String> = Vec::new();
    let mut i: usize = 0;
    assert(views(out@) =~= add_new(Seq::empty(), cleaned.take(0)));
    while i < lines.len()
        invariant
            i <= lines.len(),
            cleaned == vec_views(lines@).map_values(|l: Seq<char>| clean_input(l)),
            views(out@) == add_new(Seq::empty(), cleaned.take(i as int)),
        decreases lines.len() - i,
    {
        let path = clean_pack_input_path(string_of(&lines[i]).as_str());
        assert(path@ == cleaned[i as int]);
        proof {
            assert(cleaned.take(i + 1) =~= cleaned.take(i as int).push(cleaned[i as int]));
            lemma_add_new_push(Seq::empty(), cleaned.take(i as int), cleaned[i as int]);
        }
        add_if_new(&mut out, path);
        i = i + 1;
    }
    assert(cleaned.take(lines.len() as int) =~= cleaned);
    out
}

/// The two paths a `diff --git a b` line names, cleaned; nothing for other
/// lines.
pub open spec fn diff_line_paths(line: Seq<char>) -> Seq<Seq<char>> {
    let f = ws_tokens(line);
    if f.len() < 4 || f[0] != "diff"@ || f[1] != "--git"@ {
        Seq::empty()
    } else {
        seq![clean_diff(f[2]), clean_diff(f[3])]
    }
}

/// The paths of the `diff --git` headers of a diff, each once, in order.
pub open spec fn diff_paths(text: Seq<char>) -> Seq<Seq<char>> {
    add_new(Seq::empty(), diff_paths_all(split_on(text, '\n')))
}

/// The header paths of the lines, in order, repeats included.
pub open spec fn diff_paths_all(lines: Seq<Seq<char>>) -> Seq<Seq<char>>
    decreases lines.len(),
{
    if lines.len() == 0 {
        Seq::empty()
    } else {
        diff_paths_all(lines.drop_last()) + diff_line_paths(lines.last())
    }
}

/// The header paths of a diff (see [`diff_paths`]).
pub fn parse_pack_git_diff_paths(text: &str) -> (r: Vec<String>)
    ensures
        views(r@) == diff_paths(text@),
{
    let lines = split_on_exec(&chars_of(text), '\n');
    let ghost all = vec_views(lines@);
    let mut out: Vec<String> = Vec::new();
    let mut i: usize = 0;
    assert(all.take(0) =~= Seq::<Seq<char>>::empty());
    while i < lines.len()
        invariant
            i <= lines.len(),
            all == vec_views(lines@),
            views(out@) == add_new(Seq::empty(), diff_paths_all(all.take(i as int))),
        decreases lines.len() - i,
    {
        let ghost taken = all.take(i + 1);
        assert(taken.drop_last() =~= all.take(i as int));
        assert(taken.last() == lines@[i as int]@);
        let fields = ws_tokens_exec(&lines[i]);
        let ghost f = vec_views(fields@);
        if fields.len() >= 4 && chars_eq(&fields[0], &chars_of("diff")) && chars_eq(
            &fields[1],
            &chars_of("--git"),
        ) {
            assert(f[0] == fields@[0]@ && f[1] == fields@[1]@);
            let first = clean_pack_diff_path(string_of(&fields[2]).as_str());
            let second = clean_pack_diff_path(string_of(&fields[3]).as_str());
            assert(first@ == clean_diff(f[2]));
            assert(second@ == clean_diff(f[3]));
            proof {
                let prior = diff_paths_all(all.take(i as int));
                lemma_add_new_push(Seq::empty(), prior, first@);
                assert(prior.push(first@).push(second@) =~= prior + seq![first@, second@]);
                lemma_add_new_push(Seq::empty(), prior.push(first@), second@);
            }
            add_if_new(&mut out, first);
            add_if_new(&mut out, second);
        } else {
            proof {
                if f.len() >= 4 {
                    assert(f[0] == fields@[0]@ && f[1] == fields@[1]@);
                }
                assert(diff_line_paths(all[i as int]) =~= Seq::<Seq<char>>::empty());
                assert(diff_paths_all(taken) =~= diff_paths_all(all.take(i as int)));
            }
        }
        i = i + 1;
    }
    assert(all.take(lines.len() as int) =~= all);
    out
}

/// The paths on standard input: the headers of a git diff when the text
/// holds `diff --git `, else a list of paths.
pub open spec fn stdin_paths(text: Seq<char>) -> Seq<Seq<char>> {
    if contains(text, "diff --git "@) {
        diff_paths(text)
    } else {
        path_list(text)
    }
}

/// The paths handed on standard input (see [`stdin_paths`]).
pub fn parse_pack_stdin_paths(text: &str) -> (r: Vec<String>)
    ensures
        views(r@) == stdin_paths(text@),
{
    if contains_exec(&chars_of(text), &chars_of("diff --git ")) {
        parse_pack_git_diff_paths(text)
    } else {
        parse_pack_path_list(text)
    }
}

/// A `--why` path relative to the pack root: trimmed and unquoted, taken
/// relative to `root` when absolute, then cleaned as an input path.
pub open spec fn why_path(raw: Seq<char>, root: Seq<char>) -> Seq<char> {
    let p = trim_quotes(trim(raw));
    let rel = if p.len() > 0 && p[0] == '/' {
        relative_to(root, p)
    } else {
        p
    };
    clean_input(rel)
}

/// Normalizes a `--why` path (see [`why_path`]).
pub fn normalize_pack_why_path(raw: &str, root: &str) -> (r: String)
    ensures
        r@ == why_path(raw@, root@),
{
    let p = trim_quotes_exec(&trim_exec(&chars_of(raw)));
    let ps = string_of(&p);
    if p.len() > 0 && p[0] == '/' {
        let rel = relative_path(root, ps.as_str());
        clean_pack_input_path(rel.as_str())
    } else {
        clean_pack_input_path(ps.as_str())
    }
}

/// The base and head of a `BASE..HEAD` revision range: what precedes the
/// first `..` and what follows it, both non-empty and the head holding no
/// further `..`.
pub open spec fn revspec_parts(s: Seq<char>) -> Option<(Seq<char>, Seq<char>)> {
    if contains(s, ".."@) {
        let i = choose|i: int| is_first_occurrence(s, ".."@, i);
        let base = s.take(i);
        let head = s.skip(i + 2);
        if base.len() == 0 || head.len() == 0 || contains(head, ".."@) {
            None
        } else {
            Some((base, head))
        }
    } else {
        None
    }
}

/// Splits a `--diff` revision range into base and head (see
/// [`revspec_parts`]); any other text is refused.
pub fn parse_diff_revspec(revspec: &str) -> (r: Result<(String, String), String>)
    ensures
        match r {
            Ok((base, head)) => revspec_parts(revspec@) == Some((base@, head@)),
            Err(m) => revspec_parts(revspec@) is None && m@ == "diff revspec must be BASE..HEAD"@,
        },
{
    let s = chars_of(revspec);
    let dots = chars_of("..");
    proof {
        reveal_strlit("..");
    }
    let refused = "diff revspec must be BASE..HEAD";
    match find_exec(&s, &dots) {
        None => Err(string_of(&chars_of(refused))),
        Some(i) => {
            proof {
                let c = choose|k: int| is_first_occurrence(s@, ".."@, k);
                assert(is_first_occurrence(s@, ".."@, c));
                if c < i {
                } else if c > i {
                }
                assert(c == i);
                assert(dots@.len() == 2);
                assert(occurs_at(s@, dots@, i as int));
            }
            let n = s.len();
            assert(i + 2 <= n);
            let base = slice_chars(&s, 0, i);
            let head = slice_chars(&s, i + 2, n);
            assert(base@ =~= s@.take(i as int));
            assert(head@ =~= s@.skip(i + 2));
            if base.len() == 0 || head.len() == 0 || contains_exec(&head, &dots) {
                Err(string_of(&chars_of(refused)))
            } else {
                Ok((string_of(&base), string_of(&head)))
            }
        },
    }
}

} // verus!
