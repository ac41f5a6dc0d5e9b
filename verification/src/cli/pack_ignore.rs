//! Which paths `ctx pack` leaves out: the built-in patterns, the ones given
//! on the command line and those of `.ctxignore`, matched against paths
//! relative to the root.
use vstd::prelude::*;

use crate::paths::{
    components, components_of, is_prefix_components, is_prefix_of, join_slash, join_with_slash,
    rebuild,
};
use crate::text::{
    chars_eq, chars_of, contains, ends_with, ends_with_exec, find_exec, has_char,
    is_first_occurrence, lemma_split_from_nonempty, slice_chars, split_on, split_on_exec,
    starts_with, starts_with_exec, string_of, trim, trim_exec, vec_views, views,
};

verus! {

// ---------------------------------------------------------------------------
// Globs
// ---------------------------------------------------------------------------

/// Consumes the middle pieces of a glob from `rest`, each at its first
/// occurrence; `None` when one does not occur.
pub open spec fn glob_walk(rest: Seq<char>, mids: Seq<Seq<char>>) -> Option<Seq<char>>
    decreases mids.len(),
{
    if mids.len() == 0 {
        Some(rest)
    } else if mids[0].len() == 0 {
        glob_walk(rest, mids.drop_first())
    } else if contains(rest, mids[0]) {
        let k = choose|k: int| is_first_occurrence(rest, mids[0], k);
        glob_walk(rest.skip(k + mids[0].len()), mids.drop_first())
    } else {
        None
    }
}

/// Whether `text` matches the glob `pattern`, whose `*` stands for any run
/// of characters: without `*` the two are equal; else the text starts with
/// the first piece, holds the middle pieces in order, and ends with the
/// last one after them.
pub open spec fn glob(pattern: Seq<char>, text: Seq<char>) -> bool {
    let parts = split_on(pattern, '*');
    if parts.len() <= 1 {
        pattern == text
    } else if !starts_with(text, parts[0]) {
        false
    } else {
        match glob_walk(text.skip(parts[0].len() as int), parts.subrange(1, parts.len() - 1)) {
            None => false,
            Some(rest) => parts.last().len() == 0 || ends_with(rest, parts.last()),
        }
    }
}

/// Whether `text` matches the glob `pattern` (see [`glob`]).
pub fn glob_match(pattern: &str, text: &str) -> (r: bool)
    ensures
        r == glob(pattern@, text@),
{
    let p = chars_of(pattern);
    let t = chars_of(text);
    let parts = split_on_exec(&p, '*');
    proof {
        lemma_split_from_nonempty(Seq::empty(), Seq::empty(), p@, '*');
    }
    let ghost all = vec_views(parts@);
    if parts.len() <= 1 {
        return chars_eq(&p, &t);
    }
    if !starts_with_exec(&t, &parts[0]) {
        return false;
    }
    let mut rest = slice_chars(&t, parts[0].len(), t.len());
    assert(rest@ =~= t@.skip(parts[0]@.len() as int));
    let ghost mids = all.subrange(1, all.len() - 1);
    let mut m: usize = 1;
    assert(mids.skip(0) =~= mids);
    while m + 1 < parts.len()
        invariant
            1 <= m <= parts.len() - 1,
            all == vec_views(parts@),
            all == split_on(pattern@, '*'),
            all.len() > 1,
            t@ == text@,
            starts_with(t@, all[0]),
            mids == all.subrange(1, all.len() - 1),
            glob_walk(t@.skip(all[0].len() as int), mids) == glob_walk(rest@, mids.skip(m - 1)),
        decreases parts.len() - m,
    {
        let ghost tail = mids.skip(m - 1);
        assert(tail[0] == parts@[m as int]@);
        assert(tail.drop_first() =~= mids.skip(m as int));
        let part = &parts[m];
        if part.len() > 0 {
            match find_exec(&rest, part) {
                None => {
                    assert(tail.len() > 0 && tail[0].len() > 0 && !contains(rest@, tail[0]));
                    assert(glob_walk(rest@, tail) is None);
                    return false;
                },
                Some(k) => {
                    proof {
                        let chosen = choose|j: int| is_first_occurrence(rest@, part@, j);
                        assert(is_first_occurrence(rest@, part@, chosen));
                        if chosen < k {
                            assert(!crate::text::occurs_at(rest@, part@, chosen));
                        }
                        if k < chosen {
                            assert(!crate::text::occurs_at(rest@, part@, k as int));
                        }
                    }
                    assert(crate::text::occurs_at(rest@, part@, k as int));
                    let plen = part.len();
                    assert(k + plen <= rest.len());
                    let start: usize = k + plen;
                    let next = slice_chars(&rest, start, rest.len());
                    assert(next@ =~= rest@.skip(k + part@.len()));
                    rest = next;
                },
            }
        }
        m = m + 1;
    }
    assert(mids.skip(m - 1) =~= Seq::<Seq<char>>::empty());
    let last = &parts[parts.len() - 1];
    assert(last@ == all.last());
    last.len() == 0 || ends_with_exec(&rest, last)
}

// ---------------------------------------------------------------------------
// Ignore patterns
// ---------------------------------------------------------------------------

/// `s` without its leading `./` runs.
pub open spec fn strip_dot_slash(s: Seq<char>) -> Seq<char>
    decreases s.len(),
{
    if s.len() >= 2 && s[0] == '.' && s[1] == '/' {
        strip_dot_slash(s.skip(2))
    } else {
        s
    }
}

/// Whether the relative path `rel` falls under the ignore `pattern`, trimmed
/// and without leading `./`: `dir/` matches the directory, what lies under
/// it, and a directory whose path ends with `dir`; `prefix/**` matches the
/// prefix and what lies under it; a pattern without `*` matches the path
/// itself or a path ending in `/pattern`; any other is a glob over the
/// whole path. An empty pattern matches nothing.
pub open spec fn ignore_match(pattern: Seq<char>, rel: Seq<char>, is_dir: bool) -> bool {
    let p = strip_dot_slash(trim(pattern));
    if p.len() == 0 {
        false
    } else if p.last() == '/' {
        let dir = p.drop_last();
        rel == dir || starts_with(rel, dir.push('/')) || (is_dir && ends_with(rel, dir))
    } else if ends_with(p, "/**"@) {
        let prefix = p.take(p.len() - 3);
        rel == prefix || starts_with(rel, prefix.push('/'))
    } else if !has_char(p, '*') {
        rel == p || ends_with(rel, seq!['/'] + p)
    } else {
        glob(p, rel)
    }
}

/// Whether the relative path `rel` falls under `pattern` (see
/// [`ignore_match`]).
pub fn matches_ignore_pattern(pattern: &str, rel: &str, is_dir: bool) -> (r: bool)
    ensures
        r == ignore_match(pattern@, rel@, is_dir),
{
    let mut p = trim_exec(&chars_of(pattern));
    let ghost trimmed = p@;
    let mut from: usize = 0;
    assert(p@.skip(0) =~= p@);
    while p.len() >= 2 && from <= p.len() - 2 && p[from] == '.' && p[from + 1] == '/'
        invariant
            from <= p.len(),
            p@ == trimmed,
            strip_dot_slash(trimmed) == strip_dot_slash(trimmed.skip(from as int)),
        decreases p.len() - from,
    {
        assert(trimmed.skip(from as int).skip(2) =~= trimmed.skip(from + 2));
        from = from + 2;
    }
    let q = slice_chars(&p, from, p.len());
    assert(q@ =~= trimmed.skip(from as int));
    assert(strip_dot_slash(q@) == q@);
    let r = chars_of(rel);
    if q.len() == 0 {
        return false;
    }
    if q[q.len() - 1] == '/' {
        let dir = slice_chars(&q, 0, q.len() - 1);
        assert(dir@ =~= q@.drop_last());
        let mut dir_slash = slice_chars(&q, 0, q.len() - 1);
        dir_slash.push('/');
        return chars_eq(&r, &dir) || starts_with_exec(&r, &dir_slash) || (is_dir && ends_with_exec(
            &r,
            &dir,
        ));
    }
    proof {
        reveal_strlit("/**");
    }
    if ends_with_exec(&q, &chars_of("/**")) {
        let prefix = slice_chars(&q, 0, q.len() - 3);
        let mut prefix_slash = slice_chars(&q, 0, q.len() - 3);
        prefix_slash.push('/');
        return chars_eq(&r, &prefix) || starts_with_exec(&r, &prefix_slash);
    }
    let mut star = false;
    let mut i: usize = 0;
    while i < q.len()
        invariant
            i <= q.len(),
            star == exists|k: int| 0 <= k < i && q@[k] == '*',
        decreases q.len() - i,
    {
        if q[i] == '*' {
            star = true;
        }
        i = i + 1;
    }
    if !star {
        let mut slash_p: Vec<char> = Vec::new();
        slash_p.push('/');
        crate::text::append_chars(&mut slash_p, &q);
        return chars_eq(&r, &q) || ends_with_exec(&r, &slash_p);
    }
    glob_match(string_of(&q).as_str(), rel)
}

/// The patterns every pack leaves out.
pub open spec fn default_ignores() -> Seq<Seq<char>> {
    seq!["node_modules/**"@, "dist/**"@, "coverage/**"@, "*.lock"@, ".git/**"@]
}

/// A `.ctxignore` line that holds a pattern: not blank, not a `#` comment,
/// not a `!` negation.
pub open spec fn pattern_line(line: Seq<char>) -> bool {
    trim(line).len() > 0 && trim(line)[0] != '#' && trim(line)[0] != '!'
}

/// The patterns of `.ctxignore` lines, trimmed, in order.
pub open spec fn ignore_lines(lines: Seq<Seq<char>>) -> Seq<Seq<char>>
    decreases lines.len(),
{
    if lines.len() == 0 {
        Seq::empty()
    } else {
        ignore_lines(lines.drop_last()) + if pattern_line(lines.last()) {
            seq![trim(lines.last())]
        } else {
            Seq::empty()
        }
    }
}

/// The ignore patterns of a pack.
#[derive(Debug, Clone, PartialEq, Eq)]
pub struct PackIgnore {
    pub patterns: Vec<String>,
}

impl PackIgnore {
    /// The patterns of a pack: the built-in ones, then `extra`, then, when
    /// `.ctxignore` is read, the pattern lines of its `ctxignore` text.
    pub fn from_sources(extra: &[String], ctxignore: Option<&str>) -> (r: PackIgnore)
        ensures
            views(r.patterns@) == default_ignores() + views(extra@) + match ctxignore {
                Some(body) => ignore_lines(split_on(body@, '\n')),
                None => Seq::empty(),
            },
    {
        let mut patterns: Vec<String> = Vec::new();
        patterns.push("node_modules/**".to_owned());
        patterns.push("dist/**".to_owned());
        patterns.push("coverage/**".to_owned());
        patterns.push("*.lock".to_owned());
        patterns.push(".git/**".to_owned());
        assert(views(patterns@) =~= default_ignores());
        let mut i: usize = 0;
        while i < extra.len()
            invariant
                i <= extra.len(),
                views(patterns@) == default_ignores() + views(extra@).take(i as int),
            decreases extra.len() - i,
        {
            let ghost before = views(patterns@);
            patterns.push(extra[i].clone());
            assert(views(patterns@) =~= before.push(extra@[i as int]@));
            assert(views(extra@).take(i + 1) =~= views(extra@).take(i as int).push(
                extra@[i as int]@,
            ));
            i = i + 1;
        }
        assert(views(extra@).take(extra.len() as int) =~= views(extra@));
        let ghost base = views(patterns@);
        match ctxignore {
            None => {
                assert(views(patterns@) =~= base + Seq::<Seq<char>>::empty());
            },
            Some(body) => {
                let lines = split_on_exec(&chars_of(body), '\n');
                let ghost all = vec_views(lines@);
                let mut j: usize = 0;
                assert(all.take(0) =~= Seq::<Seq<char>>::empty());
                assert(base + ignore_lines(all.take(0)) =~= base);
                while j < lines.len()
                    invariant
                        j <= lines.len(),
                        all == vec_views(lines@),
                        views(patterns@) == base + ignore_lines(all.take(j as int)),
                    decreases lines.len() - j,
                {
                    let ghost before = views(patterns@);
                    assert(all.take(j + 1).drop_last() =~= all.take(j as int));
                    assert(all.take(j + 1).last() == lines@[j as int]@);
                    let t = trim_exec(&lines[j]);
                    if t.len() > 0 && t[0] != '#' && t[0] != '!' {
                        patterns.push(string_of(&t));
                        assert(views(patterns@) =~= before.push(t@));
                        assert(base + ignore_lines(all.take(j + 1)) =~= before + seq![t@]);
                    } else {
                        assert(base + ignore_lines(all.take(j + 1)) =~= before);
                    }
                    j = j + 1;
                }
                assert(all.take(lines.len() as int) =~= all);
            },
        }
        PackIgnore { patterns }
    }

    /// Whether the relative path `rel` falls under one of the patterns.
    pub fn is_ignored_rel(&self, rel: &str, is_dir: bool) -> (r: bool)
        ensures
            r == exists|k: int|
                0 <= k < self.patterns.len() && ignore_match(
                    #[trigger] self.patterns@[k]@,
                    rel@,
                    is_dir,
                ),
    {
        let mut i: usize = 0;
        while i < self.patterns.len()
            invariant
                i <= self.patterns.len(),
                forall|k: int|
                    0 <= k < i ==> !ignore_match(#[trigger] self.patterns@[k]@, rel@, is_dir),
            decreases self.patterns.len() - i,
        {
            if matches_ignore_pattern(self.patterns[i].as_str(), rel, is_dir) {
                return true;
            }
            i = i + 1;
        }
        false
    }

    /// Whether `path` falls under one of the patterns, read relative to
    /// `root` when it lies under it (with `\` read as `/`).
    pub fn is_ignored(&self, root: &str, path: &str, is_dir: bool) -> (r: bool)
        ensures
            r == exists|k: int|
                0 <= k < self.patterns.len() && ignore_match(
                    #[trigger] self.patterns@[k]@,
                    slashed(relative_to(root@, path@)),
                    is_dir,
                ),
    {
        let rel = relative_path(root, path);
        let mut v = chars_of(rel.as_str());
        let mut i: usize = 0;
        while i < v.len()
            invariant
                i <= v.len(),
                v.len() == rel@.len(),
                forall|k: int| 0 <= k < i ==> v@[k] == slashed(rel@)[k],
                forall|k: int| i <= k < v.len() ==> v@[k] == rel@[k],
            decreases v.len() - i,
        {
            if v[i] == '\\' {
                v.set(i, '/');
            }
            i = i + 1;
        }
        assert(v@ =~= slashed(rel@));
        self.is_ignored_rel(string_of(&v).as_str(), is_dir)
    }
}

/// `s` with every `\` read as `/`.
pub open spec fn slashed(s: Seq<char>) -> Seq<char> {
    s.map_values(|c: char| if c == '\\' { '/' } else { c })
}

/// `path` relative to `root` when its components begin with those of
/// `root` (the rest, rebuilt); else `path` unchanged.
pub open spec fn relative_to(root: Seq<char>, path: Seq<char>) -> Seq<char> {
    let rc = components(root);
    let pc = components(path);
    if is_prefix_of(rc, pc) {
        rebuild(pc.skip(rc.len() as int))
    } else {
        path
    }
}

/// The path a sequence of components builds (see [`rebuild`]).
pub fn rebuild_path(cs: &Vec<Vec<char>>) -> (r: Vec<char>)
    ensures
        r@ == rebuild(vec_views(cs@)),
{
    if cs.len() > 0 && cs[0].len() == 1 && cs[0][0] == '/' {
        assert(cs@[0]@ =~= seq!['/']);
        let mut rest: Vec<Vec<char>> = Vec::new();
        let mut k: usize = 1;
        while k < cs.len()
            invariant
                1 <= k <= cs.len(),
                vec_views(rest@) == vec_views(cs@).subrange(1, k as int),
            decreases cs.len() - k,
        {
            let ghost before = vec_views(rest@);
            let mut piece: Vec<char> = Vec::new();
            crate::text::append_chars(&mut piece, &cs[k]);
            rest.push(piece);
            assert(vec_views(rest@) =~= before.push(cs@[k as int]@));
            assert(vec_views(cs@).subrange(1, k + 1) =~= vec_views(cs@).subrange(1, k as int).push(
                vec_views(cs@)[k as int],
            ));
            k = k + 1;
        }
        assert(vec_views(cs@).subrange(1, cs.len() as int) =~= vec_views(cs@).drop_first());
        let mut out: Vec<char> = Vec::new();
        out.push('/');
        crate::text::append_chars(&mut out, &join_with_slash(&rest));
        out
    } else {
        proof {
            if cs.len() > 0 && cs@[0]@ == seq!['/'] {
                assert(cs@[0]@.len() == 1);
            }
        }
        join_with_slash(cs)
    }
}

/// `path` relative to `root` (see [`relative_to`]).
pub fn relative_path(root: &str, path: &str) -> (r: String)
    ensures
        r@ == relative_to(root@, path@),
{
    let rc = components_of(&chars_of(root));
    let pc = components_of(&chars_of(path));
    if !is_prefix_components(&rc, &pc) {
        return path.to_owned();
    }
    let mut rest: Vec<Vec<char>> = Vec::new();
    let mut k: usize = rc.len();
    while k < pc.len()
        invariant
            rc.len() <= k <= pc.len(),
            vec_views(rest@) == vec_views(pc@).subrange(rc.len() as int, k as int),
        decreases pc.len() - k,
    {
        let ghost before = vec_views(rest@);
        let mut piece: Vec<char> = Vec::new();
        crate::text::append_chars(&mut piece, &pc[k]);
        rest.push(piece);
        assert(vec_views(rest@) =~= before.push(pc@[k as int]@));
        assert(vec_views(pc@).subrange(rc.len() as int, k + 1) =~= vec_views(pc@).subrange(
            rc.len() as int,
            k as int,
        ).push(vec_views(pc@)[k as int]));
        k = k + 1;
    }
    assert(vec_views(pc@).subrange(rc.len() as int, pc.len() as int) =~= vec_views(pc@).skip(
        rc.len() as int,
    ));
    string_of(&rebuild_path(&rest))
}

/// Text without the separator splits into itself alone.
pub(crate) proof fn lemma_split_without_sep(done: Seq<Seq<char>>, cur: Seq<char>, rest: Seq<char>, sep: char)
    requires
        forall|i: int| 0 <= i < rest.len() ==> rest[i] != sep,
    ensures
        crate::text::split_from(done, cur, rest, sep) == done.push(cur + rest),
    decreases rest.len(),
{
    if rest.len() == 0 {
        assert(cur + rest =~= cur);
    } else {
        assert(cur.push(rest[0]) + rest.drop_first() =~= cur + rest);
        lemma_split_without_sep(done, cur.push(rest[0]), rest.drop_first(), sep);
    }
}

/// A pattern without `*` matches exactly the text equal to it.
pub proof fn law_glob_without_star(pattern: Seq<char>, text: Seq<char>)
    requires
        forall|i: int| 0 <= i < pattern.len() ==> pattern[i] != '*',
    ensures
        glob(pattern, text) == (pattern == text),
{
    lemma_split_without_sep(Seq::empty(), Seq::empty(), pattern, '*');
    assert(Seq::<char>::empty() + pattern =~= pattern);
}

/// The pattern `*` matches every text.
pub proof fn law_glob_star_matches_all(text: Seq<char>)
    ensures
        glob(seq!['*'], text),
{
    let p = seq!['*'];
    assert(p.drop_first() =~= Seq::<char>::empty());
    let e = Seq::<char>::empty();
    assert(p[0] == '*');
    assert(crate::text::split_from(Seq::<Seq<char>>::empty(), e, p, '*') == crate::text::split_from(
        Seq::<Seq<char>>::empty().push(e),
        e,
        p.drop_first(),
        '*',
    ));
    assert(crate::text::split_from(Seq::<Seq<char>>::empty().push(e), e, e, '*') == Seq::<
        Seq<char>,
    >::empty().push(e).push(e));
    assert(split_on(p, '*') =~= seq![e, e]);
    let parts = split_on(p, '*');
    assert(parts.subrange(1, 1) =~= Seq::<Seq<char>>::empty());
    assert(text.skip(0) =~= text);
    assert(starts_with(text, parts[0])) by {
        assert(text.subrange(0, 0) =~= Seq::<char>::empty());
    }
}

/// Trimming leaves text alone whose ends are not whitespace.
proof fn lemma_trim_keeps(s: Seq<char>)
    requires
        s.len() > 0,
        !crate::text::is_ws(s[0]),
        !crate::text::is_ws(s.last()),
    ensures
        trim(s) == s,
{
    assert(crate::text::trim_start(s) == s);
}

/// A pattern `prefix/**` (written as is: no blank or `./` in front, and
/// not `./**`) ignores exactly `prefix` itself and the paths
/// under it: a path is matched when it equals the prefix or continues it
/// with `/`. A path that merely begins with the prefix's characters, such
/// as `distribution/x` for `dist/**`, is not.
pub proof fn law_prefix_pattern(prefix: Seq<char>, rel: Seq<char>, is_dir: bool)
    requires
        prefix.len() > 0,
        !crate::text::is_ws(prefix[0]),
        !(prefix[0] == '.' && (prefix.len() == 1 || prefix[1] == '/')),
    ensures
        ignore_match(prefix + "/**"@, rel, is_dir) == (rel == prefix || (rel.len() > prefix.len()
            && rel.take(prefix.len() as int) == prefix && rel[prefix.len() as int] == '/')),
{
    reveal_strlit("/**");
    let p = prefix + "/**"@;
    assert(p[0] == prefix[0]);
    assert(p.last() == '*');
    lemma_trim_keeps(p);
    assert(strip_dot_slash(p) == p) by {
        if prefix.len() == 1 {
            assert(p[1] == '/');
        } else {
            assert(p[1] == prefix[1]);
        }
    }
    assert(p.subrange(p.len() - 3, p.len() as int) =~= "/**"@);
    assert(p.take(p.len() - 3) =~= prefix);
    let ps = prefix.push('/');
    assert(ends_with(p, "/**"@));
    assert(strip_dot_slash(trim(p)) == p);
    assert(ignore_match(p, rel, is_dir) == (rel == prefix || starts_with(rel, ps)));
    if rel.len() > prefix.len() && rel.take(prefix.len() as int) == prefix && rel[prefix.len() as int] == '/' {
        assert(rel.subrange(0, ps.len() as int) =~= ps);
    }
    if starts_with(rel, ps) {
        let k = prefix.len() as int;
        let head = rel.subrange(0, ps.len() as int);
        assert(head == ps);
        assert(rel.take(k) =~= head.take(k));
        assert(ps.take(k) =~= prefix);
        assert(rel[k] == head[k]);
        assert(ps[k] == '/');
    }
}

} // verus!
