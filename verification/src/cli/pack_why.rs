//! The explanations `ctx pack --why` gives: how far a file's name is from
//! the goal's keywords, and how far its score is from the next threshold.
use vstd::prelude::*;

use crate::paths::{components, components_of};
use crate::text::{chars_of, contains, contains_exec, lower, string_of, vec_views, views};

verus! {

// ---------------------------------------------------------------------------
// Edit distance
// ---------------------------------------------------------------------------

/// The Levenshtein distance between `a` and `b`: the fewest single-character
/// insertions, deletions and substitutions that turn one into the other.
pub open spec fn edit_distance(a: Seq<char>, b: Seq<char>) -> nat
    decreases a.len() + b.len(),
{
    if a.len() == 0 {
        b.len()
    } else if b.len() == 0 {
        a.len()
    } else if a.last() == b.last() {
        edit_distance(a.drop_last(), b.drop_last())
    } else {
        let sub = edit_distance(a.drop_last(), b.drop_last());
        let del = edit_distance(a.drop_last(), b);
        let ins = edit_distance(a, b.drop_last());
        1 + if sub <= del && sub <= ins {
            sub
        } else if del <= ins {
            del
        } else {
            ins
        }
    }
}

/// The distance never exceeds the longer length.
pub proof fn lemma_edit_distance_bound(a: Seq<char>, b: Seq<char>)
    ensures
        edit_distance(a, b) <= if a.len() >= b.len() {
            a.len()
        } else {
            b.len()
        },
    decreases a.len() + b.len(),
{
    if a.len() > 0 && b.len() > 0 {
        lemma_edit_distance_bound(a.drop_last(), b.drop_last());
    }
}

/// The Levenshtein distance between `a` and `b` (see [`edit_distance`]),
/// one row of the distance table at a time.
pub fn levenshtein(a: &str, b: &str) -> (r: usize)
    ensures
        r == edit_distance(a@, b@),
{
    let av = chars_of(a);
    let bv = chars_of(b);
    let n = av.len();
    let m = bv.len();
    let mut costs: Vec<usize> = Vec::new();
    let mut j: usize = 0;
    while j < m
        invariant
            j <= m,
            m == bv.len(),
            costs.len() == j,
            forall|k: int| 0 <= k < j ==> costs@[k] == k,
        decreases m - j,
    {
        costs.push(j);
        j = j + 1;
    }
    costs.push(m);
    assert forall|k: int| 0 <= k <= m implies costs@[k] == edit_distance(
        av@.take(0),
        #[trigger] bv@.take(k),
    ) by {
        assert(av@.take(0).len() == 0);
    }
    let mut i: usize = 0;
    while i < n
        invariant
            i <= n,
            n == av.len(),
            m == bv.len(),
            costs.len() == m + 1,
            forall|k: int| 0 <= k <= m ==> costs@[k] == edit_distance(av@.take(i as int), #[trigger] bv@.take(k)),
        decreases n - i,
    {
        let ca = av[i];
        let ghost row = av@.take(i + 1);
        assert(row.drop_last() =~= av@.take(i as int));
        assert(row.last() == ca);
        let mut prev = costs[0];
        assert(bv@.take(0).len() == 0);
        costs.set(0, i + 1);
        let mut jj: usize = 0;
        while jj < m
            invariant
                i < n,
                n == av.len(),
                m == bv.len(),
                jj <= m,
                costs.len() == m + 1,
                row == av@.take(i + 1),
                row.drop_last() == av@.take(i as int),
                row.last() == ca,
                prev == edit_distance(av@.take(i as int), bv@.take(jj as int)),
                forall|k: int| 0 <= k <= jj ==> costs@[k] == edit_distance(row, #[trigger] bv@.take(k)),
                forall|k: int|
                    jj < k <= m ==> costs@[k] == edit_distance(av@.take(i as int), #[trigger] bv@.take(k)),
            decreases m - jj,
        {
            let cb = bv[jj];
            let ghost col = bv@.take(jj + 1);
            assert(col.drop_last() =~= bv@.take(jj as int));
            assert(col.last() == cb);
            let old = costs[jj + 1];
            proof {
                lemma_edit_distance_bound(av@.take(i as int), bv@.take(jj as int));
            }
            let next = if ca == cb {
                prev
            } else {
                let left = costs[jj];
                let smallest = if prev <= left && prev <= old {
                    prev
                } else if left <= old {
                    left
                } else {
                    old
                };
                1 + smallest
            };
            costs.set(jj + 1, next);
            prev = old;
            jj = jj + 1;
        }
        i = i + 1;
    }
    assert(av@.take(n as int) =~= av@);
    assert(bv@.take(m as int) =~= bv@);
    costs[m]
}

// ---------------------------------------------------------------------------
// Keywords and tokens
// ---------------------------------------------------------------------------

/// Names what `str::to_lowercase` returns for `s`: its Unicode lowercase
/// form.
pub uninterp spec fn lowercase(s: Seq<char>) -> Seq<char>;

/// Calls `str::to_lowercase`. Its result is a function of the text alone,
/// named [`lowercase`]; for ASCII text std documents it as the ASCII
/// lowering, which the contract states too.
#[verifier::external_body]
pub fn to_lowercase(s: &str) -> (r: String)
    ensures
        r@ == lowercase(s@),
        (forall|i: int| 0 <= i < s@.len() ==> (s@[i] as u32) < 128) ==> r@ == lower(s@),
{
    s.to_lowercase()
}

/// The best keyword found so far and its distance, over the pairs read.
pub open spec fn closer(best: Option<(Seq<char>, nat)>, keyword: Seq<char>, d: nat) -> Option<
    (Seq<char>, nat),
> {
    if d == 0 {
        best
    } else {
        match best {
            None => Some((keyword, d)),
            Some((_, bd)) => if d < bd {
                Some((keyword, d))
            } else {
                best
            },
        }
    }
}

/// The best pair after `keyword` is tried against `tokens`, in order.
pub open spec fn over_tokens(
    best: Option<(Seq<char>, nat)>,
    keyword: Seq<char>,
    tokens: Seq<Seq<char>>,
) -> Option<(Seq<char>, nat)>
    decreases tokens.len(),
{
    if tokens.len() == 0 {
        best
    } else {
        over_tokens(
            closer(best, keyword, edit_distance(keyword, tokens[0])),
            keyword,
            tokens.drop_first(),
        )
    }
}

/// The best pair after every keyword is tried against every token, keyword
/// by keyword.
pub open spec fn over_keywords(
    best: Option<(Seq<char>, nat)>,
    keywords: Seq<Seq<char>>,
    tokens: Seq<Seq<char>>,
) -> Option<(Seq<char>, nat)>
    decreases keywords.len(),
{
    if keywords.len() == 0 {
        best
    } else {
        over_keywords(over_tokens(best, keywords[0], tokens), keywords.drop_first(), tokens)
    }
}

/// The keyword nearest to a name token, not counting exact matches: the
/// first pair with the smallest positive distance, keywords tried in order
/// and tokens in order for each; the empty keyword and 0 when no pair
/// differs.
pub open spec fn nearest(tokens: Seq<Seq<char>>, keywords: Seq<Seq<char>>) -> (Seq<char>, int) {
    match over_keywords(None, keywords, tokens) {
        None => (Seq::empty(), 0),
        Some((k, d)) => (k, (d as i64) as int),
    }
}

/// The keyword nearest to the name tokens (see [`nearest`]).
pub fn nearest_keyword_over(name_tokens: &[String], keywords: &[String]) -> (r: (String, i64))
    ensures
        (r.0@, r.1 as int) == nearest(views(name_tokens@), views(keywords@)),
{
    let ghost toks = views(name_tokens@);
    let ghost kws = views(keywords@);
    let mut best = String::new();
    let mut best_dist: Option<usize> = None;
    let mut ki: usize = 0;
    assert(kws.skip(0) =~= kws);
    while ki < keywords.len()
        invariant
            ki <= keywords.len(),
            toks == views(name_tokens@),
            kws == views(keywords@),
            over_keywords(None, kws, toks) == over_keywords(
                match best_dist {
                    None => None,
                    Some(d) => Some((best@, d as nat)),
                },
                kws.skip(ki as int),
                toks,
            ),
        decreases keywords.len() - ki,
    {
        let keyword = &keywords[ki];
        assert(kws.skip(ki as int)[0] == keyword@);
        assert(kws.skip(ki as int).drop_first() =~= kws.skip(ki + 1));
        let mut ti: usize = 0;
        assert(toks.skip(0) =~= toks);
        while ti < name_tokens.len()
            invariant
                ki < keywords.len(),
                ti <= name_tokens.len(),
                toks == views(name_tokens@),
                kws == views(keywords@),
                keyword@ == kws[ki as int],
                over_keywords(None, kws, toks) == over_keywords(
                    over_tokens(
                        match best_dist {
                            None => None,
                            Some(d) => Some((best@, d as nat)),
                        },
                        keyword@,
                        toks.skip(ti as int),
                    ),
                    kws.skip(ki + 1),
                    toks,
                ),
            decreases name_tokens.len() - ti,
        {
            let token = &name_tokens[ti];
            assert(toks.skip(ti as int)[0] == token@);
            assert(toks.skip(ti as int).drop_first() =~= toks.skip(ti + 1));
            let dist = levenshtein(keyword.as_str(), token.as_str());
            if dist != 0 {
                let better = match best_dist {
                    None => true,
                    Some(current) => dist < current,
                };
                if better {
                    best = keyword.clone();
                    best_dist = Some(dist);
                }
            }
            ti = ti + 1;
        }
        assert(toks.skip(ti as int) =~= Seq::<Seq<char>>::empty());
        ki = ki + 1;
    }
    assert(kws.skip(ki as int) =~= Seq::<Seq<char>>::empty());
    match best_dist {
        None => (String::new(), 0),
        Some(d) => (best, d as i64),
    }
}

/// The final component of a path, when it names a file.
pub open spec fn file_name_of(path: Seq<char>) -> Option<Seq<char>> {
    let cs = components(path);
    if cs.len() == 0 || cs.last() == seq!['/'] || cs.last() == seq!['.'] || cs.last() == seq![
        '.',
        '.',
    ] {
        None
    } else {
        Some(cs.last())
    }
}

/// The position of the last `.` of a name, or -1.
pub open spec fn last_dot(name: Seq<char>) -> int
    decreases name.len(),
{
    if name.len() == 0 {
        -1
    } else if name.last() == '.' {
        name.len() - 1
    } else {
        last_dot(name.drop_last())
    }
}

/// A file name without its extension: the part before the last `.`, unless
/// that `.` begins the name.
pub open spec fn stem_of(name: Seq<char>) -> Seq<char> {
    if last_dot(name) <= 0 {
        name
    } else {
        name.take(last_dot(name))
    }
}

/// The components of a path's parent directory; none for a path without
/// one.
pub open spec fn parent_parts(path: Seq<char>) -> Seq<Seq<char>> {
    let cs = components(path);
    if cs.len() == 0 || cs.last() == seq!['/'] {
        Seq::empty()
    } else {
        cs.drop_last()
    }
}

/// The lowercased non-empty, non-`.` parts, in order.
pub open spec fn dir_tokens(parts: Seq<Seq<char>>) -> Seq<Seq<char>>
    decreases parts.len(),
{
    if parts.len() == 0 {
        Seq::empty()
    } else {
        let t = lowercase(parts.last());
        dir_tokens(parts.drop_last()) + if t.len() > 0 && t != seq!['.'] {
            seq![t]
        } else {
            Seq::empty()
        }
    }
}

/// The name tokens of a path: its file stem, lowercased, then the
/// components of its parent directory, lowercased.
pub open spec fn name_tokens(path: Seq<char>) -> Seq<Seq<char>> {
    stem_tokens(path) + dir_tokens(parent_parts(path))
}

/// The lowercased file stem of a path, when it has a non-empty one.
pub open spec fn stem_tokens(path: Seq<char>) -> Seq<Seq<char>> {
    match file_name_of(path) {
        Some(name) => if stem_of(name).len() > 0 {
            seq![lowercase(stem_of(name))]
        } else {
            Seq::empty()
        },
        None => Seq::empty(),
    }
}

/// The name tokens of a path (see [`name_tokens`]).
pub fn name_tokens_for_path(path: &str) -> (r: Vec<String>)
    ensures
        views(r@) == name_tokens(path@),
{
    let cs = components_of(&chars_of(path));
    let ghost all = vec_views(cs@);
    let mut tokens: Vec<String> = Vec::new();
    let n = cs.len();
    if n > 0 {
        let last = &cs[n - 1];
        assert(last@ == all.last());
        let is_root = last.len() == 1 && last[0] == '/';
        let is_dot = last.len() == 1 && last[0] == '.';
        let is_dotdot = last.len() == 2 && last[0] == '.' && last[1] == '.';
        proof {
            if is_root {
                assert(last@ =~= seq!['/']);
            }
            if is_dot {
                assert(last@ =~= seq!['.']);
            }
            if is_dotdot {
                assert(last@ =~= seq!['.', '.']);
            }
            if last@ == seq!['/'] || last@ == seq!['.'] {
                assert(last@.len() == 1);
            }
            if last@ == seq!['.', '.'] {
                assert(last@.len() == 2 && last@[0] == '.' && last@[1] == '.');
            }
        }
        if !is_root && !is_dot && !is_dotdot {
            let mut dot: usize = last.len();
            let mut k: usize = last.len();
            assert(last@.take(last.len() as int) =~= last@);
            while k > 0
                invariant
                    k <= last.len(),
                    dot <= last.len(),
                    dot == last.len() ==> last_dot(last@) == last_dot(last@.take(k as int)),
                    dot < last.len() ==> dot == last_dot(last@),
                decreases k,
            {
                if dot == last.len() {
                    assert(last@.take(k as int).drop_last() =~= last@.take(k - 1));
                    if last[k - 1] == '.' {
                        dot = k - 1;
                    }
                }
                k = k - 1;
            }
            if dot == last.len() {
                assert(last@.take(0) =~= Seq::<char>::empty());
            }
            let stem = if dot == last.len() || dot == 0 {
                crate::text::slice_chars(last, 0, last.len())
            } else {
                crate::text::slice_chars(last, 0, dot)
            };
            proof {
                if dot == last.len() || dot == 0 {
                    assert(stem@ =~= last@);
                } else {
                    assert(stem@ =~= last@.take(dot as int));
                }
                assert(file_name_of(path@) == Some(last@));
                assert(stem@ == stem_of(last@));
            }
            if stem.len() > 0 {
                let low = to_lowercase(string_of(&stem).as_str());
                tokens.push(low);
                assert(views(tokens@) =~= seq![lowercase(stem@)]);
            } else {
                assert(views(tokens@) =~= Seq::<Seq<char>>::empty());
            }
        } else {
            assert(file_name_of(path@) is None);
            assert(views(tokens@) =~= Seq::<Seq<char>>::empty());
        }
    } else {
        assert(views(tokens@) =~= Seq::<Seq<char>>::empty());
    }
    let ghost head = views(tokens@);
    assert(head == stem_tokens(path@));
    if n > 0 && !(cs[n - 1].len() == 1 && cs[n - 1][0] == '/') {
        proof {
            if cs@[n - 1]@ == seq!['/'] {
                assert(cs@[n - 1]@.len() == 1);
            }
        }
        let ghost parents = all.drop_last();
        let mut k: usize = 0;
        assert(parents.take(0) =~= Seq::<Seq<char>>::empty());
        assert(head + dir_tokens(parents.take(0)) =~= head);
        while k + 1 < n
            invariant
                n == cs.len(),
                n > 0,
                k + 1 <= n,
                all == vec_views(cs@),
                parents == all.drop_last(),
                views(tokens@) == head + dir_tokens(parents.take(k as int)),
            decreases n - k,
        {
            let ghost before = views(tokens@);
            assert(parents.take(k + 1).drop_last() =~= parents.take(k as int));
            assert(parents.take(k + 1).last() == cs@[k as int]@);
            let t = to_lowercase(string_of(&cs[k]).as_str());
            let tv = chars_of(t.as_str());
            if tv.len() > 0 && !(tv.len() == 1 && tv[0] == '.') {
                proof {
                    if tv@ == seq!['.'] {
                        assert(tv@.len() == 1);
                    }
                }
                tokens.push(t);
                assert(views(tokens@) =~= before.push(tv@));
                assert(head + dir_tokens(parents.take(k + 1)) =~= before + seq![tv@]);
            } else {
                proof {
                    if tv.len() == 1 && tv[0] == '.' {
                        assert(tv@ =~= seq!['.']);
                    }
                }
                assert(head + dir_tokens(parents.take(k + 1)) =~= before);
            }
            k = k + 1;
        }
        assert(parents.take(k as int) =~= parents);
    } else {
        assert(head + dir_tokens(Seq::<Seq<char>>::empty()) =~= head);
    }
    tokens
}

/// The keyword nearest to the name tokens of `path` (see [`nearest`]).
pub fn nearest_keyword_for_path(path: &str, keywords: &[String]) -> (r: (String, i64))
    ensures
        (r.0@, r.1 as int) == nearest(name_tokens(path@), views(keywords@)),
{
    let tokens = name_tokens_for_path(path);
    nearest_keyword_over(&tokens, keywords)
}

// ---------------------------------------------------------------------------
// Scores
// ---------------------------------------------------------------------------

/// How far a score is from the next threshold, and that threshold's name:
/// nothing from 10 on, `high` (10) from 3 on, else `medium` (3).
pub fn threshold_gap_for_score(score: i64) -> (r: (i64, String))
    requires
        score >= i64::MIN + 4,
    ensures
        score >= 10 ==> r.0 == 0 && r.1@ == Seq::<char>::empty(),
        3 <= score < 10 ==> r.0 == 10 - score && r.1@ == "high"@,
        score < 3 ==> r.0 == 3 - score && r.1@ == "medium"@,
{
    if score >= 10 {
        (0, String::new())
    } else if score >= 3 {
        (10 - score, "high".to_owned())
    } else {
        (3 - score, "medium".to_owned())
    }
}

/// `reason`, or `fallback` when `reason` is empty.
pub fn default_reason<'a>(reason: &'a str, fallback: &'a str) -> (r: &'a str)
    ensures
        r@ == (if reason@.len() == 0 {
            fallback@
        } else {
            reason@
        }),
{
    if chars_of(reason).len() == 0 {
        fallback
    } else {
        reason
    }
}

/// The edit distance does not depend on the order of its arguments.
pub proof fn law_edit_distance_symmetric(a: Seq<char>, b: Seq<char>)
    ensures
        edit_distance(a, b) == edit_distance(b, a),
    decreases a.len() + b.len(),
{
    if a.len() > 0 && b.len() > 0 {
        law_edit_distance_symmetric(a.drop_last(), b.drop_last());
        law_edit_distance_symmetric(a.drop_last(), b);
        law_edit_distance_symmetric(a, b.drop_last());
    }
}

/// A text is at distance zero from itself.
pub proof fn law_edit_distance_identity(a: Seq<char>)
    ensures
        edit_distance(a, a) == 0,
    decreases a.len(),
{
    if a.len() > 0 {
        law_edit_distance_identity(a.drop_last());
    }
}

// ---------------------------------------------------------------------------
// Files with symbols
// ---------------------------------------------------------------------------

/// The lowercased names of a file's symbols, empty ones left out.
pub open spec fn symbol_tokens(names: Seq<Seq<char>>) -> Seq<Seq<char>>
    decreases names.len(),
{
    if names.len() == 0 {
        Seq::empty()
    } else {
        symbol_tokens(names.drop_last()) + if lowercase(names.last()).len() > 0 {
            seq![lowercase(names.last())]
        } else {
            Seq::<Seq<char>>::empty()
        }
    }
}

/// The keyword nearest to a file: its path's name tokens followed by its
/// lowercased symbol names (see [`nearest`]).
pub fn nearest_keyword_for_input(path: &str, symbol_names: &[String], keywords: &[String]) -> (r: (
    String,
    i64,
))
    ensures
        (r.0@, r.1 as int) == nearest(
            name_tokens(path@) + symbol_tokens(views(symbol_names@)),
            views(keywords@),
        ),
{
    let mut tokens = name_tokens_for_path(path);
    let ghost head = views(tokens@);
    let ghost names = views(symbol_names@);
    let mut i: usize = 0;
    assert(names.take(0) =~= Seq::<Seq<char>>::empty());
    assert(head + symbol_tokens(names.take(0)) =~= head);
    while i < symbol_names.len()
        invariant
            i <= symbol_names.len(),
            names == views(symbol_names@),
            views(tokens@) == head + symbol_tokens(names.take(i as int)),
        decreases symbol_names.len() - i,
    {
        assert(names.take(i + 1).drop_last() =~= names.take(i as int));
        assert(names.take(i + 1).last() == symbol_names@[i as int]@);
        let name = to_lowercase(symbol_names[i].as_str());
        let ghost before = tokens@;
        if !name.as_str().is_empty() {
            tokens.push(name);
            assert(views(tokens@) =~= views(before).push(name@));
        }
        i = i + 1;
        assert(views(tokens@) =~= head + symbol_tokens(names.take(i as int)));
    }
    assert(names.take(symbol_names.len() as int) =~= names);
    nearest_keyword_over(&tokens, keywords)
}

/// Some keyword occurs in the lowercased path of a file or in one of its
/// lowercased symbol names.
pub open spec fn exact_keyword_match(path: Seq<char>, names: Seq<Seq<char>>, keywords: Seq<Seq<char>>) -> bool {
    exists|k: int|
        0 <= k < keywords.len() && (contains(lowercase(path), #[trigger] keywords[k]) || exists|
            j: int,
        |
            0 <= j < names.len() && contains(lowercase(#[trigger] names[j]), keywords[k]))
}

/// Whether some keyword occurs in the file's path or a symbol name (see
/// [`exact_keyword_match`]).
pub fn has_exact_keyword_match(path: &str, symbol_names: &[String], keywords: &[String]) -> (r: bool)
    ensures
        r == exact_keyword_match(path@, views(symbol_names@), views(keywords@)),
{
    let lpath = chars_of(to_lowercase(path).as_str());
    let mut lnames: Vec<Vec<char>> = Vec::new();
    let mut j: usize = 0;
    while j < symbol_names.len()
        invariant
            j <= symbol_names.len(),
            lnames.len() == j,
            forall|q: int| 0 <= q < j ==> #[trigger] lnames@[q]@ == lowercase(symbol_names@[q]@),
        decreases symbol_names.len() - j,
    {
        lnames.push(chars_of(to_lowercase(symbol_names[j].as_str()).as_str()));
        j = j + 1;
    }
    let ghost names = views(symbol_names@);
    let ghost kws = views(keywords@);
    let mut k: usize = 0;
    while k < keywords.len()
        invariant
            k <= keywords.len(),
            lnames.len() == symbol_names.len(),
            lpath@ == lowercase(path@),
            names == views(symbol_names@),
            kws == views(keywords@),
            forall|q: int| 0 <= q < lnames.len() ==> #[trigger] lnames@[q]@ == lowercase(symbol_names@[q]@),
            forall|x: int|
                0 <= x < k ==> !(contains(lowercase(path@), #[trigger] kws[x]) || exists|y: int|
                    0 <= y < names.len() && contains(lowercase(#[trigger] names[y]), kws[x])),
        decreases keywords.len() - k,
    {
        let kw = chars_of(keywords[k].as_str());
        assert(kw@ == kws[k as int]);
        if contains_exec(&lpath, &kw) {
            return true;
        }
        let mut y: usize = 0;
        while y < lnames.len()
            invariant
                y <= lnames.len() == symbol_names.len(),
                k < keywords.len(),
                kws == views(keywords@),
                names == views(symbol_names@),
                kw@ == kws[k as int],
                forall|q: int| 0 <= q < lnames.len() ==> #[trigger] lnames@[q]@ == lowercase(symbol_names@[q]@),
                forall|z: int| 0 <= z < y ==> !contains(lowercase(#[trigger] names[z]), kw@),
            decreases lnames.len() - y,
        {
            assert(lnames@[y as int]@ == lowercase(names[y as int]));
            if contains_exec(&lnames[y], &kw) {
                assert(contains(lowercase(names[y as int]), kws[k as int]));
                assert(exact_keyword_match(path@, names, kws));
                return true;
            }
            y = y + 1;
        }
        k = k + 1;
    }
    false
}

} // verus!
