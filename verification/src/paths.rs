//! Slash-separated paths, read component by component as `Path::components`
//! reads them on Unix, and the relative forms the subcommands keep.
//!
//! A component is held as its text; the root directory is the component
//! `/` and a leading current-directory marker the component `.`, texts that
//! no other component can have.
use vstd::prelude::*;

use crate::text::{vec_views, views};

verus! {

/// A component that names something: not empty and not `.`.
pub open spec fn named(part: Seq<char>) -> bool {
    part.len() > 0 && part != seq!['.']
}

/// Splits `rest` at `/`, keeping the named pieces, given the pieces kept so
/// far (`done`) and the piece being read (`cur`).
pub open spec fn named_split_from(done: Seq<Seq<char>>, cur: Seq<char>, rest: Seq<char>) -> Seq<
    Seq<char>,
>
    decreases rest.len(),
{
    if rest.len() == 0 {
        if named(cur) {
            done.push(cur)
        } else {
            done
        }
    } else if rest[0] == '/' {
        named_split_from(
            if named(cur) {
                done.push(cur)
            } else {
                done
            },
            Seq::empty(),
            rest.drop_first(),
        )
    } else {
        named_split_from(done, cur.push(rest[0]), rest.drop_first())
    }
}

/// The path begins with a current-directory marker: it is `.` or begins
/// with `./`.
pub open spec fn leading_cur_dir(s: Seq<char>) -> bool {
    (s.len() == 1 && s[0] == '.') || (s.len() >= 2 && s[0] == '.' && s[1] == '/')
}

/// The components of a path: the root `/` when it begins with `/`, else a
/// leading `.` when it begins with one, then every named piece between
/// slashes (repeated slashes and inner `.` pieces drop out; `..` stays).
pub open spec fn components(s: Seq<char>) -> Seq<Seq<char>> {
    let lead = if s.len() > 0 && s[0] == '/' {
        seq![seq!['/']]
    } else if leading_cur_dir(s) {
        seq![seq!['.']]
    } else {
        Seq::empty()
    };
    lead + named_split_from(Seq::empty(), Seq::empty(), s)
}

/// The parts joined with `/` between them.
pub open spec fn join_slash(parts: Seq<Seq<char>>) -> Seq<char>
    decreases parts.len(),
{
    if parts.len() == 0 {
        Seq::empty()
    } else if parts.len() == 1 {
        parts[0]
    } else {
        join_slash(parts.drop_last()) + seq!['/'] + parts.last()
    }
}

/// The path a sequence of components builds: `/` and the rest joined after
/// a root, else the components joined.
pub open spec fn rebuild(cs: Seq<Seq<char>>) -> Seq<char> {
    if cs.len() > 0 && cs[0] == seq!['/'] {
        seq!['/'] + join_slash(cs.drop_first())
    } else {
        join_slash(cs)
    }
}

/// One component applied to the stack of kept names: the root refuses,
/// `.` is skipped, `..` drops the last name (refusing when there is none),
/// and a name is kept.
pub open spec fn apply_component(stack: Seq<Seq<char>>, c: Seq<char>) -> Option<Seq<Seq<char>>> {
    if c == seq!['/'] {
        None
    } else if c == seq!['.'] {
        Some(stack)
    } else if c == seq!['.', '.'] {
        if stack.len() == 0 {
            None
        } else {
            Some(stack.drop_last())
        }
    } else {
        Some(stack.push(c))
    }
}

/// The names left after applying every component in turn, or `None` when
/// one is refused.
pub open spec fn resolve_components(cs: Seq<Seq<char>>) -> Option<Seq<Seq<char>>>
    decreases cs.len(),
{
    if cs.len() == 0 {
        Some(Seq::empty())
    } else {
        match resolve_components(cs.drop_last()) {
            None => None,
            Some(stack) => apply_component(stack, cs.last()),
        }
    }
}

/// The relative path a list of components resolves to, if it stays inside
/// its starting directory and names something.
pub open spec fn clean_components(cs: Seq<Seq<char>>) -> Option<Seq<char>> {
    match resolve_components(cs) {
        None => None,
        Some(stack) => if stack.len() == 0 {
            None
        } else {
            Some(join_slash(stack))
        },
    }
}

/// The cleaned relative form of a path (see [`clean_components`]).
pub open spec fn clean_relative(s: Seq<char>) -> Option<Seq<char>> {
    clean_components(components(s))
}

/// `p` is a prefix of `s`.
pub open spec fn is_prefix_of(p: Seq<Seq<char>>, s: Seq<Seq<char>>) -> bool {
    p.len() <= s.len() && s.take(p.len() as int) == p
}

/// Once a prefix of the components is refused, the whole list is.
pub proof fn lemma_resolve_refusal_persists(cs: Seq<Seq<char>>, k: int)
    requires
        0 <= k <= cs.len(),
        resolve_components(cs.take(k)) is None,
    ensures
        resolve_components(cs) is None,
    decreases cs.len() - k,
{
    if k < cs.len() {
        assert(cs.take(k + 1).drop_last() =~= cs.take(k));
        lemma_resolve_refusal_persists(cs, k + 1);
    } else {
        assert(cs.take(k) =~= cs);
    }
}

// ---------------------------------------------------------------------------
// Executable
// ---------------------------------------------------------------------------

/// Whether `part` names something (see [`named`]).
fn is_named(part: &Vec<char>) -> (r: bool)
    ensures
        r == named(part@),
{
    if part.len() == 0 {
        return false;
    }
    if part.len() == 1 && part[0] == '.' {
        assert(part@ =~= seq!['.']);
        return false;
    }
    assert(part@ != seq!['.']) by {
        if part@ == seq!['.'] {
            assert(part@.len() == 1 && part@[0] == '.');
        }
    }
    true
}

/// The components of the path `s` (see [`components`]).
pub fn components_of(s: &[char]) -> (r: Vec<Vec<char>>)
    ensures
        vec_views(r@) == components(s@),
{
    let mut done: Vec<Vec<char>> = Vec::new();
    if s.len() > 0 && s[0] == '/' {
        let mut root: Vec<char> = Vec::new();
        root.push('/');
        done.push(root);
        assert(vec_views(done@) =~= seq![seq!['/']]);
    } else if (s.len() == 1 && s[0] == '.') || (s.len() >= 2 && s[0] == '.' && s[1] == '/') {
        let mut dot: Vec<char> = Vec::new();
        dot.push('.');
        done.push(dot);
        assert(vec_views(done@) =~= seq![seq!['.']]);
    } else {
        assert(vec_views(done@) =~= Seq::<Seq<char>>::empty());
    }
    let ghost lead = vec_views(done@);
    let mut cur: Vec<char> = Vec::new();
    let mut i: usize = 0;
    assert(s@.skip(0) =~= s@);
    assert(Seq::<Seq<char>>::empty() + named_split_from(Seq::empty(), Seq::empty(), s@)
        =~= named_split_from(Seq::empty(), Seq::empty(), s@));
    assert(lead + named_split_from(Seq::empty(), Seq::empty(), s@) == components(s@));
    // `done` holds the lead followed by the named pieces read so far.
    let ghost mut kept: Seq<Seq<char>> = Seq::empty();
    assert(vec_views(done@) =~= lead + kept);
    while i < s.len()
        invariant
            i <= s.len(),
            vec_views(done@) == lead + kept,
            lead + named_split_from(kept, cur@, s@.skip(i as int)) == components(s@),
        decreases s.len() - i,
    {
        let ghost rest = s@.skip(i as int);
        assert(rest.drop_first() =~= s@.skip(i + 1));
        let c = s[i];
        assert(rest[0] == c);
        if c == '/' {
            if is_named(&cur) {
                let ghost before = vec_views(done@);
                let t = cur;
                done.push(t);
                proof {
                    assert(vec_views(done@) =~= before.push(t@));
                    assert(lead + kept.push(t@) =~= (lead + kept).push(t@));
                    kept = kept.push(t@);
                }
            }
            cur = Vec::new();
        } else {
            cur.push(c);
        }
        i = i + 1;
    }
    assert(s@.skip(s.len() as int) =~= Seq::<char>::empty());
    if is_named(&cur) {
        let ghost before = vec_views(done@);
        let t = cur;
        done.push(t);
        proof {
            assert(vec_views(done@) =~= before.push(t@));
            assert(lead + kept.push(t@) =~= (lead + kept).push(t@));
        }
    }
    done
}

/// The parts joined with `/` (see [`join_slash`]).
pub fn join_with_slash(parts: &Vec<Vec<char>>) -> (r: Vec<char>)
    ensures
        r@ == join_slash(vec_views(parts@)),
{
    let mut out: Vec<char> = Vec::new();
    let mut i: usize = 0;
    while i < parts.len()
        invariant
            i <= parts.len(),
            out@ == join_slash(vec_views(parts@).take(i as int)),
        decreases parts.len() - i,
    {
        let ghost before = out@;
        let ghost taken = vec_views(parts@).take(i + 1);
        assert(taken.drop_last() =~= vec_views(parts@).take(i as int));
        assert(taken.last() == parts@[i as int]@);
        if i > 0 {
            out.push('/');
        }
        crate::text::append_chars(&mut out, &parts[i]);
        i = i + 1;
        proof {
            if i == 1 {
                assert(taken.len() == 1);
                assert(before =~= Seq::<char>::empty());
                assert(out@ =~= taken[0]);
            } else {
                assert(out@ =~= before + seq!['/'] + taken.last());
            }
        }
    }
    assert(vec_views(parts@).take(parts.len() as int) =~= vec_views(parts@));
    out
}

/// Applies the components `cs` in turn (see [`resolve_components`]).
pub fn resolve_components_of(cs: &Vec<Vec<char>>) -> (r: Option<Vec<Vec<char>>>)
    ensures
        match r {
            Some(stack) => resolve_components(vec_views(cs@)) == Some(vec_views(stack@)),
            None => resolve_components(vec_views(cs@)) is None,
        },
{
    let mut stack: Vec<Vec<char>> = Vec::new();
    let mut i: usize = 0;
    assert(vec_views(cs@).take(0) =~= Seq::<Seq<char>>::empty());
    assert(vec_views(stack@) =~= Seq::<Seq<char>>::empty());
    while i < cs.len()
        invariant
            i <= cs.len(),
            resolve_components(vec_views(cs@).take(i as int)) == Some(vec_views(stack@)),
        decreases cs.len() - i,
    {
        let ghost taken = vec_views(cs@).take(i + 1);
        assert(taken.drop_last() =~= vec_views(cs@).take(i as int));
        let c = &cs[i];
        assert(taken.last() == c@);
        let ghost before = vec_views(stack@);
        if c.len() == 1 && c[0] == '/' {
            assert(c@ =~= seq!['/']);
            proof {
                lemma_resolve_refusal_persists(vec_views(cs@), i + 1);
            }
            return None;
        } else if c.len() == 1 && c[0] == '.' {
            assert(c@ =~= seq!['.']);
        } else if c.len() == 2 && c[0] == '.' && c[1] == '.' {
            assert(c@ =~= seq!['.', '.']);
            assert(c@ != seq!['/'] && c@ != seq!['.']) by {
                assert(c@.len() == 2);
            }
            if stack.len() == 0 {
                proof {
                    lemma_resolve_refusal_persists(vec_views(cs@), i + 1);
                }
                return None;
            }
            stack.pop();
            assert(vec_views(stack@) =~= before.drop_last());
        } else {
            assert(c@ != seq!['/'] && c@ != seq!['.'] && c@ != seq!['.', '.']) by {
                if c@ == seq!['/'] || c@ == seq!['.'] {
                    assert(c@.len() == 1);
                }
                if c@ == seq!['.', '.'] {
                    assert(c@.len() == 2 && c@[0] == '.' && c@[1] == '.');
                }
            }
            stack.push(c.clone());
            assert(vec_views(stack@) =~= before.push(c@));
        }
        i = i + 1;
    }
    assert(vec_views(cs@).take(cs.len() as int) =~= vec_views(cs@));
    Some(stack)
}

/// The cleaned relative form of the components `cs` (see
/// [`clean_components`]).
pub fn clean_components_of(cs: &Vec<Vec<char>>) -> (r: Option<Vec<char>>)
    ensures
        match r {
            Some(p) => clean_components(vec_views(cs@)) == Some(p@),
            None => clean_components(vec_views(cs@)) is None,
        },
{
    match resolve_components_of(cs) {
        None => None,
        Some(stack) => {
            assert(vec_views(stack@).len() == stack@.len());
            if stack.len() == 0 {
                None
            } else {
                Some(join_with_slash(&stack))
            }
        },
    }
}

/// Whether the components `p` begin the components `s`.
pub fn is_prefix_components(p: &Vec<Vec<char>>, s: &Vec<Vec<char>>) -> (r: bool)
    ensures
        r == is_prefix_of(vec_views(p@), vec_views(s@)),
{
    if p.len() > s.len() {
        return false;
    }
    let mut i: usize = 0;
    while i < p.len()
        invariant
            p.len() <= s.len(),
            i <= p.len(),
            forall|k: int| 0 <= k < i ==> #[trigger] p@[k]@ == s@[k]@,
        decreases p.len() - i,
    {
        if !crate::text::chars_eq(&p[i], &s[i]) {
            assert(vec_views(s@).take(p.len() as int)[i as int] != vec_views(p@)[i as int]);
            return false;
        }
        i = i + 1;
    }
    assert(vec_views(s@).take(p.len() as int) =~= vec_views(p@));
    true
}

/// The cleaned relative form of `path`: `.` components dropped, `..`
/// applied, and `None` when the path is rooted, climbs above its start, or
/// names nothing.
pub fn clean_relative_path(path: &str) -> (r: Option<String>)
    ensures
        match r {
            Some(p) => clean_relative(path@) == Some(p@),
            None => clean_relative(path@) is None,
        },
{
    let chars = crate::text::chars_of(path);
    let cs = components_of(&chars);
    match clean_components_of(&cs) {
        None => None,
        Some(p) => Some(crate::text::string_of(&p)),
    }
}

} // verus!
