//! The lexicographic order of strings, and sorting by it.
//!
//! Comparing the characters of two strings in turn orders them the same way
//! as comparing their UTF-8 bytes, which is how `String` implements `Ord`.
use vstd::prelude::*;

verus! {

broadcast use vstd::seq_lib::group_to_multiset_ensures;

/// `a` sorts before or equal to `b`: `a` is a prefix of `b`, or at the first
/// position where they differ `a` has the smaller character.
pub open spec fn lex_le(a: Seq<char>, b: Seq<char>) -> bool
    decreases a.len(),
{
    if a.len() == 0 {
        true
    } else if b.len() == 0 {
        false
    } else if a[0] != b[0] {
        a[0] < b[0]
    } else {
        lex_le(a.drop_first(), b.drop_first())
    }
}

/// `a` sorts strictly before `b`.
pub open spec fn lex_lt(a: Seq<char>, b: Seq<char>) -> bool {
    lex_le(a, b) && a != b
}

/// Every element sorts before or equal to every later one.
pub open spec fn sorted_by_lex(s: Seq<Seq<char>>) -> bool {
    forall|i: int, j: int| 0 <= i < j < s.len() ==> lex_le(#[trigger] s[i], #[trigger] s[j])
}

/// The views of a sequence of strings.
pub open spec fn string_views(v: Seq<String>) -> Seq<Seq<char>> {
    v.map_values(|t: String| t@)
}

/// Any two strings are ordered one way or the other.
pub proof fn lemma_lex_total(a: Seq<char>, b: Seq<char>)
    ensures
        lex_le(a, b) || lex_le(b, a),
    decreases a.len(),
{
    if a.len() > 0 && b.len() > 0 && a[0] == b[0] {
        lemma_lex_total(a.drop_first(), b.drop_first());
    }
}

/// The order is transitive.
pub proof fn lemma_lex_trans(a: Seq<char>, b: Seq<char>, c: Seq<char>)
    requires
        lex_le(a, b),
        lex_le(b, c),
    ensures
        lex_le(a, c),
    decreases a.len(),
{
    if a.len() > 0 && b.len() > 0 && c.len() > 0 && a[0] == b[0] && b[0] == c[0] {
        lemma_lex_trans(a.drop_first(), b.drop_first(), c.drop_first());
    }
}

/// The order is antisymmetric.
pub proof fn lemma_lex_antisym(a: Seq<char>, b: Seq<char>)
    requires
        lex_le(a, b),
        lex_le(b, a),
    ensures
        a == b,
    decreases a.len(),
{
    if a.len() > 0 {
        lemma_lex_antisym(a.drop_first(), b.drop_first());
        assert(a =~= seq![a[0]] + a.drop_first());
        assert(b =~= seq![b[0]] + b.drop_first());
    } else {
        assert(b.len() == 0);
        assert(a =~= b);
    }
}

/// The order is reflexive.
pub proof fn lemma_lex_refl(a: Seq<char>)
    ensures
        lex_le(a, a),
    decreases a.len(),
{
    if a.len() > 0 {
        lemma_lex_refl(a.drop_first());
    }
}

/// Whether `a` sorts before or equal to `b`.
pub fn lex_le_exec(a: &[char], b: &[char]) -> (r: bool)
    ensures
        r == lex_le(a@, b@),
{
    let mut i: usize = 0;
    assert(a@.skip(0) =~= a@);
    assert(b@.skip(0) =~= b@);
    while i < a.len() && i < b.len()
        invariant
            i <= a.len(),
            i <= b.len(),
            lex_le(a@, b@) == lex_le(a@.skip(i as int), b@.skip(i as int)),
        decreases a.len() - i,
    {
        let ghost sa = a@.skip(i as int);
        let ghost sb = b@.skip(i as int);
        assert(sa[0] == a@[i as int]);
        assert(sb[0] == b@[i as int]);
        if a[i] != b[i] {
            return a[i] < b[i];
        }
        assert(sa.drop_first() =~= a@.skip(i + 1));
        assert(sb.drop_first() =~= b@.skip(i + 1));
        i = i + 1;
    }
    i == a.len()
}

/// Whether string `a` sorts before or equal to string `b`.
pub fn string_le(a: &String, b: &String) -> (r: bool)
    ensures
        r == lex_le(a@, b@),
{
    let va = crate::text::chars_of(a.as_str());
    let vb = crate::text::chars_of(b.as_str());
    lex_le_exec(&va, &vb)
}

/// The strings of `v` in ascending lexicographic order.
pub fn sort_strings(v: Vec<String>) -> (r: Vec<String>)
    ensures
        sorted_by_lex(string_views(r@)),
        r@.to_multiset() == v@.to_multiset(),
{
    let mut out: Vec<String> = Vec::new();
    let mut rest = v;
    let ghost orig = rest@;
    // Take the strings from the back so that each can be moved out.
    assert(orig.skip(orig.len() as int) =~= Seq::<String>::empty());
    assert(orig.take(orig.len() as int) =~= orig);
    while rest.len() > 0
        invariant
            rest@ == orig.take(rest.len() as int),
            rest.len() <= orig.len(),
            sorted_by_lex(string_views(out@)),
            out@.to_multiset() == orig.skip(rest.len() as int).to_multiset(),
        decreases rest.len(),
    {
        let ghost before_rest = rest@;
        let x = rest.pop().unwrap();
        assert(rest@ =~= orig.take(rest.len() as int));
        assert(orig.skip(rest.len() as int) =~= seq![x] + orig.skip(rest.len() + 1));
        // First position holding a string that sorts strictly after `x`.
        let mut p: usize = 0;
        while p < out.len() && string_le(&out[p], &x)
            invariant
                p <= out.len(),
                forall|q: int| 0 <= q < p ==> lex_le(#[trigger] out@[q]@, x@),
            decreases out.len() - p,
        {
            p = p + 1;
        }
        proof {
            if p < out.len() {
                assert(!lex_le(out@[p as int]@, x@));
                lemma_lex_total(out@[p as int]@, x@);
                assert forall|q: int| p <= q < out.len() implies lex_le(x@, #[trigger] out@[q]@) by {
                    if q > p {
                        assert(lex_le(string_views(out@)[p as int], string_views(out@)[q]));
                        lemma_lex_trans(x@, out@[p as int]@, out@[q]@);
                    }
                }
            }
        }
        let ghost old_out = out@;
        out.insert(p, x);
        proof {
            assert(out@ == old_out.insert(p as int, x));
            assert forall|a: int, b: int| 0 <= a < b < out.len() implies lex_le(
                #[trigger] string_views(out@)[a],
                #[trigger] string_views(out@)[b],
            ) by {
                let sv = string_views(old_out);
                if b < p {
                    assert(lex_le(sv[a], sv[b]));
                } else if a < p && b == p {
                } else if a < p && b > p {
                    assert(lex_le(old_out[a]@, x@));
                    assert(lex_le(x@, old_out[b - 1]@));
                    lemma_lex_trans(old_out[a]@, x@, old_out[b - 1]@);
                } else if a == p {
                } else {
                    assert(lex_le(sv[a - 1], sv[b - 1]));
                }
            }
            vstd::seq_lib::to_multiset_insert(old_out, p as int, x);
            assert((seq![x] + orig.skip(rest.len() + 1)).to_multiset() =~= orig.skip(
                rest.len() + 1,
            ).to_multiset().insert(x)) by {
                vstd::seq_lib::lemma_multiset_commutative(seq![x], orig.skip(rest.len() + 1));
                vstd::seq_lib::to_multiset_build(orig.skip(rest.len() + 1), x);
                assert(orig.skip(rest.len() + 1).push(x) =~= orig.skip(rest.len() + 1) + seq![x]);
            }
        }
    }
    assert(orig.skip(0) =~= orig);
    out
}


/// Strings in the same multiset have views in the same multiset.
pub proof fn lemma_views_multiset(a: Seq<String>, b: Seq<String>)
    requires
        a.to_multiset() == b.to_multiset(),
    ensures
        string_views(a).to_multiset() == string_views(b).to_multiset(),
    decreases a.len(),
{
    vstd::seq_lib::to_multiset_len(a);
    vstd::seq_lib::to_multiset_len(b);
    if a.len() == 0 {
        assert(string_views(a) =~= Seq::<Seq<char>>::empty());
        assert(b.len() == 0);
        assert(string_views(b) =~= Seq::<Seq<char>>::empty());
    } else {
        let x = a.last();
        let a2 = a.drop_last();
        assert(a2.push(x) =~= a);
        vstd::seq_lib::to_multiset_build(a2, x);
        assert(b.to_multiset().count(x) > 0);
        vstd::seq_lib::to_multiset_contains(b, x);
        let k = b.index_of(x);
        let b2 = b.remove(k);
        vstd::seq_lib::to_multiset_remove(b, k);
        assert(a2.to_multiset() =~= b2.to_multiset());
        lemma_views_multiset(a2, b2);
        assert(string_views(a) =~= string_views(a2).push(x@));
        vstd::seq_lib::to_multiset_build(string_views(a2), x@);
        assert(string_views(b) =~= string_views(b2).insert(k, x@));
        vstd::seq_lib::to_multiset_insert(string_views(b2), k, x@);
    }
}

} // verus!
