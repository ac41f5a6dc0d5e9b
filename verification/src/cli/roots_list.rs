//! The listing of `ctx roots list`: the registered roots in order of their
//! names, compared without regard to ASCII case, in a table of aligned
//! columns.
use vstd::prelude::*;

use crate::cli::digest::{byte_len, pad_right, push_pad_right};
use crate::cli::roots_registry::{clone_entry, RootEntry};
use crate::order::{lemma_lex_total, lemma_lex_trans, lex_le, lex_le_exec};
use crate::text::{append_chars, append_str, chars_of, lower, lower_exec, string_of};

verus! {

/// The name of a root as it is sorted: ASCII letters lowered.
pub open spec fn name_key(e: RootEntry) -> Seq<char> {
    lower(e.name@)
}

/// Each root's key sorts before or equal to every later one's.
pub open spec fn sorted_by_name(s: Seq<RootEntry>) -> bool {
    forall|i: int, j: int|
        0 <= i < j < s.len() ==> lex_le(#[trigger] name_key(s[i]), #[trigger] name_key(s[j]))
}

/// The roots of `s` whose key is `k`, in their order.
pub open spec fn named(s: Seq<RootEntry>, k: Seq<char>) -> Seq<RootEntry>
    decreases s.len(),
{
    if s.len() == 0 {
        Seq::<RootEntry>::empty()
    } else {
        named(s.drop_last(), k) + if name_key(s.last()) == k {
            seq![s.last()]
        } else {
            Seq::<RootEntry>::empty()
        }
    }
}

/// `r` holds the roots of `s` sorted by key, and roots of equal key keep
/// their order.
pub open spec fn stable_sort_of(r: Seq<RootEntry>, s: Seq<RootEntry>) -> bool {
    &&& r.len() == s.len()
    &&& sorted_by_name(r)
    &&& forall|k: Seq<char>| #[trigger] named(r, k) == named(s, k)
}

/// Picking the roots of one key from a joined list picks them from each
/// part.
proof fn lemma_named_add(a: Seq<RootEntry>, b: Seq<RootEntry>, k: Seq<char>)
    ensures
        named(a + b, k) == named(a, k) + named(b, k),
    decreases b.len(),
{
    if b.len() == 0 {
        assert(a + b =~= a);
        assert(named(a, k) + named(b, k) =~= named(a, k));
    } else {
        lemma_named_add(a, b.drop_last(), k);
        assert((a + b).drop_last() =~= a + b.drop_last());
        assert((a + b).last() == b.last());
        assert(named(a + b, k) =~= named(a, k) + named(b, k));
    }
}

/// A list where no root has key `k` yields none of that key.
proof fn lemma_named_none(s: Seq<RootEntry>, k: Seq<char>)
    requires
        forall|i: int| 0 <= i < s.len() ==> #[trigger] name_key(s[i]) != k,
    ensures
        named(s, k) == Seq::<RootEntry>::empty(),
    decreases s.len(),
{
    if s.len() > 0 {
        lemma_named_none(s.drop_last(), k);
    }
}

/// The roots in order of their names compared without regard to ASCII
/// case; roots whose names compare equal keep their order.
pub fn sort_roots_by_name(roots: &[RootEntry]) -> (r: Vec<RootEntry>)
    ensures
        stable_sort_of(r@, roots@),
{
    let mut out: Vec<RootEntry> = Vec::new();
    let mut i: usize = 0;
    assert(roots@.take(0) =~= Seq::<RootEntry>::empty());
    while i < roots.len()
        invariant
            i <= roots.len(),
            out.len() == i,
            sorted_by_name(out@),
            forall|k: Seq<char>| #[trigger] named(out@, k) == named(roots@.take(i as int), k),
        decreases roots.len() - i,
    {
        let x = clone_entry(&roots[i]);
        let xk = lower_exec(&chars_of(x.name.as_str()));
        let mut p: usize = 0;
        while p < out.len() && lex_le_exec(&lower_exec(&chars_of(out[p].name.as_str())), &xk)
            invariant
                p <= out.len(),
                xk@ == name_key(x),
                forall|q: int| 0 <= q < p ==> lex_le(#[trigger] name_key(out@[q]), name_key(x)),
            decreases out.len() - p,
        {
            p = p + 1;
        }
        let ghost old_out = out@;
        proof {
            if p < out.len() {
                assert(!lex_le(name_key(old_out[p as int]), name_key(x)));
                lemma_lex_total(name_key(old_out[p as int]), name_key(x));
                assert forall|q: int| p <= q < old_out.len() implies !lex_le(
                    #[trigger] name_key(old_out[q]),
                    name_key(x),
                ) by {
                    if q > p && lex_le(name_key(old_out[q]), name_key(x)) {
                        lemma_lex_trans(name_key(old_out[p as int]), name_key(old_out[q]), name_key(x));
                    }
                }
            }
        }
        out.insert(p, x);
        proof {
            assert(out@ =~= old_out.insert(p as int, x));
            assert forall|a: int, b: int| 0 <= a < b < out.len() implies lex_le(
                #[trigger] name_key(out@[a]),
                #[trigger] name_key(out@[b]),
            ) by {
                if b < p {
                } else if a < p && b == p {
                } else if a < p && b > p {
                    assert(lex_le(name_key(old_out[a]), name_key(old_out[b - 1])));
                } else if a == p {
                    lemma_lex_total(name_key(old_out[b - 1]), name_key(x));
                } else {
                    assert(lex_le(name_key(old_out[a - 1]), name_key(old_out[b - 1])));
                }
            }
            assert(out@ =~= old_out.take(p as int) + seq![x] + old_out.skip(p as int));
            assert(old_out =~= old_out.take(p as int) + old_out.skip(p as int));
            assert(roots@.take(i + 1) =~= roots@.take(i as int).push(x));
            assert forall|k: Seq<char>| #[trigger] named(out@, k) == named(roots@.take(i + 1), k) by {
                lemma_named_add(old_out.take(p as int) + seq![x], old_out.skip(p as int), k);
                lemma_named_add(old_out.take(p as int), seq![x], k);
                lemma_named_add(old_out.take(p as int), old_out.skip(p as int), k);
                assert(named(roots@.take(i + 1), k) == named(roots@.take(i as int), k) + named(
                    seq![x],
                    k,
                )) by {
                    assert(roots@.take(i + 1) =~= roots@.take(i as int) + seq![x]);
                    lemma_named_add(roots@.take(i as int), seq![x], k);
                }
                assert(seq![x].drop_last() =~= Seq::<RootEntry>::empty());
                assert(seq![x].last() == x);
                assert(named(seq![x].drop_last(), k) == Seq::<RootEntry>::empty());
                if name_key(x) == k {
                    assert forall|q: int| 0 <= q < old_out.skip(p as int).len() implies #[trigger] name_key(
                        old_out.skip(p as int)[q],
                    ) != k by {
                        assert(old_out.skip(p as int)[q] == old_out[p + q]);
                        lemma_lex_total(k, k);
                    }
                    lemma_named_none(old_out.skip(p as int), k);
                    assert(named(old_out.skip(p as int), k) + named(seq![x], k) =~= named(
                        seq![x],
                        k,
                    ));
                } else {
                    assert(named(seq![x], k) =~= Seq::<RootEntry>::empty());
                }
                assert(named(out@, k) =~= named(roots@.take(i + 1), k));
            }
        }
        i = i + 1;
    }
    assert(roots@.take(roots.len() as int) =~= roots@);
    out
}

/// What the last-opened column shows for a root.
pub open spec fn last_opened_text(e: RootEntry) -> Seq<char> {
    match e.last_opened_at {
        Some(t) => t@,
        None => "-"@,
    }
}

/// The width of the name column: the longest name in UTF-8 bytes, and at
/// least that of the heading `NAME`.
pub open spec fn name_width(s: Seq<RootEntry>) -> int
    decreases s.len(),
{
    if s.len() == 0 {
        4
    } else {
        let w = name_width(s.drop_last());
        if byte_len(s.last().name@) > w {
            byte_len(s.last().name@)
        } else {
            w
        }
    }
}

/// The width of the path column: the longest path in UTF-8 bytes, and at
/// least that of the heading `PATH`.
pub open spec fn path_width(s: Seq<RootEntry>) -> int
    decreases s.len(),
{
    if s.len() == 0 {
        4
    } else {
        let w = path_width(s.drop_last());
        if byte_len(s.last().path@) > w {
            byte_len(s.last().path@)
        } else {
            w
        }
    }
}

/// A line of the table: the first two cells padded to their column's width
/// and two spaces more.
pub open spec fn table_line(a: Seq<char>, b: Seq<char>, c: Seq<char>, w0: int, w1: int) -> Seq<char> {
    pad_right(a, w0 + 2) + pad_right(b, w1 + 2) + c + "\n"@
}

/// The lines of the first `n` roots.
pub open spec fn root_lines(s: Seq<RootEntry>, w0: int, w1: int, n: int) -> Seq<char>
    decreases n,
{
    if n <= 0 {
        Seq::<char>::empty()
    } else {
        root_lines(s, w0, w1, n - 1) + table_line(
            s[n - 1].name@,
            s[n - 1].path@,
            last_opened_text(s[n - 1]),
            w0,
            w1,
        )
    }
}

/// The table of roots in the order given, under a heading; a hint to add
/// one when there are none.
pub open spec fn roots_table_text(s: Seq<RootEntry>) -> Seq<char> {
    if s.len() == 0 {
        "(no roots registered; run 'ctx roots add' or 'ctx browse <path>')\n"@
    } else {
        table_line("NAME"@, "PATH"@, "LAST OPENED"@, name_width(s), path_width(s)) + root_lines(
            s,
            name_width(s),
            path_width(s),
            s.len() as int,
        )
    }
}

/// Every name and path is short enough that its width and two more fit
/// in a `usize`.
pub open spec fn widths_fit(s: Seq<RootEntry>) -> bool {
    forall|i: int|
        0 <= i < s.len() ==> byte_len(#[trigger] s[i].name@) + 2 <= usize::MAX && byte_len(
            s[i].path@,
        ) + 2 <= usize::MAX
}

/// Appends a line of the table (see [`table_line`]).
fn push_table_line(out: &mut Vec<char>, a: &str, b: &str, c: &str, w0: usize, w1: usize)
    requires
        w0 + 2 <= usize::MAX,
        w1 + 2 <= usize::MAX,
    ensures
        final(out)@ == old(out)@ + table_line(a@, b@, c@, w0 as int, w1 as int),
{
    let ghost start = old(out)@;
    push_pad_right(out, &chars_of(a), w0 + 2);
    push_pad_right(out, &chars_of(b), w1 + 2);
    append_str(out, c);
    append_str(out, "\n");
    assert(out@ =~= start + table_line(a@, b@, c@, w0 as int, w1 as int));
}

/// The table of `entries` in the order given (see [`roots_table_text`]).
pub fn roots_table(entries: &[RootEntry]) -> (r: String)
    requires
        widths_fit(entries@),
    ensures
        r@ == roots_table_text(entries@),
{
    if entries.len() == 0 {
        return string_of(&chars_of(
            "(no roots registered; run 'ctx roots add' or 'ctx browse <path>')\n",
        ));
    }
    let mut w0: usize = 4;
    let mut w1: usize = 4;
    let mut i: usize = 0;
    assert(entries@.take(0) =~= Seq::<RootEntry>::empty());
    while i < entries.len()
        invariant
            i <= entries.len(),
            widths_fit(entries@),
            w0 == name_width(entries@.take(i as int)),
            w1 == path_width(entries@.take(i as int)),
            w0 + 2 <= usize::MAX,
            w1 + 2 <= usize::MAX,
        decreases entries.len() - i,
    {
        assert(entries@.take(i + 1).drop_last() =~= entries@.take(i as int));
        assert(entries@.take(i + 1).last() == entries@[i as int]);
        let n = entries[i].name.as_str().len();
        let p = entries[i].path.as_str().len();
        if n > w0 {
            w0 = n;
        }
        if p > w1 {
            w1 = p;
        }
        i = i + 1;
    }
    assert(entries@.take(entries.len() as int) =~= entries@);
    let mut out: Vec<char> = Vec::new();
    push_table_line(&mut out, "NAME", "PATH", "LAST OPENED", w0, w1);
    let ghost head = out@;
    let mut j: usize = 0;
    while j < entries.len()
        invariant
            j <= entries.len(),
            w0 == name_width(entries@),
            w1 == path_width(entries@),
            w0 + 2 <= usize::MAX,
            w1 + 2 <= usize::MAX,
            out@ == head + root_lines(entries@, w0 as int, w1 as int, j as int),
        decreases entries.len() - j,
    {
        let e = &entries[j];
        let last: &str = match &e.last_opened_at {
            Some(t) => t.as_str(),
            None => "-",
        };
        proof {
            reveal_strlit("-");
        }
        assert(last@ == last_opened_text(entries@[j as int]));
        push_table_line(&mut out, e.name.as_str(), e.path.as_str(), last, w0, w1);
        j = j + 1;
        assert(out@ =~= head + root_lines(entries@, w0 as int, w1 as int, j as int));
    }
    string_of(&out)
}

/// The listing of `ctx roots list`: the roots sorted by name without
/// regard to ASCII case (see [`sort_roots_by_name`]) in a table (see
/// [`roots_table_text`]).
pub fn roots_list_text(roots: &[RootEntry]) -> (r: String)
    requires
        widths_fit(roots@),
    ensures
        exists|q: Seq<RootEntry>| stable_sort_of(q, roots@) && r@ == roots_table_text(q),
{
    let sorted = sort_roots_by_name(roots);
    proof {
        assert forall|i: int| 0 <= i < sorted@.len() implies byte_len(#[trigger] sorted@[i].name@) + 2
            <= usize::MAX && byte_len(sorted@[i].path@) + 2 <= usize::MAX by {
            lemma_sorted_member(sorted@, roots@, i);
        }
    }
    roots_table(&sorted)
}

/// Each root of a sorted copy is a root of the original.
proof fn lemma_sorted_member(r: Seq<RootEntry>, s: Seq<RootEntry>, i: int)
    requires
        stable_sort_of(r, s),
        0 <= i < r.len(),
    ensures
        exists|j: int| 0 <= j < s.len() && s[j] == r[i],
{
    let k = name_key(r[i]);
    lemma_named_member(r, k, i);
    let m = choose|m: int| 0 <= m < named(r, k).len() && named(r, k)[m] == r[i];
    assert(named(s, k)[m] == r[i]);
    lemma_named_origin(s, k, m);
}

/// A root with key `k` appears among the roots picked for `k`.
proof fn lemma_named_member(s: Seq<RootEntry>, k: Seq<char>, i: int)
    requires
        0 <= i < s.len(),
        name_key(s[i]) == k,
    ensures
        exists|m: int| 0 <= m < named(s, k).len() && named(s, k)[m] == s[i],
    decreases s.len(),
{
    if i == s.len() - 1 {
        let m = named(s.drop_last(), k).len() as int;
        assert(named(s, k)[m] == s[i]);
    } else {
        lemma_named_member(s.drop_last(), k, i);
        let m = choose|m: int| 0 <= m < named(s.drop_last(), k).len() && named(s.drop_last(), k)[m]
            == s.drop_last()[i];
        assert(named(s, k)[m] == s[i]);
    }
}

/// Each root picked for `k` is a root of the list.
proof fn lemma_named_origin(s: Seq<RootEntry>, k: Seq<char>, m: int)
    requires
        0 <= m < named(s, k).len(),
    ensures
        exists|j: int| 0 <= j < s.len() && s[j] == named(s, k)[m],
    decreases s.len(),
{
    if s.len() > 0 {
        let prev = named(s.drop_last(), k);
        if m < prev.len() {
            lemma_named_origin(s.drop_last(), k, m);
            let j = choose|j: int| 0 <= j < s.drop_last().len() && s.drop_last()[j] == prev[m];
            assert(s[j] == named(s, k)[m]);
        } else {
            assert(s[s.len() - 1] == named(s, k)[m]);
        }
    }
}

} // verus!
