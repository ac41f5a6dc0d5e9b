//! Merging the path selections of several strands into one ordered list.
//!
//! Each strand first drops its empty entries and its repeats (two entries
//! repeat when they name the same path and line range). Then, in declaration
//! order, every selection is checked against the selections before it that
//! name the same file with an overlapping line range:
//!
//! - under `prefer-newer` the later selection evicts those earlier ones;
//! - under `exclude-overlap` the later selection is dropped;
//! - under `merge` both stay.
//!
//! A path may carry a line range (`file.go:10` or `file.go:10-20`); without a
//! valid one it stands for the whole file.
use vstd::prelude::*;

use crate::braid::types::{MergedFile, PolicyKind, StrandSelection};
use crate::text::{
    append_chars, chars_of, find_char, first_index_of, last_index_of, parse_i64,
    parse_i64_exec, push_signed, rfind_char, signed_decimal, slice_chars, string_of, views,
};

verus! {

/// A path with an inclusive line range.
#[derive(Debug, Clone, PartialEq, Eq)]
pub struct PathRange {
    pub path: String,
    pub start: i64,
    pub end: i64,
}

impl View for PathRange {
    type V = (Seq<char>, int, int);

    open spec fn view(&self) -> (Seq<char>, int, int) {
        (self.path@, self.start as int, self.end as int)
    }
}

/// The range that stands for a whole file.
pub open spec fn whole_file(raw: Seq<char>) -> (Seq<char>, int, int) {
    (raw, 1, i64::MAX as int)
}

/// The path and line range that `raw` denotes: `path:N` or `path:N-M` with
/// positive `N` and `M` (as `str::parse::<i64>` reads them, the bounds put in
/// order), and otherwise the whole of `raw` as a path, lines 1 to `i64::MAX`.
pub open spec fn range_of(raw: Seq<char>) -> (Seq<char>, int, int) {
    let colon = last_index_of(raw, ':');
    let path = raw.take(colon);
    let suffix = raw.skip(colon + 1);
    let dash = first_index_of(suffix, '-');
    let start_text = if dash < 0 {
        suffix
    } else {
        suffix.take(dash)
    };
    if colon < 0 || path.len() == 0 || suffix.len() == 0 {
        whole_file(raw)
    } else {
        match parse_i64(start_text) {
            None => whole_file(raw),
            Some(start) => if start <= 0 {
                whole_file(raw)
            } else if dash < 0 {
                (path, start, start)
            } else {
                match parse_i64(suffix.skip(dash + 1)) {
                    None => whole_file(raw),
                    Some(end) => if end <= 0 {
                        whole_file(raw)
                    } else if end < start {
                        (path, end, start)
                    } else {
                        (path, start, end)
                    },
                }
            },
        }
    }
}

/// The text key of a range: `path:start-end`.
pub open spec fn key_text(r: (Seq<char>, int, int)) -> Seq<char> {
    r.0 + seq![':'] + signed_decimal(r.1) + seq!['-'] + signed_decimal(r.2)
}

/// Two ranges name the same path and share at least one line.
pub open spec fn meets(a: (Seq<char>, int, int), b: (Seq<char>, int, int)) -> bool {
    a.0 == b.0 && a.1 <= b.2 && b.1 <= a.2
}

fn whole_range(raw: &str) -> (r: PathRange)
    ensures
        r@ == whole_file(raw@),
{
    PathRange { path: raw.to_owned(), start: 1, end: i64::MAX }
}

/// Reads the optional line range of a selected path (see [`range_of`]).
pub fn parse_path_range(raw: &str) -> (r: PathRange)
    ensures
        r@ == range_of(raw@),
{
    let chars = chars_of(raw);
    let colon = match rfind_char(&chars, ':') {
        Some(c) => c,
        None => return whole_range(raw),
    };
    let path = slice_chars(&chars, 0, colon);
    let suffix = slice_chars(&chars, colon + 1, chars.len());
    assert(path@ =~= raw@.take(colon as int));
    assert(suffix@ =~= raw@.skip(colon + 1));
    if path.len() == 0 || suffix.len() == 0 {
        return whole_range(raw);
    }
    let dash = find_char(&suffix, '-');
    let start_text = match dash {
        Some(d) => slice_chars(&suffix, 0, d),
        None => slice_chars(&suffix, 0, suffix.len()),
    };
    assert(suffix@.subrange(0, suffix@.len() as int) =~= suffix@);
    let mut start = match parse_i64_exec(&start_text) {
        Some(v) => v,
        None => return whole_range(raw),
    };
    if start <= 0 {
        return whole_range(raw);
    }
    let mut end = start;
    match dash {
        Some(d) => {
            let end_text = slice_chars(&suffix, d + 1, suffix.len());
            assert(end_text@ =~= suffix@.skip(d + 1));
            match parse_i64_exec(&end_text) {
                Some(v) => {
                    if v <= 0 {
                        return whole_range(raw);
                    }
                    end = v;
                },
                None => return whole_range(raw),
            }
        },
        None => {},
    }
    if end < start {
        let t = start;
        start = end;
        end = t;
    }
    PathRange { path: string_of(&path), start, end }
}

impl PathRange {
    /// The text key `path:start-end`.
    pub fn key(&self) -> (r: String)
        ensures
            r@ == key_text(self@),
    {
        let mut v = chars_of(self.path.as_str());
        v.push(':');
        push_signed(&mut v, self.start);
        v.push('-');
        push_signed(&mut v, self.end);
        assert(v@ =~= key_text(self@));
        string_of(&v)
    }
}

/// Whether two ranges name the same path and share a line.
pub fn ranges_overlap(a: &PathRange, b: &PathRange) -> (r: bool)
    ensures
        r == meets(a@, b@),
{
    a.path == b.path && a.start <= b.end && b.start <= a.end
}

/// The entries a strand keeps after dropping empty paths and repeats of an
/// earlier entry with the same path and range.
pub open spec fn kept_paths(paths: Seq<Seq<char>>) -> Seq<Seq<char>>
    decreases paths.len(),
{
    if paths.len() == 0 {
        Seq::empty()
    } else {
        let before = kept_paths(paths.drop_last());
        let p = paths.last();
        if p.len() == 0 || exists|k: int|
            0 <= k < before.len() && #[trigger] range_of(before[k]) == range_of(p) {
            before
        } else {
            before.push(p)
        }
    }
}

/// One selection taking part in the merge: strand index, raw path, policy of
/// its strand.
pub type Occ = (int, Seq<char>, PolicyKind);

/// The kept entries of strand `i`.
pub open spec fn strand_occs(i: int, sel: StrandSelection) -> Seq<Occ> {
    kept_paths(views(sel.paths@)).map_values(|p: Seq<char>| (i, p, sel.policy))
}

/// The kept entries of all strands, in declaration order.
pub open spec fn occurrences(sels: Seq<StrandSelection>) -> Seq<Occ>
    decreases sels.len(),
{
    if sels.len() == 0 {
        Seq::empty()
    } else {
        occurrences(sels.drop_last()) + strand_occs(sels.len() - 1, sels.last())
    }
}

/// Entry `h` is removed by the entries before position `g`: it is an
/// `exclude-overlap` entry meeting an earlier entry, or a later
/// `prefer-newer` entry meets it.
pub open spec fn evicted_by(occs: Seq<Occ>, h: int, g: int) -> bool {
    ||| (h < g && occs[h].2 == PolicyKind::ExcludeOverlap && exists|k: int|
        0 <= k < h && #[trigger] meets(range_of(occs[h].1), range_of(occs[k].1)))
    ||| exists|x: int|
        h < x < g && occs[x].2 == PolicyKind::PreferNewer && #[trigger] meets(
            range_of(occs[x].1),
            range_of(occs[h].1),
        )
}

/// Entry `h` is removed by the merge.
pub open spec fn evicted(occs: Seq<Occ>, h: int) -> bool {
    evicted_by(occs, h, occs.len() as int)
}

/// The surviving entries among the first `n`, as (path, strand name).
pub open spec fn survivors(occs: Seq<Occ>, sels: Seq<StrandSelection>, n: int) -> Seq<
    (Seq<char>, Seq<char>),
>
    decreases n,
{
    if n <= 0 {
        Seq::empty()
    } else {
        let before = survivors(occs, sels, n - 1);
        if evicted(occs, n - 1) {
            before
        } else {
            before.push((occs[n - 1].1, sels[occs[n - 1].0].name@))
        }
    }
}

/// The merge of `sels`: every surviving entry with the name of its strand.
pub open spec fn merged(sels: Seq<StrandSelection>) -> Seq<(Seq<char>, Seq<char>)> {
    survivors(occurrences(sels), sels, occurrences(sels).len() as int)
}

/// A merged list by view, as (path, origin).
pub open spec fn merged_view(v: Seq<MergedFile>) -> Seq<(Seq<char>, Seq<char>)> {
    v.map_values(|m: MergedFile| (m.path@, m.origin@))
}

/// The flat table of entries built by the first pass.
pub open spec fn table(strands: Seq<usize>, raws: Seq<String>, pols: Seq<PolicyKind>) -> Seq<Occ> {
    Seq::new(strands.len(), |k: int| (strands[k] as int, raws[k]@, pols[k]))
}

/// Whether some range at or after position `from` equals `r`.
fn has_range(rngs: &Vec<PathRange>, from: usize, r: &PathRange) -> (b: bool)
    requires
        from <= rngs.len(),
    ensures
        b == exists|k: int| from <= k < rngs.len() && rngs@[k]@ == r@,
{
    let mut q: usize = from;
    while q < rngs.len()
        invariant
            from <= q <= rngs.len(),
            forall|k: int| from <= k < q ==> rngs@[k]@ != r@,
        decreases rngs.len() - q,
    {
        let e = &rngs[q];
        if e.path == r.path && e.start == r.start && e.end == r.end {
            assert(rngs@[q as int]@ == r@);
            return true;
        }
        q = q + 1;
    }
    false
}

/// First pass: the kept entries of every strand, flattened, with their
/// parsed ranges.
fn collect_entries(selections: &[StrandSelection]) -> (r: (
    Vec<usize>,
    Vec<String>,
    Vec<PolicyKind>,
    Vec<PathRange>,
))
    ensures
        r.0.len() == r.1.len() == r.2.len() == r.3.len(),
        table(r.0@, r.1@, r.2@) == occurrences(selections@),
        forall|k: int| 0 <= k < r.0.len() ==> r.0@[k] < selections.len(),
        forall|k: int| 0 <= k < r.3.len() ==> #[trigger] r.3@[k]@ == range_of(r.1@[k]@),
{
    let mut strands: Vec<usize> = Vec::new();
    let mut raws: Vec<String> = Vec::new();
    let mut pols: Vec<PolicyKind> = Vec::new();
    let mut rngs: Vec<PathRange> = Vec::new();
    let mut i: usize = 0;
    assert(table(strands@, raws@, pols@) =~= occurrences(selections@.take(0)));
    while i < selections.len()
        invariant
            i <= selections.len(),
            strands.len() == raws.len() == pols.len() == rngs.len(),
            table(strands@, raws@, pols@) == occurrences(selections@.take(i as int)),
            forall|k: int| 0 <= k < strands.len() ==> strands@[k] < i,
            forall|k: int| 0 <= k < rngs.len() ==> #[trigger] rngs@[k]@ == range_of(raws@[k]@),
        decreases selections.len() - i,
    {
        let sel = &selections[i];
        let first: usize = strands.len();
        let ghost base = table(strands@, raws@, pols@);
        let ghost ps = views(sel.paths@);
        let mut j: usize = 0;
        assert(kept_paths(ps.take(0)) =~= Seq::<Seq<char>>::empty());
        assert(base + kept_paths(ps.take(0)).map_values(|p: Seq<char>| (i as int, p, sel.policy))
            =~= base);
        while j < sel.paths.len()
            invariant
                i < selections.len(),
                sel == &selections@[i as int],
                ps == views(sel.paths@),
                j <= sel.paths.len(),
                first == base.len(),
                first <= strands.len(),
                strands.len() == raws.len() == pols.len() == rngs.len(),
                table(strands@, raws@, pols@) == base + kept_paths(ps.take(j as int)).map_values(
                    |p: Seq<char>| (i as int, p, sel.policy),
                ),
                forall|k: int| 0 <= k < strands.len() ==> strands@[k] <= i,
                forall|k: int| 0 <= k < rngs.len() ==> #[trigger] rngs@[k]@ == range_of(raws@[k]@),
            decreases sel.paths.len() - j,
        {
            let p = &sel.paths[j];
            let ghost kept = kept_paths(ps.take(j as int));
            assert(ps.take(j + 1).drop_last() =~= ps.take(j as int));
            assert(ps.take(j + 1).last() == p@);
            if p.as_str().is_empty() {
                j = j + 1;
                continue;
            }
            let rng = parse_path_range(p.as_str());
            let found = has_range(&rngs, first, &rng);
            let ghost tbl = table(strands@, raws@, pols@);
            assert(tbl.len() == first + kept.len());
            assert forall|k: int| 0 <= k < kept.len() implies (#[trigger] range_of(kept[k])
                == range_of(p@)) == (rngs@[first + k]@ == rng@) by {
                assert(tbl[first + k] == (i as int, kept[k], sel.policy));
                assert(raws@[first + k]@ == kept[k]);
            }
            if found {
                proof {
                    let w = choose|w: int| first <= w < rngs.len() && rngs@[w]@ == rng@;
                    assert(range_of(kept[w - first]) == range_of(p@));
                    assert(kept_paths(ps.take(j + 1)) == kept);
                }
                j = j + 1;
                continue;
            }
            proof {
                assert forall|k: int| 0 <= k < kept.len() implies #[trigger] range_of(kept[k])
                    != range_of(p@) by {
                    assert(rngs@[first + k]@ != rng@);
                }
                assert(kept_paths(ps.take(j + 1)) == kept.push(p@));
            }
            let ghost old_tbl = table(strands@, raws@, pols@);
            let pc = p.clone();
            assert(pc@ == p@);
            strands.push(i);
            raws.push(pc);
            pols.push(sel.policy);
            rngs.push(rng);
            assert(table(strands@, raws@, pols@) =~= old_tbl.push((i as int, p@, sel.policy)));
            assert(table(strands@, raws@, pols@) =~= base + kept.push(p@).map_values(
                |q: Seq<char>| (i as int, q, sel.policy),
            ));
            j = j + 1;
        }
        proof {
            assert(kept_paths(ps.take(sel.paths.len() as int)) == kept_paths(ps)) by {
                assert(ps.take(sel.paths.len() as int) =~= ps);
            }
            assert(selections@.take(i + 1).drop_last() =~= selections@.take(i as int));
            assert(selections@.take(i + 1).last() == selections@[i as int]);
        }
        i = i + 1;
    }
    assert(selections@.take(i as int) =~= selections@);
    (strands, raws, pols, rngs)
}

/// Second pass: which entries survive. `keep[h]` is false exactly when entry
/// `h` is evicted.
fn mark_evictions(
    pols: &Vec<PolicyKind>,
    rngs: &Vec<PathRange>,
    Ghost(occs): Ghost<Seq<Occ>>,
) -> (keep: Vec<bool>)
    requires
        occs.len() == pols.len() == rngs.len(),
        forall|k: int| 0 <= k < occs.len() ==> occs[k].2 == #[trigger] pols@[k],
        forall|k: int| 0 <= k < occs.len() ==> #[trigger] rngs@[k]@ == range_of(occs[k].1),
    ensures
        keep.len() == occs.len(),
        forall|h: int| 0 <= h < occs.len() ==> #[trigger] keep@[h] == !evicted(occs, h),
{
    let n = rngs.len();
    let mut keep: Vec<bool> = Vec::new();
    let mut z: usize = 0;
    while z < n
        invariant
            z <= n,
            keep.len() == z,
            forall|h: int| 0 <= h < z ==> #[trigger] keep@[h],
        decreases n - z,
    {
        keep.push(true);
        z = z + 1;
    }
    let mut g: usize = 0;
    while g < n
        invariant
            n == occs.len() == pols.len() == rngs.len(),
            forall|k: int| 0 <= k < occs.len() ==> occs[k].2 == #[trigger] pols@[k],
            forall|k: int| 0 <= k < occs.len() ==> #[trigger] rngs@[k]@ == range_of(occs[k].1),
            g <= n,
            keep.len() == n,
            forall|h: int| 0 <= h < n ==> #[trigger] keep@[h] == !evicted_by(occs, h, g as int),
        decreases n - g,
    {
        let mut h: usize = 0;
        assert(!(exists|k: int| 0 <= k < 0 && meets(range_of(occs[g as int].1), range_of(occs[k].1))));
        while h < g
            invariant
                n == occs.len() == pols.len() == rngs.len(),
                forall|k: int| 0 <= k < occs.len() ==> occs[k].2 == #[trigger] pols@[k],
                forall|k: int| 0 <= k < occs.len() ==> #[trigger] rngs@[k]@ == range_of(occs[k].1),
                g < n,
                h <= g,
                keep.len() == n,
                forall|x: int| 0 <= x < h ==> #[trigger] keep@[x] == !(evicted_by(occs, x, g as int) || (
                    occs[g as int].2 == PolicyKind::PreferNewer && meets(
                        range_of(occs[g as int].1),
                        range_of(occs[x].1),
                    ))),
                forall|x: int| h <= x < n && x != g ==> #[trigger] keep@[x] == !evicted_by(occs, x, g as int),
                keep@[g as int] == !(occs[g as int].2 == PolicyKind::ExcludeOverlap && exists|k: int|
                    0 <= k < h && #[trigger] meets(range_of(occs[g as int].1), range_of(occs[k].1))),
            decreases g - h,
        {
            let hit = ranges_overlap(&rngs[g], &rngs[h]);
            assert(hit == meets(range_of(occs[g as int].1), range_of(occs[h as int].1)));
            if hit {
                match pols[g] {
                    PolicyKind::PreferNewer => {
                        keep.set(h, false);
                    },
                    PolicyKind::ExcludeOverlap => {
                        keep.set(g, false);
                    },
                    PolicyKind::Merge => {},
                }
            }
            h = h + 1;
        }
        proof {
            let gi = g as int;
            assert forall|x: int| 0 <= x < n implies #[trigger] keep@[x] == !evicted_by(
                occs,
                x,
                gi + 1,
            ) by {
                if x < gi {
                    if occs[gi].2 == PolicyKind::PreferNewer && meets(
                        range_of(occs[gi].1),
                        range_of(occs[x].1),
                    ) {
                        assert(evicted_by(occs, x, gi + 1));
                    }
                    if evicted_by(occs, x, gi + 1) && !evicted_by(occs, x, gi) {
                        let y = choose|y: int|
                            x < y < gi + 1 && occs[y].2 == PolicyKind::PreferNewer && #[trigger] meets(
                                range_of(occs[y].1),
                                range_of(occs[x].1),
                            );
                        assert(y == gi);
                    }
                } else if x == gi {
                } else {
                }
            }
        }
        g = g + 1;
    }
    keep
}

/// Applies each strand's policy, in declaration order, and returns the
/// surviving (path, origin-strand) pairs in order (see the module
/// documentation).
pub fn merge_paths(selections: &[StrandSelection]) -> (r: Vec<MergedFile>)
    ensures
        merged_view(r@) == merged(selections@),
{
    let (strands, raws, pols, rngs) = collect_entries(selections);
    let ghost occs = table(strands@, raws@, pols@);
    let keep = mark_evictions(&pols, &rngs, Ghost(occs));
    let mut out: Vec<MergedFile> = Vec::new();
    let mut h: usize = 0;
    assert(merged_view(out@) =~= survivors(occs, selections@, 0));
    while h < raws.len()
        invariant
            h <= raws.len(),
            strands.len() == raws.len() == pols.len() == keep.len(),
            occs == table(strands@, raws@, pols@),
            forall|k: int| 0 <= k < strands.len() ==> strands@[k] < selections.len(),
            forall|k: int| 0 <= k < keep.len() ==> #[trigger] keep@[k] == !evicted(occs, k),
            merged_view(out@) == survivors(occs, selections@, h as int),
        decreases raws.len() - h,
    {
        if keep[h] {
            let s = strands[h];
            let m = MergedFile { path: raws[h].clone(), origin: selections[s].name.clone() };
            let ghost before = out@;
            out.push(m);
            assert(merged_view(out@) =~= merged_view(before).push((occs[h as int].1, selections@[occs[h as int].0].name@)));
        }
        h = h + 1;
    }
    out
}

/// Every entry of the table came from a strand of `sels`, under that
/// strand's policy.
proof fn lemma_occurrence_origin(sels: Seq<StrandSelection>, k: int)
    requires
        0 <= k < occurrences(sels).len(),
    ensures
        0 <= occurrences(sels)[k].0 < sels.len(),
        occurrences(sels)[k].2 == sels[occurrences(sels)[k].0].policy,
    decreases sels.len(),
{
    let before = occurrences(sels.drop_last());
    if k < before.len() {
        lemma_occurrence_origin(sels.drop_last(), k);
        assert(occurrences(sels)[k] == before[k]);
    } else {
        assert(occurrences(sels)[k] == strand_occs(sels.len() - 1, sels.last())[k - before.len()]);
    }
}

/// When every strand merges, the merge keeps every entry each strand kept,
/// in declaration order, duplicates across strands included.
pub proof fn law_merge_policy_keeps_all(sels: Seq<StrandSelection>)
    requires
        forall|i: int| 0 <= i < sels.len() ==> #[trigger] sels[i].policy == PolicyKind::Merge,
    ensures
        merged(sels) == occurrences(sels).map_values(
            |o: Occ| (o.1, sels[o.0].name@),
        ),
{
    let occs = occurrences(sels);
    assert forall|h: int| 0 <= h < occs.len() implies !#[trigger] evicted(occs, h) by {
        lemma_occurrence_origin(sels, h);
        assert forall|x: int| 0 <= x < occs.len() implies occs[x].2 == PolicyKind::Merge by {
            lemma_occurrence_origin(sels, x);
        }
    }
    lemma_survivors_all(occs, sels, occs.len() as int);
}

/// Without evictions, the survivors of the first `n` entries are all of
/// them.
proof fn lemma_survivors_all(occs: Seq<Occ>, sels: Seq<StrandSelection>, n: int)
    requires
        0 <= n <= occs.len(),
        forall|h: int| 0 <= h < occs.len() ==> !#[trigger] evicted(occs, h),
    ensures
        survivors(occs, sels, n) == occs.take(n).map_values(|o: Occ| (o.1, sels[o.0].name@)),
    decreases n,
{
    if n > 0 {
        lemma_survivors_all(occs, sels, n - 1);
        assert(occs.take(n).map_values(|o: Occ| (o.1, sels[o.0].name@)) =~= occs.take(n - 1).map_values(
            |o: Occ| (o.1, sels[o.0].name@),
        ).push((occs[n - 1].1, sels[occs[n - 1].0].name@)));
    } else {
        assert(occs.take(0).map_values(|o: Occ| (o.1, sels[o.0].name@)) =~= Seq::empty());
    }
    if n == occs.len() {
        assert(occs.take(n) =~= occs);
    }
}

} // verus!
