//! Fitting a strand's paths into its share of the budget: paths are kept
//! in order while their estimated tokens fit, and the others dropped.
use vstd::prelude::*;

use crate::text::{append_str, chars_of, decimal, decimal_chars, string_of, views};

verus! {

/// The paths a strand keeps, the tokens they take and how many were
/// dropped.
#[derive(Debug, Clone, PartialEq, Eq)]
pub struct StrandTrim {
    pub kept: Vec<String>,
    pub used: i64,
    pub dropped: i64,
}

/// The trim after the first `n` paths: with a positive budget, a path
/// whose tokens would take the total past it is dropped; every other path
/// is kept and its tokens counted. Gives the kept paths, the tokens and
/// the count dropped.
pub open spec fn trim_over(paths: Seq<Seq<char>>, tokens: Seq<i64>, budget: int, n: int) -> (Seq<Seq<char>>, int, int)
    decreases n,
{
    if n <= 0 {
        (Seq::empty(), 0, 0)
    } else {
        let (kept, used, dropped) = trim_over(paths, tokens, budget, n - 1);
        let t = tokens[n - 1] as int;
        if budget > 0 && used + t > budget {
            (kept, used, dropped + 1)
        } else {
            (kept.push(paths[n - 1]), used + t, dropped)
        }
    }
}

/// Every running total of the kept tokens fits in an `i64`.
pub open spec fn trim_fits(paths: Seq<Seq<char>>, tokens: Seq<i64>, budget: int) -> bool {
    forall|n: int|
        0 <= n <= paths.len() ==> {
            let (_, used, _) = #[trigger] trim_over(paths, tokens, budget, n);
            i64::MIN <= used <= i64::MAX && (n < paths.len() ==> i64::MIN <= used + tokens[n] <= i64::MAX)
        }
}

/// Keeps the strand's paths that fit its budget (see [`trim_over`]);
/// `tokens` holds the estimate of each path.
pub fn trim_strand_paths(paths: &[String], tokens: &[i64], budget: i64) -> (r: StrandTrim)
    requires
        tokens.len() == paths.len(),
        paths.len() <= i64::MAX,
        trim_fits(views(paths@), tokens@, budget as int),
    ensures
        ({
            let (kept, used, dropped) = trim_over(views(paths@), tokens@, budget as int, paths.len() as int);
            views(r.kept@) == kept && r.used == used && r.dropped == dropped
        }),
{
    let ghost ps = views(paths@);
    let mut kept: Vec<String> = Vec::new();
    let mut used: i64 = 0;
    let mut dropped: i64 = 0;
    let mut i: usize = 0;
    while i < paths.len()
        invariant
            i <= paths.len() == tokens.len(),
            paths.len() <= i64::MAX,
            ps == views(paths@),
            trim_fits(ps, tokens@, budget as int),
            dropped <= i,
            ({
                let (k, u, d) = trim_over(ps, tokens@, budget as int, i as int);
                views(kept@) == k && used == u && dropped == d
            }),
        decreases paths.len() - i,
    {
        let t = tokens[i];
        assert({
            let (_, u, _) = trim_over(ps, tokens@, budget as int, i as int);
            i64::MIN <= u + tokens@[i as int] <= i64::MAX
        });
        if budget > 0 && used + t > budget {
            dropped = dropped + 1;
        } else {
            used = used + t;
            let ghost before = kept@;
            kept.push(paths[i].clone());
            assert(views(kept@) =~= views(before).push(ps[i as int]));
        }
        i = i + 1;
    }
    StrandTrim { kept, used, dropped }
}

/// The note on paths dropped to fit: none when none were.
pub open spec fn trim_note(dropped: int) -> Seq<char> {
    if dropped > 0 {
        decimal(dropped as nat) + " paths dropped to fit per-strand budget"@
    } else {
        Seq::empty()
    }
}

/// The note on paths dropped to fit (see [`trim_note`]).
pub fn trim_note_text(dropped: i64) -> (r: String)
    ensures
        r@ == trim_note(dropped as int),
{
    if dropped > 0 {
        let mut v = decimal_chars(dropped as u64);
        append_str(&mut v, " paths dropped to fit per-strand budget");
        string_of(&v)
    } else {
        String::new()
    }
}

} // verus!
