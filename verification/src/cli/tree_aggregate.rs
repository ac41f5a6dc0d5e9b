//! The folding of budget rows by group for the text view of `ctx tree
//! --budget`: three or more rows of one group become a single `group/**`
//! row that carries their summed tokens, placed where the first of them
//! stood.
use vstd::prelude::*;

use crate::cli::tree_budget::{
    budget_parent_dir, copy_item, item_view, item_views, parent_dir, BudgetItem, ItemV,
};
use crate::text::{append_str, chars_eq, chars_of, ends_with, ends_with_exec, slice_chars, string_of};

verus! {

/// The key a row is counted under: its group, else its directory unless
/// that is the top level `.`.
pub open spec fn count_key(it: ItemV) -> Option<Seq<char>> {
    if it.group.len() > 0 {
        Some(it.group)
    } else if parent_dir(it.path) != seq!['.'] {
        Some(parent_dir(it.path))
    } else {
        None
    }
}

/// How many rows are counted under `k`.
pub open spec fn key_count(items: Seq<ItemV>, k: Seq<char>) -> nat
    decreases items.len(),
{
    if items.len() == 0 {
        0
    } else {
        key_count(items.drop_last(), k) + if count_key(items.last()) == Some(k) {
            1nat
        } else {
            0nat
        }
    }
}

/// The group a row is folded into: its own group, or else its directory
/// when three or more rows count under it; folded only when three or more
/// rows count under that group.
pub open spec fn fold_key(items: Seq<ItemV>, it: ItemV) -> Option<Seq<char>> {
    let g = if it.group.len() > 0 {
        it.group
    } else if key_count(items, parent_dir(it.path)) >= 3 {
        parent_dir(it.path)
    } else {
        Seq::<char>::empty()
    };
    if g.len() > 0 && key_count(items, g) >= 3 {
        Some(g)
    } else {
        None
    }
}

/// The fold group of each row.
pub open spec fn fold_keys(items: Seq<ItemV>) -> Seq<Option<Seq<char>>> {
    Seq::new(items.len(), |i: int| fold_key(items, items[i]))
}

/// Some of the first `m` rows fold into `g`.
pub open spec fn folded_before(keys: Seq<Option<Seq<char>>>, g: Seq<char>, m: int) -> bool
    decreases m,
{
    if m <= 0 {
        false
    } else {
        folded_before(keys, g, m - 1) || keys[m - 1] == Some(g)
    }
}

/// The tokens of the first `m` rows that fold into `g`, summed.
pub open spec fn fold_tokens(
    items: Seq<ItemV>,
    keys: Seq<Option<Seq<char>>>,
    g: Seq<char>,
    m: int,
) -> int
    decreases m,
{
    if m <= 0 {
        0
    } else {
        fold_tokens(items, keys, g, m - 1) + if keys[m - 1] == Some(g) {
            items[m - 1].tokens
        } else {
            0
        }
    }
}

/// The reason of the folded row after the first `m` rows: that of the
/// first row folded into `g`, turned into `multiple reasons` by any later
/// row whose reason differs from it.
pub open spec fn fold_reason(
    items: Seq<ItemV>,
    keys: Seq<Option<Seq<char>>>,
    g: Seq<char>,
    m: int,
) -> Seq<char>
    decreases m,
{
    if m <= 0 {
        Seq::<char>::empty()
    } else {
        let prev = fold_reason(items, keys, g, m - 1);
        if keys[m - 1] == Some(g) {
            if !folded_before(keys, g, m - 1) {
                items[m - 1].reason
            } else if prev != items[m - 1].reason {
                "multiple reasons"@
            } else {
                prev
            }
        } else {
            prev
        }
    }
}

/// The path of the row that stands for group `g`.
pub open spec fn group_path(g: Seq<char>) -> Seq<char> {
    g + "/**"@
}

/// The row that holds the place of group `g` until it is filled.
pub open spec fn group_row(g: Seq<char>) -> ItemV {
    ItemV { path: group_path(g), tokens: 0, reason: Seq::<char>::empty(), group: Seq::<char>::empty() }
}

/// The row that stands for group `g`.
pub open spec fn folded_row(items: Seq<ItemV>, keys: Seq<Option<Seq<char>>>, g: Seq<char>) -> ItemV {
    ItemV {
        path: group_path(g),
        tokens: fold_tokens(items, keys, g, items.len() as int),
        reason: fold_reason(items, keys, g, items.len() as int),
        group: Seq::<char>::empty(),
    }
}

/// The rows for the first `n` items: each row that is not folded, and a
/// place for each group where its first row stood.
pub open spec fn first_rows(items: Seq<ItemV>, keys: Seq<Option<Seq<char>>>, n: int) -> Seq<ItemV>
    decreases n,
{
    if n <= 0 {
        Seq::<ItemV>::empty()
    } else {
        let prev = first_rows(items, keys, n - 1);
        match keys[n - 1] {
            None => prev.push(items[n - 1]),
            Some(g) => if folded_before(keys, g, n - 1) {
                prev
            } else {
                prev.push(group_row(g))
            },
        }
    }
}

/// A row whose path is `g/**` for a group `g` that some row folds into
/// becomes the row of that group.
pub open spec fn final_row(items: Seq<ItemV>, keys: Seq<Option<Seq<char>>>, x: ItemV) -> ItemV {
    let g = x.path.take(x.path.len() - 3);
    if ends_with(x.path, "/**"@) && folded_before(keys, g, items.len() as int) {
        folded_row(items, keys, g)
    } else {
        x
    }
}

/// The rows of `items` with each group of three or more folded.
pub open spec fn aggregated(items: Seq<ItemV>) -> Seq<ItemV> {
    let keys = fold_keys(items);
    first_rows(items, keys, items.len() as int).map_values(|x: ItemV| final_row(items, keys, x))
}

/// Every running sum of a group's tokens fits in an `i64`.
pub open spec fn fold_sums_fit(items: Seq<ItemV>) -> bool {
    forall|g: Seq<char>, m: int|
        0 <= m <= items.len() ==> i64::MIN <= #[trigger] fold_tokens(items, fold_keys(items), g, m)
            <= i64::MAX
}

/// The views of optional character runs.
pub open spec fn key_views(keys: Seq<Option<Vec<char>>>) -> Seq<Option<Seq<char>>> {
    keys.map_values(|k: Option<Vec<char>>| match k {
        Some(v) => Some(v@),
        None => None,
    })
}

/// The key a row is counted under (see [`count_key`]).
fn count_key_exec(it: &BudgetItem) -> (r: Option<Vec<char>>)
    ensures
        count_key(item_view(*it)) == (match r {
            Some(v) => Some(v@),
            None => None,
        }),
{
    if !it.group.as_str().is_empty() {
        return Some(chars_of(it.group.as_str()));
    }
    let d = chars_of(budget_parent_dir(it.path.as_str()).as_str());
    let mut top: Vec<char> = Vec::new();
    top.push('.');
    assert(top@ =~= seq!['.']);
    if chars_eq(&d, &top) {
        None
    } else {
        Some(d)
    }
}

/// How many rows are counted under `k` (see [`key_count`]).
fn key_count_exec(items: &[BudgetItem], k: &Vec<char>) -> (r: usize)
    ensures
        r == key_count(item_views(items@), k@),
{
    let mut n: usize = 0;
    let mut i: usize = 0;
    assert(item_views(items@).take(0) =~= Seq::<ItemV>::empty());
    while i < items.len()
        invariant
            i <= items.len(),
            n == key_count(item_views(items@).take(i as int), k@),
            n <= i,
        decreases items.len() - i,
    {
        let ghost t = item_views(items@).take(i + 1);
        assert(t.drop_last() =~= item_views(items@).take(i as int));
        match count_key_exec(&items[i]) {
            Some(c) => {
                if chars_eq(&c, k) {
                    n = n + 1;
                }
            },
            None => {},
        }
        i = i + 1;
    }
    assert(item_views(items@).take(items.len() as int) =~= item_views(items@));
    n
}

/// The group a row is folded into (see [`fold_key`]).
fn fold_key_exec(items: &[BudgetItem], it: &BudgetItem) -> (r: Option<Vec<char>>)
    ensures
        fold_key(item_views(items@), item_view(*it)) == (match r {
            Some(v) => Some(v@),
            None => None,
        }),
{
    let g: Vec<char> = if !it.group.as_str().is_empty() {
        chars_of(it.group.as_str())
    } else {
        let d = chars_of(budget_parent_dir(it.path.as_str()).as_str());
        if key_count_exec(items, &d) >= 3 {
            d
        } else {
            Vec::new()
        }
    };
    if g.len() > 0 && key_count_exec(items, &g) >= 3 {
        Some(g)
    } else {
        None
    }
}

/// Some of the first `m` keys is `g` (see [`folded_before`]).
fn folded_before_exec(keys: &Vec<Option<Vec<char>>>, g: &Vec<char>, m: usize) -> (r: bool)
    requires
        m <= keys.len(),
    ensures
        r == folded_before(key_views(keys@), g@, m as int),
{
    let mut i: usize = 0;
    let mut found = false;
    while i < m
        invariant
            i <= m <= keys.len(),
            found == folded_before(key_views(keys@), g@, i as int),
        decreases m - i,
    {
        match &keys[i] {
            Some(k) => {
                if chars_eq(k, g) {
                    found = true;
                }
            },
            None => {},
        }
        i = i + 1;
    }
    found
}

/// The summed tokens of the rows folded into `g` (see [`fold_tokens`]).
fn fold_tokens_exec(items: &[BudgetItem], keys: &Vec<Option<Vec<char>>>, g: &Vec<char>) -> (r: i64)
    requires
        keys.len() == items.len(),
        forall|m: int|
            0 <= m <= items.len() ==> i64::MIN <= #[trigger] fold_tokens(
                item_views(items@),
                key_views(keys@),
                g@,
                m,
            ) <= i64::MAX,
    ensures
        r == fold_tokens(item_views(items@), key_views(keys@), g@, items.len() as int),
{
    let mut sum: i64 = 0;
    let mut i: usize = 0;
    while i < items.len()
        invariant
            i <= items.len() == keys.len(),
            sum == fold_tokens(item_views(items@), key_views(keys@), g@, i as int),
            forall|m: int|
                0 <= m <= items.len() ==> i64::MIN <= #[trigger] fold_tokens(
                    item_views(items@),
                    key_views(keys@),
                    g@,
                    m,
                ) <= i64::MAX,
        decreases items.len() - i,
    {
        let hit = match &keys[i] {
            Some(k) => chars_eq(k, g),
            None => false,
        };
        if hit {
            assert(fold_tokens(item_views(items@), key_views(keys@), g@, i + 1) == sum
                + items@[i as int].tokens);
            sum = sum + items[i].tokens;
        }
        i = i + 1;
    }
    sum
}

/// The reason of the row that stands for `g` (see [`fold_reason`]).
fn fold_reason_exec(items: &[BudgetItem], keys: &Vec<Option<Vec<char>>>, g: &Vec<char>) -> (r: Vec<char>)
    requires
        keys.len() == items.len(),
    ensures
        r@ == fold_reason(item_views(items@), key_views(keys@), g@, items.len() as int),
{
    let mut reason: Vec<char> = Vec::new();
    let mut seen = false;
    let mut i: usize = 0;
    while i < items.len()
        invariant
            i <= items.len() == keys.len(),
            reason@ == fold_reason(item_views(items@), key_views(keys@), g@, i as int),
            seen == folded_before(key_views(keys@), g@, i as int),
        decreases items.len() - i,
    {
        let hit = match &keys[i] {
            Some(k) => chars_eq(k, g),
            None => false,
        };
        if hit {
            let own = chars_of(items[i].reason.as_str());
            if !seen {
                reason = own;
            } else if !chars_eq(&reason, &own) {
                reason = chars_of("multiple reasons");
            }
            seen = true;
        }
        i = i + 1;
    }
    reason
}

/// The fold group of each row (see [`fold_keys`]).
fn fold_keys_exec(items: &[BudgetItem]) -> (r: Vec<Option<Vec<char>>>)
    ensures
        r.len() == items.len(),
        key_views(r@) == fold_keys(item_views(items@)),
{
    let mut keys: Vec<Option<Vec<char>>> = Vec::new();
    let mut i: usize = 0;
    while i < items.len()
        invariant
            i <= items.len(),
            keys.len() == i,
            key_views(keys@) == fold_keys(item_views(items@)).take(i as int),
        decreases items.len() - i,
    {
        let k = fold_key_exec(items, &items[i]);
        assert(item_views(items@)[i as int] == item_view(items@[i as int]));
        let ghost before = keys@;
        keys.push(k);
        assert(keys@ == before.push(k));
        i = i + 1;
        assert(key_views(keys@) =~= fold_keys(item_views(items@)).take(i as int));
    }
    assert(fold_keys(item_views(items@)).take(items.len() as int) =~= fold_keys(item_views(items@)));
    keys
}

/// The row that holds the place of group `g`.
fn group_row_exec(g: &Vec<char>) -> (r: BudgetItem)
    ensures
        item_view(r) == group_row(g@),
{
    let mut p = g.clone();
    append_str(&mut p, "/**");
    BudgetItem { path: string_of(&p), tokens: 0, reason: String::new(), group: String::new() }
}

/// Collapses each group of three or more rows into one `dir/**` row that
/// carries their summed tokens and their reason (`multiple reasons` where
/// they differ), placed where the first of them stood; other rows keep
/// their order.
pub fn aggregate_budget_items(items: &[BudgetItem]) -> (r: Vec<BudgetItem>)
    requires
        fold_sums_fit(item_views(items@)),
    ensures
        item_views(r@) == aggregated(item_views(items@)),
{
    let ghost iv = item_views(items@);
    let keys = fold_keys_exec(items);
    let ghost kv = key_views(keys@);
    let mut rows: Vec<BudgetItem> = Vec::new();
    let mut i: usize = 0;
    while i < items.len()
        invariant
            i <= items.len() == keys.len(),
            iv == item_views(items@),
            kv == key_views(keys@),
            kv == fold_keys(iv),
            item_views(rows@) == first_rows(iv, kv, i as int),
        decreases items.len() - i,
    {
        match &keys[i] {
            None => {
                rows.push(copy_item(&items[i]));
            },
            Some(g) => {
                if !folded_before_exec(&keys, g, i) {
                    rows.push(group_row_exec(g));
                }
            },
        }
        i = i + 1;
        assert(item_views(rows@) =~= first_rows(iv, kv, i as int));
    }
    let ghost first = item_views(rows@);
    let mut out: Vec<BudgetItem> = Vec::new();
    let mut j: usize = 0;
    let suffix = chars_of("/**");
    proof {
        reveal_strlit("/**");
    }
    while j < rows.len()
        invariant
            j <= rows.len(),
            iv == item_views(items@),
            kv == key_views(keys@),
            kv == fold_keys(iv),
            keys.len() == items.len(),
            fold_sums_fit(iv),
            first == item_views(rows@),
            suffix@ == "/**"@,
            suffix@.len() == 3,
            out.len() == j,
            item_views(out@) == first.take(j as int).map_values(|x: ItemV| final_row(iv, kv, x)),
        decreases rows.len() - j,
    {
        let p = chars_of(rows[j].path.as_str());
        let ghost x = first[j as int];
        assert(x == item_view(rows@[j as int]));
        let row = if ends_with_exec(&p, &suffix) {
            let g = slice_chars(&p, 0, p.len() - 3);
            assert(g@ =~= p@.take(p@.len() - 3));
            assert(p@ =~= group_path(g@)) by {
                assert(p@.subrange(p@.len() - 3, p@.len() as int) == "/**"@);
                assert(p@ =~= p@.take(p@.len() - 3) + p@.subrange(p@.len() - 3, p@.len() as int));
            }
            if folded_before_exec(&keys, &g, keys.len()) {
                assert forall|m: int|
                    0 <= m <= items.len() implies i64::MIN <= #[trigger] fold_tokens(
                        item_views(items@),
                        key_views(keys@),
                        g@,
                        m,
                    ) <= i64::MAX by {
                    assert(fold_tokens(iv, fold_keys(iv), g@, m) == fold_tokens(iv, kv, g@, m));
                }
                let tokens = fold_tokens_exec(items, &keys, &g);
                let reason = fold_reason_exec(items, &keys, &g);
                let folded = BudgetItem {
                    path: rows[j].path.clone(),
                    tokens,
                    reason: string_of(&reason),
                    group: String::new(),
                };
                assert(item_view(folded) == final_row(iv, kv, x));
                folded
            } else {
                let same = copy_item(&rows[j]);
                assert(item_view(same) == final_row(iv, kv, x));
                same
            }
        } else {
            let same = copy_item(&rows[j]);
            assert(item_view(same) == final_row(iv, kv, x));
            same
        };
        let ghost before = out@;
        out.push(row);
        assert(out@ == before.push(row));
        assert forall|k: int| 0 <= k <= j implies #[trigger] item_views(out@)[k] == first.take(
            j + 1,
        ).map_values(|x: ItemV| final_row(iv, kv, x))[k] by {
            if k < j {
                assert(out@[k] == before[k]);
                assert(item_views(before)[k] == first.take(j as int).map_values(
                    |x: ItemV| final_row(iv, kv, x),
                )[k]);
            }
        }
        j = j + 1;
        assert(item_views(out@) =~= first.take(j as int).map_values(|x: ItemV| final_row(iv, kv, x)));
    }
    assert(first.take(rows.len() as int) =~= first);
    out
}

} // verus!
