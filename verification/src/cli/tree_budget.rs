//! The token budget view of `ctx tree`: which files fit a budget, chosen
//! greedily by role, size and path, and how they are grouped by directory.
use vstd::prelude::*;

use crate::order::{lemma_lex_total, lemma_lex_trans, lex_le, string_le};
use crate::text::{chars_eq, chars_of, last_index_of, rfind_char, slice_chars, string_of};

verus! {

broadcast use vstd::seq_lib::group_to_multiset_ensures;

/// A file of the tree as the budget planner reads it.
#[derive(Debug, Clone, PartialEq, Eq)]
pub struct BudgetFile {
    pub path: String,
    pub tokens: i64,
    pub role: String,
}

/// A file placed in or out of the budget, with the reason and its group.
#[derive(Debug, Clone, PartialEq, Eq)]
pub struct BudgetItem {
    pub path: String,
    pub tokens: i64,
    pub reason: String,
    pub group: String,
}

/// The plan for a budget: the tokens used and the files in and out.
#[derive(Debug, Clone, PartialEq, Eq)]
pub struct BudgetResult {
    pub budget: i64,
    pub used: i64,
    pub included: Vec<BudgetItem>,
    pub excluded: Vec<BudgetItem>,
}

/// A budget item by view.
pub struct ItemV {
    pub path: Seq<char>,
    pub tokens: int,
    pub reason: Seq<char>,
    pub group: Seq<char>,
}

/// The view of an item.
pub open spec fn item_view(i: BudgetItem) -> ItemV {
    ItemV { path: i.path@, tokens: i.tokens as int, reason: i.reason@, group: i.group@ }
}

/// The views of items.
pub open spec fn item_views(s: Seq<BudgetItem>) -> Seq<ItemV> {
    s.map_values(|i: BudgetItem| item_view(i))
}

/// The priority of a role: 0 for entry points, core, routes and config; 1
/// for tests, utilities and unknown roles; 2 for docs, `unknown` and no
/// role.
pub open spec fn role_priority(role: Seq<char>) -> int {
    if role == "entry"@ || role == "core"@ || role == "route"@ || role == "config"@ {
        0
    } else if role == "test"@ || role == "util"@ {
        1
    } else if role == "doc"@ || role == "unknown"@ || role == ""@ {
        2
    } else {
        1
    }
}

/// The priority of a role (see [`role_priority`]).
pub fn budget_role_priority(role: &str) -> (r: i64)
    ensures
        r == role_priority(role@),
{
    let v = chars_of(role);
    let is = |w: &str| -> (b: bool)
        ensures
            b == (v@ == w@),
        { chars_eq(&v, &chars_of(w)) };
    if is("entry") || is("core") || is("route") || is("config") {
        0
    } else if is("test") || is("util") {
        1
    } else if is("doc") || is("unknown") || is("") {
        2
    } else {
        1
    }
}

/// The directory part of a slash path: what precedes its last `/`, or `.`.
pub open spec fn parent_dir(path: Seq<char>) -> Seq<char> {
    if last_index_of(path, '/') >= 0 {
        path.take(last_index_of(path, '/'))
    } else {
        seq!['.']
    }
}

/// The directory part of a slash path (see [`parent_dir`]).
pub fn budget_parent_dir(path: &str) -> (r: String)
    ensures
        r@ == parent_dir(path@),
{
    let v = chars_of(path);
    match rfind_char(&v, '/') {
        Some(idx) => {
            let d = slice_chars(&v, 0, idx);
            assert(d@ =~= v@.take(idx as int));
            string_of(&d)
        },
        None => {
            let mut d: Vec<char> = Vec::new();
            d.push('.');
            assert(d@ =~= seq!['.']);
            string_of(&d)
        },
    }
}

// ---------------------------------------------------------------------------
// Groups
// ---------------------------------------------------------------------------

/// How many items lie directly in directory `dir`.
pub open spec fn dir_count(items: Seq<ItemV>, dir: Seq<char>) -> nat
    decreases items.len(),
{
    if items.len() == 0 {
        0
    } else {
        dir_count(items.drop_last(), dir) + if parent_dir(items.last().path) == dir {
            1nat
        } else {
            0nat
        }
    }
}

/// The items with their group set to their directory where three or more
/// of them share that directory (the top level `.` never groups).
pub open spec fn with_groups(items: Seq<ItemV>) -> Seq<ItemV> {
    Seq::new(
        items.len(),
        |i: int|
            {
                let d = parent_dir(items[i].path);
                if d != seq!['.'] && dir_count(items, d) >= 3 {
                    ItemV { group: d, ..items[i] }
                } else {
                    items[i]
                }
            },
    )
}

/// How many items lie directly in `dir`.
fn count_in_dir(items: &Vec<BudgetItem>, dir: &Vec<char>) -> (r: usize)
    ensures
        r == dir_count(item_views(items@), dir@),
{
    let mut n: usize = 0;
    let mut i: usize = 0;
    assert(item_views(items@).take(0) =~= Seq::<ItemV>::empty());
    while i < items.len()
        invariant
            i <= items.len(),
            n == dir_count(item_views(items@).take(i as int), dir@),
            n <= i,
        decreases items.len() - i,
    {
        let ghost t = item_views(items@).take(i + 1);
        assert(t.drop_last() =~= item_views(items@).take(i as int));
        let d = budget_parent_dir(items[i].path.as_str());
        if chars_eq(&chars_of(d.as_str()), dir) {
            n = n + 1;
        }
        i = i + 1;
    }
    assert(item_views(items@).take(items.len() as int) =~= item_views(items@));
    n
}

/// `item` with its group set to `group`.
fn regroup(item: &BudgetItem, group: String) -> (r: BudgetItem)
    ensures
        item_view(r) == (ItemV { group: group@, ..item_view(*item) }),
{
    BudgetItem {
        path: item.path.clone(),
        tokens: item.tokens,
        reason: item.reason.clone(),
        group,
    }
}

/// A copy of `item`.
pub(crate) fn copy_item(item: &BudgetItem) -> (r: BudgetItem)
    ensures
        item_view(r) == item_view(*item),
{
    BudgetItem {
        path: item.path.clone(),
        tokens: item.tokens,
        reason: item.reason.clone(),
        group: item.group.clone(),
    }
}

/// Sets the group of every item whose directory holds three or more of the
/// items (see [`with_groups`]).
pub fn budget_assign_groups(items: &mut Vec<BudgetItem>)
    ensures
        item_views(final(items)@) == with_groups(item_views(old(items)@)),
{
    let snapshot = clone_items(items);
    let ghost orig = item_views(old(items)@);
    let mut out: Vec<BudgetItem> = Vec::new();
    let mut i: usize = 0;
    while i < snapshot.len()
        invariant
            i <= snapshot.len(),
            item_views(snapshot@) == orig,
            out.len() == i,
            forall|k: int| 0 <= k < i ==> #[trigger] item_view(out@[k]) == with_groups(orig)[k],
        decreases snapshot.len() - i,
    {
        let it = &snapshot[i];
        let ghost v = item_view(*it);
        assert(orig[i as int] == v);
        let d = budget_parent_dir(it.path.as_str());
        let dv = chars_of(d.as_str());
        let top = dv.len() == 1 && dv[0] == '.';
        proof {
            if top {
                assert(dv@ =~= seq!['.']);
            }
            if dv@ == seq!['.'] {
                assert(dv@.len() == 1);
            }
        }
        if !top && count_in_dir(&snapshot, &dv) >= 3 {
            out.push(regroup(it, d));
        } else {
            out.push(copy_item(it));
        }
        i = i + 1;
    }
    assert(item_views(out@) =~= with_groups(orig));
    *items = out;
}

/// Copies of the items.
fn clone_items(items: &Vec<BudgetItem>) -> (r: Vec<BudgetItem>)
    ensures
        item_views(r@) == item_views(items@),
{
    let mut out: Vec<BudgetItem> = Vec::new();
    let mut i: usize = 0;
    while i < items.len()
        invariant
            i <= items.len(),
            out.len() == i,
            forall|k: int| 0 <= k < i ==> #[trigger] item_view(out@[k]) == item_view(items@[k]),
        decreases items.len() - i,
    {
        out.push(copy_item(&items[i]));
        i = i + 1;
    }
    assert(item_views(out@) =~= item_views(items@));
    out
}

// ---------------------------------------------------------------------------
// The plan
// ---------------------------------------------------------------------------

/// A budget file by view.
pub struct FileV {
    pub path: Seq<char>,
    pub tokens: int,
    pub role: Seq<char>,
}

/// The views of files.
pub open spec fn file_views(s: Seq<BudgetFile>) -> Seq<FileV> {
    s.map_values(|f: BudgetFile| FileV { path: f.path@, tokens: f.tokens as int, role: f.role@ })
}

/// Why a file is left out before the greedy pass, if it is: no tokens
/// (`binary`), a generated file, or more than half the budget.
pub open spec fn early_reason(f: FileV, budget: int) -> Option<Seq<char>> {
    if f.tokens == 0 {
        Some("binary"@)
    } else if f.role == "generated"@ {
        Some("generated"@)
    } else if f.tokens > budget / 2 {
        Some("too large"@)
    } else {
        None
    }
}

/// The files left out before the greedy pass, in order, with their reasons.
pub open spec fn early_excluded(files: Seq<FileV>, budget: int) -> Seq<ItemV>
    decreases files.len(),
{
    if files.len() == 0 {
        Seq::empty()
    } else {
        let f = files.last();
        early_excluded(files.drop_last(), budget) + match early_reason(f, budget) {
            Some(reason) => seq![ItemV { path: f.path, tokens: f.tokens, reason, group: Seq::empty() }],
            None => Seq::empty(),
        }
    }
}

/// The files that compete for the budget, in order, with their role
/// priorities.
pub open spec fn candidates(files: Seq<FileV>, budget: int) -> Seq<(int, ItemV)>
    decreases files.len(),
{
    if files.len() == 0 {
        Seq::empty()
    } else {
        let f = files.last();
        candidates(files.drop_last(), budget) + if early_reason(f, budget) is None {
            seq![
                (
                    role_priority(f.role),
                    ItemV { path: f.path, tokens: f.tokens, reason: Seq::empty(), group: Seq::empty() },
                ),
            ]
        } else {
            Seq::empty()
        }
    }
}

/// Candidates are taken by priority, then by size, then by path.
pub open spec fn cand_le(a: (int, ItemV), b: (int, ItemV)) -> bool {
    a.0 < b.0 || (a.0 == b.0 && (a.1.tokens < b.1.tokens || (a.1.tokens == b.1.tokens && lex_le(
        a.1.path,
        b.1.path,
    ))))
}

/// `s` holds the candidates `c` in the order [`cand_le`] gives.
pub open spec fn sorted_perm_of(s: Seq<(int, ItemV)>, c: Seq<(int, ItemV)>) -> bool {
    &&& s.to_multiset() == c.to_multiset()
    &&& forall|i: int, j: int| 0 <= i < j < s.len() ==> cand_le(#[trigger] s[i], #[trigger] s[j])
}

/// The greedy pass over the ordered candidates: each is taken while it fits
/// what is left of the budget, else left out as `budget exceeded`. Gives
/// the tokens used and the items in and out.
pub open spec fn greedy(s: Seq<(int, ItemV)>, budget: int) -> (int, Seq<ItemV>, Seq<ItemV>)
    decreases s.len(),
{
    if s.len() == 0 {
        (0, Seq::empty(), Seq::empty())
    } else {
        let (used, inc, exc) = greedy(s.drop_last(), budget);
        let it = s.last().1;
        if used + it.tokens > budget {
            (used, inc, exc.push(ItemV { reason: "budget exceeded"@, ..it }))
        } else {
            (used + it.tokens, inc.push(ItemV { reason: Seq::empty(), ..it }), exc)
        }
    }
}

/// No running total of the greedy pass falls below `i64::MIN`, whichever
/// ordering of the candidates it runs over (files with negative token
/// counts lower the total).
pub open spec fn greedy_fits(files: Seq<FileV>, budget: int) -> bool {
    forall|s: Seq<(int, ItemV)>, k: int|
        #[trigger] sorted_perm_of(s, candidates(files, budget)) && 0 <= k <= s.len() ==> i64::MIN
            <= #[trigger] greedy(s.take(k), budget).0
}

/// A candidate of the exec plan.
struct Cand {
    prio: i64,
    item: BudgetItem,
}

/// The view of a candidate.
spec fn cand_view(c: Cand) -> (int, ItemV) {
    (c.prio as int, item_view(c.item))
}

/// The views of candidates.
spec fn cand_views(s: Seq<Cand>) -> Seq<(int, ItemV)> {
    s.map_values(|c: Cand| cand_view(c))
}

/// Whether candidate `a` is taken no later than `b`.
fn cand_le_exec(a: &Cand, b: &Cand) -> (r: bool)
    ensures
        r == cand_le(cand_view(*a), cand_view(*b)),
{
    a.prio < b.prio || (a.prio == b.prio && (a.item.tokens < b.item.tokens || (a.item.tokens
        == b.item.tokens && string_le(&a.item.path, &b.item.path))))
}

/// The candidate order is total.
proof fn lemma_cand_total(a: (int, ItemV), b: (int, ItemV))
    ensures
        cand_le(a, b) || cand_le(b, a),
{
    lemma_lex_total(a.1.path, b.1.path);
}

/// The candidate order is transitive.
proof fn lemma_cand_trans(a: (int, ItemV), b: (int, ItemV), c: (int, ItemV))
    requires
        cand_le(a, b),
        cand_le(b, c),
    ensures
        cand_le(a, c),
{
    if a.0 == b.0 && b.0 == c.0 && a.1.tokens == b.1.tokens && b.1.tokens == c.1.tokens {
        lemma_lex_trans(a.1.path, b.1.path, c.1.path);
    }
}

/// The candidates in [`cand_le`] order.
fn sort_cands(v: Vec<Cand>) -> (r: Vec<Cand>)
    ensures
        sorted_perm_of(cand_views(r@), cand_views(v@)),
{
    let mut out: Vec<Cand> = Vec::new();
    let mut rest = v;
    let ghost orig = cand_views(rest@);
    assert(orig.skip(orig.len() as int) =~= Seq::<(int, ItemV)>::empty());
    while rest.len() > 0
        invariant
            cand_views(rest@) == orig.take(rest.len() as int),
            rest.len() <= orig.len(),
            forall|i: int, j: int|
                0 <= i < j < out.len() ==> cand_le(
                    #[trigger] cand_views(out@)[i],
                    #[trigger] cand_views(out@)[j],
                ),
            cand_views(out@).to_multiset() == orig.skip(rest.len() as int).to_multiset(),
        decreases rest.len(),
    {
        let ghost before_rest = cand_views(rest@);
        let x = rest.pop().unwrap();
        let ghost xv = cand_view(x);
        assert(cand_views(rest@) =~= orig.take(rest.len() as int)) by {
            assert(before_rest.drop_last() =~= cand_views(rest@));
        }
        assert(before_rest.last() == xv);
        assert(orig.skip(rest.len() as int) =~= seq![xv] + orig.skip(rest.len() + 1));
        let mut p: usize = 0;
        while p < out.len() && cand_le_exec(&out[p], &x)
            invariant
                p <= out.len(),
                forall|q: int| 0 <= q < p ==> cand_le(#[trigger] cand_views(out@)[q], cand_view(x)),
            decreases out.len() - p,
        {
            p = p + 1;
        }
        let ghost old_views = cand_views(out@);
        proof {
            if p < out.len() {
                assert(!cand_le(old_views[p as int], xv));
                lemma_cand_total(old_views[p as int], xv);
                assert forall|q: int| p <= q < old_views.len() implies cand_le(
                    xv,
                    #[trigger] old_views[q],
                ) by {
                    if q > p {
                        lemma_cand_trans(xv, old_views[p as int], old_views[q]);
                    }
                }
            }
        }
        out.insert(p, x);
        proof {
            assert(cand_views(out@) =~= old_views.insert(p as int, xv));
            assert forall|a: int, b: int| 0 <= a < b < out.len() implies cand_le(
                #[trigger] cand_views(out@)[a],
                #[trigger] cand_views(out@)[b],
            ) by {
                if b < p {
                } else if a < p && b == p {
                } else if a < p && b > p {
                    lemma_cand_trans(old_views[a], xv, old_views[b - 1]);
                } else if a == p {
                } else {
                    assert(cand_le(old_views[a - 1], old_views[b - 1]));
                }
            }
            vstd::seq_lib::to_multiset_insert(old_views, p as int, xv);
            assert((seq![xv] + orig.skip(rest.len() + 1)).to_multiset() =~= orig.skip(
                rest.len() + 1,
            ).to_multiset().insert(xv)) by {
                vstd::seq_lib::lemma_multiset_commutative(seq![xv], orig.skip(rest.len() + 1));
                vstd::seq_lib::to_multiset_build(orig.skip(rest.len() + 1), xv);
                assert(orig.skip(rest.len() + 1).push(xv) =~= orig.skip(rest.len() + 1) + seq![xv]);
            }
        }
    }
    assert(orig.skip(0) =~= orig);
    out
}

/// An item with the given reason and no group.
fn make_item(path: &String, tokens: i64, reason: &str) -> (r: BudgetItem)
    ensures
        item_view(r) == (ItemV {
            path: path@,
            tokens: tokens as int,
            reason: reason@,
            group: Seq::empty(),
        }),
{
    BudgetItem { path: path.clone(), tokens, reason: reason.to_owned(), group: String::new() }
}

/// An item with no reason and no group.
fn blank_item(path: &String, tokens: i64) -> (r: BudgetItem)
    ensures
        item_view(r) == (ItemV {
            path: path@,
            tokens: tokens as int,
            reason: Seq::empty(),
            group: Seq::empty(),
        }),
{
    BudgetItem { path: path.clone(), tokens, reason: String::new(), group: String::new() }
}

/// `item` with its reason cleared.
fn without_reason(item: BudgetItem) -> (r: BudgetItem)
    ensures
        item_view(r) == (ItemV { reason: Seq::empty(), ..item_view(item) }),
{
    BudgetItem { reason: String::new(), ..item }
}

/// `item` with its reason set to `reason`.
fn with_reason(item: BudgetItem, reason: &str) -> (r: BudgetItem)
    ensures
        item_view(r) == (ItemV { reason: reason@, ..item_view(item) }),
{
    BudgetItem { reason: reason.to_owned(), ..item }
}

/// The greedy budget plan over the files of a tree: files without tokens,
/// generated files and files over half the budget are left out first; the
/// others are taken in (priority, tokens, path) order while they fit; then
/// both lists are grouped by directory. A budget that is not positive
/// takes nothing.
pub fn budget_plan(files: &[BudgetFile], token_budget: i64) -> (r: BudgetResult)
    requires
        token_budget <= i64::MAX / 3 * 2,
        token_budget > 0 ==> greedy_fits(file_views(files@), token_budget as int),
    ensures
        r.budget == token_budget,
        token_budget <= 0 ==> r.used == 0 && r.included.len() == 0 && r.excluded.len() == 0,
        token_budget > 0 ==> exists|s: Seq<(int, ItemV)>|
            #[trigger] sorted_perm_of(s, candidates(file_views(files@), token_budget as int)) && {
                let (used, inc, exc) = greedy(s, token_budget as int);
                &&& r.used == used
                &&& item_views(r.included@) == with_groups(inc)
                &&& item_views(r.excluded@) == with_groups(
                    early_excluded(file_views(files@), token_budget as int) + exc,
                )
            },
{
    if token_budget <= 0 {
        return BudgetResult { budget: token_budget, used: 0, included: Vec::new(), excluded: Vec::new() };
    }
    let ghost fv = file_views(files@);
    let ghost b = token_budget as int;
    let mut excluded: Vec<BudgetItem> = Vec::new();
    let mut cands: Vec<Cand> = Vec::new();
    let mut i: usize = 0;
    assert(fv.take(0) =~= Seq::<FileV>::empty());
    while i < files.len()
        invariant
            i <= files.len(),
            fv == file_views(files@),
            b == token_budget,
            token_budget > 0,
            item_views(excluded@) == early_excluded(fv.take(i as int), b),
            cand_views(cands@) == candidates(fv.take(i as int), b),
            forall|k: int| 0 <= k < cands.len() ==> (#[trigger] cands@[k]).item.tokens <= token_budget / 2,
        decreases files.len() - i,
    {
        let f = &files[i];
        let ghost t = fv.take(i + 1);
        assert(t.drop_last() =~= fv.take(i as int));
        assert(t.last() == fv[i as int]);
        let ghost before_ex = item_views(excluded@);
        let ghost before_c = cand_views(cands@);
        let tokens = f.tokens;
        let role = chars_of(f.role.as_str());
        if tokens == 0 {
            excluded.push(make_item(&f.path, tokens, "binary"));
            assert(item_views(excluded@) =~= before_ex.push(item_view(excluded@.last())));
            assert(cand_views(cands@) =~= before_c + Seq::<(int, ItemV)>::empty());
        } else if chars_eq(&role, &chars_of("generated")) {
            excluded.push(make_item(&f.path, tokens, "generated"));
            assert(item_views(excluded@) =~= before_ex.push(item_view(excluded@.last())));
            assert(cand_views(cands@) =~= before_c + Seq::<(int, ItemV)>::empty());
        } else if tokens > token_budget / 2 {
            excluded.push(make_item(&f.path, tokens, "too large"));
            assert(item_views(excluded@) =~= before_ex.push(item_view(excluded@.last())));
            assert(cand_views(cands@) =~= before_c + Seq::<(int, ItemV)>::empty());
        } else {
            let prio = budget_role_priority(f.role.as_str());
            cands.push(Cand { prio, item: blank_item(&f.path, tokens) });
            assert(cand_views(cands@) =~= before_c.push(cand_view(cands@.last())));
            assert(item_views(excluded@) =~= before_ex + Seq::<ItemV>::empty());
        }
        i = i + 1;
    }
    assert(fv.take(files.len() as int) =~= fv);
    let sorted = sort_cands(cands);
    let ghost s = cand_views(sorted@);
    let ghost early = item_views(excluded@);
    proof {
        assert forall|k: int| 0 <= k < sorted.len() implies (#[trigger] sorted@[k]).item.tokens
            <= token_budget / 2 by {
            assert(s.to_multiset().count(s[k]) > 0);
            assert(cand_views(cands@).to_multiset().count(s[k]) > 0);
            let j = choose|j: int| 0 <= j < cands.len() && cand_views(cands@)[j] == s[k];
            assert(cand_views(cands@).contains(s[k]));
        }
    }
    let mut used: i64 = 0;
    let mut included: Vec<BudgetItem> = Vec::new();
    let mut over: Vec<BudgetItem> = Vec::new();
    let ghost order = s;
    proof {
        assert(sorted_perm_of(order, candidates(file_views(files@), token_budget as int)));
        assert forall|m: int| 0 <= m <= order.len() implies i64::MIN <= #[trigger] greedy(
            order.take(m),
            token_budget as int,
        ).0 by {
            assert(sorted_perm_of(order, candidates(file_views(files@), token_budget as int)));
        }
    }
    // Reverse the candidates so that each can be moved out from the back.
    let mut src = sorted;
    let mut rest: Vec<Cand> = Vec::new();
    while src.len() > 0
        invariant
            src.len() + rest.len() == order.len(),
            forall|j: int| 0 <= j < src.len() ==> cand_view(#[trigger] src@[j]) == order[j],
            forall|j: int| 0 <= j < rest.len() ==> cand_view(#[trigger] rest@[j]) == order[order.len() - 1 - j],
        decreases src.len(),
    {
        let ghost n = src.len();
        let c = src.pop().unwrap();
        assert(cand_view(c) == order[n - 1]);
        rest.push(c);
    }
    let mut k: usize = 0;
    assert(order.take(0) =~= Seq::<(int, ItemV)>::empty());
    while rest.len() > 0
        invariant
            k + rest.len() == order.len(),
            order.len() <= usize::MAX,
            forall|j: int| 0 <= j < rest.len() ==> cand_view(#[trigger] rest@[j]) == order[order.len() - 1 - j],
            forall|j: int| 0 <= j < order.len() ==> (#[trigger] order[j]).1.tokens <= token_budget / 2,
            token_budget > 0,
            token_budget <= i64::MAX / 3 * 2,
            forall|m: int| 0 <= m <= order.len() ==> i64::MIN <= #[trigger] greedy(order.take(m), token_budget as int).0,
            ({
                let (u, inc, exc) = greedy(order.take(k as int), token_budget as int);
                &&& used == u
                &&& item_views(included@) == inc
                &&& item_views(over@) == exc
            }),
            i64::MIN <= used <= token_budget,
        decreases rest.len(),
    {
        let c = rest.pop().unwrap();
        let ghost t = order.take(k + 1);
        assert(t.drop_last() =~= order.take(k as int));
        assert(cand_view(c) == order[k as int]);
        assert(t.last() == order[k as int]);
        let ghost before_in = item_views(included@);
        let ghost before_over = item_views(over@);
        let tokens = c.item.tokens;
        assert(i64::MIN <= greedy(order.take(k + 1), token_budget as int).0);
        if used + tokens > token_budget {
            over.push(with_reason(c.item, "budget exceeded"));
            assert(item_views(over@) =~= before_over.push(item_view(over@.last())));
        } else {
            used = used + tokens;
            included.push(without_reason(c.item));
            assert(item_views(included@) =~= before_in.push(item_view(included@.last())));
        }
        k = k + 1;
    }
    assert(order.take(k as int) =~= order);
    let ghost g = greedy(order, token_budget as int);
    let ghost exc = item_views(over@);
    let mut all_excluded = excluded;
    let mut j: usize = 0;
    while j < over.len()
        invariant
            j <= over.len(),
            item_views(all_excluded@) == early + exc.take(j as int),
            exc == item_views(over@),
        decreases over.len() - j,
    {
        let ghost before = item_views(all_excluded@);
        all_excluded.push(copy_item(&over[j]));
        assert(item_views(all_excluded@) =~= before.push(exc[j as int]));
        assert(exc.take(j + 1) =~= exc.take(j as int).push(exc[j as int]));
        j = j + 1;
    }
    assert(exc.take(over.len() as int) =~= exc);
    budget_assign_groups(&mut included);
    budget_assign_groups(&mut all_excluded);
    assert(sorted_perm_of(s, candidates(fv, b)));
    BudgetResult { budget: token_budget, used, included, excluded: all_excluded }
}

/// The tokens of the items, summed.
pub open spec fn tokens_total(s: Seq<ItemV>) -> int
    decreases s.len(),
{
    if s.len() == 0 {
        0
    } else {
        tokens_total(s.drop_last()) + s.last().tokens
    }
}

/// With no negative token counts, the greedy pass takes files within the
/// budget and leaves out as `budget exceeded` only files that do not fit:
/// every candidate is either taken or left out, the taken tokens add up to
/// what is used and stay within the budget, and each file left out would
/// take the total past the budget even beside everything taken. So a file
/// that still fits is never left out, whatever came before it.
pub proof fn law_greedy_leaves_out_only_what_does_not_fit(s: Seq<(int, ItemV)>, budget: int)
    requires
        budget >= 0,
        forall|i: int| 0 <= i < s.len() ==> (#[trigger] s[i]).1.tokens >= 0,
    ensures
        ({
            let (used, inc, exc) = greedy(s, budget);
            &&& inc.len() + exc.len() == s.len()
            &&& used == tokens_total(inc)
            &&& used <= budget
            &&& forall|i: int| 0 <= i < exc.len() ==> used + (#[trigger] exc[i]).tokens > budget
            &&& forall|i: int| 0 <= i < exc.len() ==> (#[trigger] exc[i]).reason == "budget exceeded"@
        }),
    decreases s.len(),
{
    if s.len() > 0 {
        let rest = s.drop_last();
        assert forall|i: int| 0 <= i < rest.len() implies (#[trigger] rest[i]).1.tokens >= 0 by {
            assert(rest[i] == s[i]);
        }
        law_greedy_leaves_out_only_what_does_not_fit(rest, budget);
        let (u, inc, exc) = greedy(rest, budget);
        let it = s.last().1;
        assert(it.tokens >= 0) by {
            assert(s[s.len() - 1] == s.last());
        }
        if u + it.tokens > budget {
            let e2 = exc.push(ItemV { reason: "budget exceeded"@, ..it });
            assert forall|i: int| 0 <= i < e2.len() implies u + (#[trigger] e2[i]).tokens > budget by {
                if i < exc.len() {
                    assert(e2[i] == exc[i]);
                }
            }
            assert forall|i: int| 0 <= i < e2.len() implies (#[trigger] e2[i]).reason == "budget exceeded"@ by {
                if i < exc.len() {
                    assert(e2[i] == exc[i]);
                }
            }
        } else {
            let i2 = inc.push(ItemV { reason: Seq::empty(), ..it });
            assert(i2.drop_last() =~= inc);
            assert(tokens_total(i2) == u + it.tokens);
            assert forall|i: int| 0 <= i < exc.len() implies u + it.tokens + (#[trigger] exc[i]).tokens
                > budget by {
            }
        }
    }
}

} // verus!
