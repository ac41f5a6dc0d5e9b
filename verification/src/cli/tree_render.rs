//! The text rows of a budget plan: each file or group padded to a common
//! width, with its tokens or the reason it was left out.
use vstd::prelude::*;

use crate::cli::digest::{byte_len, pad_right};
use crate::cli::tree_budget::BudgetItem;
use crate::cli::tree_text::{format_grouped_number, grouped_number};
use crate::text::{append_chars, append_str, chars_of, string_of};

verus! {

/// The widest path among the first `n` items, in UTF-8 bytes.
pub open spec fn path_width(items: Seq<BudgetItem>, n: int) -> int
    decreases n,
{
    if n <= 0 {
        0
    } else {
        let w = path_width(items, n - 1);
        let b = byte_len(items[n - 1].path@);
        if b > w {
            b
        } else {
            w
        }
    }
}

/// The width of the path column: the widest path, and at least 28.
pub open spec fn column_width_of(items: Seq<BudgetItem>) -> int {
    let w = path_width(items, items.len() as int);
    if w > 28 {
        w
    } else {
        28
    }
}

/// The width of the path column (see [`column_width_of`]).
pub fn max_budget_path_width(items: &[BudgetItem]) -> (r: usize)
    ensures
        r as int == column_width_of(items@),
{
    let mut width: usize = 0;
    let mut k: usize = 0;
    while k < items.len()
        invariant
            k <= items.len(),
            width as int == path_width(items@, k as int),
        decreases items.len() - k,
    {
        let n = items[k].path.as_str().len();
        if n > width {
            width = n;
        }
        k = k + 1;
    }
    if width > 28 {
        width
    } else {
        28
    }
}

/// One row: the connector (`└─ ` for the last row, `├─ ` otherwise), the
/// path padded to `width` characters, two spaces, then the tokens with
/// grouped digits or the reason.
pub open spec fn budget_row(item: BudgetItem, width: int, show_tokens: bool, last: bool) -> Seq<char> {
    (if last {
        "\u{2514}\u{2500} "@
    } else {
        "\u{251c}\u{2500} "@
    }) + pad_right(item.path@, width) + "  "@ + (if show_tokens {
        grouped_number(item.tokens as int) + " tokens"@
    } else {
        item.reason@
    }) + "\n"@
}

/// The rows of the first `n` items.
pub open spec fn budget_rows(items: Seq<BudgetItem>, width: int, show_tokens: bool, n: int) -> Seq<char>
    decreases n,
{
    if n <= 0 {
        Seq::empty()
    } else {
        budget_rows(items, width, show_tokens, n - 1) + budget_row(
            items[n - 1],
            width,
            show_tokens,
            n - 1 == items.len() - 1,
        )
    }
}

/// The rows of a budget list: a lone `└─ -` when it is empty.
pub open spec fn budget_items_text(items: Seq<BudgetItem>, show_tokens: bool) -> Seq<char> {
    if items.len() == 0 {
        "\u{2514}\u{2500} -\n"@
    } else {
        budget_rows(items, column_width_of(items), show_tokens, items.len() as int)
    }
}

/// Appends one row (see [`budget_row`]).
fn push_budget_row(out: &mut Vec<char>, item: &BudgetItem, width: usize, show_tokens: bool, last: bool)
    ensures
        final(out)@ == old(out)@ + budget_row(*item, width as int, show_tokens, last),
{
    let ghost start = out@;
    if last {
        append_str(out, "\u{2514}\u{2500} ");
    } else {
        append_str(out, "\u{251c}\u{2500} ");
    }
    crate::cli::digest::push_pad_right(out, &chars_of(item.path.as_str()), width);
    append_str(out, "  ");
    if show_tokens {
        append_str(out, format_grouped_number(item.tokens).as_str());
        append_str(out, " tokens");
    } else {
        append_str(out, item.reason.as_str());
    }
    append_str(out, "\n");
    assert(out@ =~= start + budget_row(*item, width as int, show_tokens, last));
}

/// Appends the rows of a budget list (see [`budget_items_text`]).
pub fn render_budget_items(out: &mut String, items: &[BudgetItem], show_tokens: bool)
    ensures
        final(out)@ == old(out)@ + budget_items_text(items@, show_tokens),
{
    let mut t = chars_of(out.as_str());
    if items.len() == 0 {
        append_str(&mut t, "\u{2514}\u{2500} -\n");
        *out = string_of(&t);
        return;
    }
    let width = max_budget_path_width(items);
    let ghost start = t@;
    let mut k: usize = 0;
    while k < items.len()
        invariant
            k <= items.len(),
            width as int == column_width_of(items@),
            t@ == start + budget_rows(items@, width as int, show_tokens, k as int),
        decreases items.len() - k,
    {
        push_budget_row(&mut t, &items[k], width, show_tokens, k == items.len() - 1);
        k = k + 1;
    }
    *out = string_of(&t);
}

} // verus!
