//! The markdown of `ctx replay diff`: how the selection of files changed
//! between two pack snapshots, one table per kind of change.
//!
//! Scores and tiers are carried as the text the snapshots show for them.
use vstd::prelude::*;

use crate::cli::replay::{row_views, table_lines, tabwriter_format};
use crate::text::{append_chars, append_str, chars_of, decimal, decimal_chars, push_signed, signed_decimal, string_of, views};

verus! {

/// A file whose place in the selection changed.
#[derive(Debug, Clone, PartialEq, Eq)]
pub struct SelectionChange {
    pub path: String,
    pub base_score: String,
    pub cur_score: String,
    pub base_tier: String,
    pub cur_tier: String,
    pub base_tokens: i64,
    pub cur_tokens: i64,
    pub reason_change: String,
}

/// The changes, by kind.
#[derive(Debug, Clone, PartialEq, Eq)]
pub struct SelectionChanges {
    pub added: Vec<SelectionChange>,
    pub promoted: Vec<SelectionChange>,
    pub demoted: Vec<SelectionChange>,
    pub removed: Vec<SelectionChange>,
    pub score_changed: Vec<SelectionChange>,
}

/// How many changes of each kind there are.
#[derive(Debug, Clone, Copy, PartialEq, Eq)]
pub struct SelectionCounts {
    pub added: usize,
    pub removed: usize,
    pub promoted: usize,
    pub demoted: usize,
    pub score_changed: usize,
}

/// The difference between the selections of snapshots `a` and `b`.
#[derive(Debug, Clone, PartialEq, Eq)]
pub struct SelectionSummary {
    pub a: String,
    pub b: String,
    pub changes: SelectionChanges,
    pub summary: SelectionCounts,
}

/// A kind of change, each with a table of its own.
#[derive(Debug, Clone, Copy, PartialEq, Eq)]
pub enum Section {
    Added,
    Promoted,
    Demoted,
    Removed,
    ScoreChanged,
}

/// A table cell.
pub open spec fn cell(s: Seq<char>) -> Seq<char> {
    "| "@ + s
}

/// A tier, or `-` when there is none.
pub open spec fn tier_or_dash(t: Seq<char>) -> Seq<char> {
    if t.len() == 0 {
        "-"@
    } else {
        t
    }
}

/// A value before and after.
pub open spec fn arrow(a: Seq<char>, b: Seq<char>) -> Seq<char> {
    a + " \u{2192} "@ + b
}

/// The row of a change in the table of its kind: added and removed files
/// show their score, tier and tokens in the snapshot that has them;
/// promoted and demoted files the score and tier before and after and the
/// tokens after; files whose score changed within a tier the scores, the
/// tier and why.
pub open spec fn change_row(k: Section, c: SelectionChange) -> Seq<Seq<char>> {
    match k {
        Section::Added => seq![
            cell(c.path@),
            cell(c.cur_score@),
            cell(tier_or_dash(c.cur_tier@)),
            cell(signed_decimal(c.cur_tokens as int)),
            "|"@,
        ],
        Section::Removed => seq![
            cell(c.path@),
            cell(c.base_score@),
            cell(tier_or_dash(c.base_tier@)),
            cell(signed_decimal(c.base_tokens as int)),
            "|"@,
        ],
        Section::ScoreChanged => seq![
            cell(c.path@),
            cell(arrow(c.base_score@, c.cur_score@)),
            cell(tier_or_dash(c.cur_tier@)),
            cell(c.reason_change@),
            "|"@,
        ],
        _ => seq![
            cell(c.path@),
            cell(arrow(c.base_score@, c.cur_score@)),
            cell(arrow(c.base_tier@, c.cur_tier@)),
            cell(signed_decimal(c.cur_tokens as int)),
            "|"@,
        ],
    }
}

/// The heading row of the table of a kind.
pub open spec fn head_row(k: Section) -> Seq<Seq<char>> {
    match k {
        Section::Added => seq!["| Path"@, "| Score"@, "| Tier"@, "| Tokens"@, "|"@],
        Section::Removed => seq!["| Path"@, "| Score"@, "| Tier"@, "| Tokens"@, "|"@],
        Section::ScoreChanged => seq!["| Path"@, "| Score A\u{2192}B"@, "| Tier"@, "| Reason"@, "|"@],
        _ => seq!["| Path"@, "| Score A\u{2192}B"@, "| Tier A\u{2192}B"@, "| Tokens"@, "|"@],
    }
}

/// The rule under the heading.
pub open spec fn rule_row() -> Seq<Seq<char>> {
    seq!["|---"@, "|---"@, "|---"@, "|---"@, "|"@]
}

/// The rows of the table of a kind.
pub open spec fn section_rows(k: Section, cs: Seq<SelectionChange>) -> Seq<Seq<Seq<char>>> {
    seq![head_row(k), rule_row()] + Seq::new(cs.len(), |i: int| change_row(k, cs[i]))
}

/// The tokens of the first `n` changes, after (`cur`) or before.
pub open spec fn token_sum(cs: Seq<SelectionChange>, n: int, cur: bool) -> int
    decreases n,
{
    if n <= 0 {
        0
    } else {
        token_sum(cs, n - 1, cur) + if cur {
            cs[n - 1].cur_tokens as int
        } else {
            cs[n - 1].base_tokens as int
        }
    }
}

/// The heading of the section of a kind.
pub open spec fn section_title(k: Section, cs: Seq<SelectionChange>) -> Seq<char> {
    match k {
        Section::Added => "**Added** ("@ + decimal(cs.len()) + " file(s), +"@ + signed_decimal(
            token_sum(cs, cs.len() as int, true),
        ) + " tokens)\n"@,
        Section::Promoted => "**Promoted** ("@ + decimal(cs.len()) + " file(s))\n"@,
        Section::Demoted => "**Demoted** ("@ + decimal(cs.len()) + " file(s))\n"@,
        Section::Removed => "**Removed** ("@ + decimal(cs.len()) + " file(s), -"@ + signed_decimal(
            token_sum(cs, cs.len() as int, false),
        ) + " tokens)\n"@,
        Section::ScoreChanged => "**Score Changed (same tier)** ("@ + decimal(cs.len())
            + " file(s))\n"@,
    }
}

/// The section of a kind: none without changes, else its heading, its
/// table (columns aligned with two spaces) and a blank line.
pub open spec fn section_text(k: Section, cs: Seq<SelectionChange>) -> Seq<char> {
    if cs.len() == 0 {
        Seq::<char>::empty()
    } else {
        let rows = section_rows(k, cs);
        section_title(k, cs) + table_lines(rows, rows, 2) + "\n"@
    }
}

/// The whole diff: a title naming both snapshots, the sections of added,
/// promoted, demoted, removed and re-scored files, and a note when the
/// counts show no change at all.
pub open spec fn replay_diff_text(s: SelectionSummary) -> Seq<char> {
    let c = s.changes;
    let n = s.summary;
    "# Replay Diff \u{2014} "@ + s.a@ + " \u{2192} "@ + s.b@ + "\n\n"@ + section_text(
        Section::Added,
        c.added@,
    ) + section_text(Section::Promoted, c.promoted@) + section_text(Section::Demoted, c.demoted@)
        + section_text(Section::Removed, c.removed@) + section_text(
        Section::ScoreChanged,
        c.score_changed@,
    ) + (if n.added == 0 && n.removed == 0 && n.promoted == 0 && n.demoted == 0
        && n.score_changed == 0 {
        "_No selection changes between the two snapshots._\n"@
    } else {
        Seq::<char>::empty()
    })
}

/// Every running token sum of a list fits in an `i64`.
pub open spec fn sums_fit(cs: Seq<SelectionChange>, cur: bool) -> bool {
    forall|n: int| 0 <= n <= cs.len() ==> i64::MIN <= #[trigger] token_sum(cs, n, cur) <= i64::MAX
}

/// Every cell of a table is short enough to be padded.
pub open spec fn cells_fit(k: Section, cs: Seq<SelectionChange>) -> bool {
    forall|i: int, j: int|
        0 <= i < cs.len() && 0 <= j < 5 ==> #[trigger] change_row(k, cs[i])[j].len() + 2 <= usize::MAX
}

/// What rendering a summary needs: token sums and cells that fit.
pub open spec fn diff_fits(s: SelectionSummary) -> bool {
    let c = s.changes;
    &&& sums_fit(c.added@, true)
    &&& sums_fit(c.removed@, false)
    &&& cells_fit(Section::Added, c.added@)
    &&& cells_fit(Section::Promoted, c.promoted@)
    &&& cells_fit(Section::Demoted, c.demoted@)
    &&& cells_fit(Section::Removed, c.removed@)
    &&& cells_fit(Section::ScoreChanged, c.score_changed@)
}

/// A cell holding `s` (see [`cell`]).
fn cell_exec(s: &[char]) -> (r: String)
    ensures
        r@ == cell(s@),
{
    let mut v = chars_of("| ");
    append_chars(&mut v, s);
    string_of(&v)
}

/// A tier or `-` (see [`tier_or_dash`]).
fn tier_exec(t: &str) -> (r: Vec<char>)
    ensures
        r@ == tier_or_dash(t@),
{
    if t.is_empty() {
        chars_of("-")
    } else {
        chars_of(t)
    }
}

/// A value before and after (see [`arrow`]).
fn arrow_exec(a: &str, b: &str) -> (r: Vec<char>)
    ensures
        r@ == arrow(a@, b@),
{
    let mut v = chars_of(a);
    append_str(&mut v, " \u{2192} ");
    append_str(&mut v, b);
    v
}

/// The decimal form of a signed number.
fn signed_chars(n: i64) -> (r: Vec<char>)
    ensures
        r@ == signed_decimal(n as int),
{
    let mut v: Vec<char> = Vec::new();
    push_signed(&mut v, n);
    v
}

/// The row of a change (see [`change_row`]).
fn change_row_exec(k: Section, c: &SelectionChange) -> (r: [String; 5])
    ensures
        views(r@) == change_row(k, *c),
{
    let p = cell_exec(&chars_of(c.path.as_str()));
    let end = string_of(&chars_of("|"));
    let r = match k {
        Section::Added => [
            p,
            cell_exec(&chars_of(c.cur_score.as_str())),
            cell_exec(&tier_exec(c.cur_tier.as_str())),
            cell_exec(&signed_chars(c.cur_tokens)),
            end,
        ],
        Section::Removed => [
            p,
            cell_exec(&chars_of(c.base_score.as_str())),
            cell_exec(&tier_exec(c.base_tier.as_str())),
            cell_exec(&signed_chars(c.base_tokens)),
            end,
        ],
        Section::ScoreChanged => [
            p,
            cell_exec(&arrow_exec(c.base_score.as_str(), c.cur_score.as_str())),
            cell_exec(&tier_exec(c.cur_tier.as_str())),
            cell_exec(&chars_of(c.reason_change.as_str())),
            end,
        ],
        _ => [
            p,
            cell_exec(&arrow_exec(c.base_score.as_str(), c.cur_score.as_str())),
            cell_exec(&arrow_exec(c.base_tier.as_str(), c.cur_tier.as_str())),
            cell_exec(&signed_chars(c.cur_tokens)),
            end,
        ],
    };
    assert(views(r@) =~= change_row(k, *c));
    r
}

/// Five cells from literal texts.
fn literal_row(a: &str, b: &str, c: &str, d: &str, e: &str) -> (r: [String; 5])
    ensures
        views(r@) == seq![a@, b@, c@, d@, e@],
{
    let r = [
        string_of(&chars_of(a)),
        string_of(&chars_of(b)),
        string_of(&chars_of(c)),
        string_of(&chars_of(d)),
        string_of(&chars_of(e)),
    ];
    assert(views(r@) =~= seq![a@, b@, c@, d@, e@]);
    r
}

/// The heading row of a kind (see [`head_row`]).
fn head_row_exec(k: Section) -> (r: [String; 5])
    ensures
        views(r@) == head_row(k),
        forall|j: int| 0 <= j < 5 ==> #[trigger] head_row(k)[j].len() <= 20,
{
    proof {
        reveal_strlit("| Path");
        reveal_strlit("| Score");
        reveal_strlit("| Tier");
        reveal_strlit("| Tokens");
        reveal_strlit("|");
        reveal_strlit("| Score A\u{2192}B");
        reveal_strlit("| Tier A\u{2192}B");
        reveal_strlit("| Reason");
    }
    match k {
        Section::Added => literal_row("| Path", "| Score", "| Tier", "| Tokens", "|"),
        Section::Removed => literal_row("| Path", "| Score", "| Tier", "| Tokens", "|"),
        Section::ScoreChanged => literal_row("| Path", "| Score A\u{2192}B", "| Tier", "| Reason", "|"),
        _ => literal_row("| Path", "| Score A\u{2192}B", "| Tier A\u{2192}B", "| Tokens", "|"),
    }
}

/// The rows of the table of a kind (see [`section_rows`]).
fn section_rows_exec(k: Section, cs: &[SelectionChange]) -> (r: Vec<[String; 5]>)
    requires
        cells_fit(k, cs@),
    ensures
        row_views(r@) == section_rows(k, cs@),
        forall|i: int, j: int|
            0 <= i < r.len() && 0 <= j < 5 ==> #[trigger] r@[i]@[j]@.len() + 2 <= usize::MAX,
{
    proof {
        reveal_strlit("|---");
        reveal_strlit("|");
    }
    let mut rows: Vec<[String; 5]> = Vec::new();
    rows.push(head_row_exec(k));
    rows.push(literal_row("|---", "|---", "|---", "|---", "|"));
    let mut i: usize = 0;
    while i < cs.len()
        invariant
            i <= cs.len(),
            cells_fit(k, cs@),
            rows.len() == i + 2,
            row_views(rows@) == section_rows(k, cs@).take(i + 2),
            forall|a: int, j: int|
                0 <= a < rows.len() && 0 <= j < 5 ==> #[trigger] rows@[a]@[j]@.len() + 2 <= usize::MAX,
        decreases cs.len() - i,
    {
        let row = change_row_exec(k, &cs[i]);
        proof {
            assert forall|j: int| 0 <= j < 5 implies #[trigger] row@[j]@.len() + 2 <= usize::MAX by {
                assert(views(row@)[j] == row@[j]@);
                assert(change_row(k, cs@[i as int])[j].len() + 2 <= usize::MAX);
            }
        }
        let ghost before = rows@;
        rows.push(row);
        assert(rows@ == before.push(row));
        i = i + 1;
        assert(row_views(rows@) =~= section_rows(k, cs@).take(i + 2)) by {
            assert forall|a: int| 0 <= a < rows.len() implies #[trigger] row_views(rows@)[a]
                == section_rows(k, cs@).take(i + 2)[a] by {
                if a < rows.len() - 1 {
                    assert(row_views(before)[a] == section_rows(k, cs@).take(i + 1)[a]);
                }
            }
        }
    }
    assert(section_rows(k, cs@).take(cs.len() + 2) =~= section_rows(k, cs@));
    rows
}

/// The token sum of a list (see [`token_sum`]).
fn token_sum_exec(cs: &[SelectionChange], cur: bool) -> (r: i64)
    requires
        sums_fit(cs@, cur),
    ensures
        r == token_sum(cs@, cs.len() as int, cur),
{
    let mut sum: i64 = 0;
    let mut i: usize = 0;
    while i < cs.len()
        invariant
            i <= cs.len(),
            sums_fit(cs@, cur),
            sum == token_sum(cs@, i as int, cur),
        decreases cs.len() - i,
    {
        assert(i64::MIN <= token_sum(cs@, i + 1, cur) <= i64::MAX);
        if cur {
            sum = sum + cs[i].cur_tokens;
        } else {
            sum = sum + cs[i].base_tokens;
        }
        i = i + 1;
    }
    sum
}

/// Appends the section of a kind (see [`section_text`]).
fn push_section(out: &mut Vec<char>, k: Section, cs: &[SelectionChange])
    requires
        cells_fit(k, cs@),
        (k == Section::Added ==> sums_fit(cs@, true)),
        (k == Section::Removed ==> sums_fit(cs@, false)),
    ensures
        final(out)@ == old(out)@ + section_text(k, cs@),
{
    if cs.len() == 0 {
        assert(out@ =~= old(out)@ + section_text(k, cs@));
        return;
    }
    let ghost start = out@;
    match k {
        Section::Added => {
            append_str(out, "**Added** (");
            append_chars(out, &decimal_chars(cs.len() as u64));
            append_str(out, " file(s), +");
            push_signed(out, token_sum_exec(cs, true));
            append_str(out, " tokens)\n");
        },
        Section::Promoted => {
            append_str(out, "**Promoted** (");
            append_chars(out, &decimal_chars(cs.len() as u64));
            append_str(out, " file(s))\n");
        },
        Section::Demoted => {
            append_str(out, "**Demoted** (");
            append_chars(out, &decimal_chars(cs.len() as u64));
            append_str(out, " file(s))\n");
        },
        Section::Removed => {
            append_str(out, "**Removed** (");
            append_chars(out, &decimal_chars(cs.len() as u64));
            append_str(out, " file(s), -");
            push_signed(out, token_sum_exec(cs, false));
            append_str(out, " tokens)\n");
        },
        Section::ScoreChanged => {
            append_str(out, "**Score Changed (same tier)** (");
            append_chars(out, &decimal_chars(cs.len() as u64));
            append_str(out, " file(s))\n");
        },
    }
    assert(out@ =~= start + section_title(k, cs@));
    let rows = section_rows_exec(k, cs);
    append_str(out, tabwriter_format(&rows, 2).as_str());
    append_str(out, "\n");
    assert(out@ =~= start + section_text(k, cs@));
}

/// The markdown of a replay diff (see [`replay_diff_text`]).
pub fn write_replay_diff_markdown(s: &SelectionSummary) -> (r: String)
    requires
        diff_fits(*s),
    ensures
        r@ == replay_diff_text(*s),
{
    let mut out = chars_of("# Replay Diff \u{2014} ");
    append_str(&mut out, s.a.as_str());
    append_str(&mut out, " \u{2192} ");
    append_str(&mut out, s.b.as_str());
    append_str(&mut out, "\n\n");
    push_section(&mut out, Section::Added, s.changes.added.as_slice());
    push_section(&mut out, Section::Promoted, s.changes.promoted.as_slice());
    push_section(&mut out, Section::Demoted, s.changes.demoted.as_slice());
    push_section(&mut out, Section::Removed, s.changes.removed.as_slice());
    push_section(&mut out, Section::ScoreChanged, s.changes.score_changed.as_slice());
    let n = s.summary;
    if n.added == 0 && n.removed == 0 && n.promoted == 0 && n.demoted == 0 && n.score_changed == 0 {
        append_str(&mut out, "_No selection changes between the two snapshots._\n");
    }
    assert(out@ =~= replay_diff_text(*s));
    string_of(&out)
}

} // verus!
