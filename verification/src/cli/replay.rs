//! The command line of `ctx replay`, and the text it prints: column-aligned
//! tables and snapshot times.
use vstd::prelude::*;

use crate::cli::common::{flag_value, flag_value_of};
use crate::cli::log_args::{is_word, next_arg};
use crate::text::{
    append_chars, chars_of, first_index_of, has_char, is_first_index, slice_chars, string_of,
    views,
};

verus! {

/// A `ctx replay` subcommand.
#[derive(Debug, Clone, PartialEq, Eq)]
pub enum ReplayCommand {
    List,
    Show { id: String },
    Prune { older_than: String },
    Diff { a: String, b: String, by: String, format: String },
}

/// A `ctx replay` subcommand, by view.
pub enum ReplayCommandView {
    List,
    Show { id: Seq<char> },
    Prune { older_than: Seq<char> },
    Diff { a: Seq<char>, b: Seq<char>, by: Seq<char>, format: Seq<char> },
}

impl ReplayCommand {
    /// The view of the subcommand.
    pub open spec fn view_of(self) -> ReplayCommandView {
        match self {
            ReplayCommand::List => ReplayCommandView::List,
            ReplayCommand::Show { id } => ReplayCommandView::Show { id: id@ },
            ReplayCommand::Prune { older_than } => ReplayCommandView::Prune {
                older_than: older_than@,
            },
            ReplayCommand::Diff { a, b, by, format } => ReplayCommandView::Diff {
                a: a@,
                b: b@,
                by: by@,
                format: format@,
            },
        }
    }
}

/// The options of `ctx replay`.
#[derive(Debug, Clone, PartialEq, Eq)]
pub struct ReplayArgs {
    pub command: ReplayCommand,
    pub shared: bool,
    pub json: bool,
}

/// What the arguments of `ctx replay` read so far have set.
pub struct ReplayScan {
    pub saw: bool,
    pub shared: bool,
    pub json: bool,
    pub sub: Option<Seq<char>>,
    pub positionals: Seq<Seq<char>>,
    pub older_than: Seq<char>,
    pub by: Seq<char>,
    pub format: Seq<char>,
}

/// Nothing read yet: diffs grouped by tier, in markdown.
pub open spec fn replay_start() -> ReplayScan {
    ReplayScan {
        saw: false,
        shared: false,
        json: false,
        sub: None,
        positionals: Seq::empty(),
        older_than: Seq::empty(),
        by: "tier"@,
        format: "markdown"@,
    }
}

/// Reads the arguments from `i` on; `None` when one is refused.
pub open spec fn replay_scan(args: Seq<Seq<char>>, i: int, st: ReplayScan) -> Option<ReplayScan>
    decreases args.len() - i,
{
    if i < 0 || i >= args.len() {
        Some(st)
    } else {
        let a = args[i];
        let has_next = i + 1 < args.len();
        if a == "--json"@ {
            replay_scan(args, i + 1, ReplayScan { json: true, ..st })
        } else if a == "--shared"@ {
            replay_scan(args, i + 1, ReplayScan { shared: true, ..st })
        } else if a == "replay"@ {
            if st.saw {
                None
            } else {
                replay_scan(args, i + 1, ReplayScan { saw: true, ..st })
            }
        } else if flag_value_of(a, "--older-than"@) is Some {
            replay_scan(
                args,
                i + 1,
                ReplayScan { older_than: flag_value_of(a, "--older-than"@)->0, ..st },
            )
        } else if a == "--older-than"@ {
            if !has_next {
                None
            } else {
                replay_scan(args, i + 2, ReplayScan { older_than: args[i + 1], ..st })
            }
        } else if flag_value_of(a, "--by"@) is Some {
            replay_scan(args, i + 1, ReplayScan { by: flag_value_of(a, "--by"@)->0, ..st })
        } else if a == "--by"@ {
            if !has_next {
                None
            } else {
                replay_scan(args, i + 2, ReplayScan { by: args[i + 1], ..st })
            }
        } else if flag_value_of(a, "--format"@) is Some {
            replay_scan(args, i + 1, ReplayScan { format: flag_value_of(a, "--format"@)->0, ..st })
        } else if a == "--format"@ {
            if !has_next {
                None
            } else {
                replay_scan(args, i + 2, ReplayScan { format: args[i + 1], ..st })
            }
        } else if flag_value_of(a, "--replay-engine"@) is Some {
            replay_scan(args, i + 1, st)
        } else if a == "--replay-engine"@ {
            if !has_next {
                None
            } else {
                replay_scan(args, i + 2, st)
            }
        } else if a.len() > 0 && a[0] == '-' {
            None
        } else if st.saw && st.sub is None {
            replay_scan(args, i + 1, ReplayScan { sub: Some(a), ..st })
        } else if st.saw {
            replay_scan(args, i + 1, ReplayScan { positionals: st.positionals.push(a), ..st })
        } else {
            None
        }
    }
}

/// The subcommand that the arguments read ask for: `list` and `prune` take
/// no argument (`prune` needs `--older-than`), `show` one id, `diff` two.
pub open spec fn replay_command_of(st: ReplayScan) -> Option<ReplayCommandView> {
    match st.sub {
        None => None,
        Some(sub) => if sub == "list"@ {
            if st.positionals.len() == 0 {
                Some(ReplayCommandView::List)
            } else {
                None
            }
        } else if sub == "show"@ {
            if st.positionals.len() == 1 {
                Some(ReplayCommandView::Show { id: st.positionals[0] })
            } else {
                None
            }
        } else if sub == "prune"@ {
            if st.positionals.len() == 0 && st.older_than.len() > 0 {
                Some(ReplayCommandView::Prune { older_than: st.older_than })
            } else {
                None
            }
        } else if sub == "diff"@ {
            if st.positionals.len() == 2 {
                Some(
                    ReplayCommandView::Diff {
                        a: st.positionals[0],
                        b: st.positionals[1],
                        by: st.by,
                        format: st.format,
                    },
                )
            } else {
                None
            }
        } else {
            None
        },
    }
}

/// What a command line asks of `ctx replay`: the subcommand and the
/// `--shared` and `--json` switches, or `None` when it is refused.
pub open spec fn replay_request(args: Seq<Seq<char>>) -> Option<(ReplayCommandView, bool, bool)> {
    match replay_scan(args, 0, replay_start()) {
        None => None,
        Some(st) => match replay_command_of(st) {
            None => None,
            Some(c) => Some((c, st.shared, st.json)),
        },
    }
}

/// Reads the command line of `ctx replay` (see [`replay_request`]).
pub fn parse_replay_args(args: &[String]) -> (r: Option<ReplayArgs>)
    ensures
        match r {
            Some(p) => replay_request(views(args@)) == Some((p.command.view_of(), p.shared, p.json)),
            None => replay_request(views(args@)) is None,
        },
{
    let ghost all = views(args@);
    let mut saw = false;
    let mut shared = false;
    let mut json = false;
    let mut sub: Option<String> = None;
    let mut positionals: Vec<String> = Vec::new();
    let mut older_than = String::new();
    let mut by = "tier".to_owned();
    let mut format = "markdown".to_owned();
    let mut i: usize = 0;
    assert(views(positionals@) =~= Seq::<Seq<char>>::empty());
    while i < args.len()
        invariant
            all == views(args@),
            i <= args.len(),
            replay_scan(all, 0, replay_start()) == replay_scan(
                all,
                i as int,
                ReplayScan {
                    saw,
                    shared,
                    json,
                    sub: match sub {
                        Some(s) => Some(s@),
                        None => None,
                    },
                    positionals: views(positionals@),
                    older_than: older_than@,
                    by: by@,
                    format: format@,
                },
            ),
        decreases args.len() - i,
    {
        let arg = &args[i];
        let a = chars_of(arg.as_str());
        assert(a@ == all[i as int]);
        if is_word(&a, "--json") {
            json = true;
            i = i + 1;
        } else if is_word(&a, "--shared") {
            shared = true;
            i = i + 1;
        } else if is_word(&a, "replay") {
            if saw {
                return None;
            }
            saw = true;
            i = i + 1;
        } else if let Some(v) = flag_value(arg.as_str(), "--older-than") {
            older_than = v;
            i = i + 1;
        } else if is_word(&a, "--older-than") {
            match next_arg(args, i) {
                None => return None,
                Some(v) => {
                    assert(v@ == all[i + 1]);
                    older_than = v.clone();
                },
            }
            i = i + 2;
        } else if let Some(v) = flag_value(arg.as_str(), "--by") {
            by = v;
            i = i + 1;
        } else if is_word(&a, "--by") {
            match next_arg(args, i) {
                None => return None,
                Some(v) => {
                    assert(v@ == all[i + 1]);
                    by = v.clone();
                },
            }
            i = i + 2;
        } else if let Some(v) = flag_value(arg.as_str(), "--format") {
            format = v;
            i = i + 1;
        } else if is_word(&a, "--format") {
            match next_arg(args, i) {
                None => return None,
                Some(v) => {
                    assert(v@ == all[i + 1]);
                    format = v.clone();
                },
            }
            i = i + 2;
        } else if flag_value(arg.as_str(), "--replay-engine").is_some() {
            i = i + 1;
        } else if is_word(&a, "--replay-engine") {
            if next_arg(args, i).is_none() {
                return None;
            }
            i = i + 2;
        } else if a.len() > 0 && a[0] == '-' {
            return None;
        } else if saw && sub.is_none() {
            sub = Some(arg.clone());
            i = i + 1;
        } else if saw {
            let ghost before = views(positionals@);
            positionals.push(arg.clone());
            assert(views(positionals@) =~= before.push(a@));
            i = i + 1;
        } else {
            return None;
        }
    }
    let command = match sub {
        None => return None,
        Some(s) => {
            let sc = chars_of(s.as_str());
            if is_word(&sc, "list") {
                if positionals.len() != 0 {
                    return None;
                }
                ReplayCommand::List
            } else if is_word(&sc, "show") {
                if positionals.len() != 1 {
                    return None;
                }
                ReplayCommand::Show { id: positionals[0].clone() }
            } else if is_word(&sc, "prune") {
                if positionals.len() != 0 || older_than.as_str().is_empty() {
                    return None;
                }
                ReplayCommand::Prune { older_than }
            } else if is_word(&sc, "diff") {
                if positionals.len() != 2 {
                    return None;
                }
                ReplayCommand::Diff {
                    a: positionals[0].clone(),
                    b: positionals[1].clone(),
                    by,
                    format,
                }
            } else {
                return None;
            }
        },
    };
    Some(ReplayArgs { command, shared, json })
}

/// The time of a snapshot as shown in lists: an RFC 3339 UTC time
/// `DATE`T`TIME`Z` becomes `DATE TIME`, without fractional seconds; any
/// other text is shown as it is.
pub open spec fn created_at_text(raw: Seq<char>) -> Seq<char> {
    if raw.len() > 0 && raw.last() == 'Z' && has_char(raw.drop_last(), 'T') {
        let s = raw.drop_last();
        let k = first_index_of(s, 'T');
        let time = s.skip(k + 1);
        let whole = if has_char(time, '.') {
            time.take(first_index_of(time, '.'))
        } else {
            time
        };
        s.take(k) + seq![' '] + whole
    } else {
        raw
    }
}

/// Shows a snapshot time (see [`created_at_text`]).
pub fn display_replay_created_at(raw: &str) -> (r: String)
    ensures
        r@ == created_at_text(raw@),
{
    let v = chars_of(raw);
    if v.len() == 0 || v[v.len() - 1] != 'Z' {
        return raw.to_owned();
    }
    let s = slice_chars(&v, 0, v.len() - 1);
    assert(s@ =~= v@.drop_last());
    match crate::text::find_char(&s, 'T') {
        None => raw.to_owned(),
        Some(k) => {
            proof {
                crate::text::lemma_first_index_of(s@, 'T');
            }
            let time = slice_chars(&s, k + 1, s.len());
            assert(time@ =~= s@.skip(k + 1));
            let whole = match crate::text::find_char(&time, '.') {
                None => time,
                Some(d) => {
                    let w = slice_chars(&time, 0, d);
                    assert(w@ =~= time@.take(d as int));
                    w
                },
            };
            let mut out = slice_chars(&s, 0, k);
            assert(out@ =~= s@.take(k as int));
            out.push(' ');
            append_chars(&mut out, &whole);
            string_of(&out)
        },
    }
}

/// The widest cell of column `j` among `rows`, in characters.
pub open spec fn column_width(rows: Seq<Seq<Seq<char>>>, j: int) -> nat
    decreases rows.len(),
{
    if rows.len() == 0 {
        0
    } else {
        let w = column_width(rows.drop_last(), j);
        let c = rows.last()[j].len();
        if c > w {
            c
        } else {
            w
        }
    }
}

/// `n` spaces.
pub open spec fn spaces(n: nat) -> Seq<char> {
    Seq::new(n, |i: int| ' ')
}

/// The cells `0..k` of a row, each but the last of the five padded to its
/// column's width plus `padding` spaces.
pub open spec fn row_cells(rows: Seq<Seq<Seq<char>>>, row: Seq<Seq<char>>, k: int, padding: nat) -> Seq<char>
    decreases k,
{
    if k <= 0 {
        Seq::empty()
    } else {
        let j = k - 1;
        row_cells(rows, row, j, padding) + row[j] + (if j < 4 {
            spaces((column_width(rows, j) - row[j].len() + padding) as nat)
        } else {
            Seq::empty()
        })
    }
}

/// The lines of `shown`, the first rows of the table `rows`.
pub open spec fn table_lines(rows: Seq<Seq<Seq<char>>>, shown: Seq<Seq<Seq<char>>>, padding: nat) -> Seq<char>
    decreases shown.len(),
{
    if shown.len() == 0 {
        Seq::empty()
    } else {
        table_lines(rows, shown.drop_last(), padding) + row_cells(rows, shown.last(), 5, padding) + seq!['\n']
    }
}

/// The views of the cells of each row.
pub open spec fn row_views(rows: Seq<[String; 5]>) -> Seq<Seq<Seq<char>>> {
    Seq::new(rows.len(), |i: int| views(rows[i]@))
}

/// `n` spaces appended to `out`.
fn push_spaces(out: &mut Vec<char>, n: usize)
    ensures
        final(out)@ == old(out)@ + spaces(n as nat),
{
    let ghost start = out@;
    let mut k: usize = 0;
    while k < n
        invariant
            k <= n,
            out@ == start + spaces(k as nat),
        decreases n - k,
    {
        out.push(' ');
        k = k + 1;
        assert(out@ =~= start + spaces(k as nat));
    }
}

/// The rows as a table of five columns, as Go's `tabwriter` with no minimum
/// width, `padding` spaces of padding and space fill writes it: each cell
/// but the last padded to the width of its column, measured in characters,
/// plus `padding`.
pub fn tabwriter_format(rows: &[[String; 5]], padding: usize) -> (r: String)
    requires
        forall|i: int, j: int|
            0 <= i < rows.len() && 0 <= j < 5 ==> #[trigger] rows@[i]@[j]@.len() + padding
                <= usize::MAX,
    ensures
        r@ == table_lines(row_views(rows@), row_views(rows@), padding as nat),
{
    let ghost all = row_views(rows@);
    let mut widths: Vec<usize> = vec![0, 0, 0, 0, 0];
    let mut i: usize = 0;
    assert(all.take(0) =~= Seq::<Seq<Seq<char>>>::empty());
    while i < rows.len()
        invariant
            i <= rows.len(),
            all == row_views(rows@),
            widths.len() == 5,
            forall|j: int| 0 <= j < 5 ==> #[trigger] widths@[j] == column_width(all.take(i as int), j),
        decreases rows.len() - i,
    {
        assert(all.take(i + 1).drop_last() =~= all.take(i as int));
        assert(all.take(i + 1).last() == views(rows@[i as int]@));
        let mut j: usize = 0;
        while j < 5
            invariant
                i < rows.len(),
                j <= 5,
                all == row_views(rows@),
                widths.len() == 5,
                all.take(i + 1).drop_last() == all.take(i as int),
                all.take(i + 1).last() == views(rows@[i as int]@),
                forall|q: int| 0 <= q < j ==> #[trigger] widths@[q] == column_width(all.take(i + 1), q),
                forall|q: int| j <= q < 5 ==> #[trigger] widths@[q] == column_width(all.take(i as int), q),
            decreases 5 - j,
        {
            let row = &rows[i];
            let n = chars_of(row[j].as_str()).len();
            assert(views(rows@[i as int]@)[j as int] == rows@[i as int]@[j as int]@);
            if n > widths[j] {
                widths.set(j, n);
            }
            j = j + 1;
        }
        i = i + 1;
    }
    assert(all.take(rows.len() as int) =~= all);
    let mut out: Vec<char> = Vec::new();
    let mut r: usize = 0;
    assert(all.take(0) =~= Seq::<Seq<Seq<char>>>::empty());
    while r < rows.len()
        invariant
            r <= rows.len(),
            all == row_views(rows@),
            widths.len() == 5,
            forall|j: int| 0 <= j < 5 ==> #[trigger] widths@[j] == column_width(all, j),
            forall|i: int, j: int|
                0 <= i < rows.len() && 0 <= j < 5 ==> #[trigger] rows@[i]@[j]@.len() + padding
                    <= usize::MAX,
            out@ == table_lines(all, all.take(r as int), padding as nat),
        decreases rows.len() - r,
    {
        assert(all.take(r + 1).drop_last() =~= all.take(r as int));
        assert(all.take(r + 1).last() == views(rows@[r as int]@));
        let ghost line_start = out@;
        let ghost row_v = views(rows@[r as int]@);
        let mut j: usize = 0;
        while j < 5
            invariant
                r < rows.len(),
                j <= 5,
                all == row_views(rows@),
                widths.len() == 5,
                forall|q: int| 0 <= q < 5 ==> #[trigger] widths@[q] == column_width(all, q),
                forall|i: int, q: int|
                    0 <= i < rows.len() && 0 <= q < 5 ==> #[trigger] rows@[i]@[q]@.len() + padding
                        <= usize::MAX,
                row_v == views(rows@[r as int]@),
                out@ == line_start + row_cells(all, row_v, j as int, padding as nat),
            decreases 5 - j,
        {
            let row = &rows[r];
            let cell = chars_of(row[j].as_str());
            assert(row_v[j as int] == cell@);
            append_chars(&mut out, &cell);
            if j < 4 {
                proof {
                    lemma_column_width_bound(all, r as int, j as int);
                    let w = lemma_column_width_witness(all, j as int);
                    assert(all[w][j as int] == rows@[w]@[j as int]@);
                }
                let pad = widths[j] - cell.len() + padding;
                push_spaces(&mut out, pad);
            }
            assert(out@ =~= line_start + row_cells(all, row_v, j + 1, padding as nat));
            j = j + 1;
        }
        out.push('\n');
        r = r + 1;
        assert(out@ =~= table_lines(all, all.take(r as int), padding as nat));
    }
    assert(all.take(rows.len() as int) =~= all);
    string_of(&out)
}

/// A column of a table with rows is as wide as one of its cells.
proof fn lemma_column_width_witness(rows: Seq<Seq<Seq<char>>>, j: int) -> (w: int)
    requires
        rows.len() > 0,
    ensures
        0 <= w < rows.len(),
        rows[w][j].len() == column_width(rows, j),
    decreases rows.len(),
{
    if rows.len() == 1 {
        assert(column_width(rows.drop_last(), j) == 0);
        assert(rows.last() == rows[0]);
        0
    } else {
        let w = lemma_column_width_witness(rows.drop_last(), j);
        assert(rows.drop_last()[w] == rows[w]);
        if rows.last()[j].len() > column_width(rows.drop_last(), j) {
            rows.len() - 1
        } else {
            w
        }
    }
}

/// A column is at least as wide as each of its cells.
proof fn lemma_column_width_bound(rows: Seq<Seq<Seq<char>>>, i: int, j: int)
    requires
        0 <= i < rows.len(),
    ensures
        rows[i][j].len() <= column_width(rows, j),
    decreases rows.len(),
{
    if i < rows.len() - 1 {
        lemma_column_width_bound(rows.drop_last(), i, j);
        assert(rows.drop_last()[i] == rows[i]);
    }
}

/// The text of the first `k` cells of a row, `k` at most four, is as long
/// as the padded widths of those columns.
proof fn lemma_row_cells_len(rows: Seq<Seq<Seq<char>>>, r: int, k: int, padding: nat)
    requires
        0 <= r < rows.len(),
        0 <= k <= 4,
        rows[r].len() == 5,
    ensures
        row_cells(rows, rows[r], k, padding).len() == prefix_width(rows, k, padding),
    decreases k,
{
    if k > 0 {
        lemma_row_cells_len(rows, r, k - 1, padding);
        lemma_column_width_bound(rows, r, k - 1);
    }
}

/// The padded width of the first `k` columns.
pub open spec fn prefix_width(rows: Seq<Seq<Seq<char>>>, k: int, padding: nat) -> int
    decreases k,
{
    if k <= 0 {
        0
    } else {
        prefix_width(rows, k - 1, padding) + column_width(rows, k - 1) + padding
    }
}

/// The columns of a table line up: in every row, the first `k` cells (`k`
/// at most four) take the same number of characters, so cell `k` starts at
/// the same column in every line.
pub proof fn law_tabwriter_columns_align(
    rows: Seq<Seq<Seq<char>>>,
    r1: int,
    r2: int,
    k: int,
    padding: nat,
)
    requires
        0 <= r1 < rows.len(),
        0 <= r2 < rows.len(),
        0 <= k <= 4,
        rows[r1].len() == 5,
        rows[r2].len() == 5,
    ensures
        row_cells(rows, rows[r1], k, padding).len() == row_cells(rows, rows[r2], k, padding).len(),
{
    lemma_row_cells_len(rows, r1, k, padding);
    lemma_row_cells_len(rows, r2, k, padding);
}

} // verus!
