//! The allocation report of `ctx braid`, as markdown and as plain text:
//! the strands with their share of the budget and what each selected, and
//! the merged files grouped by the strand they came from.
//!
//! A strand's share is a fraction; the report carries it as the text each
//! form prints for it (two decimals in markdown, three in plain text).
use vstd::prelude::*;

use crate::braid::types::{policy_text, MergedFile, PolicyKind};
use crate::text::{append_chars, append_str, chars_eq, chars_of, decimal, decimal_chars, push_signed, signed_decimal, string_of};

verus! {

/// What one strand was given and took.
#[derive(Debug, Clone, PartialEq, Eq)]
pub struct StrandReport {
    pub name: String,
    /// The share with two decimals.
    pub share_2dp: String,
    /// The share with three decimals.
    pub share_3dp: String,
    pub budget: i64,
    pub selected: i64,
    pub tokens: i64,
    pub policy: PolicyKind,
    pub raw_paths: i64,
    pub trim_note: String,
}

/// The outcome of a braid run.
#[derive(Debug, Clone, PartialEq)]
pub struct BraidReport {
    pub file: String,
    pub budget: i64,
    pub strands: Vec<StrandReport>,
    pub files: Vec<MergedFile>,
    pub tokens_used: i64,
    pub dry_run: bool,
}

/// The markdown row of a strand.
pub open spec fn strand_row_md(s: StrandReport) -> Seq<char> {
    "| "@ + s.name@ + " | "@ + s.share_2dp@ + " | "@ + signed_decimal(s.budget as int) + " | "@
        + signed_decimal(s.selected as int) + " | "@ + signed_decimal(s.tokens as int) + " | "@
        + policy_text(s.policy) + " |\n"@
}

/// The markdown rows of the first `n` strands.
pub open spec fn strand_rows_md(ss: Seq<StrandReport>, n: int) -> Seq<char>
    decreases n,
{
    if n <= 0 {
        Seq::<char>::empty()
    } else {
        strand_rows_md(ss, n - 1) + strand_row_md(ss[n - 1])
    }
}

/// The strand a file came from, for the file before position `k` (none
/// before the first).
pub open spec fn previous_origin(fs: Seq<MergedFile>, k: int) -> Seq<char> {
    if k <= 0 {
        Seq::<char>::empty()
    } else {
        fs[k - 1].origin@
    }
}

/// The file lines of the first `n` files: a strand heading whenever the
/// strand differs from the previous file's, then the file.
pub open spec fn file_lines_md(fs: Seq<MergedFile>, n: int) -> Seq<char>
    decreases n,
{
    if n <= 0 {
        Seq::<char>::empty()
    } else {
        let f = fs[n - 1];
        file_lines_md(fs, n - 1) + (if f.origin@ != previous_origin(fs, n - 1) {
            "### Strand: "@ + f.origin@ + "\n\n"@
        } else {
            Seq::<char>::empty()
        }) + "- "@ + f.path@ + "\n"@
    }
}

/// The markdown report: a heading with the counts and the mode, the strand
/// table, the files by strand when asked to explain or on a dry run, and
/// a note on a dry run.
pub open spec fn report_markdown(r: BraidReport, explain: bool) -> Seq<char> {
    "# CTX-BRAID: file="@ + r.file@ + " strands="@ + decimal(r.strands@.len()) + " budget="@
        + signed_decimal(r.budget as int) + " selected="@ + decimal(r.files@.len()) + " tokens_used="@
        + signed_decimal(r.tokens_used as int) + " mode="@ + (if r.dry_run {
        "dry-run"@
    } else {
        "pack"@
    }) + "\n\n"@ + "## Strand allocation\n\n"@
        + "| Strand | Share | Budget | Selected | Tokens | Policy |\n"@
        + "|--------|-------|--------|----------|--------|--------|\n"@ + strand_rows_md(
        r.strands@,
        r.strands@.len() as int,
    ) + "\n"@ + (if explain || r.dry_run {
        "## Files (by strand)\n\n"@ + file_lines_md(r.files@, r.files@.len() as int) + "\n"@
    } else {
        Seq::<char>::empty()
    }) + (if r.dry_run {
        "## Dry run\nPack body not generated. Re-run without --dry-run to materialise the bundle.\n"@
    } else {
        Seq::<char>::empty()
    })
}

/// Appends the markdown row of a strand.
fn push_strand_row_md(out: &mut Vec<char>, s: &StrandReport)
    ensures
        final(out)@ == old(out)@ + strand_row_md(*s),
{
    let ghost start = old(out)@;
    append_str(out, "| ");
    append_str(out, s.name.as_str());
    append_str(out, " | ");
    append_str(out, s.share_2dp.as_str());
    append_str(out, " | ");
    push_signed(out, s.budget);
    append_str(out, " | ");
    push_signed(out, s.selected);
    append_str(out, " | ");
    push_signed(out, s.tokens);
    append_str(out, " | ");
    append_str(out, s.policy.as_str());
    append_str(out, " |\n");
    assert(out@ =~= start + strand_row_md(*s));
}

/// Appends the file lines (see [`file_lines_md`]).
fn push_file_lines_md(out: &mut Vec<char>, fs: &Vec<MergedFile>)
    ensures
        final(out)@ == old(out)@ + file_lines_md(fs@, fs@.len() as int),
{
    let ghost start = old(out)@;
    let mut current: Vec<char> = Vec::new();
    let mut i: usize = 0;
    while i < fs.len()
        invariant
            i <= fs.len(),
            current@ == previous_origin(fs@, i as int),
            out@ == start + file_lines_md(fs@, i as int),
        decreases fs.len() - i,
    {
        let o = chars_of(fs[i].origin.as_str());
        if !chars_eq(&o, &current) {
            append_str(out, "### Strand: ");
            append_chars(out, &o);
            append_str(out, "\n\n");
        }
        append_str(out, "- ");
        append_str(out, fs[i].path.as_str());
        append_str(out, "\n");
        current = o;
        i = i + 1;
        assert(out@ =~= start + file_lines_md(fs@, i as int));
    }
}

/// The markdown report (see [`report_markdown`]).
pub fn render_markdown(res: &BraidReport, explain: bool) -> (r: String)
    ensures
        r@ == report_markdown(*res, explain),
{
    let mut out = chars_of("# CTX-BRAID: file=");
    append_str(&mut out, res.file.as_str());
    append_str(&mut out, " strands=");
    append_chars(&mut out, &decimal_chars(res.strands.len() as u64));
    append_str(&mut out, " budget=");
    push_signed(&mut out, res.budget);
    append_str(&mut out, " selected=");
    append_chars(&mut out, &decimal_chars(res.files.len() as u64));
    append_str(&mut out, " tokens_used=");
    push_signed(&mut out, res.tokens_used);
    append_str(&mut out, " mode=");
    append_str(&mut out, if res.dry_run { "dry-run" } else { "pack" });
    append_str(&mut out, "\n\n");
    append_str(&mut out, "## Strand allocation\n\n");
    append_str(&mut out, "| Strand | Share | Budget | Selected | Tokens | Policy |\n");
    append_str(&mut out, "|--------|-------|--------|----------|--------|--------|\n");
    let ghost head = out@;
    let mut i: usize = 0;
    while i < res.strands.len()
        invariant
            i <= res.strands.len(),
            out@ == head + strand_rows_md(res.strands@, i as int),
        decreases res.strands.len() - i,
    {
        push_strand_row_md(&mut out, &res.strands[i]);
        i = i + 1;
        assert(out@ =~= head + strand_rows_md(res.strands@, i as int));
    }
    append_str(&mut out, "\n");
    let ghost table = out@;
    if explain || res.dry_run {
        append_str(&mut out, "## Files (by strand)\n\n");
        push_file_lines_md(&mut out, &res.files);
        append_str(&mut out, "\n");
    }
    if res.dry_run {
        append_str(
            &mut out,
            "## Dry run\nPack body not generated. Re-run without --dry-run to materialise the bundle.\n",
        );
    }
    assert(out@ =~= report_markdown(*res, explain));
    string_of(&out)
}

/// The plain line of a strand.
pub open spec fn strand_line_plain(s: StrandReport) -> Seq<char> {
    s.name@ + "\tshare="@ + s.share_3dp@ + "\tbudget="@ + signed_decimal(s.budget as int)
        + "\tselected="@ + signed_decimal(s.selected as int) + "\ttokens="@ + signed_decimal(
        s.tokens as int,
    ) + "\tpolicy="@ + policy_text(s.policy) + "\n"@
}

/// The plain lines of the first `n` strands.
pub open spec fn strand_lines_plain(ss: Seq<StrandReport>, n: int) -> Seq<char>
    decreases n,
{
    if n <= 0 {
        Seq::<char>::empty()
    } else {
        strand_lines_plain(ss, n - 1) + strand_line_plain(ss[n - 1])
    }
}

/// The plain lines of the first `n` files: strand, tab, path.
pub open spec fn file_lines_plain(fs: Seq<MergedFile>, n: int) -> Seq<char>
    decreases n,
{
    if n <= 0 {
        Seq::<char>::empty()
    } else {
        file_lines_plain(fs, n - 1) + fs[n - 1].origin@ + "\t"@ + fs[n - 1].path@ + "\n"@
    }
}

/// The plain report: a line of counts, a line per strand, a line per file.
pub open spec fn report_plain(r: BraidReport) -> Seq<char> {
    "file="@ + r.file@ + " budget="@ + signed_decimal(r.budget as int) + " strands="@ + decimal(
        r.strands@.len(),
    ) + " selected="@ + decimal(r.files@.len()) + " tokens="@ + signed_decimal(r.tokens_used as int)
        + " dry_run="@ + (if r.dry_run {
        "true"@
    } else {
        "false"@
    }) + "\n"@ + strand_lines_plain(r.strands@, r.strands@.len() as int) + file_lines_plain(
        r.files@,
        r.files@.len() as int,
    )
}

/// Appends the plain line of a strand.
fn push_strand_line_plain(out: &mut Vec<char>, s: &StrandReport)
    ensures
        final(out)@ == old(out)@ + strand_line_plain(*s),
{
    let ghost start = old(out)@;
    append_str(out, s.name.as_str());
    append_str(out, "\tshare=");
    append_str(out, s.share_3dp.as_str());
    append_str(out, "\tbudget=");
    push_signed(out, s.budget);
    append_str(out, "\tselected=");
    push_signed(out, s.selected);
    append_str(out, "\ttokens=");
    push_signed(out, s.tokens);
    append_str(out, "\tpolicy=");
    append_str(out, s.policy.as_str());
    append_str(out, "\n");
    assert(out@ =~= start + strand_line_plain(*s));
}

/// The plain report (see [`report_plain`]).
pub fn render_plain(res: &BraidReport) -> (r: String)
    ensures
        r@ == report_plain(*res),
{
    let mut out = chars_of("file=");
    append_str(&mut out, res.file.as_str());
    append_str(&mut out, " budget=");
    push_signed(&mut out, res.budget);
    append_str(&mut out, " strands=");
    append_chars(&mut out, &decimal_chars(res.strands.len() as u64));
    append_str(&mut out, " selected=");
    append_chars(&mut out, &decimal_chars(res.files.len() as u64));
    append_str(&mut out, " tokens=");
    push_signed(&mut out, res.tokens_used);
    append_str(&mut out, " dry_run=");
    append_str(&mut out, if res.dry_run { "true" } else { "false" });
    append_str(&mut out, "\n");
    let ghost head = out@;
    let mut i: usize = 0;
    while i < res.strands.len()
        invariant
            i <= res.strands.len(),
            out@ == head + strand_lines_plain(res.strands@, i as int),
        decreases res.strands.len() - i,
    {
        push_strand_line_plain(&mut out, &res.strands[i]);
        i = i + 1;
        assert(out@ =~= head + strand_lines_plain(res.strands@, i as int));
    }
    let ghost mid = out@;
    let mut j: usize = 0;
    while j < res.files.len()
        invariant
            j <= res.files.len(),
            out@ == mid + file_lines_plain(res.files@, j as int),
        decreases res.files.len() - j,
    {
        append_str(&mut out, res.files[j].origin.as_str());
        append_str(&mut out, "\t");
        append_str(&mut out, res.files[j].path.as_str());
        append_str(&mut out, "\n");
        j = j + 1;
        assert(out@ =~= mid + file_lines_plain(res.files@, j as int));
    }
    assert(out@ =~= report_plain(*res));
    string_of(&out)
}

} // verus!
