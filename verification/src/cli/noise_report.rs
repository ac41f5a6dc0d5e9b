//! The text report of `ctx noise`: the candidates in a table, then the
//! totals.
use vstd::prelude::*;

use crate::cli::common::{format_k_tokens, format_number_i64, grouped, k_tokens_text};
use crate::cli::digest::{pad_right, push_pad_right};
use crate::cli::noise::NoiseCandidate;
use crate::text::{append_chars, append_str, chars_of, decimal, decimal_chars, push_signed, signed_decimal, string_of};

verus! {

/// A line of the candidate table: five cells, the first four padded to 4,
/// 9, 13 and 11 characters.
pub open spec fn noise_row(a: Seq<char>, b: Seq<char>, c: Seq<char>, d: Seq<char>, e: Seq<char>) -> Seq<char> {
    " "@ + pad_right(a, 4) + " "@ + pad_right(b, 9) + " "@ + pad_right(c, 13) + " "@ + pad_right(d, 11)
        + " "@ + e + "\n"@
}

/// The table lines of the first `n` candidates: rank, tokens with thousands
/// separators, reason, ignore status and path.
pub open spec fn noise_rows(cands: Seq<NoiseCandidate>, n: int) -> Seq<char>
    decreases n,
{
    if n <= 0 {
        Seq::<char>::empty()
    } else {
        noise_rows(cands, n - 1) + noise_row(
            decimal(n as nat) + "."@,
            grouped(signed_decimal(cands[n - 1].tokens as int)),
            cands[n - 1].reason@,
            cands[n - 1].gitignore_status@,
            cands[n - 1].path@,
        )
    }
}

/// The report: the table of candidates and the totals, with `percent` the
/// share of the repository's tokens that the candidates hold; a hint to
/// use `--top` when more files were found than shown.
pub open spec fn noise_text(
    cands: Seq<NoiseCandidate>,
    total_tokens: int,
    total_files: nat,
    top: nat,
    percent: int,
) -> Seq<char> {
    if cands.len() == 0 {
        "No noise candidates found.\n"@
    } else {
        "Top noise candidates by token impact:\n\n"@ + noise_row(
            "#"@,
            "Tokens"@,
            "Reason"@,
            "Gitignore"@,
            "Path"@,
        ) + noise_rows(cands, cands.len() as int) + "\nTotal noise: "@ + k_tokens_text(total_tokens)
            + " tokens across "@ + decimal(total_files) + " files ("@ + signed_decimal(percent)
            + "% of repo).\n"@ + (if total_files > top && top > 0 {
            "Showing top "@ + decimal(top) + " of "@ + decimal(total_files) + ". Use --top "@
                + decimal(total_files) + " to see all.\n"@
        } else {
            Seq::<char>::empty()
        }) + "Run `ctx noise --apply > .ctxignore` to write the proposal.\n"@
    }
}

/// Appends a line of the table (see [`noise_row`]).
fn push_noise_row(out: &mut Vec<char>, a: &[char], b: &[char], c: &[char], d: &[char], e: &[char])
    ensures
        final(out)@ == old(out)@ + noise_row(a@, b@, c@, d@, e@),
{
    let ghost start = old(out)@;
    append_str(out, " ");
    push_pad_right(out, a, 4);
    append_str(out, " ");
    push_pad_right(out, b, 9);
    append_str(out, " ");
    push_pad_right(out, c, 13);
    append_str(out, " ");
    push_pad_right(out, d, 11);
    append_str(out, " ");
    append_chars(out, e);
    append_str(out, "\n");
    assert(out@ =~= start + noise_row(a@, b@, c@, d@, e@));
}

/// The text report of `ctx noise` (see [`noise_text`]); `percent` is the
/// share of the repository's tokens held by the candidates, in whole
/// percent.
pub fn render_noise_text(
    candidates: &[NoiseCandidate],
    total_tokens: i64,
    total_files: usize,
    top: usize,
    percent: i64,
) -> (r: String)
    ensures
        r@ == noise_text(candidates@, total_tokens as int, total_files as nat, top as nat, percent as int),
{
    if candidates.len() == 0 {
        return string_of(&chars_of("No noise candidates found.\n"));
    }
    let mut out: Vec<char> = Vec::new();
    append_str(&mut out, "Top noise candidates by token impact:\n\n");
    push_noise_row(&mut out, &chars_of("#"), &chars_of("Tokens"), &chars_of("Reason"), &chars_of("Gitignore"), &chars_of("Path"));
    let ghost head = out@;
    let mut i: usize = 0;
    while i < candidates.len()
        invariant
            i <= candidates.len(),
            out@ == head + noise_rows(candidates@, i as int),
        decreases candidates.len() - i,
    {
        let c = &candidates[i];
        let mut rank = decimal_chars((i + 1) as u64);
        proof {
            reveal_strlit(".");
        }
        rank.push('.');
        assert(rank@ =~= decimal((i + 1) as nat) + "."@);
        let tokens = chars_of(format_number_i64(c.tokens).as_str());
        push_noise_row(&mut out, &rank, &tokens, &chars_of(c.reason.as_str()), &chars_of(c.gitignore_status.as_str()), &chars_of(c.path.as_str()));
        i = i + 1;
        assert(out@ =~= head + noise_rows(candidates@, i as int));
    }
    let ghost body = out@;
    append_str(&mut out, "\nTotal noise: ");
    append_str(&mut out, format_k_tokens(total_tokens).as_str());
    append_str(&mut out, " tokens across ");
    append_chars(&mut out, &decimal_chars(total_files as u64));
    append_str(&mut out, " files (");
    push_signed(&mut out, percent);
    append_str(&mut out, "% of repo).\n");
    let ghost totals = out@;
    if total_files > top && top > 0 {
        append_str(&mut out, "Showing top ");
        append_chars(&mut out, &decimal_chars(top as u64));
        append_str(&mut out, " of ");
        append_chars(&mut out, &decimal_chars(total_files as u64));
        append_str(&mut out, ". Use --top ");
        append_chars(&mut out, &decimal_chars(total_files as u64));
        append_str(&mut out, " to see all.\n");
    }
    append_str(&mut out, "Run `ctx noise --apply > .ctxignore` to write the proposal.\n");
    assert(out@ =~= noise_text(candidates@, total_tokens as int, total_files as nat, top as nat, percent as int));
    string_of(&out)
}

} // verus!
