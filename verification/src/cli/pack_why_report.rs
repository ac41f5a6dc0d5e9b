//! The text form of the `ctx pack --why` diagnostics: for each file, the
//! decision taken on it and, for files that exist, its score, its tier and
//! what would lift it.
use vstd::prelude::*;

use crate::text::{append_str, debug_quoted, debug_text, push_signed, signed_decimal, string_of};

verus! {

/// How a file's score is made up.
#[derive(Debug, Clone, Copy, PartialEq, Eq)]
pub struct WhyBreakdown {
    pub basename: i64,
    pub path: i64,
    pub symbol: i64,
    pub content: i64,
    pub role: i64,
}

/// What `--why` found about one file.
#[derive(Debug, Clone, PartialEq, Eq)]
pub struct WhyDiagnostic {
    pub path: String,
    pub exists: bool,
    pub score: i64,
    pub breakdown: WhyBreakdown,
    pub tier: String,
    pub decision: String,
    pub reason: String,
    pub threshold_gap: i64,
    pub next_tier: String,
    pub nearest_keyword: String,
    pub keyword_dist: i64,
}

/// The line naming the nearest keyword and its distance, with `tail`
/// before the line break; nothing when there is no keyword.
pub open spec fn keyword_line(d: WhyDiagnostic, tail: Seq<char>) -> Seq<char> {
    if d.nearest_keyword@.len() > 0 {
        "  Nearest keyword: "@ + debug_text(d.nearest_keyword@) + " (distance "@ + signed_decimal(
            d.keyword_dist as int,
        ) + ")"@ + tail + "\n"@
    } else {
        Seq::<char>::empty()
    }
}

/// The score line: the score and its parts.
pub open spec fn score_line(d: WhyDiagnostic) -> Seq<char> {
    let b = d.breakdown;
    "  Score: "@ + signed_decimal(d.score as int) + " [basename:"@ + signed_decimal(b.basename as int)
        + ", path:"@ + signed_decimal(b.path as int) + ", symbol:"@ + signed_decimal(b.symbol as int)
        + ", content:"@ + signed_decimal(b.content as int) + ", role:"@ + signed_decimal(
        b.role as int,
    ) + "]\n"@
}

/// The tier line: the tier, and the points that would reach the next one
/// when there is a next one to reach.
pub open spec fn tier_line(d: WhyDiagnostic) -> Seq<char> {
    "  Tier: "@ + d.tier@ + (if d.next_tier@.len() > 0 && d.threshold_gap > 0 {
        " (would need +"@ + signed_decimal(d.threshold_gap as int) + " to reach "@ + d.next_tier@
            + " tier)"@
    } else {
        Seq::<char>::empty()
    }) + "\n"@
}

/// The block of one file. A missing file shows its decision with the
/// reason (`file not found` when none is given) and the nearest keyword;
/// an existing one shows its decision, score, tier and nearest keyword.
pub open spec fn why_block(d: WhyDiagnostic) -> Seq<char> {
    "File: "@ + d.path@ + "\n"@ + if !d.exists {
        missing_decision(d) + keyword_line(d, Seq::<char>::empty())
    } else {
        found_decision(d) + score_line(d) + tier_line(d) + keyword_line(d, " - try refining your goal"@)
    }
}

/// The blocks of the first `n` files, separated by blank lines.
pub open spec fn why_text(ds: Seq<WhyDiagnostic>, n: int) -> Seq<char>
    decreases n,
{
    if n <= 0 {
        Seq::<char>::empty()
    } else {
        why_text(ds, n - 1) + (if n > 1 {
            "\n"@
        } else {
            Seq::<char>::empty()
        }) + why_block(ds[n - 1])
    }
}

/// Appends the nearest-keyword line (see [`keyword_line`]).
fn push_keyword_line(out: &mut Vec<char>, d: &WhyDiagnostic, tail: &str)
    ensures
        final(out)@ == old(out)@ + keyword_line(*d, tail@),
{
    let ghost start = old(out)@;
    if !d.nearest_keyword.as_str().is_empty() {
        append_str(out, "  Nearest keyword: ");
        append_str(out, debug_quoted(d.nearest_keyword.as_str()).as_str());
        append_str(out, " (distance ");
        push_signed(out, d.keyword_dist);
        append_str(out, ")");
        append_str(out, tail);
        append_str(out, "\n");
    }
    assert(out@ =~= start + keyword_line(*d, tail@));
}

/// Appends the score line (see [`score_line`]).
fn push_score_line(out: &mut Vec<char>, d: &WhyDiagnostic)
    ensures
        final(out)@ == old(out)@ + score_line(*d),
{
    let ghost start = old(out)@;
    append_str(out, "  Score: ");
    push_signed(out, d.score);
    append_str(out, " [basename:");
    push_signed(out, d.breakdown.basename);
    append_str(out, ", path:");
    push_signed(out, d.breakdown.path);
    append_str(out, ", symbol:");
    push_signed(out, d.breakdown.symbol);
    append_str(out, ", content:");
    push_signed(out, d.breakdown.content);
    append_str(out, ", role:");
    push_signed(out, d.breakdown.role);
    append_str(out, "]\n");
    assert(out@ =~= start + score_line(*d));
}

/// Appends the tier line (see [`tier_line`]).
fn push_tier_line(out: &mut Vec<char>, d: &WhyDiagnostic)
    ensures
        final(out)@ == old(out)@ + tier_line(*d),
{
    let ghost start = old(out)@;
    append_str(out, "  Tier: ");
    append_str(out, d.tier.as_str());
    if !d.next_tier.as_str().is_empty() && d.threshold_gap > 0 {
        append_str(out, " (would need +");
        push_signed(out, d.threshold_gap);
        append_str(out, " to reach ");
        append_str(out, d.next_tier.as_str());
        append_str(out, " tier)");
    }
    append_str(out, "\n");
    assert(out@ =~= start + tier_line(*d));
}

/// The decision line of a missing file.
pub open spec fn missing_decision(d: WhyDiagnostic) -> Seq<char> {
    "  Decision: "@ + d.decision@ + " ("@ + (if d.reason@.len() == 0 {
        "file not found"@
    } else {
        d.reason@
    }) + ")\n"@
}

/// The decision line of an existing file.
pub open spec fn found_decision(d: WhyDiagnostic) -> Seq<char> {
    "  Decision: "@ + d.decision@ + (if d.reason@.len() == 0 {
        Seq::<char>::empty()
    } else {
        " ("@ + d.reason@ + ")"@
    }) + "\n"@
}

/// Appends the decision line (see [`missing_decision`] and
/// [`found_decision`]).
fn push_decision(out: &mut Vec<char>, d: &WhyDiagnostic)
    ensures
        final(out)@ == old(out)@ + if d.exists {
            found_decision(*d)
        } else {
            missing_decision(*d)
        },
{
    let ghost start = old(out)@;
    let no_reason = d.reason.as_str().is_empty();
    append_str(out, "  Decision: ");
    append_str(out, d.decision.as_str());
    if !d.exists {
        append_str(out, " (");
        if no_reason {
            append_str(out, "file not found");
        } else {
            append_str(out, d.reason.as_str());
        }
        append_str(out, ")\n");
        assert(out@ =~= start + missing_decision(*d));
    } else {
        if !no_reason {
            append_str(out, " (");
            append_str(out, d.reason.as_str());
            append_str(out, ")");
        }
        append_str(out, "\n");
        assert(out@ =~= start + found_decision(*d));
    }
}

/// Appends the block of one file (see [`why_block`]).
fn push_why_block(out: &mut Vec<char>, d: &WhyDiagnostic)
    ensures
        final(out)@ == old(out)@ + why_block(*d),
{
    let ghost start = old(out)@;
    append_str(out, "File: ");
    append_str(out, d.path.as_str());
    append_str(out, "\n");
    let ghost head = out@;
    push_decision(out, d);
    if !d.exists {
        push_keyword_line(out, d, "");
        proof {
            reveal_strlit("");
            assert(""@ =~= Seq::<char>::empty());
        }
        assert(out@ =~= head + missing_decision(*d) + keyword_line(*d, Seq::<char>::empty()));
    } else {
        let ghost decided = out@;
        push_score_line(out, d);
        push_tier_line(out, d);
        push_keyword_line(out, d, " - try refining your goal");
        assert(out@ =~= head + found_decision(*d) + score_line(*d) + tier_line(*d) + keyword_line(
            *d,
            " - try refining your goal"@,
        ));
    }
    assert(head =~= start + "File: "@ + d.path@ + "\n"@);
    assert(out@ =~= start + why_block(*d));
}

/// The text form of the diagnostics (see [`why_text`]).
pub fn render_why_text(diagnostics: &[WhyDiagnostic]) -> (r: String)
    ensures
        r@ == why_text(diagnostics@, diagnostics@.len() as int),
{
    let mut out: Vec<char> = Vec::new();
    let mut i: usize = 0;
    while i < diagnostics.len()
        invariant
            i <= diagnostics.len(),
            out@ == why_text(diagnostics@, i as int),
        decreases diagnostics.len() - i,
    {
        if i > 0 {
            append_str(&mut out, "\n");
        }
        push_why_block(&mut out, &diagnostics[i]);
        i = i + 1;
        assert(out@ =~= why_text(diagnostics@, i as int));
    }
    string_of(&out)
}

} // verus!
