//! Which subcommands a strand source may name.
use vstd::prelude::*;

use crate::text::{
    chars_eq, chars_of, lower, lower_exec, string_of, vec_views, ws_tokens, ws_tokens_exec,
};

verus! {

/// The first token of `toks` that is not `ctx`, lowered; empty when there is
/// none.
pub open spec fn first_subcommand(toks: Seq<Seq<char>>) -> Seq<char>
    decreases toks.len(),
{
    if toks.len() == 0 {
        Seq::empty()
    } else if toks[0] == "ctx"@ {
        first_subcommand(toks.drop_first())
    } else {
        lower(toks[0])
    }
}

/// The subcommand a strand source names: its first whitespace-separated
/// token other than a leading `ctx`, with ASCII letters lowered.
pub open spec fn subcommand_of(source: Seq<char>) -> Seq<char> {
    first_subcommand(ws_tokens(source))
}

/// The subcommands a strand source may name.
pub open spec fn is_supported(name: Seq<char>) -> bool {
    name == "where"@ || name == "focus"@ || name == "digest"@
}

/// The subcommand of a strand source (its first token other than `ctx`,
/// lower-cased), or the empty string.
pub fn strand_subcommand(source: &str) -> (r: String)
    ensures
        r@ == subcommand_of(source@),
{
    let toks = ws_tokens_exec(&chars_of(source));
    let ctx = chars_of("ctx");
    let mut i: usize = 0;
    assert(vec_views(toks@).skip(0) =~= vec_views(toks@));
    while i < toks.len()
        invariant
            i <= toks.len(),
            ctx@ == "ctx"@,
            first_subcommand(vec_views(toks@).skip(i as int)) == subcommand_of(source@),
        decreases toks.len() - i,
    {
        let ghost rest = vec_views(toks@).skip(i as int);
        assert(rest.drop_first() =~= vec_views(toks@).skip(i + 1));
        assert(rest[0] == toks@[i as int]@);
        if !chars_eq(&toks[i], &ctx) {
            let lowered = lower_exec(&toks[i]);
            return string_of(&lowered);
        }
        i = i + 1;
    }
    assert(vec_views(toks@).skip(i as int) =~= Seq::<Seq<char>>::empty());
    String::new()
}

/// Whether `name` is one of the accepted strand subcommands
/// (`where`, `focus`, `digest`).
pub fn is_supported_source(name: &str) -> (r: bool)
    ensures
        r == is_supported(name@),
{
    let v = chars_of(name);
    chars_eq(&v, &chars_of("where")) || chars_eq(&v, &chars_of("focus")) || chars_eq(
        &v,
        &chars_of("digest"),
    )
}

} // verus!
