//! Tokenising a strand source the way a POSIX shell would, for the subset
//! braid needs:
//!
//! - space, tab, CR and LF outside quotes separate tokens;
//! - single quotes quote a literal run, with no escapes;
//! - double quotes quote a run in which only `\"` and `\\` are escapes; any
//!   other backslash is kept as written;
//! - quoted and bare runs that touch form one token.
//!
//! An unclosed quote is an error.
use vstd::prelude::*;

use crate::text::{chars_eq, chars_of, strings_of, vec_views, views};

verus! {

/// Why a source could not be tokenised.
#[derive(Debug, Clone, PartialEq, Eq, Structural)]
pub enum ShellSplitError {
    UnclosedSingleQuote,
    UnclosedDoubleQuote,
}

impl ShellSplitError {
    /// The message of the error (`unclosed single quote` /
    /// `unclosed double quote`).
    pub fn message(&self) -> (r: String)
        ensures
            r@ == (match self {
                ShellSplitError::UnclosedSingleQuote => "unclosed single quote"@,
                ShellSplitError::UnclosedDoubleQuote => "unclosed double quote"@,
            }),
    {
        match self {
            ShellSplitError::UnclosedSingleQuote => "unclosed single quote".to_owned(),
            ShellSplitError::UnclosedDoubleQuote => "unclosed double quote".to_owned(),
        }
    }
}

/// The separators outside quotes.
pub open spec fn is_separator(c: char) -> bool {
    c == ' ' || c == '\t' || c == '\r' || c == '\n'
}

/// Tokenises `rest`, given the tokens finished so far (`out`), the token
/// being read (`cur`), whether a single or double quote is open, and whether
/// a token has been started (`open`; a pair of empty quotes starts one).
pub open spec fn split_run(
    out: Seq<Seq<char>>,
    cur: Seq<char>,
    in_single: bool,
    in_double: bool,
    open: bool,
    rest: Seq<char>,
) -> Result<Seq<Seq<char>>, ShellSplitError>
    decreases rest.len(),
{
    if rest.len() == 0 {
        if in_single {
            Err(ShellSplitError::UnclosedSingleQuote)
        } else if in_double {
            Err(ShellSplitError::UnclosedDoubleQuote)
        } else if open {
            Ok(out.push(cur))
        } else {
            Ok(out)
        }
    } else {
        let ch = rest[0];
        if in_single {
            if ch == '\'' {
                split_run(out, cur, false, in_double, open, rest.drop_first())
            } else {
                split_run(out, cur.push(ch), in_single, in_double, open, rest.drop_first())
            }
        } else if in_double {
            if ch == '\\' && rest.len() > 1 && (rest[1] == '"' || rest[1] == '\\') {
                split_run(out, cur.push(rest[1]), in_single, in_double, open, rest.skip(2))
            } else if ch == '"' {
                split_run(out, cur, in_single, false, open, rest.drop_first())
            } else {
                split_run(out, cur.push(ch), in_single, in_double, open, rest.drop_first())
            }
        } else if is_separator(ch) {
            if open {
                split_run(out.push(cur), Seq::empty(), false, false, false, rest.drop_first())
            } else {
                split_run(out, cur, false, false, false, rest.drop_first())
            }
        } else if ch == '\'' {
            split_run(out, cur, true, false, true, rest.drop_first())
        } else if ch == '"' {
            split_run(out, cur, false, true, true, rest.drop_first())
        } else {
            split_run(out, cur.push(ch), false, false, true, rest.drop_first())
        }
    }
}

/// The tokens of `s`, or why it cannot be tokenised.
pub open spec fn shell_words(s: Seq<char>) -> Result<Seq<Seq<char>>, ShellSplitError> {
    split_run(Seq::empty(), Seq::empty(), false, false, false, s)
}

/// The tokens of a result, by view.
pub open spec fn words_view(r: Result<Vec<String>, ShellSplitError>) -> Result<
    Seq<Seq<char>>,
    ShellSplitError,
> {
    match r {
        Ok(v) => Ok(views(v@)),
        Err(e) => Err(e),
    }
}

/// Tokenises a command-line source string (see the module documentation).
pub fn shell_split(s: &str) -> (r: Result<Vec<String>, ShellSplitError>)
    ensures
        words_view(r) == shell_words(s@),
{
    let chars = chars_of(s);
    let mut out: Vec<Vec<char>> = Vec::new();
    let mut cur: Vec<char> = Vec::new();
    let mut in_single = false;
    let mut in_double = false;
    let mut open = false;
    let mut i: usize = 0;
    assert(vec_views(out@) =~= Seq::<Seq<char>>::empty());
    assert(chars@.skip(0) =~= chars@);
    while i < chars.len()
        invariant
            i <= chars.len(),
            chars@ == s@,
            split_run(vec_views(out@), cur@, in_single, in_double, open, chars@.skip(i as int))
                == shell_words(s@),
        decreases chars.len() - i,
    {
        let ghost rest = chars@.skip(i as int);
        assert(rest.drop_first() =~= chars@.skip(i + 1));
        let ch = chars[i];
        assert(rest[0] == ch);
        if in_single {
            if ch == '\'' {
                in_single = false;
            } else {
                cur.push(ch);
            }
            i = i + 1;
        } else if in_double {
            if ch == '\\' && i + 1 < chars.len() && (chars[i + 1] == '"' || chars[i + 1] == '\\') {
                assert(rest[1] == chars@[i + 1]);
                assert(rest.skip(2) =~= chars@.skip(i + 2));
                cur.push(chars[i + 1]);
                i = i + 2;
            } else {
                if ch == '"' {
                    in_double = false;
                } else {
                    cur.push(ch);
                }
                i = i + 1;
            }
        } else {
            if ch == ' ' || ch == '\t' || ch == '\r' || ch == '\n' {
                if open {
                    let ghost before = vec_views(out@);
                    let t = cur;
                    out.push(t);
                    assert(vec_views(out@) =~= before.push(t@));
                    cur = Vec::new();
                    open = false;
                }
            } else if ch == '\'' {
                in_single = true;
                open = true;
            } else if ch == '"' {
                in_double = true;
                open = true;
            } else {
                cur.push(ch);
                open = true;
            }
            i = i + 1;
        }
    }
    assert(chars@.skip(i as int) =~= Seq::<char>::empty());
    if in_single {
        return Err(ShellSplitError::UnclosedSingleQuote);
    }
    if in_double {
        return Err(ShellSplitError::UnclosedDoubleQuote);
    }
    if open {
        let ghost before = vec_views(out@);
        let t = cur;
        out.push(t);
        assert(vec_views(out@) =~= before.push(t@));
    }
    Ok(strings_of(&out))
}

/// The tokens after an optional leading `ctx` and the subcommand.
pub open spec fn strip_words(words: Seq<Seq<char>>) -> Seq<Seq<char>> {
    let w = if words.len() > 0 && words[0] == "ctx"@ {
        words.drop_first()
    } else {
        words
    };
    if w.len() == 0 {
        w
    } else {
        w.drop_first()
    }
}

/// The argument tail of a strand source: its tokens without a leading `ctx`
/// and without the subcommand.
pub fn strip_ctx_and_sub(source: &str) -> (r: Result<Vec<String>, ShellSplitError>)
    ensures
        words_view(r) == (match shell_words(source@) {
            Ok(w) => Ok(strip_words(w)),
            Err(e) => Err(e),
        }),
{
    let mut out = match shell_split(source) {
        Ok(v) => v,
        Err(e) => return Err(e),
    };
    if out.len() == 0 {
        return Ok(out);
    }
    let first = chars_of(out[0].as_str());
    if chars_eq(&first, &chars_of("ctx")) {
        let ghost before = out@;
        out.remove(0);
        assert(views(out@) =~= views(before).drop_first());
    }
    if out.len() == 0 {
        return Ok(out);
    }
    let ghost before = out@;
    out.remove(0);
    assert(views(out@) =~= views(before).drop_first());
    Ok(out)
}

} // verus!
