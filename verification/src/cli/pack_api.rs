//! The public API of a file as `pack --api-only` keeps it: imports and the
//! signatures of exported functions and types, for Go, JavaScript and
//! TypeScript, and Python.
use vstd::prelude::*;

use crate::cli::log::is;
use crate::cli::pack_why::{lowercase, to_lowercase};
use crate::cli::where_symbols::extension_text;
use crate::text::{
    append_chars, chars_of, first_index_of, has_char, starts_with, starts_with_exec, string_of,
    trim_end, trim_start, trim_start_exec, vec_views, views, ws_tokens, ws_tokens_exec,
};

verus! {

/// A line without the `\r` that ends it, if any.
pub open spec fn strip_cr(line: Seq<char>) -> Seq<char> {
    if line.len() > 0 && line.last() == '\r' {
        line.drop_last()
    } else {
        line
    }
}

/// The lines of `rest`, the current line being `cur`: split at each `\n`,
/// a `\r` before it dropped, no empty line after a final `\n`.
pub open spec fn lines_from(cur: Seq<char>, rest: Seq<char>) -> Seq<Seq<char>>
    decreases rest.len(),
{
    if rest.len() == 0 {
        if cur.len() == 0 {
            Seq::empty()
        } else {
            seq![cur]
        }
    } else if rest[0] == '\n' {
        seq![strip_cr(cur)] + lines_from(Seq::empty(), rest.drop_first())
    } else {
        lines_from(cur.push(rest[0]), rest.drop_first())
    }
}

/// The lines of a text, as `str::lines` yields them.
pub open spec fn text_lines(s: Seq<char>) -> Seq<Seq<char>> {
    lines_from(Seq::empty(), s)
}

/// The lines of a text (see [`text_lines`]).
pub fn lines_of(s: &str) -> (r: Vec<Vec<char>>)
    ensures
        vec_views(r@) == text_lines(s@),
{
    let c = chars_of(s);
    let mut out: Vec<Vec<char>> = Vec::new();
    let mut cur: Vec<char> = Vec::new();
    let mut i: usize = 0;
    assert(c@.skip(0) =~= c@);
    assert(vec_views(out@) =~= Seq::<Seq<char>>::empty());
    while i < c.len()
        invariant
            i <= c.len(),
            c@ == s@,
            vec_views(out@) + lines_from(cur@, c@.skip(i as int)) == text_lines(s@),
        decreases c.len() - i,
    {
        let ghost rest = c@.skip(i as int);
        assert(rest.drop_first() =~= c@.skip(i + 1));
        assert(rest[0] == c@[i as int]);
        let ghost before = vec_views(out@);
        if c[i] == '\n' {
            let ghost cur0 = cur@;
            if cur.len() > 0 && cur[cur.len() - 1] == '\r' {
                cur.pop();
            }
            assert(cur@ =~= strip_cr(cur0));
            out.push(cur);
            cur = Vec::new();
            assert(vec_views(out@) =~= before + seq![strip_cr(cur0)]);
        } else {
            cur.push(c[i]);
        }
        i = i + 1;
    }
    if cur.len() > 0 {
        let ghost before = vec_views(out@);
        out.push(cur);
        assert(vec_views(out@) =~= before + seq![cur@]);
    }
    out
}

/// `line` without trailing whitespace.
fn trim_end_exec(line: &Vec<char>) -> (r: Vec<char>)
    ensures
        r@ == trim_end(line@),
{
    let mut hi: usize = line.len();
    assert(line@.subrange(0, hi as int) =~= line@);
    while hi > 0 && crate::text::is_ws_exec(line[hi - 1])
        invariant
            hi <= line.len(),
            trim_end(line@) == trim_end(line@.subrange(0, hi as int)),
        decreases hi,
    {
        assert(line@.subrange(0, hi as int).drop_last() =~= line@.subrange(0, hi - 1));
        hi = hi - 1;
    }
    let r = crate::text::slice_chars(line, 0, hi);
    r
}

/// A signature line: cut before its first `{`, trailing whitespace
/// removed.
pub open spec fn signature_text(line: Seq<char>) -> Seq<char> {
    if has_char(line, '{') {
        trim_end(line.take(first_index_of(line, '{')))
    } else {
        trim_end(line)
    }
}

/// A signature line (see [`signature_text`]).
pub fn trim_signature_line(line: &str) -> (r: String)
    ensures
        r@ == signature_text(line@),
{
    let l = chars_of(line);
    match crate::text::find_char(&l, '{') {
        Some(k) => {
            let p = crate::text::slice_chars(&l, 0, k);
            assert(p@ =~= l@.take(k as int));
            string_of(&trim_end_exec(&p))
        },
        None => string_of(&trim_end_exec(&l)),
    }
}

/// The lines joined, each ended by a newline; empty without lines.
pub open spec fn joined_lines(lines: Seq<Seq<char>>) -> Seq<char>
    decreases lines.len(),
{
    if lines.len() == 0 {
        Seq::empty()
    } else {
        joined_lines(lines.drop_last()) + lines.last() + seq!['\n']
    }
}

/// The kept lines as the API text (see [`joined_lines`]).
pub fn finish_api_lines(lines: Vec<String>) -> (r: String)
    ensures
        r@ == joined_lines(views(lines@)),
{
    let mut out: Vec<char> = Vec::new();
    let mut k: usize = 0;
    assert(views(lines@).take(0) =~= Seq::<Seq<char>>::empty());
    while k < lines.len()
        invariant
            k <= lines.len(),
            out@ == joined_lines(views(lines@).take(k as int)),
        decreases lines.len() - k,
    {
        assert(views(lines@).take(k + 1).drop_last() =~= views(lines@).take(k as int));
        append_chars(&mut out, &chars_of(lines[k].as_str()));
        out.push('\n');
        k = k + 1;
    }
    assert(views(lines@).take(lines.len() as int) =~= views(lines@));
    string_of(&out)
}

/// The name a Go `func` or `type` line declares: after the receiver of a
/// method, else right after the keyword; empty for other lines.
pub open spec fn go_decl_name(line: Seq<char>) -> Seq<char> {
    if starts_with(line, "func ("@) {
        let rest = line.skip(6);
        if has_char(rest, ')') {
            let after = rest.skip(first_index_of(rest, ')') + 1);
            let piece = if has_char(after, ')') {
                after.take(first_index_of(after, ')'))
            } else {
                after
            };
            trim_start(piece)
        } else {
            Seq::empty()
        }
    } else if starts_with(line, "func "@) || starts_with(line, "type "@) {
        line.skip(5)
    } else {
        Seq::empty()
    }
}

/// Whether a Go declaration line names an exported identifier: one that
/// begins with an ASCII capital.
pub open spec fn exported_line(line: Seq<char>) -> bool {
    let name = go_decl_name(line);
    name.len() > 0 && 'A' <= name[0] && name[0] <= 'Z'
}

/// Whether a Go declaration line names an exported identifier (see
/// [`exported_line`]).
pub fn line_has_exported_identifier(line: &str) -> (r: bool)
    ensures
        r == exported_line(line@),
{
    proof {
        reveal_strlit("func (");
        reveal_strlit("func ");
        reveal_strlit("type ");
    }
    let l = chars_of(line);
    let name: Vec<char> = if starts_with_exec(&l, &chars_of("func (")) {
        let rest = crate::text::slice_chars(&l, 6, l.len());
        assert(rest@ =~= l@.skip(6));
        match crate::text::find_char(&rest, ')') {
            None => Vec::new(),
            Some(k) => {
                let after = crate::text::slice_chars(&rest, k + 1, rest.len());
                assert(after@ =~= rest@.skip(k + 1));
                let piece = match crate::text::find_char(&after, ')') {
                    Some(j) => {
                        let p = crate::text::slice_chars(&after, 0, j);
                        assert(p@ =~= after@.take(j as int));
                        p
                    },
                    None => after,
                };
                trim_start_exec(&piece)
            },
        }
    } else if starts_with_exec(&l, &chars_of("func ")) || starts_with_exec(&l, &chars_of("type ")) {
        let rest = crate::text::slice_chars(&l, 5, l.len());
        assert(rest@ =~= l@.skip(5));
        rest
    } else {
        Vec::new()
    };
    name.len() > 0 && 'A' <= name[0] && name[0] <= 'Z'
}

/// What the Go API keeps of a line: `package` and `import` lines (trailing
/// whitespace removed), and signatures of exported `func` and `type`
/// declarations.
pub open spec fn go_api_line(line: Seq<char>) -> Option<Seq<char>> {
    let t = trim_start(line);
    if starts_with(t, "package "@) || starts_with(t, "import "@) {
        Some(trim_end(line))
    } else if (starts_with(t, "func "@) || starts_with(t, "type "@)) && exported_line(t) {
        Some(signature_text(line))
    } else {
        None
    }
}

/// What the JavaScript and TypeScript API keeps of a line: `import` and
/// `export` lines, as signatures.
pub open spec fn jsts_api_line(line: Seq<char>) -> Option<Seq<char>> {
    let t = trim_start(line);
    if starts_with(t, "import "@) || starts_with(t, "export "@) {
        Some(signature_text(line))
    } else {
        None
    }
}

/// What the Python API keeps of a line: imports, and `def` and `class`
/// lines whose name (the second word) does not begin with `_`, trailing
/// whitespace removed.
pub open spec fn python_api_line(line: Seq<char>) -> Option<Seq<char>> {
    let t = trim_start(line);
    let words = ws_tokens(t);
    let second = if words.len() > 1 {
        words[1]
    } else {
        Seq::empty()
    };
    if starts_with(t, "import "@) || starts_with(t, "from "@) {
        Some(trim_end(line))
    } else if (starts_with(t, "def "@) || starts_with(t, "class "@)) && !(second.len() > 0
        && second[0] == '_') {
        Some(trim_end(line))
    } else {
        None
    }
}

/// The kept lines among `lines`, by language (1 Go, 2 JavaScript or
/// TypeScript, 3 Python).
pub open spec fn kept_lines(lang: int, lines: Seq<Seq<char>>) -> Seq<Seq<char>>
    decreases lines.len(),
{
    if lines.len() == 0 {
        Seq::empty()
    } else {
        let k = if lang == 1 {
            go_api_line(lines.last())
        } else if lang == 2 {
            jsts_api_line(lines.last())
        } else {
            python_api_line(lines.last())
        };
        kept_lines(lang, lines.drop_last()) + match k {
            Some(l) => seq![l],
            None => Seq::empty(),
        }
    }
}

/// The API text of a body in language `lang` (see [`kept_lines`]).
pub open spec fn api_text(lang: int, body: Seq<char>) -> Seq<char> {
    joined_lines(kept_lines(lang, text_lines(body)))
}

/// What the API keeps of one line (see [`go_api_line`], [`jsts_api_line`]
/// and [`python_api_line`]).
fn api_line(lang: u8, line: &Vec<char>) -> (r: Option<String>)
    requires
        1 <= lang <= 3,
    ensures
        (match r {
            Some(s) => Some(s@),
            None => None,
        }) == (if lang == 1 {
            go_api_line(line@)
        } else if lang == 2 {
            jsts_api_line(line@)
        } else {
            python_api_line(line@)
        }),
{
    let t = trim_start_exec(line);
    let ls = string_of(line);
    let starts = |p: &str| -> (b: bool)
        ensures
            b == starts_with(t@, p@),
        { starts_with_exec(&t, &chars_of(p)) };
    if lang == 1 {
        if starts("package ") || starts("import ") {
            Some(string_of(&trim_end_exec(line)))
        } else if (starts("func ") || starts("type ")) && line_has_exported_identifier(
            string_of(&t).as_str(),
        ) {
            Some(trim_signature_line(ls.as_str()))
        } else {
            None
        }
    } else if lang == 2 {
        if starts("import ") || starts("export ") {
            Some(trim_signature_line(ls.as_str()))
        } else {
            None
        }
    } else {
        let words = ws_tokens_exec(&t);
        let second: Vec<char> = if words.len() > 1 {
            words[1].clone()
        } else {
            Vec::new()
        };
        assert(words.len() > 1 ==> second@ == vec_views(words@)[1]);
        if starts("import ") || starts("from ") {
            Some(string_of(&trim_end_exec(line)))
        } else if (starts("def ") || starts("class ")) && !(second.len() > 0 && second[0] == '_') {
            Some(string_of(&trim_end_exec(line)))
        } else {
            None
        }
    }
}

/// The API text of a body in language `lang` (see [`api_text`]).
fn api_lines(lang: u8, body: &str) -> (r: String)
    requires
        1 <= lang <= 3,
    ensures
        r@ == api_text(lang as int, body@),
{
    let lines = lines_of(body);
    let ghost all = vec_views(lines@);
    let mut kept: Vec<String> = Vec::new();
    let mut k: usize = 0;
    assert(all.take(0) =~= Seq::<Seq<char>>::empty());
    assert(views(kept@) =~= Seq::<Seq<char>>::empty());
    while k < lines.len()
        invariant
            1 <= lang <= 3,
            k <= lines.len(),
            all == vec_views(lines@),
            views(kept@) == kept_lines(lang as int, all.take(k as int)),
        decreases lines.len() - k,
    {
        assert(all.take(k + 1).drop_last() =~= all.take(k as int));
        assert(all.take(k + 1).last() == lines@[k as int]@);
        let ghost before = views(kept@);
        match api_line(lang, &lines[k]) {
            Some(s) => {
                kept.push(s);
                assert(views(kept@) =~= before + seq![kept@[kept@.len() - 1]@]);
            },
            None => {
                assert(views(kept@) =~= before + Seq::<Seq<char>>::empty());
            },
        }
        k = k + 1;
    }
    assert(all.take(lines.len() as int) =~= all);
    finish_api_lines(kept)
}

/// The Go API of a body (see [`go_api_line`]).
pub fn extract_go_api_light(body: &str) -> (r: String)
    ensures
        r@ == api_text(1, body@),
{
    api_lines(1, body)
}

/// The JavaScript or TypeScript API of a body (see [`jsts_api_line`]).
pub fn extract_jsts_api_light(body: &str) -> (r: String)
    ensures
        r@ == api_text(2, body@),
{
    api_lines(2, body)
}

/// The Python API of a body (see [`python_api_line`]).
pub fn extract_python_api_light(body: &str) -> (r: String)
    ensures
        r@ == api_text(3, body@),
{
    api_lines(3, body)
}

/// The language of a lowercased extension for the API: 1 for Go, 2 for
/// JavaScript and TypeScript, 3 for Python, 0 otherwise.
pub open spec fn api_lang(ext: Seq<char>) -> int {
    if ext == "go"@ {
        1
    } else if ext == "ts"@ || ext == "tsx"@ || ext == "js"@ || ext == "jsx"@ || ext == "mjs"@ {
        2
    } else if ext == "py"@ {
        3
    } else {
        0
    }
}

/// The language of a path for the API, from its extension lowercased.
pub open spec fn path_api_lang(path: Seq<char>) -> int {
    match extension_text(path) {
        Some(e) => api_lang(lowercase(e)),
        None => 0,
    }
}

/// The language of a path for the API (see [`path_api_lang`]).
fn path_api_lang_exec(path: &str) -> (r: u8)
    ensures
        r as int == path_api_lang(path@),
        r <= 3,
{
    match crate::cli::where_symbols::path_extension(path) {
        None => 0,
        Some(e) => {
            let l = chars_of(to_lowercase(e.as_str()).as_str());
            if is(&l, "go") {
                1
            } else if is(&l, "ts") || is(&l, "tsx") || is(&l, "js") || is(&l, "jsx") || is(&l, "mjs") {
                2
            } else if is(&l, "py") {
                3
            } else {
                0
            }
        },
    }
}

/// The public API of a file by its path: `None` for a language without
/// one (see [`api_text`]).
pub fn extract_public_api_light(path: &str, body: &str) -> (r: Option<String>)
    ensures
        match r {
            Some(s) => path_api_lang(path@) != 0 && s@ == api_text(path_api_lang(path@), body@),
            None => path_api_lang(path@) == 0,
        },
{
    let lang = path_api_lang_exec(path);
    if lang == 0 {
        None
    } else {
        Some(api_lines(lang, body))
    }
}

/// Whether a file's language has an API for `--api-only`.
pub fn supports_api_only_light(path: &str) -> (r: bool)
    ensures
        r == (path_api_lang(path@) != 0),
{
    path_api_lang_exec(path) != 0
}

} // verus!
