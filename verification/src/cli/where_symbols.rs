//! The symbols that `ctx where` finds in a line of Go, Rust, JavaScript or
//! TypeScript, and Python: function, type, class and interface names.
use vstd::prelude::*;

use crate::cli::log::is;
use crate::text::{
    chars_of, contains, contains_exec, first_index_of, slice_chars, starts_with,
    starts_with_exec, string_of, trim_start, trim_start_exec, views,
};

verus! {

/// A symbol found in a file: its name, kind and line number.
#[derive(Debug, Clone, PartialEq, Eq)]
pub struct SymbolInput {
    pub name: String,
    pub kind: String,
    pub line: i64,
}

/// A symbol by view.
pub open spec fn symbol_view(s: SymbolInput) -> (Seq<char>, Seq<char>, int) {
    (s.name@, s.kind@, s.line as int)
}

/// The views of a list of symbols.
pub open spec fn symbol_views(v: Seq<SymbolInput>) -> Seq<(Seq<char>, Seq<char>, int)> {
    v.map_values(|s: SymbolInput| symbol_view(s))
}

/// Makes a symbol.
pub fn symbol_input(name: &str, kind: &str, line: i64) -> (r: SymbolInput)
    ensures
        symbol_view(r) == (name@, kind@, line as int),
{
    SymbolInput { name: name.to_owned(), kind: kind.to_owned(), line }
}

/// A character that may continue an identifier: an ASCII letter or digit,
/// or `_`.
pub open spec fn ident_char(c: char) -> bool {
    c == '_' || ('a' <= c && c <= 'z') || ('A' <= c && c <= 'Z') || ('0' <= c && c <= '9')
}

/// The number of identifier characters that `s` begins with.
pub open spec fn ident_run(s: Seq<char>) -> int
    decreases s.len(),
{
    if s.len() == 0 || !ident_char(s[0]) {
        0
    } else {
        1 + ident_run(s.drop_first())
    }
}

/// The identifier that `input` begins with after its leading whitespace,
/// and what follows it: `None` unless it starts with a letter or `_`.
pub open spec fn ident_with_tail(input: Seq<char>) -> Option<(Seq<char>, Seq<char>)> {
    let t = trim_start(input);
    if t.len() == 0 || !(t[0] == '_' || ('a' <= t[0] && t[0] <= 'z') || ('A' <= t[0] && t[0] <= 'Z')) {
        None
    } else {
        Some((t.take(ident_run(t)), t.skip(ident_run(t))))
    }
}

/// The identifier that `input` begins with (see [`ident_with_tail`]).
pub open spec fn ident_of(input: Seq<char>) -> Option<Seq<char>> {
    match ident_with_tail(input) {
        Some((name, _)) => Some(name),
        None => None,
    }
}

/// The run of identifier characters at the start of `t`.
fn ident_run_exec(t: &Vec<char>) -> (r: usize)
    ensures
        r as int == ident_run(t@),
        r <= t.len(),
{
    let mut k: usize = 0;
    assert(t@.skip(0) =~= t@);
    while k < t.len() && (t[k] == '_' || ('a' <= t[k] && t[k] <= 'z') || ('A' <= t[k] && t[k] <= 'Z')
        || ('0' <= t[k] && t[k] <= '9'))
        invariant
            k <= t.len(),
            ident_run(t@) == k + ident_run(t@.skip(k as int)),
        decreases t.len() - k,
    {
        assert(t@.skip(k as int).drop_first() =~= t@.skip(k + 1));
        k = k + 1;
    }
    if k == t.len() {
        assert(t@.skip(k as int) =~= Seq::<char>::empty());
    }
    k
}

/// The identifier that `input` begins with and what follows it (see
/// [`ident_with_tail`]).
pub fn first_ident_with_tail(input: &str) -> (r: Option<(String, String)>)
    ensures
        match r {
            Some((n, t)) => ident_with_tail(input@) == Some((n@, t@)),
            None => ident_with_tail(input@) is None,
        },
{
    let t = trim_start_exec(&chars_of(input));
    if t.len() == 0 || !(t[0] == '_' || ('a' <= t[0] && t[0] <= 'z') || ('A' <= t[0] && t[0] <= 'Z')) {
        return None;
    }
    let k = ident_run_exec(&t);
    let name = slice_chars(&t, 0, k);
    let tail = slice_chars(&t, k, t.len());
    assert(name@ =~= t@.take(k as int));
    assert(tail@ =~= t@.skip(k as int));
    Some((string_of(&name), string_of(&tail)))
}

/// The identifier that `input` begins with (see [`ident_of`]).
pub fn first_ident(input: &str) -> (r: Option<String>)
    ensures
        match r {
            Some(n) => ident_of(input@) == Some(n@),
            None => ident_of(input@) is None,
        },
{
    match first_ident_with_tail(input) {
        Some((n, _)) => Some(n),
        None => None,
    }
}

/// A symbol found on a line, or none.
pub open spec fn found(name: Option<Seq<char>>, kind: Seq<char>, line_no: int) -> Seq<(Seq<char>, Seq<char>, int)> {
    match name {
        Some(n) => seq![(n, kind, line_no)],
        None => Seq::empty(),
    }
}

/// The name of a Go function: after a receiver in parentheses when there
/// is one and a name follows it, else at the start.
pub open spec fn go_func_name(rest: Seq<char>) -> Option<Seq<char>> {
    let after_receiver: Option<Seq<char>> = if rest.len() > 0 && rest[0] == '(' && first_index_of(
        rest.drop_first(),
        ')',
    ) >= 0 {
        ident_of(trim_start(rest.drop_first().skip(first_index_of(rest.drop_first(), ')') + 1)))
    } else {
        None
    };
    match after_receiver {
        Some(n) => Some(n),
        None => ident_of(rest),
    }
}

/// The symbols of a Go line: `func` gives a function, `type` a type.
pub open spec fn go_symbols(line: Seq<char>, line_no: int) -> Seq<(Seq<char>, Seq<char>, int)> {
    let t = trim_start(line);
    if starts_with(t, "func "@) {
        found(go_func_name(t.skip(5)), "function"@, line_no)
    } else if starts_with(t, "type "@) {
        found(ident_of(t.skip(5)), "type"@, line_no)
    } else {
        Seq::empty()
    }
}

/// Appends a symbol when a name was found.
fn push_found(out: &mut Vec<SymbolInput>, name: Option<String>, kind: &str, line_no: i64)
    ensures
        symbol_views(final(out)@) == symbol_views(old(out)@) + found(
            match name {
                Some(n) => Some(n@),
                None => None,
            },
            kind@,
            line_no as int,
        ),
{
    let ghost before = out@;
    match name {
        Some(n) => {
            out.push(symbol_input(n.as_str(), kind, line_no));
            assert(symbol_views(out@) =~= symbol_views(before) + seq![(n@, kind@, line_no as int)]);
        },
        None => {
            assert(symbol_views(out@) =~= symbol_views(before) + Seq::empty());
        },
    }
}

/// The name of a Go function (see [`go_func_name`]).
fn go_func_name_exec(rest: &Vec<char>) -> (r: Option<String>)
    ensures
        match r {
            Some(n) => go_func_name(rest@) == Some(n@),
            None => go_func_name(rest@) is None,
        },
{
    if rest.len() > 0 && rest[0] == '(' {
        let inner = slice_chars(rest, 1, rest.len());
        assert(inner@ =~= rest@.drop_first());
        match crate::text::find_char(&inner, ')') {
            Some(k) => {
                let after = slice_chars(&inner, k + 1, inner.len());
                assert(after@ =~= inner@.skip(k + 1));
                let t = trim_start_exec(&after);
                if let Some(n) = first_ident(string_of(&t).as_str()) {
                    return Some(n);
                }
            },
            None => {},
        }
    }
    first_ident(string_of(rest).as_str())
}

/// Finds the symbols of a Go line (see [`go_symbols`]).
pub fn extract_go_symbol(line: &str, line_no: i64, out: &mut Vec<SymbolInput>)
    ensures
        symbol_views(final(out)@) == symbol_views(old(out)@) + go_symbols(line@, line_no as int),
{
    let t = trim_start_exec(&chars_of(line));
    if starts_with_exec(&t, &chars_of("func ")) {
        proof {
            reveal_strlit("func ");
        }
        let rest = slice_chars(&t, 5, t.len());
        assert(rest@ =~= t@.skip(5));
        push_found(out, go_func_name_exec(&rest), "function", line_no);
    } else if starts_with_exec(&t, &chars_of("type ")) {
        proof {
            reveal_strlit("type ");
        }
        let rest = slice_chars(&t, 5, t.len());
        assert(rest@ =~= t@.skip(5));
        push_found(out, first_ident(string_of(&rest).as_str()), "type", line_no);
    } else {
        assert(symbol_views(out@) =~= symbol_views(out@) + Seq::empty());
    }
}

/// What follows `p` when `s` begins with it.
pub open spec fn after_prefix(s: Seq<char>, p: Seq<char>) -> Seq<char> {
    s.skip(p.len() as int)
}

/// The symbols of a Rust line, after an optional `pub `: `fn` gives a
/// function, `struct` and `enum` a type, `trait` an interface.
pub open spec fn rust_symbols(line: Seq<char>, line_no: int) -> Seq<(Seq<char>, Seq<char>, int)> {
    let t = trim_start(line);
    let rest = if starts_with(t, "pub "@) {
        after_prefix(t, "pub "@)
    } else {
        t
    };
    if starts_with(rest, "fn "@) {
        found(ident_of(after_prefix(rest, "fn "@)), "function"@, line_no)
    } else if starts_with(rest, "struct "@) {
        found(ident_of(after_prefix(rest, "struct "@)), "type"@, line_no)
    } else if starts_with(rest, "enum "@) {
        found(ident_of(after_prefix(rest, "enum "@)), "type"@, line_no)
    } else if starts_with(rest, "trait "@) {
        found(ident_of(after_prefix(rest, "trait "@)), "interface"@, line_no)
    } else {
        Seq::empty()
    }
}

/// `s` without the prefix `p`, which it begins with.
fn strip(s: &Vec<char>, p: &str) -> (r: Vec<char>)
    requires
        starts_with(s@, p@),
    ensures
        r@ == after_prefix(s@, p@),
{
    let n = chars_of(p).len();
    let r = slice_chars(s, n, s.len());
    assert(r@ =~= s@.skip(p@.len() as int));
    r
}

/// Finds the symbols of a Rust line (see [`rust_symbols`]).
pub fn extract_rust_symbol(line: &str, line_no: i64, out: &mut Vec<SymbolInput>)
    ensures
        symbol_views(final(out)@) == symbol_views(old(out)@) + rust_symbols(line@, line_no as int),
{
    let t = trim_start_exec(&chars_of(line));
    let rest = if starts_with_exec(&t, &chars_of("pub ")) {
        strip(&t, "pub ")
    } else {
        t
    };
    if starts_with_exec(&rest, &chars_of("fn ")) {
        push_found(out, first_ident(string_of(&strip(&rest, "fn ")).as_str()), "function", line_no);
    } else if starts_with_exec(&rest, &chars_of("struct ")) {
        push_found(out, first_ident(string_of(&strip(&rest, "struct ")).as_str()), "type", line_no);
    } else if starts_with_exec(&rest, &chars_of("enum ")) {
        push_found(out, first_ident(string_of(&strip(&rest, "enum ")).as_str()), "type", line_no);
    } else if starts_with_exec(&rest, &chars_of("trait ")) {
        push_found(
            out,
            first_ident(string_of(&strip(&rest, "trait ")).as_str()),
            "interface",
            line_no,
        );
    } else {
        assert(symbol_views(out@) =~= symbol_views(out@) + Seq::empty());
    }
}

/// A `const`, `let` or `var` bound to an arrow function: the identifier is
/// followed by `=` and the rest holds `=>`.
pub open spec fn arrow_binding(tail: Seq<char>) -> Option<Seq<char>> {
    match ident_with_tail(tail) {
        Some((name, after)) => if starts_with(trim_start(after), "="@) && contains(after, "=>"@) {
            Some(name)
        } else {
            None
        },
        None => None,
    }
}

/// The symbols of a JavaScript or TypeScript line, after an optional
/// `export default ` or `export `: `function`, `class` and `interface`
/// declarations, and arrow functions bound by `const`, `let` or `var`.
pub open spec fn js_symbols(line: Seq<char>, line_no: int) -> Seq<(Seq<char>, Seq<char>, int)> {
    let t = trim_start(line);
    let rest = if starts_with(t, "export default "@) {
        after_prefix(t, "export default "@)
    } else if starts_with(t, "export "@) {
        after_prefix(t, "export "@)
    } else {
        t
    };
    if starts_with(rest, "function "@) {
        found(ident_of(after_prefix(rest, "function "@)), "function"@, line_no)
    } else if starts_with(rest, "class "@) {
        found(ident_of(after_prefix(rest, "class "@)), "class"@, line_no)
    } else if starts_with(rest, "interface "@) {
        found(ident_of(after_prefix(rest, "interface "@)), "interface"@, line_no)
    } else if starts_with(rest, "const "@) {
        found(arrow_binding(after_prefix(rest, "const "@)), "function"@, line_no)
    } else if starts_with(rest, "let "@) {
        found(arrow_binding(after_prefix(rest, "let "@)), "function"@, line_no)
    } else if starts_with(rest, "var "@) {
        found(arrow_binding(after_prefix(rest, "var "@)), "function"@, line_no)
    } else {
        Seq::empty()
    }
}

/// The name of an arrow-function binding (see [`arrow_binding`]).
fn arrow_binding_exec(tail: &Vec<char>) -> (r: Option<String>)
    ensures
        match r {
            Some(n) => arrow_binding(tail@) == Some(n@),
            None => arrow_binding(tail@) is None,
        },
{
    match first_ident_with_tail(string_of(tail).as_str()) {
        Some((name, after)) => {
            let a = chars_of(after.as_str());
            if starts_with_exec(&trim_start_exec(&a), &chars_of("=")) && contains_exec(
                &a,
                &chars_of("=>"),
            ) {
                Some(name)
            } else {
                None
            }
        },
        None => None,
    }
}

/// Finds the symbols of a JavaScript or TypeScript line (see
/// [`js_symbols`]).
pub fn extract_js_symbol(line: &str, line_no: i64, out: &mut Vec<SymbolInput>)
    ensures
        symbol_views(final(out)@) == symbol_views(old(out)@) + js_symbols(line@, line_no as int),
{
    let t = trim_start_exec(&chars_of(line));
    let rest = if starts_with_exec(&t, &chars_of("export default ")) {
        strip(&t, "export default ")
    } else if starts_with_exec(&t, &chars_of("export ")) {
        strip(&t, "export ")
    } else {
        t
    };
    if starts_with_exec(&rest, &chars_of("function ")) {
        push_found(
            out,
            first_ident(string_of(&strip(&rest, "function ")).as_str()),
            "function",
            line_no,
        );
    } else if starts_with_exec(&rest, &chars_of("class ")) {
        push_found(out, first_ident(string_of(&strip(&rest, "class ")).as_str()), "class", line_no);
    } else if starts_with_exec(&rest, &chars_of("interface ")) {
        push_found(
            out,
            first_ident(string_of(&strip(&rest, "interface ")).as_str()),
            "interface",
            line_no,
        );
    } else if starts_with_exec(&rest, &chars_of("const ")) {
        push_found(out, arrow_binding_exec(&strip(&rest, "const ")), "function", line_no);
    } else if starts_with_exec(&rest, &chars_of("let ")) {
        push_found(out, arrow_binding_exec(&strip(&rest, "let ")), "function", line_no);
    } else if starts_with_exec(&rest, &chars_of("var ")) {
        push_found(out, arrow_binding_exec(&strip(&rest, "var ")), "function", line_no);
    } else {
        assert(symbol_views(out@) =~= symbol_views(out@) + Seq::empty());
    }
}

/// The symbols of a Python line: `def` gives a function, `class` a class.
pub open spec fn python_symbols(line: Seq<char>, line_no: int) -> Seq<(Seq<char>, Seq<char>, int)> {
    let t = trim_start(line);
    if starts_with(t, "def "@) {
        found(ident_of(after_prefix(t, "def "@)), "function"@, line_no)
    } else if starts_with(t, "class "@) {
        found(ident_of(after_prefix(t, "class "@)), "class"@, line_no)
    } else {
        Seq::empty()
    }
}

/// Finds the symbols of a Python line (see [`python_symbols`]).
pub fn extract_python_symbol(line: &str, line_no: i64, out: &mut Vec<SymbolInput>)
    ensures
        symbol_views(final(out)@) == symbol_views(old(out)@) + python_symbols(line@, line_no as int),
{
    let t = trim_start_exec(&chars_of(line));
    if starts_with_exec(&t, &chars_of("def ")) {
        push_found(out, first_ident(string_of(&strip(&t, "def ")).as_str()), "function", line_no);
    } else if starts_with_exec(&t, &chars_of("class ")) {
        push_found(out, first_ident(string_of(&strip(&t, "class ")).as_str()), "class", line_no);
    } else {
        assert(symbol_views(out@) =~= symbol_views(out@) + Seq::empty());
    }
}

/// Names the extension that `Path::extension` finds in a path: what
/// follows the last `.` of its final component, under the rules of
/// `std::path`.
pub uninterp spec fn extension_text(path: Seq<char>) -> Option<Seq<char>>;

/// Calls `Path::extension`. Its result is a function of the path alone,
/// named [`extension_text`]; nothing more is claimed of it.
#[verifier::external_body]
pub(crate) fn path_extension(path: &str) -> (r: Option<String>)
    ensures
        match r {
            Some(e) => extension_text(path@) == Some(e@),
            None => extension_text(path@) is None,
        },
{
    std::path::Path::new(path).extension().and_then(|e| e.to_str()).map(|e| e.to_owned())
}

/// The language of an extension: Go (1), Rust (2), JavaScript or
/// TypeScript (3), Python (4), or none of them (0).
pub open spec fn lang_code(ext: Option<Seq<char>>) -> int {
    match ext {
        Some(e) => if e == "go"@ {
            1
        } else if e == "rs"@ {
            2
        } else if e == "ts"@ || e == "tsx"@ || e == "js"@ || e == "jsx"@ || e == "mjs"@ || e
            == "cjs"@ {
            3
        } else if e == "py"@ {
            4
        } else {
            0
        },
        None => 0,
    }
}

/// The symbols of a line in a file with extension `ext`, by language.
pub open spec fn line_symbols(ext: Option<Seq<char>>, line: Seq<char>, line_no: int) -> Seq<(Seq<char>, Seq<char>, int)> {
    let c = lang_code(ext);
    if c == 1 {
        go_symbols(line, line_no)
    } else if c == 2 {
        rust_symbols(line, line_no)
    } else if c == 3 {
        js_symbols(line, line_no)
    } else if c == 4 {
        python_symbols(line, line_no)
    } else {
        Seq::empty()
    }
}

/// The symbols of the first `n` lines, numbered from 1.
pub open spec fn lines_symbols(ext: Option<Seq<char>>, lines: Seq<Seq<char>>, n: int) -> Seq<(Seq<char>, Seq<char>, int)>
    decreases n,
{
    if n <= 0 {
        Seq::empty()
    } else {
        lines_symbols(ext, lines, n - 1) + line_symbols(ext, lines[n - 1], n)
    }
}

/// The symbols of a file, line by line (see [`line_symbols`]).
pub fn extract_where_symbols(path: &str, lines: &[String]) -> (r: Vec<SymbolInput>)
    requires
        lines@.len() < i64::MAX,
    ensures
        symbol_views(r@) == lines_symbols(extension_text(path@), views(lines@), lines@.len() as int),
{
    let ext = path_extension(path);
    let ghost e = extension_text(path@);
    let kind: u8 = match &ext {
        Some(x) => {
            let c = chars_of(x.as_str());
            if is(&c, "go") {
                1
            } else if is(&c, "rs") {
                2
            } else if is(&c, "ts") || is(&c, "tsx") || is(&c, "js") || is(&c, "jsx") || is(&c, "mjs")
                || is(&c, "cjs") {
                3
            } else if is(&c, "py") {
                4
            } else {
                0
            }
        },
        None => 0,
    };
    assert(kind as int == lang_code(e));
    let mut out: Vec<SymbolInput> = Vec::new();
    let mut idx: usize = 0;
    assert(symbol_views(out@) =~= Seq::empty());
    while idx < lines.len()
        invariant
            idx <= lines.len(),
            lines@.len() < i64::MAX,
            e == extension_text(path@),
            kind as int == lang_code(e),
            symbol_views(out@) == lines_symbols(e, views(lines@), idx as int),
        decreases lines.len() - idx,
    {
        let line_no = (idx + 1) as i64;
        let line = lines[idx].as_str();
        assert(views(lines@)[idx as int] == line@);
        let ghost before = symbol_views(out@);
        if kind == 1 {
            extract_go_symbol(line, line_no, &mut out);
        } else if kind == 2 {
            extract_rust_symbol(line, line_no, &mut out);
        } else if kind == 3 {
            extract_js_symbol(line, line_no, &mut out);
        } else if kind == 4 {
            extract_python_symbol(line, line_no, &mut out);
        } else {
            assert(line_symbols(e, line@, line_no as int) == Seq::<(Seq<char>, Seq<char>, int)>::empty());
            assert(symbol_views(out@) =~= before + line_symbols(e, line@, line_no as int));
        }
        idx = idx + 1;
    }
    out
}

} // verus!
