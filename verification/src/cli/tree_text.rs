//! Helpers of `ctx tree`: display units, grouped numbers, symbol lists, the
//! names that are skipped, and the role a path plays.
use vstd::prelude::*;

use crate::cli::common::{group_digits, grouped};
use crate::cli::log::{has, is, starts};
use crate::text::{
    append_chars, append_str, chars_of, contains, decimal, decimal_chars, ends_with,
    ends_with_exec, last_index_of, lower, lower_exec, rfind_char, slice_chars, starts_with,
    string_of, views,
};

verus! {

/// The unit the metric column shows.
#[derive(Debug, Clone, Copy, PartialEq, Eq, Structural)]
pub enum TextUnit {
    Tokens,
    Chars,
    Pages,
}

/// The unit a name asks for, case aside: `chars`, `pages`, or tokens for
/// anything else.
pub open spec fn text_unit(raw: Seq<char>) -> TextUnit {
    if lower(raw) == "chars"@ {
        TextUnit::Chars
    } else if lower(raw) == "pages"@ {
        TextUnit::Pages
    } else {
        TextUnit::Tokens
    }
}

/// The unit a name asks for (see [`text_unit`]).
pub fn normalize_text_unit(raw: &str) -> (r: TextUnit)
    ensures
        r == text_unit(raw@),
{
    let low = lower_exec(&chars_of(raw));
    if is(&low, "chars") {
        TextUnit::Chars
    } else if is(&low, "pages") {
        TextUnit::Pages
    } else {
        TextUnit::Tokens
    }
}

/// A number with its digits grouped in threes by commas, the sign in
/// front.
pub open spec fn grouped_number(n: int) -> Seq<char> {
    if n < 0 {
        seq!['-'] + grouped(decimal((-n) as nat))
    } else {
        grouped(decimal(n as nat))
    }
}

/// Groups the digits of a number (see [`grouped_number`]).
pub fn format_grouped_number(n: i64) -> (r: String)
    ensures
        r@ == grouped_number(n as int),
{
    let mag: u64 = if n < 0 {
        if n == i64::MIN {
            9223372036854775808u64
        } else {
            (-n) as u64
        }
    } else {
        n as u64
    };
    let digits = group_digits(&decimal_chars(mag));
    if n < 0 {
        let mut v: Vec<char> = Vec::new();
        v.push('-');
        append_chars(&mut v, &digits);
        string_of(&v)
    } else {
        string_of(&digits)
    }
}

/// The first three names, then `...` when there are more, joined by `, `.
pub open spec fn symbols_text(names: Seq<Seq<char>>) -> Seq<char> {
    let shown = if names.len() > 3 {
        names.take(3).push("..."@)
    } else {
        names
    };
    join_comma(shown)
}

/// The names joined by `, `.
pub open spec fn join_comma(names: Seq<Seq<char>>) -> Seq<char>
    decreases names.len(),
{
    if names.len() == 0 {
        Seq::empty()
    } else if names.len() == 1 {
        names[0]
    } else {
        join_comma(names.drop_last()) + ", "@ + names.last()
    }
}

/// The symbol list of a file (see [`symbols_text`]); `names` are the
/// symbol names in order.
pub fn format_text_symbols(names: &[String]) -> (r: String)
    ensures
        r@ == symbols_text(views(names@)),
{
    let ghost all = views(names@);
    let ghost shown = if all.len() > 3 {
        all.take(3).push("..."@)
    } else {
        all
    };
    let limit: usize = if names.len() < 3 {
        names.len()
    } else {
        3
    };
    let mut out: Vec<char> = Vec::new();
    let mut i: usize = 0;
    assert(shown.take(0) =~= Seq::<Seq<char>>::empty());
    while i < limit
        invariant
            i <= limit <= names.len(),
            limit == (if names.len() < 3 {
                names.len()
            } else {
                3
            }),
            all == views(names@),
            shown == (if all.len() > 3 {
                all.take(3).push("..."@)
            } else {
                all
            }),
            out@ == join_comma(shown.take(i as int)),
        decreases limit - i,
    {
        let ghost before = out@;
        assert(shown[i as int] == names@[i as int]@);
        assert(shown.take(i + 1).drop_last() =~= shown.take(i as int));
        if i > 0 {
            append_str(&mut out, ", ");
        }
        append_str(&mut out, names[i].as_str());
        proof {
            if i == 0 {
                assert(before =~= Seq::<char>::empty());
                assert(out@ =~= shown.take(1)[0]);
            }
        }
        i = i + 1;
    }
    if names.len() > 3 {
        let ghost before = out@;
        assert(shown.take(4).drop_last() =~= shown.take(3));
        assert(shown.take(4).last() == "..."@);
        append_str(&mut out, ", ");
        append_str(&mut out, "...");
        assert(shown.take(4) =~= shown);
    } else {
        assert(shown.take(limit as int) =~= shown);
    }
    string_of(&out)
}

/// The names the tree leaves out: `.git`, `node_modules`, `dist`,
/// `coverage`, `target`, and lock files.
pub open spec fn skipped_name(name: Seq<char>) -> bool {
    name == ".git"@ || name == "node_modules"@ || name == "dist"@ || name == "coverage"@ || name
        == "target"@ || ends_with(name, ".lock"@)
}

/// Whether the tree leaves out an entry named `name` (see [`skipped_name`]).
pub fn json_tree_should_skip(name: &str) -> (r: bool)
    ensures
        r == skipped_name(name@),
{
    let v = chars_of(name);
    is(&v, ".git") || is(&v, "node_modules") || is(&v, "dist") || is(&v, "coverage") || is(
        &v,
        "target",
    ) || ends_with_exec(&v, &chars_of(".lock"))
}

/// A file name of a test in dotted form (`x.test.ts` and the like).
pub open spec fn dotted_test_name(base: Seq<char>) -> bool {
    ends_with(base, ".test.ts"@) || ends_with(base, ".test.tsx"@) || ends_with(base, ".test.js"@)
        || ends_with(base, ".test.go"@) || ends_with(base, ".test.py"@)
}

/// Whether `base` names a test in dotted form (see [`dotted_test_name`]).
pub fn json_is_dotted_test_name(base: &str) -> (r: bool)
    ensures
        r == dotted_test_name(base@),
{
    let v = chars_of(base);
    ends_with_exec(&v, &chars_of(".test.ts")) || ends_with_exec(&v, &chars_of(".test.tsx"))
        || ends_with_exec(&v, &chars_of(".test.js")) || ends_with_exec(&v, &chars_of(".test.go"))
        || ends_with_exec(&v, &chars_of(".test.py"))
}

/// A configuration file, by its lowercased name or extension.
pub open spec fn config_file(base: Seq<char>, ext: Seq<char>) -> bool {
    base == "package.json"@ || base == "go.mod"@ || base == "cargo.toml"@ || base
        == "pyproject.toml"@ || base == "dockerfile"@ || base == "makefile"@ || ext == ".toml"@
        || ext == ".yaml"@ || ext == ".yml"@
}

/// Whether a file is a configuration file (see [`config_file`]).
pub fn json_is_config_file(base: &str, ext: &str) -> (r: bool)
    ensures
        r == config_file(base@, ext@),
{
    let b = chars_of(base);
    let e = chars_of(ext);
    is(&b, "package.json") || is(&b, "go.mod") || is(&b, "cargo.toml") || is(&b, "pyproject.toml")
        || is(&b, "dockerfile") || is(&b, "makefile") || is(&e, ".toml") || is(&e, ".yaml") || is(
        &e,
        ".yml",
    )
}

/// An extension of source code.
pub open spec fn core_extension(ext: Seq<char>) -> bool {
    ext == ".ts"@ || ext == ".tsx"@ || ext == ".js"@ || ext == ".go"@ || ext == ".py"@ || ext
        == ".rs"@
}

/// Whether `ext` is an extension of source code (see [`core_extension`]).
pub fn json_is_core_extension(ext: &str) -> (r: bool)
    ensures
        r == core_extension(ext@),
{
    let e = chars_of(ext);
    is(&e, ".ts") || is(&e, ".tsx") || is(&e, ".js") || is(&e, ".go") || is(&e, ".py") || is(
        &e,
        ".rs",
    )
}

/// Whether a metadata count is zero (and so left out of the document).
pub fn is_zero_i64_meta(value: &i64) -> (r: bool)
    ensures
        r == (*value == 0),
{
    *value == 0
}

/// The last `/`-separated piece of a path.
pub open spec fn base_name(path: Seq<char>) -> Seq<char> {
    path.skip(last_index_of(path, '/') + 1)
}

/// The extension of a name from its last `.`, the dot included; empty
/// without one.
pub open spec fn extension(name: Seq<char>) -> Seq<char> {
    if last_index_of(name, '.') >= 0 {
        name.skip(last_index_of(name, '.'))
    } else {
        Seq::empty()
    }
}

/// The role of a file by its slash path: `test`, `doc`, `config`, `entry`,
/// `route`, `core`, or none, the first that applies.
pub open spec fn role_of(rel: Seq<char>) -> Seq<char> {
    let base = base_name(rel);
    let lower_path = lower(rel);
    let lower_base = lower(base);
    let ext = extension(lower_base);
    if starts_with(lower_path, "tests/"@) || contains(lower_path, "/tests/"@) || ends_with(
        lower_base,
        "_test.go"@,
    ) || dotted_test_name(lower_base) {
        "test"@
    } else if ext == ".md"@ || starts_with(lower_base, "license"@) || starts_with(
        lower_base,
        "readme"@,
    ) {
        "doc"@
    } else if config_file(lower_base, ext) {
        "config"@
    } else if base == "main.ts"@ || base == "main.go"@ || base == "main.py"@ || base == "index.ts"@
        || base == "index.tsx"@ || base == "index.js"@ || (starts_with(rel, "cmd/"@) && ends_with(
        rel,
        "/main.go"@,
    )) {
        "entry"@
    } else if contains(base, "router"@) || contains(base, "route"@) || contains(base, "Router"@) {
        "route"@
    } else if core_extension(ext) {
        "core"@
    } else {
        Seq::empty()
    }
}

/// The role of a file (see [`role_of`]).
pub fn infer_json_role(rel_slash: &str) -> (r: String)
    ensures
        r@ == role_of(rel_slash@),
{
    let rel = chars_of(rel_slash);
    let start: usize = match rfind_char(&rel, '/') {
        Some(i) => {
            assert(crate::text::is_last_index(rel@, '/', i as int));
            assert(i < rel.len());
            i + 1
        },
        None => 0,
    };
    let base = slice_chars(&rel, start, rel.len());
    assert(base@ =~= base_name(rel@));
    let lower_path = lower_exec(&rel);
    let lower_base = lower_exec(&base);
    let ext = match rfind_char(&lower_base, '.') {
        Some(i) => slice_chars(&lower_base, i, lower_base.len()),
        None => Vec::new(),
    };
    assert(ext@ =~= extension(lower_base@));
    let ext_s = string_of(&ext);
    if starts(&lower_path, "tests/") || has(&lower_path, "/tests/") || ends_with_exec(
        &lower_base,
        &chars_of("_test.go"),
    ) || json_is_dotted_test_name(string_of(&lower_base).as_str()) {
        return "test".to_owned();
    }
    if is(&ext, ".md") || starts(&lower_base, "license") || starts(&lower_base, "readme") {
        return "doc".to_owned();
    }
    if json_is_config_file(string_of(&lower_base).as_str(), ext_s.as_str()) {
        return "config".to_owned();
    }
    if is(&base, "main.ts") || is(&base, "main.go") || is(&base, "main.py") || is(&base, "index.ts")
        || is(&base, "index.tsx") || is(&base, "index.js") || (starts(&rel, "cmd/")
        && ends_with_exec(&rel, &chars_of("/main.go"))) {
        return "entry".to_owned();
    }
    if has(&base, "router") || has(&base, "route") || has(&base, "Router") {
        return "route".to_owned();
    }
    if json_is_core_extension(ext_s.as_str()) {
        return "core".to_owned();
    }
    String::new()
}

} // verus!
