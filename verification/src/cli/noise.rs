//! How `ctx noise` tells files that only add tokens: generated code, lock
//! files, test data, binaries, huge JSON and code with few symbols.
use vstd::prelude::*;

use crate::cli::common::{flag_value, flag_value_of};
use crate::cli::log::is;
use crate::cli::log_args::{is_word, next_arg};
use crate::text::{
    append_chars, chars_of, contains, contains_exec, ends_with, ends_with_exec, has_char,
    last_index_of, lower, lower_exec, parse_unsigned, parse_usize_exec, slice_chars, starts_with,
    starts_with_exec, string_of, views,
};

verus! {

/// `seg` is a directory of `path`: `path` begins with `seg/` or holds
/// `/seg/`.
pub open spec fn segment_in(path: Seq<char>, seg: Seq<char>) -> bool {
    starts_with(path, seg.push('/')) || contains(path, seq!['/'] + seg.push('/'))
}

/// Whether `seg` is a directory of `path` (see [`segment_in`]).
fn has_segment(path: &[char], seg: &str) -> (r: bool)
    ensures
        r == segment_in(path@, seg@),
{
    let mut lead = chars_of(seg);
    lead.push('/');
    let mut inner: Vec<char> = Vec::new();
    inner.push('/');
    append_chars(&mut inner, &lead);
    assert(inner@ =~= seq!['/'] + seg@.push('/'));
    starts_with_exec(path, &lead) || contains_exec(path, &inner)
}

/// Whether one of `segments` is a directory of `path` (see [`segment_in`]).
pub fn contains_path_segment(path: &str, segments: &[&str]) -> (r: bool)
    ensures
        r == exists|k: int| 0 <= k < segments@.len() && segment_in(path@, #[trigger] segments@[k]@),
{
    let p = chars_of(path);
    let mut k: usize = 0;
    while k < segments.len()
        invariant
            k <= segments.len(),
            p@ == path@,
            forall|q: int| 0 <= q < k ==> !segment_in(path@, #[trigger] segments@[q]@),
        decreases segments.len() - k,
    {
        if has_segment(&p, segments[k]) {
            return true;
        }
        k = k + 1;
    }
    false
}

/// `path` with each backslash turned into a slash.
pub open spec fn forward_slashes(path: Seq<char>) -> Seq<char> {
    path.map_values(|c: char| if c == '\\' { '/' } else { c })
}

/// The extension that `Path::extension` finds in a file name with no slash
/// in it: what follows the last `.`, unless there is none, the name is `.`
/// or `..`, or its only `.` is the first character.
pub open spec fn name_extension(base: Seq<char>) -> Option<Seq<char>> {
    if base.len() == 0 || base == seq!['.'] || base == seq!['.', '.'] || !has_char(base, '.') {
        None
    } else if last_index_of(base, '.') == 0 {
        None
    } else {
        Some(base.skip(last_index_of(base, '.') + 1))
    }
}

/// A name's extension lowered, with its dot; empty without one.
pub open spec fn dotted_extension(base: Seq<char>) -> Seq<char> {
    match name_extension(base) {
        Some(e) => seq!['.'] + lower(e),
        None => Seq::empty(),
    }
}

/// A generated file by its name.
pub open spec fn generated_name(base: Seq<char>) -> bool {
    ends_with(base, ".pb.go"@) || ends_with(base, ".pb.ts"@) || ends_with(base, ".gen.ts"@)
        || ends_with(base, ".gen.go"@) || ends_with(base, "_generated.py"@) || ends_with(
        base,
        "_pb2.py"@,
    ) || ends_with(base, ".min.js"@) || ends_with(base, ".bundle.js"@)
}

/// A lock file by its name.
pub open spec fn lockfile_name(base: Seq<char>) -> bool {
    base == "package-lock.json"@ || base == "pnpm-lock.yaml"@ || base == "yarn.lock"@ || base
        == "Cargo.lock"@ || base == "Gemfile.lock"@ || base == "go.sum"@ || base == "poetry.lock"@
        || base == "composer.lock"@ || base == "Pipfile.lock"@
}

/// A binary file by its lowered extension.
pub open spec fn binary_extension(ext: Seq<char>) -> bool {
    ext == ".png"@ || ext == ".jpg"@ || ext == ".jpeg"@ || ext == ".gif"@ || ext == ".ico"@ || ext
        == ".pdf"@ || ext == ".zip"@ || ext == ".tar"@ || ext == ".gz"@ || ext == ".so"@ || ext
        == ".dylib"@ || ext == ".dll"@ || ext == ".exe"@ || ext == ".bin"@ || ext == ".wasm"@
        || ext == ".woff"@ || ext == ".woff2"@ || ext == ".ttf"@ || ext == ".eot"@ || ext
        == ".mp3"@ || ext == ".mp4"@ || ext == ".mov"@
}

/// A source file whose symbols are counted, by its lowered extension.
pub open spec fn code_extension(ext: Seq<char>) -> bool {
    ext == ".go"@ || ext == ".ts"@ || ext == ".tsx"@ || ext == ".js"@ || ext == ".jsx"@ || ext
        == ".mjs"@ || ext == ".py"@
}

/// Why a file is noise, the first that applies: `generated` by name or
/// directory, `lockfile`, `testdata`, `binary`, `huge-json` (50 KiB and
/// more), `low-density` (code of 10 KiB and more with under half a symbol
/// per KiB); `None` when none does.
pub open spec fn noise_class(path: Seq<char>, size: int, symbols: int) -> Option<Seq<char>> {
    let slash = forward_slashes(path);
    let base = slash.skip(last_index_of(slash, '/') + 1);
    let ext = dotted_extension(base);
    if generated_name(base) || segment_in(slash, "dist"@) || segment_in(slash, "build"@)
        || segment_in(slash, ".next"@) || segment_in(slash, "generated"@) {
        Some("generated"@)
    } else if lockfile_name(base) {
        Some("lockfile"@)
    } else if segment_in(slash, "testdata"@) || segment_in(slash, "fixtures"@) || segment_in(
        slash,
        "__fixtures__"@,
    ) || segment_in(slash, "__snapshots__"@) {
        Some("testdata"@)
    } else if binary_extension(ext) {
        Some("binary"@)
    } else if ext == ".json"@ && size >= 50 * 1024 {
        Some("huge-json"@)
    } else if code_extension(ext) && size >= 10 * 1024 && 2048 * symbols < size {
        Some("low-density"@)
    } else {
        None
    }
}

/// `path` with each backslash turned into a slash.
fn forward_slashes_exec(path: &[char]) -> (r: Vec<char>)
    ensures
        r@ == forward_slashes(path@),
{
    let mut r: Vec<char> = Vec::new();
    let mut i: usize = 0;
    while i < path.len()
        invariant
            i <= path.len(),
            r@ == forward_slashes(path@.take(i as int)),
        decreases path.len() - i,
    {
        r.push(if path[i] == '\\' { '/' } else { path[i] });
        i = i + 1;
        assert(r@ =~= forward_slashes(path@.take(i as int)));
    }
    assert(path@.take(path.len() as int) =~= path@);
    r
}

/// The lowered extension of a name, with its dot (see [`dotted_extension`]).
fn dotted_extension_exec(base: &[char]) -> (r: Vec<char>)
    ensures
        r@ == dotted_extension(base@),
{
    let n = base.len();
    if n == 0 || (n == 1 && base[0] == '.') || (n == 2 && base[0] == '.' && base[1] == '.') {
        proof {
            if n == 1 {
                assert(base@ =~= seq!['.']);
            }
            if n == 2 {
                assert(base@ =~= seq!['.', '.']);
            }
        }
        return Vec::new();
    }
    proof {
        if base@ == seq!['.'] {
            assert(base@.len() == 1);
        }
        if base@ == seq!['.', '.'] {
            assert(base@.len() == 2 && base@[0] == '.' && base@[1] == '.');
        }
    }
    match crate::text::rfind_char(base, '.') {
        None => Vec::new(),
        Some(k) => {
            proof {
                crate::text::lemma_last_index_of(base@, '.');
            }
            if k == 0 {
                Vec::new()
            } else {
                let e = slice_chars(base, k + 1, base.len());
                assert(e@ =~= base@.skip(k + 1));
                let mut r: Vec<char> = Vec::new();
                r.push('.');
                append_chars(&mut r, &lower_exec(&e));
                r
            }
        },
    }
}

/// Why a file of `size` bytes with `symbols` symbols is noise (see
/// [`noise_class`]). The density test is the comparison of
/// `symbols / (size / 1024)` with one half, made exact in integers; it is
/// the floating-point one for every size below 2^53 bytes.
pub fn classify_noise(path: &str, size: i64, symbols: usize) -> (r: Option<&'static str>)
    requires
        size < 0x20_0000_0000_0000,
    ensures
        (match r {
            Some(s) => Some(s@),
            None => None,
        }) == noise_class(path@, size as int, symbols as int),
{
    let slash = forward_slashes_exec(&chars_of(path));
    let start: usize = match crate::text::rfind_char(&slash, '/') {
        Some(i) => {
            proof {
                crate::text::lemma_last_index_of(slash@, '/');
            }
            assert(crate::text::is_last_index(slash@, '/', i as int));
            assert(i < slash.len());
            i + 1
        },
        None => {
            proof {
                crate::text::lemma_last_index_of(slash@, '/');
            }
            0
        },
    };
    let base = slice_chars(&slash, start, slash.len());
    assert(base@ =~= slash@.skip(last_index_of(slash@, '/') + 1));
    let ext = dotted_extension_exec(&base);
    let ends = |s: &str| -> (b: bool)
        ensures
            b == ends_with(base@, s@),
        { ends_with_exec(&base, &chars_of(s)) };
    if ends(".pb.go") || ends(".pb.ts") || ends(".gen.ts") || ends(".gen.go") || ends(
        "_generated.py",
    ) || ends("_pb2.py") || ends(".min.js") || ends(".bundle.js") || has_segment(&slash, "dist")
        || has_segment(&slash, "build") || has_segment(&slash, ".next") || has_segment(
        &slash,
        "generated",
    ) {
        return Some("generated");
    }
    if is(&base, "package-lock.json") || is(&base, "pnpm-lock.yaml") || is(&base, "yarn.lock")
        || is(&base, "Cargo.lock") || is(&base, "Gemfile.lock") || is(&base, "go.sum") || is(
        &base,
        "poetry.lock",
    ) || is(&base, "composer.lock") || is(&base, "Pipfile.lock") {
        return Some("lockfile");
    }
    if has_segment(&slash, "testdata") || has_segment(&slash, "fixtures") || has_segment(
        &slash,
        "__fixtures__",
    ) || has_segment(&slash, "__snapshots__") {
        return Some("testdata");
    }
    if is(&ext, ".png") || is(&ext, ".jpg") || is(&ext, ".jpeg") || is(&ext, ".gif") || is(
        &ext,
        ".ico",
    ) || is(&ext, ".pdf") || is(&ext, ".zip") || is(&ext, ".tar") || is(&ext, ".gz") || is(
        &ext,
        ".so",
    ) || is(&ext, ".dylib") || is(&ext, ".dll") || is(&ext, ".exe") || is(&ext, ".bin") || is(
        &ext,
        ".wasm",
    ) || is(&ext, ".woff") || is(&ext, ".woff2") || is(&ext, ".ttf") || is(&ext, ".eot") || is(
        &ext,
        ".mp3",
    ) || is(&ext, ".mp4") || is(&ext, ".mov") {
        return Some("binary");
    }
    if is(&ext, ".json") && size >= 50 * 1024 {
        return Some("huge-json");
    }
    if (is(&ext, ".go") || is(&ext, ".ts") || is(&ext, ".tsx") || is(&ext, ".js") || is(
        &ext,
        ".jsx",
    ) || is(&ext, ".mjs") || is(&ext, ".py")) && size >= 10 * 1024 && (symbols as u128) * 2048
        < size as u128 {
        return Some("low-density");
    }
    None
}

/// The options of `ctx noise`.
#[derive(Debug, Clone, PartialEq, Eq)]
pub struct NoiseArgs {
    pub root: String,
    pub top: usize,
    pub apply: bool,
    pub format: String,
}

/// What the arguments read so far have set.
pub struct NoiseScan {
    pub saw: bool,
    pub json: bool,
    pub top: int,
    pub apply: bool,
    pub format: Seq<char>,
    pub positionals: Seq<Seq<char>>,
}

/// Nothing read yet.
pub open spec fn noise_start() -> NoiseScan {
    NoiseScan {
        saw: false,
        json: false,
        top: 20,
        apply: false,
        format: "text"@,
        positionals: Seq::empty(),
    }
}

/// Reads the arguments from `i` on; `None` when one is refused.
pub open spec fn noise_scan(args: Seq<Seq<char>>, i: int, st: NoiseScan) -> Option<NoiseScan>
    decreases args.len() - i,
{
    if i < 0 || i >= args.len() {
        Some(st)
    } else {
        let a = args[i];
        let has_next = i + 1 < args.len();
        if a == "--json"@ {
            noise_scan(args, i + 1, NoiseScan { json: true, ..st })
        } else if a == "--apply"@ {
            noise_scan(args, i + 1, NoiseScan { apply: true, ..st })
        } else if a == "noise"@ {
            if st.saw {
                None
            } else {
                noise_scan(args, i + 1, NoiseScan { saw: true, ..st })
            }
        } else if flag_value_of(a, "--top"@) is Some {
            match parse_unsigned(flag_value_of(a, "--top"@)->0, usize::MAX as int) {
                None => None,
                Some(n) => noise_scan(args, i + 1, NoiseScan { top: n, ..st }),
            }
        } else if a == "--top"@ {
            if !has_next {
                None
            } else {
                match parse_unsigned(args[i + 1], usize::MAX as int) {
                    None => None,
                    Some(n) => noise_scan(args, i + 2, NoiseScan { top: n, ..st }),
                }
            }
        } else if flag_value_of(a, "--format"@) is Some {
            noise_scan(args, i + 1, NoiseScan { format: flag_value_of(a, "--format"@)->0, ..st })
        } else if a == "--format"@ {
            if !has_next {
                None
            } else {
                noise_scan(args, i + 2, NoiseScan { format: args[i + 1], ..st })
            }
        } else if a.len() > 0 && a[0] == '-' {
            None
        } else if st.saw {
            noise_scan(args, i + 1, NoiseScan { positionals: st.positionals.push(a), ..st })
        } else {
            None
        }
    }
}

/// What a command line asks of `ctx noise`, as (root, top, apply, format):
/// `None` unless it names `noise` once, with at most one root (`.` when
/// none) and known flags; `--json` sets the format to `json`.
pub open spec fn noise_request(args: Seq<Seq<char>>) -> Option<(Seq<char>, int, bool, Seq<char>)> {
    match noise_scan(args, 0, noise_start()) {
        None => None,
        Some(st) => if !st.saw || st.positionals.len() > 1 {
            None
        } else {
            Some(
                (
                    if st.positionals.len() == 1 {
                        st.positionals[0]
                    } else {
                        "."@
                    },
                    st.top,
                    st.apply,
                    if st.json {
                        "json"@
                    } else {
                        st.format
                    },
                ),
            )
        },
    }
}

/// Reads the command line of `ctx noise` (see [`noise_request`]).
pub fn parse_noise_args(args: &[String]) -> (r: Option<NoiseArgs>)
    ensures
        match r {
            Some(n) => noise_request(views(args@)) == Some((n.root@, n.top as int, n.apply, n.format@)),
            None => noise_request(views(args@)) is None,
        },
{
    let ghost all = views(args@);
    let mut saw: bool = false;
    let mut json: bool = false;
    let mut top: usize = 20;
    let mut apply: bool = false;
    let mut format: String = "text".to_owned();
    let mut positionals: Vec<String> = Vec::new();
    let mut i: usize = 0;
    assert(views(positionals@) =~= Seq::<Seq<char>>::empty());
    while i < args.len()
        invariant
            all == views(args@),
            i <= args.len(),
            noise_scan(all, 0, noise_start()) == noise_scan(all, i as int, NoiseScan { saw: saw, json: json, top: top as int, apply: apply, format: format@, positionals: views(positionals@) }),
        decreases args.len() - i,
    {
        let arg = &args[i];
        let a = chars_of(arg.as_str());
        assert(a@ == all[i as int]);
        if is_word(&a, "--json") {
            json = true;
            i = i + 1;
        } else if is_word(&a, "--apply") {
            apply = true;
            i = i + 1;
        } else if is_word(&a, "noise") {
            if saw {
                return None;
            }
            saw = true;
            i = i + 1;
        } else if let Some(v) = flag_value(arg.as_str(), "--top") {
            match parse_usize_exec(&chars_of(v.as_str())) {
                None => return None,
                Some(n) => {
                    top = n;
                },
            }
            i = i + 1;
        } else if is_word(&a, "--top") {
            match next_arg(args, i) {
                None => return None,
                Some(v) => {
                    assert(v@ == all[i + 1]);
                    match parse_usize_exec(&chars_of(v.as_str())) {
                        None => return None,
                        Some(n) => {
                            top = n;
                        },
                    }
                },
            }
            i = i + 2;
        } else if let Some(v) = flag_value(arg.as_str(), "--format") {
            format = v;
            i = i + 1;
        } else if is_word(&a, "--format") {
            match next_arg(args, i) {
                None => return None,
                Some(v) => {
                    assert(v@ == all[i + 1]);
                    format = v.clone();
                },
            }
            i = i + 2;
        } else if a.len() > 0 && a[0] == '-' {
            return None;
        } else if saw {
            let ghost before = views(positionals@);
            positionals.push(arg.clone());
            assert(views(positionals@) =~= before.push(a@));
            i = i + 1;
        } else {
            return None;
        }
    }
    if !saw || positionals.len() > 1 {
        return None;
    }
    if json {
        format = "json".to_owned();
    }
    let root = if positionals.len() == 1 {
        positionals[0].clone()
    } else {
        ".".to_owned()
    };
    Some(NoiseArgs { root, top, apply, format })
}


/// A file that adds tokens without adding meaning.
#[derive(Debug, Clone, PartialEq, Eq)]
pub struct NoiseCandidate {
    pub path: String,
    pub tokens: i64,
    pub reason: String,
    pub size: i64,
    pub gitignore_status: String,
}

/// The directory of a slash path (`.` at the top) and its extension: from
/// the last `.` after the last `/` (and not at the start), lowered; empty
/// without one.
pub open spec fn glob_key(slash: Seq<char>) -> (Seq<char>, Seq<char>) {
    let ls = last_index_of(slash, '/');
    let ld = last_index_of(slash, '.');
    (
        if ls >= 0 {
            slash.take(ls)
        } else {
            "."@
        },
        if ld >= 0 && ld > (if ls >= 0 {
            ls
        } else {
            0
        }) {
            lower(slash.skip(ld))
        } else {
            Seq::empty()
        },
    )
}

/// How many of `slashes` share the key `key`.
pub open spec fn key_count(slashes: Seq<Seq<char>>, key: (Seq<char>, Seq<char>)) -> nat
    decreases slashes.len(),
{
    if slashes.len() == 0 {
        0
    } else {
        key_count(slashes.drop_last(), key) + (if glob_key(slashes.last()) == key {
            1nat
        } else {
            0nat
        })
    }
}

/// The ignore line for one candidate: a glob over its directory and
/// extension when at least three candidates share them, else its path.
pub open spec fn glob_line(slashes: Seq<Seq<char>>, slash: Seq<char>) -> Seq<char> {
    let (dir, ext) = glob_key(slash);
    if key_count(slashes, (dir, ext)) >= 3 && ext.len() > 0 {
        if dir == "."@ {
            seq!['*'] + ext
        } else {
            dir + "/*"@ + ext
        }
    } else {
        slash
    }
}

/// The lines of the first `n` candidates, each kept once, in order.
pub open spec fn first_lines(slashes: Seq<Seq<char>>, n: int) -> Seq<Seq<char>>
    decreases n,
{
    if n <= 0 {
        Seq::empty()
    } else {
        let before = first_lines(slashes, n - 1);
        let line = glob_line(slashes, slashes[n - 1]);
        if before.contains(line) {
            before
        } else {
            before.push(line)
        }
    }
}

/// The slash paths of the candidates.
pub open spec fn candidate_slashes(cands: Seq<NoiseCandidate>) -> Seq<Seq<char>> {
    cands.map_values(|c: NoiseCandidate| forward_slashes(c.path@))
}

/// The key of a slash path (see [`glob_key`]).
fn glob_key_exec(slash: &Vec<char>) -> (r: (Vec<char>, Vec<char>))
    ensures
        (r.0@, r.1@) == glob_key(slash@),
{
    let ls = crate::text::rfind_char(slash, '/');
    let ld = crate::text::rfind_char(slash, '.');
    let dir = match ls {
        Some(k) => {
            let d = slice_chars(slash, 0, k);
            assert(d@ =~= slash@.take(k as int));
            d
        },
        None => chars_of("."),
    };
    let bound: usize = match ls {
        Some(k) => k,
        None => 0,
    };
    let ext = match ld {
        Some(k) => if k > bound {
            let e = slice_chars(slash, k, slash.len());
            assert(e@ =~= slash@.skip(k as int));
            lower_exec(&e)
        } else {
            Vec::new()
        },
        None => Vec::new(),
    };
    (dir, ext)
}

/// How many candidates share the key of candidate `t` (see [`key_count`]).
fn count_key(dirs: &Vec<Vec<char>>, exts: &Vec<Vec<char>>, t: usize, Ghost(slashes): Ghost<Seq<Seq<char>>>) -> (r: usize)
    requires
        t < dirs@.len(),
        dirs@.len() == exts@.len(),
        slashes.len() == dirs@.len(),
        forall|k: int| 0 <= k < dirs@.len() ==> (#[trigger] dirs@[k]@, exts@[k]@) == glob_key(slashes[k]),
    ensures
        r == key_count(slashes, (dirs@[t as int]@, exts@[t as int]@)),
{
    let mut count: usize = 0;
    let mut j: usize = 0;
    assert(slashes.take(0) =~= Seq::<Seq<char>>::empty());
    while j < dirs.len()
        invariant
            t < dirs@.len(),
            j <= dirs.len(),
            count <= j,
            dirs@.len() == exts@.len(),
            slashes.len() == dirs@.len(),
            forall|k: int| 0 <= k < dirs@.len() ==> (#[trigger] dirs@[k]@, exts@[k]@) == glob_key(slashes[k]),
            count == key_count(slashes.take(j as int), (dirs@[t as int]@, exts@[t as int]@)),
        decreases dirs.len() - j,
    {
        assert(slashes.take(j + 1).drop_last() =~= slashes.take(j as int));
        assert(slashes.take(j + 1).last() == slashes[j as int]);
        assert((dirs@[j as int]@, exts@[j as int]@) == glob_key(slashes[j as int]));
        if crate::text::chars_eq(&dirs[j], &dirs[t]) && crate::text::chars_eq(&exts[j], &exts[t]) {
            count = count + 1;
        }
        j = j + 1;
    }
    assert(slashes.take(dirs.len() as int) =~= slashes);
    count
}

/// The ignore line for a candidate with `count` others sharing its key.
fn line_for(count: usize, dir: &Vec<char>, ext: &Vec<char>, slash: &Vec<char>) -> (r: Vec<char>)
    ensures
        r@ == (if count >= 3 && ext@.len() > 0 {
            if dir@ == "."@ {
                seq!['*'] + ext@
            } else {
                dir@ + "/*"@ + ext@
            }
        } else {
            slash@
        }),
{
    if count >= 3 && ext.len() > 0 {
        if is(dir, ".") {
            let mut g: Vec<char> = Vec::new();
            g.push('*');
            append_chars(&mut g, ext);
            assert(g@ =~= seq!['*'] + ext@);
            g
        } else {
            let mut g = dir.clone();
            append_chars(&mut g, &chars_of("/*"));
            append_chars(&mut g, ext);
            g
        }
    } else {
        slash.clone()
    }
}

/// Whether `line` is among `lines`.
fn contains_line(lines: &Vec<String>, line: &Vec<char>) -> (r: bool)
    ensures
        r == crate::order::string_views(lines@).contains(line@),
{
    let mut q: usize = 0;
    while q < lines.len()
        invariant
            q <= lines.len(),
            forall|k: int| 0 <= k < q ==> #[trigger] lines@[k]@ != line@,
        decreases lines.len() - q,
    {
        if crate::text::chars_eq(&chars_of(lines[q].as_str()), line) {
            assert(crate::order::string_views(lines@)[q as int] == line@);
            return true;
        }
        q = q + 1;
    }
    assert forall|k: int| 0 <= k < lines@.len() implies crate::order::string_views(lines@)[k] != line@ by {
        assert(crate::order::string_views(lines@)[k] == lines@[k]@);
    }
    false
}

/// The ignore lines proposed for noise candidates: each candidate's line
/// (see [`glob_line`]) kept once, then sorted.
pub fn aggregate_noise_globs(cands: &[NoiseCandidate]) -> (r: Vec<String>)
    ensures
        crate::order::sorted_by_lex(crate::order::string_views(r@)),
        crate::order::string_views(r@).to_multiset() == first_lines(
            candidate_slashes(cands@),
            cands@.len() as int,
        ).to_multiset(),
{
    let ghost slashes = candidate_slashes(cands@);
    let mut sl: Vec<Vec<char>> = Vec::new();
    let mut dirs: Vec<Vec<char>> = Vec::new();
    let mut exts: Vec<Vec<char>> = Vec::new();
    let mut i: usize = 0;
    while i < cands.len()
        invariant
            i <= cands.len(),
            sl@.len() == i && dirs@.len() == i && exts@.len() == i,
            slashes == candidate_slashes(cands@),
            forall|k: int| 0 <= k < i ==> #[trigger] sl@[k]@ == slashes[k],
            forall|k: int| 0 <= k < i ==> (#[trigger] dirs@[k]@, exts@[k]@) == glob_key(slashes[k]),
        decreases cands.len() - i,
    {
        let s = forward_slashes_exec(&chars_of(cands[i].path.as_str()));
        let (d, e) = glob_key_exec(&s);
        sl.push(s);
        dirs.push(d);
        exts.push(e);
        i = i + 1;
    }
    let mut lines: Vec<String> = Vec::new();
    let mut t: usize = 0;
    assert(crate::order::string_views(lines@) =~= Seq::<Seq<char>>::empty());
    while t < cands.len()
        invariant
            t <= cands.len(),
            sl@.len() == cands.len() && dirs@.len() == cands.len() && exts@.len() == cands.len(),
            slashes == candidate_slashes(cands@),
            slashes.len() == cands.len(),
            forall|k: int| 0 <= k < cands.len() ==> #[trigger] sl@[k]@ == slashes[k],
            forall|k: int| 0 <= k < cands.len() ==> (#[trigger] dirs@[k]@, exts@[k]@) == glob_key(slashes[k]),
            crate::order::string_views(lines@) == first_lines(slashes, t as int),
        decreases cands.len() - t,
    {
        let count = count_key(&dirs, &exts, t, Ghost(slashes));
        let line = line_for(count, &dirs[t], &exts[t], &sl[t]);
        assert(line@ == glob_line(slashes, slashes[t as int]));
        let ghost before = crate::order::string_views(lines@);
        if !contains_line(&lines, &line) {
            lines.push(string_of(&line));
            assert(crate::order::string_views(lines@) =~= before.push(line@));
        }
        t = t + 1;
    }
    let r = crate::order::sort_strings(lines);
    proof {
        let a = r@;
        let b = lines@;
        assert(a.to_multiset() == b.to_multiset());
        crate::order::lemma_views_multiset(a, b);
    }
    r
}

/// No ignore line is proposed twice.
pub proof fn law_ignore_lines_distinct(slashes: Seq<Seq<char>>, n: int)
    ensures
        first_lines(slashes, n).no_duplicates(),
    decreases n,
{
    if n > 0 {
        law_ignore_lines_distinct(slashes, n - 1);
    }
}

/// The last `c` of a text lies before a tail without `c`.
proof fn lemma_last_index_before_tail(a: Seq<char>, b: Seq<char>, c: char)
    requires
        forall|i: int| 0 <= i < b.len() ==> b[i] != c,
    ensures
        last_index_of(a + b, c) == last_index_of(a, c),
    decreases b.len(),
{
    if b.len() == 0 {
        assert(a + b =~= a);
    } else {
        assert((a + b).drop_last() =~= a + b.drop_last());
        assert((a + b).last() == b.last());
        lemma_last_index_before_tail(a, b.drop_last(), c);
    }
}

/// A text that ends with `x` ends with its last character.
proof fn lemma_ends_with_last(s: Seq<char>, x: Seq<char>)
    requires
        x.len() > 0,
        ends_with(s, x),
    ensures
        s.last() == x.last(),
{
    assert(s.subrange(s.len() - x.len(), s.len() as int)[x.len() - 1] == s.last());
}

/// A name without `/` lies under no directory.
proof fn lemma_no_segment(name: Seq<char>, seg: Seq<char>)
    requires
        forall|i: int| 0 <= i < name.len() ==> name[i] != '/',
    ensures
        !segment_in(name, seg),
{
    let lead = seg.push('/');
    if starts_with(name, lead) {
        assert(name.subrange(0, lead.len() as int)[seg.len() as int] == name[seg.len() as int]);
    }
    let inner = seq!['/'] + seg.push('/');
    if contains(name, inner) {
        let i = choose|i: int| crate::text::occurs_at(name, inner, i);
        assert(name.subrange(i, i + inner.len())[0] == name[i]);
    }
}

/// Lock files are noise: a path whose file name is one of the known lock
/// files (`package-lock.json`, `pnpm-lock.yaml`, `yarn.lock`, `Cargo.lock`,
/// `Gemfile.lock`, `go.sum`, `poetry.lock`, `composer.lock`,
/// `Pipfile.lock`) is classed `lockfile`, whatever its size and symbols,
/// unless a generated directory above it makes it `generated`; at the top
/// level it is always `lockfile`.
pub proof fn law_lock_files_are_noise(dir: Seq<char>, name: Seq<char>, size: int, symbols: int)
    requires
        dir.len() == 0 || dir.last() == '/' || dir.last() == '\\',
        name == "package-lock.json"@ || name == "pnpm-lock.yaml"@ || name == "yarn.lock"@ || name
            == "Cargo.lock"@ || name == "Gemfile.lock"@ || name == "go.sum"@ || name == "poetry.lock"@
            || name == "composer.lock"@ || name == "Pipfile.lock"@,
    ensures
        noise_class(dir + name, size, symbols) == Some("lockfile"@) || noise_class(
            dir + name,
            size,
            symbols,
        ) == Some("generated"@),
        dir.len() == 0 ==> noise_class(dir + name, size, symbols) == Some("lockfile"@),
{
    reveal_strlit("package-lock.json");
    reveal_strlit("pnpm-lock.yaml");
    reveal_strlit("yarn.lock");
    reveal_strlit("Cargo.lock");
    reveal_strlit("Gemfile.lock");
    reveal_strlit("go.sum");
    reveal_strlit("poetry.lock");
    reveal_strlit("composer.lock");
    reveal_strlit("Pipfile.lock");
    reveal_strlit(".pb.go");
    reveal_strlit(".pb.ts");
    reveal_strlit(".gen.ts");
    reveal_strlit(".gen.go");
    reveal_strlit("_generated.py");
    reveal_strlit("_pb2.py");
    reveal_strlit(".min.js");
    reveal_strlit(".bundle.js");
    let path = dir + name;
    let slash = forward_slashes(path);
    assert forall|i: int| 0 <= i < name.len() implies name[i] != '/' && name[i] != '\\' by {}
    assert(slash =~= forward_slashes(dir) + name);
    lemma_last_index_before_tail(forward_slashes(dir), name, '/');
    crate::text::lemma_last_index_of(forward_slashes(dir), '/');
    let k = last_index_of(slash, '/');
    if dir.len() > 0 {
        assert(forward_slashes(dir).last() == '/');
        assert(k == dir.len() - 1);
    } else {
        assert(forward_slashes(dir) =~= Seq::<char>::empty());
        assert(k == -1);
    }
    assert(slash.skip(k + 1) =~= name);
    assert(lockfile_name(name));
    if dir.len() == 0 {
        assert(slash =~= name);
        lemma_no_segment(name, "dist"@);
        lemma_no_segment(name, "build"@);
        lemma_no_segment(name, ".next"@);
        lemma_no_segment(name, "generated"@);
        assert(!generated_name(name)) by {
            let l = name.last();
            assert(l == 'n' || l == 'l' || l == 'k' || l == 'm');
            if ends_with(name, ".pb.go"@) { lemma_ends_with_last(name, ".pb.go"@); }
            if ends_with(name, ".pb.ts"@) { lemma_ends_with_last(name, ".pb.ts"@); }
            if ends_with(name, ".gen.ts"@) { lemma_ends_with_last(name, ".gen.ts"@); }
            if ends_with(name, ".gen.go"@) { lemma_ends_with_last(name, ".gen.go"@); }
            if ends_with(name, "_generated.py"@) { lemma_ends_with_last(name, "_generated.py"@); }
            if ends_with(name, "_pb2.py"@) { lemma_ends_with_last(name, "_pb2.py"@); }
            if ends_with(name, ".min.js"@) { lemma_ends_with_last(name, ".min.js"@); }
            if ends_with(name, ".bundle.js"@) { lemma_ends_with_last(name, ".bundle.js"@); }
        }
    }
}

} // verus!
