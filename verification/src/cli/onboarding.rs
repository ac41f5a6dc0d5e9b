//! `ctx onboarding`: which files are tests or entry points, how often a
//! file is referenced, and the words that explain a step.
use vstd::prelude::*;

use crate::cli::common::{flag_value, flag_value_of};
use crate::cli::log::is;
use crate::cli::log_args::{is_word, next_arg};
use crate::text::{
    append_chars, append_str, chars_of, contains, contains_exec, decimal, decimal_chars,
    ends_with, ends_with_exec, lower, lower_exec, starts_with, starts_with_exec, string_of, trim,
    trim_exec, views, parse_unsigned, parse_usize_exec,
};

verus! {

/// A test file, by its lowered path.
pub open spec fn test_path(path: Seq<char>) -> bool {
    let l = lower(path);
    ends_with(l, "_test.go"@) || ends_with(l, ".test.ts"@) || ends_with(l, ".spec.ts"@) || contains(
        l,
        "/testdata/"@,
    )
}

/// Whether a file is a test, which onboarding leaves out (see
/// [`test_path`]).
pub fn is_onboarding_test_file(path: &str) -> (r: bool)
    ensures
        r == test_path(path@),
{
    let l = lower_exec(&chars_of(path));
    ends_with_exec(&l, &chars_of("_test.go")) || ends_with_exec(&l, &chars_of(".test.ts"))
        || ends_with_exec(&l, &chars_of(".spec.ts")) || contains_exec(&l, &chars_of("/testdata/"))
}

/// A line that starts a program.
pub open spec fn main_line(line: Seq<char>) -> bool {
    contains(line, "func main("@) || contains(line, "if __name__ == \"__main__\""@) || contains(
        line,
        "if __name__ == '__main__'"@,
    )
}

/// An entry point: by its lowered path, or by a line that starts a program.
pub open spec fn entry_file(path: Seq<char>, lines: Seq<Seq<char>>) -> bool {
    let l = lower(path);
    ends_with(l, "main.go"@) || ends_with(l, "cmd/main.go"@) || ends_with(l, "index.ts"@)
        || ends_with(l, "index.js"@) || exists|k: int| 0 <= k < lines.len() && main_line(#[trigger] lines[k])
}

/// Whether a file is an entry point (see [`entry_file`]).
pub fn is_onboarding_entry(path: &str, lines: &[String]) -> (r: bool)
    ensures
        r == entry_file(path@, views(lines@)),
{
    let l = lower_exec(&chars_of(path));
    if ends_with_exec(&l, &chars_of("main.go")) || ends_with_exec(&l, &chars_of("cmd/main.go"))
        || ends_with_exec(&l, &chars_of("index.ts")) || ends_with_exec(&l, &chars_of("index.js")) {
        return true;
    }
    let mut k: usize = 0;
    while k < lines.len()
        invariant
            k <= lines.len(),
            forall|q: int| 0 <= q < k ==> !main_line(#[trigger] views(lines@)[q]),
        decreases lines.len() - k,
    {
        let line = chars_of(lines[k].as_str());
        assert(views(lines@)[k as int] == line@);
        if contains_exec(&line, &chars_of("func main(")) || contains_exec(
            &line,
            &chars_of("if __name__ == \"__main__\""),
        ) || contains_exec(&line, &chars_of("if __name__ == '__main__'")) {
            return true;
        }
        k = k + 1;
    }
    false
}

/// The role part of a step's reason.
pub open spec fn role_reason(role: Seq<char>, symbols: nat) -> Seq<Seq<char>> {
    if role == "entry"@ {
        seq!["application entry point"@]
    } else if role == "doc"@ {
        seq!["concept overview"@]
    } else if role == "config"@ {
        seq!["project configuration"@]
    } else if symbols > 10 {
        seq!["core domain ("@ + decimal(symbols) + " symbols)"@]
    } else if symbols > 0 {
        seq![decimal(symbols) + " symbols"@]
    } else {
        Seq::empty()
    }
}

/// Why a step is worth reading: its role or symbols, whether it changes
/// often, how many files refer to it; the first two of these joined with
/// `. `, or `source file` when none applies.
pub open spec fn reason_text(role: Seq<char>, symbols: nat, hot: bool, refs: nat) -> Seq<char> {
    let parts = role_reason(role, symbols) + (if hot {
        seq!["frequently modified"@]
    } else {
        Seq::empty()
    }) + (if refs > 0 {
        seq!["referenced by "@ + decimal(refs) + " files"@]
    } else {
        Seq::empty()
    });
    if parts.len() == 0 {
        "source file"@
    } else if parts.len() == 1 {
        parts[0]
    } else {
        parts[0] + ". "@ + parts[1]
    }
}

/// The reason shown for a step (see [`reason_text`]).
pub fn onboarding_reason(role: &str, symbols: usize, hot: bool, ref_count: usize) -> (r: String)
    ensures
        r@ == reason_text(role@, symbols as nat, hot, ref_count as nat),
{
    let rc = chars_of(role);
    let mut parts: Vec<Vec<char>> = Vec::new();
    if is(&rc, "entry") {
        parts.push(chars_of("application entry point"));
    } else if is(&rc, "doc") {
        parts.push(chars_of("concept overview"));
    } else if is(&rc, "config") {
        parts.push(chars_of("project configuration"));
    } else if symbols > 10 {
        let mut p = chars_of("core domain (");
        append_chars(&mut p, &decimal_chars(symbols as u64));
        append_str(&mut p, " symbols)");
        parts.push(p);
    } else if symbols > 0 {
        let mut p = decimal_chars(symbols as u64);
        append_str(&mut p, " symbols");
        parts.push(p);
    }
    assert(crate::text::vec_views(parts@) =~= role_reason(role@, symbols as nat));
    let ghost before_hot = crate::text::vec_views(parts@);
    if hot {
        parts.push(chars_of("frequently modified"));
    }
    assert(crate::text::vec_views(parts@) =~= before_hot + (if hot {
        seq!["frequently modified"@]
    } else {
        Seq::<Seq<char>>::empty()
    }));
    let ghost before_refs = crate::text::vec_views(parts@);
    if ref_count > 0 {
        let mut p = chars_of("referenced by ");
        append_chars(&mut p, &decimal_chars(ref_count as u64));
        append_str(&mut p, " files");
        parts.push(p);
    }
    assert(crate::text::vec_views(parts@) =~= before_refs + (if ref_count > 0 {
        seq!["referenced by "@ + decimal(ref_count as nat) + " files"@]
    } else {
        Seq::<Seq<char>>::empty()
    }));
    if parts.len() == 0 {
        return "source file".to_owned();
    }
    assert(crate::text::vec_views(parts@)[0] == parts@[0]@);
    if parts.len() == 1 {
        return string_of(&parts[0]);
    }
    assert(crate::text::vec_views(parts@)[1] == parts@[1]@);
    let mut out = parts[0].clone();
    append_str(&mut out, ". ");
    append_chars(&mut out, &parts[1]);
    string_of(&out)
}

/// `s` without the leading characters `c`.
pub open spec fn strip_leading(s: Seq<char>, c: char) -> Seq<char>
    decreases s.len(),
{
    if s.len() > 0 && s[0] == c {
        strip_leading(s.drop_first(), c)
    } else {
        s
    }
}

/// A comment line: after trimming, it starts with `//` or `#`.
pub open spec fn comment_line(line: Seq<char>) -> bool {
    starts_with(trim(line), "//"@) || starts_with(trim(line), "#"@)
}

/// The first of `lines` that is a comment, from `k` on.
pub open spec fn first_comment(lines: Seq<Seq<char>>, k: int) -> Option<Seq<char>>
    decreases lines.len() - k,
{
    if k < 0 || k >= lines.len() {
        None
    } else if comment_line(lines[k]) {
        Some(lines[k])
    } else {
        first_comment(lines, k + 1)
    }
}

/// The description of a file for people: its first comment line, trimmed,
/// without the leading slashes and then hashes that open it; empty without
/// one.
pub open spec fn description_text(lines: Seq<Seq<char>>) -> Seq<char> {
    match first_comment(lines, 0) {
        Some(line) => trim(strip_leading(strip_leading(trim(line), '/'), '#')),
        None => Seq::empty(),
    }
}

/// `s` without the leading characters `c` (see [`strip_leading`]).
fn strip_leading_exec(s: &[char], c: char) -> (r: Vec<char>)
    ensures
        r@ == strip_leading(s@, c),
{
    let mut i: usize = 0;
    assert(s@.skip(0) =~= s@);
    while i < s.len() && s[i] == c
        invariant
            i <= s.len(),
            strip_leading(s@, c) == strip_leading(s@.skip(i as int), c),
        decreases s.len() - i,
    {
        assert(s@.skip(i as int).drop_first() =~= s@.skip(i + 1));
        i = i + 1;
    }
    let r = crate::text::slice_chars(s, i, s.len());
    assert(r@ =~= s@.skip(i as int));
    r
}

/// The description of a file for people (see [`description_text`]).
pub fn onboarding_description(lines: &[String]) -> (r: String)
    ensures
        r@ == description_text(views(lines@)),
{
    let ghost all = views(lines@);
    let mut k: usize = 0;
    while k < lines.len()
        invariant
            k <= lines.len(),
            all == views(lines@),
            first_comment(all, 0) == first_comment(all, k as int),
        decreases lines.len() - k,
    {
        let line = chars_of(lines[k].as_str());
        assert(all[k as int] == line@);
        let t = trim_exec(&line);
        if starts_with_exec(&t, &chars_of("//")) || starts_with_exec(&t, &chars_of("#")) {
            let a = strip_leading_exec(&t, '/');
            let b = strip_leading_exec(&a, '#');
            return string_of(&trim_exec(&b));
        }
        k = k + 1;
    }
    String::new()
}

/// Names the file stem that `Path::file_stem` finds in a path: the final
/// component without its extension, when the path has a final component
/// (and that stem is valid text).
pub uninterp spec fn file_stem_text(path: Seq<char>) -> Option<Seq<char>>;

/// Calls `Path::file_stem`. Its result is a function of the path alone,
/// named [`file_stem_text`]; nothing more is claimed of it.
#[verifier::external_body]
fn path_file_stem(path: &str) -> (r: Option<String>)
    ensures
        match r {
            Some(s) => file_stem_text(path@) == Some(s@),
            None => file_stem_text(path@) is None,
        },
{
    std::path::Path::new(path).file_stem().and_then(|s| s.to_str()).map(|s| s.to_owned())
}

/// A candidate file of the onboarding curriculum: its path and lines.
#[derive(Debug, Clone)]
pub struct OnboardingFile {
    pub path: String,
    pub lines: Vec<String>,
}

/// Whether one of the lines of `f` holds `stem`.
pub open spec fn mentions(f: OnboardingFile, stem: Seq<char>) -> bool {
    exists|k: int| 0 <= k < f.lines@.len() && contains(#[trigger] f.lines@[k]@, stem)
}

/// How many of the first `n` files, other than those at `path`, mention
/// `stem`.
pub open spec fn mention_count(files: Seq<OnboardingFile>, path: Seq<char>, stem: Seq<char>, n: int) -> nat
    decreases n,
{
    if n <= 0 {
        0
    } else {
        mention_count(files, path, stem, n - 1) + (if files[n - 1].path@ != path && mentions(
            files[n - 1],
            stem,
        ) {
            1nat
        } else {
            0nat
        })
    }
}

/// The reference count of `files[i]`: how many other files mention its
/// stem; `None` when its path has no stem or an empty one.
pub open spec fn ref_count_of(files: Seq<OnboardingFile>, i: int) -> Option<nat> {
    match file_stem_text(files[i].path@) {
        Some(stem) => if stem.len() > 0 {
            Some(mention_count(files, files[i].path@, stem, files.len() as int))
        } else {
            None
        },
        None => None,
    }
}

/// Whether a line of `f` holds `stem`.
fn file_mentions(f: &OnboardingFile, stem: &[char]) -> (r: bool)
    ensures
        r == mentions(*f, stem@),
{
    let mut k: usize = 0;
    while k < f.lines.len()
        invariant
            k <= f.lines.len(),
            forall|q: int| 0 <= q < k ==> !contains(#[trigger] f.lines@[q]@, stem@),
        decreases f.lines.len() - k,
    {
        if contains_exec(&chars_of(f.lines[k].as_str()), stem) {
            return true;
        }
        k = k + 1;
    }
    false
}

/// The reference count of each file, in order (see [`ref_count_of`]).
pub fn onboarding_ref_counts(files: &[OnboardingFile]) -> (r: Vec<Option<usize>>)
    ensures
        r@.len() == files@.len(),
        forall|i: int|
            0 <= i < files@.len() ==> (match #[trigger] r@[i] {
                Some(n) => ref_count_of(files@, i) == Some(n as nat),
                None => ref_count_of(files@, i) is None,
            }),
{
    let mut out: Vec<Option<usize>> = Vec::new();
    let mut t: usize = 0;
    while t < files.len()
        invariant
            t <= files.len(),
            out@.len() == t,
            forall|i: int|
                0 <= i < t ==> (match #[trigger] out@[i] {
                    Some(n) => ref_count_of(files@, i) == Some(n as nat),
                    None => ref_count_of(files@, i) is None,
                }),
        decreases files.len() - t,
    {
        let target = &files[t];
        match path_file_stem(target.path.as_str()) {
            None => {
                out.push(None);
            },
            Some(stem) => {
                let sc = chars_of(stem.as_str());
                if sc.len() == 0 {
                    out.push(None);
                } else {
                    let pc = chars_of(target.path.as_str());
                    let mut count: usize = 0;
                    let mut j: usize = 0;
                    while j < files.len()
                        invariant
                            j <= files.len(),
                            t < files.len(),
                            pc@ == files@[t as int].path@,
                            count == mention_count(files@, pc@, sc@, j as int),
                            count <= j,
                        decreases files.len() - j,
                    {
                        let same = crate::text::chars_eq(&chars_of(files[j].path.as_str()), &pc);
                        if !same && file_mentions(&files[j], &sc) {
                            count = count + 1;
                        }
                        j = j + 1;
                    }
                    out.push(Some(count));
                }
            },
        }
        t = t + 1;
    }
    out
}

/// The options of `ctx onboarding`.
#[derive(Debug, Clone, PartialEq, Eq)]
pub struct OnboardingArgs {
    pub root: String,
    pub limit: usize,
    pub persona: String,
    pub format: String,
}

/// What the arguments read so far have set.
pub struct OnboardingScan {
    pub saw: bool,
    pub limit: int,
    pub persona: Seq<char>,
    pub format: Seq<char>,
    pub json: bool,
    pub positionals: Seq<Seq<char>>,
}

/// Nothing read yet.
pub open spec fn onboarding_start() -> OnboardingScan {
    OnboardingScan {
        saw: false,
        limit: 10,
        persona: "human"@,
        format: "text"@,
        json: false,
        positionals: Seq::empty(),
    }
}

/// Reads the arguments from `i` on; `None` when one is refused.
pub open spec fn onboarding_scan(args: Seq<Seq<char>>, i: int, st: OnboardingScan) -> Option<OnboardingScan>
    decreases args.len() - i,
{
    if i < 0 || i >= args.len() {
        Some(st)
    } else {
        let a = args[i];
        let has_next = i + 1 < args.len();
        if a == "--json"@ {
            onboarding_scan(args, i + 1, OnboardingScan { json: true, ..st })
        } else if a == "onboarding"@ {
            if st.saw {
                None
            } else {
                onboarding_scan(args, i + 1, OnboardingScan { saw: true, ..st })
            }
        } else if flag_value_of(a, "--limit"@) is Some {
            match parse_unsigned(flag_value_of(a, "--limit"@)->0, usize::MAX as int) {
                None => None,
                Some(n) => onboarding_scan(args, i + 1, OnboardingScan { limit: n, ..st }),
            }
        } else if a == "--limit"@ {
            if !has_next {
                None
            } else {
                match parse_unsigned(args[i + 1], usize::MAX as int) {
                    None => None,
                    Some(n) => onboarding_scan(args, i + 2, OnboardingScan { limit: n, ..st }),
                }
            }
        } else if flag_value_of(a, "--persona"@) is Some {
            onboarding_scan(args, i + 1, OnboardingScan { persona: flag_value_of(a, "--persona"@)->0, ..st })
        } else if a == "--persona"@ {
            if !has_next {
                None
            } else {
                onboarding_scan(args, i + 2, OnboardingScan { persona: args[i + 1], ..st })
            }
        } else if flag_value_of(a, "--format"@) is Some {
            onboarding_scan(args, i + 1, OnboardingScan { format: flag_value_of(a, "--format"@)->0, ..st })
        } else if a == "--format"@ {
            if !has_next {
                None
            } else {
                onboarding_scan(args, i + 2, OnboardingScan { format: args[i + 1], ..st })
            }
        } else if a.len() > 0 && a[0] == '-' {
            None
        } else if st.saw {
            onboarding_scan(args, i + 1, OnboardingScan { positionals: st.positionals.push(a), ..st })
        } else {
            None
        }
    }
}

/// What a command line asks of `ctx onboarding`, as (root, limit, persona,
/// format): `None` unless it names `onboarding` once, with at most one root
/// (`.` when none) and known flags; `--json` sets the format to `json`.
pub open spec fn onboarding_request(args: Seq<Seq<char>>) -> Option<(Seq<char>, int, Seq<char>, Seq<char>)> {
    match onboarding_scan(args, 0, onboarding_start()) {
        None => None,
        Some(st) => if !st.saw || st.positionals.len() > 1 {
            None
        } else {
            Some(
                (
                    if st.positionals.len() == 1 {
                        st.positionals[0]
                    } else {
                        "."@
                    },
                    st.limit,
                    st.persona,
                    if st.json {
                        "json"@
                    } else {
                        st.format
                    },
                ),
            )
        },
    }
}

/// Reads the command line of `ctx onboarding` (see [`onboarding_request`]).
pub fn parse_onboarding_args(args: &[String]) -> (r: Option<OnboardingArgs>)
    ensures
        match r {
            Some(o) => onboarding_request(views(args@)) == Some((o.root@, o.limit as int, o.persona@, o.format@)),
            None => onboarding_request(views(args@)) is None,
        },
{
    let ghost all = views(args@);
    let mut saw: bool = false;
    let mut limit: usize = 10;
    let mut persona: String = "human".to_owned();
    let mut format: String = "text".to_owned();
    let mut json: bool = false;
    let mut positionals: Vec<String> = Vec::new();
    let mut i: usize = 0;
    assert(views(positionals@) =~= Seq::<Seq<char>>::empty());
    while i < args.len()
        invariant
            all == views(args@),
            i <= args.len(),
            onboarding_scan(all, 0, onboarding_start()) == onboarding_scan(all, i as int, OnboardingScan { saw: saw, limit: limit as int, persona: persona@, format: format@, json: json, positionals: views(positionals@) }),
        decreases args.len() - i,
    {
        let arg = &args[i];
        let a = chars_of(arg.as_str());
        assert(a@ == all[i as int]);
        if is_word(&a, "--json") {
            json = true;
            i = i + 1;
        } else if is_word(&a, "onboarding") {
            if saw {
                return None;
            }
            saw = true;
            i = i + 1;
        } else if let Some(v) = flag_value(arg.as_str(), "--limit") {
            match parse_usize_exec(&chars_of(v.as_str())) {
                None => return None,
                Some(n) => {
                    limit = n;
                },
            }
            i = i + 1;
        } else if is_word(&a, "--limit") {
            match next_arg(args, i) {
                None => return None,
                Some(v) => {
                    assert(v@ == all[i + 1]);
                    match parse_usize_exec(&chars_of(v.as_str())) {
                        None => return None,
                        Some(n) => {
                            limit = n;
                        },
                    }
                },
            }
            i = i + 2;
        } else if let Some(v) = flag_value(arg.as_str(), "--persona") {
            persona = v;
            i = i + 1;
        } else if is_word(&a, "--persona") {
            match next_arg(args, i) {
                None => return None,
                Some(v) => {
                    assert(v@ == all[i + 1]);
                    persona = v.clone();
                },
            }
            i = i + 2;
        } else if let Some(v) = flag_value(arg.as_str(), "--format") {
            format = v;
            i = i + 1;
        } else if is_word(&a, "--format") {
            match next_arg(args, i) {
                None => return None,
                Some(v) => {
                    assert(v@ == all[i + 1]);
                    format = v.clone();
                },
            }
            i = i + 2;
        } else if a.len() > 0 && a[0] == '-' {
            return None;
        } else if saw {
            let ghost before = views(positionals@);
            positionals.push(arg.clone());
            assert(views(positionals@) =~= before.push(a@));
            i = i + 1;
        } else {
            return None;
        }
    }
    if !saw || positionals.len() > 1 {
        return None;
    }
    if json {
        format = "json".to_owned();
    }
    let root = if positionals.len() == 1 {
        positionals[0].clone()
    } else {
        ".".to_owned()
    };
    Some(OnboardingArgs { root, limit, persona, format })
}


} // verus!
