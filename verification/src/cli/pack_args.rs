//! The command line of `ctx pack`: which files to pack, how, and where to
//! write the result.
use vstd::prelude::*;

use crate::cli::common::{flag_value, flag_value_of};
use crate::text::{
    append_str, chars_of, debug_char, debug_char_text, debug_quoted, debug_text, parse_i64,
    parse_i64_exec, string_of, views,
};

verus! {

/// The options of a `pack` command.
#[derive(Debug, Clone, PartialEq, Eq)]
pub struct PackArgs {
    pub root: String,
    pub from_where: bool,
    pub from_stdin: bool,
    pub diff_spec: String,
    pub since: String,
    pub until: String,
    pub use_mtime: bool,
    pub budget: i64,
    pub format: String,
    pub out: String,
    pub goal: String,
    pub no_contract: bool,
    pub no_warnings: bool,
    pub no_paths: bool,
    pub no_metadata: bool,
    pub frontmatter: String,
    pub plain_file_contents: bool,
    pub explain: bool,
    pub preset: String,
    pub changed: bool,
    pub api_only: bool,
    pub layout: String,
    pub from_mix: String,
    pub why_paths: Vec<String>,
    pub snapshot_id: String,
    pub since_snapshot: String,
    pub replay_shared: bool,
    pub replay_strict: bool,
    pub format_changed: bool,
    pub goal_changed: bool,
    pub budget_changed: bool,
    pub preset_changed: bool,
    pub no_warnings_changed: bool,
    pub no_paths_changed: bool,
    pub no_metadata_changed: bool,
    pub frontmatter_changed: bool,
}

/// The options of a `pack` command, by view.
pub struct PackFields {
    pub root: Seq<char>,
    pub from_where: bool,
    pub from_stdin: bool,
    pub diff_spec: Seq<char>,
    pub since: Seq<char>,
    pub until: Seq<char>,
    pub use_mtime: bool,
    pub budget: int,
    pub format: Seq<char>,
    pub out: Seq<char>,
    pub goal: Seq<char>,
    pub no_contract: bool,
    pub no_warnings: bool,
    pub no_paths: bool,
    pub no_metadata: bool,
    pub frontmatter: Seq<char>,
    pub plain_file_contents: bool,
    pub explain: bool,
    pub preset: Seq<char>,
    pub changed: bool,
    pub api_only: bool,
    pub layout: Seq<char>,
    pub from_mix: Seq<char>,
    pub why_paths: Seq<Seq<char>>,
    pub snapshot_id: Seq<char>,
    pub since_snapshot: Seq<char>,
    pub replay_shared: bool,
    pub replay_strict: bool,
    pub format_changed: bool,
    pub goal_changed: bool,
    pub budget_changed: bool,
    pub preset_changed: bool,
    pub no_warnings_changed: bool,
    pub no_paths_changed: bool,
    pub no_metadata_changed: bool,
    pub frontmatter_changed: bool,
}

impl PackArgs {
    /// The view of the options.
    pub open spec fn view_of(self) -> PackFields {
        PackFields {
            root: self.root@,
            from_where: self.from_where,
            from_stdin: self.from_stdin,
            diff_spec: self.diff_spec@,
            since: self.since@,
            until: self.until@,
            use_mtime: self.use_mtime,
            budget: self.budget as int,
            format: self.format@,
            out: self.out@,
            goal: self.goal@,
            no_contract: self.no_contract,
            no_warnings: self.no_warnings,
            no_paths: self.no_paths,
            no_metadata: self.no_metadata,
            frontmatter: self.frontmatter@,
            plain_file_contents: self.plain_file_contents,
            explain: self.explain,
            preset: self.preset@,
            changed: self.changed,
            api_only: self.api_only,
            layout: self.layout@,
            from_mix: self.from_mix@,
            why_paths: views(self.why_paths@),
            snapshot_id: self.snapshot_id@,
            since_snapshot: self.since_snapshot@,
            replay_shared: self.replay_shared,
            replay_strict: self.replay_strict,
            format_changed: self.format_changed,
            goal_changed: self.goal_changed,
            budget_changed: self.budget_changed,
            preset_changed: self.preset_changed,
            no_warnings_changed: self.no_warnings_changed,
            no_paths_changed: self.no_paths_changed,
            no_metadata_changed: self.no_metadata_changed,
            frontmatter_changed: self.frontmatter_changed,
        }
    }
}

/// What the arguments read so far have set: the options, whether `pack`
/// was seen, whether `--json` or `--plain` was given, and the positional
/// arguments.
pub struct PackScan {
    pub fields: PackFields,
    pub saw_pack: bool,
    pub json: bool,
    pub plain: bool,
    pub positionals: Seq<Seq<char>>,
}

/// `a` is the flag `name`, alone or as `name=value`.
#[verifier::opaque]
pub open spec fn flag_match(a: Seq<char>, name: Seq<char>) -> bool {
    flag_value_of(a, name) is Some || a == name
}

/// The value of the flag `name` at argument `i`: after its `=`, or the next
/// argument; `None` when the next argument is missing.
#[verifier::opaque]
pub open spec fn flag_arg(args: Seq<Seq<char>>, i: int, name: Seq<char>) -> Option<Seq<char>> {
    match flag_value_of(args[i], name) {
        Some(v) => Some(v),
        None => if i + 1 < args.len() {
            Some(args[i + 1])
        } else {
            None
        },
    }
}

/// The argument after the flag `name` at `i` and its value.
#[verifier::opaque]
pub open spec fn flag_next(args: Seq<Seq<char>>, i: int, name: Seq<char>) -> int {
    if flag_value_of(args[i], name) is Some {
        i + 1
    } else {
        i + 2
    }
}

/// `a` is written `name=value`.
#[verifier::opaque]
pub open spec fn has_inline_value(a: Seq<char>, name: Seq<char>) -> bool {
    flag_value_of(a, name) is Some
}

/// The options before any argument: a budget of 50000, markdown, the
/// sequential layout, everything else empty or off.
pub open spec fn pack_defaults() -> PackFields {
    PackFields {
            root: Seq::empty(),
            from_where: false,
            from_stdin: false,
            diff_spec: Seq::empty(),
            since: Seq::empty(),
            until: Seq::empty(),
            use_mtime: false,
            budget: 50000,
            format: "markdown"@,
            out: Seq::empty(),
            goal: Seq::empty(),
            no_contract: false,
            no_warnings: false,
            no_paths: false,
            no_metadata: false,
            frontmatter: Seq::empty(),
            plain_file_contents: false,
            explain: false,
            preset: Seq::empty(),
            changed: false,
            api_only: false,
            layout: "sequential"@,
            from_mix: Seq::empty(),
            why_paths: Seq::empty(),
            snapshot_id: Seq::empty(),
            since_snapshot: Seq::empty(),
            replay_shared: false,
            replay_strict: false,
            format_changed: false,
            goal_changed: false,
            budget_changed: false,
            preset_changed: false,
            no_warnings_changed: false,
            no_paths_changed: false,
            no_metadata_changed: false,
            frontmatter_changed: false,
    }
}

/// The exec state of the scan besides the options: whether `pack` was
/// seen, whether `--json` or `--plain` was given, and the positionals.
pub struct ScanFlags {
    pub saw_pack: bool,
    pub json: bool,
    pub plain: bool,
    pub positionals: Vec<String>,
}

/// The scan state by view.
pub open spec fn scan_view(p: PackArgs, f: ScanFlags) -> PackScan {
    PackScan {
        fields: p.view_of(),
        saw_pack: f.saw_pack,
        json: f.json,
        plain: f.plain,
        positionals: views(f.positionals@),
    }
}

/// The exec scan state `p`, `f` stands for the scan state `s`.
pub open spec fn same_scan(s: PackScan, p: PackArgs, f: ScanFlags) -> bool {
    &&& s.fields == p.view_of()
    &&& s.saw_pack == f.saw_pack
    &&& s.json == f.json
    &&& s.plain == f.plain
    &&& s.positionals == views(f.positionals@)
}

/// Argument `i` read as one of `--json`, `--plain`, `pack`, `--from-where`: the state after it and
/// the index after it; `Some(None)` when it is refused, `None` when it is
/// none of these.
#[verifier::opaque]
pub open spec fn pack_step_1(args: Seq<Seq<char>>, i: int, st: PackScan) -> Option<Option<(PackScan, int)>> {
    let a = args[i];
    if a == "--json"@ {
        Some(Some((PackScan { json: true, fields: PackFields { format_changed: true, ..st.fields }, ..st }, i + 1)))
    } else if a == "--plain"@ {
        Some(Some((PackScan { plain: true, fields: PackFields { format_changed: true, ..st.fields }, ..st }, i + 1)))
    } else if a == "pack"@ {
        if st.saw_pack {
            Some(None)
        } else {
            Some(Some((PackScan { saw_pack: true, ..st }, i + 1)))
        }
    } else if a == "--from-where"@ {
        Some(Some((PackScan { fields: PackFields { from_where: true, ..st.fields }, ..st }, i + 1)))
    } else {
        None
    }
}

/// Argument `i` read as one of `--from-stdin`, `--diff`, `--since`, `--until`: the state after it and
/// the index after it; `Some(None)` when it is refused, `None` when it is
/// none of these.
#[verifier::opaque]
pub open spec fn pack_step_2(args: Seq<Seq<char>>, i: int, st: PackScan) -> Option<Option<(PackScan, int)>> {
    let a = args[i];
    if a == "--from-stdin"@ {
        Some(Some((PackScan { fields: PackFields { from_stdin: true, ..st.fields }, ..st }, i + 1)))
    } else if flag_match(a, "--diff"@) {
        match flag_arg(args, i, "--diff"@) {
            None => Some(None),
            Some(v) => Some(Some((PackScan { fields: PackFields { diff_spec: v, ..st.fields }, ..st }, flag_next(args, i, "--diff"@)))),
        }
    } else if flag_match(a, "--since"@) {
        match flag_arg(args, i, "--since"@) {
            None => Some(None),
            Some(v) => Some(Some((PackScan { fields: PackFields { since: v, ..st.fields }, ..st }, flag_next(args, i, "--since"@)))),
        }
    } else if flag_match(a, "--until"@) {
        match flag_arg(args, i, "--until"@) {
            None => Some(None),
            Some(v) => Some(Some((PackScan { fields: PackFields { until: v, ..st.fields }, ..st }, flag_next(args, i, "--until"@)))),
        }
    } else {
        None
    }
}

/// Argument `i` read as one of `--use-mtime`, `--budget`, `--format`, `--out`: the state after it and
/// the index after it; `Some(None)` when it is refused, `None` when it is
/// none of these.
#[verifier::opaque]
pub open spec fn pack_step_3(args: Seq<Seq<char>>, i: int, st: PackScan) -> Option<Option<(PackScan, int)>> {
    let a = args[i];
    if a == "--use-mtime"@ {
        Some(Some((PackScan { fields: PackFields { use_mtime: true, ..st.fields }, ..st }, i + 1)))
    } else if flag_match(a, "--budget"@) {
        match flag_arg(args, i, "--budget"@) {
            None => Some(None),
            Some(v) => match parse_i64(v) {
                None => Some(None),
                Some(n) => Some(Some((PackScan { fields: PackFields { budget: n, budget_changed: true, ..st.fields }, ..st }, flag_next(args, i, "--budget"@)))),
            },
        }
    } else if flag_match(a, "--format"@) {
        match flag_arg(args, i, "--format"@) {
            None => Some(None),
            Some(v) => Some(Some((PackScan { fields: PackFields { format: v, format_changed: true, ..st.fields }, ..st }, flag_next(args, i, "--format"@)))),
        }
    } else if flag_match(a, "--out"@) {
        match flag_arg(args, i, "--out"@) {
            None => Some(None),
            Some(v) => Some(Some((PackScan { fields: PackFields { out: v, ..st.fields }, ..st }, flag_next(args, i, "--out"@)))),
        }
    } else {
        None
    }
}

/// Argument `i` read as one of `--goal`, `--no-contract`, `--contract`, `--no-warnings`: the state after it and
/// the index after it; `Some(None)` when it is refused, `None` when it is
/// none of these.
#[verifier::opaque]
pub open spec fn pack_step_4(args: Seq<Seq<char>>, i: int, st: PackScan) -> Option<Option<(PackScan, int)>> {
    let a = args[i];
    if flag_match(a, "--goal"@) {
        match flag_arg(args, i, "--goal"@) {
            None => Some(None),
            Some(v) => Some(Some((PackScan { fields: PackFields { goal: v, goal_changed: true, ..st.fields }, ..st }, flag_next(args, i, "--goal"@)))),
        }
    } else if a == "--no-contract"@ || a == "--contract=false"@ || a == "--contract=0"@ {
        Some(Some((PackScan { fields: PackFields { no_contract: true, ..st.fields }, ..st }, i + 1)))
    } else if a == "--contract"@ || a == "--contract=true"@ || a == "--contract=1"@ {
        Some(Some((PackScan { fields: PackFields { no_contract: false, ..st.fields }, ..st }, i + 1)))
    } else if a == "--no-warnings"@ {
        Some(Some((PackScan { fields: PackFields { no_warnings: true, no_warnings_changed: true, ..st.fields }, ..st }, i + 1)))
    } else {
        None
    }
}

/// Argument `i` read as one of `--no-paths`, `--no-metadata`, `--frontmatter`, `--explain`: the state after it and
/// the index after it; `Some(None)` when it is refused, `None` when it is
/// none of these.
#[verifier::opaque]
pub open spec fn pack_step_5(args: Seq<Seq<char>>, i: int, st: PackScan) -> Option<Option<(PackScan, int)>> {
    let a = args[i];
    if a == "--no-paths"@ {
        Some(Some((PackScan { fields: PackFields { no_paths: true, no_paths_changed: true, ..st.fields }, ..st }, i + 1)))
    } else if a == "--no-metadata"@ {
        Some(Some((PackScan { fields: PackFields { no_metadata: true, no_metadata_changed: true, ..st.fields }, ..st }, i + 1)))
    } else if flag_match(a, "--frontmatter"@) {
        match flag_arg(args, i, "--frontmatter"@) {
            None => Some(None),
            Some(v) => Some(Some((PackScan { fields: PackFields { frontmatter: v, frontmatter_changed: true, ..st.fields }, ..st }, flag_next(args, i, "--frontmatter"@)))),
        }
    } else if a == "--explain"@ {
        Some(Some((PackScan { fields: PackFields { explain: true, ..st.fields }, ..st }, i + 1)))
    } else {
        None
    }
}

/// Argument `i` read as one of `--preset`, `--changed`, `--api-only`, `--layout`: the state after it and
/// the index after it; `Some(None)` when it is refused, `None` when it is
/// none of these.
#[verifier::opaque]
pub open spec fn pack_step_6(args: Seq<Seq<char>>, i: int, st: PackScan) -> Option<Option<(PackScan, int)>> {
    let a = args[i];
    if flag_match(a, "--preset"@) {
        match flag_arg(args, i, "--preset"@) {
            None => Some(None),
            Some(v) => Some(Some((PackScan { fields: PackFields { preset: v, preset_changed: true, ..st.fields }, ..st }, flag_next(args, i, "--preset"@)))),
        }
    } else if a == "--changed"@ {
        Some(Some((PackScan { fields: PackFields { changed: true, ..st.fields }, ..st }, i + 1)))
    } else if a == "--api-only"@ {
        Some(Some((PackScan { fields: PackFields { api_only: true, ..st.fields }, ..st }, i + 1)))
    } else if flag_match(a, "--layout"@) {
        match flag_arg(args, i, "--layout"@) {
            None => Some(None),
            Some(v) => Some(Some((PackScan { fields: PackFields { layout: v, ..st.fields }, ..st }, flag_next(args, i, "--layout"@)))),
        }
    } else {
        None
    }
}

/// Argument `i` read as one of `--from-mix`, `--why`, `--snapshot`, `--since-snapshot`: the state after it and
/// the index after it; `Some(None)` when it is refused, `None` when it is
/// none of these.
#[verifier::opaque]
pub open spec fn pack_step_7(args: Seq<Seq<char>>, i: int, st: PackScan) -> Option<Option<(PackScan, int)>> {
    let a = args[i];
    if flag_match(a, "--from-mix"@) {
        match flag_arg(args, i, "--from-mix"@) {
            None => Some(None),
            Some(v) => Some(Some((PackScan { fields: PackFields { from_mix: v, ..st.fields }, ..st }, flag_next(args, i, "--from-mix"@)))),
        }
    } else if flag_match(a, "--why"@) {
        match flag_arg(args, i, "--why"@) {
            None => Some(None),
            Some(v) => Some(Some((PackScan { fields: PackFields { why_paths: st.fields.why_paths.push(v), ..st.fields }, ..st }, flag_next(args, i, "--why"@)))),
        }
    } else if flag_match(a, "--snapshot"@) {
        match flag_arg(args, i, "--snapshot"@) {
            None => Some(None),
            Some(v) => Some(Some((PackScan { fields: PackFields { snapshot_id: v, ..st.fields }, ..st }, flag_next(args, i, "--snapshot"@)))),
        }
    } else if flag_match(a, "--since-snapshot"@) {
        match flag_arg(args, i, "--since-snapshot"@) {
            None => Some(None),
            Some(v) => Some(Some((PackScan { fields: PackFields { since_snapshot: v, ..st.fields }, ..st }, flag_next(args, i, "--since-snapshot"@)))),
        }
    } else {
        None
    }
}

/// Argument `i` read as one of `--shared`, `--strict`, the engine flags, unknown options, positionals and stray words: the state after it and
/// the index after it, `None` when it is refused.
#[verifier::opaque]
pub open spec fn pack_step_8(args: Seq<Seq<char>>, i: int, st: PackScan) -> Option<(PackScan, int)> {
    let a = args[i];
    if a == "--shared"@ {
        Some((PackScan { fields: PackFields { replay_shared: true, ..st.fields }, ..st }, i + 1))
    } else if a == "--strict"@ {
        Some((PackScan { fields: PackFields { replay_strict: true, ..st.fields }, ..st }, i + 1))
    } else if has_inline_value(a, "--pack-engine"@) || has_inline_value(a, "--scan-engine"@) {
        Some((st, i + 1))
    } else if a == "--pack-engine"@ || a == "--scan-engine"@ {
        if i + 1 < args.len() {
            Some((st, i + 2))
        } else {
            None
        }
    } else if a.len() > 0 && a[0] == '-' {
        None
    } else if st.saw_pack {
        Some((PackScan { positionals: st.positionals.push(a), ..st }, i + 1))
    } else {
        None
    }
}

/// What argument `i` sets and the index after it; `None` when it is
/// refused.
pub open spec fn pack_step(args: Seq<Seq<char>>, i: int, st: PackScan) -> Option<(PackScan, int)> {
    match pack_step_1(args, i, st) {
        Some(step) => step,
        None => {
            match pack_step_2(args, i, st) {
                Some(step) => step,
                None => {
                    match pack_step_3(args, i, st) {
                        Some(step) => step,
                        None => {
                            match pack_step_4(args, i, st) {
                                Some(step) => step,
                                None => {
                                    match pack_step_5(args, i, st) {
                                        Some(step) => step,
                                        None => {
                                            match pack_step_6(args, i, st) {
                                                Some(step) => step,
                                                None => {
                                                    match pack_step_7(args, i, st) {
                                                        Some(step) => step,
                                                        None => {
                                                            pack_step_8(args, i, st)
                                                        },
                                                    }
                                                },
                                            }
                                        },
                                    }
                                },
                            }
                        },
                    }
                },
            }
        },
    }
}

/// Reads the arguments from `i` on; `None` when one is refused. (A step
/// always moves forward within the arguments.)
pub open spec fn pack_scan(args: Seq<Seq<char>>, i: int, st: PackScan) -> Option<PackScan>
    decreases args.len() - i,
{
    if i < 0 || i >= args.len() {
        Some(st)
    } else {
        match pack_step(args, i, st) {
            None => None,
            Some((next, n)) => if i < n <= args.len() {
                pack_scan(args, n, next)
            } else {
                None
            },
        }
    }
}

/// The options a command line gives `pack`: `None` when it is not a `pack`
/// command, has more than one positional root, or an argument is refused.
/// `--json` wins over `--format`, and `--plain` turns the default markdown
/// into plain text; the root is the positional argument, or `.`.
pub open spec fn pack_request(args: Seq<Seq<char>>) -> Option<PackFields> {
    let start = PackScan {
        fields: pack_defaults(),
        saw_pack: false,
        json: false,
        plain: false,
        positionals: Seq::empty(),
    };
    match pack_scan(args, 0, start) {
        None => None,
        Some(st) => if !st.saw_pack || st.positionals.len() > 1 {
            None
        } else {
            let format = if st.json {
                "json"@
            } else if st.plain && st.fields.format == "markdown"@ {
                "plain"@
            } else {
                st.fields.format
            };
            let root = if st.positionals.len() == 0 {
                "."@
            } else {
                st.positionals[0]
            };
            Some(PackFields { root, format, ..st.fields })
        },
    }
}

/// Whether the argument's text is `word`.
fn is_word(arg: &Vec<char>, word: &str) -> (r: bool)
    ensures
        r == (arg@ == word@),
{
    crate::text::chars_eq(arg, &chars_of(word))
}

/// Whether `arg` is written `name=value`.
fn inline_value(arg: &str, name: &str) -> (r: bool)
    ensures
        r == has_inline_value(arg@, name@),
{
    reveal(has_inline_value);
    flag_value(arg, name).is_some()
}

/// Whether `arg` is the flag `name`, alone or as `name=value`.
fn matches_flag(arg: &str, name: &str) -> (r: bool)
    ensures
        r == flag_match(arg@, name@),
{
    reveal(flag_match);
    flag_value(arg, name).is_some() || is_word(&chars_of(arg), name)
}

/// The value of the flag `name` at argument `i` and the index after it.
fn take_flag(args: &[String], i: usize, name: &str) -> (r: Option<(String, usize)>)
    requires
        i < args.len(),
    ensures
        match r {
            None => flag_arg(views(args@), i as int, name@) is None,
            Some((v, n)) => flag_arg(views(args@), i as int, name@) == Some(v@) && n == flag_next(
                views(args@),
                i as int,
                name@,
            ) && i < n <= args.len(),
        },
{
    reveal(flag_arg);
    reveal(flag_next);
    assert(views(args@)[i as int] == args@[i as int]@);
    match flag_value(args[i].as_str(), name) {
        Some(v) => Some((v, i + 1)),
        None => {
            if i + 1 < args.len() {
                assert(views(args@)[i + 1] == args@[i + 1]@);
                Some((args[i + 1].clone(), i + 2))
            } else {
                None
            }
        },
    }
}

/// `p` with `diff_spec` set to `v`.
fn with_diff_spec(p: PackArgs, v: String) -> (r: PackArgs)
    ensures
        r.view_of() == (PackFields { diff_spec: v@, ..p.view_of() }),
{
    PackArgs { diff_spec: v, ..p }
}

/// `p` with `since` set to `v`.
fn with_since(p: PackArgs, v: String) -> (r: PackArgs)
    ensures
        r.view_of() == (PackFields { since: v@, ..p.view_of() }),
{
    PackArgs { since: v, ..p }
}

/// `p` with `until` set to `v`.
fn with_until(p: PackArgs, v: String) -> (r: PackArgs)
    ensures
        r.view_of() == (PackFields { until: v@, ..p.view_of() }),
{
    PackArgs { until: v, ..p }
}

/// `p` with `out` set to `v`.
fn with_out(p: PackArgs, v: String) -> (r: PackArgs)
    ensures
        r.view_of() == (PackFields { out: v@, ..p.view_of() }),
{
    PackArgs { out: v, ..p }
}

/// `p` with `layout` set to `v`.
fn with_layout(p: PackArgs, v: String) -> (r: PackArgs)
    ensures
        r.view_of() == (PackFields { layout: v@, ..p.view_of() }),
{
    PackArgs { layout: v, ..p }
}

/// `p` with `from_mix` set to `v`.
fn with_from_mix(p: PackArgs, v: String) -> (r: PackArgs)
    ensures
        r.view_of() == (PackFields { from_mix: v@, ..p.view_of() }),
{
    PackArgs { from_mix: v, ..p }
}

/// `p` with `snapshot_id` set to `v`.
fn with_snapshot_id(p: PackArgs, v: String) -> (r: PackArgs)
    ensures
        r.view_of() == (PackFields { snapshot_id: v@, ..p.view_of() }),
{
    PackArgs { snapshot_id: v, ..p }
}

/// `p` with `since_snapshot` set to `v`.
fn with_since_snapshot(p: PackArgs, v: String) -> (r: PackArgs)
    ensures
        r.view_of() == (PackFields { since_snapshot: v@, ..p.view_of() }),
{
    PackArgs { since_snapshot: v, ..p }
}

/// `p` with `from_where` set to `b`.
fn with_from_where(p: PackArgs, b: bool) -> (r: PackArgs)
    ensures
        r.view_of() == (PackFields { from_where: b, ..p.view_of() }),
{
    PackArgs { from_where: b, ..p }
}

/// `p` with `from_stdin` set to `b`.
fn with_from_stdin(p: PackArgs, b: bool) -> (r: PackArgs)
    ensures
        r.view_of() == (PackFields { from_stdin: b, ..p.view_of() }),
{
    PackArgs { from_stdin: b, ..p }
}

/// `p` with `use_mtime` set to `b`.
fn with_use_mtime(p: PackArgs, b: bool) -> (r: PackArgs)
    ensures
        r.view_of() == (PackFields { use_mtime: b, ..p.view_of() }),
{
    PackArgs { use_mtime: b, ..p }
}

/// `p` with `no_contract` set to `b`.
fn with_no_contract(p: PackArgs, b: bool) -> (r: PackArgs)
    ensures
        r.view_of() == (PackFields { no_contract: b, ..p.view_of() }),
{
    PackArgs { no_contract: b, ..p }
}

/// `p` with `explain` set to `b`.
fn with_explain(p: PackArgs, b: bool) -> (r: PackArgs)
    ensures
        r.view_of() == (PackFields { explain: b, ..p.view_of() }),
{
    PackArgs { explain: b, ..p }
}

/// `p` with `changed` set to `b`.
fn with_changed(p: PackArgs, b: bool) -> (r: PackArgs)
    ensures
        r.view_of() == (PackFields { changed: b, ..p.view_of() }),
{
    PackArgs { changed: b, ..p }
}

/// `p` with `api_only` set to `b`.
fn with_api_only(p: PackArgs, b: bool) -> (r: PackArgs)
    ensures
        r.view_of() == (PackFields { api_only: b, ..p.view_of() }),
{
    PackArgs { api_only: b, ..p }
}

/// `p` with `replay_shared` set to `b`.
fn with_replay_shared(p: PackArgs, b: bool) -> (r: PackArgs)
    ensures
        r.view_of() == (PackFields { replay_shared: b, ..p.view_of() }),
{
    PackArgs { replay_shared: b, ..p }
}

/// `p` with `replay_strict` set to `b`.
fn with_replay_strict(p: PackArgs, b: bool) -> (r: PackArgs)
    ensures
        r.view_of() == (PackFields { replay_strict: b, ..p.view_of() }),
{
    PackArgs { replay_strict: b, ..p }
}

/// `p` with `format_changed` set to `b`.
fn with_format_changed(p: PackArgs, b: bool) -> (r: PackArgs)
    ensures
        r.view_of() == (PackFields { format_changed: b, ..p.view_of() }),
{
    PackArgs { format_changed: b, ..p }
}

/// `p` with `budget` set to `n` and marked as given.
fn with_budget(p: PackArgs, n: i64) -> (r: PackArgs)
    ensures
        r.view_of() == (PackFields { budget: n as int, budget_changed: true, ..p.view_of() }),
{
    PackArgs { budget: n, budget_changed: true, ..p }
}

/// The view after the `--why` paths are replaced by `why`.
proof fn lemma_view_why(p: PackArgs, q: PackArgs, why: Seq<Seq<char>>)
    requires
        q == (PackArgs { why_paths: q.why_paths, ..p }),
        views(q.why_paths@) == why,
    ensures
        q.view_of() == (PackFields { why_paths: why, ..p.view_of() }),
{
}

/// `p` with `v` added to the `--why` paths.
fn with_why_path(p: PackArgs, v: String) -> (r: PackArgs)
    ensures
        r.view_of() == (PackFields { why_paths: p.view_of().why_paths.push(v@), ..p.view_of() }),
{
    let ghost old_p = p;
    let ghost before = views(p.why_paths@);
    let ghost text = v@;
    let mut why = p.why_paths;
    why.push(v);
    assert(views(why@) =~= before.push(text));
    let r = PackArgs { why_paths: why, ..p };
    proof {
        lemma_view_why(old_p, r, before.push(text));
    }
    r
}

/// `p` with `format` set to `v` and marked as given.
fn with_format_marked(p: PackArgs, v: String) -> (r: PackArgs)
    ensures
        r.view_of() == (PackFields { format: v@, format_changed: true, ..p.view_of() }),
{
    PackArgs { format: v, format_changed: true, ..p }
}

/// `p` with `goal` set to `v` and marked as given.
fn with_goal_marked(p: PackArgs, v: String) -> (r: PackArgs)
    ensures
        r.view_of() == (PackFields { goal: v@, goal_changed: true, ..p.view_of() }),
{
    PackArgs { goal: v, goal_changed: true, ..p }
}

/// `p` with `frontmatter` set to `v` and marked as given.
fn with_frontmatter_marked(p: PackArgs, v: String) -> (r: PackArgs)
    ensures
        r.view_of() == (PackFields { frontmatter: v@, frontmatter_changed: true, ..p.view_of() }),
{
    PackArgs { frontmatter: v, frontmatter_changed: true, ..p }
}

/// `p` with `preset` set to `v` and marked as given.
fn with_preset_marked(p: PackArgs, v: String) -> (r: PackArgs)
    ensures
        r.view_of() == (PackFields { preset: v@, preset_changed: true, ..p.view_of() }),
{
    PackArgs { preset: v, preset_changed: true, ..p }
}

/// `p` with `no_warnings` on and marked as given.
fn with_no_warnings_marked(p: PackArgs) -> (r: PackArgs)
    ensures
        r.view_of() == (PackFields { no_warnings: true, no_warnings_changed: true, ..p.view_of() }),
{
    PackArgs { no_warnings: true, no_warnings_changed: true, ..p }
}

/// `p` with `no_paths` on and marked as given.
fn with_no_paths_marked(p: PackArgs) -> (r: PackArgs)
    ensures
        r.view_of() == (PackFields { no_paths: true, no_paths_changed: true, ..p.view_of() }),
{
    PackArgs { no_paths: true, no_paths_changed: true, ..p }
}

/// `p` with `no_metadata` on and marked as given.
fn with_no_metadata_marked(p: PackArgs) -> (r: PackArgs)
    ensures
        r.view_of() == (PackFields { no_metadata: true, no_metadata_changed: true, ..p.view_of() }),
{
    PackArgs { no_metadata: true, no_metadata_changed: true, ..p }
}

/// `f` with `pack` seen.
fn with_saw_pack(f: ScanFlags) -> (r: ScanFlags)
    ensures
        r.saw_pack && r.json == f.json && r.plain == f.plain && r.positionals == f.positionals,
{
    ScanFlags { saw_pack: true, ..f }
}

/// `f` with `--json` given.
fn with_json(f: ScanFlags) -> (r: ScanFlags)
    ensures
        r.json && r.saw_pack == f.saw_pack && r.plain == f.plain && r.positionals == f.positionals,
{
    ScanFlags { json: true, ..f }
}

/// `f` with `--plain` given.
fn with_plain(f: ScanFlags) -> (r: ScanFlags)
    ensures
        r.plain && r.saw_pack == f.saw_pack && r.json == f.json && r.positionals == f.positionals,
{
    ScanFlags { plain: true, ..f }
}

/// `f` with the positional `v` added.
fn with_positional(f: ScanFlags, v: String) -> (r: ScanFlags)
    ensures
        r.saw_pack == f.saw_pack && r.json == f.json && r.plain == f.plain && views(r.positionals@)
            == views(f.positionals@).push(v@),
{
    let mut ps = f.positionals;
    let ghost before = views(ps@);
    let ghost text = v@;
    ps.push(v);
    assert(views(ps@) =~= before.push(text));
    ScanFlags { positionals: ps, ..f }
}

/// Scan states that agree field by field are equal.
proof fn lemma_same_scan(s: PackScan, p: PackArgs, f: ScanFlags)
    requires
        same_scan(s, p, f),
    ensures
        s == scan_view(p, f),
{
}

/// Reads argument `i` if it is one of the flags of [`pack_step_1`].
fn pack_step_1_exec(args: &[String], i: usize, p: PackArgs, f: ScanFlags) -> (r: (PackArgs, ScanFlags, Option<Option<usize>>))
    requires
        i < args.len(),
    ensures
        match pack_step_1(views(args@), i as int, scan_view(p, f)) {
            None => r.2 is None && r.0 == p && r.1 == f,
            Some(None) => r.2 == Some(None::<usize>),
            Some(Some((s2, n))) => r.2 matches Some(Some(k)) && k == n && i < k <= args.len()
                && same_scan(s2, r.0, r.1),
        },
{
    reveal(pack_step_1);
    let mut p = p;
    let mut f = f;
    let arg = &args[i];
    let a = chars_of(arg.as_str());
    assert(a@ == views(args@)[i as int]);
    if is_word(&a, "--json") {
        f = with_json(f);
        p = with_format_changed(p, true);
        return (p, f, Some(Some(i + 1)));
    } else if is_word(&a, "--plain") {
        f = with_plain(f);
        p = with_format_changed(p, true);
        return (p, f, Some(Some(i + 1)));
    } else if is_word(&a, "pack") {
        if f.saw_pack {
            return (p, f, Some(None));
        }
        f = with_saw_pack(f);
        return (p, f, Some(Some(i + 1)));
    } else if is_word(&a, "--from-where") {
        p = with_from_where(p, true);
        return (p, f, Some(Some(i + 1)));
    } else {
        (p, f, None)
    }
}

/// Reads argument `i` if it is one of the flags of [`pack_step_2`].
fn pack_step_2_exec(args: &[String], i: usize, p: PackArgs, f: ScanFlags) -> (r: (PackArgs, ScanFlags, Option<Option<usize>>))
    requires
        i < args.len(),
    ensures
        match pack_step_2(views(args@), i as int, scan_view(p, f)) {
            None => r.2 is None && r.0 == p && r.1 == f,
            Some(None) => r.2 == Some(None::<usize>),
            Some(Some((s2, n))) => r.2 matches Some(Some(k)) && k == n && i < k <= args.len()
                && same_scan(s2, r.0, r.1),
        },
{
    reveal(pack_step_2);
    let mut p = p;
    let mut f = f;
    let arg = &args[i];
    let a = chars_of(arg.as_str());
    assert(a@ == views(args@)[i as int]);
    if is_word(&a, "--from-stdin") {
        p = with_from_stdin(p, true);
        return (p, f, Some(Some(i + 1)));
    } else if matches_flag(arg.as_str(), "--diff") {
        match take_flag(args, i, "--diff") {
            None => return (p, f, Some(None)),
            Some((v, n)) => {
                p = with_diff_spec(p, v);
                return (p, f, Some(Some(n)));
            },
        }
    } else if matches_flag(arg.as_str(), "--since") {
        match take_flag(args, i, "--since") {
            None => return (p, f, Some(None)),
            Some((v, n)) => {
                p = with_since(p, v);
                return (p, f, Some(Some(n)));
            },
        }
    } else if matches_flag(arg.as_str(), "--until") {
        match take_flag(args, i, "--until") {
            None => return (p, f, Some(None)),
            Some((v, n)) => {
                p = with_until(p, v);
                return (p, f, Some(Some(n)));
            },
        }
    } else {
        (p, f, None)
    }
}

/// Reads argument `i` if it is one of the flags of [`pack_step_3`].
fn pack_step_3_exec(args: &[String], i: usize, p: PackArgs, f: ScanFlags) -> (r: (PackArgs, ScanFlags, Option<Option<usize>>))
    requires
        i < args.len(),
    ensures
        match pack_step_3(views(args@), i as int, scan_view(p, f)) {
            None => r.2 is None && r.0 == p && r.1 == f,
            Some(None) => r.2 == Some(None::<usize>),
            Some(Some((s2, n))) => r.2 matches Some(Some(k)) && k == n && i < k <= args.len()
                && same_scan(s2, r.0, r.1),
        },
{
    reveal(pack_step_3);
    let mut p = p;
    let mut f = f;
    let arg = &args[i];
    let a = chars_of(arg.as_str());
    assert(a@ == views(args@)[i as int]);
    if is_word(&a, "--use-mtime") {
        p = with_use_mtime(p, true);
        return (p, f, Some(Some(i + 1)));
    } else if matches_flag(arg.as_str(), "--budget") {
        match take_flag(args, i, "--budget") {
            None => return (p, f, Some(None)),
            Some((v, n)) => match parse_i64_exec(&chars_of(v.as_str())) {
                None => return (p, f, Some(None)),
                Some(b) => {
                    p = with_budget(p, b);
                    return (p, f, Some(Some(n)));
                },
            },
        }
    } else if matches_flag(arg.as_str(), "--format") {
        match take_flag(args, i, "--format") {
            None => return (p, f, Some(None)),
            Some((v, n)) => {
                p = with_format_marked(p, v);
                return (p, f, Some(Some(n)));
            },
        }
    } else if matches_flag(arg.as_str(), "--out") {
        match take_flag(args, i, "--out") {
            None => return (p, f, Some(None)),
            Some((v, n)) => {
                p = with_out(p, v);
                return (p, f, Some(Some(n)));
            },
        }
    } else {
        (p, f, None)
    }
}

/// Reads argument `i` if it is one of the flags of [`pack_step_4`].
fn pack_step_4_exec(args: &[String], i: usize, p: PackArgs, f: ScanFlags) -> (r: (PackArgs, ScanFlags, Option<Option<usize>>))
    requires
        i < args.len(),
    ensures
        match pack_step_4(views(args@), i as int, scan_view(p, f)) {
            None => r.2 is None && r.0 == p && r.1 == f,
            Some(None) => r.2 == Some(None::<usize>),
            Some(Some((s2, n))) => r.2 matches Some(Some(k)) && k == n && i < k <= args.len()
                && same_scan(s2, r.0, r.1),
        },
{
    reveal(pack_step_4);
    let mut p = p;
    let mut f = f;
    let arg = &args[i];
    let a = chars_of(arg.as_str());
    assert(a@ == views(args@)[i as int]);
    if matches_flag(arg.as_str(), "--goal") {
        match take_flag(args, i, "--goal") {
            None => return (p, f, Some(None)),
            Some((v, n)) => {
                p = with_goal_marked(p, v);
                return (p, f, Some(Some(n)));
            },
        }
    } else if is_word(&a, "--no-contract") || is_word(&a, "--contract=false") || is_word(&a, "--contract=0") {
        p = with_no_contract(p, true);
        return (p, f, Some(Some(i + 1)));
    } else if is_word(&a, "--contract") || is_word(&a, "--contract=true") || is_word(&a, "--contract=1") {
        p = with_no_contract(p, false);
        return (p, f, Some(Some(i + 1)));
    } else if is_word(&a, "--no-warnings") {
        p = with_no_warnings_marked(p);
        return (p, f, Some(Some(i + 1)));
    } else {
        (p, f, None)
    }
}

/// Reads argument `i` if it is one of the flags of [`pack_step_5`].
fn pack_step_5_exec(args: &[String], i: usize, p: PackArgs, f: ScanFlags) -> (r: (PackArgs, ScanFlags, Option<Option<usize>>))
    requires
        i < args.len(),
    ensures
        match pack_step_5(views(args@), i as int, scan_view(p, f)) {
            None => r.2 is None && r.0 == p && r.1 == f,
            Some(None) => r.2 == Some(None::<usize>),
            Some(Some((s2, n))) => r.2 matches Some(Some(k)) && k == n && i < k <= args.len()
                && same_scan(s2, r.0, r.1),
        },
{
    reveal(pack_step_5);
    let mut p = p;
    let mut f = f;
    let arg = &args[i];
    let a = chars_of(arg.as_str());
    assert(a@ == views(args@)[i as int]);
    if is_word(&a, "--no-paths") {
        p = with_no_paths_marked(p);
        return (p, f, Some(Some(i + 1)));
    } else if is_word(&a, "--no-metadata") {
        p = with_no_metadata_marked(p);
        return (p, f, Some(Some(i + 1)));
    } else if matches_flag(arg.as_str(), "--frontmatter") {
        match take_flag(args, i, "--frontmatter") {
            None => return (p, f, Some(None)),
            Some((v, n)) => {
                p = with_frontmatter_marked(p, v);
                return (p, f, Some(Some(n)));
            },
        }
    } else if is_word(&a, "--explain") {
        p = with_explain(p, true);
        return (p, f, Some(Some(i + 1)));
    } else {
        (p, f, None)
    }
}

/// Reads argument `i` if it is one of the flags of [`pack_step_6`].
fn pack_step_6_exec(args: &[String], i: usize, p: PackArgs, f: ScanFlags) -> (r: (PackArgs, ScanFlags, Option<Option<usize>>))
    requires
        i < args.len(),
    ensures
        match pack_step_6(views(args@), i as int, scan_view(p, f)) {
            None => r.2 is None && r.0 == p && r.1 == f,
            Some(None) => r.2 == Some(None::<usize>),
            Some(Some((s2, n))) => r.2 matches Some(Some(k)) && k == n && i < k <= args.len()
                && same_scan(s2, r.0, r.1),
        },
{
    reveal(pack_step_6);
    let mut p = p;
    let mut f = f;
    let arg = &args[i];
    let a = chars_of(arg.as_str());
    assert(a@ == views(args@)[i as int]);
    if matches_flag(arg.as_str(), "--preset") {
        match take_flag(args, i, "--preset") {
            None => return (p, f, Some(None)),
            Some((v, n)) => {
                p = with_preset_marked(p, v);
                return (p, f, Some(Some(n)));
            },
        }
    } else if is_word(&a, "--changed") {
        p = with_changed(p, true);
        return (p, f, Some(Some(i + 1)));
    } else if is_word(&a, "--api-only") {
        p = with_api_only(p, true);
        return (p, f, Some(Some(i + 1)));
    } else if matches_flag(arg.as_str(), "--layout") {
        match take_flag(args, i, "--layout") {
            None => return (p, f, Some(None)),
            Some((v, n)) => {
                p = with_layout(p, v);
                return (p, f, Some(Some(n)));
            },
        }
    } else {
        (p, f, None)
    }
}

/// Reads argument `i` if it is one of the flags of [`pack_step_7`].
fn pack_step_7_exec(args: &[String], i: usize, p: PackArgs, f: ScanFlags) -> (r: (PackArgs, ScanFlags, Option<Option<usize>>))
    requires
        i < args.len(),
    ensures
        match pack_step_7(views(args@), i as int, scan_view(p, f)) {
            None => r.2 is None && r.0 == p && r.1 == f,
            Some(None) => r.2 == Some(None::<usize>),
            Some(Some((s2, n))) => r.2 matches Some(Some(k)) && k == n && i < k <= args.len()
                && same_scan(s2, r.0, r.1),
        },
{
    reveal(pack_step_7);
    let mut p = p;
    let mut f = f;
    let arg = &args[i];
    let a = chars_of(arg.as_str());
    assert(a@ == views(args@)[i as int]);
    if matches_flag(arg.as_str(), "--from-mix") {
        match take_flag(args, i, "--from-mix") {
            None => return (p, f, Some(None)),
            Some((v, n)) => {
                p = with_from_mix(p, v);
                return (p, f, Some(Some(n)));
            },
        }
    } else if matches_flag(arg.as_str(), "--why") {
        match take_flag(args, i, "--why") {
            None => return (p, f, Some(None)),
            Some((v, n)) => {
                p = with_why_path(p, v);
                return (p, f, Some(Some(n)));
            },
        }
    } else if matches_flag(arg.as_str(), "--snapshot") {
        match take_flag(args, i, "--snapshot") {
            None => return (p, f, Some(None)),
            Some((v, n)) => {
                p = with_snapshot_id(p, v);
                return (p, f, Some(Some(n)));
            },
        }
    } else if matches_flag(arg.as_str(), "--since-snapshot") {
        match take_flag(args, i, "--since-snapshot") {
            None => return (p, f, Some(None)),
            Some((v, n)) => {
                p = with_since_snapshot(p, v);
                return (p, f, Some(Some(n)));
            },
        }
    } else {
        (p, f, None)
    }
}

/// Reads argument `i` if it is one of the flags of [`pack_step_8`].
fn pack_step_8_exec(args: &[String], i: usize, p: PackArgs, f: ScanFlags) -> (r: (PackArgs, ScanFlags, Option<usize>))
    requires
        i < args.len(),
    ensures
        match pack_step_8(views(args@), i as int, scan_view(p, f)) {
            None => r.2 is None,
            Some((s2, n)) => r.2 matches Some(k) && k == n && i < k <= args.len() && same_scan(
                s2,
                r.0,
                r.1,
            ),
        },
{
    reveal(pack_step_8);
    let mut p = p;
    let mut f = f;
    let arg = &args[i];
    let a = chars_of(arg.as_str());
    assert(a@ == views(args@)[i as int]);
    if is_word(&a, "--shared") {
        p = with_replay_shared(p, true);
        return (p, f, Some(i + 1));
    } else if is_word(&a, "--strict") {
        p = with_replay_strict(p, true);
        return (p, f, Some(i + 1));
    } else if inline_value(arg.as_str(), "--pack-engine") || inline_value(arg.as_str(), "--scan-engine") {
        return (p, f, Some(i + 1));
    } else if is_word(&a, "--pack-engine") || is_word(&a, "--scan-engine") {
        if i + 1 >= args.len() {
            return (p, f, None);
        }
        return (p, f, Some(i + 2));
    } else if a.len() > 0 && a[0] == '-' {
        return (p, f, None);
    } else if f.saw_pack {
        f = with_positional(f, arg.clone());
        return (p, f, Some(i + 1));
    } else {
        return (p, f, None);
    }
}

/// The options before any argument (see [`pack_defaults`]).
fn pack_args_default() -> (r: PackArgs)
    ensures
        r.view_of() == pack_defaults(),
{
    let r = PackArgs {
    root: String::new(),
    from_where: false,
    from_stdin: false,
    diff_spec: String::new(),
    since: String::new(),
    until: String::new(),
    use_mtime: false,
    budget: 50000,
    format: "markdown".to_owned(),
    out: String::new(),
    goal: String::new(),
    no_contract: false,
    no_warnings: false,
    no_paths: false,
    no_metadata: false,
    frontmatter: String::new(),
    plain_file_contents: false,
    explain: false,
    preset: String::new(),
    changed: false,
    api_only: false,
    layout: "sequential".to_owned(),
    from_mix: String::new(),
    why_paths: Vec::new(),
    snapshot_id: String::new(),
    since_snapshot: String::new(),
    replay_shared: false,
    replay_strict: false,
    format_changed: false,
    goal_changed: false,
    budget_changed: false,
    preset_changed: false,
    no_warnings_changed: false,
    no_paths_changed: false,
    no_metadata_changed: false,
    frontmatter_changed: false,
};
    assert(views(r.why_paths@) =~= Seq::<Seq<char>>::empty());
    r
}

/// The format a pack is written in: `json` for `--json`, `plain` for
/// `--plain` over the default markdown, else the `--format` value.
fn final_format(json: bool, plain: bool, format: &String) -> (r: String)
    ensures
        r@ == (if json {
            "json"@
        } else if plain && format@ == "markdown"@ {
            "plain"@
        } else {
            format@
        }),
{
    if json {
        "json".to_owned()
    } else if plain && is_word(&chars_of(format.as_str()), "markdown") {
        "plain".to_owned()
    } else {
        format.clone()
    }
}

/// `p` with its root and format set.
fn with_root_format(p: PackArgs, root: String, format: String) -> (r: PackArgs)
    ensures
        r.view_of() == (PackFields { root: root@, format: format@, ..p.view_of() }),
{
    PackArgs { root, format, ..p }
}

/// Reads the command line of `ctx pack` (see [`pack_request`]).
pub fn parse_pack_args(args: &[String]) -> (r: Option<PackArgs>)
    ensures
        match r {
            Some(p) => pack_request(views(args@)) == Some(p.view_of()),
            None => pack_request(views(args@)) is None,
        },
{
    let ghost all = views(args@);
    let p = pack_args_default();
    let mut p = p;
    let mut f = ScanFlags { saw_pack: false, json: false, plain: false, positionals: Vec::new() };
    assert(views(f.positionals@) =~= Seq::<Seq<char>>::empty());
    let mut i: usize = 0;
    while i < args.len()
        invariant
            all == views(args@),
            i <= args.len(),
            pack_scan(
                all,
                0,
                PackScan {
                    fields: pack_defaults(),
                    saw_pack: false,
                    json: false,
                    plain: false,
                    positionals: Seq::empty(),
                },
            ) == pack_scan(all, i as int, scan_view(p, f)),
        decreases args.len() - i,
    {
        let ghost before = scan_view(p, f);
        let (p1, f1, r1) = pack_step_1_exec(args, i, p, f);
        match r1 {
            Some(None) => return None,
            Some(Some(n)) => {
                proof {
                    lemma_same_scan(pack_step_1(all, i as int, before).unwrap().unwrap().0, p1, f1);
                }
                p = p1;
                f = f1;
                i = n;
            },
            None => {
                let (p2, f2, r2) = pack_step_2_exec(args, i, p1, f1);
                match r2 {
                    Some(None) => return None,
                    Some(Some(n)) => {
                        proof {
                            lemma_same_scan(pack_step_2(all, i as int, before).unwrap().unwrap().0, p2, f2);
                        }
                        p = p2;
                        f = f2;
                        i = n;
                    },
                    None => {
                        let (p3, f3, r3) = pack_step_3_exec(args, i, p2, f2);
                        match r3 {
                            Some(None) => return None,
                            Some(Some(n)) => {
                                proof {
                                    lemma_same_scan(pack_step_3(all, i as int, before).unwrap().unwrap().0, p3, f3);
                                }
                                p = p3;
                                f = f3;
                                i = n;
                            },
                            None => {
                                let (p4, f4, r4) = pack_step_4_exec(args, i, p3, f3);
                                match r4 {
                                    Some(None) => return None,
                                    Some(Some(n)) => {
                                        proof {
                                            lemma_same_scan(pack_step_4(all, i as int, before).unwrap().unwrap().0, p4, f4);
                                        }
                                        p = p4;
                                        f = f4;
                                        i = n;
                                    },
                                    None => {
                                        let (p5, f5, r5) = pack_step_5_exec(args, i, p4, f4);
                                        match r5 {
                                            Some(None) => return None,
                                            Some(Some(n)) => {
                                                proof {
                                                    lemma_same_scan(pack_step_5(all, i as int, before).unwrap().unwrap().0, p5, f5);
                                                }
                                                p = p5;
                                                f = f5;
                                                i = n;
                                            },
                                            None => {
                                                let (p6, f6, r6) = pack_step_6_exec(args, i, p5, f5);
                                                match r6 {
                                                    Some(None) => return None,
                                                    Some(Some(n)) => {
                                                        proof {
                                                            lemma_same_scan(pack_step_6(all, i as int, before).unwrap().unwrap().0, p6, f6);
                                                        }
                                                        p = p6;
                                                        f = f6;
                                                        i = n;
                                                    },
                                                    None => {
                                                        let (p7, f7, r7) = pack_step_7_exec(args, i, p6, f6);
                                                        match r7 {
                                                            Some(None) => return None,
                                                            Some(Some(n)) => {
                                                                proof {
                                                                    lemma_same_scan(pack_step_7(all, i as int, before).unwrap().unwrap().0, p7, f7);
                                                                }
                                                                p = p7;
                                                                f = f7;
                                                                i = n;
                                                            },
                                                            None => {
                                                                let (p8, f8, r8) = pack_step_8_exec(args, i, p7, f7);
                                                                match r8 {
                                                                    None => return None,
                                                                    Some(n) => {
                                                                        proof {
                                                                            lemma_same_scan(pack_step_8(all, i as int, before).unwrap().0, p8, f8);
                                                                        }
                                                                        p = p8;
                                                                        f = f8;
                                                                        i = n;
                                                                    },
                                                                }
                                                            },
                                                        }
                                                    },
                                                }
                                            },
                                        }
                                    },
                                }
                            },
                        }
                    },
                }
            },
        }
    }
    if !f.saw_pack || f.positionals.len() > 1 {
        return None;
    }
    let format = final_format(f.json, f.plain, &p.format);
    let root = if f.positionals.len() == 0 {
        ".".to_owned()
    } else {
        f.positionals[0].clone()
    };
    proof {
        if f.positionals.len() > 0 {
            assert(views(f.positionals@)[0] == f.positionals@[0]@);
        }
    }
    Some(with_root_format(p, root, format))
}

// ---------------------------------------------------------------------------
// Presets and mix recipes
// ---------------------------------------------------------------------------

/// What a preset changes: each option it names, if any.
#[derive(Debug, Clone, PartialEq, Eq, Default)]
pub struct PresetPatch {
    pub format: Option<String>,
    pub no_warnings: Option<bool>,
    pub no_paths: Option<bool>,
    pub no_metadata: Option<bool>,
    pub frontmatter: Option<String>,
    pub plain_file_contents: Option<bool>,
    pub explain: Option<bool>,
}

/// A preset's text value, used unless the option was given on the command
/// line.
pub open spec fn preset_text(patch: Option<String>, given: bool, current: Seq<char>) -> Seq<char> {
    match patch {
        Some(v) => if given {
            current
        } else {
            v@
        },
        None => current,
    }
}

/// A preset's switch, used unless the switch was given on the command line.
pub open spec fn preset_flag(patch: Option<bool>, given: bool, current: bool) -> bool {
    match patch {
        Some(v) => if given {
            current
        } else {
            v
        },
        None => current,
    }
}

/// The options after a preset: the format, the warnings, paths and
/// metadata switches and the front matter where the command line did not
/// set them; the plain-contents and explain switches always.
pub open spec fn with_preset(p: PackFields, patch: PresetPatch) -> PackFields {
    PackFields {
        format: preset_text(patch.format, p.format_changed, p.format),
        no_warnings: preset_flag(patch.no_warnings, p.no_warnings_changed, p.no_warnings),
        no_paths: preset_flag(patch.no_paths, p.no_paths_changed, p.no_paths),
        no_metadata: preset_flag(patch.no_metadata, p.no_metadata_changed, p.no_metadata),
        frontmatter: preset_text(patch.frontmatter, p.frontmatter_changed, p.frontmatter),
        plain_file_contents: preset_flag(patch.plain_file_contents, false, p.plain_file_contents),
        explain: preset_flag(patch.explain, false, p.explain),
        ..p
    }
}

/// The text a preset leaves (see [`preset_text`]).
fn pick_text(patch: Option<String>, given: bool, current: String) -> (r: String)
    ensures
        r@ == preset_text(patch, given, current@),
{
    match patch {
        Some(v) => if given {
            current
        } else {
            v
        },
        None => current,
    }
}

/// The switch a preset leaves (see [`preset_flag`]).
fn pick_flag(patch: Option<bool>, given: bool, current: bool) -> (r: bool)
    ensures
        r == preset_flag(patch, given, current),
{
    match patch {
        Some(v) => if given {
            current
        } else {
            v
        },
        None => current,
    }
}

/// `p` with the given values of the preset-controlled options.
fn with_preset_values(
    p: PackArgs,
    format: String,
    no_warnings: bool,
    no_paths: bool,
    no_metadata: bool,
    frontmatter: String,
    plain_file_contents: bool,
    explain: bool,
) -> (r: PackArgs)
    ensures
        r.view_of() == (PackFields {
            format: format@,
            no_warnings,
            no_paths,
            no_metadata,
            frontmatter: frontmatter@,
            plain_file_contents,
            explain,
            ..p.view_of()
        }),
{
    PackArgs {
        format,
        no_warnings,
        no_paths,
        no_metadata,
        frontmatter,
        plain_file_contents,
        explain,
        ..p
    }
}

/// Applies a preset's patch to the options (see [`with_preset`]).
pub fn apply_pack_preset(p: PackArgs, patch: PresetPatch) -> (r: PackArgs)
    ensures
        r.view_of() == with_preset(p.view_of(), patch),
{
    let format = pick_text(patch.format, p.format_changed, p.format.clone());
    let no_warnings = pick_flag(patch.no_warnings, p.no_warnings_changed, p.no_warnings);
    let no_paths = pick_flag(patch.no_paths, p.no_paths_changed, p.no_paths);
    let no_metadata = pick_flag(patch.no_metadata, p.no_metadata_changed, p.no_metadata);
    let frontmatter = pick_text(patch.frontmatter, p.frontmatter_changed, p.frontmatter.clone());
    let plain_file_contents = pick_flag(patch.plain_file_contents, false, p.plain_file_contents);
    let explain = pick_flag(patch.explain, false, p.explain);
    with_preset_values(
        p,
        format,
        no_warnings,
        no_paths,
        no_metadata,
        frontmatter,
        plain_file_contents,
        explain,
    )
}

/// A character a mix recipe id may hold: an ASCII letter or digit, `-`,
/// `_` or `.`.
pub open spec fn mix_id_char(c: char) -> bool {
    ('a' <= c && c <= 'z') || ('A' <= c && c <= 'Z') || ('0' <= c && c <= '9') || c == '-' || c
        == '_' || c == '.'
}

/// Why a mix recipe id is refused, if it is: it is empty, starts with `.`,
/// or holds a character that [`mix_id_char`] refuses (the first such).
pub open spec fn mix_id_error(id: Seq<char>) -> Option<Seq<char>> {
    let prefix = "pack: --from-mix: mix: invalid recipe id: "@;
    if id.len() == 0 {
        Some(prefix + "empty id"@)
    } else if id[0] == '.' {
        Some(prefix + debug_text(id))
    } else if exists|k: int| 0 <= k < id.len() && !mix_id_char(#[trigger] id[k]) {
        let k = choose|k: int|
            0 <= k < id.len() && !mix_id_char(id[k]) && forall|j: int|
                0 <= j < k ==> mix_id_char(#[trigger] id[j]);
        Some(prefix + debug_text(id) + " contains disallowed character "@ + debug_char_text(id[k]))
    } else {
        None
    }
}

/// Checks a mix recipe id (see [`mix_id_error`]).
pub fn validate_mix_id(id: &str) -> (r: Result<(), String>)
    ensures
        match r {
            Ok(()) => mix_id_error(id@) is None,
            Err(e) => mix_id_error(id@) == Some(e@),
        },
{
    let v = chars_of(id);
    if v.len() == 0 {
        let mut e = chars_of("pack: --from-mix: mix: invalid recipe id: ");
        append_str(&mut e, "empty id");
        return Err(string_of(&e));
    }
    if v[0] == '.' {
        let mut e = chars_of("pack: --from-mix: mix: invalid recipe id: ");
        append_str(&mut e, debug_quoted(id).as_str());
        return Err(string_of(&e));
    }
    let mut k: usize = 0;
    while k < v.len()
        invariant
            k <= v.len(),
            v@ == id@,
            v@.len() > 0,
            v@[0] != '.',
            forall|j: int| 0 <= j < k ==> mix_id_char(#[trigger] v@[j]),
        decreases v.len() - k,
    {
        let c = v[k];
        let ok = ('a' <= c && c <= 'z') || ('A' <= c && c <= 'Z') || ('0' <= c && c <= '9') || c
            == '-' || c == '_' || c == '.';
        if !ok {
            proof {
                let chosen = choose|m: int|
                    0 <= m < id@.len() && !mix_id_char(id@[m]) && forall|j: int|
                        0 <= j < m ==> mix_id_char(#[trigger] id@[j]);
                assert(0 <= k < id@.len() && !mix_id_char(id@[k as int]) && forall|j: int|
                    0 <= j < k ==> mix_id_char(#[trigger] id@[j]));
                if chosen < k {
                    assert(mix_id_char(id@[chosen]));
                }
                if chosen > k {
                    assert(mix_id_char(id@[k as int]));
                }
                assert(chosen == k);
            }
            let mut e = chars_of("pack: --from-mix: mix: invalid recipe id: ");
            append_str(&mut e, debug_quoted(id).as_str());
            append_str(&mut e, " contains disallowed character ");
            append_str(&mut e, debug_char(c).as_str());
            return Err(string_of(&e));
        }
        k = k + 1;
    }
    Ok(())
}

} // verus!
