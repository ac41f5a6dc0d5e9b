//! Helpers of `ctx log`: argument checks, path filters, and the labels and
//! line classification of its terminal viewer.
use vstd::prelude::*;

use crate::text::{
    append_str, chars_eq, chars_of, chars_of_string, contains, contains_exec, decimal,
    decimal_chars, ends_with, ends_with_exec, is_ascii_ws, signed_decimal, push_signed,
    starts_with, starts_with_exec, string_of, views,
};

verus! {

/// The header line of the diff column view.
pub open spec fn diff_column_header() -> Seq<char> {
    "   old  new | code"@
}

/// The kind of a line in the commit detail panel.
#[derive(Debug, Clone, Copy, PartialEq, Eq, Structural)]
pub enum DetailLineKind {
    Blank,
    DiffColumnHeader,
    Add,
    Delete,
    Context,
    FileHeader,
    FileStatAdd,
    FileStatDelete,
    FileStatModify,
    Warning,
    Notice,
    Error,
    Hint,
    Commit,
    Meta,
    Subject,
    Summary,
    Other,
}

/// How a detail line is classified, by its first matching shape.
pub open spec fn classify(line: Seq<char>) -> DetailLineKind {
    let bar = " | "@;
    if line.len() == 0 {
        DetailLineKind::Blank
    } else if line == diff_column_header() {
        DetailLineKind::DiffColumnHeader
    } else if starts_with(line, "+"@) && contains(line, bar) {
        DetailLineKind::Add
    } else if starts_with(line, "-"@) && contains(line, bar) {
        DetailLineKind::Delete
    } else if starts_with(line, "  "@) && contains(line, bar) {
        DetailLineKind::Context
    } else if starts_with(line, "diff -- "@) {
        DetailLineKind::FileHeader
    } else if starts_with(line, " A"@) {
        DetailLineKind::FileStatAdd
    } else if starts_with(line, " D"@) {
        DetailLineKind::FileStatDelete
    } else if starts_with(line, " M"@) {
        DetailLineKind::FileStatModify
    } else if contains(line, "[diff truncated]"@) {
        DetailLineKind::Warning
    } else if contains(line, "[binary]"@) || contains(line, "[no text changes]"@) {
        DetailLineKind::Notice
    } else if contains(line, "diff unavailable"@) {
        DetailLineKind::Error
    } else if line == "diff body not loaded for faster navigation"@ || line
        == "press Enter or d to load the selected commit diff"@ {
        DetailLineKind::Hint
    } else if starts_with(line, "commit "@) {
        DetailLineKind::Commit
    } else if starts_with(line, "Author:"@) || starts_with(line, "Date:"@) {
        DetailLineKind::Meta
    } else if starts_with(line, "    "@) {
        DetailLineKind::Subject
    } else if ends_with(line, " file(s) changed"@) {
        DetailLineKind::Summary
    } else {
        DetailLineKind::Other
    }
}

pub fn starts(line: &[char], p: &str) -> (r: bool)
    ensures
        r == starts_with(line@, p@),
{
    starts_with_exec(line, &chars_of(p))
}

pub fn has(line: &[char], p: &str) -> (r: bool)
    ensures
        r == contains(line@, p@),
{
    contains_exec(line, &chars_of(p))
}

pub fn is(line: &[char], p: &str) -> (r: bool)
    ensures
        r == (line@ == p@),
{
    chars_eq(line, &chars_of(p))
}

/// Classifies a line of the commit detail panel (see [`classify`]).
pub fn classify_detail_line(line: &str) -> (r: DetailLineKind)
    ensures
        r == classify(line@),
{
    let l = chars_of(line);
    let bar = " | ";
    if l.len() == 0 {
        DetailLineKind::Blank
    } else if is(&l, "   old  new | code") {
        DetailLineKind::DiffColumnHeader
    } else if starts(&l, "+") && has(&l, bar) {
        DetailLineKind::Add
    } else if starts(&l, "-") && has(&l, bar) {
        DetailLineKind::Delete
    } else if starts(&l, "  ") && has(&l, bar) {
        DetailLineKind::Context
    } else if starts(&l, "diff -- ") {
        DetailLineKind::FileHeader
    } else if starts(&l, " A") {
        DetailLineKind::FileStatAdd
    } else if starts(&l, " D") {
        DetailLineKind::FileStatDelete
    } else if starts(&l, " M") {
        DetailLineKind::FileStatModify
    } else if has(&l, "[diff truncated]") {
        DetailLineKind::Warning
    } else if has(&l, "[binary]") || has(&l, "[no text changes]") {
        DetailLineKind::Notice
    } else if has(&l, "diff unavailable") {
        DetailLineKind::Error
    } else if is(&l, "diff body not loaded for faster navigation") || is(
        &l,
        "press Enter or d to load the selected commit diff",
    ) {
        DetailLineKind::Hint
    } else if starts(&l, "commit ") {
        DetailLineKind::Commit
    } else if starts(&l, "Author:") || starts(&l, "Date:") {
        DetailLineKind::Meta
    } else if starts(&l, "    ") {
        DetailLineKind::Subject
    } else if ends_with_exec(&l, &chars_of(" file(s) changed")) {
        DetailLineKind::Summary
    } else {
        DetailLineKind::Other
    }
}

/// A character a ref name may hold.
pub open spec fn is_ref_char(c: char) -> bool {
    ('a' <= c && c <= 'z') || ('A' <= c && c <= 'Z') || ('0' <= c && c <= '9') || c == '.' || c
        == '_' || c == '/' || c == '@' || c == '-'
}

/// A ref is accepted when it is not empty, does not start with `-` (so git
/// cannot read it as an option), and every character is an ASCII letter or
/// digit or one of `. _ / @ -`.
pub open spec fn valid_ref(r: Seq<char>) -> bool {
    r.len() > 0 && r[0] != '-' && forall|i: int| 0 <= i < r.len() ==> #[trigger] is_ref_char(r[i])
}

/// Whether `ref_name` is an acceptable `--ref` value (see [`valid_ref`]).
pub fn is_valid_ref(ref_name: &str) -> (r: bool)
    ensures
        r == valid_ref(ref_name@),
{
    let v = chars_of(ref_name);
    if v.len() == 0 || v[0] == '-' {
        return false;
    }
    let mut i: usize = 0;
    while i < v.len()
        invariant
            i <= v.len(),
            v@ == ref_name@,
            forall|k: int| 0 <= k < i ==> #[trigger] is_ref_char(v@[k]),
        decreases v.len() - i,
    {
        let c = v[i];
        let ok = ('a' <= c && c <= 'z') || ('A' <= c && c <= 'Z') || ('0' <= c && c <= '9') || c
            == '.' || c == '_' || c == '/' || c == '@' || c == '-';
        if !ok {
            assert(!is_ref_char(v@[i as int]));
            return false;
        }
        i = i + 1;
    }
    true
}

/// Appends `value` unless an equal string is already present.
pub fn push_unique(values: &mut Vec<String>, value: String)
    ensures
        (exists|k: int| 0 <= k < old(values).len() && old(values)@[k]@ == value@)
            ==> final(values)@ == old(values)@,
        !(exists|k: int| 0 <= k < old(values).len() && old(values)@[k]@ == value@)
            ==> final(values)@ == old(values)@.push(value),
{
    let mut i: usize = 0;
    while i < values.len()
        invariant
            i <= values.len(),
            values@ == old(values)@,
            forall|k: int| 0 <= k < i ==> values@[k]@ != value@,
        decreases values.len() - i,
    {
        if values[i] == value {
            return;
        }
        i = i + 1;
    }
    values.push(value);
}

/// `path` is `filter` itself or lies under the directory `filter`.
pub open spec fn matches_filter(path: Seq<char>, filter: Seq<char>) -> bool {
    path == filter || starts_with(path, filter + seq!['/'])
}

/// Whether `path` is `filter` or a path below it (see [`matches_filter`]).
pub fn path_matches_filter(path: &str, filter: &str) -> (r: bool)
    ensures
        r == matches_filter(path@, filter@),
{
    let p = chars_of(path);
    let mut f = chars_of(filter);
    if chars_eq(&p, &f) {
        return true;
    }
    f.push('/');
    assert(f@ =~= filter@ + seq!['/']);
    starts_with_exec(&p, &f)
}

/// `selected + 1` of `total`, the selection clamped to the last entry;
/// `0/0` when there is nothing.
pub open spec fn position_label(selected: int, total: int) -> Seq<char> {
    if total == 0 {
        "0/0"@
    } else {
        let shown = if selected < total - 1 {
            selected
        } else {
            total - 1
        };
        decimal((shown + 1) as nat) + seq!['/'] + decimal(total as nat)
    }
}

/// The `n/total` label of the selected commit.
pub fn commit_position_label(selected: usize, total: usize) -> (r: String)
    ensures
        r@ == position_label(selected as int, total as int),
{
    if total == 0 {
        return "0/0".to_owned();
    }
    let shown = if selected < total - 1 {
        selected
    } else {
        total - 1
    };
    let mut v = decimal_chars((shown + 1) as u64);
    v.push('/');
    let t = decimal_chars(total as u64);
    crate::text::append_chars(&mut v, &t);
    string_of(&v)
}

/// `first-last/total` of the visible window starting at `start`, clamped to
/// the list; `0/0` when the list or the window is empty.
pub open spec fn range_label(start: int, visible: int, total: int) -> Seq<char> {
    if total == 0 || visible == 0 {
        "0/0"@
    } else {
        let first = (if start < total - 1 {
            start
        } else {
            total - 1
        }) + 1;
        let last = if start + visible < total {
            start + visible
        } else {
            total
        };
        decimal(first as nat) + seq!['-'] + decimal(last as nat) + seq!['/'] + decimal(
            total as nat,
        )
    }
}

/// The `first-last/total` label of the visible part of the detail panel.
pub fn visible_range_label(start: usize, visible: usize, total: usize) -> (r: String)
    ensures
        r@ == range_label(start as int, visible as int, total as int),
{
    if total == 0 || visible == 0 {
        return "0/0".to_owned();
    }
    let first = (if start < total - 1 {
        start
    } else {
        total - 1
    }) + 1;
    let last = if start < total && visible < total - start {
        start + visible
    } else {
        total
    };
    let mut v = decimal_chars(first as u64);
    v.push('-');
    crate::text::append_chars(&mut v, &decimal_chars(last as u64));
    v.push('/');
    crate::text::append_chars(&mut v, &decimal_chars(total as u64));
    string_of(&v)
}

/// The first visible line: `start`, but no further than `total - visible`;
/// 0 when the window or the list is empty.
pub open spec fn window_start(start: int, visible: int, total: int) -> int {
    if visible == 0 || total == 0 {
        0
    } else {
        let limit = if total > visible {
            total - visible
        } else {
            0
        };
        if start < limit {
            start
        } else {
            limit
        }
    }
}

/// The scroll offset that keeps the last page full: `start`, but no further
/// than `total - visible`; 0 when the window or the list is empty.
pub fn visible_scroll_start(start: usize, visible: usize, total: usize) -> (r: usize)
    ensures
        r == window_start(start as int, visible as int, total as int),
{
    if visible == 0 || total == 0 {
        0
    } else {
        let limit = if total > visible {
            total - visible
        } else {
            0
        };
        if start < limit {
            start
        } else {
            limit
        }
    }
}

/// The first index to show so that entry `selected` is on the last row of a
/// window of `visible` rows.
pub fn scroll_start(selected: usize, visible: usize) -> (r: usize)
    ensures
        r == (if visible == 0 || selected < visible {
            0
        } else {
            selected + 1 - visible
        }),
{
    if visible == 0 || selected < visible {
        0
    } else {
        selected - visible + 1
    }
}

/// A file-stat line: a space, one of `A`, `M`, `D`, then ASCII whitespace.
pub open spec fn file_stat_line(line: Seq<char>) -> bool {
    line.len() > 2 && line[0] == ' ' && (line[1] == 'A' || line[1] == 'M' || line[1] == 'D')
        && is_ascii_ws(line[2])
}

/// A line the file jump stops at: a `diff -- ` header or a file-stat line.
pub open spec fn file_jump_line(line: Seq<char>) -> bool {
    starts_with(line, "diff -- "@) || file_stat_line(line)
}

/// Whether `line` is a file-stat line (see [`file_stat_line`]).
pub fn is_file_stat_line(line: &str) -> (r: bool)
    ensures
        r == file_stat_line(line@),
{
    let v = chars_of(line);
    v.len() > 2 && v[0] == ' ' && (v[1] == 'A' || v[1] == 'M' || v[1] == 'D') && (v[2] == ' '
        || v[2] == '\t' || v[2] == '\n' || v[2] == '\u{c}' || v[2] == '\r')
}

/// Whether the file jump stops at `line` (see [`file_jump_line`]).
pub fn is_file_jump_line(line: &str) -> (r: bool)
    ensures
        r == file_jump_line(line@),
{
    starts(&chars_of(line), "diff -- ") || is_file_stat_line(line)
}

/// Where a file jump from line `current` lands among `lines`: the next
/// boundary after it (`delta > 0`), the previous one before it
/// (`delta < 0`), or nowhere (`None`) when there is none or `delta` is 0.
pub open spec fn jump_landing(lines: Seq<String>, current: int, delta: int, r: Option<usize>) -> bool {
    &&& (delta == 0 ==> r is None)
    &&& (delta > 0 ==> {
            let start = if current < lines.len() {
                current + 1
            } else {
                lines.len() as int
            };
            &&& r matches Some(i) ==> start <= i < lines.len() && file_jump_line(lines[i as int]@)
                && forall|j: int| start <= j < i ==> !file_jump_line(#[trigger] lines[j]@)
            &&& r is None ==> forall|j: int|
                start <= j < lines.len() ==> !file_jump_line(#[trigger] lines[j]@)
        })
    &&& (delta < 0 ==> {
            let end = if current < lines.len() {
                current
            } else {
                lines.len() as int
            };
            &&& r matches Some(i) ==> 0 <= i < end && file_jump_line(lines[i as int]@) && forall|
                j: int,
            | i < j < end ==> !file_jump_line(#[trigger] lines[j]@)
            &&& r is None ==> forall|j: int| 0 <= j < end ==> !file_jump_line(#[trigger] lines[j]@)
        })
}

/// The next (`delta > 0`) or previous (`delta < 0`) file boundary line from
/// `current`; `None` when there is none or `delta` is 0.
pub fn file_jump_target(lines: &[String], current: usize, delta: isize) -> (r: Option<usize>)
    ensures
        jump_landing(lines@, current as int, delta as int, r),
{
    if delta > 0 {
        let start = if current < lines.len() {
            current + 1
        } else {
            lines.len()
        };
        let mut i = start;
        while i < lines.len()
            invariant
                delta > 0,
                start == (if current < lines.len() { current + 1 } else { lines.len() as int }),
                start <= i <= lines.len(),
                forall|j: int| start <= j < i ==> !file_jump_line(#[trigger] lines@[j]@),
            decreases lines.len() - i,
        {
            if is_file_jump_line(lines[i].as_str()) {
                return Some(i);
            }
            i = i + 1;
        }
        None
    } else if delta < 0 {
        let end = if current < lines.len() {
            current
        } else {
            lines.len()
        };
        let mut i = end;
        while i > 0
            invariant
                delta < 0,
                end == (if current < lines.len() { current as int } else { lines.len() as int }),
                i <= end <= lines.len(),
                forall|j: int| i <= j < end ==> !file_jump_line(#[trigger] lines@[j]@),
            decreases i,
        {
            if is_file_jump_line(lines[i - 1].as_str()) {
                return Some(i - 1);
            }
            i = i - 1;
        }
        None
    } else {
        None
    }
}

/// A diff line number right-aligned in four columns; blank when not
/// positive.
pub open spec fn diff_number_text(n: int) -> Seq<char> {
    if n <= 0 {
        "    "@
    } else {
        Seq::new(
            if decimal(n as nat).len() < 4 {
                (4 - decimal(n as nat).len()) as nat
            } else {
                0
            },
            |i: int| ' ',
        ) + decimal(n as nat)
    }
}

/// Formats a diff line number (see [`diff_number_text`]).
pub fn format_diff_number(number: i32) -> (r: String)
    ensures
        r@ == diff_number_text(number as int),
{
    if number <= 0 {
        return "    ".to_owned();
    }
    let digits = decimal_chars(number as u64);
    let mut v: Vec<char> = Vec::new();
    while v.len() + digits.len() < 4
        invariant
            v.len() <= 4,
            forall|i: int| 0 <= i < v.len() ==> v@[i] == ' ',
            digits@ == decimal(number as nat),
            v.len() + digits.len() <= 4 || v.len() == 0,
        decreases 4 - v.len(),
    {
        v.push(' ');
    }
    let ghost pad = v@;
    crate::text::append_chars(&mut v, &digits);
    assert(pad =~= Seq::new(
        if decimal(number as nat).len() < 4 {
            (4 - decimal(number as nat).len()) as nat
        } else {
            0
        },
        |i: int| ' ',
    ));
    string_of(&v)
}

/// The one-letter status of a changed file: `A` for added, `D` for
/// deleted, `M` otherwise.
pub fn status_letter(status: &str) -> (r: &'static str)
    ensures
        r@ == (if status@ == "added"@ {
            "A"@
        } else if status@ == "deleted"@ {
            "D"@
        } else {
            "M"@
        }),
{
    let s = chars_of(status);
    if is(&s, "added") {
        "A"
    } else if is(&s, "deleted") {
        "D"
    } else {
        "M"
    }
}

/// `@date`, or `@unknown` for a date that is not positive.
pub fn format_commit_date(date: i64) -> (r: String)
    ensures
        r@ == (if date <= 0 {
            "@unknown"@
        } else {
            seq!['@'] + signed_decimal(date as int)
        }),
{
    if date <= 0 {
        return "@unknown".to_owned();
    }
    let mut v: Vec<char> = Vec::new();
    v.push('@');
    push_signed(&mut v, date);
    string_of(&v)
}

/// Which panel of the log viewer has the focus.
#[derive(Debug, Clone, Copy, PartialEq, Eq, Structural)]
pub enum ActivePanel {
    Commits,
    Detail,
}

impl ActivePanel {
    /// The name shown in the footer.
    pub fn label(self) -> (r: &'static str)
        ensures
            r@ == (match self {
                ActivePanel::Commits => "commits"@,
                ActivePanel::Detail => "diff"@,
            }),
    {
        match self {
            ActivePanel::Commits => "commits",
            ActivePanel::Detail => "diff",
        }
    }
}

/// One entry of the commit list.
#[derive(Debug, Clone)]
pub struct LogCommit {
    pub hash: String,
    pub hash_full: String,
    pub author: String,
    pub author_email: String,
    pub subject: String,
    pub date: i64,
    pub parents: Vec<String>,
    pub matched_paths: Vec<String>,
    pub is_worktree: bool,
}

impl LogCommit {
    /// The pseudo-commit that stands for uncommitted changes to
    /// `file_count` files.
    pub fn from_worktree(file_count: usize, matched_paths: Vec<String>) -> (r: LogCommit)
        ensures
            r.hash@ == "worktree"@,
            r.hash_full@ == "worktree"@,
            r.author@ == "working tree"@,
            r.author_email@ == ""@,
            r.subject@ == "uncommitted changes ("@ + decimal(file_count as nat) + " files)"@,
            r.date == 0,
            r.parents@.len() == 0,
            r.matched_paths == matched_paths,
            r.is_worktree,
    {
        let mut subject = chars_of("uncommitted changes (");
        crate::text::append_chars(&mut subject, &decimal_chars(file_count as u64));
        append_str(&mut subject, " files)");
        LogCommit {
            hash: "worktree".to_owned(),
            hash_full: "worktree".to_owned(),
            author: "working tree".to_owned(),
            author_email: "".to_owned(),
            subject: string_of(&subject),
            date: 0,
            parents: Vec::new(),
            matched_paths,
            is_worktree: true,
        }
    }
}

} // verus!
