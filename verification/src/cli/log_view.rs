//! The navigation state of the `ctx log` viewer and the text of its footer,
//! detail title and detail lines.
//!
//! Loading a commit's files or diff is work done outside; a move that
//! selects another commit answers `true`, the sign that the selected
//! commit's summary is to be loaded.
use vstd::prelude::*;

use crate::cli::log::{
    diff_number_text, file_jump_target, jump_landing, format_diff_number, position_label,
    range_label, status_letter, visible_range_label, visible_scroll_start, window_start,
    commit_position_label, is, ActivePanel,
};
use crate::text::{
    append_chars, append_str, chars_of, decimal, decimal_chars, pad_left, push_padded, string_of,
};

verus! {

/// Where the viewer stands: the selected commit, the first shown detail
/// line, the focused panel, whether a diff is being loaded, and the last
/// load error.
#[derive(Debug, Clone, PartialEq, Eq)]
pub struct LogCursor {
    pub selected_commit: usize,
    pub diff_scroll: usize,
    pub active_panel: ActivePanel,
    pub diff_loading: bool,
    pub error: Option<String>,
}

/// `v` clamped to `[lo, hi]` (`lo <= hi`).
pub open spec fn clamp(v: int, lo: int, hi: int) -> int {
    if v < lo {
        lo
    } else if v > hi {
        hi
    } else {
        v
    }
}

/// The index of the last of `count` entries, or 0.
pub open spec fn last_index(count: int) -> int {
    if count > 0 {
        count - 1
    } else {
        0
    }
}

/// The `i128` form of a `usize`.
fn wide(n: usize) -> (r: i128)
    ensures
        r == n as int,
{
    n as i128
}

/// `v` clamped to `[0, hi]`, as a `usize`.
fn clamp_to(v: i128, hi: usize) -> (r: usize)
    ensures
        r == clamp(v as int, 0, hi as int),
{
    if v < 0 {
        0
    } else if v > wide(hi) {
        hi
    } else {
        v as usize
    }
}

impl LogCursor {
    /// The viewer as it opens: the first commit selected, the commit list
    /// focused.
    pub fn new() -> (r: LogCursor)
        ensures
            r.selected_commit == 0,
            r.diff_scroll == 0,
            r.active_panel == ActivePanel::Commits,
            !r.diff_loading,
            r.error is None,
    {
        LogCursor {
            selected_commit: 0,
            diff_scroll: 0,
            active_panel: ActivePanel::Commits,
            diff_loading: false,
            error: None,
        }
    }

    /// Focuses the commit list.
    pub fn focus_commits(&mut self)
        ensures
            *final(self) == (LogCursor { active_panel: ActivePanel::Commits, ..*old(self) }),
    {
        self.active_panel = ActivePanel::Commits;
    }

    /// Focuses the detail panel.
    pub fn focus_detail(&mut self)
        ensures
            *final(self) == (LogCursor { active_panel: ActivePanel::Detail, ..*old(self) }),
    {
        self.active_panel = ActivePanel::Detail;
    }

    /// Moves the selection by `delta` within the `commit_count` commits.
    /// When it lands on another commit the detail scrolls back to the top
    /// and the answer is `true`; with no commits nothing changes.
    pub fn move_commit(&mut self, delta: isize, commit_count: usize) -> (moved: bool)
        ensures
            commit_count == 0 ==> *final(self) == *old(self) && !moved,
            commit_count > 0 ==> {
                let next = clamp(
                    old(self).selected_commit + delta,
                    0,
                    last_index(commit_count as int),
                );
                &&& moved == (next != old(self).selected_commit)
                &&& moved ==> *final(self) == (LogCursor {
                    selected_commit: next as usize,
                    diff_scroll: 0,
                    ..*old(self)
                })
                &&& !moved ==> *final(self) == *old(self)
            },
    {
        if commit_count == 0 {
            return false;
        }
        let next = clamp_to(wide(self.selected_commit) + delta as i128, commit_count - 1);
        if next != self.selected_commit {
            self.selected_commit = next;
            self.diff_scroll = 0;
            true
        } else {
            false
        }
    }

    /// Selects the first commit; `true` when the selection changed.
    pub fn move_home(&mut self) -> (moved: bool)
        ensures
            moved == (old(self).selected_commit != 0),
            moved ==> *final(self) == (LogCursor {
                selected_commit: 0,
                diff_scroll: 0,
                ..*old(self)
            }),
            !moved ==> *final(self) == *old(self),
    {
        if self.selected_commit != 0 {
            self.selected_commit = 0;
            self.diff_scroll = 0;
            true
        } else {
            false
        }
    }

    /// Selects the last of `commit_count` commits (the first when there are
    /// none); `true` when the selection changed.
    pub fn move_end(&mut self, commit_count: usize) -> (moved: bool)
        ensures
            moved == (old(self).selected_commit != last_index(commit_count as int)),
            moved ==> *final(self) == (LogCursor {
                selected_commit: last_index(commit_count as int) as usize,
                diff_scroll: 0,
                ..*old(self)
            }),
            !moved ==> *final(self) == *old(self),
    {
        let last = if commit_count > 0 {
            commit_count - 1
        } else {
            0
        };
        if self.selected_commit != last {
            self.selected_commit = last;
            self.diff_scroll = 0;
            true
        } else {
            false
        }
    }

    /// Scrolls the detail by `delta` lines within its `line_count` lines.
    pub fn scroll_diff(&mut self, delta: isize, line_count: usize)
        ensures
            *final(self) == (LogCursor {
                diff_scroll: clamp(
                    old(self).diff_scroll + delta,
                    0,
                    last_index(line_count as int),
                ) as usize,
                ..*old(self)
            }),
    {
        let max = if line_count > 0 {
            line_count - 1
        } else {
            0
        };
        self.diff_scroll = clamp_to(wide(self.diff_scroll) + delta as i128, max);
    }

    /// One step down in the focused panel: the next commit, or the next
    /// detail line. `true` when another commit was selected.
    pub fn move_active_down(&mut self, commit_count: usize, line_count: usize) -> (moved: bool)
        ensures
            old(self).active_panel == ActivePanel::Commits ==> {
                let next = clamp(old(self).selected_commit + 1, 0, last_index(commit_count as int));
                &&& moved == (commit_count > 0 && next != old(self).selected_commit)
                &&& moved ==> *final(self) == (LogCursor {
                    selected_commit: next as usize,
                    diff_scroll: 0,
                    ..*old(self)
                })
                &&& !moved ==> *final(self) == *old(self)
            },
            old(self).active_panel == ActivePanel::Detail ==> !moved && *final(self) == (
            LogCursor {
                diff_scroll: clamp(old(self).diff_scroll + 1, 0, last_index(line_count as int))
                    as usize,
                ..*old(self)
            }),
    {
        match self.active_panel {
            ActivePanel::Commits => self.move_commit(1, commit_count),
            ActivePanel::Detail => {
                self.scroll_diff(1, line_count);
                false
            },
        }
    }

    /// One step up in the focused panel: the previous commit, or the
    /// previous detail line. `true` when another commit was selected.
    pub fn move_active_up(&mut self, commit_count: usize, line_count: usize) -> (moved: bool)
        ensures
            old(self).active_panel == ActivePanel::Commits ==> {
                let next = clamp(old(self).selected_commit - 1, 0, last_index(commit_count as int));
                &&& moved == (commit_count > 0 && next != old(self).selected_commit)
                &&& moved ==> *final(self) == (LogCursor {
                    selected_commit: next as usize,
                    diff_scroll: 0,
                    ..*old(self)
                })
                &&& !moved ==> *final(self) == *old(self)
            },
            old(self).active_panel == ActivePanel::Detail ==> !moved && *final(self) == (
            LogCursor {
                diff_scroll: clamp(old(self).diff_scroll - 1, 0, last_index(line_count as int))
                    as usize,
                ..*old(self)
            }),
    {
        match self.active_panel {
            ActivePanel::Commits => self.move_commit(-1, commit_count),
            ActivePanel::Detail => {
                self.scroll_diff(-1, line_count);
                false
            },
        }
    }

    /// Scrolls the detail to the next (`delta > 0`) or previous file
    /// boundary among `lines`, if there is one.
    pub fn jump_file(&mut self, lines: &[String], delta: isize)
        ensures
            exists|t: Option<usize>|
                #[trigger] jump_landing(lines@, old(self).diff_scroll as int, delta as int, t)
                    && *final(self) == (match t {
                    Some(i) => LogCursor { diff_scroll: i, ..*old(self) },
                    None => *old(self),
                }),
    {
        let target = file_jump_target(lines, self.diff_scroll, delta);
        if let Some(t) = target {
            self.diff_scroll = t;
        }
    }

    /// Marks the diff of the selected commit as loading, when there are
    /// commits; the last error is cleared.
    pub fn mark_diff_loading(&mut self, commit_count: usize)
        ensures
            commit_count == 0 ==> *final(self) == *old(self),
            commit_count > 0 ==> *final(self) == (LogCursor {
                diff_loading: true,
                error: None,
                ..*old(self)
            }),
    {
        if commit_count > 0 {
            self.diff_loading = true;
            self.error = None;
        }
    }
}

// ---------------------------------------------------------------------------
// Footer and detail title
// ---------------------------------------------------------------------------

/// What the detail panel shows: `loading`, `diff` or `files`.
pub open spec fn detail_mode(loading: bool, diff_loaded: bool) -> Seq<char> {
    if loading {
        "loading"@
    } else if diff_loaded {
        "diff"@
    } else {
        "files"@
    }
}

/// The action of the `d` key: `wait`, `d top` or `d load`.
pub open spec fn primary_action(loading: bool, diff_loaded: bool) -> Seq<char> {
    if loading {
        "wait"@
    } else if diff_loaded {
        "d top"@
    } else {
        "d load"@
    }
}

/// The name of a panel.
pub open spec fn panel_label(p: ActivePanel) -> Seq<char> {
    match p {
        ActivePanel::Commits => "commits"@,
        ActivePanel::Detail => "diff"@,
    }
}

/// The footer line: a short form below 88 columns, the full key list from
/// there on.
pub open spec fn footer_line(
    selected: int,
    total: int,
    panel: ActivePanel,
    loading: bool,
    diff_loaded: bool,
    width: int,
) -> Seq<char> {
    let position = position_label(selected, total);
    if width < 88 {
        "commit "@ + position + " | "@ + panel_label(panel) + " | "@ + primary_action(
            loading,
            diff_loaded,
        ) + " | left/right focus | j/k | q"@
    } else {
        "commit "@ + position + " | focus "@ + panel_label(panel) + " | "@ + detail_mode(
            loading,
            diff_loaded,
        ) + " | "@ + primary_action(loading, diff_loaded)
            + " | left/right focus | j/k move/scroll | f/b page | n/p file | q"@
    }
}

/// The footer text of the viewer over `commit_count` commits, in a
/// terminal `width` columns wide.
pub fn footer_text(cursor: &LogCursor, commit_count: usize, diff_loaded: bool, width: u16) -> (r:
    String)
    ensures
        r@ == footer_line(
            cursor.selected_commit as int,
            commit_count as int,
            cursor.active_panel,
            cursor.diff_loading,
            diff_loaded,
            width as int,
        ),
{
    let position = commit_position_label(cursor.selected_commit, commit_count);
    let mode = if cursor.diff_loading {
        "loading"
    } else if diff_loaded {
        "diff"
    } else {
        "files"
    };
    let action = if cursor.diff_loading {
        "wait"
    } else if diff_loaded {
        "d top"
    } else {
        "d load"
    };
    let label = cursor.active_panel.label();
    let mut v = chars_of("commit ");
    append_str(&mut v, position.as_str());
    if width < 88 {
        append_str(&mut v, " | ");
        append_str(&mut v, label);
        append_str(&mut v, " | ");
        append_str(&mut v, action);
        append_str(&mut v, " | left/right focus | j/k | q");
    } else {
        append_str(&mut v, " | focus ");
        append_str(&mut v, label);
        append_str(&mut v, " | ");
        append_str(&mut v, mode);
        append_str(&mut v, " | ");
        append_str(&mut v, action);
        append_str(&mut v, " | left/right focus | j/k move/scroll | f/b page | n/p file | q");
    }
    string_of(&v)
}

/// The title of the detail panel for the selected commit `hash`, or the
/// placeholder when no commit is selected.
pub open spec fn detail_title_text(
    hash: Option<Seq<char>>,
    loading: bool,
    diff_loaded: bool,
    scroll: int,
    visible: int,
    line_count: int,
    file_count: int,
    active: bool,
) -> Seq<char> {
    match hash {
        None => " files | no commit selected "@,
        Some(h) => {
            let start = window_start(scroll, visible, line_count);
            let hint = if loading {
                " | wait"@
            } else if diff_loaded {
                ""@
            } else {
                " | d diff"@
            };
            " "@ + detail_mode(loading, diff_loaded) + " "@ + h + " "@ + range_label(
                start,
                visible,
                line_count,
            ) + " | "@ + decimal(file_count as nat) + " files"@ + hint + (if active {
                " [focus]"@
            } else {
                ""@
            }) + " "@
        },
    }
}

/// The title of the detail panel (see [`detail_title_text`]); `hash` is the
/// selected commit's short hash, when a commit is selected.
pub fn detail_title(
    cursor: &LogCursor,
    hash: Option<&str>,
    diff_loaded: bool,
    visible: usize,
    line_count: usize,
    file_count: usize,
    active: bool,
) -> (r: String)
    ensures
        r@ == detail_title_text(
            match hash {
                Some(h) => Some(h@),
                None => None,
            },
            cursor.diff_loading,
            diff_loaded,
            cursor.diff_scroll as int,
            visible as int,
            line_count as int,
            file_count as int,
            active,
        ),
{
    match hash {
        None => " files | no commit selected ".to_owned(),
        Some(h) => {
            let mode = if cursor.diff_loading {
                "loading"
            } else if diff_loaded {
                "diff"
            } else {
                "files"
            };
            let start = visible_scroll_start(cursor.diff_scroll, visible, line_count);
            let range = visible_range_label(start, visible, line_count);
            let hint = if cursor.diff_loading {
                " | wait"
            } else if diff_loaded {
                ""
            } else {
                " | d diff"
            };
            let mut v = chars_of(" ");
            append_str(&mut v, mode);
            append_str(&mut v, " ");
            append_str(&mut v, h);
            append_str(&mut v, " ");
            append_str(&mut v, range.as_str());
            append_str(&mut v, " | ");
            append_chars(&mut v, &decimal_chars(file_count as u64));
            append_str(&mut v, " files");
            append_str(&mut v, hint);
            append_str(
                &mut v,
                if active {
                    " [focus]"
                } else {
                    ""
                },
            );
            append_str(&mut v, " ");
            string_of(&v)
        },
    }
}

// ---------------------------------------------------------------------------
// Detail lines
// ---------------------------------------------------------------------------

/// A worktree diff line: `+`, `-` or a space by its type, the old and new
/// line numbers in four columns each, then ` | ` and the text.
pub open spec fn diff_line_text(typ: Seq<char>, old_num: int, new_num: int, text: Seq<char>) -> Seq<
    char,
> {
    let prefix = if typ == "add"@ {
        "+"@
    } else if typ == "del"@ {
        "-"@
    } else {
        " "@
    };
    prefix + " "@ + diff_number_text(old_num) + " "@ + diff_number_text(new_num) + " | "@ + text
}

/// A line of a worktree diff: its kind (`add`, `del` or context), its old
/// and new line numbers (0 when it has none) and its text.
#[derive(Debug, Clone, PartialEq, Eq)]
pub struct WorktreeDiffLine {
    pub typ: String,
    pub text: String,
    pub old_num: i32,
    pub new_num: i32,
}

/// Formats a worktree diff line (see [`diff_line_text`]).
pub fn format_diff_line(line: &WorktreeDiffLine) -> (r: String)
    ensures
        r@ == diff_line_text(line.typ@, line.old_num as int, line.new_num as int, line.text@),
{
    let t = chars_of(line.typ.as_str());
    let prefix = if is(&t, "add") {
        "+"
    } else if is(&t, "del") {
        "-"
    } else {
        " "
    };
    let mut v = chars_of(prefix);
    append_str(&mut v, " ");
    append_str(&mut v, format_diff_number(line.old_num).as_str());
    append_str(&mut v, " ");
    append_str(&mut v, format_diff_number(line.new_num).as_str());
    append_str(&mut v, " | ");
    append_str(&mut v, line.text.as_str());
    string_of(&v)
}

/// A file-stat line: a space, the status letter, the additions and the
/// deletions right-aligned in four columns, the path, and ` binary` for a
/// binary file.
pub open spec fn file_stat_text(
    letter: Seq<char>,
    additions: int,
    deletions: int,
    path: Seq<char>,
    binary: bool,
) -> Seq<char> {
    " "@ + letter + " "@ + pad_left(decimal(additions as nat), 4) + "+ "@ + pad_left(
        decimal(deletions as nat),
        4,
    ) + "- "@ + path + (if binary {
        " binary"@
    } else {
        ""@
    })
}

/// Formats the stat line of a changed file (see [`file_stat_text`]); the
/// letter is [`status_letter`] of `status`.
pub fn format_file_stat(status: &str, additions: u64, deletions: u64, path: &str, binary: bool) -> (r:
    String)
    ensures
        r@ == file_stat_text(
            (if status@ == "added"@ {
                "A"@
            } else if status@ == "deleted"@ {
                "D"@
            } else {
                "M"@
            }),
            additions as int,
            deletions as int,
            path@,
            binary,
        ),
{
    let mut v = chars_of(" ");
    append_str(&mut v, status_letter(status));
    append_str(&mut v, " ");
    push_padded(&mut v, &decimal_chars(additions), 4);
    append_str(&mut v, "+ ");
    push_padded(&mut v, &decimal_chars(deletions), 4);
    append_str(&mut v, "- ");
    append_str(&mut v, path);
    append_str(
        &mut v,
        if binary {
            " binary"
        } else {
            ""
        },
    );
    string_of(&v)
}

/// Whatever the step, a move within a non-empty list (of commits, or of
/// detail lines) lands on one of its entries.
pub proof fn law_moves_stay_in_range(selected: int, delta: int, count: int)
    requires
        count > 0,
    ensures
        0 <= clamp(selected + delta, 0, last_index(count)) < count,
{
}

} // verus!
