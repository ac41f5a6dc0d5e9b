//! What `ctx digest` reads from `git log --name-status`: the commits, their
//! authors, and how often each file changed; and the hot files, ranked.
//!
//! The log is run with `--format=commit:%H%x00%ae%x00%P`, so each commit
//! opens with a line `commit:` hash NUL email NUL parents, followed by a
//! line per file: status TAB path.
use vstd::prelude::*;

use crate::cli::digest::DigestHotFile;
use crate::cli::pack_api::{lines_of, text_lines};
use crate::order::{lemma_lex_total, lemma_lex_trans, lex_le, lex_le_exec};
use crate::text::{
    chars_eq, chars_of, find_char, first_index_of, slice_chars, starts_with, starts_with_exec,
    string_of, trim, trim_exec, vec_views, views,
};

verus! {

broadcast use vstd::seq_lib::group_to_multiset_ensures;

/// How often a file changed in the period, and whether it was added or
/// deleted there.
#[derive(Debug, Clone, PartialEq, Eq)]
pub struct DigestFileStat {
    pub path: String,
    pub commits: usize,
    pub added: bool,
    pub deleted: bool,
}

/// What the log says: the commits read, the distinct author emails in the
/// order first seen, the files in the order first seen, and the oldest
/// commit (the last one read) with whether it has no parent.
#[derive(Debug, Clone, PartialEq, Eq)]
pub struct DigestLogStats {
    pub commits: usize,
    pub authors: Vec<String>,
    pub files: Vec<DigestFileStat>,
    pub oldest_hash: String,
    pub oldest_is_root: bool,
}

/// A file's counts by view.
pub struct FileStatView {
    pub path: Seq<char>,
    pub commits: nat,
    pub added: bool,
    pub deleted: bool,
}

/// The log's counts by view.
pub struct LogStatsView {
    pub commits: nat,
    pub authors: Seq<Seq<char>>,
    pub files: Seq<FileStatView>,
    pub oldest: Seq<char>,
    pub oldest_is_root: bool,
}

/// The view of a file's counts.
pub open spec fn file_view(f: DigestFileStat) -> FileStatView {
    FileStatView { path: f.path@, commits: f.commits as nat, added: f.added, deleted: f.deleted }
}

/// The views of files' counts.
pub open spec fn file_views(s: Seq<DigestFileStat>) -> Seq<FileStatView> {
    s.map_values(|f: DigestFileStat| file_view(f))
}

impl DigestLogStats {
    /// The view of the counts.
    pub open spec fn view_of(self) -> LogStatsView {
        LogStatsView {
            commits: self.commits as nat,
            authors: views(self.authors@),
            files: file_views(self.files@),
            oldest: self.oldest_hash@,
            oldest_is_root: self.oldest_is_root,
        }
    }
}

/// What precedes the first `c` of `s`, or all of `s`.
pub open spec fn before_char(s: Seq<char>, c: char) -> Seq<char> {
    if first_index_of(s, c) < 0 {
        s
    } else {
        s.take(first_index_of(s, c))
    }
}

/// What follows the first `c` of `s`, when there is one.
pub open spec fn after_char(s: Seq<char>, c: char) -> Option<Seq<char>> {
    if first_index_of(s, c) < 0 {
        None
    } else {
        Some(s.skip(first_index_of(s, c) + 1))
    }
}

/// The parts of a commit line after `commit:`: the hash, the email and the
/// parents, split at the first two NULs and trimmed; a missing part is
/// empty.
pub open spec fn commit_parts(rest: Seq<char>) -> (Seq<char>, Seq<char>, Seq<char>) {
    let hash = trim(before_char(rest, '\0'));
    match after_char(rest, '\0') {
        None => (hash, Seq::empty(), Seq::empty()),
        Some(t) => (
            hash,
            trim(before_char(t, '\0')),
            match after_char(t, '\0') {
                None => Seq::empty(),
                Some(u) => trim(u),
            },
        ),
    }
}

/// The index of the file counted under `path`, or -1.
pub open spec fn file_index(files: Seq<FileStatView>, path: Seq<char>) -> int
    decreases files.len(),
{
    if files.len() == 0 {
        -1
    } else {
        let k = file_index(files.drop_last(), path);
        if k >= 0 {
            k
        } else if files.last().path == path {
            files.len() - 1
        } else {
            -1
        }
    }
}

/// One more change of `path`, marking it added or deleted as told.
pub open spec fn count_change(files: Seq<FileStatView>, path: Seq<char>, added: bool, deleted: bool) -> Seq<FileStatView> {
    let k = file_index(files, path);
    if k >= 0 {
        let f = files[k];
        files.update(
            k,
            FileStatView {
                path,
                commits: f.commits + 1,
                added: f.added || added,
                deleted: f.deleted || deleted,
            },
        )
    } else {
        files.push(FileStatView { path, commits: 1, added, deleted })
    }
}

/// The counts after one more line of the log. A commit line counts the
/// commit, remembers it as the oldest so far and whether it has no parent,
/// and adds its email when new. A file line with a status and a path counts
/// a change of the path: an `A` status marks it added unless the commit
/// has no parent, a `D` status marks it deleted. Other lines are skipped.
pub open spec fn log_step(st: LogStatsView, line: Seq<char>) -> LogStatsView {
    if starts_with(line, "commit:"@) {
        let (hash, email, parents) = commit_parts(line.skip(7));
        LogStatsView {
            commits: st.commits + 1,
            authors: if email.len() > 0 && !st.authors.contains(email) {
                st.authors.push(email)
            } else {
                st.authors
            },
            files: st.files,
            oldest: hash,
            oldest_is_root: parents.len() == 0,
        }
    } else {
        let status = before_char(line, '\t');
        match after_char(line, '\t') {
            None => st,
            Some(rest) => {
                let path = before_char(rest, '\t');
                if status.len() == 0 || path.len() == 0 {
                    st
                } else {
                    LogStatsView {
                        files: count_change(
                            st.files,
                            path,
                            !st.oldest_is_root && status[0] == 'A',
                            status[0] == 'D',
                        ),
                        ..st
                    }
                }
            },
        }
    }
}

/// The counts after the lines.
pub open spec fn stats_over(lines: Seq<Seq<char>>) -> LogStatsView
    decreases lines.len(),
{
    if lines.len() == 0 {
        LogStatsView {
            commits: 0,
            authors: Seq::empty(),
            files: Seq::empty(),
            oldest: Seq::empty(),
            oldest_is_root: false,
        }
    } else {
        log_step(stats_over(lines.drop_last()), lines.last())
    }
}

/// The counts of a log text, read line by line.
pub open spec fn log_stats(log: Seq<char>) -> LogStatsView {
    stats_over(text_lines(log))
}

/// A found file lies within the list and has the path.
proof fn lemma_file_index_bound(files: Seq<FileStatView>, path: Seq<char>)
    ensures
        file_index(files, path) < files.len(),
        file_index(files, path) >= 0 ==> files[file_index(files, path)].path == path,
        file_index(files, path) < 0 ==> forall|j: int| 0 <= j < files.len() ==> #[trigger] files[j].path != path,
    decreases files.len(),
{
    if files.len() > 0 {
        lemma_file_index_bound(files.drop_last(), path);
        if file_index(files.drop_last(), path) < 0 {
            assert forall|j: int| 0 <= j < files.len() - 1 implies #[trigger] files[j].path != path by {
                assert(files.drop_last()[j] == files[j]);
            }
        }
    }
}

/// A file found among the first `m` is the one found among all.
proof fn lemma_file_index_prefix(files: Seq<FileStatView>, path: Seq<char>, m: int)
    requires
        0 <= m <= files.len(),
        file_index(files.take(m), path) >= 0,
    ensures
        file_index(files, path) == file_index(files.take(m), path),
    decreases files.len() - m,
{
    if m < files.len() {
        assert(files.take(m + 1).drop_last() =~= files.take(m));
        lemma_file_index_prefix(files, path, m + 1);
    } else {
        assert(files.take(m) =~= files);
    }
}

/// The index of the file counted under `path` (see [`file_index`]).
fn find_file(files: &Vec<DigestFileStat>, path: &Vec<char>) -> (r: Option<usize>)
    ensures
        match r {
            Some(k) => file_index(file_views(files@), path@) == k as int,
            None => file_index(file_views(files@), path@) < 0,
        },
{
    let ghost fv = file_views(files@);
    let mut j: usize = 0;
    assert(fv.take(0) =~= Seq::<FileStatView>::empty());
    while j < files.len()
        invariant
            j <= files.len(),
            fv == file_views(files@),
            file_index(fv.take(j as int), path@) < 0,
        decreases files.len() - j,
    {
        assert(fv.take(j + 1).drop_last() =~= fv.take(j as int));
        assert(fv.take(j + 1).last() == file_view(files@[j as int]));
        if chars_eq(&chars_of(files[j].path.as_str()), path) {
            proof {
                lemma_file_index_prefix(fv, path@, j + 1);
            }
            return Some(j);
        }
        j = j + 1;
    }
    assert(fv.take(files.len() as int) =~= fv);
    None
}

/// Counts one more change of `path` (see [`count_change`]).
fn count_file(files: &mut Vec<DigestFileStat>, path: &Vec<char>, added: bool, deleted: bool, bound: usize)
    requires
        bound >= 1,
        forall|j: int| 0 <= j < old(files).len() ==> (#[trigger] old(files)@[j]).commits < bound,
    ensures
        file_views(final(files)@) == count_change(file_views(old(files)@), path@, added, deleted),
        forall|j: int| 0 <= j < final(files).len() ==> (#[trigger] final(files)@[j]).commits <= bound,
{
    let ghost fv = file_views(files@);
    proof {
        lemma_file_index_bound(fv, path@);
    }
    match find_file(files, path) {
        Some(k) => {
            let f = DigestFileStat {
                path: string_of(path),
                commits: files[k].commits + 1,
                added: files[k].added || added,
                deleted: files[k].deleted || deleted,
            };
            let ghost before = files@;
            files.set(k, f);
            assert(files@ == before.update(k as int, f));
            assert(file_views(files@) =~= count_change(fv, path@, added, deleted));
            assert forall|j: int| 0 <= j < files.len() implies (#[trigger] files@[j]).commits <= bound by {
                if j != k {
                    assert(files@[j] == before[j]);
                }
            }
        },
        None => {
            let ghost before = files@;
            files.push(DigestFileStat { path: string_of(path), commits: 1, added, deleted });
            assert(file_views(files@) =~= count_change(fv, path@, added, deleted));
            assert forall|j: int| 0 <= j < files.len() implies (#[trigger] files@[j]).commits <= bound by {
                if j < before.len() {
                    assert(files@[j] == before[j]);
                }
            }
        },
    }
}

/// Whether `email` is among the authors.
fn has_author(authors: &Vec<String>, email: &Vec<char>) -> (r: bool)
    ensures
        r == views(authors@).contains(email@),
{
    let mut j: usize = 0;
    while j < authors.len()
        invariant
            j <= authors.len(),
            forall|q: int| 0 <= q < j ==> views(authors@)[q] != email@,
        decreases authors.len() - j,
    {
        if chars_eq(&chars_of(authors[j].as_str()), email) {
            assert(views(authors@)[j as int] == email@);
            return true;
        }
        j = j + 1;
    }
    false
}

/// The text before the first `c` (see [`before_char`]) and after it (see
/// [`after_char`]).
fn split_at_char(s: &Vec<char>, c: char) -> (r: (Vec<char>, Option<Vec<char>>))
    ensures
        r.0@ == before_char(s@, c),
        after_char(s@, c) == (match r.1 {
            Some(t) => Some(t@),
            None => None::<Seq<char>>,
        }),
{
    match find_char(s, c) {
        None => (s.clone(), None),
        Some(i) => {
            let n = s.len();
            assert(i < n);
            let a = slice_chars(s, 0, i);
            let b = slice_chars(s, i + 1, n);
            assert(a@ =~= s@.take(i as int));
            assert(b@ =~= s@.skip(i + 1));
            (a, Some(b))
        },
    }
}

/// The counts after one more line (see [`log_step`]).
fn apply_line(st: &mut DigestLogStats, line: &Vec<char>, bound: usize)
    requires
        old(st).commits < bound,
        forall|j: int| 0 <= j < old(st).files.len() ==> (#[trigger] old(st).files@[j]).commits < bound,
    ensures
        final(st).view_of() == log_step(old(st).view_of(), line@),
        final(st).commits <= bound,
        forall|j: int| 0 <= j < final(st).files.len() ==> (#[trigger] final(st).files@[j]).commits <= bound,
{
    proof {
        reveal_strlit("commit:");
    }
    let head = chars_of("commit:");
    if starts_with_exec(line, &head) {
        let rest = slice_chars(line, 7, line.len());
        assert(rest@ =~= line@.skip(7));
        let (h, after) = split_at_char(&rest, '\0');
        let hash = trim_exec(&h);
        let (email, parents) = match after {
            None => (Vec::new(), Vec::new()),
            Some(t) => {
                let (e, after2) = split_at_char(&t, '\0');
                let p = match after2 {
                    None => Vec::new(),
                    Some(u) => trim_exec(&u),
                };
                (trim_exec(&e), p)
            },
        };
        assert((hash@, email@, parents@) == commit_parts(line@.skip(7)));
        st.commits = st.commits + 1;
        if email.len() > 0 && !has_author(&st.authors, &email) {
            let ghost before = st.authors@;
            st.authors.push(string_of(&email));
            assert(views(st.authors@) =~= views(before).push(email@));
        }
        st.oldest_hash = string_of(&hash);
        st.oldest_is_root = parents.len() == 0;
        return;
    }
    let (status, after) = split_at_char(line, '\t');
    match after {
        None => {},
        Some(rest) => {
            let (path, _) = split_at_char(&rest, '\t');
            if status.len() == 0 || path.len() == 0 {
                return;
            }
            let added = !st.oldest_is_root && status[0] == 'A';
            let deleted = status[0] == 'D';
            count_file(&mut st.files, &path, added, deleted, bound);
        },
    }
}

/// Reads the counts of a `git log --name-status` text (see [`log_stats`]).
pub fn digest_log_stats(log: &str) -> (r: DigestLogStats)
    ensures
        r.view_of() == log_stats(log@),
{
    let lines = lines_of(log);
    let ghost ls = vec_views(lines@);
    let mut st = DigestLogStats {
        commits: 0,
        authors: Vec::new(),
        files: Vec::new(),
        oldest_hash: String::new(),
        oldest_is_root: false,
    };
    let mut i: usize = 0;
    assert(ls.take(0) =~= Seq::<Seq<char>>::empty());
    assert(st.view_of() == stats_over(ls.take(0))) by {
        assert(views(st.authors@) =~= Seq::<Seq<char>>::empty());
        assert(file_views(st.files@) =~= Seq::<FileStatView>::empty());
    }
    while i < lines.len()
        invariant
            i <= lines.len(),
            ls == vec_views(lines@),
            ls == text_lines(log@),
            st.view_of() == stats_over(ls.take(i as int)),
            st.commits <= i,
            forall|j: int| 0 <= j < st.files.len() ==> (#[trigger] st.files@[j]).commits <= i,
        decreases lines.len() - i,
    {
        assert(ls.take(i + 1).drop_last() =~= ls.take(i as int));
        assert(ls.take(i + 1).last() == lines@[i as int]@);
        apply_line(&mut st, &lines[i], i + 1);
        i = i + 1;
    }
    assert(ls.take(lines.len() as int) =~= ls);
    st
}

// ---------------------------------------------------------------------------
// Hot files
// ---------------------------------------------------------------------------

/// `a` ranks before or level with `b`: more commits first, then by path.
pub open spec fn hot_le(a: DigestHotFile, b: DigestHotFile) -> bool {
    a.commits > b.commits || (a.commits == b.commits && lex_le(a.path@, b.path@))
}

/// Every file ranks before or level with every later one.
pub open spec fn ranked(s: Seq<DigestHotFile>) -> bool {
    forall|i: int, j: int| 0 <= i < j < s.len() ==> hot_le(#[trigger] s[i], #[trigger] s[j])
}

/// The first `top` of the ranked files (all of them when `top` is 0).
pub open spec fn cut_to(s: Seq<DigestHotFile>, top: int) -> Seq<DigestHotFile> {
    if top > 0 && s.len() > top {
        s.take(top)
    } else {
        s
    }
}

/// The ranking is total.
proof fn lemma_hot_total(a: DigestHotFile, b: DigestHotFile)
    ensures
        hot_le(a, b) || hot_le(b, a),
{
    lemma_lex_total(a.path@, b.path@);
}

/// The ranking is transitive.
proof fn lemma_hot_trans(a: DigestHotFile, b: DigestHotFile, c: DigestHotFile)
    requires
        hot_le(a, b),
        hot_le(b, c),
    ensures
        hot_le(a, c),
{
    if a.commits == b.commits && b.commits == c.commits {
        lemma_lex_trans(a.path@, b.path@, c.path@);
    }
}

/// A copy of a hot file.
fn copy_hot(h: &DigestHotFile) -> (r: DigestHotFile)
    ensures
        r == *h,
{
    DigestHotFile {
        path: h.path.clone(),
        commits: h.commits,
        token_delta: h.token_delta,
        symbol_delta: h.symbol_delta,
    }
}

/// Whether `a` ranks before or level with `b` (see [`hot_le`]).
fn hot_le_exec(a: &DigestHotFile, b: &DigestHotFile) -> (r: bool)
    ensures
        r == hot_le(*a, *b),
{
    a.commits > b.commits || (a.commits == b.commits && lex_le_exec(
        &chars_of(a.path.as_str()),
        &chars_of(b.path.as_str()),
    ))
}

/// Ranks the hot files: most commits first, ties by path, and keeps the
/// first `top` when `top` is positive.
pub fn rank_hot_files(files: &[DigestHotFile], top: usize) -> (r: Vec<DigestHotFile>)
    ensures
        exists|q: Seq<DigestHotFile>|
            #[trigger] ranked(q) && q.to_multiset() == files@.to_multiset() && r@ == cut_to(
                q,
                top as int,
            ),
{
    let mut out: Vec<DigestHotFile> = Vec::new();
    let mut i: usize = 0;
    assert(files@.take(0) =~= Seq::<DigestHotFile>::empty());
    while i < files.len()
        invariant
            i <= files.len(),
            out.len() == i,
            ranked(out@),
            out@.to_multiset() == files@.take(i as int).to_multiset(),
        decreases files.len() - i,
    {
        let x = copy_hot(&files[i]);
        let mut p: usize = 0;
        while p < out.len() && hot_le_exec(&out[p], &x)
            invariant
                p <= out.len(),
                forall|q: int| 0 <= q < p ==> hot_le(#[trigger] out@[q], x),
            decreases out.len() - p,
        {
            p = p + 1;
        }
        let ghost old_out = out@;
        proof {
            if p < out.len() {
                lemma_hot_total(old_out[p as int], x);
                assert forall|q: int| p <= q < old_out.len() implies hot_le(x, #[trigger] old_out[q]) by {
                    if q > p {
                        lemma_hot_trans(x, old_out[p as int], old_out[q]);
                    }
                }
            }
        }
        out.insert(p, x);
        proof {
            assert(out@ =~= old_out.insert(p as int, x));
            assert forall|a: int, b: int| 0 <= a < b < out.len() implies hot_le(
                #[trigger] out@[a],
                #[trigger] out@[b],
            ) by {
                if b < p {
                } else if a < p && b == p {
                } else if a < p && b > p {
                    lemma_hot_trans(old_out[a], x, old_out[b - 1]);
                } else if a == p {
                } else {
                    assert(hot_le(old_out[a - 1], old_out[b - 1]));
                }
            }
            vstd::seq_lib::to_multiset_insert(old_out, p as int, x);
            assert(files@.take(i + 1) =~= files@.take(i as int).push(x));
            vstd::seq_lib::to_multiset_build(files@.take(i as int), x);
        }
        i = i + 1;
    }
    assert(files@.take(files.len() as int) =~= files@);
    let ghost q = out@;
    if top > 0 && out.len() > top {
        let mut cut: Vec<DigestHotFile> = Vec::new();
        let mut k: usize = 0;
        while k < top
            invariant
                k <= top < out.len(),
                cut@ == out@.take(k as int),
            decreases top - k,
        {
            cut.push(copy_hot(&out[k]));
            k = k + 1;
            assert(cut@ =~= out@.take(k as int));
        }
        assert(ranked(q));
        return cut;
    }
    assert(ranked(q));
    out
}

} // verus!
