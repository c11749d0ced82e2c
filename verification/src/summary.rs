//! Builders for the summary panel shown when the outline cursor rests on a changeset header or a
//! directory row: per-file diffstats and their totals.
use vstd::prelude::*;

use crate::model::{FileChange, FileChangeView, HunkLineView, HunkView, LineKind};
use crate::text::chars_of;

verus! {

/// How many lines of `lines` are of kind `k`.
pub open spec fn count_kind(lines: Seq<HunkLineView>, k: LineKind) -> nat
    decreases lines.len(),
{
    if lines.len() == 0 {
        0
    } else {
        count_kind(lines.drop_last(), k) + if lines.last().kind == k {
            1nat
        } else {
            0nat
        }
    }
}

/// How many lines of kind `k` all of `hunks` hold together.
pub open spec fn hunks_count(hunks: Seq<HunkView>, k: LineKind) -> nat
    decreases hunks.len(),
{
    if hunks.len() == 0 {
        0
    } else {
        hunks_count(hunks.drop_last(), k) + count_kind(hunks.last().lines, k)
    }
}

/// How many lines all of `hunks` hold together.
pub open spec fn hunks_lines(hunks: Seq<HunkView>) -> nat
    decreases hunks.len(),
{
    if hunks.len() == 0 {
        0
    } else {
        hunks_lines(hunks.drop_last()) + hunks.last().lines.len()
    }
}

/// A file's `(adds, dels)`: its addition and deletion lines across all hunks. Context lines
/// count toward neither; a binary file (no hunks) is `(0, 0)`.
pub open spec fn diffstat(f: FileChangeView) -> (nat, nat) {
    (hunks_count(f.hunks, LineKind::Addition), hunks_count(f.hunks, LineKind::Deletion))
}

proof fn lemma_count_le_len(lines: Seq<HunkLineView>, k: LineKind)
    ensures
        count_kind(lines, k) <= lines.len(),
    decreases lines.len(),
{
    if lines.len() > 0 {
        lemma_count_le_len(lines.drop_last(), k);
    }
}

proof fn lemma_hunks_count_le(hunks: Seq<HunkView>, k: LineKind)
    ensures
        hunks_count(hunks, k) <= hunks_lines(hunks),
    decreases hunks.len(),
{
    if hunks.len() > 0 {
        lemma_hunks_count_le(hunks.drop_last(), k);
        lemma_count_le_len(hunks.last().lines, k);
    }
}

proof fn lemma_hunks_prefix_le(hunks: Seq<HunkView>, i: int, k: LineKind)
    requires
        0 <= i <= hunks.len(),
    ensures
        hunks_count(hunks.take(i), k) <= hunks_count(hunks, k),
    decreases hunks.len() - i,
{
    if i < hunks.len() {
        lemma_hunks_prefix_le(hunks, i + 1, k);
        assert(hunks.take(i + 1).drop_last() =~= hunks.take(i));
    } else {
        assert(hunks.take(i) =~= hunks);
    }
}

proof fn lemma_count_prefix_le(lines: Seq<HunkLineView>, i: int, k: LineKind)
    requires
        0 <= i <= lines.len(),
    ensures
        count_kind(lines.take(i), k) <= count_kind(lines, k),
    decreases lines.len() - i,
{
    if i < lines.len() {
        lemma_count_prefix_le(lines, i + 1, k);
        assert(lines.take(i + 1).drop_last() =~= lines.take(i));
    } else {
        assert(lines.take(i) =~= lines);
    }
}

/// Count added and deleted lines across `change`'s hunks: `(adds, dels)`.
pub fn file_diffstat(change: &FileChange) -> (r: (usize, usize))
    requires
        hunks_lines(change@.hunks) <= usize::MAX,
    ensures
        r.0 as nat == diffstat(change@).0,
        r.1 as nat == diffstat(change@).1,
{
    let ghost hs = change@.hunks;
    proof {
        lemma_hunks_count_le(hs, LineKind::Addition);
        lemma_hunks_count_le(hs, LineKind::Deletion);
    }
    let mut adds: usize = 0;
    let mut dels: usize = 0;
    let nh = change.hunks.len();
    let mut h: usize = 0;
    while h < nh
        invariant
            nh == change.hunks@.len(),
            hs == change@.hunks,
            hs.len() == nh,
            h <= nh,
            hunks_count(hs, LineKind::Addition) <= usize::MAX,
            hunks_count(hs, LineKind::Deletion) <= usize::MAX,
            adds as nat == hunks_count(hs.take(h as int), LineKind::Addition),
            dels as nat == hunks_count(hs.take(h as int), LineKind::Deletion),
        decreases nh - h,
    {
        let hunk = &change.hunks[h];
        let ghost lines = hunk@.lines;
        proof {
            assert(hs[h as int] == hunk@);
            assert(hs.take(h + 1).drop_last() =~= hs.take(h as int));
            lemma_hunks_prefix_le(hs, h + 1, LineKind::Addition);
            lemma_hunks_prefix_le(hs, h + 1, LineKind::Deletion);
        }
        let nl = hunk.lines.len();
        let mut i: usize = 0;
        while i < nl
            invariant
                nl == hunk.lines@.len(),
                lines == hunk@.lines,
                lines.len() == nl,
                i <= nl,
                hunks_count(hs.take(h as int), LineKind::Addition) + count_kind(lines, LineKind::Addition) <= usize::MAX,
                hunks_count(hs.take(h as int), LineKind::Deletion) + count_kind(lines, LineKind::Deletion) <= usize::MAX,
                adds as nat == hunks_count(hs.take(h as int), LineKind::Addition) + count_kind(
                    lines.take(i as int),
                    LineKind::Addition,
                ),
                dels as nat == hunks_count(hs.take(h as int), LineKind::Deletion) + count_kind(
                    lines.take(i as int),
                    LineKind::Deletion,
                ),
            decreases nl - i,
        {
            proof {
                assert(lines.take(i + 1).drop_last() =~= lines.take(i as int));
                assert(lines[i as int] == hunk.lines@[i as int]@);
                lemma_count_prefix_le(lines, i + 1, LineKind::Addition);
                lemma_count_prefix_le(lines, i + 1, LineKind::Deletion);
            }
            match hunk.lines[i].kind {
                LineKind::Addition => {
                    adds = adds + 1;
                },
                LineKind::Deletion => {
                    dels = dels + 1;
                },
                LineKind::Context => {},
            }
            i = i + 1;
        }
        proof {
            assert(lines.take(nl as int) =~= lines);
        }
        h = h + 1;
    }
    proof {
        assert(hs.take(nh as int) =~= hs);
    }
    (adds, dels)
}

/// One file's row in a summary panel: its path and diffstat.
#[derive(Debug, Clone, PartialEq, Eq)]
pub struct SummaryFileRow {
    pub path: String,
    pub adds: usize,
    pub dels: usize,
}

/// The mathematical value of a [`SummaryFileRow`].
pub struct SummaryFileRowView {
    pub path: Seq<char>,
    pub adds: nat,
    pub dels: nat,
}

impl View for SummaryFileRow {
    type V = SummaryFileRowView;

    open spec fn view(&self) -> SummaryFileRowView {
        SummaryFileRowView { path: self.path@, adds: self.adds as nat, dels: self.dels as nat }
    }
}

/// The summary row of one file.
pub open spec fn row_of(f: FileChangeView) -> SummaryFileRowView {
    SummaryFileRowView { path: f.path, adds: diffstat(f).0, dels: diffstat(f).1 }
}

/// The total additions of `files`.
pub open spec fn total_adds(files: Seq<FileChangeView>) -> nat
    decreases files.len(),
{
    if files.len() == 0 {
        0
    } else {
        total_adds(files.drop_last()) + diffstat(files.last()).0
    }
}

/// The total deletions of `files`.
pub open spec fn total_dels(files: Seq<FileChangeView>) -> nat
    decreases files.len(),
{
    if files.len() == 0 {
        0
    } else {
        total_dels(files.drop_last()) + diffstat(files.last()).1
    }
}

/// Every file's lines, and the totals of `files`, fit in `usize`.
pub open spec fn summable(files: Seq<FileChangeView>) -> bool {
    &&& forall|i: int| 0 <= i < files.len() ==> hunks_lines(#[trigger] files[i].hunks) <= usize::MAX
    &&& total_adds(files) <= usize::MAX
    &&& total_dels(files) <= usize::MAX
}

proof fn lemma_totals_prefix(files: Seq<FileChangeView>, i: int)
    requires
        0 <= i <= files.len(),
    ensures
        total_adds(files.take(i)) <= total_adds(files),
        total_dels(files.take(i)) <= total_dels(files),
    decreases files.len() - i,
{
    if i < files.len() {
        lemma_totals_prefix(files, i + 1);
        assert(files.take(i + 1).drop_last() =~= files.take(i));
    } else {
        assert(files.take(i) =~= files);
    }
}

fn summary_row(f: &FileChange) -> (r: SummaryFileRow)
    requires
        hunks_lines(f@.hunks) <= usize::MAX,
    ensures
        r@ == row_of(f@),
{
    let (adds, dels) = file_diffstat(f);
    SummaryFileRow { path: f.path.clone(), adds, dels }
}

/// The per-file rows of `files` plus their `(total_adds, total_dels)`.
pub(crate) fn file_rows(files: &[FileChange]) -> (r: (Vec<SummaryFileRow>, usize, usize))
    requires
        summable(files@.map_values(|f: FileChange| f@)),
    ensures
        r.0@.map_values(|x: SummaryFileRow| x@) == files@.map_values(|f: FileChange| f@).map_values(
            |f: FileChangeView| row_of(f),
        ),
        r.1 as nat == total_adds(files@.map_values(|f: FileChange| f@)),
        r.2 as nat == total_dels(files@.map_values(|f: FileChange| f@)),
{
    let ghost fs = files@.map_values(|f: FileChange| f@);
    let n = files.len();
    let mut rows: Vec<SummaryFileRow> = Vec::new();
    let mut ta: usize = 0;
    let mut td: usize = 0;
    let mut i: usize = 0;
    while i < n
        invariant
            n == files@.len(),
            fs == files@.map_values(|f: FileChange| f@),
            fs.len() == n,
            summable(fs),
            i <= n,
            rows@.len() == i,
            forall|k: int| 0 <= k < i ==> #[trigger] rows@[k]@ == row_of(fs[k]),
            ta as nat == total_adds(fs.take(i as int)),
            td as nat == total_dels(fs.take(i as int)),
        decreases n - i,
    {
        let f = &files[i];
        proof {
            assert(fs[i as int] == f@);
            assert(fs.take(i + 1).drop_last() =~= fs.take(i as int));
            lemma_totals_prefix(fs, i + 1);
        }
        let row = summary_row(f);
        ta = ta + row.adds;
        td = td + row.dels;
        rows.push(row);
        i = i + 1;
    }
    proof {
        assert(fs.take(n as int) =~= fs);
        assert(rows@.map_values(|x: SummaryFileRow| x@) =~= fs.map_values(
            |f: FileChangeView| row_of(f),
        ));
    }
    (rows, ta, td)
}

/// The summary shown for a changeset header row: its label and flags, plus a per-file diffstat
/// breakdown and its totals.
#[derive(Debug, Clone, PartialEq, Eq)]
pub struct ChangesetSummary {
    pub label: String,
    pub current: bool,
    pub needs_restack: bool,
    pub loading: bool,
    pub failed: bool,
    /// The acquisition failure message, `Some` only when `failed`.
    pub failure_message: Option<String>,
    pub files: Vec<SummaryFileRow>,
    pub total_adds: usize,
    pub total_dels: usize,
}

/// Build a [`ChangesetSummary`] from a changeset's label and flags plus its file list.
pub fn changeset_summary(
    label: String,
    current: bool,
    needs_restack: bool,
    loading: bool,
    failed: bool,
    failure_message: Option<String>,
    files: &[FileChange],
) -> (r: ChangesetSummary)
    requires
        summable(files@.map_values(|f: FileChange| f@)),
    ensures
        r.label == label,
        r.current == current,
        r.needs_restack == needs_restack,
        r.loading == loading,
        r.failed == failed,
        r.failure_message == failure_message,
        r.files@.map_values(|x: SummaryFileRow| x@) == files@.map_values(|f: FileChange| f@).map_values(
            |f: FileChangeView| row_of(f),
        ),
        r.total_adds as nat == total_adds(files@.map_values(|f: FileChange| f@)),
        r.total_dels as nat == total_dels(files@.map_values(|f: FileChange| f@)),
{
    let (rows, total_adds, total_dels) = file_rows(files);
    ChangesetSummary {
        label,
        current,
        needs_restack,
        loading,
        failed,
        failure_message,
        files: rows,
        total_adds,
        total_dels,
    }
}

/// The summary shown for a directory row: every file under `path`, and their totals.
#[derive(Debug, Clone, PartialEq, Eq)]
pub struct DirSummary {
    pub path: String,
    pub files: Vec<SummaryFileRow>,
    pub total_adds: usize,
    pub total_dels: usize,
}

/// `file` lies under directory `dir` as a whole path segment: `dir` followed by `/` is a
/// prefix of `file` (`"src"` covers `"src/a.rs"` but not `"src2/b.rs"`).
pub open spec fn is_under(file: Seq<char>, dir: Seq<char>) -> bool {
    file.len() > dir.len() && file.take(dir.len() as int) == dir && file[dir.len() as int] == '/'
}

/// Segment-boundary match: whether `file_path` lies under directory `dir_path`.
fn path_is_under(file_path: &str, dir_path: &str) -> (r: bool)
    ensures
        r == is_under(file_path@, dir_path@),
{
    let f = chars_of(file_path);
    let d = chars_of(dir_path);
    let n = d.len();
    if f.len() <= n {
        return false;
    }
    let mut i: usize = 0;
    while i < n
        invariant
            n == d@.len(),
            n < f@.len(),
            f@ == file_path@,
            d@ == dir_path@,
            i <= n,
            f@.take(i as int) == d@.take(i as int),
        decreases n - i,
    {
        if f[i] != d[i] {
            proof {
                assert(f@.take(n as int)[i as int] == f@[i as int]);
                assert(f@.take(n as int)[i as int] != d@[i as int]);
                assert(f@.take(n as int) != d@);
            }
            return false;
        }
        proof {
            assert(f@.take(i + 1) =~= f@.take(i as int).push(f@[i as int]));
            assert(d@.take(i + 1) =~= d@.take(i as int).push(d@[i as int]));
        }
        i = i + 1;
    }
    proof {
        assert(d@.take(n as int) =~= d@);
    }
    f[n] == '/'
}

/// The files of `files` under directory `dir`, in order.
pub open spec fn files_under(files: Seq<FileChangeView>, dir: Seq<char>) -> Seq<FileChangeView> {
    files.filter(|f: FileChangeView| is_under(f.path, dir))
}

proof fn lemma_filter_step(files: Seq<FileChangeView>, dir: Seq<char>, i: int)
    requires
        0 <= i < files.len(),
    ensures
        files_under(files.take(i + 1), dir) == if is_under(files[i].path, dir) {
            files_under(files.take(i), dir).push(files[i])
        } else {
            files_under(files.take(i), dir)
        },
{
    reveal_with_fuel(Seq::filter, 1);
    assert(files.take(i + 1).drop_last() =~= files.take(i));
}

proof fn lemma_filter_bounds(files: Seq<FileChangeView>, dir: Seq<char>)
    ensures
        total_adds(files_under(files, dir)) <= total_adds(files),
        total_dels(files_under(files, dir)) <= total_dels(files),
        forall|i: int|
            0 <= i < files_under(files, dir).len() ==> exists|j: int|
                0 <= j < files.len() && #[trigger] files_under(files, dir)[i] == files[j],
    decreases files.len(),
{
    reveal_with_fuel(Seq::filter, 1);
    if files.len() > 0 {
        let init = files.drop_last();
        lemma_filter_bounds(init, dir);
        let fi = files_under(init, dir);
        let fa = files_under(files, dir);
        if is_under(files.last().path, dir) {
            assert(fa == fi.push(files.last()));
            assert(fa.drop_last() =~= fi);
            assert forall|i: int| 0 <= i < fa.len() implies exists|j: int|
                0 <= j < files.len() && #[trigger] fa[i] == files[j] by {
                if i < fi.len() {
                    assert(fa[i] == fi[i]);
                    let j = choose|j: int| 0 <= j < init.len() && #[trigger] fi[i] == init[j];
                    assert(init[j] == files[j]);
                } else {
                    assert(fa[i] == files[files.len() - 1]);
                }
            }
        } else {
            assert(fa == fi);
            assert forall|i: int| 0 <= i < fa.len() implies exists|j: int|
                0 <= j < files.len() && #[trigger] fa[i] == files[j] by {
                let j = choose|j: int| 0 <= j < init.len() && #[trigger] fi[i] == init[j];
                assert(init[j] == files[j]);
            }
        }
    }
}

/// Build a [`DirSummary`] for directory `path`: the rows of the files of `files` under it (a
/// whole-segment match) and their totals.
pub fn dir_summary(path: String, files: &[FileChange]) -> (r: DirSummary)
    requires
        summable(files@.map_values(|f: FileChange| f@)),
    ensures
        r.path == path,
        r.files@.map_values(|x: SummaryFileRow| x@) == files_under(
            files@.map_values(|f: FileChange| f@),
            path@,
        ).map_values(|f: FileChangeView| row_of(f)),
        r.total_adds as nat == total_adds(files_under(files@.map_values(|f: FileChange| f@), path@)),
        r.total_dels as nat == total_dels(files_under(files@.map_values(|f: FileChange| f@), path@)),
{
    let ghost fs = files@.map_values(|f: FileChange| f@);
    let ghost dir = path@;
    let n = files.len();
    let mut rows: Vec<SummaryFileRow> = Vec::new();
    let mut ta: usize = 0;
    let mut td: usize = 0;
    let mut i: usize = 0;
    while i < n
        invariant
            n == files@.len(),
            fs == files@.map_values(|f: FileChange| f@),
            fs.len() == n,
            dir == path@,
            summable(fs),
            i <= n,
            rows@.map_values(|x: SummaryFileRow| x@) == files_under(fs.take(i as int), dir).map_values(
                |f: FileChangeView| row_of(f),
            ),
            ta as nat == total_adds(files_under(fs.take(i as int), dir)),
            td as nat == total_dels(files_under(fs.take(i as int), dir)),
        decreases n - i,
    {
        let f = &files[i];
        proof {
            assert(fs[i as int] == f@);
            lemma_filter_step(fs, dir, i as int);
            lemma_filter_bounds(fs.take(i + 1), dir);
            lemma_totals_prefix(fs, i + 1);
        }
        if path_is_under(f.path.as_str(), path.as_str()) {
            let ghost before = rows@.map_values(|x: SummaryFileRow| x@);
            let row = summary_row(f);
            proof {
                let under = files_under(fs.take(i + 1), dir);
                assert(under == files_under(fs.take(i as int), dir).push(fs[i as int]));
                assert(under.drop_last() =~= files_under(fs.take(i as int), dir));
            }
            ta = ta + row.adds;
            td = td + row.dels;
            rows.push(row);
            proof {
                assert(rows@.map_values(|x: SummaryFileRow| x@) =~= before.push(row_of(f@)));
            }
        }
        i = i + 1;
    }
    proof {
        assert(fs.take(n as int) =~= fs);
    }
    DirSummary { path, files: rows, total_adds: ta, total_dels: td }
}

} // verus!
