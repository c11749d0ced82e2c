//! The diff model the review pipeline works on: one [`FileChange`] per changed path, each made
//! of [`Hunk`]s of [`HunkLine`]s, plus the byte-rendering of a hunk in unified-diff form.
use vstd::prelude::*;

use crate::bytes::{extend_bytes, no_newline_marker, push_no_newline_marker};

verus! {

/// Which side(s) of a diff a hunk line belongs to.
#[derive(Debug, Clone, Copy, PartialEq, Eq, Structural)]
pub enum LineKind {
    Context,
    Addition,
    Deletion,
}

/// The git status of one changed path.
#[derive(Debug, Clone, Copy, PartialEq, Eq, Structural)]
pub enum FileStatus {
    Added,
    Deleted,
    Modified,
    Renamed,
    Copied,
    Untracked,
    Unmerged,
}

/// The single status letter git's short status uses for each status.
pub open spec fn status_letter(s: FileStatus) -> char {
    match s {
        FileStatus::Added => 'A',
        FileStatus::Deleted => 'D',
        FileStatus::Modified => 'M',
        FileStatus::Renamed => 'R',
        FileStatus::Copied => 'C',
        FileStatus::Untracked => '?',
        FileStatus::Unmerged => 'U',
    }
}

impl FileStatus {
    /// The status letter (`A`, `D`, `M`, `R`, `C`, `?`, `U`).
    pub fn letter(&self) -> (c: char)
        ensures
            c == status_letter(*self),
    {
        match self {
            FileStatus::Added => 'A',
            FileStatus::Deleted => 'D',
            FileStatus::Modified => 'M',
            FileStatus::Renamed => 'R',
            FileStatus::Copied => 'C',
            FileStatus::Untracked => '?',
            FileStatus::Unmerged => 'U',
        }
    }
}

/// One line of a hunk: its kind, its raw bytes (including the trailing `\n` unless
/// `missing_newline`), and its 1-based line numbers on each side it exists on.
#[derive(Debug, Clone, PartialEq, Eq)]
pub struct HunkLine {
    pub kind: LineKind,
    pub content: Vec<u8>,
    pub old_lnum: Option<u32>,
    pub new_lnum: Option<u32>,
    pub missing_newline: bool,
}

/// The mathematical value of a [`HunkLine`].
pub struct HunkLineView {
    pub kind: LineKind,
    pub content: Seq<u8>,
    pub old_lnum: Option<u32>,
    pub new_lnum: Option<u32>,
    pub missing_newline: bool,
}

impl View for HunkLine {
    type V = HunkLineView;

    open spec fn view(&self) -> HunkLineView {
        HunkLineView {
            kind: self.kind,
            content: self.content@,
            old_lnum: self.old_lnum,
            new_lnum: self.new_lnum,
            missing_newline: self.missing_newline,
        }
    }
}

/// One `@@ ... @@` hunk of a file's diff. `header` holds the verbatim header bytes (trailing
/// `\n` included).
#[derive(Debug, Clone, PartialEq, Eq)]
pub struct Hunk {
    pub old_start: u32,
    pub old_count: u32,
    pub new_start: u32,
    pub new_count: u32,
    pub header: Vec<u8>,
    pub lines: Vec<HunkLine>,
}

/// The mathematical value of a [`Hunk`].
pub struct HunkView {
    pub old_start: u32,
    pub old_count: u32,
    pub new_start: u32,
    pub new_count: u32,
    pub header: Seq<u8>,
    pub lines: Seq<HunkLineView>,
}

impl View for Hunk {
    type V = HunkView;

    open spec fn view(&self) -> HunkView {
        HunkView {
            old_start: self.old_start,
            old_count: self.old_count,
            new_start: self.new_start,
            new_count: self.new_count,
            header: self.header@,
            lines: self.lines@.map_values(|l: HunkLine| l@),
        }
    }
}

/// One changed path: where it lives now (`path`) and before a rename/copy (`old_path`), its
/// status, whether it is binary, its raw octal modes, and its hunks (none for a binary file).
#[derive(Debug, Clone, PartialEq, Eq)]
pub struct FileChange {
    pub path: String,
    pub old_path: Option<String>,
    pub status: FileStatus,
    pub is_binary: bool,
    pub old_mode: i32,
    pub new_mode: i32,
    pub hunks: Vec<Hunk>,
}

/// The mathematical value of a [`FileChange`].
pub struct FileChangeView {
    pub path: Seq<char>,
    pub old_path: Option<Seq<char>>,
    pub status: FileStatus,
    pub is_binary: bool,
    pub old_mode: i32,
    pub new_mode: i32,
    pub hunks: Seq<HunkView>,
}

impl View for FileChange {
    type V = FileChangeView;

    open spec fn view(&self) -> FileChangeView {
        FileChangeView {
            path: self.path@,
            old_path: self.old_path.deep_view(),
            status: self.status,
            is_binary: self.is_binary,
            old_mode: self.old_mode,
            new_mode: self.new_mode,
            hunks: self.hunks@.map_values(|h: Hunk| h@),
        }
    }
}

/// The one-byte origin prefix unified diff puts before a line of each kind.
pub open spec fn origin_byte(kind: LineKind) -> u8 {
    match kind {
        LineKind::Context => 32u8,
        LineKind::Addition => 43u8,
        LineKind::Deletion => 45u8,
    }
}

/// The unified-diff bytes of one line: origin prefix, content, and the
/// `\ No newline at end of file` marker when the line has no trailing newline.
pub open spec fn line_bytes(kind: LineKind, content: Seq<u8>, missing_newline: bool) -> Seq<u8> {
    seq![origin_byte(kind)] + content + if missing_newline {
        no_newline_marker()
    } else {
        Seq::<u8>::empty()
    }
}

/// The unified-diff bytes of a run of model lines, in order.
pub open spec fn model_lines_bytes(lines: Seq<HunkLineView>) -> Seq<u8>
    decreases lines.len(),
{
    if lines.len() == 0 {
        Seq::<u8>::empty()
    } else {
        model_lines_bytes(lines.drop_last()) + line_bytes(
            lines.last().kind,
            lines.last().content,
            lines.last().missing_newline,
        )
    }
}

/// The full unified-diff bytes of a hunk: its verbatim header, then every line.
pub open spec fn hunk_diff_bytes(h: HunkView) -> Seq<u8> {
    h.header + model_lines_bytes(h.lines)
}

/// The origin prefix byte of a line kind.
pub fn origin_of(kind: LineKind) -> (b: u8)
    ensures
        b == origin_byte(kind),
{
    match kind {
        LineKind::Context => 32u8,
        LineKind::Addition => 43u8,
        LineKind::Deletion => 45u8,
    }
}

impl Hunk {
    /// Render this hunk as unified-diff bytes: the header, then each line's origin-prefixed
    /// content, with the `\ No newline at end of file` marker after a line that lacks one.
    pub fn to_diff_bytes(&self) -> (out: Vec<u8>)
        ensures
            out@ == hunk_diff_bytes(self@),
    {
        let mut out: Vec<u8> = Vec::new();
        extend_bytes(&mut out, self.header.as_slice());
        let n = self.lines.len();
        let ghost lines = self@.lines;
        let mut i: usize = 0;
        while i < n
            invariant
                n == self.lines@.len(),
                lines == self@.lines,
                lines.len() == n,
                i <= n,
                out@ == self.header@ + model_lines_bytes(lines.take(i as int)),
            decreases n - i,
        {
            let line = &self.lines[i];
            let ghost before = out@;
            out.push(origin_of(line.kind));
            extend_bytes(&mut out, line.content.as_slice());
            if line.missing_newline {
                push_no_newline_marker(&mut out);
            }
            proof {
                assert(lines[i as int] == line@);
                assert(lines.take(i + 1).drop_last() =~= lines.take(i as int));
                assert(out@ =~= before + line_bytes(line.kind, line.content@, line.missing_newline));
            }
            i = i + 1;
        }
        proof {
            assert(lines.take(n as int) =~= lines);
        }
        out
    }
}

} // verus!
