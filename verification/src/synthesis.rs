//! Synthesizing invertible patch text from the diff model.
//!
//! A patch stays structured ([`PatchText`]) rather than opaque bytes, so that reversing it
//! ([`PatchText::invert`]) is a pure transform and rendering ([`PatchText::to_bytes`]) is a
//! separate, exactly specified step. Whole hunks are synthesized by [`whole_hunk_patch`] and
//! line-precise selections by [`partial_hunk_patch`].
use vstd::prelude::*;

use crate::bytes::{
    decimal_bytes, extend_bytes, extend_str, octal6_bytes, push_decimal, push_no_newline_marker,
    push_octal6, utf8_of,
};
use crate::error::SynthesisError;
use crate::model::{
    line_bytes, origin_of, FileChange, FileChangeView, FileStatus, Hunk, HunkLineView,
    LineKind,
};
use std::collections::BTreeSet;

verus! {

/// Which side of a patch is the "before" image; the line-selection drop rules key off it.
#[derive(Debug, Clone, Copy, PartialEq, Eq, Structural)]
pub enum PatchBase {
    Old,
    New,
}

/// One line of a synthesized patch.
#[derive(Debug, Clone, PartialEq, Eq)]
pub struct PatchLine {
    pub kind: LineKind,
    pub content: Vec<u8>,
    pub missing_newline: bool,
}

/// The mathematical value of a [`PatchLine`].
pub struct PatchLineView {
    pub kind: LineKind,
    pub content: Seq<u8>,
    pub missing_newline: bool,
}

impl View for PatchLine {
    type V = PatchLineView;

    open spec fn view(&self) -> PatchLineView {
        PatchLineView {
            kind: self.kind,
            content: self.content@,
            missing_newline: self.missing_newline,
        }
    }
}

/// One `@@ ... @@` hunk of a [`PatchText`]; `header` holds the header bytes (trailing `\n`
/// included).
#[derive(Debug, Clone, PartialEq, Eq)]
pub struct PatchHunk {
    pub old_start: u32,
    pub old_count: u32,
    pub new_start: u32,
    pub new_count: u32,
    pub header: Vec<u8>,
    pub lines: Vec<PatchLine>,
}

/// The mathematical value of a [`PatchHunk`].
pub struct PatchHunkView {
    pub old_start: u32,
    pub old_count: u32,
    pub new_start: u32,
    pub new_count: u32,
    pub header: Seq<u8>,
    pub lines: Seq<PatchLineView>,
}

impl View for PatchHunk {
    type V = PatchHunkView;

    open spec fn view(&self) -> PatchHunkView {
        PatchHunkView {
            old_start: self.old_start,
            old_count: self.old_count,
            new_start: self.new_start,
            new_count: self.new_count,
            header: self.header@,
            lines: self.lines@.map_values(|l: PatchLine| l@),
        }
    }
}

/// A structured, invertible patch for one file. A `None` path is a `/dev/null` side (a whole
/// file created or deleted). Modes are raw octal file modes.
#[derive(Debug, Clone, PartialEq, Eq)]
pub struct PatchText {
    pub old_path: Option<String>,
    pub new_path: Option<String>,
    pub old_mode: i32,
    pub new_mode: i32,
    pub hunks: Vec<PatchHunk>,
}

/// The mathematical value of a [`PatchText`].
pub struct PatchTextView {
    pub old_path: Option<Seq<char>>,
    pub new_path: Option<Seq<char>>,
    pub old_mode: i32,
    pub new_mode: i32,
    pub hunks: Seq<PatchHunkView>,
}

impl View for PatchText {
    type V = PatchTextView;

    open spec fn view(&self) -> PatchTextView {
        PatchTextView {
            old_path: self.old_path.deep_view(),
            new_path: self.new_path.deep_view(),
            old_mode: self.old_mode,
            new_mode: self.new_mode,
            hunks: self.hunks@.map_values(|h: PatchHunk| h@),
        }
    }
}

// ---------------------------------------------------------------------------------------------
// Rendering
// ---------------------------------------------------------------------------------------------

/// The unified-diff bytes of a run of patch lines, in order.
pub open spec fn patch_lines_bytes(lines: Seq<PatchLineView>) -> Seq<u8>
    decreases lines.len(),
{
    if lines.len() == 0 {
        Seq::<u8>::empty()
    } else {
        patch_lines_bytes(lines.drop_last()) + line_bytes(
            lines.last().kind,
            lines.last().content,
            lines.last().missing_newline,
        )
    }
}

/// The bytes of one patch hunk: its header, then every line.
pub open spec fn patch_hunk_bytes(h: PatchHunkView) -> Seq<u8> {
    h.header + patch_lines_bytes(h.lines)
}

/// The bytes of a run of hunks, in order.
pub open spec fn patch_hunks_bytes(hunks: Seq<PatchHunkView>) -> Seq<u8>
    decreases hunks.len(),
{
    if hunks.len() == 0 {
        Seq::<u8>::empty()
    } else {
        patch_hunks_bytes(hunks.drop_last()) + patch_hunk_bytes(hunks.last())
    }
}

/// The first of two optional paths that is present, else the empty path.
pub open spec fn first_path(a: Option<Seq<char>>, b: Option<Seq<char>>) -> Seq<char> {
    match a {
        Some(p) => p,
        None => match b {
            Some(p) => p,
            None => Seq::<char>::empty(),
        },
    }
}

/// The `---`/`+++` label of one side: `a/<path>` (or `b/<path>`), or `/dev/null` when absent.
pub open spec fn side_label(prefix: Seq<char>, path: Option<Seq<char>>) -> Seq<u8> {
    match path {
        Some(p) => utf8_of(prefix) + utf8_of(p),
        None => utf8_of("/dev/null"@),
    }
}

/// The mode/index lines of a patch's file header: `new file mode` for a creation, `deleted
/// file mode` for a deletion (each followed by a bare index line), else an index line carrying
/// the post-image mode.
pub open spec fn mode_lines(p: PatchTextView) -> Seq<u8> {
    if p.old_path is None && p.new_path is Some {
        utf8_of("new file mode "@) + octal6_bytes((p.new_mode as u32) as nat) + utf8_of("\n"@)
            + utf8_of("index 0000000..0000000\n"@)
    } else if p.old_path is Some && p.new_path is None {
        utf8_of("deleted file mode "@) + octal6_bytes((p.old_mode as u32) as nat) + utf8_of(
            "\n"@,
        ) + utf8_of("index 0000000..0000000\n"@)
    } else {
        utf8_of("index 0000000..0000000 "@) + octal6_bytes((p.new_mode as u32) as nat) + utf8_of(
            "\n"@,
        )
    }
}

/// The file header of a rendered patch: `diff --git`, the mode/index lines, `---` and `+++`.
pub open spec fn file_header_bytes(p: PatchTextView) -> Seq<u8> {
    utf8_of("diff --git a/"@) + utf8_of(first_path(p.old_path, p.new_path)) + utf8_of(" b/"@)
        + utf8_of(first_path(p.new_path, p.old_path)) + utf8_of("\n"@) + mode_lines(p) + utf8_of(
        "--- "@,
    ) + side_label("a/"@, p.old_path) + utf8_of("\n"@) + utf8_of("+++ "@) + side_label(
        "b/"@,
        p.new_path,
    ) + utf8_of("\n"@)
}

/// The full rendering of a patch: file header, then every hunk.
pub open spec fn patch_bytes(p: PatchTextView) -> Seq<u8> {
    file_header_bytes(p) + patch_hunks_bytes(p.hunks)
}

// ---------------------------------------------------------------------------------------------
// Hunk headers and inversion
// ---------------------------------------------------------------------------------------------

/// The canonical hunk header `@@ -os,oc +ns,nc @@` (without any suffix).
pub open spec fn canonical_header(os: u32, oc: u32, ns: u32, nc: u32) -> Seq<u8> {
    seq![64u8, 64u8, 32u8, 45u8] + decimal_bytes(os as nat) + seq![44u8] + decimal_bytes(
        oc as nat,
    ) + seq![32u8, 43u8] + decimal_bytes(ns as nat) + seq![44u8] + decimal_bytes(nc as nat)
        + seq![32u8, 64u8, 64u8]
}

/// The first position at or after `from` where two `@` bytes start.
pub open spec fn find_at_pair(h: Seq<u8>, from: int) -> Option<int>
    decreases h.len() - from,
{
    if from < 0 || from + 1 >= h.len() {
        None
    } else if h[from] == 64u8 && h[from + 1] == 64u8 {
        Some(from)
    } else {
        find_at_pair(h, from + 1)
    }
}

/// Everything after the second `@@` of a hunk header (e.g. ` fn foo() {\n`, or `\n`); a
/// header without two `@@` markers yields `\n`.
pub open spec fn header_suffix_of(h: Seq<u8>) -> Seq<u8> {
    match find_at_pair(h, 0) {
        Some(first) => match find_at_pair(h, first + 2) {
            Some(second) => h.subrange(second + 2, h.len() as int),
            None => seq![10u8],
        },
        None => seq![10u8],
    }
}

/// Addition and deletion trade places; context stays context.
pub open spec fn flip_kind(k: LineKind) -> LineKind {
    match k {
        LineKind::Addition => LineKind::Deletion,
        LineKind::Deletion => LineKind::Addition,
        LineKind::Context => LineKind::Context,
    }
}

/// A patch line with its kind flipped; content and the missing-newline flag travel with it.
pub open spec fn invert_line(l: PatchLineView) -> PatchLineView {
    PatchLineView { kind: flip_kind(l.kind), content: l.content, missing_newline: l.missing_newline }
}

/// A hunk with old and new sides swapped: starts and counts trade places, lines flip, and the
/// header is rebuilt around the swapped numbers keeping the original header's suffix.
pub open spec fn invert_hunk(h: PatchHunkView) -> PatchHunkView {
    PatchHunkView {
        old_start: h.new_start,
        old_count: h.new_count,
        new_start: h.old_start,
        new_count: h.old_count,
        header: canonical_header(h.new_start, h.new_count, h.old_start, h.old_count)
            + header_suffix_of(h.header),
        lines: h.lines.map_values(|l: PatchLineView| invert_line(l)),
    }
}

/// A patch with its two sides swapped: paths and modes trade places and every hunk inverts.
pub open spec fn invert_patch(p: PatchTextView) -> PatchTextView {
    PatchTextView {
        old_path: p.new_path,
        new_path: p.old_path,
        old_mode: p.new_mode,
        new_mode: p.old_mode,
        hunks: p.hunks.map_values(|h: PatchHunkView| invert_hunk(h)),
    }
}

/// A hunk whose header is the canonical header of its own numbers followed by its suffix.
pub open spec fn has_canonical_header(h: PatchHunkView) -> bool {
    h.header == canonical_header(h.old_start, h.old_count, h.new_start, h.new_count)
        + header_suffix_of(h.header)
}

/// Every hunk of the patch has a canonical header.
pub open spec fn has_canonical_headers(p: PatchTextView) -> bool {
    forall|i: int| 0 <= i < p.hunks.len() ==> #[trigger] has_canonical_header(p.hunks[i])
}

// ---------------------------------------------------------------------------------------------
// Lemmas
// ---------------------------------------------------------------------------------------------

proof fn lemma_decimal_digits(n: nat)
    ensures
        decimal_bytes(n).len() >= 1,
        forall|i: int| 0 <= i < decimal_bytes(n).len() ==> 48 <= #[trigger] decimal_bytes(n)[i] <= 57,
    decreases n,
{
    if n >= 10 {
        lemma_decimal_digits(n / 10);
    }
}

proof fn lemma_find_pair_skips(h: Seq<u8>, from: int, at: int)
    requires
        0 <= from <= at,
        at + 1 < h.len(),
        h[at] == 64u8,
        h[at + 1] == 64u8,
        forall|j: int| from <= j < at ==> h[j] != 64u8,
    ensures
        find_at_pair(h, from) == Some(at),
    decreases at - from,
{
    if from < at {
        lemma_find_pair_skips(h, from + 1, at);
    }
}

/// The suffix of a canonical header followed by `s` is `s` again.
proof fn lemma_suffix_of_canonical(os: u32, oc: u32, ns: u32, nc: u32, s: Seq<u8>)
    ensures
        header_suffix_of(canonical_header(os, oc, ns, nc) + s) == s,
{
    let c = canonical_header(os, oc, ns, nc);
    let h = c + s;
    lemma_decimal_digits(os as nat);
    lemma_decimal_digits(oc as nat);
    lemma_decimal_digits(ns as nat);
    lemma_decimal_digits(nc as nat);
    let d1 = decimal_bytes(os as nat);
    let d2 = decimal_bytes(oc as nat);
    let d3 = decimal_bytes(ns as nat);
    let d4 = decimal_bytes(nc as nat);
    let at = c.len() - 2;
    assert(h[0] == 64u8 && h[1] == 64u8);
    lemma_find_pair_skips(h, 0, 0);
    assert forall|j: int| 2 <= j < at implies h[j] != 64u8 by {
        let a = 4 + d1.len();
        let b = a + 1 + d2.len();
        let cc = b + 2 + d3.len();
        let d = cc + 1 + d4.len();
        if j < 4 {
        } else if j < a {
            assert(h[j] == d1[j - 4]);
        } else if j < a + 1 {
        } else if j < b {
            assert(h[j] == d2[j - a - 1]);
        } else if j < b + 2 {
        } else if j < cc {
            assert(h[j] == d3[j - b - 2]);
        } else if j < cc + 1 {
        } else if j < d {
            assert(h[j] == d4[j - cc - 1]);
        }
    }
    assert(h[at] == 64u8 && h[at + 1] == 64u8);
    lemma_find_pair_skips(h, 2, at);
    assert(h.subrange(at + 2, h.len() as int) =~= s);
}

/// Inverting a hunk twice gives back a hunk with a canonical header.
pub proof fn lemma_invert_hunk_twice(h: PatchHunkView)
    requires
        has_canonical_header(h),
    ensures
        invert_hunk(invert_hunk(h)) == h,
{
    lemma_suffix_of_canonical(h.new_start, h.new_count, h.old_start, h.old_count, header_suffix_of(h.header));
    let once = invert_hunk(h);
    let twice = invert_hunk(once);
    assert(twice.lines =~= h.lines);
    assert(twice.header =~= h.header);
}

/// Inverting a patch twice gives back the same patch, for every patch whose hunk headers are
/// canonical (the shape the synthesizer produces; see [`lemma_partial_patch_invert_twice`]).
pub proof fn lemma_invert_twice(p: PatchTextView)
    requires
        has_canonical_headers(p),
    ensures
        invert_patch(invert_patch(p)) == p,
{
    let twice = invert_patch(invert_patch(p));
    assert forall|i: int| 0 <= i < p.hunks.len() implies twice.hunks[i] == p.hunks[i] by {
        assert(has_canonical_header(p.hunks[i]));
        lemma_invert_hunk_twice(p.hunks[i]);
    }
    assert(twice.hunks =~= p.hunks);
}

/// Flipping every line trades the old-side count for the new-side count.
proof fn lemma_flipped_counts(ls: Seq<PatchLineView>)
    ensures
        count_old(ls.map_values(|l: PatchLineView| invert_line(l))) == count_new(ls),
        count_new(ls.map_values(|l: PatchLineView| invert_line(l))) == count_old(ls),
    decreases ls.len(),
{
    if ls.len() > 0 {
        lemma_flipped_counts(ls.drop_last());
        assert(ls.map_values(|l: PatchLineView| invert_line(l)).drop_last() =~= ls.drop_last().map_values(
            |l: PatchLineView| invert_line(l),
        ));
    }
}

/// A hunk that declares the counts of its own body still does once inverted: the inverted
/// hunk's old count is the number of its old-side lines (the source's new-side lines) and its
/// new count the number of its new-side lines, and its header carries those numbers.
pub proof fn lemma_inverted_counts_match_body(h: PatchHunkView)
    requires
        h.old_count == count_old(h.lines),
        h.new_count == count_new(h.lines),
    ensures
        invert_hunk(h).old_count == count_old(invert_hunk(h).lines),
        invert_hunk(h).new_count == count_new(invert_hunk(h).lines),
        invert_hunk(h).old_count == h.new_count,
        invert_hunk(h).new_count == h.old_count,
        has_canonical_header(invert_hunk(h)),
{
    lemma_flipped_counts(h.lines);
    lemma_suffix_of_canonical(h.new_start, h.new_count, h.old_start, h.old_count, header_suffix_of(h.header));
}

/// Every hunk of an inverted patch declares the counts of its own body when the patch's hunks
/// did.
pub proof fn lemma_inverted_patch_counts_match_bodies(p: PatchTextView)
    requires
        forall|i: int|
            0 <= i < p.hunks.len() ==> (#[trigger] p.hunks[i]).old_count == count_old(p.hunks[i].lines)
                && p.hunks[i].new_count == count_new(p.hunks[i].lines),
    ensures
        ({
            let q = invert_patch(p);
            forall|i: int|
                0 <= i < q.hunks.len() ==> (#[trigger] q.hunks[i]).old_count == count_old(q.hunks[i].lines)
                    && q.hunks[i].new_count == count_new(q.hunks[i].lines)
        }),
{
    let q = invert_patch(p);
    assert forall|i: int| 0 <= i < q.hunks.len() implies (#[trigger] q.hunks[i]).old_count == count_old(
        q.hunks[i].lines,
    ) && q.hunks[i].new_count == count_new(q.hunks[i].lines) by {
        lemma_inverted_counts_match_body(p.hunks[i]);
    }
}

/// Inverting a hunk keeps its header canonical.
pub proof fn lemma_invert_keeps_canonical(p: PatchTextView)
    ensures
        has_canonical_headers(invert_patch(p)),
{
    let q = invert_patch(p);
    assert forall|i: int| 0 <= i < q.hunks.len() implies #[trigger] has_canonical_header(q.hunks[i]) by {
        let h = p.hunks[i];
        lemma_suffix_of_canonical(h.new_start, h.new_count, h.old_start, h.old_count, header_suffix_of(h.header));
    }
}

// ---------------------------------------------------------------------------------------------
// Executable rendering and inversion
// ---------------------------------------------------------------------------------------------

fn copy_bytes(v: &Vec<u8>) -> (r: Vec<u8>)
    ensures
        r@ == v@,
{
    let mut r: Vec<u8> = Vec::new();
    extend_bytes(&mut r, v.as_slice());
    r
}

fn copy_path(p: &Option<String>) -> (r: Option<String>)
    ensures
        r.deep_view() == p.deep_view(),
{
    match p {
        Some(s) => Some(s.clone()),
        None => None,
    }
}

/// Append `canonical_header(os, oc, ns, nc)`.
fn push_canonical_header(out: &mut Vec<u8>, os: u32, oc: u32, ns: u32, nc: u32)
    ensures
        final(out)@ == old(out)@ + canonical_header(os, oc, ns, nc),
{
    out.push(64u8);
    out.push(64u8);
    out.push(32u8);
    out.push(45u8);
    push_decimal(out, os);
    out.push(44u8);
    push_decimal(out, oc);
    out.push(32u8);
    out.push(43u8);
    push_decimal(out, ns);
    out.push(44u8);
    push_decimal(out, nc);
    out.push(32u8);
    out.push(64u8);
    out.push(64u8);
    proof {
        assert(out@ =~= old(out)@ + canonical_header(os, oc, ns, nc));
    }
}

fn find_at_pair_from(h: &[u8], from: usize) -> (r: Option<usize>)
    requires
        from <= h@.len(),
    ensures
        r matches Some(i) ==> i + 1 < h@.len() && find_at_pair(h@, from as int) == Some(i as int),
        r is None ==> find_at_pair(h@, from as int) is None,
{
    let n = h.len();
    let mut i = from;
    while n > 0 && i < n - 1
        invariant
            n == h@.len(),
            from <= i <= n,
            find_at_pair(h@, from as int) == find_at_pair(h@, i as int),
        decreases n - i,
    {
        if h[i] == 64u8 && h[i + 1] == 64u8 {
            return Some(i);
        }
        i = i + 1;
    }
    None
}

/// Everything after the second `@@` in a hunk header, e.g. `" fn foo() {\n"` or just `"\n"`.
fn header_suffix(header: &[u8]) -> (r: Vec<u8>)
    ensures
        r@ == header_suffix_of(header@),
{
    let n = header.len();
    if let Some(first) = find_at_pair_from(header, 0) {
        if let Some(second) = find_at_pair_from(header, first + 2) {
            let mut out: Vec<u8> = Vec::new();
            let mut i = second + 2;
            while i < n
                invariant
                    n == header@.len(),
                    second + 2 <= i <= n,
                    out@ == header@.subrange(second + 2, i as int),
                decreases n - i,
            {
                out.push(header[i]);
                proof {
                    assert(header@.subrange(second + 2, i + 1) =~= header@.subrange(
                        second + 2,
                        i as int,
                    ).push(header@[i as int]));
                }
                i = i + 1;
            }
            return out;
        }
    }
    let mut out: Vec<u8> = Vec::new();
    out.push(10u8);
    proof {
        assert(out@ =~= seq![10u8]);
    }
    out
}

fn flip(k: LineKind) -> (r: LineKind)
    ensures
        r == flip_kind(k),
{
    match k {
        LineKind::Addition => LineKind::Deletion,
        LineKind::Deletion => LineKind::Addition,
        LineKind::Context => LineKind::Context,
    }
}

impl PatchHunk {
    /// Render this hunk's bytes: the header, then each line's origin-prefixed content, with the
    /// `\ No newline at end of file` marker after a line that lacks a trailing newline.
    fn to_bytes(&self) -> (out: Vec<u8>)
        ensures
            out@ == patch_hunk_bytes(self@),
    {
        let mut out = copy_bytes(&self.header);
        let n = self.lines.len();
        let ghost lines = self@.lines;
        let mut i: usize = 0;
        while i < n
            invariant
                n == self.lines@.len(),
                lines == self@.lines,
                lines.len() == n,
                i <= n,
                out@ == self.header@ + patch_lines_bytes(lines.take(i as int)),
            decreases n - i,
        {
            let line = &self.lines[i];
            let ghost before = out@;
            out.push(origin_of(line.kind));
            extend_bytes(&mut out, line.content.as_slice());
            if line.missing_newline {
                push_no_newline_marker(&mut out);
            }
            proof {
                assert(lines[i as int] == line@);
                assert(lines.take(i + 1).drop_last() =~= lines.take(i as int));
                assert(out@ =~= before + line_bytes(line.kind, line.content@, line.missing_newline));
            }
            i = i + 1;
        }
        proof {
            assert(lines.take(n as int) =~= lines);
        }
        out
    }

    /// Swap old/new starts and counts, flip additions and deletions (context stays), and
    /// rebuild the header around the swapped numbers, keeping whatever followed the second `@@`.
    fn invert(&self) -> (r: PatchHunk)
        ensures
            r@ == invert_hunk(self@),
    {
        let suffix = header_suffix(self.header.as_slice());
        let mut header: Vec<u8> = Vec::new();
        push_canonical_header(&mut header, self.new_start, self.new_count, self.old_start, self.old_count);
        extend_bytes(&mut header, suffix.as_slice());

        let n = self.lines.len();
        let ghost src = self@.lines;
        let mut lines: Vec<PatchLine> = Vec::new();
        let mut i: usize = 0;
        while i < n
            invariant
                n == self.lines@.len(),
                src == self@.lines,
                src.len() == n,
                i <= n,
                lines@.len() == i,
                forall|k: int| 0 <= k < i ==> #[trigger] lines@[k]@ == invert_line(src[k]),
            decreases n - i,
        {
            let line = &self.lines[i];
            lines.push(
                PatchLine {
                    kind: flip(line.kind),
                    content: copy_bytes(&line.content),
                    missing_newline: line.missing_newline,
                },
            );
            proof {
                assert(src[i as int] == line@);
            }
            i = i + 1;
        }
        let r = PatchHunk {
            old_start: self.new_start,
            old_count: self.new_count,
            new_start: self.old_start,
            new_count: self.old_count,
            header,
            lines,
        };
        proof {
            assert(r@.lines =~= src.map_values(|l: PatchLineView| invert_line(l)));
            assert(r@.header =~= invert_hunk(self@).header);
        }
        r
    }
}

impl PatchText {
    /// Render the full patch: a `diff --git` line, the mode/index lines (a `new file mode` or
    /// `deleted file mode` line for a one-sided patch, else an index line carrying the
    /// post-image mode), the `---`/`+++` labels, then each hunk's bytes.
    pub fn to_bytes(&self) -> (out: Vec<u8>)
        ensures
            out@ == patch_bytes(self@),
    {
        let mut out: Vec<u8> = Vec::new();
        let diff_git_old: &str = match &self.old_path {
            Some(p) => p.as_str(),
            None => match &self.new_path {
                Some(p) => p.as_str(),
                None => "",
            },
        };
        let diff_git_new: &str = match &self.new_path {
            Some(p) => p.as_str(),
            None => match &self.old_path {
                Some(p) => p.as_str(),
                None => "",
            },
        };
        proof {
            assert(""@ =~= Seq::<char>::empty()) by {
                reveal_strlit("");
            }
        }
        extend_str(&mut out, "diff --git a/");
        extend_str(&mut out, diff_git_old);
        extend_str(&mut out, " b/");
        extend_str(&mut out, diff_git_new);
        extend_str(&mut out, "\n");
        let ghost after_diff_git = out@;
        match (&self.old_path, &self.new_path) {
            (None, Some(_)) => {
                extend_str(&mut out, "new file mode ");
                push_octal6(&mut out, self.new_mode as u32);
                extend_str(&mut out, "\n");
                extend_str(&mut out, "index 0000000..0000000\n");
            },
            (Some(_), None) => {
                extend_str(&mut out, "deleted file mode ");
                push_octal6(&mut out, self.old_mode as u32);
                extend_str(&mut out, "\n");
                extend_str(&mut out, "index 0000000..0000000\n");
            },
            _ => {
                extend_str(&mut out, "index 0000000..0000000 ");
                push_octal6(&mut out, self.new_mode as u32);
                extend_str(&mut out, "\n");
            },
        }
        proof {
            assert(out@ =~= after_diff_git + mode_lines(self@));
        }
        extend_str(&mut out, "--- ");
        match &self.old_path {
            Some(p) => {
                extend_str(&mut out, "a/");
                extend_str(&mut out, p.as_str());
            },
            None => {
                extend_str(&mut out, "/dev/null");
            },
        }
        extend_str(&mut out, "\n");
        extend_str(&mut out, "+++ ");
        match &self.new_path {
            Some(p) => {
                extend_str(&mut out, "b/");
                extend_str(&mut out, p.as_str());
            },
            None => {
                extend_str(&mut out, "/dev/null");
            },
        }
        extend_str(&mut out, "\n");
        proof {
            assert(out@ =~= file_header_bytes(self@));
        }
        let ghost hunks = self@.hunks;
        let n = self.hunks.len();
        let mut i: usize = 0;
        while i < n
            invariant
                n == self.hunks@.len(),
                hunks == self@.hunks,
                hunks.len() == n,
                i <= n,
                out@ == file_header_bytes(self@) + patch_hunks_bytes(hunks.take(i as int)),
            decreases n - i,
        {
            let b = self.hunks[i].to_bytes();
            let ghost before = out@;
            extend_bytes(&mut out, b.as_slice());
            proof {
                assert(hunks[i as int] == self.hunks@[i as int]@);
                assert(hunks.take(i + 1).drop_last() =~= hunks.take(i as int));
                assert(out@ =~= before + patch_hunk_bytes(hunks[i as int]));
            }
            i = i + 1;
        }
        proof {
            assert(hunks.take(n as int) =~= hunks);
        }
        out
    }

    /// Swap old/new paths and modes and invert every hunk. A "reverse apply" is this followed
    /// by a forward apply.
    pub fn invert(&self) -> (r: PatchText)
        ensures
            r@ == invert_patch(self@),
    {
        let ghost src = self@.hunks;
        let n = self.hunks.len();
        let mut hunks: Vec<PatchHunk> = Vec::new();
        let mut i: usize = 0;
        while i < n
            invariant
                n == self.hunks@.len(),
                src == self@.hunks,
                src.len() == n,
                i <= n,
                hunks@.len() == i,
                forall|k: int| 0 <= k < i ==> #[trigger] hunks@[k]@ == invert_hunk(src[k]),
            decreases n - i,
        {
            hunks.push(self.hunks[i].invert());
            proof {
                assert(src[i as int] == self.hunks@[i as int]@);
            }
            i = i + 1;
        }
        let r = PatchText {
            old_path: copy_path(&self.new_path),
            new_path: copy_path(&self.old_path),
            old_mode: self.new_mode,
            new_mode: self.old_mode,
            hunks,
        };
        proof {
            assert(r@.hunks =~= src.map_values(|h: PatchHunkView| invert_hunk(h)));
        }
        r
    }
}


// ---------------------------------------------------------------------------------------------
// Which hunks can be synthesized
// ---------------------------------------------------------------------------------------------

/// The statuses a hunk patch can express: two-sided changes (modified, renamed, copied) and
/// one-sided creations (untracked, added).
pub open spec fn hunk_patchable(s: FileStatus) -> bool {
    s == FileStatus::Modified || s == FileStatus::Renamed || s == FileStatus::Copied || s
        == FileStatus::Untracked || s == FileStatus::Added
}

/// Statuses with no HEAD/index pre-image.
pub open spec fn one_sided(s: FileStatus) -> bool {
    s == FileStatus::Untracked || s == FileStatus::Added
}

/// A request passes the synthesis guard: a text file, a patchable status, an existing hunk.
pub open spec fn synthesizable(f: FileChangeView, hunk_idx: int) -> bool {
    !f.is_binary && hunk_patchable(f.status) && 0 <= hunk_idx < f.hunks.len()
}

/// The error the guard reports for a request it refuses: binary first, then status, then range.
pub open spec fn refused_as(f: FileChangeView, hunk_idx: int, e: SynthesisError) -> bool {
    if f.is_binary {
        e matches SynthesisError::BinaryFile { path } && path@ == f.path
    } else if !hunk_patchable(f.status) {
        e matches SynthesisError::LineSelectionUnsupported { path, status } && path@ == f.path
            && status == f.status
    } else {
        e matches SynthesisError::HunkOutOfRange { path, index } && path@ == f.path && index
            == hunk_idx
    }
}

/// The pre-image path label: the old path of a rename or copy, else the path itself.
pub open spec fn old_label(f: FileChangeView) -> Seq<char> {
    match f.old_path {
        Some(p) => p,
        None => f.path,
    }
}

/// A model line copied verbatim into a patch line.
pub open spec fn copied_line(l: HunkLineView) -> PatchLineView {
    PatchLineView { kind: l.kind, content: l.content, missing_newline: l.missing_newline }
}

/// The patch for a whole hunk: both paths set, the hunk's numbers, header and lines verbatim.
pub open spec fn whole_patch(f: FileChangeView, hunk_idx: int) -> PatchTextView {
    let h = f.hunks[hunk_idx];
    PatchTextView {
        old_path: Some(old_label(f)),
        new_path: Some(f.path),
        old_mode: f.old_mode,
        new_mode: f.new_mode,
        hunks: seq![
            PatchHunkView {
                old_start: h.old_start,
                old_count: h.old_count,
                new_start: h.new_start,
                new_count: h.new_count,
                header: h.header,
                lines: h.lines.map_values(|l: HunkLineView| copied_line(l)),
            },
        ],
    }
}

// ---------------------------------------------------------------------------------------------
// Line selections
// ---------------------------------------------------------------------------------------------

/// Which of a hunk's addition/deletion lines to keep in a line-precise patch, by index into
/// the hunk's lines. An index that does not name an addition (in `keep_adds`) or a deletion (in
/// `keep_dels`) of the hunk is ignored.
#[derive(Debug, Clone, Default, PartialEq, Eq)]
pub struct LineSelection {
    pub keep_adds: BTreeSet<usize>,
    pub keep_dels: BTreeSet<usize>,
}

/// Which end-of-file-newline repair an emitted line may need.
#[derive(Debug, Clone, Copy, PartialEq, Eq, Structural)]
pub enum SpliceNeed {
    /// An ordinary context, addition, or kept-addition line.
    Plain,
    /// A dropped deletion turned into context (the `Old` base's drop rule).
    ConvertedContext,
    /// A kept deletion.
    KeptDeletion,
}

/// One emitted line with the repair it may need.
pub struct Emitted {
    pub line: PatchLineView,
    pub need: SpliceNeed,
}

/// A model line re-kinded as a patch line.
pub open spec fn as_kind(l: HunkLineView, kind: LineKind) -> PatchLineView {
    PatchLineView { kind, content: l.content, missing_newline: l.missing_newline }
}

/// Whether the selection keeps line `idx`: a kept addition or a kept deletion.
pub open spec fn keeps_line(l: HunkLineView, idx: int, adds: Set<usize>, dels: Set<usize>) -> bool {
    (l.kind == LineKind::Addition && adds.contains(idx as usize)) || (l.kind
        == LineKind::Deletion && dels.contains(idx as usize))
}

/// Whether the selection keeps any addition or deletion of `lines`.
pub open spec fn keeps_any(lines: Seq<HunkLineView>, adds: Set<usize>, dels: Set<usize>) -> bool {
    exists|i: int| 0 <= i < lines.len() && #[trigger] keeps_line(lines[i], i, adds, dels)
}

/// The direction-dependent drop rules for one line. Context is always context. A kept line is
/// emitted as itself. A dropped addition becomes context under base `New` and is omitted under
/// `Old`; a dropped deletion becomes context under base `Old` and is omitted under `New`.
pub open spec fn emit_line(
    l: HunkLineView,
    idx: int,
    adds: Set<usize>,
    dels: Set<usize>,
    base: PatchBase,
) -> Seq<Emitted> {
    match l.kind {
        LineKind::Context => seq![
            Emitted { line: as_kind(l, LineKind::Context), need: SpliceNeed::Plain },
        ],
        LineKind::Addition => if adds.contains(idx as usize) {
            seq![Emitted { line: as_kind(l, LineKind::Addition), need: SpliceNeed::Plain }]
        } else if base == PatchBase::New {
            seq![Emitted { line: as_kind(l, LineKind::Context), need: SpliceNeed::Plain }]
        } else {
            Seq::<Emitted>::empty()
        },
        LineKind::Deletion => if dels.contains(idx as usize) {
            seq![Emitted { line: as_kind(l, LineKind::Deletion), need: SpliceNeed::KeptDeletion }]
        } else if base == PatchBase::Old {
            seq![
                Emitted { line: as_kind(l, LineKind::Context), need: SpliceNeed::ConvertedContext },
            ]
        } else {
            Seq::<Emitted>::empty()
        },
    }
}

/// The drop rules applied to every line of a hunk, in order.
pub open spec fn emitted(
    lines: Seq<HunkLineView>,
    adds: Set<usize>,
    dels: Set<usize>,
    base: PatchBase,
) -> Seq<Emitted>
    decreases lines.len(),
{
    if lines.len() == 0 {
        Seq::<Emitted>::empty()
    } else {
        emitted(lines.drop_last(), adds, dels, base) + emit_line(
            lines.last(),
            lines.len() - 1,
            adds,
            dels,
            base,
        )
    }
}

/// Some emitted line after position `i` is context.
pub open spec fn context_after(e: Seq<Emitted>, i: int) -> bool {
    exists|j: int| i < j < e.len() && #[trigger] e[j].line.kind == LineKind::Context
}

/// The end-of-file-newline repair of emitted line `i`. A converted-context line without a
/// trailing newline that is not the last line becomes a deletion (unchanged) followed by a
/// re-addition with a real trailing newline; a kept deletion without a trailing newline that
/// has context after it gains a trailing newline in place; every other line stays as it is.
pub open spec fn splice_at(e: Seq<Emitted>, i: int) -> Seq<PatchLineView> {
    let l = e[i].line;
    if e[i].need == SpliceNeed::ConvertedContext && l.missing_newline && i != e.len() - 1 {
        seq![
            PatchLineView { kind: LineKind::Deletion, content: l.content, missing_newline: true },
            PatchLineView {
                kind: LineKind::Addition,
                content: l.content.push(10u8),
                missing_newline: false,
            },
        ]
    } else if e[i].need == SpliceNeed::KeptDeletion && l.missing_newline && context_after(e, i) {
        seq![
            PatchLineView {
                kind: LineKind::Deletion,
                content: l.content.push(10u8),
                missing_newline: false,
            },
        ]
    } else {
        seq![l]
    }
}

/// The repairs applied to the first `n` emitted lines.
pub open spec fn splice_prefix(e: Seq<Emitted>, n: int) -> Seq<PatchLineView>
    decreases n,
{
    if n <= 0 {
        Seq::<PatchLineView>::empty()
    } else {
        splice_prefix(e, n - 1) + splice_at(e, n - 1)
    }
}

/// The repairs applied to every emitted line.
pub open spec fn spliced(e: Seq<Emitted>) -> Seq<PatchLineView> {
    splice_prefix(e, e.len() as int)
}

/// Context and deletions count toward a hunk's old side.
pub open spec fn on_old_side(k: LineKind) -> bool {
    k == LineKind::Context || k == LineKind::Deletion
}

/// Context and additions count toward a hunk's new side.
pub open spec fn on_new_side(k: LineKind) -> bool {
    k == LineKind::Context || k == LineKind::Addition
}

/// How many lines of `ls` sit on the old side.
pub open spec fn count_old(ls: Seq<PatchLineView>) -> nat
    decreases ls.len(),
{
    if ls.len() == 0 {
        0
    } else {
        count_old(ls.drop_last()) + if on_old_side(ls.last().kind) {
            1nat
        } else {
            0nat
        }
    }
}

/// How many lines of `ls` sit on the new side.
pub open spec fn count_new(ls: Seq<PatchLineView>) -> nat
    decreases ls.len(),
{
    if ls.len() == 0 {
        0
    } else {
        count_new(ls.drop_last()) + if on_new_side(ls.last().kind) {
            1nat
        } else {
            0nat
        }
    }
}

/// The line-precise patch for a selection of hunk `hunk_idx`: the drop rules, the
/// end-of-file-newline repairs, counts recomputed from the final lines, and the header rebuilt
/// from them plus the source header's suffix. A one-sided source (untracked/added) has no
/// old path and `old_start` 0 when no old-side line remains, else `old_start` 1.
pub open spec fn partial_patch(
    f: FileChangeView,
    hunk_idx: int,
    adds: Set<usize>,
    dels: Set<usize>,
    base: PatchBase,
) -> PatchTextView {
    let h = f.hunks[hunk_idx];
    let lines = spliced(emitted(h.lines, adds, dels, base));
    let oc = count_old(lines) as u32;
    let nc = count_new(lines) as u32;
    let os: u32 = if one_sided(f.status) {
        if oc == 0 {
            0
        } else {
            1
        }
    } else {
        h.old_start
    };
    PatchTextView {
        old_path: if one_sided(f.status) && oc == 0 {
            None
        } else {
            Some(old_label(f))
        },
        new_path: Some(f.path),
        old_mode: f.old_mode,
        new_mode: f.new_mode,
        hunks: seq![
            PatchHunkView {
                old_start: os,
                old_count: oc,
                new_start: h.new_start,
                new_count: nc,
                header: canonical_header(os, oc, h.new_start, nc) + header_suffix_of(h.header),
                lines,
            },
        ],
    }
}

// ---------------------------------------------------------------------------------------------
// Executable synthesis
// ---------------------------------------------------------------------------------------------

/// The guard shared by [`whole_hunk_patch`] and [`partial_hunk_patch`]: refuse binary files,
/// statuses a hunk patch cannot express (deleted, unmerged), and an out-of-range hunk index;
/// otherwise hand back the hunk and the old/new path labels.
fn selectable_hunk(file: &FileChange, hunk_idx: usize) -> (r: Result<(&Hunk, String, String), SynthesisError>)
    ensures
        synthesizable(file@, hunk_idx as int) ==> (r matches Ok((h, o, n)) && h@ == file@.hunks[hunk_idx as int]
            && o@ == old_label(file@) && n@ == file@.path),
        !synthesizable(file@, hunk_idx as int) ==> (r matches Err(e) && refused_as(
            file@,
            hunk_idx as int,
            e,
        )),
{
    if file.is_binary {
        return Err(SynthesisError::BinaryFile { path: file.path.clone() });
    }
    let st = file.status;
    if !(st == FileStatus::Modified || st == FileStatus::Renamed || st == FileStatus::Copied || st
        == FileStatus::Untracked || st == FileStatus::Added) {
        return Err(SynthesisError::LineSelectionUnsupported { path: file.path.clone(), status: st });
    }
    if hunk_idx >= file.hunks.len() {
        return Err(SynthesisError::HunkOutOfRange { path: file.path.clone(), index: hunk_idx });
    }
    let hunk = &file.hunks[hunk_idx];
    let old_path = match &file.old_path {
        Some(p) => p.clone(),
        None => file.path.clone(),
    };
    let new_path = file.path.clone();
    Ok((hunk, old_path, new_path))
}

/// Synthesize a patch for the WHOLE of `file`'s hunk at `hunk_idx`: no line selection, so the
/// hunk's numbers, header and lines are copied verbatim. Refuses binary files, statuses a hunk
/// patch cannot express, and an out-of-range index.
pub fn whole_hunk_patch(file: &FileChange, hunk_idx: usize) -> (r: Result<PatchText, SynthesisError>)
    ensures
        synthesizable(file@, hunk_idx as int) ==> (r matches Ok(p) && p@ == whole_patch(
            file@,
            hunk_idx as int,
        )),
        !synthesizable(file@, hunk_idx as int) ==> (r matches Err(e) && refused_as(
            file@,
            hunk_idx as int,
            e,
        )),
{
    let (hunk, old_path, new_path) = match selectable_hunk(file, hunk_idx) {
        Ok(t) => t,
        Err(e) => return Err(e),
    };
    let ghost src = hunk@.lines;
    let n = hunk.lines.len();
    let mut lines: Vec<PatchLine> = Vec::new();
    let mut i: usize = 0;
    while i < n
        invariant
            n == hunk.lines@.len(),
            src == hunk@.lines,
            src.len() == n,
            i <= n,
            lines@.len() == i,
            forall|k: int| 0 <= k < i ==> #[trigger] lines@[k]@ == copied_line(src[k]),
        decreases n - i,
    {
        let line = &hunk.lines[i];
        lines.push(
            PatchLine {
                kind: line.kind,
                content: copy_bytes(&line.content),
                missing_newline: line.missing_newline,
            },
        );
        proof {
            assert(src[i as int] == line@);
        }
        i = i + 1;
    }
    let mut hunks: Vec<PatchHunk> = Vec::new();
    hunks.push(
        PatchHunk {
            old_start: hunk.old_start,
            old_count: hunk.old_count,
            new_start: hunk.new_start,
            new_count: hunk.new_count,
            header: copy_bytes(&hunk.header),
            lines,
        },
    );
    let p = PatchText {
        old_path: Some(old_path),
        new_path: Some(new_path),
        old_mode: file.old_mode,
        new_mode: file.new_mode,
        hunks,
    };
    proof {
        assert(p@.hunks[0].lines =~= src.map_values(|l: HunkLineView| copied_line(l)));
        assert(p@.hunks =~= whole_patch(file@, hunk_idx as int).hunks);
    }
    Ok(p)
}

fn set_has(s: &BTreeSet<usize>, k: usize) -> (r: bool)
    ensures
        r == s@.contains(k),
{
    broadcast use vstd::std_specs::btree::group_btree_axioms, vstd::laws_cmp::group_laws_cmp;

    s.contains(&k)
}

/// Emitted lines and their repair needs, side by side, as one sequence.
pub open spec fn zip_emitted(ls: Seq<PatchLineView>, ns: Seq<SpliceNeed>) -> Seq<Emitted> {
    Seq::new(ls.len(), |k: int| Emitted { line: ls[k], need: ns[k] })
}

spec fn line_views(ls: Seq<PatchLine>) -> Seq<PatchLineView> {
    ls.map_values(|l: PatchLine| l@)
}

fn repaired_line(line: &PatchLine, kind: LineKind, add_newline: bool, missing: bool) -> (r: PatchLine)
    ensures
        r@ == (PatchLineView {
            kind,
            content: if add_newline {
                line.content@.push(10u8)
            } else {
                line.content@
            },
            missing_newline: missing,
        }),
{
    let mut content = copy_bytes(&line.content);
    if add_newline {
        content.push(10u8);
    }
    PatchLine { kind, content, missing_newline: missing }
}

/// End-of-file-newline repair: a line without a trailing newline that a later line would be
/// glued onto is rewritten. A dropped deletion turned into context that is not the last line
/// becomes a deletion plus a re-addition that carries a real newline; a kept deletion followed
/// by some context line gains a trailing newline in place.
fn splice_eofnl_context_lines(lines: &Vec<PatchLine>, needs: &Vec<SpliceNeed>) -> (out: Vec<PatchLine>)
    requires
        lines@.len() == needs@.len(),
    ensures
        line_views(out@) == spliced(zip_emitted(line_views(lines@), needs@)),
{
    let ghost e = zip_emitted(line_views(lines@), needs@);
    let n = lines.len();
    // `later[t]` answers "is some line after position n - 1 - t context?".
    let mut later: Vec<bool> = Vec::new();
    let mut seen_context = false;
    let mut k = n;
    while k > 0
        invariant
            n == lines@.len(),
            n == needs@.len(),
            e == zip_emitted(line_views(lines@), needs@),
            e.len() == n,
            k <= n,
            later@.len() == n - k,
            forall|t: int| 0 <= t < n - k ==> #[trigger] later@[t] == context_after(e, n - 1 - t),
            seen_context == exists|j: int| k <= j < n && #[trigger] e[j].line.kind == LineKind::Context,
        decreases k,
    {
        k = k - 1;
        proof {
            assert(context_after(e, k as int) == seen_context) by {
                if seen_context {
                    let j = choose|j: int| (k + 1) as int <= j < n && #[trigger] e[j].line.kind == LineKind::Context;
                    assert(k < j < e.len() && e[j].line.kind == LineKind::Context);
                }
                if context_after(e, k as int) {
                    let j = choose|j: int| k < j < e.len() && #[trigger] e[j].line.kind == LineKind::Context;
                    assert((k + 1) as int <= j < n && e[j].line.kind == LineKind::Context);
                }
            }
        }
        later.push(seen_context);
        if lines[k].kind == LineKind::Context {
            seen_context = true;
        }
        proof {
            assert(e[k as int].line == lines@[k as int]@);
            if lines@[k as int].kind == LineKind::Context {
                assert(e[k as int].line.kind == LineKind::Context);
            }
            if seen_context && lines@[k as int].kind != LineKind::Context {
                let j = choose|j: int| (k + 1) as int <= j < n && #[trigger] e[j].line.kind == LineKind::Context;
                assert(k <= j < n);
            }
        }
    }
    let mut out: Vec<PatchLine> = Vec::new();
    let mut i: usize = 0;
    while i < n
        invariant
            n == lines@.len(),
            n == needs@.len(),
            e == zip_emitted(line_views(lines@), needs@),
            e.len() == n,
            later@.len() == n,
            forall|t: int| 0 <= t < n ==> #[trigger] later@[t] == context_after(e, n - 1 - t),
            i <= n,
            line_views(out@) == splice_prefix(e, i as int),
        decreases n - i,
    {
        let line = &lines[i];
        let need = needs[i];
        let later_context = later[n - 1 - i];
        let ghost before = line_views(out@);
        proof {
            assert(e[i as int].line == line@);
            assert(e[i as int].need == need);
            assert(later_context == context_after(e, i as int));
        }
        if need == SpliceNeed::ConvertedContext && line.missing_newline && i != n - 1 {
            out.push(repaired_line(line, LineKind::Deletion, false, true));
            out.push(repaired_line(line, LineKind::Addition, true, false));
        } else if need == SpliceNeed::KeptDeletion && line.missing_newline && later_context {
            out.push(repaired_line(line, LineKind::Deletion, true, false));
        } else {
            out.push(repaired_line(line, line.kind, false, line.missing_newline));
        }
        proof {
            assert(line_views(out@) =~= before + splice_at(e, i as int));
        }
        i = i + 1;
    }
    out
}

fn old_new_counts(lines: &Vec<PatchLine>) -> (r: (usize, usize))
    ensures
        r.0 as nat == count_old(line_views(lines@)),
        r.1 as nat == count_new(line_views(lines@)),
{
    let ghost ls = line_views(lines@);
    let n = lines.len();
    let mut oc: usize = 0;
    let mut nc: usize = 0;
    let mut i: usize = 0;
    while i < n
        invariant
            n == lines@.len(),
            ls == line_views(lines@),
            ls.len() == n,
            i <= n,
            oc as nat == count_old(ls.take(i as int)),
            nc as nat == count_new(ls.take(i as int)),
            oc <= i,
            nc <= i,
        decreases n - i,
    {
        let k = lines[i].kind;
        proof {
            assert(ls.take(i + 1).drop_last() =~= ls.take(i as int));
            assert(ls[i as int].kind == k);
        }
        if k == LineKind::Context || k == LineKind::Deletion {
            oc = oc + 1;
        }
        if k == LineKind::Context || k == LineKind::Addition {
            nc = nc + 1;
        }
        i = i + 1;
    }
    proof {
        assert(ls.take(n as int) =~= ls);
    }
    (oc, nc)
}

/// Synthesize a patch for a LINE-PRECISE selection of `file`'s hunk at `hunk_idx`.
///
/// Context lines are always context. A kept addition or deletion is emitted as itself. Under
/// `base == Old` (forward apply) a dropped addition is omitted and a dropped deletion becomes
/// context; under `base == New` (reverse apply) a dropped addition becomes context and a
/// dropped deletion is omitted. A line without a trailing newline that a later line would be
/// glued onto is repaired (see [`splice_eofnl_context_lines`]). Counts are recomputed from the
/// final lines and the header is rebuilt from them with the source header's suffix. A one-sided
/// source (untracked/added) keeps no old path and `old_start` 0 when no old-side line remains,
/// else `old_start` 1.
///
/// Refuses what [`whole_hunk_patch`] refuses, and a selection that keeps no addition and no
/// deletion of the hunk (`EmptySelection`).
pub fn partial_hunk_patch(
    file: &FileChange,
    hunk_idx: usize,
    sel: &LineSelection,
    base: PatchBase,
) -> (r: Result<PatchText, SynthesisError>)
    ensures
        !synthesizable(file@, hunk_idx as int) ==> (r matches Err(e) && refused_as(
            file@,
            hunk_idx as int,
            e,
        )),
        synthesizable(file@, hunk_idx as int) && !keeps_any(
            file@.hunks[hunk_idx as int].lines,
            sel.keep_adds@,
            sel.keep_dels@,
        ) ==> (r matches Err(SynthesisError::EmptySelection { path, hunk }) && path@ == file@.path
            && hunk == hunk_idx),
        synthesizable(file@, hunk_idx as int) && keeps_any(
            file@.hunks[hunk_idx as int].lines,
            sel.keep_adds@,
            sel.keep_dels@,
        ) ==> (r matches Ok(p) && p@ == partial_patch(
            file@,
            hunk_idx as int,
            sel.keep_adds@,
            sel.keep_dels@,
            base,
        )),
{
    let (hunk, old_path, new_path) = match selectable_hunk(file, hunk_idx) {
        Ok(t) => t,
        Err(e) => return Err(e),
    };
    let ghost src = hunk@.lines;
    let ghost adds = sel.keep_adds@;
    let ghost dels = sel.keep_dels@;
    let n = hunk.lines.len();
    let mut kept_any = false;
    let mut out_lines: Vec<PatchLine> = Vec::new();
    let mut needs: Vec<SpliceNeed> = Vec::new();
    let mut idx: usize = 0;
    while idx < n
        invariant
            n == hunk.lines@.len(),
            src == hunk@.lines,
            src.len() == n,
            adds == sel.keep_adds@,
            dels == sel.keep_dels@,
            idx <= n,
            out_lines@.len() == needs@.len(),
            zip_emitted(line_views(out_lines@), needs@) == emitted(
                src.take(idx as int),
                adds,
                dels,
                base,
            ),
            kept_any == keeps_any(src.take(idx as int), adds, dels),
        decreases n - idx,
    {
        let line = &hunk.lines[idx];
        let ghost before = zip_emitted(line_views(out_lines@), needs@);
        let ghost was_kept = kept_any;
        proof {
            assert(src[idx as int] == line@);
        }
        match line.kind {
            LineKind::Context => {
                out_lines.push(PatchLine { kind: LineKind::Context, content: copy_bytes(&line.content), missing_newline: line.missing_newline });
                needs.push(SpliceNeed::Plain);
            },
            LineKind::Addition => {
                if set_has(&sel.keep_adds, idx) {
                    kept_any = true;
                    out_lines.push(PatchLine { kind: LineKind::Addition, content: copy_bytes(&line.content), missing_newline: line.missing_newline });
                    needs.push(SpliceNeed::Plain);
                } else if base == PatchBase::New {
                    out_lines.push(PatchLine { kind: LineKind::Context, content: copy_bytes(&line.content), missing_newline: line.missing_newline });
                    needs.push(SpliceNeed::Plain);
                }
            },
            LineKind::Deletion => {
                if set_has(&sel.keep_dels, idx) {
                    kept_any = true;
                    out_lines.push(PatchLine { kind: LineKind::Deletion, content: copy_bytes(&line.content), missing_newline: line.missing_newline });
                    needs.push(SpliceNeed::KeptDeletion);
                } else if base == PatchBase::Old {
                    out_lines.push(PatchLine { kind: LineKind::Context, content: copy_bytes(&line.content), missing_newline: line.missing_newline });
                    needs.push(SpliceNeed::ConvertedContext);
                }
            },
        }
        proof {
            let t0 = src.take(idx as int);
            let t1 = src.take(idx + 1);
            assert(t1.drop_last() =~= t0);
            assert(t1.last() == src[idx as int]);
            assert(zip_emitted(line_views(out_lines@), needs@) =~= before + emit_line(
                src[idx as int],
                idx as int,
                adds,
                dels,
                base,
            ));
            if keeps_line(src[idx as int], idx as int, adds, dels) {
                assert(t1[idx as int] == src[idx as int]);
                assert(keeps_line(t1[idx as int], idx as int, adds, dels));
            }
            if was_kept {
                let j = choose|j: int| 0 <= j < t0.len() && #[trigger] keeps_line(t0[j], j, adds, dels);
                assert(t1[j] == t0[j]);
                assert(keeps_line(t1[j], j, adds, dels));
            }
            if keeps_any(t1, adds, dels) {
                let j = choose|j: int| 0 <= j < t1.len() && #[trigger] keeps_line(t1[j], j, adds, dels);
                if j < idx {
                    assert(t0[j] == t1[j]);
                    assert(keeps_line(t0[j], j, adds, dels));
                }
            }
        }
        idx = idx + 1;
    }
    proof {
        assert(src.take(n as int) =~= src);
    }
    if !kept_any {
        return Err(SynthesisError::EmptySelection { path: file.path.clone(), hunk: hunk_idx });
    }

    let lines = splice_eofnl_context_lines(&out_lines, &needs);
    let (oc, nc) = old_new_counts(&lines);
    let old_count = oc as u32;
    let new_count = nc as u32;
    let one = file.status == FileStatus::Untracked || file.status == FileStatus::Added;
    let old_path = if one && old_count == 0 {
        None
    } else {
        Some(old_path)
    };
    let old_start: u32 = if one {
        if old_count == 0 {
            0
        } else {
            1
        }
    } else {
        hunk.old_start
    };
    let mut header: Vec<u8> = Vec::new();
    push_canonical_header(&mut header, old_start, old_count, hunk.new_start, new_count);
    let suffix = header_suffix(hunk.header.as_slice());
    extend_bytes(&mut header, suffix.as_slice());
    let mut hunks: Vec<PatchHunk> = Vec::new();
    hunks.push(
        PatchHunk {
            old_start,
            old_count,
            new_start: hunk.new_start,
            new_count,
            header,
            lines,
        },
    );
    let p = PatchText {
        old_path,
        new_path: Some(new_path),
        old_mode: file.old_mode,
        new_mode: file.new_mode,
        hunks,
    };
    proof {
        let spec_p = partial_patch(file@, hunk_idx as int, adds, dels, base);
        assert(p@.hunks[0] == spec_p.hunks[0]);
        assert(p@.hunks =~= spec_p.hunks);
    }
    Ok(p)
}


// ---------------------------------------------------------------------------------------------
// Laws of synthesis
// ---------------------------------------------------------------------------------------------

/// A line-precise patch always carries a canonical hunk header, so inverting it twice gives
/// back the same patch.
pub proof fn lemma_partial_patch_invert_twice(
    f: FileChangeView,
    hunk_idx: int,
    adds: Set<usize>,
    dels: Set<usize>,
    base: PatchBase,
)
    requires
        synthesizable(f, hunk_idx),
    ensures
        has_canonical_headers(partial_patch(f, hunk_idx, adds, dels, base)),
        invert_patch(invert_patch(partial_patch(f, hunk_idx, adds, dels, base))) == partial_patch(
            f,
            hunk_idx,
            adds,
            dels,
            base,
        ),
{
    let p = partial_patch(f, hunk_idx, adds, dels, base);
    let h = p.hunks[0];
    lemma_suffix_of_canonical(
        h.old_start,
        h.old_count,
        h.new_start,
        h.new_count,
        header_suffix_of(f.hunks[hunk_idx].header),
    );
    assert(has_canonical_header(p.hunks[0]));
    lemma_invert_twice(p);
}

proof fn lemma_copied_lines_bytes(lines: Seq<HunkLineView>)
    ensures
        patch_lines_bytes(lines.map_values(|l: HunkLineView| copied_line(l)))
            == crate::model::model_lines_bytes(lines),
    decreases lines.len(),
{
    if lines.len() > 0 {
        let m = lines.map_values(|l: HunkLineView| copied_line(l));
        assert(m.drop_last() =~= lines.drop_last().map_values(|l: HunkLineView| copied_line(l)));
        lemma_copied_lines_bytes(lines.drop_last());
    }
}

/// The body of a whole-hunk patch renders to exactly the bytes of the model hunk it was
/// copied from.
pub proof fn lemma_whole_patch_body_is_hunk_bytes(f: FileChangeView, hunk_idx: int)
    requires
        synthesizable(f, hunk_idx),
    ensures
        patch_hunk_bytes(whole_patch(f, hunk_idx).hunks[0]) == crate::model::hunk_diff_bytes(
            f.hunks[hunk_idx],
        ),
{
    lemma_copied_lines_bytes(f.hunks[hunk_idx].lines);
}

/// Two selections agree on a hunk's lines: on every addition they keep the same additions and
/// on every deletion the same deletions.
pub open spec fn same_selection_on(
    lines: Seq<HunkLineView>,
    adds1: Set<usize>,
    dels1: Set<usize>,
    adds2: Set<usize>,
    dels2: Set<usize>,
) -> bool {
    forall|i: int|
        0 <= i < lines.len() ==> {
            &&& (lines[i].kind == LineKind::Addition ==> (adds1.contains(i as usize)
                <==> adds2.contains(i as usize)))
            &&& (lines[i].kind == LineKind::Deletion ==> (dels1.contains(i as usize)
                <==> dels2.contains(i as usize)))
        }
}

proof fn lemma_emitted_same_selection(
    lines: Seq<HunkLineView>,
    adds1: Set<usize>,
    dels1: Set<usize>,
    adds2: Set<usize>,
    dels2: Set<usize>,
    base: PatchBase,
)
    requires
        same_selection_on(lines, adds1, dels1, adds2, dels2),
    ensures
        emitted(lines, adds1, dels1, base) == emitted(lines, adds2, dels2, base),
    decreases lines.len(),
{
    if lines.len() > 0 {
        let init = lines.drop_last();
        assert(same_selection_on(init, adds1, dels1, adds2, dels2)) by {
            assert forall|i: int| 0 <= i < init.len() implies {
                &&& (init[i].kind == LineKind::Addition ==> (adds1.contains(i as usize)
                    <==> adds2.contains(i as usize)))
                &&& (init[i].kind == LineKind::Deletion ==> (dels1.contains(i as usize)
                    <==> dels2.contains(i as usize)))
            } by {
                assert(init[i] == lines[i]);
            }
        }
        lemma_emitted_same_selection(init, adds1, dels1, adds2, dels2, base);
        let k = lines.len() - 1;
        assert(lines.last() == lines[k]);
    }
}

/// Selection indices that name no addition (in the kept additions) or no deletion (in the
/// kept deletions) of the hunk change nothing: two selections that agree on the hunk's
/// additions and deletions synthesize the same patch, and keep something alike.
pub proof fn lemma_partial_ignores_unrelated_indices(
    f: FileChangeView,
    hunk_idx: int,
    adds1: Set<usize>,
    dels1: Set<usize>,
    adds2: Set<usize>,
    dels2: Set<usize>,
    base: PatchBase,
)
    requires
        synthesizable(f, hunk_idx),
        same_selection_on(f.hunks[hunk_idx].lines, adds1, dels1, adds2, dels2),
    ensures
        keeps_any(f.hunks[hunk_idx].lines, adds1, dels1) == keeps_any(
            f.hunks[hunk_idx].lines,
            adds2,
            dels2,
        ),
        partial_patch(f, hunk_idx, adds1, dels1, base) == partial_patch(
            f,
            hunk_idx,
            adds2,
            dels2,
            base,
        ),
{
    let lines = f.hunks[hunk_idx].lines;
    lemma_emitted_same_selection(lines, adds1, dels1, adds2, dels2, base);
    if keeps_any(lines, adds1, dels1) {
        let j = choose|j: int| 0 <= j < lines.len() && #[trigger] keeps_line(lines[j], j, adds1, dels1);
        assert(keeps_line(lines[j], j, adds2, dels2));
    }
    if keeps_any(lines, adds2, dels2) {
        let j = choose|j: int| 0 <= j < lines.len() && #[trigger] keeps_line(lines[j], j, adds2, dels2);
        assert(keeps_line(lines[j], j, adds1, dels1));
    }
}

/// The counts a line-precise patch declares are the counts of its own body (whenever those fit
/// the header's 32-bit fields).
pub proof fn lemma_partial_counts_match_body(
    f: FileChangeView,
    hunk_idx: int,
    adds: Set<usize>,
    dels: Set<usize>,
    base: PatchBase,
)
    requires
        synthesizable(f, hunk_idx),
        count_old(partial_patch(f, hunk_idx, adds, dels, base).hunks[0].lines) <= u32::MAX,
        count_new(partial_patch(f, hunk_idx, adds, dels, base).hunks[0].lines) <= u32::MAX,
    ensures
        ({
            let h = partial_patch(f, hunk_idx, adds, dels, base).hunks[0];
            h.old_count == count_old(h.lines) && h.new_count == count_new(h.lines)
        }),
{
}

/// Every hunk line is an addition.
pub open spec fn all_additions(lines: Seq<HunkLineView>) -> bool {
    forall|i: int| 0 <= i < lines.len() ==> #[trigger] lines[i].kind == LineKind::Addition
}

proof fn lemma_emitted_additions_old(lines: Seq<HunkLineView>, adds: Set<usize>, dels: Set<usize>)
    requires
        all_additions(lines),
    ensures
        forall|k: int|
            0 <= k < emitted(lines, adds, dels, PatchBase::Old).len() ==> {
                &&& (#[trigger] emitted(lines, adds, dels, PatchBase::Old)[k]).line.kind
                    == LineKind::Addition
                &&& emitted(lines, adds, dels, PatchBase::Old)[k].need == SpliceNeed::Plain
            },
    decreases lines.len(),
{
    if lines.len() > 0 {
        let init = lines.drop_last();
        assert(all_additions(init)) by {
            assert forall|i: int| 0 <= i < init.len() implies #[trigger] init[i].kind
                == LineKind::Addition by {
                assert(init[i] == lines[i]);
            }
        }
        lemma_emitted_additions_old(init, adds, dels);
        assert(lines.last() == lines[lines.len() - 1]);
    }
}

proof fn lemma_splice_plain_prefix(e: Seq<Emitted>, n: int)
    requires
        0 <= n <= e.len(),
        forall|k: int| 0 <= k < e.len() ==> (#[trigger] e[k]).need == SpliceNeed::Plain,
    ensures
        splice_prefix(e, n) == e.take(n).map_values(|x: Emitted| x.line),
    decreases n,
{
    if n > 0 {
        lemma_splice_plain_prefix(e, n - 1);
        assert(e.take(n).map_values(|x: Emitted| x.line) =~= e.take(n - 1).map_values(
            |x: Emitted| x.line,
        ).push(e[n - 1].line));
    }
}

proof fn lemma_count_old_additions(ls: Seq<PatchLineView>)
    requires
        forall|k: int| 0 <= k < ls.len() ==> (#[trigger] ls[k]).kind == LineKind::Addition,
    ensures
        count_old(ls) == 0,
    decreases ls.len(),
{
    if ls.len() > 0 {
        let init = ls.drop_last();
        assert forall|k: int| 0 <= k < init.len() implies (#[trigger] init[k]).kind
            == LineKind::Addition by {
            assert(init[k] == ls[k]);
        }
        lemma_count_old_additions(init);
        assert(ls.last() == ls[ls.len() - 1]);
    }
}

/// Staging (base `Old`) a selection of a one-sided source whose hunk is all additions is a pure
/// creation: no old path, `old_start` 0 and `old_count` 0.
pub proof fn lemma_one_sided_stage_is_creation(
    f: FileChangeView,
    hunk_idx: int,
    adds: Set<usize>,
    dels: Set<usize>,
)
    requires
        synthesizable(f, hunk_idx),
        one_sided(f.status),
        all_additions(f.hunks[hunk_idx].lines),
    ensures
        partial_patch(f, hunk_idx, adds, dels, PatchBase::Old).old_path is None,
        partial_patch(f, hunk_idx, adds, dels, PatchBase::Old).hunks[0].old_start == 0,
        partial_patch(f, hunk_idx, adds, dels, PatchBase::Old).hunks[0].old_count == 0,
{
    let e = emitted(f.hunks[hunk_idx].lines, adds, dels, PatchBase::Old);
    lemma_emitted_additions_old(f.hunks[hunk_idx].lines, adds, dels);
    lemma_splice_plain_prefix(e, e.len() as int);
    let ls = spliced(e);
    assert(e.take(e.len() as int) =~= e);
    assert forall|k: int| 0 <= k < ls.len() implies (#[trigger] ls[k]).kind
        == LineKind::Addition by {
        assert(ls[k] == e[k].line);
    }
    lemma_count_old_additions(ls);
}

/// Inverting a creation patch (no old path) renders as a deletion: its mode lines become
/// `deleted file mode` with the creation's mode, followed by the bare index line.
pub proof fn lemma_invert_creation_renders_deletion(p: PatchTextView)
    requires
        p.old_path is None,
        p.new_path is Some,
    ensures
        mode_lines(invert_patch(p)) == utf8_of("deleted file mode "@) + octal6_bytes(
            (p.new_mode as u32) as nat,
        ) + utf8_of("\n"@) + utf8_of("index 0000000..0000000\n"@),
{
}

} // verus!
