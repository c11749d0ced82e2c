//! What staging a selection of a hunk's lines does to each side of the file: the lines the
//! patch's new side holds are the lines that stay once the selection is staged, its old side is
//! the hunk's own old side, and each side ends with or without a newline as those do.
use vstd::prelude::*;

use crate::model::{FileChangeView, HunkLineView, LineKind};
use crate::synthesis::{
    as_kind, context_after, copied_line, emit_line, emitted, on_new_side, on_old_side, partial_patch,
    splice_at, splice_prefix, spliced, Emitted, PatchBase, PatchLineView, SpliceNeed,
};

verus! {

/// Whether kind `k` counts on the new side (`new_side`) or the old side.
pub open spec fn on_side(k: LineKind, new_side: bool) -> bool {
    if new_side {
        on_new_side(k)
    } else {
        on_old_side(k)
    }
}

/// A patch line's text without its line ending.
pub open spec fn line_body(l: PatchLineView) -> Seq<u8> {
    if l.missing_newline {
        l.content
    } else {
        l.content.drop_last()
    }
}

/// The lines one side of `ls` holds, in order, each without its line ending.
pub open spec fn side_texts(ls: Seq<PatchLineView>, new_side: bool) -> Seq<Seq<u8>>
    decreases ls.len(),
{
    if ls.len() == 0 {
        Seq::empty()
    } else {
        side_texts(ls.drop_last(), new_side) + if on_side(ls.last().kind, new_side) {
            seq![line_body(ls.last())]
        } else {
            Seq::empty()
        }
    }
}

/// Whether the last line one side of `ls` holds lacks a trailing newline (no line: no).
pub open spec fn side_ends_open(ls: Seq<PatchLineView>, new_side: bool) -> bool
    decreases ls.len(),
{
    if ls.len() == 0 {
        false
    } else if on_side(ls.last().kind, new_side) {
        ls.last().missing_newline
    } else {
        side_ends_open(ls.drop_last(), new_side)
    }
}

/// One side of two runs of lines joined: the texts join, and the run that holds a line of that
/// side last decides whether the side ends without a newline.
proof fn lemma_sides_of_join(a: Seq<PatchLineView>, b: Seq<PatchLineView>, new_side: bool)
    ensures
        side_texts(a + b, new_side) == side_texts(a, new_side) + side_texts(b, new_side),
        side_ends_open(a + b, new_side) == if side_texts(b, new_side).len() > 0 {
            side_ends_open(b, new_side)
        } else {
            side_ends_open(a, new_side)
        },
    decreases b.len(),
{
    if b.len() == 0 {
        assert(a + b =~= a);
    } else {
        lemma_sides_of_join(a, b.drop_last(), new_side);
        assert((a + b).drop_last() =~= a + b.drop_last());
        assert((a + b).last() == b.last());
    }
}

/// Whether line `idx` of a hunk is in the image once a selection is staged: context always,
/// an addition when it is kept, a deletion when it is not.
pub open spec fn stays_staged(l: HunkLineView, idx: int, adds: Set<usize>, dels: Set<usize>) -> bool {
    l.kind == LineKind::Context || (l.kind == LineKind::Addition && adds.contains(idx as usize)) || (
    l.kind == LineKind::Deletion && !dels.contains(idx as usize))
}

/// The image a hunk's region takes once a selection of it is staged on top of its old side:
/// each line that stays (see [`stays_staged`]), in order, as context.
pub open spec fn staged_image(lines: Seq<HunkLineView>, adds: Set<usize>, dels: Set<usize>) -> Seq<PatchLineView>
    decreases lines.len(),
{
    if lines.len() == 0 {
        Seq::empty()
    } else {
        staged_image(lines.drop_last(), adds, dels) + if stays_staged(lines.last(), lines.len() - 1, adds, dels) {
            seq![as_kind(lines.last(), LineKind::Context)]
        } else {
            Seq::empty()
        }
    }
}

/// A hunk's lines as patch lines.
pub open spec fn copied_lines(lines: Seq<HunkLineView>) -> Seq<PatchLineView> {
    lines.map_values(|l: HunkLineView| copied_line(l))
}

/// The lines of emitted patch lines.
pub open spec fn lines_of(e: Seq<Emitted>) -> Seq<PatchLineView> {
    e.map_values(|x: Emitted| x.line)
}

/// Under the staging drop rules, the emitted lines' new side is the staged image and their old
/// side the hunk's own old side.
proof fn lemma_emitted_sides(lines: Seq<HunkLineView>, adds: Set<usize>, dels: Set<usize>)
    ensures
        side_texts(lines_of(emitted(lines, adds, dels, PatchBase::Old)), true) == side_texts(staged_image(lines, adds, dels), true),
        side_ends_open(lines_of(emitted(lines, adds, dels, PatchBase::Old)), true) == side_ends_open(staged_image(lines, adds, dels), true),
        side_texts(lines_of(emitted(lines, adds, dels, PatchBase::Old)), false) == side_texts(copied_lines(lines), false),
        side_ends_open(lines_of(emitted(lines, adds, dels, PatchBase::Old)), false) == side_ends_open(copied_lines(lines), false),
    decreases lines.len(),
{
    if lines.len() > 0 {
        let init = lines.drop_last();
        let l = lines.last();
        let i = lines.len() - 1;
        lemma_emitted_sides(init, adds, dels);
        let e0 = emitted(init, adds, dels, PatchBase::Old);
        let t = emit_line(l, i, adds, dels, PatchBase::Old);
        assert(lines_of(e0 + t) =~= lines_of(e0) + lines_of(t));
        let img_t: Seq<PatchLineView> = if stays_staged(l, i, adds, dels) {
            seq![as_kind(l, LineKind::Context)]
        } else {
            Seq::empty()
        };
        assert(copied_lines(lines) =~= copied_lines(init) + seq![copied_line(l)]);
        lemma_sides_of_join(lines_of(e0), lines_of(t), true);
        lemma_sides_of_join(lines_of(e0), lines_of(t), false);
        lemma_sides_of_join(staged_image(init, adds, dels), img_t, true);
        lemma_sides_of_join(copied_lines(init), seq![copied_line(l)], false);
        let lt = lines_of(t);
        assert(lt.len() == 0 || lt.len() == 1);
        if lt.len() == 1 {
            assert(lt.drop_last() =~= Seq::<PatchLineView>::empty());
        }
        if img_t.len() == 1 {
            assert(img_t.drop_last() =~= Seq::<PatchLineView>::empty());
        }
        assert(seq![copied_line(l)].drop_last() =~= Seq::<PatchLineView>::empty());
        assert(emitted(lines, adds, dels, PatchBase::Old) == e0 + t);
        let c = seq![copied_line(l)];
        let none: Seq<PatchLineView> = Seq::empty();
        assert(side_texts(none, false) == Seq::<Seq<u8>>::empty());
        assert(side_texts(c, false) == side_texts(c.drop_last(), false) + if on_side(c.last().kind, false) {
            seq![line_body(c.last())]
        } else {
            Seq::<Seq<u8>>::empty()
        });
        if lt.len() == 1 {
            assert(side_texts(lt, false) == side_texts(lt.drop_last(), false) + if on_side(lt.last().kind, false) {
                seq![line_body(lt.last())]
            } else {
                Seq::<Seq<u8>>::empty()
            });
            assert(line_body(lt.last()) == line_body(c.last()));
        }
        assert(side_texts(lt, false) == side_texts(c, false));
        assert(side_texts(lt, false).len() > 0 ==> side_ends_open(lt, false) == side_ends_open(c, false));
    }
}

/// Every converted-context line without a trailing newline that is not the last emitted line
/// has a line of the new side after it.
pub open spec fn open_conversions_followed(e: Seq<Emitted>) -> bool {
    forall|i: int|
        0 <= i < e.len() - 1 && (#[trigger] e[i]).need == SpliceNeed::ConvertedContext && e[i].line.missing_newline
            ==> exists|j: int| i < j < e.len() && on_new_side((#[trigger] e[j]).line.kind)
}

/// Each emitted line's repair matches its kind: a converted line is context and a kept
/// deletion a deletion.
pub open spec fn needs_match_kinds(e: Seq<Emitted>) -> bool {
    forall|i: int|
        0 <= i < e.len() ==> ((#[trigger] e[i]).need == SpliceNeed::ConvertedContext ==> e[i].line.kind
            == LineKind::Context) && (e[i].need == SpliceNeed::KeptDeletion ==> e[i].line.kind
            == LineKind::Deletion)
}

/// The drop rules mark only context as converted and only deletions as kept deletions.
proof fn lemma_emitted_needs_match_kinds(lines: Seq<HunkLineView>, adds: Set<usize>, dels: Set<usize>, base: PatchBase)
    ensures
        needs_match_kinds(emitted(lines, adds, dels, base)),
    decreases lines.len(),
{
    if lines.len() > 0 {
        lemma_emitted_needs_match_kinds(lines.drop_last(), adds, dels, base);
        let e0 = emitted(lines.drop_last(), adds, dels, base);
        let t = emit_line(lines.last(), lines.len() - 1, adds, dels, base);
        let e = emitted(lines, adds, dels, base);
        assert(e == e0 + t);
        assert forall|i: int| 0 <= i < e.len() implies ((#[trigger] e[i]).need == SpliceNeed::ConvertedContext
            ==> e[i].line.kind == LineKind::Context) && (e[i].need == SpliceNeed::KeptDeletion
            ==> e[i].line.kind == LineKind::Deletion) by {
            if i < e0.len() {
                assert(e[i] == e0[i]);
            } else {
                assert(e[i] == t[i - e0.len()]);
            }
        }
    }
}

/// One side of a single line.
proof fn lemma_side_of_one(x: PatchLineView, new_side: bool)
    ensures
        side_texts(seq![x], new_side) == if on_side(x.kind, new_side) {
            seq![line_body(x)]
        } else {
            Seq::<Seq<u8>>::empty()
        },
        side_ends_open(seq![x], new_side) == (on_side(x.kind, new_side) && x.missing_newline),
{
    let one = seq![x];
    let none: Seq<PatchLineView> = Seq::empty();
    assert(one.drop_last() =~= none);
    assert(side_texts(none, new_side) == Seq::<Seq<u8>>::empty());
    assert(!side_ends_open(none, new_side));
}

/// The repair of one emitted line keeps the text each side holds; it changes whether a side
/// ends without a newline only where a later emitted line holds a line of that side.
proof fn lemma_splice_at_sides(e: Seq<Emitted>, i: int, new_side: bool)
    requires
        0 <= i < e.len(),
        needs_match_kinds(e),
        new_side ==> open_conversions_followed(e),
    ensures
        side_texts(splice_at(e, i), new_side) == side_texts(seq![e[i].line], new_side),
        side_texts(splice_at(e, i), new_side).len() > 0 && side_ends_open(splice_at(e, i), new_side)
            != side_ends_open(seq![e[i].line], new_side) ==> exists|j: int|
            i < j < e.len() && on_side((#[trigger] e[j]).line.kind, new_side),
{
    let l = e[i].line;
    lemma_side_of_one(l, new_side);
    if e[i].need == SpliceNeed::ConvertedContext && l.missing_newline && i != e.len() - 1 {
        let d = PatchLineView { kind: LineKind::Deletion, content: l.content, missing_newline: true };
        let a = PatchLineView { kind: LineKind::Addition, content: l.content.push(10u8), missing_newline: false };
        assert(splice_at(e, i) == seq![d] + seq![a]);
        lemma_sides_of_join(seq![d], seq![a], new_side);
        lemma_side_of_one(d, new_side);
        lemma_side_of_one(a, new_side);
        assert(l.content.push(10u8).drop_last() =~= l.content);
        if new_side {
            assert(e[i].need == SpliceNeed::ConvertedContext);
            let j = choose|j: int| i < j < e.len() && on_new_side((#[trigger] e[j]).line.kind);
            assert(on_side(e[j].line.kind, new_side));
        }
    } else if e[i].need == SpliceNeed::KeptDeletion && l.missing_newline && context_after(e, i) {
        let d = PatchLineView { kind: LineKind::Deletion, content: l.content.push(10u8), missing_newline: false };
        assert(splice_at(e, i) == seq![d]);
        lemma_side_of_one(d, new_side);
        assert(l.content.push(10u8).drop_last() =~= l.content);
        let j = choose|j: int| i < j < e.len() && #[trigger] e[j].line.kind == LineKind::Context;
        assert(on_side(e[j].line.kind, new_side));
    } else {
        assert(splice_at(e, i) == seq![l]);
    }
}

/// The repairs keep the text each side of the emitted lines holds, and whether each side ends
/// without a newline, as far as the lines repaired so far go (a later line of that side may
/// still decide the ending).
proof fn lemma_splice_prefix_sides(e: Seq<Emitted>, n: int, new_side: bool)
    requires
        0 <= n <= e.len(),
        needs_match_kinds(e),
        new_side ==> open_conversions_followed(e),
    ensures
        side_texts(splice_prefix(e, n), new_side) == side_texts(lines_of(e).take(n), new_side),
        side_ends_open(splice_prefix(e, n), new_side) == side_ends_open(lines_of(e).take(n), new_side)
            || exists|j: int| n <= j < e.len() && on_side((#[trigger] e[j]).line.kind, new_side),
    decreases n,
{
    if n > 0 {
        lemma_splice_prefix_sides(e, n - 1, new_side);
        lemma_splice_at_sides(e, n - 1, new_side);
        let p0 = splice_prefix(e, n - 1);
        let q0 = lines_of(e).take(n - 1);
        let x = seq![e[n - 1].line];
        assert(lines_of(e).take(n) =~= q0 + x);
        lemma_sides_of_join(p0, splice_at(e, n - 1), new_side);
        lemma_sides_of_join(q0, x, new_side);
        lemma_side_of_one(e[n - 1].line, new_side);
        if side_ends_open(splice_prefix(e, n), new_side) != side_ends_open(lines_of(e).take(n), new_side) {
            if side_texts(x, new_side).len() > 0 {
                let j = choose|j: int| n - 1 < j < e.len() && on_side((#[trigger] e[j]).line.kind, new_side);
                assert(n <= j);
            } else {
                let j = choose|j: int| n - 1 <= j < e.len() && on_side((#[trigger] e[j]).line.kind, new_side);
                assert(j != n - 1);
            }
        }
    }
}

/// A line without a trailing newline is the last line of each side it is on, as in every diff
/// git produces: no later line of the hunk is on that side.
pub open spec fn open_line_ends_its_sides(lines: Seq<HunkLineView>) -> bool {
    forall|p: int, q: int|
        0 <= p < q < lines.len() && (#[trigger] lines[p]).missing_newline ==> (on_old_side(lines[p].kind)
            ==> !on_old_side((#[trigger] lines[q]).kind)) && (on_new_side(lines[p].kind) ==> !on_new_side(
            lines[q].kind,
        ))
}

/// A converted line without a trailing newline comes from a deletion without one.
proof fn lemma_open_conversion_origin(lines: Seq<HunkLineView>, adds: Set<usize>, dels: Set<usize>)
    ensures
        forall|i: int|
            0 <= i < emitted(lines, adds, dels, PatchBase::Old).len() && (#[trigger] emitted(lines, adds, dels, PatchBase::Old)[i]).need
                == SpliceNeed::ConvertedContext && emitted(lines, adds, dels, PatchBase::Old)[i].line.missing_newline
                ==> exists|p: int| 0 <= p < lines.len() && (#[trigger] lines[p]).kind == LineKind::Deletion && lines[p].missing_newline,
    decreases lines.len(),
{
    if lines.len() > 0 {
        let init = lines.drop_last();
        lemma_open_conversion_origin(init, adds, dels);
        let e0 = emitted(init, adds, dels, PatchBase::Old);
        let t = emit_line(lines.last(), lines.len() - 1, adds, dels, PatchBase::Old);
        let e = emitted(lines, adds, dels, PatchBase::Old);
        assert(e == e0 + t);
        assert forall|i: int|
            0 <= i < e.len() && (#[trigger] e[i]).need == SpliceNeed::ConvertedContext && e[i].line.missing_newline
                implies exists|p: int| 0 <= p < lines.len() && (#[trigger] lines[p]).kind == LineKind::Deletion
                && lines[p].missing_newline by {
            if i < e0.len() {
                assert(e[i] == e0[i]);
                let p = choose|p: int| 0 <= p < init.len() && (#[trigger] init[p]).kind == LineKind::Deletion
                    && init[p].missing_newline;
                assert(lines[p] == init[p]);
            } else {
                assert(e[i] == t[i - e0.len()]);
                assert(lines[lines.len() - 1] == lines.last());
            }
        }
    }
}

/// Under the staging drop rules, a hunk whose open lines end their sides leaves every
/// converted line without a trailing newline followed by a new-side line, unless it is last.
proof fn lemma_open_conversions_followed(lines: Seq<HunkLineView>, adds: Set<usize>, dels: Set<usize>)
    requires
        open_line_ends_its_sides(lines),
    ensures
        open_conversions_followed(emitted(lines, adds, dels, PatchBase::Old)),
    decreases lines.len(),
{
    if lines.len() > 0 {
        let init = lines.drop_last();
        assert forall|p: int, q: int|
            0 <= p < q < init.len() && (#[trigger] init[p]).missing_newline implies (on_old_side(init[p].kind)
                ==> !on_old_side((#[trigger] init[q]).kind)) && (on_new_side(init[p].kind) ==> !on_new_side(
                init[q].kind,
            )) by {
            assert(init[p] == lines[p] && init[q] == lines[q]);
        }
        lemma_open_conversions_followed(init, adds, dels);
        lemma_open_conversion_origin(init, adds, dels);
        let e0 = emitted(init, adds, dels, PatchBase::Old);
        let t = emit_line(lines.last(), lines.len() - 1, adds, dels, PatchBase::Old);
        let e = emitted(lines, adds, dels, PatchBase::Old);
        assert(e == e0 + t);
        assert forall|i: int|
            0 <= i < e.len() - 1 && (#[trigger] e[i]).need == SpliceNeed::ConvertedContext && e[i].line.missing_newline
                implies exists|j: int| i < j < e.len() && on_new_side((#[trigger] e[j]).line.kind) by {
            assert(i < e0.len());
            assert(e[i] == e0[i]);
            if i < e0.len() - 1 {
                let j = choose|j: int| i < j < e0.len() && on_new_side((#[trigger] e0[j]).line.kind);
                assert(e[j] == e0[j]);
            } else {
                let p = choose|p: int| 0 <= p < init.len() && (#[trigger] init[p]).kind == LineKind::Deletion
                    && init[p].missing_newline;
                let q = lines.len() - 1;
                assert(lines[p] == init[p]);
                assert(lines[q] == lines.last());
                assert(!on_old_side(lines[q].kind));
                assert(e[e0.len() as int] == t[0]);
                assert(on_new_side(e[e0.len() as int].line.kind));
            }
        }
    }
}

/// Staging a selection of a hunk's lines changes the file by exactly the selected lines. The
/// line-precise patch's new side holds, in order, the lines that stay once the selection is
/// staged (context, kept additions and dropped deletions; see [`staged_image`]), and ends
/// without a newline exactly when the last of them does; its old side holds the hunk's own old
/// side, ending as that does. This holds of every hunk in which a line without a trailing
/// newline is the last line of each side it is on (see [`open_line_ends_its_sides`]).
pub proof fn lemma_staged_selection_sides(f: FileChangeView, hunk_idx: int, adds: Set<usize>, dels: Set<usize>)
    requires
        0 <= hunk_idx < f.hunks.len(),
        open_line_ends_its_sides(f.hunks[hunk_idx].lines),
    ensures
        ({
            let src = f.hunks[hunk_idx].lines;
            let p = partial_patch(f, hunk_idx, adds, dels, PatchBase::Old).hunks[0].lines;
            &&& side_texts(p, true) == side_texts(staged_image(src, adds, dels), true)
            &&& side_ends_open(p, true) == side_ends_open(staged_image(src, adds, dels), true)
            &&& side_texts(p, false) == side_texts(copied_lines(src), false)
            &&& side_ends_open(p, false) == side_ends_open(copied_lines(src), false)
        }),
{
    let src = f.hunks[hunk_idx].lines;
    let e = emitted(src, adds, dels, PatchBase::Old);
    lemma_emitted_needs_match_kinds(src, adds, dels, PatchBase::Old);
    lemma_open_conversions_followed(src, adds, dels);
    lemma_splice_prefix_sides(e, e.len() as int, true);
    lemma_splice_prefix_sides(e, e.len() as int, false);
    assert(lines_of(e).take(e.len() as int) =~= lines_of(e));
    lemma_emitted_sides(src, adds, dels);
}

} // verus!
