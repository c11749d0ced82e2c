//! The renderer's pure logic: the marker glyphs of each icon strategy, line-number gutters,
//! outline tree guides, row-tint blending, status-letter colors, the coloring of a line of diff
//! text (its emphasis and syntax spans merged into segments), and horizontal scrolling (the
//! column cut, and panning a line of styled spans).
use vstd::prelude::*;
use vstd::string::{StrSliceExecFns, StringExecFns};
use vstd::utf8::{decode_utf8, encode_utf8};

use crate::bytes::decimal_bytes;
use crate::model::{status_letter, FileStatus};
use crate::text::{byte_offsets, byte_pos, chars_of, lemma_byte_pos_strict, lemma_encode_concat};
use crate::highlight::FgSpan;
use crate::styled::{fg_style, span, spans_view, styled, text, with_fg, Line, SpanView, Style, StyledSpan};
use crate::theme::{syntax_capture_count, Color, Palette};

verus! {

/// Which glyph set the renderer draws markers and icons with.
#[derive(Debug, Clone, Copy, PartialEq, Eq, Structural)]
pub enum IconMode {
    /// Plain Unicode glyphs.
    Plain,
    /// Nerd-font glyphs.
    Nerd,
}

/// The glyph [`current_marker`] draws.
pub open spec fn current_glyph(icons: IconMode) -> char {
    match icons {
        IconMode::Nerd => '\u{f444}',
        IconMode::Plain => '\u{2022}',
    }
}

/// The current-changeset marker: `•`, or the nerd dot.
pub fn current_marker(icons: IconMode) -> (c: char)
    ensures
        c == current_glyph(icons),
{
    match icons {
        IconMode::Nerd => '\u{f444}',
        IconMode::Plain => '\u{2022}',
    }
}

/// The glyph [`warn_marker`] draws.
pub open spec fn warn_glyph(icons: IconMode) -> char {
    match icons {
        IconMode::Nerd => '\u{f071}',
        IconMode::Plain => '\u{26A0}',
    }
}

/// The needs-restack marker: `⚠`, or the nerd warning sign.
pub fn warn_marker(icons: IconMode) -> (c: char)
    ensures
        c == warn_glyph(icons),
{
    match icons {
        IconMode::Nerd => '\u{f071}',
        IconMode::Plain => '\u{26A0}',
    }
}

/// The glyph [`error_marker`] draws.
pub open spec fn error_glyph(icons: IconMode) -> char {
    match icons {
        IconMode::Nerd => '\u{f00d}',
        IconMode::Plain => '\u{2717}',
    }
}

/// The failed-changeset marker: `✗`, or the nerd times sign.
pub fn error_marker(icons: IconMode) -> (c: char)
    ensures
        c == error_glyph(icons),
{
    match icons {
        IconMode::Nerd => '\u{f00d}',
        IconMode::Plain => '\u{2717}',
    }
}

/// The glyph [`loading_marker`] draws.
pub open spec fn loading_glyph(icons: IconMode) -> char {
    match icons {
        IconMode::Nerd => '\u{f141}',
        IconMode::Plain => '\u{2026}',
    }
}

/// The loading marker: `…`, or the nerd ellipsis.
pub fn loading_marker(icons: IconMode) -> (c: char)
    ensures
        c == loading_glyph(icons),
{
    match icons {
        IconMode::Nerd => '\u{f141}',
        IconMode::Plain => '\u{2026}',
    }
}

/// The prefix of an added-lines count: `+`, or the nerd diff-added glyph and a space.
pub open spec fn added_prefix(icons: IconMode) -> Seq<char> {
    match icons {
        IconMode::Nerd => seq!['\u{f457}', ' '],
        IconMode::Plain => seq!['+'],
    }
}

/// The prefix of a deleted-lines count: `-`, or the nerd diff-removed glyph and a space.
pub open spec fn removed_prefix(icons: IconMode) -> Seq<char> {
    match icons {
        IconMode::Nerd => seq!['\u{f458}', ' '],
        IconMode::Plain => seq!['-'],
    }
}

/// The diffstat prefixes of added and deleted line counts: `+` and `-`, or the nerd
/// diff-added and diff-removed glyphs each followed by a space.
pub fn diffstat_prefixes(icons: IconMode) -> (r: (String, String))
    ensures
        r.0@ == added_prefix(icons),
        r.1@ == removed_prefix(icons),
{
    match icons {
        IconMode::Nerd => {
            proof {
                reveal_strlit("\u{f457} ");
                reveal_strlit("\u{f458} ");
            }
            (String::from_str("\u{f457} "), String::from_str("\u{f458} "))
        },
        IconMode::Plain => {
            proof {
                reveal_strlit("+");
                reveal_strlit("-");
            }
            (String::from_str("+"), String::from_str("-"))
        },
    }
}

/// The number of decimal digits of `n`.
fn decimal_len(n: usize) -> (len: usize)
    ensures
        len == decimal_bytes(n as nat).len(),
        1 <= len <= n + 1,
    decreases n,
{
    if n < 10 {
        1
    } else {
        let rest = decimal_len(n / 10);
        assert(decimal_bytes(n as nat) == decimal_bytes((n / 10) as nat).push((48 + n % 10) as u8));
        rest + 1
    }
}

/// The line-number gutter width for a file whose largest line number is `max_lineno`: its
/// decimal digit count, at least 3.
pub fn gutter_width(max_lineno: usize) -> (w: usize)
    ensures
        w == (if decimal_bytes(max_lineno as nat).len() < 3 {
            3
        } else {
            decimal_bytes(max_lineno as nat).len()
        }),
{
    let len = decimal_len(max_lineno);
    if len < 3 {
        3
    } else {
        len
    }
}

/// The characters of `n` in decimal.
pub open spec fn decimal_chars(n: nat) -> Seq<char> {
    decimal_bytes(n).map_values(|b: u8| b as char)
}

/// `k` spaces.
pub open spec fn spaces(k: nat) -> Seq<char> {
    Seq::new(k, |i: int| ' ')
}

/// Append one ASCII digit.
fn push_digit(s: &mut String, d: usize)
    requires
        d < 10,
    ensures
        final(s)@ == old(s)@.push((48 + d) as char),
{
    proof {
        reveal_strlit("0");
        reveal_strlit("1");
        reveal_strlit("2");
        reveal_strlit("3");
        reveal_strlit("4");
        reveal_strlit("5");
        reveal_strlit("6");
        reveal_strlit("7");
        reveal_strlit("8");
        reveal_strlit("9");
    }
    let digit = if d == 0 {
        "0"
    } else if d == 1 {
        "1"
    } else if d == 2 {
        "2"
    } else if d == 3 {
        "3"
    } else if d == 4 {
        "4"
    } else if d == 5 {
        "5"
    } else if d == 6 {
        "6"
    } else if d == 7 {
        "7"
    } else if d == 8 {
        "8"
    } else {
        "9"
    };
    s.append(digit);
    assert(final(s)@ =~= old(s)@.push((48 + d) as char));
}

/// Append the decimal digits of `n`.
pub(crate) fn push_decimal_chars(s: &mut String, n: usize)
    ensures
        final(s)@ == old(s)@ + decimal_chars(n as nat),
    decreases n,
{
    if n >= 10 {
        push_decimal_chars(s, n / 10);
    }
    push_digit(s, n % 10);
    proof {
        if n >= 10 {
            assert(decimal_chars(n as nat) =~= decimal_chars((n / 10) as nat).push(
                (48 + n % 10) as char,
            ));
        } else {
            assert(decimal_chars(n as nat) =~= seq![(48 + n) as char]);
        }
    }
}

/// Append `k` spaces.
pub(crate) fn push_spaces(s: &mut String, k: usize)
    ensures
        final(s)@ == old(s)@ + spaces(k as nat),
{
    let mut i: usize = 0;
    while i < k
        invariant
            i <= k,
            s@ == old(s)@ + spaces(i as nat),
        decreases k - i,
    {
        proof {
            reveal_strlit(" ");
        }
        s.append(" ");
        proof {
            assert(old(s)@ + spaces((i + 1) as nat) =~= (old(s)@ + spaces(i as nat)).push(' '));
        }
        i = i + 1;
    }
}

/// The text of one gutter field: `n` right-aligned in `w` columns (never truncated), or `w`
/// spaces when the row has no line number on that side.
pub open spec fn field_chars(n: Option<usize>, w: usize) -> Seq<char> {
    match n {
        Some(k) => if decimal_chars(k as nat).len() < w {
            spaces((w - decimal_chars(k as nat).len()) as nat) + decimal_chars(k as nat)
        } else {
            decimal_chars(k as nat)
        },
        None => spaces(w as nat),
    }
}

/// One inline-gutter field (see [`field_chars`]).
pub fn gutter_field(n: Option<usize>, w: usize) -> (s: String)
    ensures
        s@ == field_chars(n, w),
{
    let mut s = String::new();
    match n {
        Some(k) => {
            let len = decimal_len(k);
            if len < w {
                push_spaces(&mut s, w - len);
            }
            push_decimal_chars(&mut s, k);
            proof {
                assert(s@ =~= (if decimal_chars(k as nat).len() < w {
                    spaces((w - decimal_chars(k as nat).len()) as nat) + decimal_chars(k as nat)
                } else {
                    decimal_chars(k as nat)
                }));
            }
        },
        None => {
            push_spaces(&mut s, w);
            assert(s@ =~= spaces(w as nat));
        },
    }
    s
}

/// The guide run drawn for an outline row's ancestors: two columns per level, a bar `│ ` where
/// that ancestor was not its parent's last child, blank space where it was.
pub open spec fn guide_run(ancestors: Seq<bool>) -> Seq<char>
    decreases ancestors.len(),
{
    if ancestors.len() == 0 {
        Seq::empty()
    } else {
        guide_run(ancestors.drop_last()) + (if ancestors.last() {
            seq![' ', ' ']
        } else {
            seq!['\u{2502}', ' ']
        })
    }
}

/// An outline row's tree prefix: nothing for a root row; else its ancestors' guide run and its
/// own connector, `╰─` for a last child and `├─` otherwise.
pub open spec fn tree_prefix_spec(guides: Seq<bool>) -> Seq<char> {
    if guides.len() == 0 {
        Seq::empty()
    } else {
        guide_run(guides.drop_last()) + (if guides.last() {
            seq!['\u{2570}', '\u{2500}']
        } else {
            seq!['\u{251C}', '\u{2500}']
        })
    }
}

/// The tree prefix of an outline row (see [`tree_prefix_spec`]); `guides[i]` is whether the
/// row's level-`i` ancestor (the last entry: the row itself) is its parent's last child.
pub fn tree_prefix(guides: &[bool]) -> (s: String)
    ensures
        s@ == tree_prefix_spec(guides@),
{
    let mut s = String::new();
    let n = guides.len();
    if n == 0 {
        return s;
    }
    let mut i: usize = 0;
    while i < n - 1
        invariant
            n == guides@.len(),
            n >= 1,
            i <= n - 1,
            s@ == guide_run(guides@.take(i as int)),
        decreases n - 1 - i,
    {
        proof {
            reveal_strlit("  ");
            reveal_strlit("\u{2502} ");
        }
        if guides[i] {
            s.append("  ");
        } else {
            s.append("\u{2502} ");
        }
        proof {
            assert(guides@.take(i + 1).drop_last() =~= guides@.take(i as int));
        }
        i = i + 1;
    }
    proof {
        reveal_strlit("\u{2570}\u{2500}");
        reveal_strlit("\u{251C}\u{2500}");
    }
    if guides[n - 1] {
        s.append("\u{2570}\u{2500}");
    } else {
        s.append("\u{251C}\u{2500}");
    }
    proof {
        assert(guides@.take((n - 1) as int) =~= guides@.drop_last());
    }
    s
}

/// The glyph of an empty status-matrix column: a middle dot.
pub const STATUS_PLACEHOLDER: char = '\u{b7}';

/// One channel of a cursor wash: 60% of the underlying color, 40% of the tint.
pub open spec fn mix_channel(c: u8, t: u8) -> u8 {
    ((c * 3 + t * 2) / 5) as u8
}

/// The cursor or selection tint composited over a cell's background: both RGB blend per channel
/// (see [`mix_channel`]); a non-RGB background stays as it is; no background takes the tint.
pub open spec fn blended(base: Option<Color>, tint: Color) -> Color {
    match (base, tint) {
        (Some(Color::Rgb(r, g, b)), Color::Rgb(tr, tg, tb)) => Color::Rgb(
            mix_channel(r, tr),
            mix_channel(g, tg),
            mix_channel(b, tb),
        ),
        (Some(other), _) => other,
        (None, t) => t,
    }
}

/// Blend a row tint into a cell's background (see [`blended`]).
pub fn blend_bg(base: Option<Color>, tint: Color) -> (c: Color)
    ensures
        c == blended(base, tint),
{
    match (base, tint) {
        (Some(Color::Rgb(r, g, b)), Color::Rgb(tr, tg, tb)) => {
            let rm = ((r as u16 * 3 + tr as u16 * 2) / 5) as u8;
            let gm = ((g as u16 * 3 + tg as u16 * 2) / 5) as u8;
            let bm = ((b as u16 * 3 + tb as u16 * 2) / 5) as u8;
            Color::Rgb(rm, gm, bm)
        },
        (Some(other), _) => other,
        (None, t) => t,
    }
}

/// The cursor row's tint: the full cursor wash in the focused pane, the dimmer one elsewhere.
pub fn cursor_tint(theme: &Palette, focused: bool) -> (c: Color)
    ensures
        c == (if focused {
            theme.cursor_bg
        } else {
            theme.cursor_unfocused_bg
        }),
{
    if focused {
        theme.cursor_bg
    } else {
        theme.cursor_unfocused_bg
    }
}

/// The color of a committed file's status letter.
pub open spec fn committed_color(change: FileStatus, theme: Palette) -> Color {
    match change {
        FileStatus::Added => theme.add_strong,
        FileStatus::Deleted => theme.del_strong,
        FileStatus::Modified | FileStatus::Renamed | FileStatus::Copied => theme.modified_fg,
        FileStatus::Untracked | FileStatus::Unmerged => theme.dim,
    }
}

/// A committed file's status-letter color: added green (`add_strong`), deleted red
/// (`del_strong`), modified/renamed/copied the modified amber, anything else dim.
pub fn committed_letter_color(change: FileStatus, theme: &Palette) -> (c: Color)
    ensures
        c == committed_color(change, *theme),
{
    match change {
        FileStatus::Added => theme.add_strong,
        FileStatus::Deleted => theme.del_strong,
        FileStatus::Modified | FileStatus::Renamed | FileStatus::Copied => theme.modified_fg,
        FileStatus::Untracked | FileStatus::Unmerged => theme.dim,
    }
}

/// The display width `unicode_width` gives a character: `None` for a control character.
pub uninterp spec fn unicode_char_width(c: char) -> Option<usize>;

/// The displayed width of `c` in columns, `None` for a control character.
///
/// Calls `unicode_width::UnicodeWidthChar::width`; the contract only names its result, a
/// function of the character alone.
#[verifier::external_body]
fn char_width(c: char) -> (w: Option<usize>)
    ensures
        w == unicode_char_width(c),
{
    unicode_width::UnicodeWidthChar::width(c)
}

/// A character's width for column counting: control characters count 0.
pub open spec fn column_width(c: char) -> nat {
    match unicode_char_width(c) {
        Some(w) => w as nat,
        None => 0,
    }
}

/// Walking `cs` from character `i` with `acc` columns already counted, where the cut at column
/// `col` falls: `(k, false)` when character `k` starts at or after the cut (`k` is the length
/// when the text runs out first), `(k, true)` when the character before `k` straddles it.
pub open spec fn cut_from(cs: Seq<char>, i: int, acc: int, col: int) -> (int, bool)
    decreases cs.len() - i,
{
    if i < 0 || i >= cs.len() {
        (cs.len() as int, false)
    } else if acc >= col {
        (i, false)
    } else if acc + column_width(cs[i]) > col {
        (i + 1, true)
    } else {
        cut_from(cs, i + 1, acc + column_width(cs[i]), col)
    }
}

/// Where horizontal scrolling by `col` display columns cuts `text`: the character position of
/// the cut (0 for no scroll) and whether a wide character straddling the cut was dropped.
pub open spec fn hscroll_cut_spec(text: Seq<char>, col: int) -> (int, bool) {
    if col == 0 {
        (0, false)
    } else {
        cut_from(text, 0, 0, col)
    }
}

/// Where the cut at display column `col` falls in the characters `cs` (see [`cut_from`]).
fn cut_chars(cs: &[char], col: usize) -> (r: (usize, bool))
    requires
        col > 0,
    ensures
        r.0 as int == cut_from(cs@, 0, 0, col as int).0,
        r.1 == cut_from(cs@, 0, 0, col as int).1,
        r.0 <= cs@.len(),
{
    let n = cs.len();
    let mut acc: usize = 0;
    let mut i: usize = 0;
    while i < n
        invariant
            n == cs@.len(),
            i <= n,
            acc <= col,
            col > 0,
            cut_from(cs@, 0, 0, col as int) == cut_from(cs@, i as int, acc as int, col as int),
        decreases n - i,
    {
        if acc >= col {
            return (i, false);
        }
        let w = match char_width(cs[i]) {
            Some(w) => w,
            None => 0,
        };
        if w > col - acc {
            return (i + 1, true);
        }
        acc = acc + w;
        i = i + 1;
    }
    (n, false)
}

/// Cut `text` at display column `col` for horizontal scrolling: the byte offset of the first
/// character shown (`text.len()` when nothing is left), and whether a wide character
/// straddling the cut was dropped, so the caller pads one column.
pub fn hscroll_cut(text: &str, col: usize) -> (r: (usize, bool))
    ensures
        r.0 == byte_pos(text@, hscroll_cut_spec(text@, col as int).0),
        r.1 == hscroll_cut_spec(text@, col as int).1,
{
    if col == 0 {
        proof {
            assert(text@.take(0) =~= Seq::<char>::empty());
            assert(vstd::utf8::encode_utf8(Seq::<char>::empty()) =~= Seq::<u8>::empty());
        }
        return (0, false);
    }
    let cs = chars_of(text);
    let offs = byte_offsets(text, &cs);
    let (i, pad) = cut_chars(cs.as_slice(), col);
    (offs[i], pad)
}

/// The display width of characters `i..` of `cs`.
pub open spec fn width_from(cs: Seq<char>, i: int) -> nat
    decreases cs.len() - i,
{
    if i < 0 || i >= cs.len() {
        0
    } else {
        column_width(cs[i]) + width_from(cs, i + 1)
    }
}

/// When the characters from `i` on add no width, neither does the last one.
proof fn lemma_zero_width_tail(cs: Seq<char>, i: int)
    requires
        0 <= i < cs.len(),
        width_from(cs, i) == 0,
    ensures
        column_width(cs.last()) == 0,
    decreases cs.len() - i,
{
    if i + 1 < cs.len() {
        lemma_zero_width_tail(cs, i + 1);
    }
}

/// A walk whose remaining width cannot pass the cut runs to the end of the text.
proof fn lemma_cut_reaches_end(cs: Seq<char>, i: int, acc: int, col: int)
    requires
        0 <= i <= cs.len(),
        0 <= acc,
        acc + width_from(cs, i) < col || (acc + width_from(cs, i) == col && (i == cs.len()
            || column_width(cs.last()) > 0)),
    ensures
        cut_from(cs, i, acc, col) == (cs.len() as int, false),
    decreases cs.len() - i,
{
    if i < cs.len() {
        if acc >= col {
            lemma_zero_width_tail(cs, i);
        }
        lemma_cut_reaches_end(cs, i + 1, acc + column_width(cs[i]), col);
    }
}

/// Scrolling past a line's full display width leaves nothing to show and pads nothing: the cut
/// is the end of the text. Scrolling to exactly its width does too, unless the text ends in
/// zero-width characters (the cut then stops before them).
pub proof fn lemma_cut_past_the_end(text: Seq<char>, col: int)
    requires
        col > 0,
        width_from(text, 0) < col || (width_from(text, 0) == col && (text.len() == 0 || column_width(
            text.last(),
        ) > 0)),
    ensures
        hscroll_cut_spec(text, col) == (text.len() as int, false),
{
    lemma_cut_reaches_end(text, 0, 0, col);
}

/// One resolved (background, foreground) pair for the byte range `start..end` of a line.
#[derive(Debug, Clone, Copy, PartialEq, Eq, Structural)]
pub struct Segment {
    pub start: usize,
    pub end: usize,
    pub bg: Option<Color>,
    pub fg: Color,
}

/// The span boundaries of a line of length `len`: each background span's and each syntax
/// span's start and end, clamped to `len`.
pub open spec fn span_bounds(len: int, bg_spans: Seq<(usize, usize, Color)>, fg_spans: Seq<FgSpan>) -> Seq<int> {
    Seq::new(bg_spans.len(), |k: int| clamp(bg_spans[k].0 as int, len)) + Seq::new(
        bg_spans.len(),
        |k: int| clamp(bg_spans[k].1 as int, len),
    ) + Seq::new(fg_spans.len(), |k: int| clamp(fg_spans[k].start as int, len)) + Seq::new(
        fg_spans.len(),
        |k: int| clamp(fg_spans[k].end as int, len),
    )
}

/// `v`, but at most `len`.
pub open spec fn clamp(v: int, len: int) -> int {
    if v < len {
        v
    } else {
        len
    }
}

/// The least of `bounds` above `x`, or `top` when none is below it.
pub open spec fn least_above(bounds: Seq<int>, x: int, top: int) -> int
    decreases bounds.len(),
{
    if bounds.len() == 0 {
        top
    } else {
        let m = least_above(bounds.drop_last(), x, top);
        if bounds.last() > x && bounds.last() < m {
            bounds.last()
        } else {
            m
        }
    }
}

/// The least boundary is above `x` and at most `top`, and no bound lies strictly between.
pub proof fn lemma_least_above(bounds: Seq<int>, x: int, top: int)
    requires
        x < top,
    ensures
        x < least_above(bounds, x, top) <= top,
        forall|k: int| 0 <= k < bounds.len() && bounds[k] > x ==> #[trigger] bounds[k] >= least_above(bounds, x, top),
    decreases bounds.len(),
{
    if bounds.len() > 0 {
        lemma_least_above(bounds.drop_last(), x, top);
        assert forall|k: int| 0 <= k < bounds.len() && bounds[k] > x implies #[trigger] bounds[k]
            >= least_above(bounds, x, top) by {
            if k < bounds.len() - 1 {
                assert(bounds[k] == bounds.drop_last()[k]);
            }
        }
    }
}

/// The background of the last-pushed span of `bg_spans` that covers byte `x` (later spans are
/// more specific and win), if any.
pub open spec fn bg_at(bg_spans: Seq<(usize, usize, Color)>, x: int) -> Option<Color>
    decreases bg_spans.len(),
{
    if bg_spans.len() == 0 {
        None
    } else if bg_spans.last().0 <= x < bg_spans.last().1 {
        Some(bg_spans.last().2)
    } else {
        bg_at(bg_spans.drop_last(), x)
    }
}

/// The first syntax span of `fg_spans` from position `k` on that covers byte `x`, if any.
pub open spec fn fg_span_at(fg_spans: Seq<FgSpan>, x: int, k: int) -> Option<FgSpan>
    decreases fg_spans.len() - k,
{
    if k < 0 || k >= fg_spans.len() {
        None
    } else if fg_spans[k].start <= x < fg_spans[k].end {
        Some(fg_spans[k])
    } else {
        fg_span_at(fg_spans, x, k + 1)
    }
}

/// The foreground of byte `x`: its first covering syntax span's capture color, else the
/// palette's default foreground.
pub open spec fn fg_at(fg_spans: Seq<FgSpan>, x: int, theme: Palette) -> Color {
    match fg_span_at(fg_spans, x, 0) {
        Some(span) => theme.syntax_colors()[span.capture as int],
        None => theme.foreground,
    }
}

/// The segments of `x..len`: from each boundary to the next, with the colors in force at its
/// first byte.
pub open spec fn segments_from(
    x: int,
    len: int,
    bg_spans: Seq<(usize, usize, Color)>,
    fg_spans: Seq<FgSpan>,
    theme: Palette,
) -> Seq<Segment>
    decreases len - x,
{
    if x < 0 || x >= len {
        Seq::empty()
    } else {
        let next = least_above(span_bounds(len, bg_spans, fg_spans), x, len);
        proof {
            lemma_least_above(span_bounds(len, bg_spans, fg_spans), x, len);
        }
        seq![Segment { start: x as usize, end: next as usize, bg: bg_at(bg_spans, x), fg: fg_at(fg_spans, x, theme) }]
            + segments_from(next, len, bg_spans, fg_spans, theme)
    }
}

/// The syntax spans of an optional list, empty when there is none.
pub open spec fn fg_seq(fg_spans: Option<&Vec<FgSpan>>) -> Seq<FgSpan> {
    match fg_spans {
        Some(v) => v@,
        None => Seq::empty(),
    }
}

/// The least span boundary above `x` (see [`least_above`]).
fn next_boundary(len: usize, bg_spans: &[(usize, usize, Color)], fg_spans: &[FgSpan], x: usize) -> (b: usize)
    requires
        x < len,
    ensures
        b == least_above(span_bounds(len as int, bg_spans@, fg_spans@), x as int, len as int),
{
    let ghost bounds = span_bounds(len as int, bg_spans@, fg_spans@);
    let nb = bg_spans.len();
    let nf = fg_spans.len();
    let mut best = len;
    let mut k: usize = 0;
    while k < nb
        invariant
            nb == bg_spans@.len(),
            nf == fg_spans@.len(),
            bounds == span_bounds(len as int, bg_spans@, fg_spans@),
            bounds.len() == 2 * nb + 2 * nf,
            k <= nb,
            best == least_above(bounds.take(k as int), x as int, len as int),
        decreases nb - k,
    {
        let s = if bg_spans[k].0 < len { bg_spans[k].0 } else { len };
        proof {
            assert(bounds.take(k + 1).drop_last() =~= bounds.take(k as int));
            assert(bounds[k as int] == s);
        }
        if s > x && s < best {
            best = s;
        }
        k = k + 1;
    }
    let mut k: usize = 0;
    while k < nb
        invariant
            nb == bg_spans@.len(),
            nf == fg_spans@.len(),
            bounds == span_bounds(len as int, bg_spans@, fg_spans@),
            bounds.len() == 2 * nb + 2 * nf,
            k <= nb,
            best == least_above(bounds.take(nb + k), x as int, len as int),
        decreases nb - k,
    {
        let e = if bg_spans[k].1 < len { bg_spans[k].1 } else { len };
        proof {
            assert(bounds.take(nb + k + 1).drop_last() =~= bounds.take(nb + k));
            assert(bounds[nb + k] == e);
        }
        if e > x && e < best {
            best = e;
        }
        k = k + 1;
    }
    let mut k: usize = 0;
    while k < nf
        invariant
            nb == bg_spans@.len(),
            nf == fg_spans@.len(),
            bounds == span_bounds(len as int, bg_spans@, fg_spans@),
            bounds.len() == 2 * nb + 2 * nf,
            k <= nf,
            best == least_above(bounds.take(2 * nb + k), x as int, len as int),
        decreases nf - k,
    {
        let s = if fg_spans[k].start < len { fg_spans[k].start } else { len };
        proof {
            assert(bounds.take(2 * nb + k + 1).drop_last() =~= bounds.take(2 * nb + k));
            assert(bounds[2 * nb + k] == s);
        }
        if s > x && s < best {
            best = s;
        }
        k = k + 1;
    }
    let mut k: usize = 0;
    while k < nf
        invariant
            nb == bg_spans@.len(),
            nf == fg_spans@.len(),
            bounds == span_bounds(len as int, bg_spans@, fg_spans@),
            bounds.len() == 2 * nb + 2 * nf,
            k <= nf,
            best == least_above(bounds.take(2 * nb + nf + k), x as int, len as int),
        decreases nf - k,
    {
        let e = if fg_spans[k].end < len { fg_spans[k].end } else { len };
        proof {
            assert(bounds.take(2 * nb + nf + k + 1).drop_last() =~= bounds.take(2 * nb + nf + k));
            assert(bounds[2 * nb + nf + k] == e);
        }
        if e > x && e < best {
            best = e;
        }
        k = k + 1;
    }
    proof {
        assert(bounds.take(2 * nb + 2 * nf) =~= bounds);
    }
    best
}

/// The background of the last-pushed span covering `x` (see [`bg_at`]).
fn background_at(bg_spans: &[(usize, usize, Color)], x: usize) -> (c: Option<Color>)
    ensures
        c == bg_at(bg_spans@, x as int),
{
    let mut k = bg_spans.len();
    proof {
        assert(bg_spans@.take(k as int) =~= bg_spans@);
    }
    while k > 0
        invariant
            k <= bg_spans@.len(),
            bg_at(bg_spans@, x as int) == bg_at(bg_spans@.take(k as int), x as int),
        decreases k,
    {
        let (s, e, c) = bg_spans[k - 1];
        proof {
            assert(bg_spans@.take(k as int).drop_last() =~= bg_spans@.take(k - 1));
            assert(bg_spans@.take(k as int).last() == bg_spans@[k - 1]);
        }
        if s <= x && x < e {
            return Some(c);
        }
        k = k - 1;
    }
    None
}

/// The foreground of byte `x` (see [`fg_at`]).
fn foreground_at(fg_spans: &[FgSpan], x: usize, theme: &Palette) -> (c: Color)
    requires
        forall|k: int| 0 <= k < fg_spans@.len() ==> #[trigger] fg_spans@[k].capture < syntax_capture_count(),
    ensures
        c == fg_at(fg_spans@, x as int, *theme),
{
    let n = fg_spans.len();
    let mut k: usize = 0;
    while k < n
        invariant
            n == fg_spans@.len(),
            k <= n,
            forall|j: int| 0 <= j < n ==> #[trigger] fg_spans@[j].capture < syntax_capture_count(),
            fg_span_at(fg_spans@, x as int, 0) == fg_span_at(fg_spans@, x as int, k as int),
        decreases n - k,
    {
        let span = fg_spans[k];
        if span.start <= x && x < span.end {
            return theme.syntax(span.capture);
        }
        k = k + 1;
    }
    theme.foreground
}

/// Merge background spans (later ones win) and syntax spans (earlier ones win) into the flat,
/// non-overlapping segments that cover `0..len`, cut at every span boundary; a byte under no
/// syntax span takes the palette's default foreground.
pub fn compose_segments(
    len: usize,
    bg_spans: &[(usize, usize, Color)],
    fg_spans: Option<&Vec<FgSpan>>,
    theme: &Palette,
) -> (segs: Vec<Segment>)
    requires
        forall|k: int| 0 <= k < fg_seq(fg_spans).len() ==> #[trigger] fg_seq(fg_spans)[k].capture < syntax_capture_count(),
    ensures
        segs@ == segments_from(0, len as int, bg_spans@, fg_seq(fg_spans), *theme),
{
    let empty: Vec<FgSpan> = Vec::new();
    let fgs: &[FgSpan] = match fg_spans {
        Some(v) => v.as_slice(),
        None => empty.as_slice(),
    };
    assert(fgs@ == fg_seq(fg_spans));
    let mut segs: Vec<Segment> = Vec::new();
    let mut x: usize = 0;
    while x < len
        invariant
            fgs@ == fg_seq(fg_spans),
            forall|k: int| 0 <= k < fgs@.len() ==> #[trigger] fgs@[k].capture < syntax_capture_count(),
            x <= len,
            segs@ + segments_from(x as int, len as int, bg_spans@, fgs@, *theme) == segments_from(
                0,
                len as int,
                bg_spans@,
                fgs@,
                *theme,
            ),
        decreases len - x,
    {
        let next = next_boundary(len, bg_spans, fgs, x);
        proof {
            lemma_least_above(span_bounds(len as int, bg_spans@, fgs@), x as int, len as int);
        }
        let seg = Segment {
            start: x,
            end: next,
            bg: background_at(bg_spans, x),
            fg: foreground_at(fgs, x, theme),
        };
        let ghost before = segs@;
        segs.push(seg);
        proof {
            assert(segments_from(x as int, len as int, bg_spans@, fgs@, *theme) == seq![seg]
                + segments_from(next as int, len as int, bg_spans@, fgs@, *theme));
            assert(segs@ + segments_from(next as int, len as int, bg_spans@, fgs@, *theme) =~= before
                + (seq![seg] + segments_from(next as int, len as int, bg_spans@, fgs@, *theme)));
        }
        x = next;
    }
    proof {
        assert(segs@ =~= segs@ + segments_from(x as int, len as int, bg_spans@, fgs@, *theme));
    }
    segs
}

/// The segments of `x..len` tile it: each is non-empty, each starts where the previous one
/// ends, the first starts at `x` and the last ends at `len`.
pub proof fn lemma_segments_tile(
    x: int,
    len: int,
    bg_spans: Seq<(usize, usize, Color)>,
    fg_spans: Seq<FgSpan>,
    theme: Palette,
)
    requires
        0 <= x <= len <= usize::MAX,
    ensures
        ({
            let segs = segments_from(x, len, bg_spans, fg_spans, theme);
            &&& x == len ==> segs.len() == 0
            &&& x < len ==> segs.len() > 0 && segs[0].start == x && segs.last().end == len
            &&& forall|k: int| 0 <= k < segs.len() ==> #[trigger] segs[k].start < segs[k].end
            &&& forall|k: int| 0 <= k < segs.len() - 1 ==> #[trigger] segs[k].end == segs[k + 1].start
        }),
    decreases len - x,
{
    if x < len {
        let next = least_above(span_bounds(len, bg_spans, fg_spans), x, len);
        lemma_least_above(span_bounds(len, bg_spans, fg_spans), x, len);
        lemma_segments_tile(next, len, bg_spans, fg_spans, theme);
        let rest = segments_from(next, len, bg_spans, fg_spans, theme);
        let segs = segments_from(x, len, bg_spans, fg_spans, theme);
        let first = Segment { start: x as usize, end: next as usize, bg: bg_at(bg_spans, x), fg: fg_at(fg_spans, x, theme) };
        assert(segs == seq![first] + rest);
        assert forall|k: int| 0 <= k < segs.len() implies #[trigger] segs[k].start < segs[k].end by {
            if k > 0 {
                assert(segs[k] == rest[k - 1]);
            }
        }
        assert forall|k: int| 0 <= k < segs.len() - 1 implies #[trigger] segs[k].end == segs[k + 1].start by {
            assert(segs[k + 1] == rest[k]);
            if k > 0 {
                assert(segs[k] == rest[k - 1]);
            }
        }
    }
}

/// The display width `unicode_width` gives a whole string.
pub uninterp spec fn unicode_str_width(s: Seq<char>) -> usize;

/// The displayed width of `s` in columns.
///
/// Calls `unicode_width::UnicodeWidthStr::width`; the contract only names its result, a
/// function of the string alone.
#[verifier::external_body]
pub(crate) fn str_width(s: &str) -> (w: usize)
    ensures
        w == unicode_str_width(s@),
{
    unicode_width::UnicodeWidthStr::width(s)
}

/// `a - b`, or 0 when `b` exceeds `a`.
pub open spec fn saturating_minus(a: nat, b: nat) -> nat {
    if a >= b {
        (a - b) as nat
    } else {
        0
    }
}

/// Panning spans `k..` with `skip` display columns still to drop: whole spans are dropped while
/// they fit in the budget; the span the budget runs out in keeps its text from the cut on (in
/// its own style), after a one-column pad when a wide character straddled the cut; every later
/// span is kept as it is.
pub open spec fn pan_from(spans: Seq<SpanView>, k: int, skip: nat, theme: Palette) -> Seq<SpanView>
    decreases spans.len() - k,
{
    if k < 0 || k >= spans.len() {
        Seq::empty()
    } else if skip == 0 {
        seq![spans[k]] + pan_from(spans, k + 1, 0, theme)
    } else {
        let cut = cut_from(spans[k].content, 0, 0, skip as int);
        if cut.1 || cut.0 < spans[k].content.len() {
            (if cut.1 {
                seq![span(seq![' '], fg_style(theme.foreground))]
            } else {
                Seq::empty()
            }) + (if cut.0 < spans[k].content.len() {
                seq![span(spans[k].content.skip(cut.0), spans[k].style)]
            } else {
                Seq::empty()
            }) + pan_from(spans, k + 1, 0, theme)
        } else {
            pan_from(
                spans,
                k + 1,
                saturating_minus(skip, unicode_str_width(spans[k].content) as nat),
                theme,
            )
        }
    }
}

/// A line's spans panned `cols` display columns to the left: unchanged when not scrolled or
/// when the line has no text; else the dim `…` left-edge marker, then the spans with `cols`
/// columns and one more (the marker's) dropped (see [`pan_from`]).
pub open spec fn panned(spans: Seq<SpanView>, cols: nat, theme: Palette) -> Seq<SpanView> {
    if cols == 0 || (forall|k: int| 0 <= k < spans.len() ==> #[trigger] spans[k].content.len() == 0) {
        spans
    } else {
        seq![span(seq!['\u{2026}'], fg_style(theme.dim))] + pan_from(spans, 0, cols + 1, theme)
    }
}

/// A copy of `s`.
fn copy_span(s: &StyledSpan) -> (r: StyledSpan)
    ensures
        r@ == s@,
{
    StyledSpan { content: s.content.clone(), style: s.style }
}

/// Pan an already-built line of styled spans `cols` display columns to the left (see
/// [`panned`]); styles are kept, never recomputed.
pub fn pan_spans(spans: Vec<StyledSpan>, cols: usize, theme: &Palette) -> (out: Vec<StyledSpan>)
    requires
        cols < usize::MAX,
    ensures
        spans_view(out@) == panned(spans_view(spans@), cols as nat, *theme),
{
    let ghost v = spans_view(spans@);
    if cols == 0 {
        return spans;
    }
    let n = spans.len();
    let mut all_empty = true;
    let mut k: usize = 0;
    while k < n
        invariant
            n == spans@.len(),
            v == spans_view(spans@),
            k <= n,
            all_empty == forall|j: int| 0 <= j < k ==> #[trigger] v[j].content.len() == 0,
        decreases n - k,
    {
        assert(v[k as int].content == spans@[k as int].content@);
        if !spans[k].content.as_str().is_empty() {
            all_empty = false;
        }
        k = k + 1;
    }
    if all_empty {
        return spans;
    }
    proof {
        reveal_strlit("\u{2026}");
        reveal_strlit(" ");
    }
    let mut out: Vec<StyledSpan> = vec![styled(text("\u{2026}"), with_fg(theme.dim))];
    let ghost goal = panned(v, cols as nat, *theme);
    assert(spans_view(out@) =~~= seq![span(seq!['\u{2026}'], fg_style(theme.dim))]);
    let mut skip: usize = cols + 1;
    let mut k: usize = 0;
    while k < n
        invariant
            n == spans@.len(),
            v == spans_view(spans@),
            k <= n,
            spans_view(out@) + pan_from(v, k as int, skip as nat, *theme) =~~= goal,
        decreases n - k,
    {
        let ghost before = spans_view(out@);
        if skip == 0 {
            out.push(copy_span(&spans[k]));
            assert(spans_view(out@) =~~= before.push(v[k as int]));
        } else {
            let content = spans[k].content.as_str();
            let cs = chars_of(content);
            let len = cs.len();
            let (ci, straddled) = cut_chars(cs.as_slice(), skip);
            if straddled || ci < len {
                skip = 0;
                let ghost mid = before;
                if straddled {
                    proof {
                        reveal_strlit(" ");
                    }
                    out.push(styled(text(" "), with_fg(theme.foreground)));
                    proof {
                        mid = before.push(span(seq![' '], fg_style(theme.foreground)));
                    }
                    assert(spans_view(out@) =~~= mid);
                }
                if ci < len {
                    let rest = content.substring_char(ci, len);
                    out.push(styled(String::from_str(rest), spans[k].style));
                    assert(spans_view(out@) =~~= mid.push(span(v[k as int].content.skip(ci as int), v[k as int].style)));
                }
            } else {
                let w = str_width(content);
                skip = if skip >= w {
                    skip - w
                } else {
                    0
                };
            }
        }
        k = k + 1;
    }
    out
}

/// A word-level changed byte range of a line, emphasized in the strong background.
#[derive(Debug, Clone, Copy, PartialEq, Eq, Structural)]
pub struct WordSpan {
    pub start: usize,
    pub end: usize,
}

/// Byte offset `b` starts a character of `cs` (or is its end).
pub open spec fn char_start(cs: Seq<char>, b: int) -> bool {
    exists|i: int| 0 <= i <= cs.len() && #[trigger] byte_pos(cs, i) == b
}

/// The background spans of a changed line: for a word-paired line, the whole line in the subtle
/// background and each changed word in the strong one; for an unpaired line, the whole line in
/// the strong background; none for an unchanged line.
pub open spec fn emphasis_spans(
    len: usize,
    emphasis: Option<(Color, Color)>,
    word_spans: Seq<WordSpan>,
    is_word_pair: bool,
) -> Seq<(usize, usize, Color)> {
    match emphasis {
        None => Seq::empty(),
        Some((subtle, strong)) => if is_word_pair {
            seq![(0usize, len, subtle)] + Seq::new(
                word_spans.len(),
                |k: int| (word_spans[k].start, word_spans[k].end, strong),
            )
        } else {
            seq![(0usize, len, strong)]
        },
    }
}

/// The span of one segment of a line whose UTF-8 is `bytes`: the text of its byte range, in its
/// colors.
pub open spec fn segment_span(bytes: Seq<u8>, seg: Segment) -> SpanView {
    span(
        decode_utf8(bytes.subrange(seg.start as int, seg.end as int)),
        Style { fg: Some(seg.fg), bg: seg.bg, bold: false, italic: false },
    )
}

/// The styled spans of one line of diff text before panning: one per segment of its emphasis
/// and syntax spans (see [`compose_segments`]).
pub open spec fn line_spans(
    text: Seq<char>,
    hl: Seq<FgSpan>,
    emphasis: Option<(Color, Color)>,
    word_spans: Seq<WordSpan>,
    is_word_pair: bool,
    theme: Palette,
) -> Seq<SpanView> {
    let bytes = encode_utf8(text);
    let len = bytes.len();
    let segs = segments_from(
        0,
        len as int,
        emphasis_spans(len as usize, emphasis, word_spans, is_word_pair),
        hl,
        theme,
    );
    if segs.len() == 0 && len > 0 {
        seq![span(text, fg_style(theme.foreground))]
    } else {
        segs.map_values(|seg: Segment| segment_span(bytes, seg))
    }
}

/// The least boundary above `x` is `top` or one of the bounds.
proof fn lemma_least_above_member(bounds: Seq<int>, x: int, top: int)
    ensures
        least_above(bounds, x, top) == top || exists|k: int|
            0 <= k < bounds.len() && #[trigger] bounds[k] == least_above(bounds, x, top),
    decreases bounds.len(),
{
    if bounds.len() > 0 {
        lemma_least_above_member(bounds.drop_last(), x, top);
        let m = least_above(bounds.drop_last(), x, top);
        if m != top && !(bounds.last() > x && bounds.last() < m) {
            let k = choose|k: int| 0 <= k < bounds.drop_last().len() && #[trigger] bounds.drop_last()[k] == m;
            assert(bounds[k] == m);
        }
    }
}

/// Every segment of `segs` starts and ends on a character boundary of `cs`.
pub open spec fn on_char_boundaries(cs: Seq<char>, segs: Seq<Segment>) -> bool {
    forall|k: int|
        0 <= k < segs.len() ==> char_start(cs, #[trigger] segs[k].start as int) && char_start(
            cs,
            segs[k].end as int,
        )
}

/// Every segment of `x..len` starts and ends on a character boundary when `x`, `len` and every
/// span boundary are ones.
proof fn lemma_segments_on_boundaries(
    x: int,
    len: int,
    bg_spans: Seq<(usize, usize, Color)>,
    fg_spans: Seq<FgSpan>,
    theme: Palette,
    cs: Seq<char>,
)
    requires
        0 <= x <= len <= usize::MAX,
        char_start(cs, x),
        char_start(cs, len),
        forall|k: int| 0 <= k < span_bounds(len, bg_spans, fg_spans).len() ==> char_start(cs, #[trigger] span_bounds(len, bg_spans, fg_spans)[k]),
    ensures
        on_char_boundaries(cs, segments_from(x, len, bg_spans, fg_spans, theme)),
    decreases len - x,
{
    if x < len {
        let bounds = span_bounds(len, bg_spans, fg_spans);
        let next = least_above(bounds, x, len);
        lemma_least_above(bounds, x, len);
        lemma_least_above_member(bounds, x, len);
        if next != len {
            let k = choose|k: int| 0 <= k < bounds.len() && #[trigger] bounds[k] == next;
            assert(char_start(cs, bounds[k]));
        }
        lemma_segments_on_boundaries(next, len, bg_spans, fg_spans, theme, cs);
        let rest = segments_from(next, len, bg_spans, fg_spans, theme);
        let segs = segments_from(x, len, bg_spans, fg_spans, theme);
        let first = Segment { start: x as usize, end: next as usize, bg: bg_at(bg_spans, x), fg: fg_at(fg_spans, x, theme) };
        assert(segs == seq![first] + rest);
        assert forall|k: int| 0 <= k < segs.len() implies char_start(cs, #[trigger] segs[k].start as int)
            && char_start(cs, segs[k].end as int) by {
            if k > 0 {
                assert(segs[k] == rest[k - 1]);
                assert(char_start(cs, rest[k - 1].start as int));
                assert(char_start(cs, rest[k - 1].end as int));
            } else {
                assert(segs[k] == first);
                assert(char_start(cs, x));
                assert(char_start(cs, next));
            }
        }
        assert(on_char_boundaries(cs, segs));
    } else {
        assert(segments_from(x, len, bg_spans, fg_spans, theme).len() == 0);
    }
}

/// The bytes between two character positions decode to the characters between them.
proof fn lemma_slice_decodes(cs: Seq<char>, i: int, j: int)
    requires
        0 <= i <= j <= cs.len(),
    ensures
        decode_utf8(encode_utf8(cs).subrange(byte_pos(cs, i), byte_pos(cs, j))) == cs.subrange(i, j),
{
    broadcast use vstd::utf8::encode_utf8_decode_utf8;

    let a = cs.take(i);
    let m = cs.subrange(i, j);
    let z = cs.skip(j);
    assert(cs =~= a + m + z);
    assert(cs.take(j) =~= a + m);
    lemma_encode_concat(a + m, z);
    lemma_encode_concat(a, m);
    assert(encode_utf8(cs).subrange(byte_pos(cs, i), byte_pos(cs, j)) =~= encode_utf8(m));
}

/// The character position whose byte offset `offs` records as `b`.
fn char_index(offs: &Vec<usize>, b: usize) -> (i: usize)
    requires
        exists|k: int| 0 <= k < offs@.len() && #[trigger] offs@[k] == b,
    ensures
        i < offs@.len(),
        offs@[i as int] == b,
{
    let n = offs.len();
    let mut i: usize = 0;
    while i < n
        invariant
            n == offs@.len(),
            i <= n,
            exists|k: int| i <= k < n && #[trigger] offs@[k] == b,
        decreases n - i,
    {
        if offs[i] == b {
            return i;
        }
        i = i + 1;
    }
    i
}

/// Every syntax span of `hl` names a known capture, and every boundary that cuts `text` into
/// segments (each syntax span's ends and, when word emphasis applies, each word span's ends,
/// clamped to the line) falls on a character boundary.
pub open spec fn cuts_cleanly(
    text: Seq<char>,
    hl: Seq<FgSpan>,
    emphasized: bool,
    word_spans: Seq<WordSpan>,
    is_word_pair: bool,
) -> bool {
    &&& forall|k: int| 0 <= k < hl.len() ==> #[trigger] hl[k].capture < syntax_capture_count()
    &&& forall|k: int|
        #![trigger hl[k]]
        0 <= k < hl.len() ==> char_start(text, clamp(hl[k].start as int, encode_utf8(text).len() as int))
            && char_start(text, clamp(hl[k].end as int, encode_utf8(text).len() as int))
    &&& emphasized && is_word_pair ==> forall|k: int|
        #![trigger word_spans[k]]
        0 <= k < word_spans.len() ==> char_start(
            text,
            clamp(word_spans[k].start as int, encode_utf8(text).len() as int),
        ) && char_start(text, clamp(word_spans[k].end as int, encode_utf8(text).len() as int))
}

/// The styled spans of one line of diff text (see [`line_spans`]), panned `hscroll` columns
/// (see [`panned`]). Every span boundary must fall on a character boundary of `text`, since
/// each segment's text is cut out of it by byte offset.
pub fn content_spans(
    text: &str,
    hl: Option<&Vec<FgSpan>>,
    emphasis: Option<(Color, Color)>,
    word_spans: &[WordSpan],
    is_word_pair: bool,
    theme: &Palette,
    hscroll: usize,
) -> (out: Vec<StyledSpan>)
    requires
        hscroll < usize::MAX,
        cuts_cleanly(text@, fg_seq(hl), emphasis is Some, word_spans@, is_word_pair),
    ensures
        spans_view(out@) == panned(
            line_spans(text@, fg_seq(hl), emphasis, word_spans@, is_word_pair, *theme),
            hscroll as nat,
            *theme,
        ),
{
    let cs = chars_of(text);
    let offs = byte_offsets(text, &cs);
    let len = text.len();
    let n = cs.len();
    let ghost bytes = encode_utf8(text@);
    proof {
        assert(cs@.take(n as int) =~= cs@);
        assert(offs@[n as int] == len);
        assert(text@.take(0) =~= Seq::<char>::empty());
        assert(encode_utf8(Seq::<char>::empty()) =~= Seq::<u8>::empty());
        assert(byte_pos(text@, 0) == 0);
        assert(byte_pos(text@, n as int) == len);
    }
    let mut bg_spans: Vec<(usize, usize, Color)> = Vec::new();
    match emphasis {
        Some((subtle, strong)) => {
            if is_word_pair {
                bg_spans.push((0, len, subtle));
                let mut k: usize = 0;
                while k < word_spans.len()
                    invariant
                        k <= word_spans@.len(),
                        bg_spans@ == seq![(0usize, len, subtle)] + Seq::new(
                            k as nat,
                            |j: int| (word_spans@[j].start, word_spans@[j].end, strong),
                        ),
                    decreases word_spans@.len() - k,
                {
                    bg_spans.push((word_spans[k].start, word_spans[k].end, strong));
                    proof {
                        assert(bg_spans@ =~= seq![(0usize, len, subtle)] + Seq::new(
                            (k + 1) as nat,
                            |j: int| (word_spans@[j].start, word_spans@[j].end, strong),
                        ));
                    }
                    k = k + 1;
                }
                assert(bg_spans@ =~= emphasis_spans(len, emphasis, word_spans@, is_word_pair));
            } else {
                bg_spans.push((0, len, strong));
                assert(bg_spans@ =~= emphasis_spans(len, emphasis, word_spans@, is_word_pair));
            }
        },
        None => {
            assert(bg_spans@ =~= emphasis_spans(len, emphasis, word_spans@, is_word_pair));
        },
    }
    let ghost bounds = span_bounds(len as int, bg_spans@, fg_seq(hl));
    proof {
        let bg = bg_spans@;
        let fg = fg_seq(hl);
        let nb = bg.len() as int;
        let nf = fg.len() as int;
        assert(char_start(text@, 0));
        assert(char_start(text@, len as int));
        assert(len as int == encode_utf8(text@).len());
        assert forall|k: int| 0 <= k < bounds.len() implies char_start(text@, #[trigger] bounds[k]) by {
            if k < 2 * nb {
                let j = if k < nb {
                    k
                } else {
                    k - nb
                };
                if k < nb {
                    assert(bounds[k] == clamp(bg[j].0 as int, len as int));
                } else {
                    assert(bounds[k] == clamp(bg[j].1 as int, len as int));
                }
                if j == 0 {
                    assert(bg[0].0 == 0 && bg[0].1 == len);
                    assert(clamp(0, len as int) == 0);
                    assert(clamp(len as int, len as int) == len);
                    assert(char_start(text@, bounds[k]));
                } else {
                    if let Some((weak, strong)) = emphasis {
                        assert(is_word_pair);
                        assert(bg[j] == (word_spans@[j - 1].start, word_spans@[j - 1].end, strong));
                    }
                    assert(char_start(text@, bounds[k]));
                }
            } else if k < 2 * nb + nf {
                assert(bounds[k] == clamp(fg[k - 2 * nb].start as int, len as int));
            } else {
                assert(bounds[k] == clamp(fg[k - 2 * nb - nf].end as int, len as int));
            }
        }
        lemma_segments_on_boundaries(0, len as int, bg_spans@, fg_seq(hl), *theme, text@);
        lemma_segments_tile(0, len as int, bg_spans@, fg_seq(hl), *theme);
    }
    let segments = compose_segments(len, bg_spans.as_slice(), hl, theme);
    let ghost segs = segments@;
    let mut spans: Vec<StyledSpan> = Vec::new();
    if segments.len() == 0 && len > 0 {
        spans.push(styled(String::from_str(text), with_fg(theme.foreground)));
        assert(spans_view(spans@) =~~= line_spans(text@, fg_seq(hl), emphasis, word_spans@, is_word_pair, *theme));
        return pan_spans(spans, hscroll, theme);
    }
    let m = segments.len();
    let mut k: usize = 0;
    while k < m
        invariant
            m == segs.len(),
            segs == segments@,
            segs == segments_from(0, len as int, bg_spans@, fg_seq(hl), *theme),
            cs@ == text@,
            n == cs@.len(),
            offs@.len() == n + 1,
            forall|j: int| 0 <= j <= n ==> #[trigger] offs@[j] as int == byte_pos(cs@, j),
            bytes == encode_utf8(text@),
            forall|j: int| 0 <= j < segs.len() ==> char_start(text@, #[trigger] segs[j].start as int)
                && char_start(text@, segs[j].end as int),
            forall|j: int| 0 <= j < segs.len() ==> #[trigger] segs[j].start < segs[j].end,
            k <= m,
            spans_view(spans@) =~~= segs.take(k as int).map_values(|seg: Segment| segment_span(bytes, seg)),
        decreases m - k,
    {
        let seg = segments[k];
        proof {
            let i0 = choose|i: int| 0 <= i <= cs@.len() && #[trigger] byte_pos(cs@, i) == seg.start as int;
            assert(offs@[i0] == seg.start);
            let j0 = choose|i: int| 0 <= i <= cs@.len() && #[trigger] byte_pos(cs@, i) == seg.end as int;
            assert(offs@[j0] == seg.end);
        }
        let i = char_index(&offs, seg.start);
        let j = char_index(&offs, seg.end);
        proof {
            if j < i {
                lemma_byte_pos_strict(cs@, j as int, i as int);
            }
            lemma_slice_decodes(cs@, i as int, j as int);
        }
        let piece = text.substring_char(i, j);
        let style = Style { fg: Some(seg.fg), bg: seg.bg, bold: false, italic: false };
        spans.push(styled(String::from_str(piece), style));
        proof {
            assert(segs.take(k + 1).map_values(|seg: Segment| segment_span(bytes, seg)) =~= segs.take(
                k as int,
            ).map_values(|seg: Segment| segment_span(bytes, seg)).push(segment_span(bytes, seg)));
        }
        k = k + 1;
    }
    proof {
        assert(segs.take(m as int) =~= segs);
    }
    pan_spans(spans, hscroll, theme)
}

/// The display width of a line of spans: the sum of its spans' widths.
pub open spec fn spans_width(spans: Seq<SpanView>) -> nat
    decreases spans.len(),
{
    if spans.len() == 0 {
        0
    } else {
        spans_width(spans.drop_last()) + unicode_str_width(spans.last().content) as nat
    }
}

/// A line washed with a row tint: every span's background blended with the tint (see
/// [`blended`]), then, when the line's width (cut to a `u16`, so modulo 65536) falls short of
/// `width`, a run of spaces in the tint to fill the row.
pub open spec fn row_tinted(spans: Seq<SpanView>, width: u16, tint: Color) -> Seq<SpanView> {
    let washed = spans.map_values(|s: SpanView| tinted_span(s, tint));
    let used = spans_width(spans) % 65536;
    if used < width {
        washed.push(span(spaces((width - used) as nat), Style { fg: None, bg: Some(tint), bold: false, italic: false }))
    } else {
        washed
    }
}

/// A span with its background blended with `tint` (see [`blended`]).
pub open spec fn tinted_span(s: SpanView, tint: Color) -> SpanView {
    span(
        s.content,
        Style { fg: s.style.fg, bg: Some(blended(s.style.bg, tint)), bold: s.style.bold, italic: s.style.italic },
    )
}

/// Blend `tint` into every span's background of `line` and pad it with tinted spaces to `width`
/// columns (see [`row_tinted`]).
pub fn apply_row_tint(line: Line, width: u16, tint: Color) -> (out: Line)
    ensures
        out@ == row_tinted(line@, width, tint),
{
    let ghost v = line@;
    let n = line.spans.len();
    let mut spans: Vec<StyledSpan> = Vec::new();
    let mut used: u32 = 0;
    let mut k: usize = 0;
    proof {
        assert(v.take(0) =~= Seq::<SpanView>::empty());
    }
    while k < n
        invariant
            n == line.spans@.len(),
            v == line@,
            k <= n,
            used as nat == spans_width(v.take(k as int)) % 65536,
            spans_view(spans@) =~~= v.take(k as int).map_values(|s: SpanView| tinted_span(s, tint)),
        decreases n - k,
    {
        let s = &line.spans[k];
        let bg = blend_bg(s.style.bg, tint);
        let w = str_width(s.content.as_str());
        proof {
            assert(v.take(k + 1).drop_last() =~= v.take(k as int));
            assert(v[k as int] == s@);
            vstd::arithmetic::div_mod::lemma_add_mod_noop(
                spans_width(v.take(k as int)) as int,
                w as int,
                65536,
            );
        }
        spans.push(StyledSpan {
            content: s.content.clone(),
            style: Style { fg: s.style.fg, bg: Some(bg), bold: s.style.bold, italic: s.style.italic },
        });
        let part = (w % 65536) as u32;
        used = (used + part) % 65536;
        proof {
            assert(v.take(k + 1).map_values(|s: SpanView| tinted_span(s, tint)) =~~= v.take(
                k as int,
            ).map_values(|s: SpanView| tinted_span(s, tint)).push(tinted_span(v[k as int], tint)));
        }
        k = k + 1;
    }
    proof {
        assert(v.take(n as int) =~= v);
    }
    if used < width as u32 {
        let mut pad = String::new();
        push_spaces(&mut pad, (width as u32 - used) as usize);
        let ghost before = spans_view(spans@);
        spans.push(StyledSpan { content: pad, style: Style { fg: None, bg: Some(tint), bold: false, italic: false } });
        assert(spans_view(spans@) =~~= before.push(
            span(spaces((width - used) as nat), Style { fg: None, bg: Some(tint), bold: false, italic: false }),
        ));
    }
    Line { spans }
}

/// Wash the cursor row: the full cursor tint in the focused pane, the dimmer one elsewhere.
pub fn apply_cursor_row(line: Line, width: u16, theme: &Palette, focused: bool) -> (out: Line)
    ensures
        out@ == row_tinted(
            line@,
            width,
            if focused {
                theme.cursor_bg
            } else {
                theme.cursor_unfocused_bg
            },
        ),
{
    apply_row_tint(line, width, cursor_tint(theme, focused))
}

/// Wash a selected row with the selection tint.
pub fn apply_selection_row(line: Line, width: u16, theme: &Palette) -> (out: Line)
    ensures
        out@ == row_tinted(line@, width, theme.selection_bg),
{
    apply_row_tint(line, width, theme.selection_bg)
}

/// Where a file's changes sit relative to the index, for its outline status columns.
#[derive(Debug, Clone, Copy, PartialEq, Eq, Structural)]
pub enum StagedStatus {
    /// A committed changeset's file: no staged/unstaged split applies.
    Committed,
    /// Changes only in the worktree.
    Unstaged,
    /// Changes only in the index.
    Staged,
    /// Changes in both.
    Partial,
}

/// A file row's two-column status matrix: `??` (dim) for an untracked file; for a committed
/// file its status letter in the committed color and a blank column; otherwise the git
/// porcelain X/Y pair — the letter in the staged column (green) and/or the worktree column
/// (red), a dim middle dot in a column without changes.
pub open spec fn status_spans_spec(status: StagedStatus, change: FileStatus, theme: Palette) -> Seq<SpanView> {
    if change == FileStatus::Untracked {
        seq![span(seq!['?', '?'], fg_style(theme.dim))]
    } else {
        match status {
            StagedStatus::Committed => seq![
                span(seq![status_letter(change)], fg_style(committed_color(change, theme))),
                span(seq![' '], fg_style(theme.foreground)),
            ],
            _ => {
                let staged = status == StagedStatus::Staged || status == StagedStatus::Partial;
                let unstaged = status == StagedStatus::Unstaged || status == StagedStatus::Partial;
                seq![
                    span(
                        seq![if staged { status_letter(change) } else { '\u{b7}' }],
                        fg_style(if staged { theme.add_strong } else { theme.dim }),
                    ),
                    span(
                        seq![if unstaged { status_letter(change) } else { '\u{b7}' }],
                        fg_style(if unstaged { theme.del_strong } else { theme.dim }),
                    ),
                ]
            },
        }
    }
}

/// The one-character text of a status letter.
fn letter_text(change: FileStatus) -> (s: String)
    ensures
        s@ == seq![status_letter(change)],
{
    proof {
        reveal_strlit("A");
        reveal_strlit("D");
        reveal_strlit("M");
        reveal_strlit("R");
        reveal_strlit("C");
        reveal_strlit("?");
        reveal_strlit("U");
    }
    match change {
        FileStatus::Added => text("A"),
        FileStatus::Deleted => text("D"),
        FileStatus::Modified => text("M"),
        FileStatus::Renamed => text("R"),
        FileStatus::Copied => text("C"),
        FileStatus::Untracked => text("?"),
        FileStatus::Unmerged => text("U"),
    }
}

/// One status column: the letter when that side has changes, else the dim placeholder.
fn status_column(has: bool, change: FileStatus, color: Color, theme: &Palette) -> (s: StyledSpan)
    ensures
        s@ == span(
            seq![if has { status_letter(change) } else { '\u{b7}' }],
            fg_style(if has { color } else { theme.dim }),
        ),
{
    proof {
        reveal_strlit("\u{b7}");
    }
    if has {
        styled(letter_text(change), with_fg(color))
    } else {
        styled(text("\u{b7}"), with_fg(theme.dim))
    }
}

/// A file row's status matrix spans (see [`status_spans_spec`]).
pub fn outline_status_spans(status: StagedStatus, change: FileStatus, theme: &Palette) -> (spans: Vec<StyledSpan>)
    ensures
        spans_view(spans@) == status_spans_spec(status, change, *theme),
{
    if change == FileStatus::Untracked {
        proof {
            reveal_strlit("??");
        }
        let spans = vec![styled(text("??"), with_fg(theme.dim))];
        assert(spans_view(spans@) =~~= status_spans_spec(status, change, *theme));
        return spans;
    }
    match status {
        StagedStatus::Committed => {
            proof {
                reveal_strlit(" ");
            }
            let spans = vec![
                styled(letter_text(change), with_fg(committed_letter_color(change, theme))),
                styled(text(" "), with_fg(theme.foreground)),
            ];
            assert(spans_view(spans@) =~~= status_spans_spec(status, change, *theme));
            spans
        },
        _ => {
            let staged = status == StagedStatus::Staged || status == StagedStatus::Partial;
            let unstaged = status == StagedStatus::Unstaged || status == StagedStatus::Partial;
            let spans = vec![
                status_column(staged, change, theme.add_strong, theme),
                status_column(unstaged, change, theme.del_strong, theme),
            ];
            assert(spans_view(spans@) =~~= status_spans_spec(status, change, *theme));
            spans
        },
    }
}

/// The style of a pane header label: the focused-label color in bold while its pane holds
/// focus, dim otherwise.
pub open spec fn header_label_style(theme: Palette, focused: bool) -> Style {
    if focused {
        Style { fg: Some(theme.pane_header_focused_fg), bg: None, bold: true, italic: false }
    } else {
        fg_style(theme.dim)
    }
}

/// The style of a pane header's label (see [`header_label_style`]).
pub fn pane_header_label_style(theme: &Palette, focused: bool) -> (s: Style)
    ensures
        s == header_label_style(*theme, focused),
{
    if focused {
        Style { fg: Some(theme.pane_header_focused_fg), bg: None, bold: true, italic: false }
    } else {
        with_fg(theme.dim)
    }
}

} // verus!
