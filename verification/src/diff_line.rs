//! The rows of a diff pane: the background pair a changed cell is washed with (bright, or the
//! dimmer pair once its change is staged), the side-by-side and inline content rows, and the
//! collapsed-gap row.
use vstd::prelude::*;
use vstd::string::StringExecFns;

use crate::align::{AlignedRow, CellKind, Row};
use crate::highlight::FgSpan;
use crate::render::{
    apply_cursor_row, apply_selection_row, content_spans, cursor_tint, cuts_cleanly, decimal_chars, fg_seq,
    field_chars, gutter_field, line_spans, panned, push_decimal_chars, row_tinted, saturating_minus, WordSpan,
};
use crate::styled::{append_spans, fg_style, line, span, spans_view, styled, text, with_fg, Line, SpanView, Style};
use crate::theme::{Color, Palette};

verus! {

/// The diff a pane shows: the working tree against the base (combined), the working tree
/// against the index (unstaged), or the index against the base (staged).
#[derive(Debug, Clone, Copy, PartialEq, Eq, Structural)]
pub enum Role {
    Combined,
    Unstaged,
    Staged,
}

/// Which changed lines of a file's combined diff are already staged: the old-side line numbers
/// whose deletion is in the index, and the new-side line numbers whose addition is not yet.
pub struct Attribution {
    pub staged_dels: Vec<u32>,
    pub unstaged_adds: Vec<u32>,
}

/// Whether `n` occurs in `v`.
fn holds_lnum(v: &Vec<u32>, n: u32) -> (r: bool)
    ensures
        r == v@.contains(n),
{
    let mut i: usize = 0;
    while i < v.len()
        invariant
            i <= v@.len(),
            forall|j: int| 0 <= j < i ==> v@[j] != n,
        decreases v@.len() - i,
    {
        if v[i] == n {
            assert(v@[i as int] == n);
            return true;
        }
        i = i + 1;
    }
    false
}

impl Attribution {
    /// Whether the deletion of old-side line `old_lnum` is staged.
    pub fn del_is_staged(&self, old_lnum: u32) -> (r: bool)
        ensures
            r == self.staged_dels@.contains(old_lnum),
    {
        holds_lnum(&self.staged_dels, old_lnum)
    }

    /// Whether the addition of new-side line `new_lnum` is still unstaged.
    pub fn add_is_unstaged(&self, new_lnum: u32) -> (r: bool)
        ensures
            r == self.unstaged_adds@.contains(new_lnum),
    {
        holds_lnum(&self.unstaged_adds, new_lnum)
    }
}

/// How a pane's changed cells pick their background pair: always the bright pair, always the
/// dimmer staged pair, or line by line from an attribution.
#[derive(Clone, Copy)]
pub enum AttributionMode<'a> {
    Plain,
    StagedUniform,
    Attributed(&'a Attribution),
}

/// The mode a pane of `role` renders with: a combined pane with an attribution goes by it, a
/// combined pane without one (a committed changeset) and an unstaged pane are plain, a staged
/// pane is uniformly staged.
pub fn attribution_mode<'a>(role: Role, attribution: &'a Option<Attribution>) -> (m: AttributionMode<'a>)
    ensures
        role == Role::Combined && attribution is Some ==> (m matches AttributionMode::Attributed(a)
            && *a == attribution->0),
        role == Role::Combined && attribution is None ==> m is Plain,
        role == Role::Unstaged ==> m is Plain,
        role == Role::Staged ==> m is StagedUniform,
{
    match role {
        Role::Combined => match attribution {
            Some(a) => AttributionMode::Attributed(a),
            None => AttributionMode::Plain,
        },
        Role::Unstaged => AttributionMode::Plain,
        Role::Staged => AttributionMode::StagedUniform,
    }
}

/// The (subtle, strong) background pair of a deleted cell at old-side line `old_lnum`: the
/// staged pair when the mode is uniformly staged or attributes that deletion to the index, the
/// bright pair otherwise.
pub open spec fn del_pair(mode: AttributionMode, old_lnum: u32, theme: Palette) -> (Color, Color) {
    let bright = (theme.del_subtle, theme.del_strong);
    let staged = (theme.del_staged_subtle, theme.del_staged_strong);
    match mode {
        AttributionMode::Plain => bright,
        AttributionMode::StagedUniform => staged,
        AttributionMode::Attributed(a) => if a.staged_dels@.contains(old_lnum) {
            staged
        } else {
            bright
        },
    }
}

/// The (subtle, strong) background pair of an added cell at new-side line `new_lnum`: the
/// bright pair when the mode is plain or attributes that addition to the working tree, the
/// staged pair otherwise.
pub open spec fn add_pair(mode: AttributionMode, new_lnum: u32, theme: Palette) -> (Color, Color) {
    let bright = (theme.add_subtle, theme.add_strong);
    let staged = (theme.add_staged_subtle, theme.add_staged_strong);
    match mode {
        AttributionMode::Plain => bright,
        AttributionMode::StagedUniform => staged,
        AttributionMode::Attributed(a) => if a.unstaged_adds@.contains(new_lnum) {
            bright
        } else {
            staged
        },
    }
}

/// A deleted cell's background pair (see [`del_pair`]).
pub fn del_bg_pair(mode: AttributionMode, old_lnum: u32, theme: &Palette) -> (r: (Color, Color))
    ensures
        r == del_pair(mode, old_lnum, *theme),
{
    let bright = (theme.del_subtle, theme.del_strong);
    let staged = (theme.del_staged_subtle, theme.del_staged_strong);
    match mode {
        AttributionMode::Plain => bright,
        AttributionMode::StagedUniform => staged,
        AttributionMode::Attributed(attribution) => {
            if attribution.del_is_staged(old_lnum) {
                staged
            } else {
                bright
            }
        },
    }
}

/// An added cell's background pair (see [`add_pair`]).
pub fn add_bg_pair(mode: AttributionMode, new_lnum: u32, theme: &Palette) -> (r: (Color, Color))
    ensures
        r == add_pair(mode, new_lnum, *theme),
{
    let bright = (theme.add_subtle, theme.add_strong);
    let staged = (theme.add_staged_subtle, theme.add_staged_strong);
    match mode {
        AttributionMode::Plain => bright,
        AttributionMode::StagedUniform => staged,
        AttributionMode::Attributed(attribution) => {
            if attribution.add_is_unstaged(new_lnum) {
                bright
            } else {
                staged
            }
        },
    }
}

/// The background pair of a side-by-side cell of kind `kind` at line `n`: a deleted cell's by
/// its old-side number, an added cell's by its new-side one, none for context and filler.
pub open spec fn cell_emphasis(kind: CellKind, mode: AttributionMode, n: u32, theme: Palette) -> Option<(Color, Color)> {
    match kind {
        CellKind::Del => Some(del_pair(mode, n, theme)),
        CellKind::Add => Some(add_pair(mode, n, theme)),
        CellKind::Context | CellKind::Filler => None,
    }
}

/// `k` diagonal hatch characters.
pub open spec fn hatch(k: nat) -> Seq<char> {
    Seq::new(k, |i: int| '\u{2571}')
}

/// One side-by-side pane row: a filler row is a dim hatch across the gutter, its space and the
/// content width; a line row is its number right-aligned in the gutter and a space, in the
/// gutter color, then the line's styled text (see [`line_spans`]) washed by its cell's pair and
/// panned `hscroll` columns.
pub open spec fn pane_line(
    text: Seq<char>,
    hl: Seq<FgSpan>,
    row: Row,
    kind: CellKind,
    word_spans: Seq<WordSpan>,
    is_word_pair: bool,
    mode: AttributionMode,
    gutter_w: usize,
    content_w: usize,
    theme: Palette,
    hscroll: nat,
) -> Seq<SpanView> {
    match row {
        Row::Filler => seq![span(hatch((content_w + gutter_w + 1) as nat), fg_style(theme.dim))],
        Row::Line(n) => seq![span(field_chars(Some(n), gutter_w).push(' '), fg_style(theme.gutter))]
            + panned(
            line_spans(text, hl, cell_emphasis(kind, mode, n as u32, theme), word_spans, is_word_pair, theme),
            hscroll,
            theme,
        ),
    }
}

/// Append `k` hatch characters.
fn push_hatch(s: &mut String, k: usize)
    ensures
        final(s)@ == old(s)@ + hatch(k as nat),
{
    let mut i: usize = 0;
    while i < k
        invariant
            i <= k,
            s@ == old(s)@ + hatch(i as nat),
        decreases k - i,
    {
        proof {
            reveal_strlit("\u{2571}");
        }
        s.append("\u{2571}");
        proof {
            assert(old(s)@ + hatch((i + 1) as nat) =~= (old(s)@ + hatch(i as nat)).push('\u{2571}'));
        }
        i = i + 1;
    }
}

/// One side-by-side pane row (see [`pane_line`]). `text` and `hl` are the line's text and
/// syntax spans on the pane's side.
pub fn build_pane_line(
    text: &str,
    hl: Option<&Vec<FgSpan>>,
    row: Row,
    kind: CellKind,
    word_spans: &[WordSpan],
    is_word_pair: bool,
    mode: AttributionMode,
    gutter_w: usize,
    content_w: usize,
    theme: &Palette,
    hscroll: usize,
) -> (l: Line)
    requires
        row is Filler ==> content_w + gutter_w + 1 <= usize::MAX,
        row matches Row::Line(n) ==> hscroll < usize::MAX && cuts_cleanly(
            text@,
            fg_seq(hl),
            cell_emphasis(kind, mode, n as u32, *theme) is Some,
            word_spans@,
            is_word_pair,
        ),
    ensures
        l@ == pane_line(
            text@,
            fg_seq(hl),
            row,
            kind,
            word_spans@,
            is_word_pair,
            mode,
            gutter_w,
            content_w,
            *theme,
            hscroll as nat,
        ),
{
    match row {
        Row::Filler => {
            let mut pattern = String::new();
            push_hatch(&mut pattern, content_w + gutter_w + 1);
            assert(pattern@ =~= hatch((content_w + gutter_w + 1) as nat));
            let spans = vec![styled(pattern, with_fg(theme.dim))];
            assert(spans_view(spans@) =~~= pane_line(
                text@,
                fg_seq(hl),
                row,
                kind,
                word_spans@,
                is_word_pair,
                mode,
                gutter_w,
                content_w,
                *theme,
                hscroll as nat,
            ));
            line(spans)
        },
        Row::Line(n) => {
            let mut gutter = gutter_field(Some(n), gutter_w);
            proof {
                reveal_strlit(" ");
            }
            gutter.append(" ");
            let mut spans = vec![styled(gutter, with_fg(theme.gutter))];
            let emphasis = match kind {
                CellKind::Del => Some(del_bg_pair(mode, n as u32, theme)),
                CellKind::Add => Some(add_bg_pair(mode, n as u32, theme)),
                CellKind::Context | CellKind::Filler => None,
            };
            assert(emphasis == cell_emphasis(kind, mode, n as u32, *theme));
            let rest = content_spans(text, hl, emphasis, word_spans, is_word_pair, theme, hscroll);
            append_spans(&mut spans, rest);
            assert(spans_view(spans@) =~~= pane_line(
                text@,
                fg_seq(hl),
                row,
                kind,
                word_spans@,
                is_word_pair,
                mode,
                gutter_w,
                content_w,
                *theme,
                hscroll as nat,
            ));
            line(spans)
        },
    }
}

/// One row of the inline layout: a context line with both line numbers, a deleted line with
/// its old-side number, an added line with its new-side number, or a collapsed run of
/// `skipped` unchanged lines.
#[derive(Debug, Clone, Copy, PartialEq, Eq, Structural)]
pub enum InlineRow {
    Context { old: usize, new: usize },
    Del { old: usize },
    Add { new: usize },
    Gap { skipped: usize },
}

/// The old-side and new-side line numbers an inline row shows in its gutter.
pub open spec fn inline_numbers(row: InlineRow) -> (Option<usize>, Option<usize>) {
    match row {
        InlineRow::Context { old, new } => (Some(old), Some(new)),
        InlineRow::Del { old } => (Some(old), None),
        InlineRow::Add { new } => (None, Some(new)),
        InlineRow::Gap { .. } => (None, None),
    }
}

/// The background pair of an inline row: a deleted row's by its old-side number, an added
/// row's by its new-side one, none for context.
pub open spec fn inline_emphasis(row: InlineRow, mode: AttributionMode, theme: Palette) -> Option<(Color, Color)> {
    match row {
        InlineRow::Del { old } => Some(del_pair(mode, old as u32, theme)),
        InlineRow::Add { new } => Some(add_pair(mode, new as u32, theme)),
        _ => None,
    }
}

/// One inline row: both gutter fields (a blank field where the row has no number on that
/// side), each followed by a space, in the gutter color, then the line's styled text washed by
/// the row's pair and panned `hscroll` columns.
pub open spec fn inline_line(
    text: Seq<char>,
    hl: Seq<FgSpan>,
    row: InlineRow,
    word_spans: Seq<WordSpan>,
    is_word_pair: bool,
    mode: AttributionMode,
    old_gutter_w: usize,
    new_gutter_w: usize,
    theme: Palette,
    hscroll: nat,
) -> Seq<SpanView> {
    let (old_n, new_n) = inline_numbers(row);
    seq![
        span(
            field_chars(old_n, old_gutter_w).push(' ') + field_chars(new_n, new_gutter_w).push(' '),
            fg_style(theme.gutter),
        ),
    ] + panned(line_spans(text, hl, inline_emphasis(row, mode, theme), word_spans, is_word_pair, theme), hscroll, theme)
}

/// One inline row (see [`inline_line`]); gap rows are drawn by [`gap_row_line`] instead.
/// `text` and `hl` are the row's line text and syntax spans: the new side's for context and
/// added rows, the old side's for deleted ones.
pub fn build_inline_line(
    text: &str,
    hl: Option<&Vec<FgSpan>>,
    row: &InlineRow,
    word_spans: &[WordSpan],
    is_word_pair: bool,
    mode: AttributionMode,
    old_gutter_w: usize,
    new_gutter_w: usize,
    theme: &Palette,
    hscroll: usize,
) -> (l: Line)
    requires
        !(*row is Gap),
        hscroll < usize::MAX,
        cuts_cleanly(text@, fg_seq(hl), inline_emphasis(*row, mode, *theme) is Some, word_spans@, is_word_pair),
    ensures
        l@ == inline_line(
            text@,
            fg_seq(hl),
            *row,
            word_spans@,
            is_word_pair,
            mode,
            old_gutter_w,
            new_gutter_w,
            *theme,
            hscroll as nat,
        ),
{
    let (old_opt, new_opt, emphasis) = match *row {
        InlineRow::Context { old, new } => (Some(old), Some(new), None),
        InlineRow::Del { old } => (Some(old), None, Some(del_bg_pair(mode, old as u32, theme))),
        InlineRow::Add { new } => (None, Some(new), Some(add_bg_pair(mode, new as u32, theme))),
        InlineRow::Gap { .. } => (None, None, None),
    };
    assert((old_opt, new_opt) == inline_numbers(*row));
    assert(emphasis == inline_emphasis(*row, mode, *theme));
    proof {
        reveal_strlit(" ");
    }
    let mut gutter = gutter_field(old_opt, old_gutter_w);
    gutter.append(" ");
    let new_field = gutter_field(new_opt, new_gutter_w);
    gutter.append(new_field.as_str());
    gutter.append(" ");
    assert(gutter@ =~= field_chars(old_opt, old_gutter_w).push(' ') + field_chars(new_opt, new_gutter_w).push(' '));
    let mut spans = vec![styled(gutter, with_fg(theme.gutter))];
    let rest = content_spans(text, hl, emphasis, word_spans, is_word_pair, theme, hscroll);
    append_spans(&mut spans, rest);
    assert(spans_view(spans@) =~~= inline_line(
        text@,
        fg_seq(hl),
        *row,
        word_spans@,
        is_word_pair,
        mode,
        old_gutter_w,
        new_gutter_w,
        *theme,
        hscroll as nat,
    ));
    line(spans)
}

/// A row line washed for its marks: with the cursor tint (full in the focused pane, dimmer
/// elsewhere) on the cursor row, else with the selection tint when selected, across `width`
/// columns (see [`row_tinted`]); the cursor wins over the selection.
pub open spec fn washed(l: Seq<SpanView>, width: u16, is_cursor: bool, is_selected: bool, theme: Palette, focused: bool) -> Seq<SpanView> {
    if is_cursor {
        row_tinted(l, width, if focused { theme.cursor_bg } else { theme.cursor_unfocused_bg })
    } else if is_selected {
        row_tinted(l, width, theme.selection_bg)
    } else {
        l
    }
}

/// Wash a row line for its marks (see [`washed`]).
pub fn wash_row(line: Line, width: u16, is_cursor: bool, is_selected: bool, theme: &Palette, focused: bool) -> (out: Line)
    ensures
        out@ == washed(line@, width, is_cursor, is_selected, *theme, focused),
{
    if is_cursor {
        apply_cursor_row(line, width, theme, focused)
    } else if is_selected {
        apply_selection_row(line, width, theme)
    } else {
        line
    }
}

/// Whether display row `row` is the cursor row, and whether it lies in the inclusive selection
/// range.
pub fn row_marks(row: usize, cursor: Option<usize>, selection: Option<(usize, usize)>) -> (r: (bool, bool))
    ensures
        r.0 == (cursor == Some(row)),
        r.1 == (selection matches Some((lo, hi)) && lo <= row <= hi),
{
    let is_cursor = match cursor {
        Some(c) => c == row,
        None => false,
    };
    let is_selected = match selection {
        Some((lo, hi)) => lo <= row && row <= hi,
        None => false,
    };
    (is_cursor, is_selected)
}

/// The collapsed-gap row: `··· N unchanged lines (Enter to expand) ···` dim, washed for its
/// marks across `width` columns.
pub open spec fn gap_line(skipped: nat, is_cursor: bool, is_selected: bool, width: u16, theme: Palette, focused: bool) -> Seq<SpanView> {
    washed(
        seq![
            span(
                "\u{b7}\u{b7}\u{b7} "@ + decimal_chars(skipped) + " unchanged lines (Enter to expand) \u{b7}\u{b7}\u{b7}"@,
                fg_style(theme.dim),
            ),
        ],
        width,
        is_cursor,
        is_selected,
        theme,
        focused,
    )
}

/// The collapsed-gap row (see [`gap_line`]).
pub fn gap_row_line(skipped: usize, is_cursor: bool, is_selected: bool, width: u16, theme: &Palette, focused: bool) -> (l: Line)
    ensures
        l@ == gap_line(skipped as nat, is_cursor, is_selected, width, *theme, focused),
{
    let mut msg = text("\u{b7}\u{b7}\u{b7} ");
    push_decimal_chars(&mut msg, skipped);
    msg.append(" unchanged lines (Enter to expand) \u{b7}\u{b7}\u{b7}");
    let base = line(vec![styled(msg, with_fg(theme.dim))]);
    assert(base@ =~~= seq![
        span(
            "\u{b7}\u{b7}\u{b7} "@ + decimal_chars(skipped as nat) + " unchanged lines (Enter to expand) \u{b7}\u{b7}\u{b7}"@,
            fg_style(theme.dim),
        ),
    ]);
    wash_row(base, width, is_cursor, is_selected, theme, focused)
}

/// How the current file's diff pane is laid out: one pane of one role, or the unstaged and
/// staged panes stacked.
#[derive(Debug, Clone, Copy, PartialEq, Eq, Structural)]
pub enum EffectiveZoom {
    Single(Role),
    Split,
}

/// Which of a file's three diff views are loaded.
#[derive(Debug, Clone, Copy, PartialEq, Eq, Structural)]
pub struct LoadedViews {
    pub combined: bool,
    pub unstaged: bool,
    pub staged: bool,
}

/// Whether the view of `role` is loaded.
pub open spec fn is_loaded(loaded: LoadedViews, role: Role) -> bool {
    match role {
        Role::Combined => loaded.combined,
        Role::Unstaged => loaded.unstaged,
        Role::Staged => loaded.staged,
    }
}

/// Whether a file shows the deferred-load placeholder in place of its diff: while its open is
/// pending, or when the view its zoom needs is not loaded (under a split, when neither the
/// unstaged nor the staged view is).
pub fn needs_deferred_placeholder(open_pending: bool, zoom: EffectiveZoom, loaded: &LoadedViews) -> (r: bool)
    ensures
        r == (open_pending || match zoom {
            EffectiveZoom::Single(role) => !is_loaded(*loaded, role),
            EffectiveZoom::Split => !loaded.unstaged && !loaded.staged,
        }),
{
    if open_pending {
        return true;
    }
    match zoom {
        EffectiveZoom::Single(role) => match role {
            Role::Combined => !loaded.combined,
            Role::Unstaged => !loaded.unstaged,
            Role::Staged => !loaded.staged,
        },
        EffectiveZoom::Split => !loaded.unstaged && !loaded.staged,
    }
}

/// The widths of the old and new panes of a side-by-side body `width` columns wide: one
/// column goes to the divider, the old pane takes half of the rest (rounded down), the new
/// pane the remainder.
pub fn pane_split_widths(width: u16) -> (r: (u16, u16))
    ensures
        r.0 == saturating_minus(width as nat, 1) / 2,
        r.1 == saturating_minus(width as nat, 1) - r.0,
        width > 0 ==> r.0 + r.1 + 1 == width,
{
    let inner = if width > 0 {
        width - 1
    } else {
        0
    };
    let left = inner / 2;
    (left, inner - left)
}

/// The two lines of one side-by-side row: each side's pane line (see [`pane_line`]), with the
/// side's pane width as its content width, washed for the row's marks across that width.
/// `old_text`/`old_hl`/`old_words` are the old side's line text, syntax spans and changed
/// words, and likewise for the new side.
pub fn sbs_row_lines(
    row: &AlignedRow,
    old_text: &str,
    old_hl: Option<&Vec<FgSpan>>,
    old_words: &[WordSpan],
    new_text: &str,
    new_hl: Option<&Vec<FgSpan>>,
    new_words: &[WordSpan],
    is_pair: bool,
    mode: AttributionMode,
    old_gutter_w: usize,
    new_gutter_w: usize,
    old_width: u16,
    new_width: u16,
    theme: &Palette,
    hscroll: usize,
    is_cursor: bool,
    is_selected: bool,
    focused: bool,
) -> (r: (Line, Line))
    requires
        row.old is Filler ==> old_width + old_gutter_w + 1 <= usize::MAX,
        row.new is Filler ==> new_width + new_gutter_w + 1 <= usize::MAX,
        row.old matches Row::Line(n) ==> hscroll < usize::MAX && cuts_cleanly(
            old_text@,
            fg_seq(old_hl),
            cell_emphasis(row.old_kind, mode, n as u32, *theme) is Some,
            old_words@,
            is_pair,
        ),
        row.new matches Row::Line(n) ==> hscroll < usize::MAX && cuts_cleanly(
            new_text@,
            fg_seq(new_hl),
            cell_emphasis(row.new_kind, mode, n as u32, *theme) is Some,
            new_words@,
            is_pair,
        ),
    ensures
        r.0@ == washed(
            pane_line(
                old_text@,
                fg_seq(old_hl),
                row.old,
                row.old_kind,
                old_words@,
                is_pair,
                mode,
                old_gutter_w,
                old_width as usize,
                *theme,
                hscroll as nat,
            ),
            old_width,
            is_cursor,
            is_selected,
            *theme,
            focused,
        ),
        r.1@ == washed(
            pane_line(
                new_text@,
                fg_seq(new_hl),
                row.new,
                row.new_kind,
                new_words@,
                is_pair,
                mode,
                new_gutter_w,
                new_width as usize,
                *theme,
                hscroll as nat,
            ),
            new_width,
            is_cursor,
            is_selected,
            *theme,
            focused,
        ),
{
    let old_line = build_pane_line(
        old_text,
        old_hl,
        row.old,
        row.old_kind,
        old_words,
        is_pair,
        mode,
        old_gutter_w,
        old_width as usize,
        theme,
        hscroll,
    );
    let new_line = build_pane_line(
        new_text,
        new_hl,
        row.new,
        row.new_kind,
        new_words,
        is_pair,
        mode,
        new_gutter_w,
        new_width as usize,
        theme,
        hscroll,
    );
    (
        wash_row(old_line, old_width, is_cursor, is_selected, theme, focused),
        wash_row(new_line, new_width, is_cursor, is_selected, theme, focused),
    )
}

/// The changed words an inline row is emphasized by: the old side's for a deleted row, the
/// new side's for an added row, none otherwise.
pub open spec fn inline_words(row: InlineRow, old_words: Seq<WordSpan>, new_words: Seq<WordSpan>) -> Seq<WordSpan> {
    match row {
        InlineRow::Del { .. } => old_words,
        InlineRow::Add { .. } => new_words,
        _ => Seq::empty(),
    }
}

/// One inline content row (see [`inline_line`]) emphasized by its side's changed words (see
/// [`inline_words`]) and washed for the row's marks across `width` columns.
pub fn inline_row_line(
    text: &str,
    hl: Option<&Vec<FgSpan>>,
    row: &InlineRow,
    old_words: &[WordSpan],
    new_words: &[WordSpan],
    is_pair: bool,
    mode: AttributionMode,
    old_gutter_w: usize,
    new_gutter_w: usize,
    width: u16,
    theme: &Palette,
    hscroll: usize,
    is_cursor: bool,
    is_selected: bool,
    focused: bool,
) -> (l: Line)
    requires
        !(*row is Gap),
        hscroll < usize::MAX,
        cuts_cleanly(
            text@,
            fg_seq(hl),
            inline_emphasis(*row, mode, *theme) is Some,
            inline_words(*row, old_words@, new_words@),
            is_pair,
        ),
    ensures
        l@ == washed(
            inline_line(
                text@,
                fg_seq(hl),
                *row,
                inline_words(*row, old_words@, new_words@),
                is_pair,
                mode,
                old_gutter_w,
                new_gutter_w,
                *theme,
                hscroll as nat,
            ),
            width,
            is_cursor,
            is_selected,
            *theme,
            focused,
        ),
{
    let none: [WordSpan; 0] = [];
    let words: &[WordSpan] = match row {
        InlineRow::Del { .. } => old_words,
        InlineRow::Add { .. } => new_words,
        _ => none.as_slice(),
    };
    assert(words@ =~= inline_words(*row, old_words@, new_words@));
    let line = build_inline_line(text, hl, row, words, is_pair, mode, old_gutter_w, new_gutter_w, theme, hscroll);
    wash_row(line, width, is_cursor, is_selected, theme, focused)
}

/// The display rows a pane draws when scrolled to `scroll`, as the range `(start, end)`: from
/// `scroll` up to the pane's height or the row count, whichever ends first (empty when `scroll`
/// is at or past the last row).
pub fn visible_rows(scroll: usize, height: u16, len: usize) -> (r: (usize, usize))
    ensures
        r.0 == scroll,
        r.1 as int == (if scroll + height <= len {
            scroll + height
        } else {
            len as int
        }),
{
    let end = if len <= scroll {
        len
    } else if len - scroll <= height as usize {
        len
    } else {
        scroll + height as usize
    };
    (scroll, end)
}

/// The screen row that display row `row` is drawn on in a pane whose top row is `area_y`,
/// `height` rows tall, scrolled to `scroll`: the pane's top row plus the row's offset from the
/// scroll position.
pub fn row_screen_y(area_y: u16, height: u16, scroll: usize, row: usize) -> (y: u16)
    requires
        scroll <= row < scroll + height,
        area_y + height <= u16::MAX,
    ensures
        y == area_y + (row - scroll),
{
    area_y + (row - scroll) as u16
}

/// The divider character between the panes of a side-by-side body.
pub const DIVIDER_GLYPH: char = '\u{2502}';

/// The column of the divider of a side-by-side body at `area_x`, `width` columns wide: right
/// after the old pane (see [`pane_split_widths`]).
pub fn sbs_divider_x(area_x: u16, width: u16) -> (x: u16)
    requires
        area_x + width <= u16::MAX,
    ensures
        x == area_x + saturating_minus(width as nat, 1) / 2,
{
    let (left, _) = pane_split_widths(width);
    area_x + left
}

/// The style of the divider cell on a row: dim, over the cursor tint (full in the focused pane,
/// dimmer elsewhere) on the cursor row and over no background otherwise.
pub fn divider_style(theme: &Palette, is_cursor: bool, focused: bool) -> (s: Style)
    ensures
        s.fg == Some(theme.dim),
        s.bg == (if is_cursor {
            Some(if focused { theme.cursor_bg } else { theme.cursor_unfocused_bg })
        } else {
            None
        }),
        !s.bold && !s.italic,
{
    let bg = if is_cursor {
        Some(cursor_tint(theme, focused))
    } else {
        None
    };
    Style { fg: Some(theme.dim), bg, bold: false, italic: false }
}

/// What a pane shows when its diff view could not be loaded.
pub fn failed_view_message() -> (s: String)
    ensures
        s@ == "(failed to load file)"@,
{
    text("(failed to load file)")
}

/// The line text an inline content row shows: the old side's line for a deleted row, the new
/// side's for a context or added row. Line numbers are 1-based.
pub fn inline_row_text<'a>(row: &InlineRow, old_lines: &'a [String], new_lines: &'a [String]) -> (t: &'a str)
    requires
        !(*row is Gap),
        *row matches InlineRow::Del { old } ==> 1 <= old <= old_lines@.len(),
        *row matches InlineRow::Context { new, .. } ==> 1 <= new <= new_lines@.len(),
        *row matches InlineRow::Add { new } ==> 1 <= new <= new_lines@.len(),
    ensures
        *row matches InlineRow::Del { old } ==> t@ == old_lines@[old - 1]@,
        *row matches InlineRow::Context { new, .. } ==> t@ == new_lines@[new - 1]@,
        *row matches InlineRow::Add { new } ==> t@ == new_lines@[new - 1]@,
{
    match row {
        InlineRow::Del { old } => old_lines[*old - 1].as_str(),
        InlineRow::Context { new, .. } => new_lines[*new - 1].as_str(),
        InlineRow::Add { new } => new_lines[*new - 1].as_str(),
        InlineRow::Gap { .. } => new_lines[0].as_str(),
    }
}

/// The syntax spans of line `n` (1-based) in a side's highlight, if the side is highlighted and
/// has that line.
pub open spec fn line_hl(hl: Option<Seq<Vec<FgSpan>>>, n: int) -> Option<Vec<FgSpan>> {
    match hl {
        Some(v) => if 1 <= n <= v.len() {
            Some(v[n - 1])
        } else {
            None
        },
        None => None,
    }
}

/// The lines of an optional highlight.
pub open spec fn hl_lines(hl: Option<&Vec<Vec<FgSpan>>>) -> Option<Seq<Vec<FgSpan>>> {
    match hl {
        Some(v) => Some(v@),
        None => None,
    }
}

/// The syntax spans of a highlight's line `n` (see [`line_hl`]).
fn side_line_hl<'a>(hl: Option<&'a Vec<Vec<FgSpan>>>, n: usize) -> (r: Option<&'a Vec<FgSpan>>)
    ensures
        match r {
            Some(v) => line_hl(hl_lines(hl), n as int) == Some(*v),
            None => line_hl(hl_lines(hl), n as int) is None,
        },
{
    match hl {
        Some(v) => if n >= 1 && n <= v.len() {
            Some(&v[n - 1])
        } else {
            None
        },
        None => None,
    }
}

/// The syntax spans an inline content row is colored by: the old side's line for a deleted row,
/// the new side's for a context or added row (see [`line_hl`]).
pub fn inline_row_hl<'a>(
    row: &InlineRow,
    old_hl: Option<&'a Vec<Vec<FgSpan>>>,
    new_hl: Option<&'a Vec<Vec<FgSpan>>>,
) -> (r: Option<&'a Vec<FgSpan>>)
    ensures
        ({
            let (side, n) = match *row {
                InlineRow::Del { old } => (old_hl, old as int),
                InlineRow::Context { new, .. } => (new_hl, new as int),
                InlineRow::Add { new } => (new_hl, new as int),
                InlineRow::Gap { .. } => (None, 0),
            };
            match r {
                Some(v) => line_hl(hl_lines(side), n) == Some(*v),
                None => line_hl(hl_lines(side), n) is None,
            }
        }),
{
    match row {
        InlineRow::Del { old } => side_line_hl(old_hl, *old),
        InlineRow::Context { new, .. } => side_line_hl(new_hl, *new),
        InlineRow::Add { new } => side_line_hl(new_hl, *new),
        InlineRow::Gap { .. } => None,
    }
}

/// One drawn row of a pane: the screen row `y`, the display row `row` drawn there, and its
/// marks.
#[derive(Debug, Clone, Copy, PartialEq, Eq, Structural)]
pub struct PaneRow {
    pub y: u16,
    pub row: usize,
    pub is_cursor: bool,
    pub is_selected: bool,
}

/// The number of display rows a pane `height` rows tall shows of `len`, scrolled to `scroll`.
pub open spec fn shown_rows(scroll: usize, height: u16, len: usize) -> nat {
    if len <= scroll {
        0
    } else if len - scroll <= height {
        (len - scroll) as nat
    } else {
        height as nat
    }
}

/// The rows a pane draws, top to bottom (see [`visible_rows`]): the `k`-th is display row
/// `scroll + k` on screen row `area_y + k`, marked as the cursor row and as selected by
/// [`row_marks`]. Rows of the pane below the last one are not drawn.
pub fn pane_rows(
    area_y: u16,
    height: u16,
    scroll: usize,
    len: usize,
    cursor: Option<usize>,
    selection: Option<(usize, usize)>,
) -> (r: Vec<PaneRow>)
    requires
        area_y + height <= u16::MAX,
    ensures
        r@.len() == shown_rows(scroll, height, len),
        forall|k: int|
            0 <= k < r@.len() ==> #[trigger] r@[k] == (PaneRow {
                y: (area_y + k) as u16,
                row: (scroll + k) as usize,
                is_cursor: cursor == Some((scroll + k) as usize),
                is_selected: selection matches Some((lo, hi)) && lo <= scroll + k <= hi,
            }),
{
    let (start, end) = visible_rows(scroll, height, len);
    let mut rows: Vec<PaneRow> = Vec::new();
    let mut row = start;
    while row < end
        invariant
            start == scroll,
            end as int == (if scroll + height <= len { scroll + height } else { len as int }),
            area_y + height <= u16::MAX,
            scroll <= row,
            row == scroll || row <= end,
            rows@.len() == row - scroll,
            forall|k: int|
                0 <= k < rows@.len() ==> #[trigger] rows@[k] == (PaneRow {
                    y: (area_y + k) as u16,
                    row: (scroll + k) as usize,
                    is_cursor: cursor == Some((scroll + k) as usize),
                    is_selected: selection matches Some((lo, hi)) && lo <= scroll + k <= hi,
                }),
        decreases end - row,
    {
        let y = row_screen_y(area_y, height, scroll, row);
        let (is_cursor, is_selected) = row_marks(row, cursor, selection);
        rows.push(PaneRow { y, row, is_cursor, is_selected });
        row = row + 1;
    }
    rows
}

} // verus!
