//! The diff body's layout decisions: the header row each pane carves off its top, what the
//! body shows for the current state, the stacked split of the unstaged and staged panes, and
//! which pane label is lit.
use vstd::prelude::*;
use vstd::string::StringExecFns;

use crate::diff_line::{EffectiveZoom, Role};
use crate::layout::Rect;
use crate::header::{caption_line, caption_run, loading_message};
use crate::styled::{fg_style, plain_style, span, styled, text, with_fg, Line, SpanView, Style, StyledSpan};
use crate::theme::Palette;

verus! {

/// `area` with its top row carved off as the pane's header when it is at least two rows tall:
/// the header row and the rest; a shorter area has no header and keeps all its rows.
pub fn carve_header(area: Rect) -> (r: (Option<Rect>, Rect))
    requires
        area.y + area.height <= u16::MAX,
    ensures
        area.height >= 2 ==> r == (
            Some(Rect { x: area.x, y: area.y, width: area.width, height: 1 }),
            Rect { x: area.x, y: (area.y + 1) as u16, width: area.width, height: (area.height - 1) as u16 },
        ),
        area.height < 2 ==> r == (None::<Rect>, area),
{
    if area.height >= 2 {
        (
            Some(Rect { x: area.x, y: area.y, width: area.width, height: 1 }),
            Rect { x: area.x, y: area.y + 1, width: area.width, height: area.height - 1 },
        )
    } else {
        (None, area)
    }
}

/// Whether the diff pane's own header label is lit: never while the outline holds focus;
/// otherwise under a single-pane zoom, and under a split only when the body (below the header)
/// is under four rows tall, too short for the split's captions.
pub open spec fn header_lit(outline_focused: bool, zoom: EffectiveZoom, body_height: u16) -> bool {
    !outline_focused && match zoom {
        EffectiveZoom::Single(_) => true,
        EffectiveZoom::Split => body_height < 4,
    }
}

/// Whether the diff pane's own header label is lit (see [`header_lit`]).
pub fn diff_header_lit(outline_focused: bool, zoom: EffectiveZoom, body_height: u16) -> (r: bool)
    ensures
        r == header_lit(outline_focused, zoom, body_height),
{
    !outline_focused && match zoom {
        EffectiveZoom::Single(_) => true,
        EffectiveZoom::Split => body_height < 4,
    }
}

/// What the diff body shows.
#[derive(Debug, Clone, Copy, PartialEq, Eq, Structural)]
pub enum BodyView {
    /// The summary of the outline row under the cursor.
    Summary,
    /// The changeset's acquisition failed.
    Failed,
    /// The changeset is still being acquired.
    Loading,
    /// The changeset has no changed files.
    NoChanges,
    /// The current file is binary.
    Binary,
    /// The current file's load is deferred.
    Placeholder,
    /// The current file's diff, laid out by its zoom.
    Diff(EffectiveZoom),
}

/// What the diff body shows, in order of precedence: the summary when the focused outline's
/// cursor is on a header or directory row; a failed, then a still-loading changeset; a
/// changeset without files; a binary current file; the deferred-load placeholder when loads are
/// deferred and the file needs it; else the diff under its zoom.
pub fn body_view(
    summary_target: bool,
    failed: bool,
    pending: bool,
    no_files: bool,
    binary: bool,
    defer_loads: bool,
    needs_placeholder: bool,
    zoom: EffectiveZoom,
) -> (v: BodyView)
    ensures
        v == (if summary_target {
            BodyView::Summary
        } else if failed {
            BodyView::Failed
        } else if pending {
            BodyView::Loading
        } else if no_files {
            BodyView::NoChanges
        } else if binary {
            BodyView::Binary
        } else if defer_loads && needs_placeholder {
            BodyView::Placeholder
        } else {
            BodyView::Diff(zoom)
        }),
{
    if summary_target {
        BodyView::Summary
    } else if failed {
        BodyView::Failed
    } else if pending {
        BodyView::Loading
    } else if no_files {
        BodyView::NoChanges
    } else if binary {
        BodyView::Binary
    } else if defer_loads && needs_placeholder {
        BodyView::Placeholder
    } else {
        BodyView::Diff(zoom)
    }
}

/// The body text of a changeset whose acquisition failed with `message`.
pub fn failed_message(message: &str) -> (s: String)
    ensures
        s@ == "Failed to load this changeset: "@ + message@,
{
    let mut s = text("Failed to load this changeset: ");
    s.append(message);
    s
}

/// The body text of a binary file at `path`.
pub fn binary_message(path: &str) -> (s: String)
    ensures
        s@ == "[Binary file: "@ + path@ + "]"@,
{
    let mut s = text("[Binary file: ");
    s.append(path);
    s.append("]");
    s
}

/// The four rows of a split body: the unstaged caption, the unstaged content, the staged
/// caption and the staged content.
#[derive(Debug, Clone, Copy, PartialEq, Eq, Structural)]
pub struct SplitAreas {
    pub unstaged_caption: Rect,
    pub unstaged_content: Rect,
    pub staged_caption: Rect,
    pub staged_content: Rect,
}

/// The stacked split of an area at least four rows tall: a one-row caption above each pane,
/// and the rows left over halved between the panes, the staged pane taking the odd row.
pub open spec fn split_of(area: Rect) -> SplitAreas {
    let top = (area.height - 2) / 2;
    let bottom = area.height - 2 - top;
    SplitAreas {
        unstaged_caption: Rect { x: area.x, y: area.y, width: area.width, height: 1 },
        unstaged_content: Rect { x: area.x, y: (area.y + 1) as u16, width: area.width, height: top as u16 },
        staged_caption: Rect { x: area.x, y: (area.y + 1 + top) as u16, width: area.width, height: 1 },
        staged_content: Rect { x: area.x, y: (area.y + 2 + top) as u16, width: area.width, height: bottom as u16 },
    }
}

/// The stacked split of `area` (see [`split_of`]); a shorter area than four rows has none.
pub fn split_areas(area: Rect) -> (r: Option<SplitAreas>)
    requires
        area.y + area.height <= u16::MAX,
    ensures
        area.height < 4 ==> r is None,
        area.height >= 4 ==> r == Some(split_of(area)),
{
    if area.height < 4 {
        return None;
    }
    let content_total = area.height - 2;
    let top_h = content_total / 2;
    let bot_h = content_total - top_h;
    Some(
        SplitAreas {
            unstaged_caption: Rect { x: area.x, y: area.y, width: area.width, height: 1 },
            unstaged_content: Rect { x: area.x, y: area.y + 1, width: area.width, height: top_h },
            staged_caption: Rect { x: area.x, y: area.y + 1 + top_h, width: area.width, height: 1 },
            staged_content: Rect { x: area.x, y: area.y + 2 + top_h, width: area.width, height: bot_h },
        },
    )
}

/// The split's four rows tile the area: each starts where the one above ends, they span its
/// full width, together they cover exactly its height, and neither pane is empty nor more than
/// one row taller than the other.
pub proof fn lemma_split_tiles_the_area(area: Rect)
    requires
        area.height >= 4,
        area.y + area.height <= u16::MAX,
    ensures
        ({
            let s = split_of(area);
            &&& s.unstaged_content.y == s.unstaged_caption.y + s.unstaged_caption.height
            &&& s.staged_caption.y == s.unstaged_content.y + s.unstaged_content.height
            &&& s.staged_content.y == s.staged_caption.y + s.staged_caption.height
            &&& s.staged_content.y + s.staged_content.height == area.y + area.height
            &&& s.unstaged_caption.y == area.y
            &&& s.unstaged_caption.x == area.x && s.unstaged_content.x == area.x
            &&& s.staged_caption.x == area.x && s.staged_content.x == area.x
            &&& s.unstaged_caption.width == area.width && s.unstaged_content.width == area.width
            &&& s.staged_caption.width == area.width && s.staged_content.width == area.width
            &&& s.unstaged_content.height >= 1
            &&& s.unstaged_content.height <= s.staged_content.height <= s.unstaged_content.height + 1
        }),
{
}

/// Which half of a split holds focus, `(unstaged, staged)`: neither while the outline holds
/// focus, else the half of the split's focus role.
pub open spec fn halves_focused(outline_focused: bool, focus_role: Role) -> (bool, bool) {
    (!outline_focused && focus_role == Role::Unstaged, !outline_focused && focus_role == Role::Staged)
}

/// Which half of a split holds focus (see [`halves_focused`]).
pub fn split_focus(outline_focused: bool, focus_role: Role) -> (r: (bool, bool))
    ensures
        r == halves_focused(outline_focused, focus_role),
{
    (!outline_focused && focus_role == Role::Unstaged, !outline_focused && focus_role == Role::Staged)
}

/// Exactly one pane label is lit in every frame: the outline header while the outline holds
/// focus; else, under a split tall enough for its captions (a body of four rows or more), the
/// caption of the half the split's focus role names (when that role is one of the split's
/// halves); else the diff header.
pub proof fn lemma_exactly_one_lit_label(
    outline_focused: bool,
    zoom: EffectiveZoom,
    body_height: u16,
    focus_role: Role,
)
    requires
        zoom is Split ==> focus_role != Role::Combined,
    ensures
        ({
            let captions = zoom is Split && body_height >= 4;
            let (u, s) = halves_focused(outline_focused, focus_role);
            let lit_unstaged = captions && u;
            let lit_staged = captions && s;
            let lit_diff = header_lit(outline_focused, zoom, body_height);
            (if outline_focused { 1int } else { 0int }) + (if lit_diff { 1int } else { 0int }) + (if lit_unstaged {
                1int
            } else {
                0int
            }) + (if lit_staged { 1int } else { 0int }) == 1
        }),
{
}

/// The heights of the focused and the unfocused half of a split `(focused, unfocused)`: the
/// unstaged half is the top one.
pub fn split_pane_heights(areas: &SplitAreas, focus_role: Role) -> (r: (u16, u16))
    ensures
        r == (if focus_role == Role::Unstaged {
            (areas.unstaged_content.height, areas.staged_content.height)
        } else {
            (areas.staged_content.height, areas.unstaged_content.height)
        }),
{
    if focus_role == Role::Unstaged {
        (areas.unstaged_content.height, areas.staged_content.height)
    } else {
        (areas.staged_content.height, areas.unstaged_content.height)
    }
}

/// The text of a body that shows a message instead of a diff, in its style: a failed
/// changeset's error in the error color; `Loading…` dim for a changeset still loading;
/// `(no changes)` unstyled; a binary file's `[Binary file: path]` dim; the deferred-load
/// placeholder `path — loading…` dim. The summary and the diff show no message.
pub open spec fn body_message_run(v: BodyView, failure: Seq<char>, path: Seq<char>, theme: Palette) -> Option<SpanView> {
    match v {
        BodyView::Failed => Some(span("Failed to load this changeset: "@ + failure, fg_style(theme.error_fg))),
        BodyView::Loading => Some(span("Loading\u{2026}"@, fg_style(theme.dim))),
        BodyView::NoChanges => Some(span("(no changes)"@, plain_style())),
        BodyView::Binary => Some(span("[Binary file: "@ + path + "]"@, fg_style(theme.dim))),
        BodyView::Placeholder => Some(span(path + " \u{2014} loading\u{2026}"@, fg_style(theme.dim))),
        BodyView::Summary | BodyView::Diff(_) => None,
    }
}

/// The message a body shows (see [`body_message_run`]); `failure` is the changeset's
/// acquisition error and `path` the current file's path.
pub fn body_message(v: BodyView, failure: &str, path: &str, theme: &Palette) -> (r: Option<StyledSpan>)
    ensures
        match r {
            Some(s) => body_message_run(v, failure@, path@, *theme) == Some(s@),
            None => body_message_run(v, failure@, path@, *theme) is None,
        },
{
    match v {
        BodyView::Failed => Some(styled(failed_message(failure), with_fg(theme.error_fg))),
        BodyView::Loading => Some(styled(text("Loading\u{2026}"), with_fg(theme.dim))),
        BodyView::NoChanges => Some(
            styled(text("(no changes)"), Style { fg: None, bg: None, bold: false, italic: false }),
        ),
        BodyView::Binary => Some(styled(binary_message(path), with_fg(theme.dim))),
        BodyView::Placeholder => Some(styled(loading_message(path), with_fg(theme.dim))),
        BodyView::Summary | BodyView::Diff(_) => None,
    }
}

/// Whether the current file's diff is loaded before the body is drawn: only when the body
/// shows the diff and loads are not deferred (a deferred load waits for the idle window).
pub fn loads_current_file(defer_loads: bool, v: BodyView) -> (r: bool)
    ensures
        r == (!defer_loads && v is Diff),
{
    !defer_loads && match v {
        BodyView::Diff(_) => true,
        _ => false,
    }
}

/// The label of the unstaged pane's caption.
pub open spec fn unstaged_label() -> Seq<char> {
    "UNSTAGED"@
}

/// The label of the staged pane's caption.
pub open spec fn staged_label() -> Seq<char> {
    "STAGED"@
}

/// How a split body is drawn.
pub enum SplitPlan {
    /// Too short for the captions: the focus role's pane alone, over the whole area.
    Single { role: Role, area: Rect, focused: bool },
    /// The two panes stacked under their captions (see [`split_of`]).
    Stacked {
        areas: SplitAreas,
        unstaged_caption: Line,
        staged_caption: Line,
        unstaged_focused: bool,
        staged_focused: bool,
    },
}

/// How a split body over `area` is drawn. Under four rows: the split's focus role's pane alone
/// over all of `area`, holding focus unless the outline does. Otherwise the stacked split, the
/// `UNSTAGED` caption over the top pane and the `STAGED` caption over the bottom one, each
/// across the full width and lit when its half holds focus (see [`halves_focused`]).
pub fn split_plan(area: Rect, outline_focused: bool, focus_role: Role, theme: &Palette) -> (r: SplitPlan)
    requires
        area.y + area.height <= u16::MAX,
    ensures
        area.height < 4 ==> r == (SplitPlan::Single { role: focus_role, area, focused: !outline_focused }),
        area.height >= 4 ==> (r matches SplitPlan::Stacked {
            areas,
            unstaged_caption,
            staged_caption,
            unstaged_focused,
            staged_focused,
        } && areas == split_of(area) && (unstaged_focused, staged_focused) == halves_focused(
            outline_focused,
            focus_role,
        ) && unstaged_caption@ == caption_run(unstaged_label(), area.width, *theme, unstaged_focused)
            && staged_caption@ == caption_run(staged_label(), area.width, *theme, staged_focused)),
{
    match split_areas(area) {
        None => SplitPlan::Single { role: focus_role, area, focused: !outline_focused },
        Some(areas) => {
            let (u, s) = split_focus(outline_focused, focus_role);
            SplitPlan::Stacked {
                areas,
                unstaged_caption: caption_line("UNSTAGED", area.width, theme, u),
                staged_caption: caption_line("STAGED", area.width, theme, s),
                unstaged_focused: u,
                staged_focused: s,
            }
        },
    }
}

/// The selection a half of a split shows: the selection when that half holds focus, none
/// otherwise.
pub fn pane_selection(focused: bool, selection: Option<(usize, usize)>) -> (r: Option<(usize, usize)>)
    ensures
        r == (if focused {
            selection
        } else {
            None
        }),
{
    if focused {
        selection
    } else {
        None
    }
}

} // verus!
