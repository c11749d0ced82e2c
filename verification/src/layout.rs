//! Screen areas: a rectangle of terminal cells, and the centered area of a popup.
use vstd::prelude::*;

use ratatui::layout::{Constraint, Direction, Layout};

verus! {

/// A rectangle of terminal cells: its top-left corner and its size.
#[derive(Debug, Clone, Copy, PartialEq, Eq, Structural)]
pub struct Rect {
    pub x: u16,
    pub y: u16,
    pub width: u16,
    pub height: u16,
}

/// The three bands ratatui's layout solver cuts `area` into for percentage constraints of
/// `first`, `middle` and `last` percent, together at most 100: stacked top to bottom when
/// `vertical`, else side by side.
pub uninterp spec fn percentage_bands(vertical: bool, first: u16, middle: u16, last: u16, area: Rect) -> (Rect, Rect, Rect);

/// Splits `area` with `ratatui::layout::Layout::split`, in the given direction, by three
/// `Constraint::Percentage` constraints that together ask for no more than the whole area. The
/// solver's answer is only named: the same arguments give the same bands. (Percentages that ask
/// for more than the area conflict, and the solver's answer to them is not fixed.)
#[verifier::external_body]
fn split_percentages(vertical: bool, first: u16, middle: u16, last: u16, area: Rect) -> (r: (Rect, Rect, Rect))
    requires
        first + middle + last <= 100,
    ensures
        r == percentage_bands(vertical, first, middle, last, area),
{
    let direction = if vertical { Direction::Vertical } else { Direction::Horizontal };
    let ui = ratatui::layout::Rect { x: area.x, y: area.y, width: area.width, height: area.height };
    let b = Layout::default()
        .direction(direction)
        .constraints([Constraint::Percentage(first), Constraint::Percentage(middle), Constraint::Percentage(last)])
        .split(ui);
    let plain = |r: &ratatui::layout::Rect| Rect { x: r.x, y: r.y, width: r.width, height: r.height };
    (plain(&b[0]), plain(&b[1]), plain(&b[2]))
}

/// The centered `percent_x` by `percent_y` popup area of `area`: the middle band of splitting
/// `area` top to bottom into `(100 - percent_y) / 2`, `percent_y` and `(100 - percent_y) / 2`
/// percent, split side by side the same way by `percent_x`.
pub fn centered_rect(percent_x: u16, percent_y: u16, area: Rect) -> (r: Rect)
    requires
        percent_x <= 100,
        percent_y <= 100,
    ensures
        r == percentage_bands(
            false,
            ((100 - percent_x) / 2) as u16,
            percent_x,
            ((100 - percent_x) / 2) as u16,
            percentage_bands(
                true,
                ((100 - percent_y) / 2) as u16,
                percent_y,
                ((100 - percent_y) / 2) as u16,
                area,
            ).1,
        ).1,
{
    let side_y = (100 - percent_y) / 2;
    let vertical = split_percentages(true, side_y, percent_y, side_y, area);
    let side_x = (100 - percent_x) / 2;
    let horizontal = split_percentages(false, side_x, percent_x, side_x, vertical.1);
    horizontal.1
}

/// A rectangle of the screen recorded for mouse hit-testing.
#[derive(Debug, Clone, Copy, PartialEq, Eq, Structural)]
pub struct Region {
    pub x: u16,
    pub y: u16,
    pub w: u16,
    pub h: u16,
}

/// The hit-test region of `area`.
pub fn region_from(area: Rect) -> (r: Region)
    ensures
        r == (Region { x: area.x, y: area.y, w: area.width, h: area.height }),
{
    Region { x: area.x, y: area.y, w: area.width, h: area.height }
}

/// The two bands ratatui's layout solver cuts `area` into for a `Min(1)` band stacked over a
/// `Length(1)` band.
pub uninterp spec fn footer_bands(area: Rect) -> (Rect, Rect);

/// Splits `area` with `ratatui::layout::Layout::split`, top to bottom, by `Constraint::Min(1)`
/// and `Constraint::Length(1)`. The solver's answer is only named, and only for an area of two
/// rows or more, where both constraints can hold; for a shorter area nothing is claimed.
#[verifier::external_body]
fn split_footer(area: Rect) -> (r: (Rect, Rect))
    ensures
        area.height >= 2 ==> r == footer_bands(area),
{
    let ui = ratatui::layout::Rect { x: area.x, y: area.y, width: area.width, height: area.height };
    let b = Layout::default()
        .direction(Direction::Vertical)
        .constraints([Constraint::Min(1), Constraint::Length(1)])
        .split(ui);
    let plain = |r: &ratatui::layout::Rect| Rect { x: r.x, y: r.y, width: r.width, height: r.height };
    (plain(&b[0]), plain(&b[1]))
}

/// The three bands ratatui's layout solver cuts `area` into for a `Length(first_width)` band, a
/// `Length(1)` band and a `Min(1)` band, side by side.
pub uninterp spec fn sidebar_bands(first_width: u16, area: Rect) -> (Rect, Rect, Rect);

/// Splits `area` with `ratatui::layout::Layout::split`, left to right, by
/// `Constraint::Length(first_width)`, `Constraint::Length(1)` and `Constraint::Min(1)`. The
/// solver's answer is only named, and only where the area is wide enough for all three
/// constraints to hold; for a narrower area nothing is claimed.
#[verifier::external_body]
fn split_sidebar(first_width: u16, area: Rect) -> (r: (Rect, Rect, Rect))
    ensures
        first_width + 2 <= area.width ==> r == sidebar_bands(first_width, area),
{
    let ui = ratatui::layout::Rect { x: area.x, y: area.y, width: area.width, height: area.height };
    let b = Layout::default()
        .direction(Direction::Horizontal)
        .constraints([Constraint::Length(first_width), Constraint::Length(1), Constraint::Min(1)])
        .split(ui);
    let plain = |r: &ratatui::layout::Rect| Rect { x: r.x, y: r.y, width: r.width, height: r.height };
    (plain(&b[0]), plain(&b[1]), plain(&b[2]))
}

/// The areas of a frame: the body above the one-row footer, and, within the body, the outline
/// pane and its divider column (when the outline is open) and the diff pane.
#[derive(Debug, Clone, Copy, PartialEq, Eq)]
pub struct FrameAreas {
    pub body: Rect,
    pub footer: Rect,
    pub outline: Option<(Rect, Rect)>,
    pub diff: Rect,
}

/// The areas of a frame over `area`: the body and the footer row split off its bottom (see
/// [`footer_bands`]); with the outline open, the body split into the outline pane
/// `outline_width` columns wide, a one-column divider and the diff pane (see
/// [`sidebar_bands`]); with it closed, the diff pane is the whole body. Where an area is too
/// small for its constraints, the solver's bands are not stated.
pub fn frame_areas(area: Rect, outline_open: bool, outline_width: u16) -> (r: FrameAreas)
    ensures
        area.height >= 2 ==> (r.body, r.footer) == footer_bands(area),
        !outline_open ==> r.outline is None && r.diff == r.body,
        outline_open ==> r.outline is Some,
        outline_open && outline_width + 2 <= r.body.width ==> ({
            let (o, d, p) = sidebar_bands(outline_width, r.body);
            r.outline == Some((o, d)) && r.diff == p
        }),
{
    let (body, footer) = split_footer(area);
    if outline_open {
        let (outline, divider, diff) = split_sidebar(outline_width, body);
        FrameAreas { body, footer, outline: Some((outline, divider)), diff }
    } else {
        FrameAreas { body, footer, outline: None, diff: body }
    }
}

} // verus!
