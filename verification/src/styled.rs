//! Styled text as the renderer lays it out: spans of text with a foreground, a background and
//! boldness, and lines made of spans.
use vstd::prelude::*;
use vstd::string::StringExecFns;

use crate::theme::Color;

verus! {

/// How a span of text is drawn: foreground and background (the terminal's own when `None`),
/// and whether it is bold and italic.
#[derive(Debug, Clone, Copy, PartialEq, Eq, Structural)]
pub struct Style {
    pub fg: Option<Color>,
    pub bg: Option<Color>,
    pub bold: bool,
    pub italic: bool,
}

/// The default style: terminal colors, upright, not bold.
pub open spec fn plain_style() -> Style {
    Style { fg: None, bg: None, bold: false, italic: false }
}

/// Foreground `c`, nothing else.
pub open spec fn fg_style(c: Color) -> Style {
    Style { fg: Some(c), bg: None, bold: false, italic: false }
}

/// Foreground `c`, bold.
pub open spec fn bold_style(c: Color) -> Style {
    Style { fg: Some(c), bg: None, bold: true, italic: false }
}

/// A run of text drawn in one style.
#[derive(Debug, Clone, PartialEq, Eq)]
pub struct StyledSpan {
    pub content: String,
    pub style: Style,
}

/// The mathematical value of a [`StyledSpan`].
#[verifier::ext_equal]
pub struct SpanView {
    pub content: Seq<char>,
    pub style: Style,
}

impl View for StyledSpan {
    type V = SpanView;

    open spec fn view(&self) -> SpanView {
        SpanView { content: self.content@, style: self.style }
    }
}

/// A span's value from its text and style.
pub open spec fn span(content: Seq<char>, style: Style) -> SpanView {
    SpanView { content, style }
}

/// The values of a list of spans.
pub open spec fn spans_view(spans: Seq<StyledSpan>) -> Seq<SpanView> {
    spans.map_values(|s: StyledSpan| s@)
}

/// One line of styled text.
#[derive(Debug, Clone, PartialEq, Eq)]
pub struct Line {
    pub spans: Vec<StyledSpan>,
}

impl View for Line {
    type V = Seq<SpanView>;

    open spec fn view(&self) -> Seq<SpanView> {
        spans_view(self.spans@)
    }
}

/// The values of a list of lines.
pub open spec fn lines_view(lines: Seq<Line>) -> Seq<Seq<SpanView>> {
    lines.map_values(|l: Line| l@)
}

/// The span `content` drawn in `style`.
pub fn styled(content: String, style: Style) -> (s: StyledSpan)
    ensures
        s@ == span(content@, style),
{
    StyledSpan { content, style }
}

/// A style with foreground `c`.
pub fn with_fg(c: Color) -> (s: Style)
    ensures
        s == fg_style(c),
{
    Style { fg: Some(c), bg: None, bold: false, italic: false }
}

/// A bold style with foreground `c`.
pub fn bold_fg(c: Color) -> (s: Style)
    ensures
        s == bold_style(c),
{
    Style { fg: Some(c), bg: None, bold: true, italic: false }
}

/// The text of a string literal as an owned string.
pub fn text(lit: &str) -> (s: String)
    ensures
        s@ == lit@,
{
    String::from_str(lit)
}

/// Push the spans of `extra` onto `spans`.
pub(crate) fn append_spans(spans: &mut Vec<StyledSpan>, extra: Vec<StyledSpan>)
    ensures
        spans_view(final(spans)@) == spans_view(old(spans)@) + spans_view(extra@),
{
    let ghost e = extra@;
    let mut extra = extra;
    spans.append(&mut extra);
    assert(spans_view(spans@) =~~= spans_view(old(spans)@) + spans_view(e));
}

/// A line of the given spans.
pub fn line(spans: Vec<StyledSpan>) -> (l: Line)
    ensures
        l@ == spans_view(spans@),
{
    Line { spans }
}

} // verus!
