//! Pane headers and chrome: the diff pane's header row (changeset prefix, current-file segment
//! with its label, diffstat and pan indicator), the outline pane's header, the split-view
//! captions, the right-edge overflow marker, the footer, and the loading placeholder's
//! message.
use vstd::prelude::*;
use vstd::string::{StrSliceExecFns, StringExecFns};

use crate::model::{FileChange, FileChangeView, FileStatus};
use crate::panel::{diffstat_run, diffstat_spans, warn_marker_text, RowGlyphs};
use crate::render::{
    decimal_chars, header_label_style, pane_header_label_style, push_decimal_chars, saturating_minus,
    spans_width, str_width, unicode_str_width, warn_glyph, IconMode,
};
use crate::styled::{
    append_spans, bold_fg, bold_style, fg_style, line, span, spans_view, styled, text, with_fg, Line, SpanView,
    StyledSpan,
};
use crate::summary::{diffstat, file_rows, hunks_lines, summable, total_adds, total_dels};
use crate::theme::{Color, Palette};

verus! {

/// What the pane headers show of the review: the current changeset's 0-based position among
/// `changeset_count`, its title and whether it needs a restack; whether the outline pane is
/// open; whether the current changeset's files are unavailable (still loading, or failed); the
/// current file's index; the label of the diff base; and the horizontal pan offset.
pub struct HeaderState {
    pub changeset_index: usize,
    pub changeset_count: usize,
    pub changeset_title: String,
    pub needs_restack: bool,
    pub outline_open: bool,
    pub unavailable: bool,
    pub current: usize,
    pub base_label: String,
    pub hscroll: usize,
}

/// The values of a list of file changes.
pub open spec fn files_view(files: Seq<FileChange>) -> Seq<FileChangeView> {
    files.map_values(|f: FileChange| f@)
}

/// The `[i/n] ` counter text.
pub open spec fn counter_chars(i: nat, n: nat) -> Seq<char> {
    seq!['['] + decimal_chars(i) + seq!['/'] + decimal_chars(n) + seq![']', ' ']
}

/// The `[i/n] ` counter text (see [`counter_chars`]).
fn counter_string(i: usize, n: usize) -> (s: String)
    ensures
        s@ == counter_chars(i as nat, n as nat),
{
    proof {
        reveal_strlit("[");
        reveal_strlit("/");
        reveal_strlit("] ");
    }
    let mut s = text("[");
    push_decimal_chars(&mut s, i);
    s.append("/");
    push_decimal_chars(&mut s, n);
    s.append("] ");
    s
}

/// The label of file `current` of `files` in the diff header: a renamed or copied file reads
/// `old @ base -> path` (an unknown old path reads empty), any other file its path; no file,
/// nothing.
pub open spec fn file_label(files: Seq<FileChangeView>, current: usize, base: Seq<char>) -> Seq<char> {
    if current < files.len() {
        let f = files[current as int];
        if f.status == FileStatus::Renamed || f.status == FileStatus::Copied {
            (match f.old_path {
                Some(p) => p,
                None => Seq::empty(),
            }) + " @ "@ + base + " -> "@ + f.path
        } else {
            f.path
        }
    } else {
        Seq::empty()
    }
}

/// The label of the current file (see [`file_label`]).
pub fn current_file_label(files: &[FileChange], current: usize, base_label: &str) -> (s: String)
    ensures
        s@ == file_label(files_view(files@), current, base_label@),
{
    if current < files.len() {
        let f = &files[current];
        assert(files_view(files@)[current as int] == f@);
        match f.status {
            FileStatus::Renamed | FileStatus::Copied => {
                let mut s = match &f.old_path {
                    Some(p) => p.clone(),
                    None => String::new(),
                };
                s.append(" @ ");
                s.append(base_label);
                s.append(" -> ");
                s.append(f.path.as_str());
                assert(s@ =~= file_label(files_view(files@), current, base_label@));
                s
            },
            _ => f.path.clone(),
        }
    } else {
        String::new()
    }
}

/// The label of a renamed or copied file names where it came from: its old path, then ` @ `,
/// the base label, ` -> ` and its path; a file neither renamed nor copied is labelled by its
/// path alone; and with no current file the label is empty.
pub proof fn lemma_label_names_the_source_of_a_moved_file(
    files: Seq<FileChangeView>,
    current: usize,
    base: Seq<char>,
)
    ensures
        current < files.len() && (files[current as int].status == FileStatus::Renamed
            || files[current as int].status == FileStatus::Copied) ==> match files[current as int].old_path {
            Some(o) => file_label(files, current, base) == o + " @ "@ + base + " -> "@ + files[current as int].path,
            None => file_label(files, current, base) == " @ "@ + base + " -> "@ + files[current as int].path,
        },
        current < files.len() && files[current as int].status != FileStatus::Renamed
            && files[current as int].status != FileStatus::Copied ==> file_label(files, current, base)
            == files[current as int].path,
        current >= files.len() ==> file_label(files, current, base).len() == 0,
{
    if current < files.len() {
        let f = files[current as int];
        if f.old_path is None {
            assert(Seq::<char>::empty() + " @ "@ =~= " @ "@);
        }
    }
}

/// The dim `  »N` pan indicator of the diff header: none while not panned.
pub open spec fn indicator_run(hscroll: nat, theme: Palette) -> Seq<SpanView> {
    if hscroll == 0 {
        Seq::empty()
    } else {
        seq![span("  \u{bb}"@ + decimal_chars(hscroll), fg_style(theme.dim))]
    }
}

/// The pan indicator span (see [`indicator_run`]).
pub fn hscroll_indicator_span(hscroll: usize, theme: &Palette) -> (r: Option<StyledSpan>)
    ensures
        r is None <==> hscroll == 0,
        r matches Some(s) ==> seq![s@] == indicator_run(hscroll as nat, *theme),
{
    if hscroll == 0 {
        return None;
    }
    let mut s = text("  \u{bb}");
    push_decimal_chars(&mut s, hscroll);
    Some(styled(s, with_fg(theme.dim)))
}

/// The changeset prefix of the diff header: `[i/n] title` in the header-label style, and, for
/// a changeset that needs a restack, a space and the warn glyph in bold warn color.
pub open spec fn prefix_run(
    title: Seq<char>,
    index: usize,
    count: usize,
    needs_restack: bool,
    theme: Palette,
    icons: IconMode,
    focused: bool,
) -> Seq<SpanView> {
    seq![span(counter_chars((index + 1) as nat, count as nat) + title, header_label_style(theme, focused))]
        + if needs_restack {
        seq![span(seq![' ', warn_glyph(icons)], bold_style(theme.warn_fg))]
    } else {
        Seq::empty()
    }
}

/// The changeset prefix of the diff header (see [`prefix_run`]).
pub fn changeset_prefix_spans(
    title: &str,
    index: usize,
    count: usize,
    needs_restack: bool,
    theme: &Palette,
    icons: IconMode,
    focused: bool,
) -> (spans: Vec<StyledSpan>)
    requires
        index < usize::MAX,
    ensures
        spans_view(spans@) == prefix_run(title@, index, count, needs_restack, *theme, icons, focused),
{
    let mut label = counter_string(index + 1, count);
    label.append(title);
    let mut spans = vec![styled(label, pane_header_label_style(theme, focused))];
    if needs_restack {
        spans.push(styled(warn_marker_text(icons), bold_fg(theme.warn_fg)));
    }
    assert(spans_view(spans@) =~~= prefix_run(title@, index, count, needs_restack, *theme, icons, focused));
    spans
}

/// The foreground of a file's nerd glyph: the foreground when the palette is colorless or the
/// glyph has no color of its own, else the glyph's color.
pub open spec fn glyph_fg(theme: Palette, color: Option<Color>) -> Color {
    if theme.colorless {
        theme.foreground
    } else {
        match color {
            Some(c) => c,
            None => theme.foreground,
        }
    }
}

/// The current-file segment of the diff header: the `[k/n] ` file counter in the header-label
/// style; in nerd mode, when there is a current file, its glyph and a space in bold; the file
/// label in the header-label style; the file's diffstat, when there is a current file; and the
/// pan indicator.
pub open spec fn segment_run(
    files: Seq<FileChangeView>,
    current: usize,
    base: Seq<char>,
    hscroll: nat,
    theme: Palette,
    icons: IconMode,
    focused: bool,
    file_glyph: Seq<char>,
    file_color: Option<Color>,
) -> Seq<SpanView> {
    seq![span(counter_chars((current + 1) as nat, files.len()), header_label_style(theme, focused))]
        + (if icons == IconMode::Nerd && current < files.len() {
        seq![span(file_glyph + seq![' '], bold_style(glyph_fg(theme, file_color)))]
    } else {
        Seq::empty()
    }) + seq![span(file_label(files, current, base), header_label_style(theme, focused))] + (if current
        < files.len() {
        diffstat_run(diffstat(files[current as int]).0, diffstat(files[current as int]).1, theme, icons)
    } else {
        Seq::empty()
    }) + indicator_run(hscroll, theme)
}

/// The current-file segment of the diff header (see [`segment_run`]); `glyphs` holds the
/// current file's nerd glyph and its color.
pub fn file_segment_spans(
    files: &[FileChange],
    current: usize,
    base_label: &str,
    hscroll: usize,
    theme: &Palette,
    icons: IconMode,
    focused: bool,
    glyphs: &RowGlyphs,
) -> (spans: Vec<StyledSpan>)
    requires
        current < usize::MAX,
        current < files@.len() ==> hunks_lines(files@[current as int]@.hunks) <= usize::MAX,
    ensures
        spans_view(spans@) == segment_run(
            files_view(files@),
            current,
            base_label@,
            hscroll as nat,
            *theme,
            icons,
            focused,
            glyphs.file@,
            glyphs.file_color,
        ),
{
    let ghost fs = files_view(files@);
    let mut spans = vec![styled(counter_string(current + 1, files.len()), pane_header_label_style(theme, focused))];
    let ghost mut expected = seq![span(counter_chars((current + 1) as nat, fs.len()), header_label_style(*theme, focused))];
    assert(spans_view(spans@) =~~= expected);
    if icons == IconMode::Nerd && current < files.len() {
        let icon_fg = if theme.colorless {
            theme.foreground
        } else {
            match glyphs.file_color {
                Some(c) => c,
                None => theme.foreground,
            }
        };
        let mut icon = glyphs.file.clone();
        proof {
            reveal_strlit(" ");
        }
        icon.append(" ");
        spans.push(styled(icon, bold_fg(icon_fg)));
        proof {
            expected = expected + seq![span(glyphs.file@ + seq![' '], bold_style(glyph_fg(*theme, glyphs.file_color)))];
        }
    }
    assert(spans_view(spans@) =~~= expected);
    spans.push(styled(current_file_label(files, current, base_label), pane_header_label_style(theme, focused)));
    proof {
        expected = expected + seq![span(file_label(fs, current, base_label@), header_label_style(*theme, focused))];
    }
    assert(spans_view(spans@) =~~= expected);
    if current < files.len() {
        assert(fs[current as int] == files@[current as int]@);
        let (adds, dels) = crate::summary::file_diffstat(&files[current]);
        append_spans(&mut spans, diffstat_spans(adds, dels, theme, icons));
        proof {
            expected = expected + diffstat_run(diffstat(fs[current as int]).0, diffstat(fs[current as int]).1, *theme, icons);
        }
    }
    assert(spans_view(spans@) =~~= expected);
    match hscroll_indicator_span(hscroll, theme) {
        Some(s) => {
            spans.push(s);
        },
        None => {},
    }
    proof {
        expected = expected + indicator_run(hscroll as nat, *theme);
    }
    assert(spans_view(spans@) =~~= expected);
    spans
}

/// The diff pane's header row. The changeset prefix shows when the outline is closed and the
/// stack holds more than one changeset. With no files to show (unavailable, or none at all)
/// the row is the prefix alone, or else a single space in the foreground; otherwise it is the
/// prefix and a bold `  —  ` separator (when the prefix shows) and the current-file segment.
pub open spec fn header_line(
    state: HeaderState,
    files: Seq<FileChangeView>,
    theme: Palette,
    icons: IconMode,
    focused: bool,
    file_glyph: Seq<char>,
    file_color: Option<Color>,
) -> Seq<SpanView> {
    let show_prefix = state.changeset_count > 1 && !state.outline_open;
    let prefix = prefix_run(
        state.changeset_title@,
        state.changeset_index,
        state.changeset_count,
        state.needs_restack,
        theme,
        icons,
        focused,
    );
    if state.unavailable || files.len() == 0 {
        if show_prefix {
            prefix
        } else {
            seq![span(seq![' '], fg_style(theme.foreground))]
        }
    } else {
        (if show_prefix {
            prefix + seq![span("  \u{2014}  "@, bold_style(theme.foreground))]
        } else {
            Seq::empty()
        }) + segment_run(
            files,
            state.current,
            state.base_label@,
            state.hscroll as nat,
            theme,
            icons,
            focused,
            file_glyph,
            file_color,
        )
    }
}

/// The diff pane's header row (see [`header_line`]); `glyphs` holds the current file's nerd
/// glyph and its color.
pub fn diff_header_line(
    state: &HeaderState,
    files: &[FileChange],
    theme: &Palette,
    icons: IconMode,
    focused: bool,
    glyphs: &RowGlyphs,
) -> (l: Line)
    requires
        state.changeset_index < usize::MAX,
        state.current < usize::MAX,
        state.current < files@.len() ==> hunks_lines(files@[state.current as int]@.hunks) <= usize::MAX,
    ensures
        l@ == header_line(*state, files_view(files@), *theme, icons, focused, glyphs.file@, glyphs.file_color),
{
    let show_prefix = state.changeset_count > 1 && !state.outline_open;
    if state.unavailable || files.len() == 0 {
        if show_prefix {
            return line(
                changeset_prefix_spans(
                    state.changeset_title.as_str(),
                    state.changeset_index,
                    state.changeset_count,
                    state.needs_restack,
                    theme,
                    icons,
                    focused,
                ),
            );
        } else {
            proof {
                reveal_strlit(" ");
            }
            let spans = vec![styled(text(" "), with_fg(theme.foreground))];
            assert(spans_view(spans@) =~~= seq![span(seq![' '], fg_style(theme.foreground))]);
            return line(spans);
        }
    }
    let mut spans: Vec<StyledSpan> = Vec::new();
    if show_prefix {
        spans = changeset_prefix_spans(
            state.changeset_title.as_str(),
            state.changeset_index,
            state.changeset_count,
            state.needs_restack,
            theme,
            icons,
            focused,
        );
        spans.push(styled(text("  \u{2014}  "), bold_fg(theme.foreground)));
    }
    let ghost before = spans_view(spans@);
    append_spans(
        &mut spans,
        file_segment_spans(files, state.current, state.base_label.as_str(), state.hscroll, theme, icons, focused, glyphs),
    );
    assert(spans_view(spans@) =~~= header_line(*state, files_view(files@), *theme, icons, focused, glyphs.file@, glyphs.file_color));
    line(spans)
}

/// The outline pane's header row: the `[i/n] ` changeset counter and the changeset title in the
/// header-label style; for a changeset that needs a restack, `  ⚠ needs restack` (with the
/// icon set's warn glyph) in bold warn color; and, when the changeset has files, the bold
/// diffstat of all of them together.
pub open spec fn outline_header_run(
    state: HeaderState,
    files: Seq<FileChangeView>,
    theme: Palette,
    icons: IconMode,
    focused: bool,
) -> Seq<SpanView> {
    seq![
        span(
            counter_chars((state.changeset_index + 1) as nat, state.changeset_count as nat),
            header_label_style(theme, focused),
        ),
        span(state.changeset_title@, header_label_style(theme, focused)),
    ] + (if state.needs_restack {
        seq![span(seq![' ', ' ', warn_glyph(icons)] + " needs restack"@, bold_style(theme.warn_fg))]
    } else {
        Seq::empty()
    }) + (if files.len() > 0 {
        diffstat_run(total_adds(files), total_dels(files), theme, icons)
    } else {
        Seq::empty()
    })
}

/// The outline pane's header row (see [`outline_header_run`]).
pub fn outline_header_line(
    state: &HeaderState,
    files: &[FileChange],
    theme: &Palette,
    icons: IconMode,
    focused: bool,
) -> (l: Line)
    requires
        state.changeset_index < usize::MAX,
        summable(files_view(files@)),
    ensures
        l@ == outline_header_run(*state, files_view(files@), *theme, icons, focused),
{
    let mut spans = vec![
        styled(counter_string(state.changeset_index + 1, state.changeset_count), pane_header_label_style(theme, focused)),
        styled(state.changeset_title.clone(), pane_header_label_style(theme, focused)),
    ];
    if state.needs_restack {
        proof {
            reveal_strlit("  \u{f071} needs restack");
            reveal_strlit("  \u{26A0} needs restack");
            reveal_strlit(" needs restack");
        }
        let note = match icons {
            IconMode::Nerd => text("  \u{f071} needs restack"),
            IconMode::Plain => text("  \u{26A0} needs restack"),
        };
        assert(note@ =~= seq![' ', ' ', warn_glyph(icons)] + " needs restack"@);
        spans.push(styled(note, bold_fg(theme.warn_fg)));
    }
    if files.len() > 0 {
        let (_rows, adds, dels) = file_rows(files);
        append_spans(&mut spans, diffstat_spans(adds, dels, theme, icons));
    }
    assert(spans_view(spans@) =~~= outline_header_run(*state, files_view(files@), *theme, icons, focused));
    line(spans)
}

/// `k` horizontal rule characters.
pub open spec fn rule(k: nat) -> Seq<char> {
    Seq::new(k, |i: int| '\u{2500}')
}

/// A split pane's caption row across `width` columns: a dim `── ` rule, the label in the
/// header-label style, and a dim space and rule filling what is left of the row (none when the
/// label already fills it).
pub open spec fn caption_run(label: Seq<char>, width: u16, theme: Palette, focused: bool) -> Seq<SpanView> {
    seq![
        span("\u{2500}\u{2500} "@, fg_style(theme.dim)),
        span(label, header_label_style(theme, focused)),
        span(seq![' '] + rule(saturating_minus(width as nat, label.len() + 4)), fg_style(theme.dim)),
    ]
}

/// A split pane's caption row (see [`caption_run`]).
pub fn caption_line(label: &str, width: u16, theme: &Palette, focused: bool) -> (l: Line)
    ensures
        l@ == caption_run(label@, width, *theme, focused),
{
    let n = label.unicode_len();
    let w = width as usize;
    let fill = if n <= w && w - n >= 4 {
        w - n - 4
    } else {
        0
    };
    proof {
        reveal_strlit(" ");
    }
    let mut tail = text(" ");
    let mut i: usize = 0;
    while i < fill
        invariant
            i <= fill,
            tail@ == seq![' '] + rule(i as nat),
        decreases fill - i,
    {
        proof {
            reveal_strlit("\u{2500}");
        }
        tail.append("\u{2500}");
        proof {
            assert(seq![' '] + rule((i + 1) as nat) =~= (seq![' '] + rule(i as nat)).push('\u{2500}'));
        }
        i = i + 1;
    }
    let spans = vec![
        styled(text("\u{2500}\u{2500} "), with_fg(theme.dim)),
        styled(text(label), pane_header_label_style(theme, focused)),
        styled(tail, with_fg(theme.dim)),
    ];
    assert(fill as nat == saturating_minus(width as nat, label@.len() + 4));
    assert(spans_view(spans@) =~~= caption_run(label@, width, *theme, focused));
    line(spans)
}

/// The total number of characters of a run of spans.
pub open spec fn run_chars(spans: Seq<SpanView>) -> nat
    decreases spans.len(),
{
    if spans.len() == 0 {
        0
    } else {
        run_chars(spans.drop_last()) + spans.last().content.len()
    }
}

/// A caption runs the full width of its pane, so that the staged pane's caption row doubles as
/// the divider between the split's panes: whenever the label leaves room for the rule, the
/// caption's characters number exactly the pane's width.
pub proof fn lemma_caption_fills_the_width(label: Seq<char>, width: u16, theme: Palette, focused: bool)
    requires
        label.len() + 4 <= width,
    ensures
        run_chars(caption_run(label, width, theme, focused)) == width,
{
    let c = caption_run(label, width, theme, focused);
    reveal_strlit("\u{2500}\u{2500} ");
    reveal_with_fuel(run_chars, 4);
    assert(c[0].content.len() == 3);
    assert(c[2].content.len() == 1 + (width - label.len() - 4));
}

/// A prefix of a run of spans is no wider than the whole run.
proof fn lemma_width_prefix(s: Seq<SpanView>, i: int)
    requires
        0 <= i <= s.len(),
    ensures
        spans_width(s.take(i)) <= spans_width(s),
    decreases s.len() - i,
{
    if i < s.len() {
        lemma_width_prefix(s, i + 1);
        assert(s.take(i + 1).drop_last() =~= s.take(i));
    } else {
        assert(s.take(i) =~= s);
    }
}

/// Whether the display width of `spans` exceeds `limit`.
fn wider_than(spans: &Vec<StyledSpan>, limit: usize) -> (r: bool)
    ensures
        r == (spans_width(spans_view(spans@)) > limit),
{
    let ghost v = spans_view(spans@);
    let mut acc: usize = 0;
    let mut k: usize = 0;
    while k < spans.len()
        invariant
            v == spans_view(spans@),
            k <= spans@.len(),
            acc <= limit,
            acc as nat == spans_width(v.take(k as int)),
        decreases spans@.len() - k,
    {
        let w = str_width(spans[k].content.as_str());
        proof {
            assert(v.take(k + 1).drop_last() =~= v.take(k as int));
            assert(v.take(k + 1).last() == v[k as int]);
            assert(w == unicode_str_width(v[k as int].content));
        }
        if w > limit - acc {
            proof {
                lemma_width_prefix(v, k + 1);
            }
            return true;
        }
        acc = acc + w;
        k = k + 1;
    }
    proof {
        assert(v.take(k as int) =~= v);
    }
    false
}

/// The column of a pane's right-edge overflow marker on a row drawn with `line`: the pane's
/// last column when the line is wider than the pane, none otherwise (or for a pane of no
/// width).
pub fn right_edge_marker_x(area_x: u16, area_width: u16, line: &Line) -> (r: Option<u16>)
    requires
        area_x + area_width <= u16::MAX,
    ensures
        r == (if area_width == 0 {
            None
        } else if spans_width(line@) > area_width {
            Some((area_x + area_width - 1) as u16)
        } else {
            None
        }),
{
    if area_width == 0 {
        return None;
    }
    if wider_than(&line.spans, area_width as usize) {
        Some(area_x + area_width - 1)
    } else {
        None
    }
}

/// The deferred-load placeholder's message for the file at `path`: `path — loading…`.
pub fn loading_message(path: &str) -> (s: String)
    ensures
        s@ == path@ + " \u{2014} loading\u{2026}"@,
{
    let mut s = text(path);
    s.append(" \u{2014} loading\u{2026}");
    s
}

/// How serious a footer notice is.
#[derive(Debug, Clone, Copy, PartialEq, Eq, Structural)]
pub enum Severity {
    Info,
    Error,
}

/// A transient footer notice.
pub struct Notice {
    pub text: String,
    pub severity: Severity,
}

/// The footer row: a pending confirmation's prompt in the error color wins over a notice (in
/// the error color for an error, the foreground otherwise), which wins over the key hint, dim.
pub open spec fn footer_run(
    prompt: Option<Seq<char>>,
    notice: Option<(Seq<char>, Severity)>,
    hint: Seq<char>,
    theme: Palette,
) -> SpanView {
    match prompt {
        Some(p) => span(p, fg_style(theme.error_fg)),
        None => match notice {
            Some((t, sev)) => span(
                t,
                fg_style(
                    match sev {
                        Severity::Error => theme.error_fg,
                        Severity::Info => theme.foreground,
                    },
                ),
            ),
            None => span(hint, fg_style(theme.dim)),
        },
    }
}

/// The footer row (see [`footer_run`]): `prompt` is a pending confirmation's prompt, `hint`
/// the key hint of the focused view.
pub fn footer_span(prompt: Option<&str>, notice: &Option<Notice>, hint: &str, theme: &Palette) -> (s: StyledSpan)
    ensures
        s@ == footer_run(
            match prompt {
                Some(p) => Some(p@),
                None => None,
            },
            match notice {
                Some(n) => Some((n.text@, n.severity)),
                None => None,
            },
            hint@,
            *theme,
        ),
{
    if let Some(p) = prompt {
        return styled(text(p), with_fg(theme.error_fg));
    }
    match notice {
        Some(n) => {
            let fg = match n.severity {
                Severity::Error => theme.error_fg,
                Severity::Info => theme.foreground,
            };
            styled(n.text.clone(), with_fg(fg))
        },
        None => styled(text(hint), with_fg(theme.dim)),
    }
}

} // verus!
