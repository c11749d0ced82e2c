//! The styled text of pane headers, outline rows and the summary panel: diffstat runs,
//! changeset titles, fold markers, outline rows, per-file rows with their height budget, and a
//! changeset summary's body.
use vstd::prelude::*;
use vstd::string::{StrSliceExecFns, StringExecFns};

use crate::diff_line::{wash_row, washed};
use crate::model::FileStatus;
use crate::render::{
    added_prefix, current_glyph, decimal_chars, diffstat_prefixes, error_glyph, loading_glyph,
    outline_status_spans, pan_spans, panned, push_decimal_chars, removed_prefix, saturating_minus,
    status_spans_spec, tree_prefix, tree_prefix_spec, warn_glyph, IconMode, StagedStatus,
};
use crate::text::chars_of;
use crate::styled::{
    append_spans, bold_fg, bold_style, fg_style, line, lines_view, plain_style, span, spans_view, styled, text,
    with_fg, Line, SpanView, Style, StyledSpan,
};
use crate::summary::{ChangesetSummary, DirSummary, SummaryFileRow, SummaryFileRowView};
use crate::theme::{Color, Palette};

verus! {

/// The bold `  +A -D` diffstat run of a pane header (leading two-space spacer included).
pub open spec fn diffstat_run(adds: nat, dels: nat, theme: Palette, icons: IconMode) -> Seq<SpanView> {
    seq![
        span(seq![' ', ' '], fg_style(theme.foreground)),
        span(added_prefix(icons) + decimal_chars(adds), bold_style(theme.add_strong)),
        span(seq![' '], fg_style(theme.foreground)),
        span(removed_prefix(icons) + decimal_chars(dels), bold_style(theme.del_strong)),
    ]
}

/// `prefix` followed by the decimal digits of `n`.
fn prefixed_number(prefix: String, n: usize) -> (s: String)
    ensures
        s@ == prefix@ + decimal_chars(n as nat),
{
    let mut s = prefix;
    push_decimal_chars(&mut s, n);
    s
}

/// The pane headers' bold diffstat run (see [`diffstat_run`]).
pub fn diffstat_spans(adds: usize, dels: usize, theme: &Palette, icons: IconMode) -> (spans: Vec<StyledSpan>)
    ensures
        spans_view(spans@) == diffstat_run(adds as nat, dels as nat, *theme, icons),
{
    let (added, removed) = diffstat_prefixes(icons);
    proof {
        reveal_strlit("  ");
        reveal_strlit(" ");
    }
    let spans = vec![
        styled(text("  "), with_fg(theme.foreground)),
        styled(prefixed_number(added, adds), bold_fg(theme.add_strong)),
        styled(text(" "), with_fg(theme.foreground)),
        styled(prefixed_number(removed, dels), bold_fg(theme.del_strong)),
    ];
    assert(spans_view(spans@) =~~= diffstat_run(adds as nat, dels as nat, *theme, icons));
    spans
}

/// A changeset title run: the current marker (when current), the nerd branch glyph (in nerd
/// mode), the `[i/n] ` counter (outline headers only), the bold label — in the heading accent
/// when there is a counter, else the foreground — and the needs-restack marker (when stale).
pub open spec fn title_run(
    label: Seq<char>,
    current: bool,
    needs_restack: bool,
    theme: Palette,
    icons: IconMode,
    counter: Option<(usize, usize)>,
) -> Seq<SpanView> {
    (if current {
        seq![span(seq![current_glyph(icons), ' '], fg_style(theme.current_fg))]
    } else {
        Seq::empty()
    }) + (if icons == IconMode::Nerd {
        seq![span(seq!['\u{f418}', ' '], fg_style(theme.dim))]
    } else {
        Seq::empty()
    }) + (match counter {
        Some((i, n)) => seq![
            span(
                seq!['['] + decimal_chars(i as nat) + seq!['/'] + decimal_chars(n as nat) + seq![']', ' '],
                fg_style(theme.dim),
            ),
        ],
        None => Seq::empty(),
    }) + seq![
        span(
            label,
            bold_style(
                if counter is Some {
                    theme.heading_fg
                } else {
                    theme.foreground
                },
            ),
        ),
    ] + (if needs_restack {
        seq![span(seq![' ', warn_glyph(icons)], fg_style(theme.warn_fg))]
    } else {
        Seq::empty()
    })
}

/// The current marker followed by a space.
fn current_marker_text(icons: IconMode) -> (s: String)
    ensures
        s@ == seq![current_glyph(icons), ' '],
{
    proof {
        reveal_strlit("\u{f444} ");
        reveal_strlit("\u{2022} ");
    }
    match icons {
        IconMode::Nerd => text("\u{f444} "),
        IconMode::Plain => text("\u{2022} "),
    }
}

/// A space followed by the needs-restack marker.
pub(crate) fn warn_marker_text(icons: IconMode) -> (s: String)
    ensures
        s@ == seq![' ', warn_glyph(icons)],
{
    proof {
        reveal_strlit(" \u{f071}");
        reveal_strlit(" \u{26A0}");
    }
    match icons {
        IconMode::Nerd => text(" \u{f071}"),
        IconMode::Plain => text(" \u{26A0}"),
    }
}

/// The `[i/n] ` counter of an outline header.
fn counter_text(i: usize, n: usize) -> (s: String)
    ensures
        s@ == seq!['['] + decimal_chars(i as nat) + seq!['/'] + decimal_chars(n as nat) + seq![']', ' '],
{
    proof {
        reveal_strlit("[");
        reveal_strlit("/");
        reveal_strlit("] ");
    }
    let mut s = text("[");
    push_decimal_chars(&mut s, i);
    s.append("/");
    push_decimal_chars(&mut s, n);
    s.append("] ");
    s
}

/// A changeset's title run (see [`title_run`]).
pub fn changeset_title_spans(
    label: &str,
    current: bool,
    needs_restack: bool,
    theme: &Palette,
    icons: IconMode,
    counter: Option<(usize, usize)>,
) -> (spans: Vec<StyledSpan>)
    ensures
        spans_view(spans@) == title_run(label@, current, needs_restack, *theme, icons, counter),
{
    let mut spans: Vec<StyledSpan> = Vec::new();
    let ghost mut expected: Seq<SpanView> = Seq::empty();
    if current {
        spans.push(styled(current_marker_text(icons), with_fg(theme.current_fg)));
        proof {
            expected = expected + seq![span(seq![current_glyph(icons), ' '], fg_style(theme.current_fg))];
        }
    }
    assert(spans_view(spans@) =~~= expected);
    if icons == IconMode::Nerd {
        proof {
            reveal_strlit("\u{f418} ");
        }
        spans.push(styled(text("\u{f418} "), with_fg(theme.dim)));
        proof {
            expected = expected + seq![span(seq!['\u{f418}', ' '], fg_style(theme.dim))];
        }
    }
    assert(spans_view(spans@) =~~= expected);
    let label_fg = if counter.is_some() {
        theme.heading_fg
    } else {
        theme.foreground
    };
    if let Some((i, n)) = counter {
        spans.push(styled(counter_text(i, n), with_fg(theme.dim)));
        proof {
            expected = expected + seq![
                span(
                    seq!['['] + decimal_chars(i as nat) + seq!['/'] + decimal_chars(n as nat) + seq![']', ' '],
                    fg_style(theme.dim),
                ),
            ];
        }
    }
    assert(spans_view(spans@) =~~= expected);
    spans.push(styled(text(label), bold_fg(label_fg)));
    proof {
        expected = expected + seq![span(label@, bold_style(label_fg))];
    }
    assert(spans_view(spans@) =~~= expected);
    if needs_restack {
        spans.push(styled(warn_marker_text(icons), with_fg(theme.warn_fg)));
        proof {
            expected = expected + seq![span(seq![' ', warn_glyph(icons)], fg_style(theme.warn_fg))];
        }
    }
    assert(spans_view(spans@) =~~= expected);
    assert(expected =~~= title_run(label@, current, needs_restack, *theme, icons, counter));
    spans
}

/// The collapsed-row marker ` ▸ N` (dim) for `hidden` hidden files, none when nothing is
/// hidden.
pub fn fold_marker(hidden: usize, theme: &Palette) -> (m: Option<StyledSpan>)
    ensures
        m matches Some(s) ==> hidden > 0 && s@ == span(
            seq![' ', '\u{25b8}', ' '] + decimal_chars(hidden as nat),
            fg_style(theme.dim),
        ),
        m is None ==> hidden == 0,
{
    if hidden > 0 {
        proof {
            reveal_strlit(" \u{25b8} ");
            assert(" \u{25b8} "@ =~= seq![' ', '\u{25b8}', ' ']);
        }
        Some(styled(prefixed_number(text(" \u{25b8} "), hidden), with_fg(theme.dim)))
    } else {
        None
    }
}

/// A summary panel file row: the path in the foreground, then `+N` in the added tint and `-M`
/// in the deleted tint.
pub open spec fn file_row_line(row: SummaryFileRowView, theme: Palette) -> Seq<SpanView> {
    seq![
        span(row.path, fg_style(theme.foreground)),
        span(seq![' ', ' '], plain_style()),
        span(seq!['+'] + decimal_chars(row.adds), fg_style(theme.add_strong)),
        span(seq![' '], plain_style()),
        span(seq!['-'] + decimal_chars(row.dels), fg_style(theme.del_strong)),
    ]
}

/// Append a file row's line (see [`file_row_line`]).
pub fn push_summary_file_row(lines: &mut Vec<Line>, row: &SummaryFileRow, theme: &Palette)
    ensures
        lines_view(final(lines)@) == lines_view(old(lines)@).push(file_row_line(row@, *theme)),
{
    proof {
        reveal_strlit("  ");
        reveal_strlit(" ");
        reveal_strlit("+");
        reveal_strlit("-");
    }
    let spans = vec![
        styled(row.path.clone(), with_fg(theme.foreground)),
        styled(text("  "), Style { fg: None, bg: None, bold: false, italic: false }),
        styled(prefixed_number(text("+"), row.adds), with_fg(theme.add_strong)),
        styled(text(" "), Style { fg: None, bg: None, bold: false, italic: false }),
        styled(prefixed_number(text("-"), row.dels), with_fg(theme.del_strong)),
    ];
    assert(spans_view(spans@) =~~= file_row_line(row@, *theme));
    lines.push(line(spans));
    assert(lines_view(lines@) =~~= lines_view(old(lines)@).push(file_row_line(row@, *theme)));
}

/// The line that stands for `remaining` files that did not fit: `… and N more`, dim.
pub open spec fn more_line(remaining: nat, theme: Palette) -> Seq<SpanView> {
    seq![
        span(
            seq!['\u{2026}', ' ', 'a', 'n', 'd', ' '] + decimal_chars(remaining) + seq![
                ' ',
                'm',
                'o',
                'r',
                'e',
            ],
            fg_style(theme.dim),
        ),
    ]
}

/// The lines of `rows` within a budget of `budget` lines: every row when they all fit, else as
/// many as leave the last line of the budget (or the one line past an empty budget) to a
/// `… and N more` line.
pub open spec fn file_rows_lines(rows: Seq<SummaryFileRowView>, budget: nat, theme: Palette) -> Seq<Seq<SpanView>> {
    if rows.len() <= budget {
        rows.map_values(|r: SummaryFileRowView| file_row_line(r, theme))
    } else {
        let shown: nat = if budget > 0 {
            (budget - 1) as nat
        } else {
            0
        };
        rows.take(shown as int).map_values(|r: SummaryFileRowView| file_row_line(r, theme)).push(
            more_line((rows.len() - shown) as nat, theme),
        )
    }
}

/// The values of a list of summary rows.
pub open spec fn rows_view(rows: Seq<SummaryFileRow>) -> Seq<SummaryFileRowView> {
    rows.map_values(|r: SummaryFileRow| r@)
}

/// Append the lines of `rows[..count]`.
fn push_rows(lines: &mut Vec<Line>, rows: &[SummaryFileRow], count: usize, theme: &Palette)
    requires
        count <= rows@.len(),
    ensures
        lines_view(final(lines)@) == lines_view(old(lines)@) + rows_view(rows@).take(
            count as int,
        ).map_values(|r: SummaryFileRowView| file_row_line(r, *theme)),
{
    let mut k: usize = 0;
    while k < count
        invariant
            count <= rows@.len(),
            k <= count,
            lines_view(lines@) == lines_view(old(lines)@) + rows_view(rows@).take(k as int).map_values(
                |r: SummaryFileRowView| file_row_line(r, *theme),
            ),
        decreases count - k,
    {
        push_summary_file_row(lines, &rows[k], theme);
        proof {
            assert(rows_view(rows@).take(k + 1).map_values(
                |r: SummaryFileRowView| file_row_line(r, *theme),
            ) =~= rows_view(rows@).take(k as int).map_values(
                |r: SummaryFileRowView| file_row_line(r, *theme),
            ).push(file_row_line(rows@[k as int]@, *theme)));
        }
        k = k + 1;
    }
}

/// Append the file rows of the summary panel within `budget` lines (see [`file_rows_lines`]).
pub fn push_summary_file_rows(lines: &mut Vec<Line>, rows: &[SummaryFileRow], budget: usize, theme: &Palette)
    ensures
        lines_view(final(lines)@) == lines_view(old(lines)@) + file_rows_lines(
            rows_view(rows@),
            budget as nat,
            *theme,
        ),
{
    if rows.len() <= budget {
        push_rows(lines, rows, rows.len(), theme);
        assert(rows_view(rows@).take(rows@.len() as int) =~= rows_view(rows@));
        return;
    }
    let shown = if budget > 0 {
        budget - 1
    } else {
        0
    };
    push_rows(lines, rows, shown, theme);
    let ghost mid = lines@;
    let remaining = rows.len() - shown;
    proof {
        reveal_strlit("\u{2026} and ");
        reveal_strlit(" more");
    }
    let mut s = prefixed_number(text("\u{2026} and "), remaining);
    s.append(" more");
    let more = vec![styled(s, with_fg(theme.dim))];
    assert(spans_view(more@) =~~= more_line(remaining as nat, *theme));
    lines.push(line(more));
    assert(lines_view(lines@) =~~= lines_view(mid).push(more_line(remaining as nat, *theme)));
}

/// The totals line of the summary panel: `N files`, then the added and deleted totals with
/// their diffstat prefixes.
pub open spec fn totals_line(files: nat, adds: nat, dels: nat, theme: Palette, icons: IconMode) -> Seq<SpanView> {
    seq![
        span(decimal_chars(files) + seq![' ', 'f', 'i', 'l', 'e', 's'], fg_style(theme.foreground)),
        span(seq![' ', ' '], plain_style()),
        span(added_prefix(icons) + decimal_chars(adds), fg_style(theme.add_strong)),
        span(seq![' '], plain_style()),
        span(removed_prefix(icons) + decimal_chars(dels), fg_style(theme.del_strong)),
    ]
}

/// The summary body appended after `before` lines: a blank line, the file rows within what is
/// left of `height` once the blank line and the totals line are counted, and the totals line.
pub open spec fn summary_body(
    before: nat,
    files: Seq<SummaryFileRowView>,
    total_adds: nat,
    total_dels: nat,
    height: nat,
    theme: Palette,
    icons: IconMode,
) -> Seq<Seq<SpanView>> {
    seq![Seq::<SpanView>::empty()] + file_rows_lines(files, saturating_minus(height, before + 2), theme)
        + seq![totals_line(files.len(), total_adds, total_dels, theme, icons)]
}

/// Append the summary body (see [`summary_body`]).
pub fn push_summary_body(
    lines: &mut Vec<Line>,
    files: &[SummaryFileRow],
    total_adds: usize,
    total_dels: usize,
    height: usize,
    theme: &Palette,
    icons: IconMode,
)
    requires
        old(lines)@.len() + 2 <= usize::MAX,
    ensures
        lines_view(final(lines)@) == lines_view(old(lines)@) + summary_body(
            old(lines)@.len(),
            rows_view(files@),
            total_adds as nat,
            total_dels as nat,
            height as nat,
            *theme,
            icons,
        ),
{
    let blank = line(Vec::new());
    assert(blank@ =~= Seq::<SpanView>::empty());
    lines.push(blank);
    let ghost after_blank = lines@;
    assert(lines_view(after_blank) =~~= lines_view(old(lines)@).push(Seq::<SpanView>::empty()));
    let used = lines.len() + 1;
    let file_budget = if height >= used {
        height - used
    } else {
        0
    };
    push_summary_file_rows(lines, files, file_budget, theme);
    let ghost after_rows = lines@;
    let (added, removed) = diffstat_prefixes(icons);
    proof {
        reveal_strlit(" files");
        reveal_strlit("  ");
        reveal_strlit(" ");
    }
    let mut count = String::new();
    push_decimal_chars(&mut count, files.len());
    count.append(" files");
    let totals = vec![
        styled(count, with_fg(theme.foreground)),
        styled(text("  "), Style { fg: None, bg: None, bold: false, italic: false }),
        styled(prefixed_number(added, total_adds), with_fg(theme.add_strong)),
        styled(text(" "), Style { fg: None, bg: None, bold: false, italic: false }),
        styled(prefixed_number(removed, total_dels), with_fg(theme.del_strong)),
    ];
    assert(spans_view(totals@) =~~= totals_line(files@.len(), total_adds as nat, total_dels as nat, *theme, icons));
    let ghost budget = saturating_minus(height as nat, old(lines)@.len() + 2);
    assert(file_budget == budget);
    assert(lines_view(after_rows) == lines_view(after_blank) + file_rows_lines(rows_view(files@), budget, *theme));
    let totals_line_value = line(totals);
    lines.push(totals_line_value);
    proof {
        assert(rows_view(files@).len() == files@.len());
        assert(lines_view(lines@) =~~= lines_view(after_rows).push(totals_line_value@));
        assert(lines_view(lines@) =~~= lines_view(old(lines)@) + summary_body(
            old(lines)@.len(),
            rows_view(files@),
            total_adds as nat,
            total_dels as nat,
            height as nat,
            *theme,
            icons,
        ));
    }
}

/// A changeset summary's body lines: a failed changeset shows its error marker and message (or
/// `(no error message)`) in the error color; a loading one shows `Loading…` dim; any other shows
/// the summary body (see [`summary_body`]).
pub open spec fn changeset_body(s: ChangesetSummary, height: nat, theme: Palette, icons: IconMode) -> Seq<Seq<SpanView>> {
    if s.failed {
        let msg = match s.failure_message {
            Some(m) => m@,
            None => "(no error message)"@,
        };
        seq![seq![span(seq![error_glyph(icons), ' '] + msg, fg_style(theme.error_fg))]]
    } else if s.loading {
        seq![
            seq![
                span(
                    seq!['L', 'o', 'a', 'd', 'i', 'n', 'g', loading_glyph(icons)],
                    fg_style(theme.dim),
                ),
            ],
        ]
    } else {
        summary_body(
            0,
            rows_view(s.files@),
            s.total_adds as nat,
            s.total_dels as nat,
            height,
            theme,
            icons,
        )
    }
}

/// A changeset summary's title run (no counter) and body lines (see [`changeset_body`]).
pub fn changeset_summary_lines(
    summary: &ChangesetSummary,
    height: usize,
    theme: &Palette,
    icons: IconMode,
) -> (r: (Vec<StyledSpan>, Vec<Line>))
    ensures
        spans_view(r.0@) == title_run(
            summary.label@,
            summary.current,
            summary.needs_restack,
            *theme,
            icons,
            None,
        ),
        lines_view(r.1@) == changeset_body(*summary, height as nat, *theme, icons),
{
    let title = changeset_title_spans(
        summary.label.as_str(),
        summary.current,
        summary.needs_restack,
        theme,
        icons,
        None,
    );
    let mut lines: Vec<Line> = Vec::new();
    if summary.failed {
        proof {
            reveal_strlit("(no error message)");
            reveal_strlit("\u{f00d} ");
            reveal_strlit("\u{2717} ");
        }
        let mut s = match icons {
            IconMode::Nerd => text("\u{f00d} "),
            IconMode::Plain => text("\u{2717} "),
        };
        match &summary.failure_message {
            Some(m) => s.append(m.as_str()),
            None => s.append("(no error message)"),
        }
        lines.push(line(vec![styled(s, with_fg(theme.error_fg))]));
        assert(lines_view(lines@) =~~= changeset_body(*summary, height as nat, *theme, icons));
        return (title, lines);
    }
    if summary.loading {
        proof {
            reveal_strlit("Loading\u{f141}");
            reveal_strlit("Loading\u{2026}");
        }
        let s = match icons {
            IconMode::Nerd => text("Loading\u{f141}"),
            IconMode::Plain => text("Loading\u{2026}"),
        };
        lines.push(line(vec![styled(s, with_fg(theme.dim))]));
        assert(lines_view(lines@) =~~= changeset_body(*summary, height as nat, *theme, icons));
        return (title, lines);
    }
    push_summary_body(
        &mut lines,
        summary.files.as_slice(),
        summary.total_adds,
        summary.total_dels,
        height,
        theme,
        icons,
    );
    assert(lines_view(lines@) =~~= changeset_body(*summary, height as nat, *theme, icons));
    (title, lines)
}

/// A directory summary's title run: in nerd mode the directory glyph and a space, then the
/// path and `/`, bold in the foreground.
pub open spec fn dir_title_run(path: Seq<char>, theme: Palette, icons: IconMode, dir_glyph: Seq<char>) -> Seq<SpanView> {
    seq![
        span(
            (if icons == IconMode::Nerd {
                dir_glyph + seq![' ']
            } else {
                Seq::empty()
            }) + path + seq!['/'],
            bold_style(theme.foreground),
        ),
    ]
}

/// A directory summary's title run (see [`dir_title_run`]) and body lines (see
/// [`summary_body`]); `dir_glyph` is the nerd directory glyph.
pub fn dir_summary_lines(
    summary: &DirSummary,
    height: usize,
    theme: &Palette,
    icons: IconMode,
    dir_glyph: &str,
) -> (r: (Vec<StyledSpan>, Vec<Line>))
    ensures
        spans_view(r.0@) == dir_title_run(summary.path@, *theme, icons, dir_glyph@),
        lines_view(r.1@) == summary_body(
            0,
            rows_view(summary.files@),
            summary.total_adds as nat,
            summary.total_dels as nat,
            height as nat,
            *theme,
            icons,
        ),
{
    proof {
        reveal_strlit(" ");
        reveal_strlit("/");
    }
    let mut name = match icons {
        IconMode::Nerd => {
            let mut g = text(dir_glyph);
            g.append(" ");
            g
        },
        IconMode::Plain => String::new(),
    };
    name.append(summary.path.as_str());
    name.append("/");
    let title = vec![styled(name, bold_fg(theme.foreground))];
    assert(spans_view(title@) =~~= dir_title_run(summary.path@, *theme, icons, dir_glyph@));
    let mut lines: Vec<Line> = Vec::new();
    push_summary_body(
        &mut lines,
        summary.files.as_slice(),
        summary.total_adds,
        summary.total_dels,
        height,
        theme,
        icons,
    );
    assert(lines_view(lines@) =~~= summary_body(
        0,
        rows_view(summary.files@),
        summary.total_adds as nat,
        summary.total_dels as nat,
        height as nat,
        *theme,
        icons,
    ));
    (title, lines)
}

/// One row of the outline pane: a changeset header, a directory, or a file.
pub enum OutlineItem {
    Header {
        cs_idx: usize,
        n: usize,
        label: String,
        current: bool,
        needs_restack: bool,
        loading: bool,
        failed: bool,
    },
    Dir { name: String, guides: Vec<bool> },
    File { path: String, status: StagedStatus, change: FileStatus, guides: Vec<bool> },
}

/// The mathematical value of an [`OutlineItem`].
pub enum OutlineItemView {
    Header {
        cs_idx: usize,
        n: usize,
        label: Seq<char>,
        current: bool,
        needs_restack: bool,
        loading: bool,
        failed: bool,
    },
    Dir { name: Seq<char>, guides: Seq<bool> },
    File { path: Seq<char>, status: StagedStatus, change: FileStatus, guides: Seq<bool> },
}

impl View for OutlineItem {
    type V = OutlineItemView;

    open spec fn view(&self) -> OutlineItemView {
        match self {
            OutlineItem::Header { cs_idx, n, label, current, needs_restack, loading, failed } =>
                OutlineItemView::Header {
                cs_idx: *cs_idx,
                n: *n,
                label: label@,
                current: *current,
                needs_restack: *needs_restack,
                loading: *loading,
                failed: *failed,
            },
            OutlineItem::Dir { name, guides } => OutlineItemView::Dir { name: name@, guides: guides@ },
            OutlineItem::File { path, status, change, guides } => OutlineItemView::File {
                path: path@,
                status: *status,
                change: *change,
                guides: guides@,
            },
        }
    }
}

/// The nerd-font glyphs an outline row draws in nerd mode: the directory glyph, and the glyph
/// of the row's file type with its own color, if it has one.
pub struct RowGlyphs {
    pub dir: String,
    pub file: String,
    pub file_color: Option<Color>,
}

/// The fold marker spans of a row with `hidden` hidden files: none when nothing is hidden.
pub open spec fn fold_run(hidden: nat, theme: Palette) -> Seq<SpanView> {
    if hidden > 0 {
        seq![span(seq![' ', '\u{25b8}', ' '] + decimal_chars(hidden), fg_style(theme.dim))]
    } else {
        Seq::empty()
    }
}

/// The last position of `/` in `path`, if any.
pub open spec fn last_slash(path: Seq<char>) -> Option<int>
    decreases path.len(),
{
    if path.len() == 0 {
        None
    } else if path.last() == '/' {
        Some(path.len() - 1)
    } else {
        last_slash(path.drop_last())
    }
}

/// A file row's name spans: in a flat row (no tree guides) the basename in the foreground and
/// the dim `  dir` after it; in a tree row, or for a path without a directory, the path as it
/// is.
pub open spec fn name_run(path: Seq<char>, flat: bool, theme: Palette) -> Seq<SpanView> {
    if flat && last_slash(path) is Some {
        let i = last_slash(path)->0;
        seq![
            span(path.skip(i + 1), fg_style(theme.foreground)),
            span(seq![' ', ' '] + path.take(i), fg_style(theme.dim)),
        ]
    } else {
        seq![span(path, fg_style(theme.foreground))]
    }
}

/// The spans of one outline row: a header's title run with the `[i/n]` counter, a failed or
/// else loading marker, and its fold marker; a directory's dim italic guides, nerd glyph, name
/// and `/`, and its fold marker; a file's indent (two spaces flat, dim guides in a tree), status
/// matrix, a space, nerd glyph (in the foreground when the palette is colorless or the glyph
/// has no color), and name spans.
pub open spec fn outline_line(
    item: OutlineItemView,
    theme: Palette,
    icons: IconMode,
    hidden: nat,
    dir_glyph: Seq<char>,
    file_glyph: Seq<char>,
    file_color: Option<Color>,
) -> Seq<SpanView> {
    match item {
        OutlineItemView::Header { cs_idx, n, label, current, needs_restack, loading, failed } =>
            title_run(label, current, needs_restack, theme, icons, Some(((cs_idx + 1) as usize, n)))
            + (if failed {
            seq![span(seq![' ', error_glyph(icons)], fg_style(theme.error_fg))]
        } else if loading {
            seq![span(seq![' ', loading_glyph(icons)], fg_style(theme.dim))]
        } else {
            Seq::empty()
        }) + fold_run(hidden, theme),
        OutlineItemView::Dir { name, guides } => seq![
            span(
                tree_prefix_spec(guides) + (if icons == IconMode::Nerd {
                    dir_glyph + seq![' ']
                } else {
                    Seq::empty()
                }) + name + seq!['/'],
                Style { fg: Some(theme.dim), bg: None, bold: false, italic: true },
            ),
        ] + fold_run(hidden, theme),
        OutlineItemView::File { path, status, change, guides } => seq![
            if guides.len() == 0 {
                span(seq![' ', ' '], fg_style(theme.foreground))
            } else {
                span(tree_prefix_spec(guides), fg_style(theme.dim))
            },
        ] + status_spans_spec(status, change, theme) + seq![span(seq![' '], fg_style(theme.foreground))]
            + (if icons == IconMode::Nerd {
            seq![
                span(
                    file_glyph + seq![' '],
                    fg_style(
                        if theme.colorless {
                            theme.foreground
                        } else {
                            match file_color {
                                Some(c) => c,
                                None => theme.foreground,
                            }
                        },
                    ),
                ),
            ]
        } else {
            Seq::empty()
        }) + name_run(path, guides.len() == 0, theme),
    }
}

/// The last position of `/` in `cs` (see [`last_slash`]).
fn find_last_slash(cs: &Vec<char>) -> (r: Option<usize>)
    ensures
        r matches Some(i) ==> last_slash(cs@) == Some(i as int) && i < cs@.len(),
        r is None ==> last_slash(cs@) is None,
{
    let mut k = cs.len();
    proof {
        assert(cs@.take(k as int) =~= cs@);
    }
    while k > 0
        invariant
            k <= cs@.len(),
            last_slash(cs@) == last_slash(cs@.take(k as int)),
        decreases k,
    {
        proof {
            assert(cs@.take(k as int).drop_last() =~= cs@.take(k - 1));
        }
        if cs[k - 1] == '/' {
            return Some(k - 1);
        }
        k = k - 1;
    }
    None
}

/// One outline row's rendered line (see [`outline_line`]); `glyphs` holds the nerd glyphs for
/// the row, drawn only in nerd mode.
#[verifier::rlimit(40)]
pub fn build_outline_line(item: &OutlineItem, theme: &Palette, icons: IconMode, hidden: usize, glyphs: &RowGlyphs) -> (l: Line)
    requires
        item matches OutlineItem::Header { cs_idx, .. } ==> cs_idx < usize::MAX,
    ensures
        l@ == outline_line(item@, *theme, icons, hidden as nat, glyphs.dir@, glyphs.file@, glyphs.file_color),
{
    let ghost goal = outline_line(item@, *theme, icons, hidden as nat, glyphs.dir@, glyphs.file@, glyphs.file_color);
    match item {
        OutlineItem::Header { cs_idx, n, label, current, needs_restack, loading, failed } => {
            let mut spans = changeset_title_spans(
                label.as_str(),
                *current,
                *needs_restack,
                theme,
                icons,
                Some((*cs_idx + 1, *n)),
            );
            let ghost title = spans_view(spans@);
            if *failed {
                proof {
                    reveal_strlit(" \u{f00d}");
                    reveal_strlit(" \u{2717}");
                }
                let marker = match icons {
                    IconMode::Nerd => text(" \u{f00d}"),
                    IconMode::Plain => text(" \u{2717}"),
                };
                spans.push(styled(marker, with_fg(theme.error_fg)));
            } else if *loading {
                proof {
                    reveal_strlit(" \u{f141}");
                    reveal_strlit(" \u{2026}");
                }
                let marker = match icons {
                    IconMode::Nerd => text(" \u{f141}"),
                    IconMode::Plain => text(" \u{2026}"),
                };
                spans.push(styled(marker, with_fg(theme.dim)));
            }
            let ghost marked = spans_view(spans@);
            assert(marked =~~= title + (if *failed {
                seq![span(seq![' ', error_glyph(icons)], fg_style(theme.error_fg))]
            } else if *loading {
                seq![span(seq![' ', loading_glyph(icons)], fg_style(theme.dim))]
            } else {
                Seq::empty()
            }));
            if let Some(m) = fold_marker(hidden, theme) {
                spans.push(m);
            }
            assert(spans_view(spans@) =~~= marked + fold_run(hidden as nat, *theme));
            assert(spans_view(spans@) =~~= goal);
            line(spans)
        },
        OutlineItem::Dir { name, guides } => {
            let mut label = tree_prefix(guides.as_slice());
            proof {
                reveal_strlit(" ");
                reveal_strlit("/");
            }
            if icons == IconMode::Nerd {
                label.append(glyphs.dir.as_str());
                label.append(" ");
            }
            label.append(name.as_str());
            label.append("/");
            let mut spans = vec![styled(label, Style { fg: Some(theme.dim), bg: None, bold: false, italic: true })];
            let ghost first = spans_view(spans@);
            if let Some(m) = fold_marker(hidden, theme) {
                spans.push(m);
            }
            assert(spans_view(spans@) =~~= first + fold_run(hidden as nat, *theme));
            assert(spans_view(spans@) =~~= goal);
            line(spans)
        },
        OutlineItem::File { path, status, change, guides } => {
            proof {
                reveal_strlit("  ");
                reveal_strlit(" ");
            }
            let mut spans: Vec<StyledSpan> = Vec::new();
            if guides.len() == 0 {
                spans.push(styled(text("  "), with_fg(theme.foreground)));
            } else {
                spans.push(styled(tree_prefix(guides.as_slice()), with_fg(theme.dim)));
            }
            let ghost indent = spans_view(spans@);
            assert(indent =~~= seq![
                if guides@.len() == 0 {
                    span(seq![' ', ' '], fg_style(theme.foreground))
                } else {
                    span(tree_prefix_spec(guides@), fg_style(theme.dim))
                },
            ]);
            append_spans(&mut spans, outline_status_spans(*status, *change, theme));
            spans.push(styled(text(" "), with_fg(theme.foreground)));
            let ghost before_icon = spans_view(spans@);
            assert(before_icon =~~= indent + status_spans_spec(*status, *change, *theme) + seq![
                span(seq![' '], fg_style(theme.foreground)),
            ]);
            if icons == IconMode::Nerd {
                let icon_fg = if theme.colorless {
                    theme.foreground
                } else {
                    match glyphs.file_color {
                        Some(c) => c,
                        None => theme.foreground,
                    }
                };
                let mut glyph = String::from_str(glyphs.file.as_str());
                glyph.append(" ");
                spans.push(styled(glyph, with_fg(icon_fg)));
            }
            let ghost before_name = spans_view(spans@);
            assert(before_name =~~= before_icon + (if icons == IconMode::Nerd {
                seq![
                    span(
                        glyphs.file@ + seq![' '],
                        fg_style(
                            if theme.colorless {
                                theme.foreground
                            } else {
                                match glyphs.file_color {
                                    Some(c) => c,
                                    None => theme.foreground,
                                }
                            },
                        ),
                    ),
                ]
            } else {
                Seq::empty()
            }));
            let cs = chars_of(path.as_str());
            let slash = if guides.len() == 0 {
                find_last_slash(&cs)
            } else {
                None
            };
            match slash {
                Some(i) => {
                    let n = cs.len();
                    let base = path.as_str().substring_char(i + 1, n);
                    let mut dir = text("  ");
                    dir.append(path.as_str().substring_char(0, i));
                    spans.push(styled(String::from_str(base), with_fg(theme.foreground)));
                    spans.push(styled(dir, with_fg(theme.dim)));
                    proof {
                        assert(path@.subrange(i + 1, n as int) =~= path@.skip(i + 1));
                        assert(path@.subrange(0, i as int) =~= path@.take(i as int));
                    }
                },
                None => {
                    spans.push(styled(path.clone(), with_fg(theme.foreground)));
                },
            }
            assert(spans_view(spans@) =~~= before_name + name_run(path@, guides@.len() == 0, *theme));
            assert(spans_view(spans@) =~~= goal);
            line(spans)
        },
    }
}

/// One visible outline row: the row's line (see [`outline_line`]) panned `hscroll` columns,
/// washed with the cursor tint across `width` columns when it is the cursor row.
pub fn outline_row_line(
    item: &OutlineItem,
    theme: &Palette,
    icons: IconMode,
    hidden: usize,
    glyphs: &RowGlyphs,
    hscroll: usize,
    is_cursor: bool,
    width: u16,
    focused: bool,
) -> (l: Line)
    requires
        item matches OutlineItem::Header { cs_idx, .. } ==> cs_idx < usize::MAX,
        hscroll < usize::MAX,
    ensures
        l@ == washed(
            panned(
                outline_line(item@, *theme, icons, hidden as nat, glyphs.dir@, glyphs.file@, glyphs.file_color),
                hscroll as nat,
                *theme,
            ),
            width,
            is_cursor,
            false,
            *theme,
            focused,
        ),
{
    let built = build_outline_line(item, theme, icons, hidden, glyphs);
    let panned_line = line(pan_spans(built.spans, hscroll, theme));
    wash_row(panned_line, width, is_cursor, false, theme, focused)
}

/// The summary the panel shows: a changeset's or a directory's.
pub enum Summary {
    Changeset(ChangesetSummary),
    Dir(DirSummary),
}

/// The summary panel's title run and body lines: a changeset summary's (see
/// [`changeset_summary_lines`]) or a directory summary's (see [`dir_summary_lines`]);
/// `dir_glyph` is the nerd directory glyph.
pub fn summary_lines(
    summary: &Summary,
    height: usize,
    theme: &Palette,
    icons: IconMode,
    dir_glyph: &str,
) -> (r: (Vec<StyledSpan>, Vec<Line>))
    ensures
        summary matches Summary::Changeset(cs) ==> spans_view(r.0@) == title_run(
            cs.label@,
            cs.current,
            cs.needs_restack,
            *theme,
            icons,
            None,
        ) && lines_view(r.1@) == changeset_body(*cs, height as nat, *theme, icons),
        summary matches Summary::Dir(d) ==> spans_view(r.0@) == dir_title_run(d.path@, *theme, icons, dir_glyph@)
            && lines_view(r.1@) == summary_body(
            0,
            rows_view(d.files@),
            d.total_adds as nat,
            d.total_dels as nat,
            height as nat,
            *theme,
            icons,
        ),
{
    match summary {
        Summary::Changeset(cs) => changeset_summary_lines(cs, height, theme, icons),
        Summary::Dir(d) => dir_summary_lines(d, height, theme, icons, dir_glyph),
    }
}

} // verus!
