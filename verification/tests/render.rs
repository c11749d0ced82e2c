use git_workon_review::highlight::{capture_index, FgSpan};
use git_workon_review::model::FileStatus;
use git_workon_review::render::{
    apply_cursor_row, apply_row_tint, apply_selection_row, blend_bg, committed_letter_color, compose_segments, content_spans, current_marker,
    cursor_tint, diffstat_prefixes, error_marker, gutter_field, gutter_width, hscroll_cut,
    loading_marker, pan_spans, tree_prefix, warn_marker, IconMode, Segment, WordSpan,
    STATUS_PLACEHOLDER,
};
use git_workon_review::styled::{Line, Style, StyledSpan};
use unicode_width::UnicodeWidthChar;
use git_workon_review::theme::{Color, Palette};

#[test]
fn markers_follow_the_icon_mode() {
    assert_eq!(current_marker(IconMode::Plain), '\u{2022}');
    assert_eq!(warn_marker(IconMode::Plain), '\u{26A0}');
    assert_eq!(error_marker(IconMode::Plain), '\u{2717}');
    assert_eq!(loading_marker(IconMode::Plain), '\u{2026}');
    assert_eq!(current_marker(IconMode::Nerd), '\u{f444}');
    assert_eq!(warn_marker(IconMode::Nerd), '\u{f071}');
    assert_eq!(error_marker(IconMode::Nerd), '\u{f00d}');
    assert_eq!(loading_marker(IconMode::Nerd), '\u{f141}');
}

#[test]
fn diffstat_prefixes_are_plain_signs_or_nerd_glyphs() {
    assert_eq!(
        diffstat_prefixes(IconMode::Plain),
        ("+".to_string(), "-".to_string())
    );
    assert_eq!(
        diffstat_prefixes(IconMode::Nerd),
        ("\u{f457} ".to_string(), "\u{f458} ".to_string())
    );
}

#[test]
fn gutter_width_is_the_digit_count_but_at_least_three() {
    assert_eq!(gutter_width(0), 3);
    assert_eq!(gutter_width(9), 3);
    assert_eq!(gutter_width(999), 3);
    assert_eq!(gutter_width(1000), 4);
    assert_eq!(gutter_width(123456), 6);
    assert_eq!(gutter_width(usize::MAX), usize::MAX.to_string().len());
}

#[test]
fn gutter_field_right_aligns_or_blanks() {
    assert_eq!(gutter_field(Some(7), 4), "   7");
    assert_eq!(gutter_field(Some(1234), 4), "1234");
    assert_eq!(gutter_field(Some(12345), 3), "12345");
    assert_eq!(gutter_field(None, 3), "   ");
    assert_eq!(gutter_field(Some(0), 0), "0");
}

#[test]
fn tree_prefix_draws_guides_and_the_connector() {
    assert_eq!(tree_prefix(&[]), "");
    assert_eq!(tree_prefix(&[true]), "\u{2570}\u{2500}");
    assert_eq!(tree_prefix(&[false]), "\u{251C}\u{2500}");
    assert_eq!(
        tree_prefix(&[false, true, false]),
        "\u{2502}   \u{251C}\u{2500}"
    );
}

#[test]
fn status_placeholder_is_a_middle_dot() {
    assert_eq!(STATUS_PLACEHOLDER, '\u{b7}');
}

#[test]
fn blend_bg_mixes_sixty_forty() {
    assert_eq!(
        blend_bg(Some(Color::Rgb(100, 0, 255)), Color::Rgb(0, 100, 255)),
        Color::Rgb(60, 40, 255)
    );
    // No underlying background takes the tint itself; a non-RGB one stays.
    assert_eq!(blend_bg(None, Color::Rgb(1, 2, 3)), Color::Rgb(1, 2, 3));
    assert_eq!(blend_bg(Some(Color::Red), Color::Rgb(1, 2, 3)), Color::Red);
    assert_eq!(
        blend_bg(Some(Color::Rgb(10, 10, 10)), Color::Indexed(3)),
        Color::Rgb(10, 10, 10)
    );
}

#[test]
fn cursor_tint_dims_in_unfocused_panes() {
    let theme = Palette::dark();
    assert_eq!(cursor_tint(&theme, true), theme.cursor_bg);
    assert_eq!(cursor_tint(&theme, false), theme.cursor_unfocused_bg);
}

#[test]
fn committed_letter_color_by_status() {
    let theme = Palette::dark();
    assert_eq!(committed_letter_color(FileStatus::Added, &theme), theme.add_strong);
    assert_eq!(committed_letter_color(FileStatus::Deleted, &theme), theme.del_strong);
    for s in [FileStatus::Modified, FileStatus::Renamed, FileStatus::Copied] {
        assert_eq!(committed_letter_color(s, &theme), theme.modified_fg);
    }
    for s in [FileStatus::Untracked, FileStatus::Unmerged] {
        assert_eq!(committed_letter_color(s, &theme), theme.dim);
    }
}

#[test]
fn hscroll_cut_counts_display_columns_not_bytes() {
    assert_eq!(hscroll_cut("hello", 0), (0, false));
    assert_eq!(hscroll_cut("hello", 2), (2, false));
    assert_eq!(hscroll_cut("hello", 5), (5, false));
    assert_eq!(hscroll_cut("hello", 9), (5, false));
    // 'é' is one column but two bytes.
    assert_eq!(hscroll_cut("éa", 1), (2, false));
}

#[test]
fn hscroll_cut_drops_a_wide_char_straddling_the_cut() {
    // '日' is two columns and three bytes: a cut at column 1 lands inside it.
    assert_eq!(hscroll_cut("日本", 1), (3, true));
    assert_eq!(hscroll_cut("日本", 2), (3, false));
    assert_eq!(hscroll_cut("a日", 2), (4, true));
}

#[test]
fn compose_segments_of_an_unhighlighted_line_is_one_plain_segment() {
    let theme = Palette::dark();
    let segs = compose_segments(5, &[], None, &theme);
    assert_eq!(
        segs,
        vec![Segment { start: 0, end: 5, bg: None, fg: theme.foreground }]
    );
    assert!(compose_segments(0, &[], None, &theme).is_empty());
}

#[test]
fn compose_segments_later_background_spans_win() {
    let theme = Palette::dark();
    let subtle = Color::Rgb(1, 1, 1);
    let strong = Color::Rgb(2, 2, 2);
    // Whole-line subtle emphasis, then word-level strong emphasis on bytes 2..4.
    let segs = compose_segments(6, &[(0, 6, subtle), (2, 4, strong)], None, &theme);
    let ranges: Vec<(usize, usize, Option<Color>)> =
        segs.iter().map(|s| (s.start, s.end, s.bg)).collect();
    assert_eq!(
        ranges,
        vec![(0, 2, Some(subtle)), (2, 4, Some(strong)), (4, 6, Some(subtle))]
    );
}

#[test]
fn compose_segments_resolves_syntax_colors_and_clamps_to_the_line() {
    let theme = Palette::dark();
    let keyword = capture_index("keyword").unwrap();
    let fg = vec![FgSpan { start: 0, end: 2, capture: keyword }, FgSpan { start: 1, end: 9, capture: 1 }];
    let segs = compose_segments(4, &[], Some(&fg), &theme);
    assert_eq!(
        segs,
        vec![
            Segment { start: 0, end: 1, bg: None, fg: theme.syntax(keyword) },
            Segment { start: 1, end: 2, bg: None, fg: theme.syntax(keyword) },
            Segment { start: 2, end: 4, bg: None, fg: theme.syntax(1) },
        ]
    );
}

#[test]
fn compose_segments_tile_the_whole_line() {
    let theme = Palette::dark();
    let fg = vec![FgSpan { start: 3, end: 7, capture: 0 }];
    let segs = compose_segments(10, &[(5, 20, Color::Red), (0, 1, Color::Blue)], Some(&fg), &theme);
    assert_eq!(segs.first().unwrap().start, 0);
    assert_eq!(segs.last().unwrap().end, 10);
    for pair in segs.windows(2) {
        assert_eq!(pair[0].end, pair[1].start);
    }
    assert!(segs.iter().all(|s| s.start < s.end));
}

// ── Horizontal scrolling ─────────────────────────────────────────────────

#[test]
fn hscroll_cut_ascii() {
    // "hello world" — cutting at column 6 lands right after the space, before "world".
    assert_eq!(hscroll_cut("hello world", 6), (6, false));
    assert_eq!(hscroll_cut("hello world", 0), (0, false));
}

#[test]
fn hscroll_cut_multibyte_narrow() {
    // "café" — 'é' is a single (narrow, non-ASCII) column, so cutting at column 3 lands
    // exactly at its 2-byte UTF-8 start.
    let text = "café";
    assert_eq!(UnicodeWidthChar::width('é'), Some(1));
    let (cut, pad) = hscroll_cut(text, 3);
    assert_eq!(&text[cut..], "é");
    assert!(!pad);
}

#[test]
fn hscroll_cut_wide_cjk_straddling_the_cut_skips_it_and_pads() {
    // "a漢b" — cutting at column 2 lands mid-glyph: the whole wide char is dropped and `pad`
    // asks the caller for a one-column space.
    let text = "a漢b";
    assert_eq!(UnicodeWidthChar::width('漢'), Some(2));
    let (cut, pad) = hscroll_cut(text, 2);
    assert!(
        pad,
        "a wide char straddling the cut must request a pad column"
    );
    assert_eq!(&text[cut..], "b");
}

#[test]
fn hscroll_cut_emoji() {
    let text = "a🎉b";
    let w = UnicodeWidthChar::width('🎉').unwrap_or(0);
    let (cut, _pad) = hscroll_cut(text, 1 + w);
    assert_eq!(&text[cut..], "b");
}

#[test]
fn hscroll_cut_beyond_line_width_yields_empty() {
    let (cut, pad) = hscroll_cut("short", 100);
    assert_eq!(cut, "short".len());
    assert!(!pad);
    assert_eq!(&"short"[cut..], "");
}

fn spans_text(spans: &[StyledSpan]) -> String {
    spans.iter().map(|s| s.content.as_str()).collect()
}

fn span(text: &str) -> StyledSpan {
    StyledSpan {
        content: text.to_string(),
        style: Style { fg: None, bg: None, bold: false, italic: false },
    }
}

#[test]
fn pan_spans_at_zero_columns_is_a_pass_through() {
    let theme = Palette::dark();
    let spans = vec![span("hello "), span("world")];
    let panned = pan_spans(spans.clone(), 0, &theme);
    assert_eq!(spans_text(&panned), "hello world");
    assert_eq!(panned.len(), spans.len(), "unchanged, span for span");
}

#[test]
fn pan_spans_cuts_mid_span() {
    // "hello world" panned 3 columns — the cut (plus the marker's reserved column) lands inside
    // the first span, leaving its tail attached to the second span.
    let theme = Palette::dark();
    let spans = vec![span("hello "), span("world")];
    let panned = pan_spans(spans, 3, &theme);
    assert_eq!(spans_text(&panned), "…o world");
}

#[test]
fn pan_spans_cuts_exactly_at_a_span_boundary() {
    let theme = Palette::dark();
    let spans = vec![span("ab"), span("cd"), span("ef")];
    let panned = pan_spans(spans, 2, &theme);
    assert_eq!(spans_text(&panned), "…def");
}

#[test]
fn pan_spans_wide_char_straddling_a_span_edge_drops_and_pads() {
    let theme = Palette::dark();
    assert_eq!(UnicodeWidthChar::width('漢'), Some(2));
    let spans = vec![span("a"), span("漢b")];
    let panned = pan_spans(spans, 1, &theme);
    assert_eq!(spans_text(&panned), "… b");
}

#[test]
fn pan_spans_beyond_total_width_yields_just_the_marker() {
    let theme = Palette::dark();
    let spans = vec![span("ab"), span("cd")];
    let panned = pan_spans(spans, 100, &theme);
    assert_eq!(spans_text(&panned), "…");
}

#[test]
fn pan_spans_on_empty_content_is_a_pass_through() {
    let theme = Palette::dark();
    let spans = vec![span("")];
    let panned = pan_spans(spans, 5, &theme);
    assert_eq!(
        spans_text(&panned),
        "",
        "an empty line has nothing to cut, so no marker either"
    );
}

#[test]
fn pan_spans_keeps_styles_and_marks_the_left_edge() {
    let theme = Palette::dark();
    let bold = Style { fg: Some(Color::Red), bg: Some(Color::Blue), bold: true, italic: false };
    let spans = vec![StyledSpan { content: "abcdef".to_string(), style: bold }];
    let panned = pan_spans(spans, 1, &theme);
    assert_eq!(panned.len(), 2);
    assert_eq!(panned[0].content, "…");
    assert_eq!(panned[0].style.fg, Some(theme.dim));
    assert_eq!(panned[1].content, "cdef");
    assert_eq!(panned[1].style, bold);
}

// ── Coloring a line of diff text ─────────────────────────────────────────

#[test]
fn content_spans_of_a_context_line_take_the_syntax_colors() {
    let theme = Palette::dark();
    let keyword = capture_index("keyword").unwrap();
    let hl = vec![FgSpan { start: 0, end: 2, capture: keyword }];
    let spans = content_spans("fn main", Some(&hl), None, &[], false, &theme, 0);
    assert_eq!(spans.len(), 2);
    assert_eq!(spans[0].content, "fn");
    assert_eq!(spans[0].style, Style { fg: Some(theme.syntax(keyword)), bg: None, bold: false, italic: false });
    assert_eq!(spans[1].content, " main");
    assert_eq!(spans[1].style, Style { fg: Some(theme.foreground), bg: None, bold: false, italic: false });
}

#[test]
fn content_spans_of_a_word_paired_line_emphasize_the_changed_word() {
    let theme = Palette::dark();
    let subtle = theme.del_subtle;
    let strong = theme.del_strong;
    let words = [WordSpan { start: 4, end: 8 }];
    let spans = content_spans("old word here", None, Some((subtle, strong)), &words, true, &theme, 0);
    let parts: Vec<(&str, Option<Color>)> =
        spans.iter().map(|s| (s.content.as_str(), s.style.bg)).collect();
    assert_eq!(
        parts,
        vec![("old ", Some(subtle)), ("word", Some(strong)), (" here", Some(subtle))]
    );
}

#[test]
fn content_spans_of_an_unpaired_line_are_strong_throughout() {
    let theme = Palette::dark();
    let spans = content_spans(
        "añadido",
        None,
        Some((theme.add_subtle, theme.add_strong)),
        &[WordSpan { start: 0, end: 1 }],
        false,
        &theme,
        0,
    );
    assert_eq!(spans.len(), 1);
    assert_eq!(spans[0].content, "añadido");
    assert_eq!(spans[0].style.bg, Some(theme.add_strong));
}

#[test]
fn content_spans_pan_after_coloring() {
    let theme = Palette::dark();
    let spans = content_spans("abcdef", None, None, &[], false, &theme, 2);
    assert_eq!(spans_text(&spans), "…def");
    assert!(content_spans("", None, None, &[], false, &theme, 0).is_empty());
}

// ── Row washes ───────────────────────────────────────────────────────────

#[test]
fn apply_row_tint_blends_every_span_and_pads_to_the_row_width() {
    let tint = Color::Rgb(0, 100, 255);
    let line = Line {
        spans: vec![
            StyledSpan {
                content: "ab".to_string(),
                style: Style { fg: Some(Color::Red), bg: Some(Color::Rgb(100, 0, 255)), bold: true, italic: false },
            },
            span("漢"),
        ],
    };
    let out = apply_row_tint(line, 7, tint);
    assert_eq!(out.spans.len(), 3);
    assert_eq!(
        out.spans[0].style,
        Style { fg: Some(Color::Red), bg: Some(Color::Rgb(60, 40, 255)), bold: true, italic: false }
    );
    assert_eq!(out.spans[1].style.bg, Some(tint));
    // "ab" and the wide glyph take 4 columns; 3 tinted spaces fill the row.
    assert_eq!(out.spans[2].content, "   ");
    assert_eq!(out.spans[2].style, Style { fg: None, bg: Some(tint), bold: false, italic: false });
}

#[test]
fn apply_row_tint_adds_no_pad_to_a_full_row() {
    let out = apply_row_tint(Line { spans: vec![span("abcd")] }, 4, Color::Rgb(1, 2, 3));
    assert_eq!(out.spans.len(), 1);
}

#[test]
fn cursor_and_selection_rows_use_their_own_tints() {
    let theme = Palette::dark();
    let focused = apply_cursor_row(Line { spans: vec![] }, 2, &theme, true);
    assert_eq!(focused.spans[0].style.bg, Some(theme.cursor_bg));
    let unfocused = apply_cursor_row(Line { spans: vec![] }, 2, &theme, false);
    assert_eq!(unfocused.spans[0].style.bg, Some(theme.cursor_unfocused_bg));
    let selected = apply_selection_row(Line { spans: vec![] }, 2, &theme);
    assert_eq!(selected.spans[0].style.bg, Some(theme.selection_bg));
    assert_eq!(selected.spans[0].content, "  ");
}
