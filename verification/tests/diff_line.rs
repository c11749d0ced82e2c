use git_workon_review::align::{AlignedRow, CellKind, Row};
use git_workon_review::diff_line::{
    add_bg_pair, attribution_mode, build_inline_line, build_pane_line, del_bg_pair, divider_style,
    failed_view_message, gap_row_line, inline_row_hl, inline_row_line, inline_row_text,
    needs_deferred_placeholder, pane_rows, pane_split_widths, row_marks, row_screen_y, sbs_divider_x,
    sbs_row_lines, visible_rows, Attribution, AttributionMode, EffectiveZoom, InlineRow,
    LoadedViews, PaneRow, Role, DIVIDER_GLYPH,
};
use git_workon_review::highlight::{capture_index, FgSpan};
use git_workon_review::render::WordSpan;
use git_workon_review::styled::{Line, Style};
use git_workon_review::theme::Palette;

fn line_text(line: &Line) -> String {
    line.spans.iter().map(|s| s.content.as_str()).collect()
}

fn attribution() -> Attribution {
    Attribution { staged_dels: vec![3, 7], unstaged_adds: vec![4] }
}

#[test]
fn attribution_lookups_go_by_line_number() {
    let a = attribution();
    assert!(a.del_is_staged(7));
    assert!(!a.del_is_staged(4));
    assert!(a.add_is_unstaged(4));
    assert!(!a.add_is_unstaged(3));
}

#[test]
fn attribution_mode_by_role() {
    let some = Some(attribution());
    let none: Option<Attribution> = None;
    assert!(matches!(attribution_mode(Role::Combined, &some), AttributionMode::Attributed(_)));
    assert!(matches!(attribution_mode(Role::Combined, &none), AttributionMode::Plain));
    assert!(matches!(attribution_mode(Role::Unstaged, &some), AttributionMode::Plain));
    assert!(matches!(attribution_mode(Role::Staged, &none), AttributionMode::StagedUniform));
}

#[test]
fn staged_changes_take_the_dimmer_pair_and_unstaged_the_bright_one() {
    let theme = Palette::dark();
    let a = attribution();
    let bright_del = (theme.del_subtle, theme.del_strong);
    let staged_del = (theme.del_staged_subtle, theme.del_staged_strong);
    let bright_add = (theme.add_subtle, theme.add_strong);
    let staged_add = (theme.add_staged_subtle, theme.add_staged_strong);
    assert_eq!(del_bg_pair(AttributionMode::Plain, 3, &theme), bright_del);
    assert_eq!(del_bg_pair(AttributionMode::StagedUniform, 3, &theme), staged_del);
    assert_eq!(del_bg_pair(AttributionMode::Attributed(&a), 3, &theme), staged_del);
    assert_eq!(del_bg_pair(AttributionMode::Attributed(&a), 5, &theme), bright_del);
    assert_eq!(add_bg_pair(AttributionMode::Plain, 9, &theme), bright_add);
    assert_eq!(add_bg_pair(AttributionMode::StagedUniform, 9, &theme), staged_add);
    assert_eq!(add_bg_pair(AttributionMode::Attributed(&a), 4, &theme), bright_add);
    assert_eq!(add_bg_pair(AttributionMode::Attributed(&a), 9, &theme), staged_add);
    assert_ne!(bright_del, staged_del);
    assert_ne!(bright_add, staged_add);
}

#[test]
fn filler_rows_hatch_the_gutter_and_the_content_width() {
    let theme = Palette::dark();
    let l = build_pane_line("", None, Row::Filler, CellKind::Filler, &[], false, AttributionMode::Plain, 3, 5, &theme, 0);
    assert_eq!(l.spans.len(), 1);
    assert_eq!(line_text(&l), "\u{2571}".repeat(9));
    assert_eq!(l.spans[0].style, Style { fg: Some(theme.dim), bg: None, bold: false, italic: false });
}

#[test]
fn a_deleted_pane_row_has_a_right_aligned_number_and_the_bright_wash() {
    let theme = Palette::dark();
    let l = build_pane_line(
        "old word here",
        None,
        Row::Line(9),
        CellKind::Del,
        &[],
        false,
        AttributionMode::Plain,
        3,
        20,
        &theme,
        0,
    );
    assert_eq!(line_text(&l), "  9 old word here");
    assert_eq!(l.spans[0].content, "  9 ");
    assert_eq!(l.spans[0].style.fg, Some(theme.gutter));
    assert_eq!(l.spans[1].style.bg, Some(theme.del_strong));
}

#[test]
fn a_word_paired_row_emphasizes_the_changed_word_over_the_subtle_line() {
    let theme = Palette::dark();
    let words = [WordSpan { start: 0, end: 3 }];
    let l = build_pane_line(
        "new word here",
        None,
        Row::Line(9),
        CellKind::Add,
        &words,
        true,
        AttributionMode::StagedUniform,
        3,
        20,
        &theme,
        0,
    );
    assert_eq!(line_text(&l), "  9 new word here");
    assert_eq!(l.spans[1].content, "new");
    assert_eq!(l.spans[1].style.bg, Some(theme.add_staged_strong));
    assert_eq!(l.spans[2].style.bg, Some(theme.add_staged_subtle));
}

#[test]
fn a_context_pane_row_has_no_wash_and_takes_syntax_colors() {
    let theme = Palette::dark();
    let hl = vec![FgSpan { start: 0, end: 2, capture: capture_index("keyword").unwrap() }];
    let l = build_pane_line("fn x", Some(&hl), Row::Line(10), CellKind::Context, &[], false, AttributionMode::Plain, 3, 20, &theme, 0);
    assert_eq!(line_text(&l), " 10 fn x");
    assert_eq!(l.spans[1].style.bg, None);
    assert_eq!(l.spans[1].style.fg, Some(theme.syntax(capture_index("keyword").unwrap())));
}

#[test]
fn a_panned_pane_row_keeps_its_gutter() {
    let theme = Palette::dark();
    let l = build_pane_line("abcdef", None, Row::Line(1), CellKind::Context, &[], false, AttributionMode::Plain, 3, 20, &theme, 2);
    assert_eq!(l.spans[0].content, "  1 ");
    assert_eq!(line_text(&l), "  1 \u{2026}def");
}

#[test]
fn inline_rows_fill_one_gutter_column_per_side() {
    let theme = Palette::dark();
    let ctx = build_inline_line("l10", None, &InlineRow::Context { old: 10, new: 11 }, &[], false, AttributionMode::Plain, 3, 3, &theme, 0);
    assert_eq!(line_text(&ctx), " 10  11 l10");
    let del = build_inline_line("gone", None, &InlineRow::Del { old: 4 }, &[], false, AttributionMode::Plain, 3, 3, &theme, 0);
    assert_eq!(line_text(&del), "  4     gone");
    assert_eq!(del.spans[1].style.bg, Some(theme.del_strong));
    let add = build_inline_line("new", None, &InlineRow::Add { new: 5 }, &[], false, AttributionMode::StagedUniform, 3, 3, &theme, 0);
    assert_eq!(line_text(&add), "      5 new");
    assert_eq!(add.spans[1].style.bg, Some(theme.add_staged_strong));
    assert_eq!(add.spans[0].style.fg, Some(theme.gutter));
}

#[test]
fn gap_rows_name_the_hidden_count_and_take_the_row_washes() {
    let theme = Palette::dark();
    let plain = gap_row_line(7, false, false, 60, &theme, true);
    assert_eq!(line_text(&plain), "\u{b7}\u{b7}\u{b7} 7 unchanged lines (Enter to expand) \u{b7}\u{b7}\u{b7}");
    assert_eq!(plain.spans[0].style.fg, Some(theme.dim));
    assert_eq!(plain.spans[0].style.bg, None);
    let cursor = gap_row_line(7, true, true, 60, &theme, true);
    let selected = gap_row_line(7, false, true, 60, &theme, true);
    assert!(cursor.spans[0].style.bg.is_some());
    assert_ne!(cursor.spans[0].style.bg, selected.spans[0].style.bg);
    assert_eq!(cursor.spans.len(), 2);
    assert_eq!(cursor.spans[1].content.chars().count(), 60 - 43);
}

#[test]
fn deferred_placeholder_follows_pending_and_loaded_views() {
    let none = LoadedViews { combined: false, unstaged: false, staged: false };
    let unstaged_only = LoadedViews { combined: false, unstaged: true, staged: false };
    let all = LoadedViews { combined: true, unstaged: true, staged: true };
    assert!(needs_deferred_placeholder(true, EffectiveZoom::Split, &all));
    assert!(needs_deferred_placeholder(false, EffectiveZoom::Single(Role::Combined), &unstaged_only));
    assert!(!needs_deferred_placeholder(false, EffectiveZoom::Single(Role::Unstaged), &unstaged_only));
    assert!(!needs_deferred_placeholder(false, EffectiveZoom::Split, &unstaged_only));
    assert!(needs_deferred_placeholder(false, EffectiveZoom::Split, &none));
}

#[test]
fn pane_split_gives_the_divider_one_column_and_the_old_pane_the_smaller_half() {
    assert_eq!(pane_split_widths(81), (40, 40));
    assert_eq!(pane_split_widths(80), (39, 40));
    assert_eq!(pane_split_widths(1), (0, 0));
    assert_eq!(pane_split_widths(0), (0, 0));
}

#[test]
fn row_marks_follow_the_cursor_and_the_inclusive_selection() {
    assert_eq!(row_marks(4, Some(4), None), (true, false));
    assert_eq!(row_marks(4, Some(3), Some((2, 4))), (false, true));
    assert_eq!(row_marks(5, None, Some((2, 4))), (false, false));
    assert_eq!(row_marks(2, Some(2), Some((2, 4))), (true, true));
}

#[test]
fn a_cursor_row_washes_both_sbs_panes_to_their_widths() {
    let theme = Palette::dark();
    let row = AlignedRow { old: Row::Line(3), new: Row::Filler, old_kind: CellKind::Del, new_kind: CellKind::Filler };
    let (old, new) = sbs_row_lines(
        &row, "gone", None, &[], "", None, &[], false, AttributionMode::Plain, 3, 3, 20, 10, &theme, 0, true, false, true,
    );
    assert!(line_text(&old).starts_with("  3 gone"));
    assert_eq!(line_text(&old).chars().count(), 20);
    assert_eq!(line_text(&new), "\u{2571}".repeat(10) + "\u{2571}".repeat(4).as_str());
    assert!(old.spans.iter().all(|s| s.style.bg.is_some()));
    assert!(new.spans.iter().all(|s| s.style.bg.is_some()));
    let (plain, _) = sbs_row_lines(
        &row, "gone", None, &[], "", None, &[], false, AttributionMode::Plain, 3, 3, 20, 10, &theme, 0, false, false, true,
    );
    assert_eq!(line_text(&plain), "  3 gone");
}

#[test]
fn an_inline_row_takes_the_changed_words_of_its_own_side() {
    let theme = Palette::dark();
    let old_words = [WordSpan { start: 0, end: 3 }];
    let new_words = [WordSpan { start: 4, end: 8 }];
    let del = inline_row_line(
        "old word", None, &InlineRow::Del { old: 1 }, &old_words, &new_words, true, AttributionMode::Plain, 3, 3, 40, &theme, 0, false, false, true,
    );
    assert_eq!(del.spans[1].content, "old");
    assert_eq!(del.spans[1].style.bg, Some(theme.del_strong));
    let add = inline_row_line(
        "new word", None, &InlineRow::Add { new: 1 }, &old_words, &new_words, true, AttributionMode::Plain, 3, 3, 40, &theme, 0, false, true, true,
    );
    assert_eq!(add.spans[1].content, "new ");
    assert_eq!(add.spans[2].content, "word");
    assert_eq!(line_text(&add).chars().count(), 40);
}

#[test]
fn visible_rows_stop_at_the_pane_height_or_the_row_count() {
    assert_eq!(visible_rows(0, 20, 14), (0, 14));
    assert_eq!(visible_rows(5, 4, 100), (5, 9));
    assert_eq!(visible_rows(10, 4, 12), (10, 12));
    assert_eq!(visible_rows(30, 4, 12), (30, 12));
}

#[test]
fn rows_are_drawn_from_the_top_of_the_pane() {
    assert_eq!(row_screen_y(1, 19, 5, 5), 1);
    assert_eq!(row_screen_y(1, 19, 5, 9), 5);
}

#[test]
fn the_cursor_rows_divider_cell_carries_the_cursor_tint() {
    let theme = Palette::dark();
    assert_eq!(DIVIDER_GLYPH, '\u{2502}');
    assert_eq!(sbs_divider_x(0, 81), 40);
    assert_eq!(sbs_divider_x(10, 80), 49);
    let plain = divider_style(&theme, false, true);
    assert_eq!(plain, Style { fg: Some(theme.dim), bg: None, bold: false, italic: false });
    assert_eq!(divider_style(&theme, true, true).bg, Some(theme.cursor_bg));
    assert_eq!(divider_style(&theme, true, false).bg, Some(theme.cursor_unfocused_bg));
}

#[test]
fn an_inline_row_shows_the_old_line_when_deleted_and_the_new_line_otherwise() {
    let old_lines = vec!["o1".to_string(), "o2".to_string()];
    let new_lines = vec!["n1".to_string(), "n2".to_string(), "n3".to_string()];
    assert_eq!(inline_row_text(&InlineRow::Del { old: 2 }, &old_lines, &new_lines), "o2");
    assert_eq!(inline_row_text(&InlineRow::Add { new: 3 }, &old_lines, &new_lines), "n3");
    assert_eq!(inline_row_text(&InlineRow::Context { old: 1, new: 2 }, &old_lines, &new_lines), "n2");
    let kw = capture_index("keyword").unwrap();
    let old_hl = vec![vec![FgSpan { start: 0, end: 1, capture: kw }]];
    let new_hl = vec![vec![], vec![FgSpan { start: 0, end: 2, capture: kw }]];
    assert_eq!(inline_row_hl(&InlineRow::Del { old: 1 }, Some(&old_hl), Some(&new_hl)), Some(&old_hl[0]));
    assert_eq!(inline_row_hl(&InlineRow::Add { new: 2 }, Some(&old_hl), Some(&new_hl)), Some(&new_hl[1]));
    assert_eq!(inline_row_hl(&InlineRow::Add { new: 9 }, Some(&old_hl), Some(&new_hl)), None);
    assert_eq!(inline_row_hl(&InlineRow::Del { old: 1 }, None, Some(&new_hl)), None);
    assert_eq!(failed_view_message(), "(failed to load file)");
}

#[test]
fn pane_rows_map_display_rows_to_screen_rows_with_their_marks() {
    let rows = pane_rows(1, 3, 5, 100, Some(6), Some((7, 9)));
    assert_eq!(
        rows,
        vec![
            PaneRow { y: 1, row: 5, is_cursor: false, is_selected: false },
            PaneRow { y: 2, row: 6, is_cursor: true, is_selected: false },
            PaneRow { y: 3, row: 7, is_cursor: false, is_selected: true },
        ]
    );
    assert_eq!(pane_rows(1, 10, 5, 7, None, None).len(), 2);
    assert!(pane_rows(1, 10, 9, 7, None, None).is_empty());
}
