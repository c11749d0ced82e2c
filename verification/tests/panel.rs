use git_workon_review::model::FileStatus;
use git_workon_review::panel::{
    build_outline_line, changeset_summary_lines, changeset_title_spans, diffstat_spans,
    fold_marker, outline_row_line, push_summary_body, push_summary_file_row, push_summary_file_rows,
    OutlineItem, RowGlyphs,
};
use git_workon_review::render::{outline_status_spans, pane_header_label_style, IconMode, StagedStatus};
use git_workon_review::styled::{Line, Style, StyledSpan};
use git_workon_review::summary::{ChangesetSummary, SummaryFileRow};
use git_workon_review::theme::{Color, Palette};

fn line_text(line: &Line) -> String {
    line.spans.iter().map(|s| s.content.as_str()).collect()
}

fn spans_text(spans: &[StyledSpan]) -> String {
    spans.iter().map(|s| s.content.as_str()).collect()
}

fn row(path: &str, adds: usize, dels: usize) -> SummaryFileRow {
    SummaryFileRow { path: path.to_string(), adds, dels }
}

fn fg(c: Color) -> Style {
    Style { fg: Some(c), bg: None, bold: false, italic: false }
}

fn glyphs() -> RowGlyphs {
    RowGlyphs { dir: "D".to_string(), file: "F".to_string(), file_color: Some(Color::Indexed(3)) }
}

#[test]
fn diffstat_spans_are_bold_tinted_counts() {
    let theme = Palette::dark();
    let spans = diffstat_spans(12, 3, &theme, IconMode::Plain);
    assert_eq!(spans_text(&spans), "  +12 -3");
    assert_eq!(spans[1].style, Style { fg: Some(theme.add_strong), bg: None, bold: true, italic: false });
    assert_eq!(spans[3].style, Style { fg: Some(theme.del_strong), bg: None, bold: true, italic: false });
    let nerd = diffstat_spans(1, 0, &theme, IconMode::Nerd);
    assert_eq!(spans_text(&nerd), "  \u{f457} 1 \u{f458} 0");
}

#[test]
fn changeset_title_spans_in_the_summary_panel() {
    let theme = Palette::dark();
    let spans = changeset_title_spans("feature", true, true, &theme, IconMode::Plain, None);
    assert_eq!(spans_text(&spans), "\u{2022} feature \u{26A0}");
    assert_eq!(spans[0].style, fg(theme.current_fg));
    assert_eq!(spans[1].style, Style { fg: Some(theme.foreground), bg: None, bold: true, italic: false });
    assert_eq!(spans[2].style, fg(theme.warn_fg));
}

#[test]
fn changeset_title_spans_in_an_outline_header_carry_the_counter_and_accent() {
    let theme = Palette::dark();
    let spans = changeset_title_spans("cs", false, false, &theme, IconMode::Nerd, Some((2, 5)));
    assert_eq!(spans_text(&spans), "\u{f418} [2/5] cs");
    assert_eq!(spans[1].style, fg(theme.dim));
    assert_eq!(spans[2].style, Style { fg: Some(theme.heading_fg), bg: None, bold: true, italic: false });
}

#[test]
fn fold_marker_only_for_hidden_rows() {
    let theme = Palette::dark();
    assert!(fold_marker(0, &theme).is_none());
    let m = fold_marker(7, &theme).unwrap();
    assert_eq!(m.content, " \u{25b8} 7");
    assert_eq!(m.style, fg(theme.dim));
}

#[test]
fn summary_file_row_shows_path_and_tinted_counts() {
    let theme = Palette::dark();
    let mut lines = Vec::new();
    push_summary_file_row(&mut lines, &row("src/a.rs", 4, 1), &theme);
    assert_eq!(lines.len(), 1);
    assert_eq!(line_text(&lines[0]), "src/a.rs  +4 -1");
    assert_eq!(lines[0].spans[2].style, fg(theme.add_strong));
    assert_eq!(lines[0].spans[4].style, fg(theme.del_strong));
}

#[test]
fn summary_file_rows_truncate_with_a_more_line() {
    let theme = Palette::dark();
    let rows = vec![row("a", 1, 0), row("b", 1, 0), row("c", 1, 0), row("d", 1, 0)];
    let mut fits = Vec::new();
    push_summary_file_rows(&mut fits, &rows, 4, &theme);
    assert_eq!(fits.len(), 4);
    let mut cut = Vec::new();
    push_summary_file_rows(&mut cut, &rows, 3, &theme);
    let texts: Vec<String> = cut.iter().map(line_text).collect();
    assert_eq!(texts, vec!["a  +1 -0", "b  +1 -0", "\u{2026} and 2 more"]);
    let mut none = Vec::new();
    push_summary_file_rows(&mut none, &rows, 0, &theme);
    let texts: Vec<String> = none.iter().map(line_text).collect();
    assert_eq!(texts, vec!["\u{2026} and 4 more"]);
}

#[test]
fn summary_body_budgets_the_rows_to_the_height() {
    let theme = Palette::dark();
    let rows = vec![row("a", 1, 2), row("b", 3, 4), row("c", 5, 6)];
    let mut lines = Vec::new();
    push_summary_body(&mut lines, &rows, 9, 12, 4, &theme, IconMode::Plain);
    let texts: Vec<String> = lines.iter().map(line_text).collect();
    // height 4: a blank line and the totals line leave 2 lines, so one row and a "more" line.
    assert_eq!(
        texts,
        vec!["", "a  +1 -2", "\u{2026} and 2 more", "3 files  +9 -12"]
    );
    assert!(lines[0].spans.is_empty());
}

fn summary(failed: bool, loading: bool, message: Option<&str>) -> ChangesetSummary {
    ChangesetSummary {
        label: "cs".to_string(),
        current: false,
        needs_restack: false,
        loading,
        failed,
        failure_message: message.map(|m| m.to_string()),
        files: vec![row("x.rs", 2, 0)],
        total_adds: 2,
        total_dels: 0,
    }
}

#[test]
fn changeset_summary_lines_for_failed_loading_and_ready() {
    let theme = Palette::dark();
    let (title, lines) = changeset_summary_lines(&summary(true, false, Some("boom")), 10, &theme, IconMode::Plain);
    assert_eq!(spans_text(&title), "cs");
    assert_eq!(lines.len(), 1);
    assert_eq!(line_text(&lines[0]), "\u{2717} boom");
    assert_eq!(lines[0].spans[0].style, fg(theme.error_fg));

    let (_, lines) = changeset_summary_lines(&summary(true, false, None), 10, &theme, IconMode::Plain);
    assert_eq!(line_text(&lines[0]), "\u{2717} (no error message)");

    let (_, lines) = changeset_summary_lines(&summary(false, true, None), 10, &theme, IconMode::Nerd);
    assert_eq!(line_text(&lines[0]), "Loading\u{f141}");

    let (_, lines) = changeset_summary_lines(&summary(false, false, None), 10, &theme, IconMode::Plain);
    let texts: Vec<String> = lines.iter().map(line_text).collect();
    assert_eq!(texts, vec!["", "x.rs  +2 -0", "1 files  +2 -0"]);
}

// ── Outline rows ─────────────────────────────────────────────────────────

#[test]
fn outline_status_spans_follow_the_porcelain_matrix() {
    let theme = Palette::dark();
    let untracked = outline_status_spans(StagedStatus::Unstaged, FileStatus::Untracked, &theme);
    assert_eq!(spans_text(&untracked), "??");
    let committed = outline_status_spans(StagedStatus::Committed, FileStatus::Renamed, &theme);
    assert_eq!(spans_text(&committed), "R ");
    assert_eq!(committed[0].style, fg(theme.modified_fg));
    let staged = outline_status_spans(StagedStatus::Staged, FileStatus::Modified, &theme);
    assert_eq!(spans_text(&staged), "M\u{b7}");
    assert_eq!(staged[0].style, fg(theme.add_strong));
    assert_eq!(staged[1].style, fg(theme.dim));
    let partial = outline_status_spans(StagedStatus::Partial, FileStatus::Added, &theme);
    assert_eq!(spans_text(&partial), "AA");
    assert_eq!(partial[1].style, fg(theme.del_strong));
    let unstaged = outline_status_spans(StagedStatus::Unstaged, FileStatus::Deleted, &theme);
    assert_eq!(spans_text(&unstaged), "\u{b7}D");
}

#[test]
fn pane_header_label_lights_only_when_focused() {
    let theme = Palette::dark();
    assert_eq!(
        pane_header_label_style(&theme, true),
        Style { fg: Some(theme.pane_header_focused_fg), bg: None, bold: true, italic: false }
    );
    assert_eq!(pane_header_label_style(&theme, false), fg(theme.dim));
}

#[test]
fn outline_header_row_has_counter_markers_and_fold() {
    let theme = Palette::dark();
    let item = OutlineItem::Header {
        cs_idx: 0,
        n: 3,
        label: "feat".to_string(),
        current: true,
        needs_restack: false,
        loading: true,
        failed: false,
    };
    let line = build_outline_line(&item, &theme, IconMode::Plain, 4, &glyphs());
    assert_eq!(line_text(&line), "\u{2022} [1/3] feat \u{2026} \u{25b8} 4");
    let failed = OutlineItem::Header {
        cs_idx: 1,
        n: 3,
        label: "feat".to_string(),
        current: false,
        needs_restack: false,
        loading: true,
        failed: true,
    };
    let line = build_outline_line(&failed, &theme, IconMode::Plain, 0, &glyphs());
    assert_eq!(line_text(&line), "[2/3] feat \u{2717}");
}

#[test]
fn outline_dir_row_is_dim_italic_with_guides() {
    let theme = Palette::dark();
    let item = OutlineItem::Dir { name: "src".to_string(), guides: vec![false, true] };
    let line = build_outline_line(&item, &theme, IconMode::Plain, 0, &glyphs());
    assert_eq!(line_text(&line), "\u{2502} \u{2570}\u{2500}src/");
    assert_eq!(line.spans[0].style, Style { fg: Some(theme.dim), bg: None, bold: false, italic: true });
    let nerd = build_outline_line(&item, &theme, IconMode::Nerd, 2, &glyphs());
    assert_eq!(line_text(&nerd), "\u{2502} \u{2570}\u{2500}D src/ \u{25b8} 2");
}

#[test]
fn outline_flat_file_row_puts_the_basename_first() {
    let theme = Palette::dark();
    let item = OutlineItem::File {
        path: "src/app/main.rs".to_string(),
        status: StagedStatus::Committed,
        change: FileStatus::Added,
        guides: vec![],
    };
    let line = build_outline_line(&item, &theme, IconMode::Plain, 0, &glyphs());
    assert_eq!(line_text(&line), "  A  main.rs  src/app");
    let n = line.spans.len();
    assert_eq!(line.spans[n - 2].content, "main.rs");
    assert_eq!(line.spans[n - 1].style, fg(theme.dim));
}

#[test]
fn outline_tree_file_row_keeps_its_name_and_colors_the_nerd_glyph() {
    let theme = Palette::dark();
    let item = OutlineItem::File {
        path: "main.rs".to_string(),
        status: StagedStatus::Unstaged,
        change: FileStatus::Modified,
        guides: vec![true],
    };
    let line = build_outline_line(&item, &theme, IconMode::Nerd, 0, &glyphs());
    assert_eq!(line_text(&line), "\u{2570}\u{2500}\u{b7}M F main.rs");
    let icon = line.spans.iter().find(|s| s.content == "F ").unwrap();
    assert_eq!(icon.style, fg(Color::Indexed(3)));
    let mono = Palette::mono(false);
    let line = build_outline_line(&item, &mono, IconMode::Nerd, 0, &glyphs());
    let icon = line.spans.iter().find(|s| s.content == "F ").unwrap();
    assert_eq!(icon.style, fg(mono.foreground));
}

#[test]
fn outline_row_line_pans_and_washes_the_cursor_row() {
    let theme = Palette::dark();
    let item = OutlineItem::Dir { name: "src".to_string(), guides: vec![] };
    let plain = outline_row_line(&item, &theme, IconMode::Plain, 0, &glyphs(), 0, false, 30, true);
    assert_eq!(line_text(&plain), "src/");
    let panned = outline_row_line(&item, &theme, IconMode::Plain, 0, &glyphs(), 1, false, 30, true);
    assert_eq!(line_text(&panned), "\u{2026}c/");
    let cursor = outline_row_line(&item, &theme, IconMode::Plain, 0, &glyphs(), 0, true, 30, true);
    assert_eq!(line_text(&cursor).chars().count(), 30);
    assert!(cursor.spans.iter().all(|s| s.style.bg.is_some()));
}
