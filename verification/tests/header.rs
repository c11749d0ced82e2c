use git_workon_review::header::{
    caption_line, changeset_prefix_spans, current_file_label, diff_header_line, file_segment_spans,
    footer_span, hscroll_indicator_span, loading_message, outline_header_line, right_edge_marker_x,
    HeaderState, Notice, Severity,
};
use git_workon_review::model::{FileChange, FileStatus, Hunk, HunkLine, LineKind};
use git_workon_review::panel::{dir_summary_lines, summary_lines, RowGlyphs, Summary};
use git_workon_review::render::IconMode;
use git_workon_review::styled::{Line, Style, StyledSpan};
use git_workon_review::summary::{ChangesetSummary, DirSummary, SummaryFileRow};
use git_workon_review::theme::{Color, Palette};

fn line_text(line: &Line) -> String {
    line.spans.iter().map(|s| s.content.as_str()).collect()
}

fn spans_text(spans: &[StyledSpan]) -> String {
    spans.iter().map(|s| s.content.as_str()).collect()
}

fn added(path: &str, adds: usize) -> FileChange {
    let lines = (0..adds)
        .map(|_| HunkLine {
            kind: LineKind::Addition,
            content: b"x\n".to_vec(),
            old_lnum: None,
            new_lnum: None,
            missing_newline: false,
        })
        .collect();
    FileChange {
        path: path.to_string(),
        old_path: None,
        status: FileStatus::Added,
        is_binary: false,
        old_mode: 0,
        new_mode: 0o100644,
        hunks: vec![Hunk { old_start: 0, old_count: 0, new_start: 1, new_count: adds as u32, header: Vec::new(), lines }],
    }
}

fn state(count: usize, outline_open: bool) -> HeaderState {
    HeaderState {
        changeset_index: count - 1,
        changeset_count: count,
        changeset_title: "cs-b".to_string(),
        needs_restack: true,
        outline_open,
        unavailable: false,
        current: 0,
        base_label: "main".to_string(),
        hscroll: 0,
    }
}

fn glyphs() -> RowGlyphs {
    RowGlyphs { dir: "D".to_string(), file: "F".to_string(), file_color: Some(Color::Indexed(5)) }
}

#[test]
fn current_file_label_names_a_rename_by_its_old_path_and_base() {
    let mut f = added("new.rs", 1);
    assert_eq!(current_file_label(&[f.clone()], 0, "main"), "new.rs");
    f.status = FileStatus::Renamed;
    f.old_path = Some("old.rs".to_string());
    assert_eq!(current_file_label(&[f.clone()], 0, "main"), "old.rs @ main -> new.rs");
    f.old_path = None;
    assert_eq!(current_file_label(&[f], 0, "main"), " @ main -> new.rs");
    assert_eq!(current_file_label(&[], 0, "main"), "");
}

#[test]
fn pan_indicator_shows_only_once_panned() {
    let theme = Palette::dark();
    assert!(hscroll_indicator_span(0, &theme).is_none());
    let s = hscroll_indicator_span(42, &theme).unwrap();
    assert_eq!(s.content, "  \u{bb}42");
    assert_eq!(s.style.fg, Some(theme.dim));
}

#[test]
fn changeset_prefix_keeps_the_warn_glyph_semantic_across_focus() {
    let theme = Palette::dark();
    for focused in [true, false] {
        let spans = changeset_prefix_spans("cs-b", 1, 2, true, &theme, IconMode::Plain, focused);
        assert_eq!(spans_text(&spans), "[2/2] cs-b \u{26A0}");
        assert_eq!(spans[1].style, Style { fg: Some(theme.warn_fg), bg: None, bold: true, italic: false });
    }
    let lit = changeset_prefix_spans("cs-b", 1, 2, false, &theme, IconMode::Plain, true);
    let dim = changeset_prefix_spans("cs-b", 1, 2, false, &theme, IconMode::Plain, false);
    assert_eq!(lit.len(), 1);
    assert_ne!(lit[0].style, dim[0].style);
    assert_eq!(dim[0].style.fg, Some(theme.dim));
}

#[test]
fn file_segment_carries_counter_label_and_per_file_diffstat() {
    let theme = Palette::dark();
    let files = vec![added("b.txt", 1)];
    let spans = file_segment_spans(&files, 0, "main", 0, &theme, IconMode::Plain, true, &glyphs());
    assert_eq!(spans_text(&spans), "[1/1] b.txt  +1 -0");
    let nerd = file_segment_spans(&files, 0, "main", 3, &theme, IconMode::Nerd, false, &glyphs());
    assert_eq!(spans_text(&nerd), "[1/1] F b.txt  \u{f457} 1 \u{f458} 0  \u{bb}3");
    assert_eq!(nerd[1].style, Style { fg: Some(Color::Indexed(5)), bg: None, bold: true, italic: false });
}

#[test]
fn diff_header_with_the_outline_open_shows_only_the_file_segment() {
    let theme = Palette::dark();
    let files = vec![added("b.txt", 1)];
    let l = diff_header_line(&state(2, true), &files, &theme, IconMode::Plain, true, &glyphs());
    let t = line_text(&l);
    assert_eq!(t, "[1/1] b.txt  +1 -0");
    assert!(!t.contains("[2/2]"));
}

#[test]
fn diff_header_with_the_outline_closed_carries_the_changeset_prefix() {
    let theme = Palette::dark();
    let files = vec![added("b.txt", 1)];
    let l = diff_header_line(&state(2, false), &files, &theme, IconMode::Plain, true, &glyphs());
    assert_eq!(line_text(&l), "[2/2] cs-b \u{26A0}  \u{2014}  [1/1] b.txt  +1 -0");
    assert_eq!(l.spans[1].style.fg, Some(theme.warn_fg));
}

#[test]
fn diff_header_of_a_lone_changeset_has_no_changeset_chrome() {
    let theme = Palette::dark();
    let files = vec![added("a.txt", 1)];
    let l = diff_header_line(&state(1, false), &files, &theme, IconMode::Plain, true, &glyphs());
    let t = line_text(&l);
    assert!(t.starts_with("[1/1] a.txt"));
    assert!(!t.contains('\u{26A0}'));
}

#[test]
fn diff_header_of_a_pending_changeset_shows_no_file_counter() {
    let theme = Palette::dark();
    let mut open = state(2, true);
    open.unavailable = true;
    let blank = diff_header_line(&open, &[added("a.txt", 1)], &theme, IconMode::Plain, true, &glyphs());
    assert_eq!(line_text(&blank), " ");
    assert_eq!(blank.spans[0].style.fg, Some(theme.foreground));
    let closed = diff_header_line(&state(2, false), &[], &theme, IconMode::Plain, true, &glyphs());
    assert_eq!(line_text(&closed), "[2/2] cs-b \u{26A0}");
}

#[test]
fn outline_header_shows_position_title_restack_note_and_totals() {
    let theme = Palette::dark();
    let files = vec![added("a.txt", 2), added("b.txt", 1)];
    let l = outline_header_line(&state(2, true), &files, &theme, IconMode::Plain, true);
    assert_eq!(line_text(&l), "[2/2] cs-b  \u{26A0} needs restack  +3 -0");
    assert_eq!(l.spans[2].style, Style { fg: Some(theme.warn_fg), bg: None, bold: true, italic: false });
    let empty = outline_header_line(&state(2, true), &[], &theme, IconMode::Nerd, false);
    assert_eq!(line_text(&empty), "[2/2] cs-b  \u{f071} needs restack");
}

#[test]
fn caption_rule_runs_the_full_width() {
    let theme = Palette::dark();
    let l = caption_line("staged", 20, &theme, false);
    assert_eq!(line_text(&l), "\u{2500}\u{2500} staged \u{2500}\u{2500}\u{2500}\u{2500}\u{2500}\u{2500}\u{2500}\u{2500}\u{2500}\u{2500}");
    assert_eq!(line_text(&l).chars().count(), 20);
    let tight = caption_line("unstaged", 5, &theme, true);
    assert_eq!(line_text(&tight), "\u{2500}\u{2500} unstaged ");
}

#[test]
fn right_edge_marker_only_for_a_line_wider_than_the_pane() {
    let wide = Line { spans: vec![StyledSpan { content: "abcdefghij".to_string(), style: Style { fg: None, bg: None, bold: false, italic: false } }] };
    assert_eq!(right_edge_marker_x(4, 8, &wide), Some(11));
    assert_eq!(right_edge_marker_x(4, 10, &wide), None);
    assert_eq!(right_edge_marker_x(4, 0, &wide), None);
    let cjk = Line { spans: vec![StyledSpan { content: "\u{4e2d}\u{6587}".to_string(), style: Style { fg: None, bg: None, bold: false, italic: false } }] };
    assert_eq!(right_edge_marker_x(0, 3, &cjk), Some(2));
}

#[test]
fn footer_priority_is_prompt_then_notice_then_hint() {
    let theme = Palette::dark();
    let err = Some(Notice { text: "boom".to_string(), severity: Severity::Error });
    let info = Some(Notice { text: "ok".to_string(), severity: Severity::Info });
    let prompt = footer_span(Some("discard? y/n"), &err, "q quit", &theme);
    assert_eq!(prompt.content, "discard? y/n");
    assert_eq!(prompt.style.fg, Some(theme.error_fg));
    let e = footer_span(None, &err, "q quit", &theme);
    assert_eq!((e.content.as_str(), e.style.fg), ("boom", Some(theme.error_fg)));
    let i = footer_span(None, &info, "q quit", &theme);
    assert_eq!((i.content.as_str(), i.style.fg), ("ok", Some(theme.foreground)));
    let h = footer_span(None, &None, "q quit", &theme);
    assert_eq!((h.content.as_str(), h.style.fg), ("q quit", Some(theme.dim)));
}

#[test]
fn loading_message_names_the_file() {
    assert_eq!(loading_message("src/a.rs"), "src/a.rs \u{2014} loading\u{2026}");
}

#[test]
fn dir_summary_title_carries_the_dir_glyph_in_nerd_mode() {
    let theme = Palette::dark();
    let summary = DirSummary {
        path: "src".to_string(),
        files: vec![SummaryFileRow { path: "src/a.rs".to_string(), adds: 2, dels: 1 }],
        total_adds: 2,
        total_dels: 1,
    };
    let (title, body) = dir_summary_lines(&summary, 20, &theme, IconMode::Nerd, "D");
    assert_eq!(spans_text(&title), "D src/");
    assert_eq!(title[0].style, Style { fg: Some(theme.foreground), bg: None, bold: true, italic: false });
    assert_eq!(line_text(&body[2]), "1 files  \u{f457} 2 \u{f458} 1");
    let (plain, body) = dir_summary_lines(&summary, 20, &theme, IconMode::Plain, "D");
    assert_eq!(spans_text(&plain), "src/");
    assert_eq!(body.len(), 3);
    assert_eq!(line_text(&body[0]), "");
    assert_eq!(line_text(&body[2]), "1 files  +2 -1");
}

#[test]
fn summary_lines_dispatch_on_the_summary_kind() {
    let theme = Palette::dark();
    let dir = Summary::Dir(DirSummary { path: "src".to_string(), files: vec![], total_adds: 0, total_dels: 0 });
    let (title, body) = summary_lines(&dir, 10, &theme, IconMode::Plain, "D");
    assert_eq!(spans_text(&title), "src/");
    assert_eq!(line_text(&body[1]), "0 files  +0 -0");
    let cs = Summary::Changeset(ChangesetSummary {
        label: "cs-a".to_string(),
        current: false,
        needs_restack: false,
        loading: true,
        failed: false,
        failure_message: None,
        files: vec![],
        total_adds: 0,
        total_dels: 0,
    });
    let (title, body) = summary_lines(&cs, 10, &theme, IconMode::Plain, "D");
    assert_eq!(spans_text(&title), "cs-a");
    assert_eq!(line_text(&body[0]), "Loading\u{2026}");
}
