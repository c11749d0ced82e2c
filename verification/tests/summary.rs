use git_workon_review::model::{FileChange, FileStatus, Hunk, HunkLine, LineKind};
use git_workon_review::summary::{changeset_summary, dir_summary, file_diffstat};

fn hunk_line(kind: LineKind) -> HunkLine {
    HunkLine {
        kind,
        content: b"x\n".to_vec(),
        old_lnum: None,
        new_lnum: None,
        missing_newline: false,
    }
}

fn file(path: &str, adds: usize, dels: usize, contexts: usize) -> FileChange {
    let mut lines = Vec::new();
    for _ in 0..adds {
        lines.push(hunk_line(LineKind::Addition));
    }
    for _ in 0..dels {
        lines.push(hunk_line(LineKind::Deletion));
    }
    for _ in 0..contexts {
        lines.push(hunk_line(LineKind::Context));
    }
    FileChange {
        path: path.to_string(),
        old_path: None,
        status: FileStatus::Modified,
        is_binary: false,
        old_mode: 0o100644,
        new_mode: 0o100644,
        hunks: vec![Hunk {
            old_start: 1,
            old_count: 1,
            new_start: 1,
            new_count: 1,
            header: Vec::new(),
            lines,
        }],
    }
}

#[test]
fn file_diffstat_counts_adds_and_dels_but_not_context() {
    let f = file("a.rs", 3, 2, 5);
    assert_eq!(file_diffstat(&f), (3, 2));
}

#[test]
fn file_diffstat_is_zero_for_a_binary_file_with_no_hunks() {
    let f = FileChange {
        path: "bin.png".to_string(),
        old_path: None,
        status: FileStatus::Modified,
        is_binary: true,
        old_mode: 0o100644,
        new_mode: 0o100644,
        hunks: Vec::new(),
    };
    assert_eq!(file_diffstat(&f), (0, 0));
}

#[test]
fn changeset_summary_totals_every_files_diffstat() {
    let files = vec![file("a.rs", 2, 1, 0), file("b.rs", 0, 3, 0)];
    let summary = changeset_summary(
        "My Title".to_string(),
        true,
        false,
        false,
        false,
        None,
        &files,
    );
    assert_eq!(summary.label, "My Title");
    assert!(summary.current);
    assert!(!summary.needs_restack);
    assert_eq!(summary.files.len(), 2);
    assert_eq!(summary.total_adds, 2);
    assert_eq!(summary.total_dels, 4);
}

#[test]
fn changeset_summary_loading_carries_no_files() {
    let summary = changeset_summary(
        "Pending CS".to_string(),
        false,
        false,
        true,
        false,
        None,
        &[],
    );
    assert!(summary.loading);
    assert!(summary.files.is_empty());
    assert_eq!(summary.total_adds, 0);
}

#[test]
fn changeset_summary_failed_carries_the_message() {
    let summary = changeset_summary(
        "Failed CS".to_string(),
        false,
        false,
        false,
        true,
        Some("boom".to_string()),
        &[],
    );
    assert!(summary.failed);
    assert_eq!(summary.failure_message.as_deref(), Some("boom"));
}

#[test]
fn dir_summary_filters_by_segment_boundary_not_raw_prefix() {
    let files = vec![
        file("src/a.rs", 1, 0, 0),
        file("src/b.rs", 0, 1, 0),
        file("src2/b.rs", 5, 5, 0),
        file("top.rs", 1, 1, 0),
    ];
    let summary = dir_summary("src".to_string(), &files);
    let paths: Vec<&str> = summary.files.iter().map(|r| r.path.as_str()).collect();
    assert_eq!(
        paths,
        vec!["src/a.rs", "src/b.rs"],
        "must match src/* but NOT src2/* (segment-boundary, not raw string prefix)"
    );
    assert_eq!(summary.total_adds, 1);
    assert_eq!(summary.total_dels, 1);
}

#[test]
fn dir_summary_matches_nested_paths_under_the_dir() {
    let files = vec![file("src/a/b.rs", 2, 0, 0), file("src/c.rs", 0, 2, 0)];
    let summary = dir_summary("src".to_string(), &files);
    assert_eq!(summary.files.len(), 2);
    assert_eq!(summary.total_adds, 2);
    assert_eq!(summary.total_dels, 2);
}

#[test]
fn file_diffstat_sums_across_hunks() {
    let mut f = file("a.rs", 1, 2, 1);
    let second = file("a.rs", 4, 0, 2).hunks.remove(0);
    f.hunks.push(second);
    assert_eq!(file_diffstat(&f), (5, 2));
}

#[test]
fn changeset_summary_rows_follow_the_file_order() {
    let files = vec![file("z.rs", 1, 0, 0), file("a.rs", 0, 2, 0)];
    let summary = changeset_summary("cs".to_string(), false, true, false, false, None, &files);
    assert!(summary.needs_restack);
    assert_eq!(summary.files[0].path, "z.rs");
    assert_eq!((summary.files[0].adds, summary.files[0].dels), (1, 0));
    assert_eq!(summary.files[1].path, "a.rs");
    assert_eq!((summary.files[1].adds, summary.files[1].dels), (0, 2));
}

#[test]
fn dir_summary_does_not_count_a_file_named_like_the_dir() {
    let files = vec![file("src", 3, 3, 0), file("src/x.rs", 1, 0, 0)];
    let summary = dir_summary("src".to_string(), &files);
    assert_eq!(summary.path, "src");
    assert_eq!(summary.files.len(), 1);
    assert_eq!(summary.files[0].path, "src/x.rs");
    assert_eq!((summary.total_adds, summary.total_dels), (1, 0));
}
