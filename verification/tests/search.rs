use git_workon_review::align::{AlignedRow, CellKind, Row};
use git_workon_review::search::{compute_matches, find_all, row_lineno, SearchSide};

/// The text of lines `1..=count`, line `n` given by `line(n)`, stored at index `n - 1`.
fn lines_of(count: usize, line: impl Fn(usize) -> String) -> Vec<String> {
    (1..=count).map(line).collect()
}

fn context_row(n: usize) -> AlignedRow {
    AlignedRow {
        old: Row::Line(n),
        new: Row::Line(n),
        old_kind: CellKind::Context,
        new_kind: CellKind::Context,
    }
}

fn change_row(n: usize) -> AlignedRow {
    AlignedRow {
        old: Row::Line(n),
        new: Row::Line(n),
        old_kind: CellKind::Del,
        new_kind: CellKind::Add,
    }
}

/// The aligned layout of an unchanged one-line file.
fn one_context_row() -> Vec<AlignedRow> {
    vec![context_row(1)]
}

#[test]
fn matches_a_paired_del_add_line_on_both_sides_independently() {
    // One deleted line paired with one added line.
    let aligned = vec![change_row(1)];
    let old = lines_of(1, |n| {
        if n == 1 {
            "needle here".to_string()
        } else {
            String::new()
        }
    });
    let new = lines_of(1, |n| {
        if n == 1 {
            "no needle".to_string()
        } else {
            String::new()
        }
    });
    let matches = compute_matches(&aligned, "needle", &old, &new);
    assert_eq!(matches.len(), 2, "one match per side: {matches:?}");
    assert!(matches.iter().any(|m| m.side == SearchSide::Old));
    assert!(matches.iter().any(|m| m.side == SearchSide::New));
}

#[test]
fn matches_a_context_line_once_as_both() {
    let aligned = one_context_row();
    let old = lines_of(1, |_| "same text".to_string());
    let new = lines_of(1, |_| "same text".to_string());
    let matches = compute_matches(&aligned, "text", &old, &new);
    assert_eq!(matches.len(), 1, "a context row must match once, not twice");
    assert_eq!(matches[0].side, SearchSide::Both);
}

#[test]
fn smartcase_is_case_sensitive_only_when_the_query_has_uppercase() {
    let aligned = one_context_row();
    let old = lines_of(1, |_| "Needle".to_string());
    let new = lines_of(1, |_| "Needle".to_string());
    assert_eq!(
        compute_matches(&aligned, "needle", &old, &new).len(),
        1,
        "an all-lowercase query is case-insensitive"
    );
    assert_eq!(
        compute_matches(&aligned, "Needle", &old, &new).len(),
        1,
        "an exact-case query still matches"
    );
    assert_eq!(
        compute_matches(&aligned, "NEEDLE", &old, &new).len(),
        0,
        "a query with any uppercase char turns on case-sensitivity"
    );
}

#[test]
fn sees_matches_in_rows_that_would_collapse_into_a_gap() {
    // A long unchanged run bracketed by real change rows, with a needle buried deep inside it:
    // `compute_matches` scans the pre-collapse rows, so it still finds it.
    let mut rows = vec![change_row(1)];
    rows.extend((2..=17).map(context_row));
    rows.push(change_row(18));

    let old = lines_of(18, |n| {
        if n == 10 {
            "buried needle".to_string()
        } else {
            "x".to_string()
        }
    });
    let new = lines_of(18, |n| {
        if n == 10 {
            "buried needle".to_string()
        } else {
            "x".to_string()
        }
    });
    let matches = compute_matches(&rows, "needle", &old, &new);
    assert_eq!(matches.len(), 1);
    assert_eq!(matches[0].new_lineno, Some(10));
}

#[test]
fn insensitive_offsets_stay_valid_when_lowercasing_would_shift_byte_lengths() {
    // 'İ' (U+0130, 2 bytes) lowercases to "i\u{307}" (3 bytes): the reported range must slice
    // the original text cleanly.
    let aligned = one_context_row();
    let text = "İstanbul needle";
    let line = lines_of(1, |_| text.to_string());
    let matches = compute_matches(&aligned, "needle", &line, &line);
    assert_eq!(matches.len(), 1);
    let (start, end) = (matches[0].start, matches[0].end);
    assert_eq!(
        &text[start..end],
        "needle",
        "match offsets must index the original (un-lowercased) line text"
    );
}

#[test]
fn insensitive_needle_ending_mid_lowercase_expansion_is_not_a_match() {
    // 'İ' folds to two chars ("i\u{307}"); a query consuming only the first has no valid end
    // offset in the original string, so it does not match there — the plain 'i' later does.
    let aligned = one_context_row();
    let text = "İzmir";
    let line = lines_of(1, |_| text.to_string());
    let matches = compute_matches(&aligned, "i", &line, &line);
    assert_eq!(matches.len(), 1, "only the plain 'i' in 'zmir' matches");
    assert_eq!(&text[matches[0].start..matches[0].end], "i");
}

#[test]
fn find_all_reports_non_overlapping_matches_left_to_right() {
    assert_eq!(find_all("aaaa", "aa"), vec![(0, 2), (2, 4)]);
    assert_eq!(find_all("xneedlexneedle", "needle"), vec![(1, 7), (8, 14)]);
}

#[test]
fn find_all_with_an_empty_query_finds_nothing() {
    assert!(find_all("anything", "").is_empty());
}

#[test]
fn find_all_folds_case_only_for_lowercase_queries() {
    assert_eq!(find_all("NeEdLe", "needle"), vec![(0, 6)]);
    assert!(find_all("needle", "Needle").is_empty());
    assert_eq!(find_all("a Needle", "Needle"), vec![(2, 8)]);
}

#[test]
fn find_all_offsets_are_bytes_of_the_original_text() {
    // 'é' is two bytes; the match after it starts at byte 2.
    assert_eq!(find_all("éab", "ab"), vec![(2, 4)]);
}

#[test]
fn row_lineno_reads_a_line_and_skips_filler() {
    assert_eq!(row_lineno(Row::Line(7)), Some(7));
    assert_eq!(row_lineno(Row::Filler), None);
}

#[test]
fn filler_sides_are_not_searched() {
    let rows = vec![AlignedRow {
        old: Row::Filler,
        new: Row::Line(1),
        old_kind: CellKind::Filler,
        new_kind: CellKind::Add,
    }];
    let old: Vec<String> = Vec::new();
    let new = lines_of(1, |_| "needle".to_string());
    let matches = compute_matches(&rows, "needle", &old, &new);
    assert_eq!(matches.len(), 1);
    assert_eq!(matches[0].side, SearchSide::New);
    assert_eq!(matches[0].old_lineno, None);
    assert_eq!(matches[0].new_lineno, Some(1));
    assert_eq!((matches[0].start, matches[0].end), (0, 6));
}
