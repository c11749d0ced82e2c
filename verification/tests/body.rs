use git_workon_review::body::{
    binary_message, body_message, body_view, carve_header, diff_header_lit, failed_message,
    loads_current_file, pane_selection, split_areas, split_focus, split_pane_heights, split_plan,
    BodyView, SplitPlan,
};
use git_workon_review::theme::Palette;
use git_workon_review::diff_line::{EffectiveZoom, Role};
use git_workon_review::layout::Rect;

#[test]
fn a_pane_carves_its_header_row_only_when_two_rows_tall() {
    let area = Rect { x: 36, y: 0, width: 44, height: 19 };
    assert_eq!(
        carve_header(area),
        (Some(Rect { x: 36, y: 0, width: 44, height: 1 }), Rect { x: 36, y: 1, width: 44, height: 18 })
    );
    let short = Rect { x: 0, y: 0, width: 44, height: 1 };
    assert_eq!(carve_header(short), (None, short));
}

#[test]
fn the_diff_header_lights_only_with_focus_and_no_split_captions() {
    assert!(diff_header_lit(false, EffectiveZoom::Single(Role::Combined), 18));
    assert!(!diff_header_lit(true, EffectiveZoom::Single(Role::Combined), 18));
    assert!(!diff_header_lit(false, EffectiveZoom::Split, 18));
    assert!(diff_header_lit(false, EffectiveZoom::Split, 3));
}

#[test]
fn body_view_precedence() {
    let zoom = EffectiveZoom::Single(Role::Unstaged);
    assert_eq!(body_view(true, true, true, true, true, true, true, zoom), BodyView::Summary);
    assert_eq!(body_view(false, true, true, true, true, true, true, zoom), BodyView::Failed);
    assert_eq!(body_view(false, false, true, true, true, true, true, zoom), BodyView::Loading);
    assert_eq!(body_view(false, false, false, true, true, true, true, zoom), BodyView::NoChanges);
    assert_eq!(body_view(false, false, false, false, true, true, true, zoom), BodyView::Binary);
    assert_eq!(body_view(false, false, false, false, false, true, true, zoom), BodyView::Placeholder);
    assert_eq!(body_view(false, false, false, false, false, false, true, zoom), BodyView::Diff(zoom));
    assert_eq!(body_view(false, false, false, false, false, true, false, EffectiveZoom::Split), BodyView::Diff(EffectiveZoom::Split));
}

#[test]
fn body_messages() {
    assert_eq!(failed_message("no such ref"), "Failed to load this changeset: no such ref");
    assert_eq!(binary_message("img.png"), "[Binary file: img.png]");
}

#[test]
fn the_split_halves_the_rows_left_after_two_captions() {
    let area = Rect { x: 0, y: 1, width: 80, height: 19 };
    let s = split_areas(area).unwrap();
    assert_eq!(s.unstaged_caption, Rect { x: 0, y: 1, width: 80, height: 1 });
    assert_eq!(s.unstaged_content, Rect { x: 0, y: 2, width: 80, height: 8 });
    assert_eq!(s.staged_caption, Rect { x: 0, y: 10, width: 80, height: 1 });
    assert_eq!(s.staged_content, Rect { x: 0, y: 11, width: 80, height: 9 });
    assert_eq!(split_pane_heights(&s, Role::Unstaged), (8, 9));
    assert_eq!(split_pane_heights(&s, Role::Staged), (9, 8));
    assert!(split_areas(Rect { x: 0, y: 0, width: 80, height: 3 }).is_none());
}

#[test]
fn split_focus_goes_to_the_focus_roles_half_unless_the_outline_has_it() {
    assert_eq!(split_focus(false, Role::Unstaged), (true, false));
    assert_eq!(split_focus(false, Role::Staged), (false, true));
    assert_eq!(split_focus(true, Role::Staged), (false, false));
}

#[test]
fn exactly_one_label_is_lit_in_each_focus_state() {
    for outline_focused in [false, true] {
        for (zoom, height) in [
            (EffectiveZoom::Single(Role::Combined), 18u16),
            (EffectiveZoom::Split, 18),
            (EffectiveZoom::Split, 3),
        ] {
            for role in [Role::Unstaged, Role::Staged] {
                let captions = zoom == EffectiveZoom::Split && height >= 4;
                let (u, s) = split_focus(outline_focused, role);
                let lit = [
                    outline_focused,
                    diff_header_lit(outline_focused, zoom, height),
                    captions && u,
                    captions && s,
                ];
                assert_eq!(lit.iter().filter(|b| **b).count(), 1);
            }
        }
    }
}

#[test]
fn body_messages_by_view() {
    let theme = Palette::dark();
    let failed = body_message(BodyView::Failed, "boom", "a.rs", &theme).unwrap();
    assert_eq!(failed.content, "Failed to load this changeset: boom");
    assert_eq!(failed.style.fg, Some(theme.error_fg));
    let loading = body_message(BodyView::Loading, "", "a.rs", &theme).unwrap();
    assert_eq!((loading.content.as_str(), loading.style.fg), ("Loading\u{2026}", Some(theme.dim)));
    let none = body_message(BodyView::NoChanges, "", "a.rs", &theme).unwrap();
    assert_eq!((none.content.as_str(), none.style.fg), ("(no changes)", None));
    assert_eq!(body_message(BodyView::Binary, "", "a.png", &theme).unwrap().content, "[Binary file: a.png]");
    assert_eq!(body_message(BodyView::Placeholder, "", "a.rs", &theme).unwrap().content, "a.rs \u{2014} loading\u{2026}");
    assert!(body_message(BodyView::Summary, "", "a.rs", &theme).is_none());
    assert!(body_message(BodyView::Diff(EffectiveZoom::Split), "", "a.rs", &theme).is_none());
}

#[test]
fn the_current_file_loads_before_drawing_unless_loads_are_deferred() {
    let diff = BodyView::Diff(EffectiveZoom::Single(Role::Combined));
    assert!(loads_current_file(false, diff));
    assert!(!loads_current_file(true, diff));
    assert!(!loads_current_file(false, BodyView::Binary));
}

#[test]
fn split_plan_captions_and_short_area_fallback() {
    let theme = Palette::dark();
    let area = Rect { x: 0, y: 1, width: 20, height: 19 };
    match split_plan(area, false, Role::Staged, &theme) {
        SplitPlan::Stacked { areas, unstaged_caption, staged_caption, unstaged_focused, staged_focused } => {
            assert_eq!(areas, split_areas(area).unwrap());
            let u: String = unstaged_caption.spans.iter().map(|s| s.content.as_str()).collect();
            let s: String = staged_caption.spans.iter().map(|s| s.content.as_str()).collect();
            assert_eq!(u, "\u{2500}\u{2500} UNSTAGED \u{2500}\u{2500}\u{2500}\u{2500}\u{2500}\u{2500}\u{2500}\u{2500}");
            assert!(s.starts_with("\u{2500}\u{2500} STAGED "));
            assert_eq!(s.chars().count(), 20);
            assert!(!unstaged_focused && staged_focused);
            assert_eq!(unstaged_caption.spans[1].style.fg, Some(theme.dim));
            assert_eq!(staged_caption.spans[1].style.fg, Some(theme.pane_header_focused_fg));
        }
        SplitPlan::Single { .. } => panic!("expected a stacked split"),
    }
    let short = Rect { x: 0, y: 1, width: 20, height: 3 };
    match split_plan(short, true, Role::Unstaged, &theme) {
        SplitPlan::Single { role, area, focused } => {
            assert_eq!(role, Role::Unstaged);
            assert_eq!(area, short);
            assert!(!focused);
        }
        SplitPlan::Stacked { .. } => panic!("expected the single-pane fallback"),
    }
    assert_eq!(pane_selection(true, Some((2, 4))), Some((2, 4)));
    assert_eq!(pane_selection(false, Some((2, 4))), None);
}
