use git_workon_review::highlight::{capture_index, highlight_names};
use git_workon_review::theme::{
    is_light_background, parse_hex_color, syntax_italic, syntax_slot_count, Base16, Color,
    Palette, ThemeOverrides, Tint, Washes,
};

#[test]
fn syntax_template_is_parallel_with_the_capture_names() {
    assert_eq!(syntax_slot_count(), highlight_names().len());
}

#[test]
fn dark_syntax_resolves_representative_captures_to_the_historical_colors() {
    let theme = Palette::dark();
    let color = |name: &str| theme.syntax(capture_index(name).unwrap());
    assert_eq!(color("keyword"), Color::Rgb(0xcc, 0x99, 0xcc)); // base0E
    assert_eq!(color("string"), Color::Rgb(0x99, 0xcc, 0x99)); // base0B
    assert_eq!(color("comment"), Color::Rgb(0x74, 0x73, 0x69)); // base03
    assert_eq!(color("function"), Color::Rgb(0x66, 0x99, 0xcc)); // base0D
    assert_eq!(color("number"), Color::Rgb(0xf9, 0x91, 0x57)); // base09
    assert_eq!(color("variable"), Color::Rgb(0xd3, 0xd0, 0xc8)); // base05
}

#[test]
fn dark_diff_tints_match_the_historical_constants() {
    let t = Palette::dark();
    assert_eq!(t.del_subtle, Color::Rgb(60, 24, 24));
    assert_eq!(t.del_strong, Color::Rgb(120, 40, 40));
    assert_eq!(t.add_subtle, Color::Rgb(20, 48, 24));
    assert_eq!(t.add_strong, Color::Rgb(32, 100, 48));
    assert_eq!(t.del_staged_subtle, Color::Rgb(42, 26, 28));
    assert_eq!(t.del_staged_strong, Color::Rgb(64, 38, 40));
    assert_eq!(t.add_staged_subtle, Color::Rgb(24, 34, 26));
    assert_eq!(t.add_staged_strong, Color::Rgb(34, 50, 38));
    assert_eq!(t.cursor_bg, Color::Rgb(45, 50, 90));
    assert_eq!(t.selection_bg, Color::Rgb(30, 66, 66));
    assert_eq!(t.cursor_unfocused_bg, Color::Rgb(35, 38, 55));
}

#[test]
fn dark_semantic_fg_matches_the_historical_render_rs_constants() {
    let t = Palette::dark();
    assert_eq!(t.error_fg, Color::Rgb(220, 60, 60));
    assert_eq!(t.warn_fg, Color::Rgb(214, 158, 46));
    assert_eq!(t.current_fg, Color::Rgb(96, 200, 128));
}

#[test]
fn dark_heading_fg_takes_the_eighties_dark_cyan_accent() {
    let t = Palette::dark();
    assert_eq!(t.heading_fg, Color::Rgb(0x66, 0xcc, 0xcc)); // base0C
}

#[test]
fn dark_modified_fg_takes_the_eighties_dark_orange_accent() {
    let t = Palette::dark();
    assert_eq!(t.modified_fg, Color::Rgb(0xf9, 0x91, 0x57)); // base09
    assert_ne!(
        t.modified_fg, t.warn_fg,
        "modified_fg must stay independently themeable from warn_fg"
    );
}

#[test]
fn dark_chrome_fields_match_the_eighties_dark_ramp_and_paint_the_canvas() {
    let t = Palette::dark();
    assert_eq!(t.background, Color::Rgb(0x2d, 0x2d, 0x2d)); // base00
    assert_eq!(t.foreground, Color::Rgb(0xd3, 0xd0, 0xc8)); // base05
    assert_eq!(t.dim, Color::Rgb(0x74, 0x73, 0x69)); // base03
    assert_eq!(t.gutter, Color::Rgb(0xa0, 0x9f, 0x93)); // base04
    assert!(t.paint_canvas);
}

fn rgb(color: Color) -> (u8, u8, u8) {
    match color {
        Color::Rgb(r, g, b) => (r, g, b),
        other => panic!("expected an RGB color, got {other:?}"),
    }
}

fn luminance(color: Color) -> u32 {
    let (r, g, b) = rgb(color);
    r as u32 + g as u32 + b as u32
}

#[test]
fn light_base00_is_high_luminance() {
    assert!(luminance(Base16::one_light().slot(0)) > luminance(Base16::eighties_dark().slot(0)));
    assert!(luminance(Base16::one_light().slot(0)) > 600); // out of a 765 (255*3) max
}

#[test]
fn only_the_comment_capture_renders_italic() {
    assert!(syntax_italic(capture_index("comment").unwrap()));
    assert!(!syntax_italic(capture_index("keyword").unwrap()));
    assert!(!syntax_italic(capture_index("string").unwrap()));
    assert!(!syntax_italic(capture_index("attribute").unwrap()));
}

#[test]
fn is_light_background_splits_on_the_luminance_midpoint() {
    assert!(is_light_background(Base16::one_light().slot(0)));
    assert!(!is_light_background(Base16::eighties_dark().slot(0)));
    // A non-RGB color reads as dark.
    assert!(!is_light_background(Color::Gray));
}

#[test]
fn parse_hex_color_accepts_hash_and_bare_six_digit_hex() {
    assert_eq!(
        parse_hex_color("#2d2d2d"),
        Some(Color::Rgb(0x2d, 0x2d, 0x2d))
    );
    assert_eq!(
        parse_hex_color("2d2d2d"),
        Some(Color::Rgb(0x2d, 0x2d, 0x2d))
    );
}

#[test]
fn parse_hex_color_rejects_shorthand_invalid_and_empty() {
    assert_eq!(parse_hex_color("#fff"), None, "3-digit shorthand rejected");
    assert_eq!(parse_hex_color("2d2d2g"), None, "non-hex digit rejected");
    assert_eq!(parse_hex_color(""), None, "empty rejected");
}

#[test]
fn empty_overrides_is_an_identity_on_dark() {
    let overrides = ThemeOverrides::default();
    assert!(overrides.is_empty());
    let mut t = Palette::dark();
    let before = Palette::dark();
    t.apply_overrides(&overrides);
    assert_eq!(t.background, before.background);
    assert_eq!(t.foreground, before.foreground);
    assert_eq!(t.error_fg, before.error_fg);
    assert_eq!(t.heading_fg, before.heading_fg);
    assert_eq!(t.del_subtle, before.del_subtle);
    assert_eq!(t.cursor_bg, before.cursor_bg);
    assert_eq!(t.paint_canvas, before.paint_canvas);
    assert_eq!(
        t.syntax(capture_index("keyword").unwrap()),
        before.syntax(capture_index("keyword").unwrap())
    );
}

#[test]
fn apply_overrides_base0e_recolors_the_keyword_syntax_capture() {
    let mut overrides = ThemeOverrides::default();
    overrides.set_slot(14, Color::Rgb(0x11, 0x22, 0x33)); // base0E → keyword
    let mut t = Palette::dark();
    t.apply_overrides(&overrides);
    assert_eq!(
        t.syntax(capture_index("keyword").unwrap()),
        Color::Rgb(0x11, 0x22, 0x33)
    );
    // Unrelated captures are untouched.
    assert_eq!(
        t.syntax(capture_index("string").unwrap()),
        Palette::dark().syntax(capture_index("string").unwrap())
    );
}

#[test]
fn apply_overrides_base08_rewrites_error_fg_even_on_darks_hand_authored_value() {
    let mut overrides = ThemeOverrides::default();
    overrides.set_slot(8, Color::Rgb(0xaa, 0xbb, 0xcc)); // base08 → error_fg
    let mut t = Palette::dark();
    t.apply_overrides(&overrides);
    assert_eq!(t.error_fg, Color::Rgb(0xaa, 0xbb, 0xcc));
    assert_ne!(t.error_fg, Palette::dark().error_fg);
}

#[test]
fn apply_overrides_tint_lands_verbatim_unaffected_by_slot_overrides() {
    let mut overrides = ThemeOverrides::default();
    overrides.set_slot(8, Color::Rgb(0xaa, 0xbb, 0xcc)); // base08 → error_fg, NOT del_subtle
    overrides.cursor_bg = Some(Color::Rgb(0x01, 0x02, 0x03));
    let mut t = Palette::dark();
    t.apply_overrides(&overrides);
    assert_eq!(t.cursor_bg, Color::Rgb(0x01, 0x02, 0x03));
    // The del/add tints are untouched by the base08 slot override.
    assert_eq!(t.del_subtle, Palette::dark().del_subtle);
}

#[test]
fn mono_fg_and_syntax_fields_are_all_reset() {
    let t = Palette::mono(false);
    assert_eq!(t.background, Color::Reset);
    assert_eq!(t.foreground, Color::Reset);
    assert_eq!(t.dim, Color::Reset);
    assert_eq!(t.gutter, Color::Reset);
    assert_eq!(t.error_fg, Color::Reset);
    assert_eq!(t.warn_fg, Color::Reset);
    assert_eq!(t.current_fg, Color::Reset);
    assert_eq!(t.heading_fg, Color::Reset);
    assert_eq!(t.modified_fg, Color::Reset);
    assert!(!t.paint_canvas);
    for capture in 0..syntax_slot_count() {
        assert_eq!(
            t.syntax(capture),
            Color::Reset,
            "capture {capture} not Reset"
        );
    }
}

/// A wash must be an achromatic (`r == g == b`) `Rgb` — never `Reset`.
fn assert_achromatic(color: Color) {
    let (r, g, b) = rgb(color);
    assert_eq!(r, g, "not achromatic: {color:?}");
    assert_eq!(g, b, "not achromatic: {color:?}");
}

#[test]
fn mono_washes_are_achromatic_and_preserve_the_curated_invariants() {
    for light in [false, true] {
        let t = Palette::mono(light);
        for wash in [
            t.del_subtle,
            t.del_strong,
            t.add_subtle,
            t.add_strong,
            t.del_staged_subtle,
            t.del_staged_strong,
            t.add_staged_subtle,
            t.add_staged_strong,
            t.cursor_bg,
            t.selection_bg,
            t.cursor_unfocused_bg,
        ] {
            assert_achromatic(wash);
        }

        // Add and Del share one gray ladder.
        assert_eq!(t.del_subtle, t.add_subtle);
        assert_eq!(t.del_strong, t.add_strong);
        assert_eq!(t.del_staged_subtle, t.add_staged_subtle);
        assert_eq!(t.del_staged_strong, t.add_staged_strong);

        // Subtle vs strong remain visibly distinct steps.
        assert_ne!(t.del_subtle, t.del_strong);
        assert_ne!(t.del_staged_subtle, t.del_staged_strong);

        // Staged reads dimmer (closer to the implied background) than unstaged.
        let (staged_subtle, _, _) = rgb(t.del_staged_subtle);
        let (subtle, _, _) = rgb(t.del_subtle);
        let (staged_strong, _, _) = rgb(t.del_staged_strong);
        let (strong, _, _) = rgb(t.del_strong);
        if light {
            assert!(staged_subtle > subtle, "staged should sit closer to white");
            assert!(staged_strong > strong, "staged should sit closer to white");
        } else {
            assert!(staged_subtle < subtle, "staged should sit closer to black");
            assert!(staged_strong < strong, "staged should sit closer to black");
        }

        // Cursor vs selection are distinct, and the unfocused cursor wash reads dimmer.
        assert_ne!(t.cursor_bg, t.selection_bg);
        let (cursor, _, _) = rgb(t.cursor_bg);
        let (cursor_unfocused, _, _) = rgb(t.cursor_unfocused_bg);
        if light {
            assert!(cursor_unfocused > cursor);
        } else {
            assert!(cursor_unfocused < cursor);
        }
    }
}

#[test]
fn mono_pane_header_focused_fg_collapses_with_dim_leaving_bold_the_only_differentiator() {
    for light in [false, true] {
        let t = Palette::mono(light);
        assert_eq!(t.pane_header_focused_fg, Color::Reset);
        assert_eq!(t.pane_header_focused_fg, t.dim);
    }
}

#[test]
fn mono_dark_ladder_sits_near_black_and_light_ladder_near_white() {
    let (r, _, _) = rgb(Palette::mono(false).del_strong);
    assert!(r < 128, "dark ladder should be a dark gray");
    let (r, _, _) = rgb(Palette::mono(true).del_strong);
    assert!(r > 128, "light ladder should be a pale gray");
}

// ── Further cases ───────────────────────────────────────────────────────────

/// A scheme with a distinct value in every slot and the given `base00`.
fn probed_base16(base00: Color) -> Base16 {
    let mut slots = [Color::Rgb(0, 0, 0); 16];
    for (i, slot) in slots.iter_mut().enumerate() {
        *slot = Color::Rgb((i as u8) * 16, 0x20, 0x40);
    }
    slots[0] = base00;
    Base16 { slots }
}

fn sample_washes() -> Washes {
    let w = |n: u8| Color::Rgb(n, n, 1);
    Washes {
        del_subtle: w(1),
        del_strong: w(2),
        add_subtle: w(3),
        add_strong: w(4),
        del_staged_subtle: w(5),
        del_staged_strong: w(6),
        add_staged_subtle: w(7),
        add_staged_strong: w(8),
        cursor_bg: w(9),
        selection_bg: w(10),
        cursor_unfocused_bg: w(11),
    }
}

#[test]
fn from_base16_takes_syntax_chrome_and_accents_from_the_scheme() {
    let probed = probed_base16(Color::Rgb(0x1a, 0x1a, 0x1a));
    let p = Palette::from_base16(&probed, sample_washes(), false);
    assert_eq!(p.syntax(capture_index("keyword").unwrap()), probed.slot(14));
    assert_eq!(p.syntax(capture_index("string").unwrap()), probed.slot(11));
    assert_eq!(p.syntax(capture_index("comment").unwrap()), probed.slot(3));
    assert_eq!(p.background, probed.slot(0));
    assert_eq!(p.foreground, probed.slot(5));
    assert_eq!(p.pane_header_focused_fg, probed.slot(5));
    assert_eq!(p.dim, probed.slot(3));
    assert_eq!(p.gutter, probed.slot(4));
    assert_eq!(p.filler_fg, probed.slot(1));
    assert_eq!(p.error_fg, probed.slot(8));
    assert_eq!(p.warn_fg, probed.slot(10));
    assert_eq!(p.current_fg, probed.slot(11));
    assert_eq!(p.heading_fg, probed.slot(12));
    assert_eq!(p.modified_fg, probed.slot(9));
    assert!(!p.paint_canvas);
    assert!(!p.colorless);
}

#[test]
fn from_base16_lays_the_washes_in_verbatim() {
    let w = sample_washes();
    let p = Palette::from_base16(&Base16::one_light(), w, true);
    assert_eq!(p.del_subtle, w.del_subtle);
    assert_eq!(p.del_strong, w.del_strong);
    assert_eq!(p.add_subtle, w.add_subtle);
    assert_eq!(p.add_strong, w.add_strong);
    assert_eq!(p.del_staged_subtle, w.del_staged_subtle);
    assert_eq!(p.del_staged_strong, w.del_staged_strong);
    assert_eq!(p.add_staged_subtle, w.add_staged_subtle);
    assert_eq!(p.add_staged_strong, w.add_staged_strong);
    assert_eq!(p.cursor_bg, w.cursor_bg);
    assert_eq!(p.selection_bg, w.selection_bg);
    assert_eq!(p.cursor_unfocused_bg, w.cursor_unfocused_bg);
    assert!(p.paint_canvas);
    assert_eq!(p.background, Color::Rgb(0xfa, 0xfa, 0xfa));
    assert_eq!(p.syntax(capture_index("keyword").unwrap()), Color::Rgb(0xa6, 0x26, 0xa4));
}

#[test]
fn apply_overrides_base00_turns_canvas_painting_on() {
    let mut t = Palette::from_base16(&probed_base16(Color::Rgb(0x1a, 0x1a, 0x1a)), sample_washes(), false);
    assert!(!t.paint_canvas);
    let mut overrides = ThemeOverrides::default();
    overrides.set_slot(0, Color::Rgb(0x10, 0x10, 0x10));
    t.apply_overrides(&overrides);
    assert_eq!(t.background, Color::Rgb(0x10, 0x10, 0x10));
    assert!(t.paint_canvas);
}

#[test]
fn apply_overrides_slot_rewrites_every_field_mapped_to_it() {
    let mut overrides = ThemeOverrides::default();
    overrides.set_slot(5, Color::Indexed(7)); // base05 → foreground and every base05 capture
    let mut t = Palette::dark();
    t.apply_overrides(&overrides);
    assert_eq!(t.foreground, Color::Indexed(7));
    for name in ["embedded", "operator", "punctuation", "variable", "variable.parameter"] {
        assert_eq!(t.syntax(capture_index(name).unwrap()), Color::Indexed(7), "{name}");
    }
    // The focused header label is not role-mapped to a slot, only to its own tint key.
    assert_eq!(t.pane_header_focused_fg, Palette::dark().pane_header_focused_fg);
}

#[test]
fn applying_the_same_overrides_twice_changes_nothing_more() {
    let mut overrides = ThemeOverrides::default();
    overrides.set_slot(11, Color::Rgb(1, 2, 3));
    overrides.filler_fg = Some(Color::Rgb(4, 5, 6));
    let mut once = Palette::dark();
    once.apply_overrides(&overrides);
    let mut twice = once;
    twice.apply_overrides(&overrides);
    assert_eq!(twice.current_fg, once.current_fg);
    assert_eq!(twice.filler_fg, once.filler_fg);
    for c in 0..syntax_slot_count() {
        assert_eq!(twice.syntax(c), once.syntax(c));
    }
}

#[test]
fn set_slot_makes_overrides_non_empty() {
    let mut overrides = ThemeOverrides::default();
    overrides.set_slot(15, Color::Black);
    assert!(!overrides.is_empty());
    let mut tint_only = ThemeOverrides::default();
    tint_only.del_strong = Some(Color::White);
    assert!(!tint_only.is_empty());
}

#[test]
fn parse_hex_color_is_case_insensitive_and_reads_each_channel() {
    assert_eq!(parse_hex_color("#AbCdEf"), Some(Color::Rgb(0xab, 0xcd, 0xef)));
    assert_eq!(parse_hex_color("00ff10"), Some(Color::Rgb(0x00, 0xff, 0x10)));
    assert_eq!(parse_hex_color("##00ff10"), None, "only one leading #");
    assert_eq!(parse_hex_color("#00ff1"), None, "five digits rejected");
    assert_eq!(parse_hex_color("#00ff100"), None, "seven digits rejected");
}

#[test]
fn capture_index_knows_every_name_and_nothing_else() {
    for (i, name) in highlight_names().iter().enumerate() {
        assert_eq!(capture_index(name), Some(i));
    }
    assert_eq!(capture_index("comment"), Some(1));
    assert_eq!(capture_index("nonsense"), None);
}

#[test]
fn syntax_slots_follow_the_base16_roles() {
    // Every capture of eighties.dark resolves to one of its accents or ramp colors.
    let dark = Palette::dark();
    let base = Base16::eighties_dark();
    assert_eq!(dark.syntax(capture_index("tag").unwrap()), base.slot(8));
    assert_eq!(dark.syntax(capture_index("type").unwrap()), base.slot(10));
    assert_eq!(dark.syntax(capture_index("escape").unwrap()), base.slot(12));
    assert_eq!(dark.syntax(capture_index("variable.builtin").unwrap()), base.slot(8));
}

#[test]
fn set_tint_overrides_one_tint_verbatim() {
    let mut overrides = ThemeOverrides::default();
    overrides.set_tint(Tint::CursorBg, Color::Rgb(1, 2, 3));
    overrides.set_slot(10, Color::Red);
    assert_eq!(overrides.cursor_bg, Some(Color::Rgb(1, 2, 3)));
    assert!(overrides.selection_bg.is_none());
    let mut t = Palette::dark();
    t.apply_overrides(&overrides);
    assert_eq!(t.cursor_bg, Color::Rgb(1, 2, 3));
    assert_eq!(t.warn_fg, Color::Red);
    assert_eq!(t.selection_bg, Palette::dark().selection_bg);
}

#[test]
fn a_tint_assigned_directly_lands_verbatim() {
    let mut overrides = ThemeOverrides::default();
    overrides.filler_fg = Some(Color::Rgb(9, 9, 9));
    let mut t = Palette::dark();
    t.apply_overrides(&overrides);
    assert_eq!(t.filler_fg, Color::Rgb(9, 9, 9));
    assert_eq!(t.cursor_bg, Palette::dark().cursor_bg);
}
