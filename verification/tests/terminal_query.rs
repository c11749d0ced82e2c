use git_workon_review::terminal_query::{
    ansi_roles, assemble_base16, auto_scheme, build_query, collect_step, has_da1_terminator,
    osc_payloads, parse_osc_replies, parse_rgb_spec, AutoScheme, CollectAction, ProbeResult,
    ReadEvent, SynthesizedSlots,
};
use git_workon_review::theme::Color;

// ── OSC color-spec parsing ───────────────────────────────────────────────

#[test]
fn parse_rgb_spec_takes_the_high_byte_of_a_16_bit_channel() {
    assert_eq!(
        parse_rgb_spec("rgb:cccc/9999/cccc"),
        Some(Color::Rgb(0xcc, 0x99, 0xcc))
    );
}

#[test]
fn parse_rgb_spec_accepts_short_channels_and_scales_them() {
    // 8-bit channels pass through unchanged.
    assert_eq!(
        parse_rgb_spec("rgb:ff/80/00"),
        Some(Color::Rgb(0xff, 0x80, 0x00))
    );
    // A single hex digit f == 15/15 of full scale == 255.
    assert_eq!(parse_rgb_spec("rgb:f/0/f"), Some(Color::Rgb(255, 0, 255)));
}

#[test]
fn parse_rgb_spec_rejects_malformed_specs() {
    assert_eq!(parse_rgb_spec("rgb:cccc/9999"), None); // too few channels
    assert_eq!(parse_rgb_spec("rgb:cc/dd/ee/ff"), None); // too many channels
    assert_eq!(parse_rgb_spec("cmyk:1/2/3"), None); // wrong prefix
    assert_eq!(parse_rgb_spec("rgb:zz/00/00"), None); // non-hex
    assert_eq!(parse_rgb_spec("rgb:/00/00"), None); // empty channel
    assert_eq!(parse_rgb_spec("rgb:11111/00/00"), None); // over-long channel
}

// ── Whole-reply parsing → ProbeResult ────────────────────────────────────

/// A complete, well-formed reply: 16 `OSC 4` colors + `OSC 11` bg + `OSC 10` fg + a DA1 tail.
fn full_reply() -> Vec<u8> {
    let mut r = Vec::new();
    for n in 0..16u8 {
        // A recognizable per-index color: R = n*16, so index 5 → 0x50….
        let hh = format!("{:02x}", n * 16);
        r.extend_from_slice(format!("\x1b]4;{n};rgb:{hh}{hh}/2020/4040\x1b\\").as_bytes());
    }
    r.extend_from_slice(b"\x1b]11;rgb:1a1a/1a1a/1a1a\x1b\\"); // dark bg
    r.extend_from_slice(b"\x1b]10;rgb:d3d3/d0d0/c8c8\x1b\\"); // fg
    r.extend_from_slice(b"\x1b[?62;c"); // DA1
    r
}

#[test]
fn parse_osc_replies_decodes_a_complete_reply() {
    let result = parse_osc_replies(&full_reply());
    let ansi = result.ansi16.expect("all 16 colors present");
    assert_eq!(ansi[0], Color::Rgb(0x00, 0x20, 0x40));
    assert_eq!(ansi[5], Color::Rgb(0x50, 0x20, 0x40));
    assert_eq!(ansi[15], Color::Rgb(0xf0, 0x20, 0x40));
    assert_eq!(result.background, Some(Color::Rgb(0x1a, 0x1a, 0x1a)));
    assert_eq!(result.foreground, Some(Color::Rgb(0xd3, 0xd0, 0xc8)));
}

#[test]
fn parse_osc_replies_treats_a_missing_ansi_color_as_no_ansi() {
    // Drop index 7's reply: the remaining 15 must NOT yield a partial ansi16.
    let mut r = Vec::new();
    for n in 0..16u8 {
        if n == 7 {
            continue;
        }
        r.extend_from_slice(format!("\x1b]4;{n};rgb:1010/2020/3030\x1b\\").as_bytes());
    }
    r.extend_from_slice(b"\x1b]11;rgb:1a1a/1a1a/1a1a\x1b\\");
    let result = parse_osc_replies(&r);
    assert_eq!(result.ansi16, None, "an incomplete ANSI set is no set");
    // ...but the background still parsed, so the fallback can use its luminance.
    assert_eq!(result.background, Some(Color::Rgb(0x1a, 0x1a, 0x1a)));
}

#[test]
fn parse_osc_replies_of_garbage_is_empty() {
    assert_eq!(parse_osc_replies(b""), ProbeResult::default());
    assert_eq!(
        parse_osc_replies(b"not an escape sequence"),
        ProbeResult::default()
    );
    // An unterminated OSC is dropped rather than mis-parsed.
    assert_eq!(
        parse_osc_replies(b"\x1b]11;rgb:1a1a/1a1a/1a1a"),
        ProbeResult::default()
    );
}

#[test]
fn osc_payloads_handles_both_bel_and_st_terminators() {
    let bytes = b"\x1b]11;rgb:aa/bb/cc\x07\x1b]10;rgb:11/22/33\x1b\\";
    let payloads = osc_payloads(bytes);
    assert_eq!(payloads.len(), 2);
    assert_eq!(payloads[0], b"11;rgb:aa/bb/cc");
    assert_eq!(payloads[1], b"10;rgb:11/22/33");
}

#[test]
fn da1_terminator_detected_only_when_complete() {
    assert!(has_da1_terminator(b"\x1b[?62;1;c"));
    assert!(has_da1_terminator(b"prefix\x1b[?6c trailing"));
    assert!(!has_da1_terminator(b"\x1b[?62;1")); // no final c yet
    assert!(!has_da1_terminator(b"\x1b[c")); // DA1 request, not a DA1 reply (no ?)
    assert!(!has_da1_terminator(b""));
}

// ── Further cases ────────────────────────────────────────────────────────

#[test]
fn build_query_asks_for_every_color_then_the_da1_sentinel() {
    let mut expected = Vec::new();
    for n in 0..16 {
        expected.extend_from_slice(format!("\x1b]4;{n};?\x1b\\").as_bytes());
    }
    expected.extend_from_slice(b"\x1b]11;?\x1b\\");
    expected.extend_from_slice(b"\x1b]10;?\x1b\\");
    expected.extend_from_slice(b"\x1b[c");
    let q = build_query();
    assert_eq!(q, expected);
    // The query's own DA1 request is no DA1 reply.
    assert!(!has_da1_terminator(&q));
}

#[test]
fn da1_scan_skips_a_csi_that_ends_in_another_letter() {
    assert!(!has_da1_terminator(b"\x1b[?25h"));
    assert!(has_da1_terminator(b"\x1b[?25h\x1b[?1;2c"));
}

#[test]
fn parse_osc_replies_ignores_out_of_range_and_malformed_indices() {
    let mut r = Vec::new();
    r.extend_from_slice(b"\x1b]4;16;rgb:ff/ff/ff\x1b\\");
    r.extend_from_slice(b"\x1b]4;x;rgb:ff/ff/ff\x1b\\");
    r.extend_from_slice(b"\x1b]4;3;rgb:zz/ff/ff\x1b\\");
    r.extend_from_slice(b"\x1b]10;rgb:01/02/03\x07");
    let result = parse_osc_replies(&r);
    assert_eq!(result.ansi16, None);
    assert_eq!(result.background, None);
    assert_eq!(result.foreground, Some(Color::Rgb(1, 2, 3)));
}

#[test]
fn parse_osc_replies_later_background_reply_wins() {
    let mut r = Vec::new();
    r.extend_from_slice(b"\x1b]11;rgb:01/01/01\x1b\\");
    r.extend_from_slice(b"\x1b]11;rgb:02/02/02\x1b\\");
    assert_eq!(parse_osc_replies(&r).background, Some(Color::Rgb(2, 2, 2)));
    // A later malformed reply clears it.
    r.extend_from_slice(b"\x1b]11;junk\x1b\\");
    assert_eq!(parse_osc_replies(&r).background, None);
    // A later reply that is not UTF-8 is skipped entirely.
    let mut s = Vec::new();
    s.extend_from_slice(b"\x1b]11;rgb:02/02/02\x1b\\");
    s.extend_from_slice(b"\x1b]11;\xff\x1b\\");
    assert_eq!(parse_osc_replies(&s).background, Some(Color::Rgb(2, 2, 2)));
}

#[test]
fn parse_rgb_spec_rounds_three_digit_channels_to_nearest() {
    // 0x800 / 0xfff of full scale → 128.03…, rounds to 128.
    assert_eq!(parse_rgb_spec("rgb:800/000/fff"), Some(Color::Rgb(128, 0, 255)));
}

fn sample_ansi() -> [Color; 16] {
    std::array::from_fn(|i| Color::Rgb((i as u8) * 16, 0x40, 0x80))
}

fn marker_slots() -> SynthesizedSlots {
    SynthesizedSlots {
        base01: Color::Indexed(1),
        base02: Color::Indexed(2),
        base04: Color::Indexed(4),
        base06: Color::Indexed(6),
        base09: Color::Indexed(9),
        base0f: Color::Indexed(15),
    }
}

#[test]
fn ansi_roles_map_onto_the_right_slots() {
    let ansi = sample_ansi();
    let bg = Color::Rgb(0x20, 0x20, 0x20);
    let roles = ansi_roles(&ansi, bg, Some(Color::Rgb(0xd0, 0xd0, 0xd0)));
    let base = assemble_base16(&roles, &marker_slots());
    assert_eq!(base.slots[0], bg);
    assert_eq!(base.slots[1], Color::Indexed(1));
    assert_eq!(base.slots[2], Color::Indexed(2));
    assert_eq!(base.slots[3], ansi[8]);
    assert_eq!(base.slots[4], Color::Indexed(4));
    assert_eq!(base.slots[5], Color::Rgb(0xd0, 0xd0, 0xd0));
    assert_eq!(base.slots[6], Color::Indexed(6));
    assert_eq!(base.slots[7], ansi[15]);
    assert_eq!(base.slots[8], ansi[1]);
    assert_eq!(base.slots[9], Color::Indexed(9));
    assert_eq!(base.slots[10], ansi[3]);
    assert_eq!(base.slots[11], ansi[2]);
    assert_eq!(base.slots[12], ansi[6]);
    assert_eq!(base.slots[13], ansi[4]);
    assert_eq!(base.slots[14], ansi[5]);
    assert_eq!(base.slots[15], Color::Indexed(15));
}

#[test]
fn ansi_roles_fall_back_to_ansi7_when_no_foreground_probed() {
    let ansi = sample_ansi();
    let roles = ansi_roles(&ansi, Color::Rgb(0x20, 0x20, 0x20), None);
    assert_eq!(roles.base05, ansi[7]);
}

#[test]
fn auto_scheme_derives_from_a_complete_probe() {
    let probe = ProbeResult {
        ansi16: Some(sample_ansi()),
        background: Some(Color::Rgb(0x1a, 0x1a, 0x1a)),
        foreground: None,
    };
    assert_eq!(
        auto_scheme(&probe),
        AutoScheme::Terminal {
            ansi: sample_ansi(),
            background: Color::Rgb(0x1a, 0x1a, 0x1a),
            foreground: None,
        }
    );
}

#[test]
fn auto_scheme_falls_back_by_background_luminance_then_to_dark() {
    let light_bg = ProbeResult {
        ansi16: None,
        background: Some(Color::Rgb(0xf5, 0xf5, 0xf5)),
        foreground: None,
    };
    assert_eq!(auto_scheme(&light_bg), AutoScheme::Light);
    let dark_bg = ProbeResult {
        ansi16: None,
        background: Some(Color::Rgb(0x1a, 0x1a, 0x1a)),
        foreground: None,
    };
    assert_eq!(auto_scheme(&dark_bg), AutoScheme::Dark);
    let no_bg = ProbeResult {
        ansi16: Some(sample_ansi()),
        background: None,
        foreground: None,
    };
    assert_eq!(auto_scheme(&no_bg), AutoScheme::Dark);
    assert_eq!(auto_scheme(&ProbeResult::default()), AutoScheme::Dark);
}

#[test]
fn collect_step_keeps_reading_until_the_da1_sentinel() {
    let mut buf = Vec::new();
    assert_eq!(collect_step(&mut buf, ReadEvent::Pending), CollectAction::Wait);
    assert!(buf.is_empty());
    assert_eq!(
        collect_step(&mut buf, ReadEvent::Data(b"\x1b]11;rgb:1a1a/1a1a/1a1a\x1b\\")),
        CollectAction::Continue
    );
    assert_eq!(
        collect_step(&mut buf, ReadEvent::Data(b"\x1b[?62;22")),
        CollectAction::Continue
    );
    assert_eq!(collect_step(&mut buf, ReadEvent::Data(b"c")), CollectAction::Stop);
    assert!(buf.starts_with(b"\x1b]11;"));
    assert!(has_da1_terminator(&buf));
}

#[test]
fn collect_step_stops_on_a_read_error_with_what_arrived() {
    let mut buf = Vec::new();
    collect_step(&mut buf, ReadEvent::Data(b"\x1b]11;"));
    assert_eq!(collect_step(&mut buf, ReadEvent::Failed), CollectAction::Stop);
    assert_eq!(buf, b"\x1b]11;");
}
