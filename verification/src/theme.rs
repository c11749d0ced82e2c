//! The base16 color-scheme primitive and the resolved palette a frame is painted with.
//!
//! A [`Base16`] scheme holds 16 slots: `base00`–`base07` are the monochrome ramp (background to
//! foreground) and `base08`–`base0F` the accents. A [`Palette`] resolves a scheme into the colors
//! the renderer paints: per-capture syntax foreground (through one palette-invariant template,
//! [`syntax_slot_of`]), the diff and cursor washes, and the chrome foregrounds. The curated dark
//! scheme keeps its hand-tuned washes verbatim; schemes whose washes are blended from accents
//! are assembled by [`Palette::from_base16`] from washes computed by the caller.
//!
//! User overrides ([`ThemeOverrides`]) rewrite a resolved palette with one uniform rule: a slot
//! override rewrites every field role-mapped to that slot, and tint overrides land last and
//! verbatim. [`Palette::mono`] is the achromatic scheme for `NO_COLOR`.
use vstd::prelude::*;
use vstd::utf8::encode_utf8;

verus! {

/// A terminal color: one of the sixteen named ANSI colors, the terminal's default, a 24-bit RGB
/// color, or an entry of the 256-color table.
#[derive(Debug, Clone, Copy, PartialEq, Eq, Hash, Structural)]
pub enum Color {
    Reset,
    Black,
    Red,
    Green,
    Yellow,
    Blue,
    Magenta,
    Cyan,
    Gray,
    DarkGray,
    LightRed,
    LightGreen,
    LightYellow,
    LightBlue,
    LightMagenta,
    LightCyan,
    White,
    Rgb(u8, u8, u8),
    Indexed(u8),
}

/// A 16-slot base16 scheme, indexed 0–15 by slot number (`base00`–`base0F`).
#[derive(Debug, Clone, Copy, PartialEq, Eq)]
pub struct Base16 {
    pub slots: [Color; 16],
}

/// The slots of base16-eighties.dark (Chris Kempson).
pub open spec fn eighties_dark_slots() -> Seq<Color> {
    seq![
        Color::Rgb(0x2d, 0x2d, 0x2d),
        Color::Rgb(0x39, 0x39, 0x39),
        Color::Rgb(0x51, 0x51, 0x51),
        Color::Rgb(0x74, 0x73, 0x69),
        Color::Rgb(0xa0, 0x9f, 0x93),
        Color::Rgb(0xd3, 0xd0, 0xc8),
        Color::Rgb(0xe8, 0xe6, 0xdf),
        Color::Rgb(0xf2, 0xf0, 0xec),
        Color::Rgb(0xf2, 0x77, 0x7a),
        Color::Rgb(0xf9, 0x91, 0x57),
        Color::Rgb(0xff, 0xcc, 0x66),
        Color::Rgb(0x99, 0xcc, 0x99),
        Color::Rgb(0x66, 0xcc, 0xcc),
        Color::Rgb(0x66, 0x99, 0xcc),
        Color::Rgb(0xcc, 0x99, 0xcc),
        Color::Rgb(0xd2, 0x7b, 0x53),
    ]
}

/// The slots of base16-one-light (Daniel Pfeifer): a light scheme, so `base00` is near-white and
/// `base07` the darkest ramp step.
pub open spec fn one_light_slots() -> Seq<Color> {
    seq![
        Color::Rgb(0xfa, 0xfa, 0xfa),
        Color::Rgb(0xf0, 0xf0, 0xf1),
        Color::Rgb(0xe5, 0xe5, 0xe6),
        Color::Rgb(0xa0, 0xa1, 0xa7),
        Color::Rgb(0x69, 0x6c, 0x77),
        Color::Rgb(0x38, 0x3a, 0x42),
        Color::Rgb(0x20, 0x22, 0x27),
        Color::Rgb(0x09, 0x0a, 0x0b),
        Color::Rgb(0xca, 0x12, 0x43),
        Color::Rgb(0xd7, 0x5f, 0x00),
        Color::Rgb(0xc1, 0x84, 0x01),
        Color::Rgb(0x50, 0xa1, 0x4f),
        Color::Rgb(0x01, 0x84, 0xbc),
        Color::Rgb(0x40, 0x78, 0xf2),
        Color::Rgb(0xa6, 0x26, 0xa4),
        Color::Rgb(0x98, 0x68, 0x01),
    ]
}

impl Base16 {
    /// base16-eighties.dark, the scheme the curated dark palette draws its accents from.
    pub fn eighties_dark() -> (r: Base16)
        ensures
            r.slots@ == eighties_dark_slots(),
    {
        let r = Base16 {
            slots: [
                Color::Rgb(0x2d, 0x2d, 0x2d),
                Color::Rgb(0x39, 0x39, 0x39),
                Color::Rgb(0x51, 0x51, 0x51),
                Color::Rgb(0x74, 0x73, 0x69),
                Color::Rgb(0xa0, 0x9f, 0x93),
                Color::Rgb(0xd3, 0xd0, 0xc8),
                Color::Rgb(0xe8, 0xe6, 0xdf),
                Color::Rgb(0xf2, 0xf0, 0xec),
                Color::Rgb(0xf2, 0x77, 0x7a),
                Color::Rgb(0xf9, 0x91, 0x57),
                Color::Rgb(0xff, 0xcc, 0x66),
                Color::Rgb(0x99, 0xcc, 0x99),
                Color::Rgb(0x66, 0xcc, 0xcc),
                Color::Rgb(0x66, 0x99, 0xcc),
                Color::Rgb(0xcc, 0x99, 0xcc),
                Color::Rgb(0xd2, 0x7b, 0x53),
            ],
        };
        proof {
            assert(r.slots@ =~= eighties_dark_slots());
        }
        r
    }

    /// base16-one-light, the scheme the curated light palette draws its accents from.
    pub fn one_light() -> (r: Base16)
        ensures
            r.slots@ == one_light_slots(),
    {
        let r = Base16 {
            slots: [
                Color::Rgb(0xfa, 0xfa, 0xfa),
                Color::Rgb(0xf0, 0xf0, 0xf1),
                Color::Rgb(0xe5, 0xe5, 0xe6),
                Color::Rgb(0xa0, 0xa1, 0xa7),
                Color::Rgb(0x69, 0x6c, 0x77),
                Color::Rgb(0x38, 0x3a, 0x42),
                Color::Rgb(0x20, 0x22, 0x27),
                Color::Rgb(0x09, 0x0a, 0x0b),
                Color::Rgb(0xca, 0x12, 0x43),
                Color::Rgb(0xd7, 0x5f, 0x00),
                Color::Rgb(0xc1, 0x84, 0x01),
                Color::Rgb(0x50, 0xa1, 0x4f),
                Color::Rgb(0x01, 0x84, 0xbc),
                Color::Rgb(0x40, 0x78, 0xf2),
                Color::Rgb(0xa6, 0x26, 0xa4),
                Color::Rgb(0x98, 0x68, 0x01),
            ],
        };
        proof {
            assert(r.slots@ =~= one_light_slots());
        }
        r
    }

    /// The color in slot `i`.
    pub fn slot(&self, i: usize) -> (c: Color)
        requires
            i < 16,
        ensures
            c == self.slots@[i as int],
    {
        self.slots[i]
    }
}

/// Whether a background reads as light: an RGB color whose channel sum exceeds the midpoint
/// (382) of the `0..=765` range. Any other color reads as dark.
pub open spec fn light_background(color: Color) -> bool {
    match color {
        Color::Rgb(r, g, b) => r + g + b > 382,
        _ => false,
    }
}

/// Whether `color` reads as a light background (see [`light_background`]).
pub fn is_light_background(color: Color) -> (r: bool)
    ensures
        r == light_background(color),
{
    match color {
        Color::Rgb(r, g, b) => r as u32 + g as u32 + b as u32 > 382,
        _ => false,
    }
}

/// The number of syntax captures a palette colors.
pub open spec fn syntax_capture_count() -> nat {
    28
}

/// The base16 slot each syntax capture is colored from, by capture index (the order of the
/// highlighter's capture names): attribute, comment, constant, constant.builtin, constructor,
/// embedded, escape, function, function.builtin, function.macro, function.method, keyword,
/// label, number, operator, property, punctuation, punctuation.bracket, punctuation.delimiter,
/// punctuation.special, string, string.special, tag, type, type.builtin, variable,
/// variable.builtin, variable.parameter.
pub open spec fn syntax_slot_of(capture: int) -> int {
    if capture == 0 {
        9
    } else if capture == 1 {
        3
    } else if capture == 2 {
        9
    } else if capture == 3 {
        9
    } else if capture == 4 {
        10
    } else if capture == 5 {
        5
    } else if capture == 6 {
        12
    } else if capture <= 10 {
        13
    } else if capture == 11 {
        14
    } else if capture == 12 {
        8
    } else if capture == 13 {
        9
    } else if capture == 14 {
        5
    } else if capture == 15 {
        12
    } else if capture <= 18 {
        5
    } else if capture == 19 {
        12
    } else if capture == 20 {
        11
    } else if capture == 21 {
        12
    } else if capture == 22 {
        8
    } else if capture <= 24 {
        10
    } else if capture == 25 {
        5
    } else if capture == 26 {
        8
    } else {
        5
    }
}

/// The base16 slot syntax capture `capture` is colored from.
fn syntax_slot(capture: usize) -> (slot: usize)
    requires
        capture < syntax_capture_count(),
    ensures
        slot == syntax_slot_of(capture as int),
        slot < 16,
{
    if capture == 0 {
        9
    } else if capture == 1 {
        3
    } else if capture == 2 {
        9
    } else if capture == 3 {
        9
    } else if capture == 4 {
        10
    } else if capture == 5 {
        5
    } else if capture == 6 {
        12
    } else if capture <= 10 {
        13
    } else if capture == 11 {
        14
    } else if capture == 12 {
        8
    } else if capture == 13 {
        9
    } else if capture == 14 {
        5
    } else if capture == 15 {
        12
    } else if capture <= 18 {
        5
    } else if capture == 19 {
        12
    } else if capture == 20 {
        11
    } else if capture == 21 {
        12
    } else if capture == 22 {
        8
    } else if capture <= 24 {
        10
    } else if capture == 25 {
        5
    } else if capture == 26 {
        8
    } else {
        5
    }
}

/// The number of entries in the per-capture syntax template.
pub fn syntax_slot_count() -> (n: usize)
    ensures
        n == syntax_capture_count(),
{
    28
}

/// Whether capture `capture` renders in italics under every scheme: only comments (capture 1).
pub fn syntax_italic(capture: usize) -> (italic: bool)
    requires
        capture < syntax_capture_count(),
    ensures
        italic == (capture == 1),
{
    capture == 1
}

/// Is `b` a lowercase or uppercase ASCII hex letter or a decimal digit, and which value does it
/// have in `radix` (10 or 16)?
pub open spec fn digit_of(b: u8, radix: nat) -> Option<nat> {
    let v: int = if 0x30 <= b <= 0x39 {
        b - 0x30
    } else if 0x61 <= b <= 0x7a {
        b - 0x61 + 10
    } else if 0x41 <= b <= 0x5a {
        b - 0x41 + 10
    } else {
        -1
    };
    if 0 <= v < radix {
        Some(v as nat)
    } else {
        None
    }
}

/// The value of the digit string `d` in `radix`, or `None` if a byte is not a digit there.
pub open spec fn digits_value(d: Seq<u8>, radix: nat) -> Option<nat>
    decreases d.len(),
{
    if d.len() == 0 {
        Some(0)
    } else {
        match (digits_value(d.drop_last(), radix), digit_of(d.last(), radix)) {
            (Some(v), Some(x)) => Some(v * radix + x),
            _ => None,
        }
    }
}

/// An unsigned integer written in `radix`: a non-empty digit string, optionally after one `+`.
pub open spec fn radix_value(d: Seq<u8>, radix: nat) -> Option<nat> {
    if d.len() == 0 {
        None
    } else if d[0] == 0x2b {
        if d.len() == 1 {
            None
        } else {
            digits_value(d.skip(1), radix)
        }
    } else {
        digits_value(d, radix)
    }
}

/// The value of `d[start..end]` in `radix` (10 or 16), capped at `cap`: `None` exactly when the
/// range is not a digit string there, else the smaller of its value and `cap`.
fn digits_capped(d: &[u8], start: usize, end: usize, radix: u64, cap: u64) -> (r: Option<u64>)
    requires
        start <= end <= d@.len(),
        radix == 10 || radix == 16,
        1 <= cap <= 0x1_0000_0000,
    ensures
        r is None <==> digits_value(d@.subrange(start as int, end as int), radix as nat) is None,
        r matches Some(v) ==> v == (if digits_value(d@.subrange(start as int, end as int), radix as nat)->0 < cap {
            digits_value(d@.subrange(start as int, end as int), radix as nat)->0
        } else {
            cap as nat
        }),
{
    let mut value: u64 = 0;
    let mut i: usize = start;
    proof {
        assert(d@.subrange(start as int, start as int) =~= Seq::<u8>::empty());
    }
    while i < end
        invariant
            start <= i <= end <= d@.len(),
            radix == 10 || radix == 16,
            1 <= cap <= 0x1_0000_0000,
            digits_value(d@.subrange(start as int, i as int), radix as nat) is Some,
            value == (if digits_value(d@.subrange(start as int, i as int), radix as nat)->0 < cap {
                digits_value(d@.subrange(start as int, i as int), radix as nat)->0
            } else {
                cap as nat
            }),
        decreases end - i,
    {
        let b = d[i];
        let ghost prefix = d@.subrange(start as int, i as int);
        let ghost next = d@.subrange(start as int, i + 1);
        proof {
            assert(next.drop_last() =~= prefix);
            assert(next.last() == b);
        }
        let digit: u64 = if 0x30 <= b && b <= 0x39 {
            (b - 0x30) as u64
        } else if 0x61 <= b && b <= 0x7a {
            (b - 0x61 + 10) as u64
        } else if 0x41 <= b && b <= 0x5a {
            (b - 0x41 + 10) as u64
        } else {
            radix
        };
        if digit >= radix {
            proof {
                assert(digit_of(b, radix as nat) is None);
                assert(digits_value(next, radix as nat) is None);
                lemma_none_extends(d@, start as int, i as int + 1, end as int, radix as nat);
            }
            return None;
        }
        let ghost pv = digits_value(prefix, radix as nat)->0;
        proof {
            assert(digit_of(b, radix as nat) == Some(digit as nat));
            assert(digits_value(next, radix as nat) == Some((pv * radix + digit) as nat));
        }
        if value >= cap {
            proof {
                assert(pv * radix + digit >= pv) by (nonlinear_arith)
                    requires
                        radix >= 1,
                ;
            }
        } else {
            proof {
                assert(value * radix <= 0x1_0000_0000 * 16) by (nonlinear_arith)
                    requires
                        value < 0x1_0000_0000,
                        radix <= 16,
                ;
            }
            let grown = value * radix + digit;
            value = if grown < cap {
                grown
            } else {
                cap
            };
        }
        i = i + 1;
    }
    Some(value)
}

/// Once a prefix of a range is not a digit string, no longer prefix is one either.
proof fn lemma_none_extends(d: Seq<u8>, start: int, mid: int, end: int, radix: nat)
    requires
        0 <= start <= mid <= end <= d.len(),
        digits_value(d.subrange(start, mid), radix) is None,
    ensures
        digits_value(d.subrange(start, end), radix) is None,
    decreases end - mid,
{
    if mid < end {
        lemma_none_extends(d, start, mid, end - 1, radix);
        assert(d.subrange(start, end).drop_last() =~= d.subrange(start, end - 1));
    }
}

/// The value of `d[start..end]` as an unsigned integer in `radix` (see [`radix_value`]), capped
/// at `cap`.
pub(crate) fn radix_capped(d: &[u8], start: usize, end: usize, radix: u64, cap: u64) -> (r: Option<u64>)
    requires
        start <= end <= d@.len(),
        radix == 10 || radix == 16,
        1 <= cap <= 0x1_0000_0000,
    ensures
        r is None <==> radix_value(d@.subrange(start as int, end as int), radix as nat) is None,
        r matches Some(v) ==> v == (if radix_value(d@.subrange(start as int, end as int), radix as nat)->0 < cap {
            radix_value(d@.subrange(start as int, end as int), radix as nat)->0
        } else {
            cap as nat
        }),
{
    let ghost s = d@.subrange(start as int, end as int);
    if start == end {
        return None;
    }
    if d[start] == 0x2b {
        if start + 1 == end {
            return None;
        }
        proof {
            assert(s.skip(1) =~= d@.subrange(start + 1, end as int));
        }
        digits_capped(d, start + 1, end, radix, cap)
    } else {
        digits_capped(d, start, end, radix, cap)
    }
}

/// The bytes after an optional leading `#`.
pub open spec fn hex_body(b: Seq<u8>) -> Seq<u8> {
    if b.len() > 0 && b[0] == 0x23 {
        b.skip(1)
    } else {
        b
    }
}

/// Is `b` a UTF-8 continuation byte (never the start of a character)?
pub open spec fn is_continuation(b: u8) -> bool {
    0x80 <= b < 0xc0
}

/// A `#rrggbb` or bare `rrggbb` color: exactly six bytes after the optional `#`, read as three
/// two-byte channels in base 16 (each as an unsigned integer, so `+f` reads as `0x0f`).
pub open spec fn hex_color_of(b: Seq<u8>) -> Option<Color> {
    let h = hex_body(b);
    if h.len() != 6 {
        None
    } else {
        match (
            radix_value(h.subrange(0, 2), 16),
            radix_value(h.subrange(2, 4), 16),
            radix_value(h.subrange(4, 6), 16),
        ) {
            (Some(r), Some(g), Some(bl)) => Some(Color::Rgb(r as u8, g as u8, bl as u8)),
            _ => None,
        }
    }
}

/// Parse a theme color value: `#rrggbb` or bare `rrggbb`, case-insensitive, no 3-digit
/// shorthand. Anything else is `None`.
///
/// Each channel is cut out of the text by byte position, so a six-byte body must not split a
/// character at byte 2, nor at byte 4 once the first channel has parsed.
pub fn parse_hex_color(s: &str) -> (c: Option<Color>)
    requires
        hex_body(encode_utf8(s@)).len() == 6 ==> !is_continuation(hex_body(encode_utf8(s@))[2]) && (
        radix_value(hex_body(encode_utf8(s@)).subrange(0, 2), 16) is Some ==> !is_continuation(
            hex_body(encode_utf8(s@))[4],
        )),
    ensures
        c == hex_color_of(encode_utf8(s@)),
{
    let b = s.as_bytes();
    let n = b.len();
    let start: usize = if n > 0 && b[0] == 0x23 {
        1
    } else {
        0
    };
    proof {
        assert(hex_body(b@) =~= b@.subrange(start as int, n as int));
    }
    if n - start != 6 {
        return None;
    }
    let ghost h = hex_body(b@);
    proof {
        assert(h.subrange(0, 2) =~= b@.subrange(start as int, start + 2));
        assert(h.subrange(2, 4) =~= b@.subrange(start + 2, start + 4));
        assert(h.subrange(4, 6) =~= b@.subrange(start + 4, start + 6));
        lemma_two_digit_bound(h.subrange(0, 2));
        lemma_two_digit_bound(h.subrange(2, 4));
        lemma_two_digit_bound(h.subrange(4, 6));
    }
    let r = radix_capped(b, start, start + 2, 16, 0x100);
    let g = radix_capped(b, start + 2, start + 4, 16, 0x100);
    let bl = radix_capped(b, start + 4, start + 6, 16, 0x100);
    match (r, g, bl) {
        (Some(r), Some(g), Some(bl)) => Some(Color::Rgb(r as u8, g as u8, bl as u8)),
        _ => None,
    }
}

/// A two-byte unsigned base-16 number is below 256.
proof fn lemma_two_digit_bound(d: Seq<u8>)
    requires
        d.len() == 2,
    ensures
        radix_value(d, 16) matches Some(v) ==> v < 256,
{
    reveal_with_fuel(digits_value, 3);
    if d[0] == 0x2b {
        assert(d.skip(1).drop_last().len() == 0);
    } else {
        assert(d.drop_last().drop_last().len() == 0);
    }
}

/// The eleven diff and cursor washes of a palette: the whole-line (subtle) and word-level
/// (strong) backgrounds of deleted and added cells, their dimmer staged variants, and the
/// cursor, selection and unfocused-cursor row tints.
#[derive(Debug, Clone, Copy, PartialEq, Eq)]
pub struct Washes {
    pub del_subtle: Color,
    pub del_strong: Color,
    pub add_subtle: Color,
    pub add_strong: Color,
    pub del_staged_subtle: Color,
    pub del_staged_strong: Color,
    pub add_staged_subtle: Color,
    pub add_staged_strong: Color,
    pub cursor_bg: Color,
    pub selection_bg: Color,
    pub cursor_unfocused_bg: Color,
}

/// A tint a theme can override directly, by its palette field.
#[derive(Debug, Clone, Copy, PartialEq, Eq, Structural)]
pub enum Tint {
    DelSubtle,
    DelStrong,
    AddSubtle,
    AddStrong,
    DelStagedSubtle,
    DelStagedStrong,
    AddStagedSubtle,
    AddStagedStrong,
    CursorBg,
    SelectionBg,
    CursorUnfocusedBg,
    PaneHeaderFocusedFg,
    FillerFg,
}

/// Per-slot base16 and per-tint color overrides, applied on top of a resolved [`Palette`] by
/// [`Palette::apply_overrides`]. The slot overrides are indexed by base16 slot number, 0–15;
/// [`ThemeOverrides::set_slot`] sets one.
#[derive(Debug, Clone, Copy, PartialEq, Eq)]
pub struct ThemeOverrides {
    pub slots: [Option<Color>; 16],
    pub del_subtle: Option<Color>,
    pub del_strong: Option<Color>,
    pub add_subtle: Option<Color>,
    pub add_strong: Option<Color>,
    pub del_staged_subtle: Option<Color>,
    pub del_staged_strong: Option<Color>,
    pub add_staged_subtle: Option<Color>,
    pub add_staged_strong: Option<Color>,
    pub cursor_bg: Option<Color>,
    pub selection_bg: Option<Color>,
    pub cursor_unfocused_bg: Option<Color>,
    pub pane_header_focused_fg: Option<Color>,
    pub filler_fg: Option<Color>,
}

impl ThemeOverrides {
    /// The slot overrides, by slot number.
    pub open spec fn slot_overrides(&self) -> Seq<Option<Color>> {
        self.slots@
    }

    /// No slot and no tint is overridden.
    pub open spec fn empty_spec(&self) -> bool {
        &&& self.slot_overrides().len() == 16
        &&& forall|i: int| 0 <= i < 16 ==> #[trigger] self.slot_overrides()[i] is None
        &&& self.del_subtle is None
        &&& self.del_strong is None
        &&& self.add_subtle is None
        &&& self.add_strong is None
        &&& self.del_staged_subtle is None
        &&& self.del_staged_strong is None
        &&& self.add_staged_subtle is None
        &&& self.add_staged_strong is None
        &&& self.cursor_bg is None
        &&& self.selection_bg is None
        &&& self.cursor_unfocused_bg is None
        &&& self.pane_header_focused_fg is None
        &&& self.filler_fg is None
    }

    /// `self` and `other` override the same tints.
    pub open spec fn same_tints(&self, other: ThemeOverrides) -> bool {
        self.del_subtle == other.del_subtle
        && self.del_strong == other.del_strong
        && self.add_subtle == other.add_subtle
        && self.add_strong == other.add_strong
        && self.del_staged_subtle == other.del_staged_subtle
        && self.del_staged_strong == other.del_staged_strong
        && self.add_staged_subtle == other.add_staged_subtle
        && self.add_staged_strong == other.add_staged_strong
        && self.cursor_bg == other.cursor_bg
        && self.selection_bg == other.selection_bg
        && self.cursor_unfocused_bg == other.cursor_unfocused_bg
        && self.pane_header_focused_fg == other.pane_header_focused_fg
        && self.filler_fg == other.filler_fg
    }

    /// There is one slot override for each of the sixteen base16 slots.
    pub proof fn lemma_slot_count(&self)
        ensures
            self.slot_overrides().len() == 16,
    {
    }

    /// The override of tint `t`.
    pub open spec fn tint_override(&self, t: Tint) -> Option<Color> {
        match t {
            Tint::DelSubtle => self.del_subtle,
            Tint::DelStrong => self.del_strong,
            Tint::AddSubtle => self.add_subtle,
            Tint::AddStrong => self.add_strong,
            Tint::DelStagedSubtle => self.del_staged_subtle,
            Tint::DelStagedStrong => self.del_staged_strong,
            Tint::AddStagedSubtle => self.add_staged_subtle,
            Tint::AddStagedStrong => self.add_staged_strong,
            Tint::CursorBg => self.cursor_bg,
            Tint::SelectionBg => self.selection_bg,
            Tint::CursorUnfocusedBg => self.cursor_unfocused_bg,
            Tint::PaneHeaderFocusedFg => self.pane_header_focused_fg,
            Tint::FillerFg => self.filler_fg,
        }
    }

    /// Each tint's override is its own field.
    pub proof fn lemma_tint_fields(&self)
        ensures
            self.tint_override(Tint::DelSubtle) == self.del_subtle,
            self.tint_override(Tint::DelStrong) == self.del_strong,
            self.tint_override(Tint::AddSubtle) == self.add_subtle,
            self.tint_override(Tint::AddStrong) == self.add_strong,
            self.tint_override(Tint::DelStagedSubtle) == self.del_staged_subtle,
            self.tint_override(Tint::DelStagedStrong) == self.del_staged_strong,
            self.tint_override(Tint::AddStagedSubtle) == self.add_staged_subtle,
            self.tint_override(Tint::AddStagedStrong) == self.add_staged_strong,
            self.tint_override(Tint::CursorBg) == self.cursor_bg,
            self.tint_override(Tint::SelectionBg) == self.selection_bg,
            self.tint_override(Tint::CursorUnfocusedBg) == self.cursor_unfocused_bg,
            self.tint_override(Tint::PaneHeaderFocusedFg) == self.pane_header_focused_fg,
            self.tint_override(Tint::FillerFg) == self.filler_fg,
            forall|t: Tint| #![auto] self.tint_override(t) is None <==> (match t {
                Tint::DelSubtle => self.del_subtle is None,
                Tint::DelStrong => self.del_strong is None,
                Tint::AddSubtle => self.add_subtle is None,
                Tint::AddStrong => self.add_strong is None,
                Tint::DelStagedSubtle => self.del_staged_subtle is None,
                Tint::DelStagedStrong => self.del_staged_strong is None,
                Tint::AddStagedSubtle => self.add_staged_subtle is None,
                Tint::AddStagedStrong => self.add_staged_strong is None,
                Tint::CursorBg => self.cursor_bg is None,
                Tint::SelectionBg => self.selection_bg is None,
                Tint::CursorUnfocusedBg => self.cursor_unfocused_bg is None,
                Tint::PaneHeaderFocusedFg => self.pane_header_focused_fg is None,
                Tint::FillerFg => self.filler_fg is None,
            }),
    {
    }

    /// Set the override of tint `t`; the slot overrides and every other tint stay.
    pub fn set_tint(&mut self, t: Tint, color: Color)
        ensures
            final(self).tint_override(t) == Some(color),
            forall|u: Tint| u != t ==> #[trigger] final(self).tint_override(u) == old(self).tint_override(u),
            final(self).slot_overrides() == old(self).slot_overrides(),
    {
        match t {
            Tint::DelSubtle => self.del_subtle = Some(color),
            Tint::DelStrong => self.del_strong = Some(color),
            Tint::AddSubtle => self.add_subtle = Some(color),
            Tint::AddStrong => self.add_strong = Some(color),
            Tint::DelStagedSubtle => self.del_staged_subtle = Some(color),
            Tint::DelStagedStrong => self.del_staged_strong = Some(color),
            Tint::AddStagedSubtle => self.add_staged_subtle = Some(color),
            Tint::AddStagedStrong => self.add_staged_strong = Some(color),
            Tint::CursorBg => self.cursor_bg = Some(color),
            Tint::SelectionBg => self.selection_bg = Some(color),
            Tint::CursorUnfocusedBg => self.cursor_unfocused_bg = Some(color),
            Tint::PaneHeaderFocusedFg => self.pane_header_focused_fg = Some(color),
            Tint::FillerFg => self.filler_fg = Some(color),
        }
    }

    /// Set the override for base16 slot `index` (`base00`–`base0f`).
    pub fn set_slot(&mut self, index: usize, color: Color)
        requires
            index < 16,
        ensures
            final(self).slot_overrides() == old(self).slot_overrides().update(index as int, Some(color)),
            final(self).slot_overrides().len() == 16,
            final(self).same_tints(*old(self)),
    {
        self.slots[index] = Some(color);
    }

    /// Whether no slot or tint override is set.
    pub fn is_empty(&self) -> (r: bool)
        ensures
            r == self.empty_spec(),
    {
        let mut i: usize = 0;
        while i < 16
            invariant
                i <= 16,
                forall|k: int| 0 <= k < i ==> #[trigger] self.slot_overrides()[k] is None,
            decreases 16 - i,
        {
            if self.slots[i].is_some() {
                return false;
            }
            i = i + 1;
        }
        proof {
            self.lemma_tint_fields();
        }
        self.del_subtle.is_none()
            && self.del_strong.is_none()
            && self.add_subtle.is_none()
            && self.add_strong.is_none()
            && self.del_staged_subtle.is_none()
            && self.del_staged_strong.is_none()
            && self.add_staged_subtle.is_none()
            && self.add_staged_strong.is_none()
            && self.cursor_bg.is_none()
            && self.selection_bg.is_none()
            && self.cursor_unfocused_bg.is_none()
            && self.pane_header_focused_fg.is_none()
            && self.filler_fg.is_none()
    }
}

impl Default for ThemeOverrides {
    /// No overrides at all.
    fn default() -> (r: Self)
        ensures
            r.empty_spec(),
    {
        let r = ThemeOverrides {
            slots: [None; 16],
            del_subtle: None,
            del_strong: None,
            add_subtle: None,
            add_strong: None,
            del_staged_subtle: None,
            del_staged_strong: None,
            add_staged_subtle: None,
            add_staged_strong: None,
            cursor_bg: None,
            selection_bg: None,
            cursor_unfocused_bg: None,
            pane_header_focused_fg: None,
            filler_fg: None,
        };
        proof {
            assert(forall|i: int| 0 <= i < 16 ==> #[trigger] r.slot_overrides()[i] is None);
        }
        r
    }
}

/// The resolved palette a frame is painted with: per-capture syntax foreground, the diff and
/// cursor washes, and the chrome colors.
#[derive(Clone, Copy)]
pub struct Palette {
    /// Per-capture syntax foreground, by capture index (see [`syntax_slot_of`]).
    pub syntax: [Color; 28],
    /// Whole-line subtle / word-level strong background of an unstaged deleted cell.
    pub del_subtle: Color,
    pub del_strong: Color,
    /// Whole-line subtle / word-level strong background of an unstaged added cell.
    pub add_subtle: Color,
    pub add_strong: Color,
    /// The dimmer deleted pair for already-staged changes.
    pub del_staged_subtle: Color,
    pub del_staged_strong: Color,
    /// The dimmer added pair for already-staged changes.
    pub add_staged_subtle: Color,
    pub add_staged_strong: Color,
    /// Tint blended into the cursor row of the focused pane.
    pub cursor_bg: Color,
    /// Tint blended into a selected row.
    pub selection_bg: Color,
    /// Cursor tint of a pane that does not hold focus.
    pub cursor_unfocused_bg: Color,
    /// Foreground of the one pane header label that holds focus.
    pub pane_header_focused_fg: Color,
    /// The canvas background (`base00`).
    pub background: Color,
    /// Default text foreground (`base05`).
    pub foreground: Color,
    /// Dim labels and markers (`base03`).
    pub dim: Color,
    /// Line-number gutters and pane dividers (`base04`).
    pub gutter: Color,
    /// The deleted-gap filler hatch (`base01`).
    pub filler_fg: Color,
    /// Error notices and failed markers (`base08`).
    pub error_fg: Color,
    /// Needs-restack markers (`base0A`).
    pub warn_fg: Color,
    /// The current-changeset marker (`base0B`).
    pub current_fg: Color,
    /// Changeset header labels (`base0C`).
    pub heading_fg: Color,
    /// Modified/renamed/copied status letters (`base09`).
    pub modified_fg: Color,
    /// Whether the whole frame is painted with `background` before panes are drawn.
    pub paint_canvas: bool,
    /// Whether the palette carries no hue at all (only the `NO_COLOR` scheme).
    pub colorless: bool,
}

/// The startup context a palette is resolved against: the base used for `theme = auto`, and
/// whether `NO_COLOR` was set at launch.
pub struct PaletteContext {
    pub auto_base: Palette,
    pub no_color: bool,
}

impl Palette {
    /// The syntax foreground of every capture, by capture index.
    pub open spec fn syntax_colors(&self) -> Seq<Color> {
        self.syntax@
    }
}

/// `colors` colors each capture from its template slot of `slots`.
pub open spec fn syntax_from_slots(slots: Seq<Color>, colors: Seq<Color>) -> bool {
    &&& colors.len() == syntax_capture_count()
    &&& forall|c: int| 0 <= c < syntax_capture_count() ==> #[trigger] colors[c] == slots[syntax_slot_of(c)]
}

/// The washes of palette `p`.
pub open spec fn washes_of(p: Palette) -> Washes {
    Washes {
        del_subtle: p.del_subtle,
        del_strong: p.del_strong,
        add_subtle: p.add_subtle,
        add_strong: p.add_strong,
        del_staged_subtle: p.del_staged_subtle,
        del_staged_strong: p.del_staged_strong,
        add_staged_subtle: p.add_staged_subtle,
        add_staged_strong: p.add_staged_strong,
        cursor_bg: p.cursor_bg,
        selection_bg: p.selection_bg,
        cursor_unfocused_bg: p.cursor_unfocused_bg,
    }
}

/// A gray with all three channels at `v`.
pub open spec fn gray(v: u8) -> Color {
    Color::Rgb(v, v, v)
}

/// The achromatic washes of the `NO_COLOR` scheme: a near-white ladder for a light terminal, a
/// near-black one for a dark terminal. Added and deleted cells share one ladder.
pub open spec fn mono_washes(light: bool) -> Washes {
    if light {
        Washes {
            del_subtle: gray(215), del_strong: gray(165), add_subtle: gray(215), add_strong: gray(165),
            del_staged_subtle: gray(230), del_staged_strong: gray(205),
            add_staged_subtle: gray(230), add_staged_strong: gray(205),
            cursor_bg: gray(190), selection_bg: gray(200), cursor_unfocused_bg: gray(210),
        }
    } else {
        Washes {
            del_subtle: gray(40), del_strong: gray(90), add_subtle: gray(40), add_strong: gray(90),
            del_staged_subtle: gray(25), del_staged_strong: gray(50),
            add_staged_subtle: gray(25), add_staged_strong: gray(50),
            cursor_bg: gray(65), selection_bg: gray(55), cursor_unfocused_bg: gray(45),
        }
    }
}

/// The hand-tuned washes of the curated dark scheme.
pub open spec fn dark_washes() -> Washes {
    Washes {
        del_subtle: Color::Rgb(60, 24, 24),
        del_strong: Color::Rgb(120, 40, 40),
        add_subtle: Color::Rgb(20, 48, 24),
        add_strong: Color::Rgb(32, 100, 48),
        del_staged_subtle: Color::Rgb(42, 26, 28),
        del_staged_strong: Color::Rgb(64, 38, 40),
        add_staged_subtle: Color::Rgb(24, 34, 26),
        add_staged_strong: Color::Rgb(34, 50, 38),
        cursor_bg: Color::Rgb(45, 50, 90),
        selection_bg: Color::Rgb(30, 66, 66),
        cursor_unfocused_bg: Color::Rgb(35, 38, 55),
    }
}

/// `p` takes its chrome from the ramp of `slots`: focused header and foreground from `base05`,
/// background `base00`, dim `base03`, gutter `base04`, filler `base01`.
pub open spec fn ramp_chrome(p: Palette, slots: Seq<Color>) -> bool {
    &&& p.pane_header_focused_fg == slots[5]
    &&& p.background == slots[0]
    &&& p.foreground == slots[5]
    &&& p.dim == slots[3]
    &&& p.gutter == slots[4]
    &&& p.filler_fg == slots[1]
}

/// `p` takes its semantic chrome from the accents of `slots`: error `base08`, warning `base0A`,
/// current `base0B`, heading `base0C`, modified `base09`.
pub open spec fn accent_chrome(p: Palette, slots: Seq<Color>) -> bool {
    &&& p.error_fg == slots[8]
    &&& p.warn_fg == slots[10]
    &&& p.current_fg == slots[11]
    &&& p.heading_fg == slots[12]
    &&& p.modified_fg == slots[9]
}

/// The color an optional override leaves in place of `c`.
pub open spec fn or_keep(o: Option<Color>, c: Color) -> Color {
    match o {
        Some(x) => x,
        None => c,
    }
}

/// `q` is `p` with overrides `o` applied: every syntax capture and every role-mapped chrome field
/// takes its slot's override when there is one (a `base00` override also turns canvas painting
/// on), every tint takes its own override when there is one, and nothing else changes.
pub open spec fn overrides_applied(p: Palette, o: ThemeOverrides, q: Palette) -> bool {
    let s = o.slot_overrides();
    &&& forall|c: int| 0 <= c < syntax_capture_count() ==> #[trigger] q.syntax_colors()[c] == or_keep(s[syntax_slot_of(c)], p.syntax_colors()[c])
    &&& q.background == or_keep(s[0], p.background)
    &&& q.paint_canvas == (p.paint_canvas || s[0] is Some)
    &&& q.dim == or_keep(s[3], p.dim)
    &&& q.gutter == or_keep(s[4], p.gutter)
    &&& q.foreground == or_keep(s[5], p.foreground)
    &&& q.error_fg == or_keep(s[8], p.error_fg)
    &&& q.modified_fg == or_keep(s[9], p.modified_fg)
    &&& q.warn_fg == or_keep(s[10], p.warn_fg)
    &&& q.current_fg == or_keep(s[11], p.current_fg)
    &&& q.heading_fg == or_keep(s[12], p.heading_fg)
    &&& q.del_subtle == or_keep(o.tint_override(Tint::DelSubtle), p.del_subtle)
    &&& q.del_strong == or_keep(o.tint_override(Tint::DelStrong), p.del_strong)
    &&& q.add_subtle == or_keep(o.tint_override(Tint::AddSubtle), p.add_subtle)
    &&& q.add_strong == or_keep(o.tint_override(Tint::AddStrong), p.add_strong)
    &&& q.del_staged_subtle == or_keep(o.tint_override(Tint::DelStagedSubtle), p.del_staged_subtle)
    &&& q.del_staged_strong == or_keep(o.tint_override(Tint::DelStagedStrong), p.del_staged_strong)
    &&& q.add_staged_subtle == or_keep(o.tint_override(Tint::AddStagedSubtle), p.add_staged_subtle)
    &&& q.add_staged_strong == or_keep(o.tint_override(Tint::AddStagedStrong), p.add_staged_strong)
    &&& q.cursor_bg == or_keep(o.tint_override(Tint::CursorBg), p.cursor_bg)
    &&& q.selection_bg == or_keep(o.tint_override(Tint::SelectionBg), p.selection_bg)
    &&& q.cursor_unfocused_bg == or_keep(o.tint_override(Tint::CursorUnfocusedBg), p.cursor_unfocused_bg)
    &&& q.pane_header_focused_fg == or_keep(o.tint_override(Tint::PaneHeaderFocusedFg), p.pane_header_focused_fg)
    &&& q.filler_fg == or_keep(o.tint_override(Tint::FillerFg), p.filler_fg)
    &&& q.colorless == p.colorless
}

/// `p` and `q` paint identically: every field and every syntax capture agree.
pub open spec fn same_palette(p: Palette, q: Palette) -> bool {
    &&& p.syntax_colors() == q.syntax_colors()
    &&& p.del_subtle == q.del_subtle
    &&& p.del_strong == q.del_strong
    &&& p.add_subtle == q.add_subtle
    &&& p.add_strong == q.add_strong
    &&& p.del_staged_subtle == q.del_staged_subtle
    &&& p.del_staged_strong == q.del_staged_strong
    &&& p.add_staged_subtle == q.add_staged_subtle
    &&& p.add_staged_strong == q.add_staged_strong
    &&& p.cursor_bg == q.cursor_bg
    &&& p.selection_bg == q.selection_bg
    &&& p.cursor_unfocused_bg == q.cursor_unfocused_bg
    &&& p.pane_header_focused_fg == q.pane_header_focused_fg
    &&& p.background == q.background
    &&& p.foreground == q.foreground
    &&& p.dim == q.dim
    &&& p.gutter == q.gutter
    &&& p.filler_fg == q.filler_fg
    &&& p.error_fg == q.error_fg
    &&& p.warn_fg == q.warn_fg
    &&& p.current_fg == q.current_fg
    &&& p.heading_fg == q.heading_fg
    &&& p.modified_fg == q.modified_fg
    &&& p.paint_canvas == q.paint_canvas
    &&& p.colorless == q.colorless
}

/// Every chrome foreground of `p` is the terminal's default color.
pub open spec fn chrome_reset(p: Palette) -> bool {
    &&& p.pane_header_focused_fg == Color::Reset
    &&& p.background == Color::Reset
    &&& p.foreground == Color::Reset
    &&& p.dim == Color::Reset
    &&& p.gutter == Color::Reset
    &&& p.filler_fg == Color::Reset
    &&& p.error_fg == Color::Reset
    &&& p.warn_fg == Color::Reset
    &&& p.current_fg == Color::Reset
    &&& p.heading_fg == Color::Reset
    &&& p.modified_fg == Color::Reset
}

/// Template slots are base16 slot numbers.
proof fn lemma_syntax_slot_in_range(c: int)
    ensures
        0 <= syntax_slot_of(c) < 16,
{
}

/// Each capture's color taken from its template slot of `base`.
fn syntax_of(base: &Base16) -> (s: [Color; 28])
    ensures
        syntax_from_slots(base.slots@, s@),
{
    let mut s = [Color::Reset; 28];
    let mut c: usize = 0;
    while c < 28
        invariant
            c <= 28,
            s@.len() == 28,
            forall|k: int| 0 <= k < c ==> #[trigger] s@[k] == base.slots@[syntax_slot_of(k)],
        decreases 28 - c,
    {
        let slot = syntax_slot(c);
        s[c] = base.slots[slot];
        c = c + 1;
    }
    s
}

impl Palette {
    /// The curated dark scheme: base16-eighties.dark accents and ramp with the hand-tuned diff
    /// and cursor washes, and the shipped error, warning and current-marker colors.
    pub fn dark() -> (r: Palette)
        ensures
            syntax_from_slots(eighties_dark_slots(), r.syntax_colors()),
            washes_of(r) == dark_washes(),
            ramp_chrome(r, eighties_dark_slots()),
            r.error_fg == Color::Rgb(220, 60, 60),
            r.warn_fg == Color::Rgb(214, 158, 46),
            r.current_fg == Color::Rgb(96, 200, 128),
            r.heading_fg == eighties_dark_slots()[12],
            r.modified_fg == eighties_dark_slots()[9],
            r.paint_canvas,
            !r.colorless,
    {
        let base = Base16::eighties_dark();
        Palette {
            syntax: syntax_of(&base),
            del_subtle: Color::Rgb(60, 24, 24),
            del_strong: Color::Rgb(120, 40, 40),
            add_subtle: Color::Rgb(20, 48, 24),
            add_strong: Color::Rgb(32, 100, 48),
            del_staged_subtle: Color::Rgb(42, 26, 28),
            del_staged_strong: Color::Rgb(64, 38, 40),
            add_staged_subtle: Color::Rgb(24, 34, 26),
            add_staged_strong: Color::Rgb(34, 50, 38),
            cursor_bg: Color::Rgb(45, 50, 90),
            selection_bg: Color::Rgb(30, 66, 66),
            cursor_unfocused_bg: Color::Rgb(35, 38, 55),
            pane_header_focused_fg: base.slot(5),
            background: base.slot(0),
            foreground: base.slot(5),
            dim: base.slot(3),
            gutter: base.slot(4),
            filler_fg: base.slot(1),
            error_fg: Color::Rgb(220, 60, 60),
            warn_fg: Color::Rgb(214, 158, 46),
            current_fg: Color::Rgb(96, 200, 128),
            heading_fg: base.slot(12),
            modified_fg: base.slot(9),
            paint_canvas: true,
            colorless: false,
        }
    }

    /// A palette over scheme `base` with the given washes: syntax from the template slots,
    /// chrome from the ramp, semantic chrome from the accents. The curated light scheme is this
    /// over base16-one-light with canvas painting; a terminal-derived scheme is this over the
    /// probed scheme without it, so the terminal's own background shows through.
    pub fn from_base16(base: &Base16, washes: Washes, paint_canvas: bool) -> (r: Palette)
        ensures
            syntax_from_slots(base.slots@, r.syntax_colors()),
            washes_of(r) == washes,
            ramp_chrome(r, base.slots@),
            accent_chrome(r, base.slots@),
            r.paint_canvas == paint_canvas,
            !r.colorless,
    {
        Palette {
            syntax: syntax_of(base),
            del_subtle: washes.del_subtle,
            del_strong: washes.del_strong,
            add_subtle: washes.add_subtle,
            add_strong: washes.add_strong,
            del_staged_subtle: washes.del_staged_subtle,
            del_staged_strong: washes.del_staged_strong,
            add_staged_subtle: washes.add_staged_subtle,
            add_staged_strong: washes.add_staged_strong,
            cursor_bg: washes.cursor_bg,
            selection_bg: washes.selection_bg,
            cursor_unfocused_bg: washes.cursor_unfocused_bg,
            pane_header_focused_fg: base.slot(5),
            background: base.slot(0),
            foreground: base.slot(5),
            dim: base.slot(3),
            gutter: base.slot(4),
            filler_fg: base.slot(1),
            error_fg: base.slot(8),
            warn_fg: base.slot(10),
            current_fg: base.slot(11),
            heading_fg: base.slot(12),
            modified_fg: base.slot(9),
            paint_canvas,
            colorless: false,
        }
    }

    /// The achromatic scheme for `NO_COLOR`: every foreground and syntax color and the
    /// background are the terminal's default, nothing is painted, and the washes are gray
    /// ladders picked by whether the terminal is `light`.
    pub fn mono(light: bool) -> (r: Palette)
        ensures
            r.syntax_colors().len() == syntax_capture_count(),
            forall|c: int| 0 <= c < syntax_capture_count() ==> #[trigger] r.syntax_colors()[c] == Color::Reset,
            washes_of(r) == mono_washes(light),
            chrome_reset(r),
            !r.paint_canvas,
            r.colorless,
    {
        let (subtle, strong, staged_subtle, staged_strong, cursor, selection, cursor_unfocused) =
            if light {
            (
                Color::Rgb(215, 215, 215),
                Color::Rgb(165, 165, 165),
                Color::Rgb(230, 230, 230),
                Color::Rgb(205, 205, 205),
                Color::Rgb(190, 190, 190),
                Color::Rgb(200, 200, 200),
                Color::Rgb(210, 210, 210),
            )
        } else {
            (
                Color::Rgb(40, 40, 40),
                Color::Rgb(90, 90, 90),
                Color::Rgb(25, 25, 25),
                Color::Rgb(50, 50, 50),
                Color::Rgb(65, 65, 65),
                Color::Rgb(55, 55, 55),
                Color::Rgb(45, 45, 45),
            )
        };
        let r = Palette {
            syntax: [Color::Reset; 28],
            del_subtle: subtle,
            del_strong: strong,
            add_subtle: subtle,
            add_strong: strong,
            del_staged_subtle: staged_subtle,
            del_staged_strong: staged_strong,
            add_staged_subtle: staged_subtle,
            add_staged_strong: staged_strong,
            cursor_bg: cursor,
            selection_bg: selection,
            cursor_unfocused_bg: cursor_unfocused,
            pane_header_focused_fg: Color::Reset,
            background: Color::Reset,
            foreground: Color::Reset,
            dim: Color::Reset,
            gutter: Color::Reset,
            filler_fg: Color::Reset,
            error_fg: Color::Reset,
            warn_fg: Color::Reset,
            current_fg: Color::Reset,
            heading_fg: Color::Reset,
            modified_fg: Color::Reset,
            paint_canvas: false,
            colorless: true,
        };
        r
    }

    /// The syntax foreground of capture `capture`.
    pub fn syntax(&self, capture: usize) -> (c: Color)
        requires
            capture < syntax_capture_count(),
        ensures
            c == self.syntax_colors()[capture as int],
    {
        self.syntax[capture]
    }

    /// Apply theme overrides: each slot override rewrites every field role-mapped to its slot
    /// (`base00` background, which then always paints; `base03` dim; `base04` gutter; `base05`
    /// foreground; `base08` error; `base09` modified; `base0A` warning; `base0B` current;
    /// `base0C` heading; and every syntax capture whose template slot it is), whichever base
    /// authored the field; tint overrides then land verbatim, untouched by slot overrides.
    pub fn apply_overrides(&mut self, overrides: &ThemeOverrides)
        ensures
            overrides_applied(*old(self), *overrides, *final(self)),
    {
        self.syntax = overridden_syntax(&self.syntax, overrides);
        let background = overrides.slots[0];
        self.background = keep_unless(background, self.background);
        self.paint_canvas = self.paint_canvas || background.is_some();
        self.dim = keep_unless(overrides.slots[3], self.dim);
        self.gutter = keep_unless(overrides.slots[4], self.gutter);
        self.foreground = keep_unless(overrides.slots[5], self.foreground);
        self.error_fg = keep_unless(overrides.slots[8], self.error_fg);
        self.modified_fg = keep_unless(overrides.slots[9], self.modified_fg);
        self.warn_fg = keep_unless(overrides.slots[10], self.warn_fg);
        self.current_fg = keep_unless(overrides.slots[11], self.current_fg);
        self.heading_fg = keep_unless(overrides.slots[12], self.heading_fg);
        self.del_subtle = keep_unless(overrides.del_subtle, self.del_subtle);
        self.del_strong = keep_unless(overrides.del_strong, self.del_strong);
        self.add_subtle = keep_unless(overrides.add_subtle, self.add_subtle);
        self.add_strong = keep_unless(overrides.add_strong, self.add_strong);
        self.del_staged_subtle = keep_unless(overrides.del_staged_subtle, self.del_staged_subtle);
        self.del_staged_strong = keep_unless(overrides.del_staged_strong, self.del_staged_strong);
        self.add_staged_subtle = keep_unless(overrides.add_staged_subtle, self.add_staged_subtle);
        self.add_staged_strong = keep_unless(overrides.add_staged_strong, self.add_staged_strong);
        self.cursor_bg = keep_unless(overrides.cursor_bg, self.cursor_bg);
        self.selection_bg = keep_unless(overrides.selection_bg, self.selection_bg);
        self.cursor_unfocused_bg = keep_unless(overrides.cursor_unfocused_bg, self.cursor_unfocused_bg);
        self.pane_header_focused_fg = keep_unless(overrides.pane_header_focused_fg, self.pane_header_focused_fg);
        self.filler_fg = keep_unless(overrides.filler_fg, self.filler_fg);
    }
}

/// The override's color when there is one, else `c`.
fn keep_unless(o: Option<Color>, c: Color) -> (r: Color)
    ensures
        r == or_keep(o, c),
{
    match o {
        Some(x) => x,
        None => c,
    }
}

/// `syntax` with every capture whose template slot is overridden taking that override.
fn overridden_syntax(syntax: &[Color; 28], overrides: &ThemeOverrides) -> (r: [Color; 28])
    ensures
        forall|k: int| 0 <= k < syntax_capture_count() ==> #[trigger] r@[k] == or_keep(
            overrides.slot_overrides()[syntax_slot_of(k)],
            syntax@[k],
        ),
{
    let mut r = *syntax;
    let mut c: usize = 0;
    while c < 28
        invariant
            c <= 28,
            r@.len() == 28,
            forall|k: int| 0 <= k < c ==> #[trigger] r@[k] == or_keep(
                overrides.slot_overrides()[syntax_slot_of(k)],
                syntax@[k],
            ),
            forall|k: int| c <= k < 28 ==> #[trigger] r@[k] == syntax@[k],
        decreases 28 - c,
    {
        let slot = syntax_slot(c);
        r[c] = keep_unless(overrides.slots[slot], r[c]);
        c = c + 1;
    }
    r
}

/// Applying no overrides leaves a palette painting exactly as it did.
pub proof fn lemma_empty_overrides_keep_palette(p: Palette, o: ThemeOverrides, q: Palette)
    requires
        o.empty_spec(),
        overrides_applied(p, o, q),
    ensures
        same_palette(p, q),
{
    assert forall|c: int| 0 <= c < syntax_capture_count() implies #[trigger] q.syntax_colors()[c]
        == p.syntax_colors()[c] by {
        lemma_syntax_slot_in_range(c);
        assert(o.slot_overrides()[syntax_slot_of(c)] is None);
    }
    assert(q.syntax_colors() =~= p.syntax_colors());
}

/// Applying the same overrides a second time changes nothing more.
pub proof fn lemma_overrides_idempotent(p: Palette, o: ThemeOverrides, q: Palette, r: Palette)
    requires
        overrides_applied(p, o, q),
        overrides_applied(q, o, r),
    ensures
        same_palette(q, r),
{
    assert(r.syntax_colors() =~= q.syntax_colors());
}

} // verus!
