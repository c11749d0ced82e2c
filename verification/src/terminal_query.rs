//! The `theme = auto` terminal probe, minus the tty: the query written to the terminal, the
//! parsing of its OSC color replies, the DA1 "done answering" sentinel, the read loop's
//! decisions, the mapping of the probed ANSI colors onto base16 roles, and the fallback
//! decision when the probe comes back incomplete.
//!
//! The terminal is asked for its 16 ANSI colors (`OSC 4;n;?`), its background (`OSC 11;?`) and
//! foreground (`OSC 10;?`), then for its primary device attributes (`ESC [ c`). Terminals answer
//! in order, so the DA1 reply marks the end of everything that will arrive.
use vstd::prelude::*;
use vstd::utf8::valid_utf8;

use crate::bytes::{decimal_bytes, extend_bytes, push_decimal};
use crate::theme::{digits_value, radix_capped, radix_value, Base16, Color};

verus! {

/// The colors read back from a terminal probe: all 16 ANSI colors (only if every one answered),
/// and the background and foreground, each independently optional.
#[derive(Debug, Clone, Copy, PartialEq, Eq)]
pub struct ProbeResult {
    pub ansi16: Option<[Color; 16]>,
    pub background: Option<Color>,
    pub foreground: Option<Color>,
}

impl Default for ProbeResult {
    /// The result of a probe that got no answer at all.
    fn default() -> (r: Self)
        ensures
            r.ansi16 is None,
            r.background is None,
            r.foreground is None,
    {
        ProbeResult { ansi16: None, background: None, foreground: None }
    }
}

/// `OSC 4;n;?` terminated by `ESC \`: ask for ANSI color `n`.
pub open spec fn osc4_query(n: nat) -> Seq<u8> {
    seq![0x1bu8, 0x5d, 0x34, 0x3b] + decimal_bytes(n) + seq![0x3bu8, 0x3f, 0x1b, 0x5c]
}

/// The queries for ANSI colors `0..k`, in order.
pub open spec fn osc4_queries(k: nat) -> Seq<u8>
    decreases k,
{
    if k == 0 {
        Seq::empty()
    } else {
        osc4_queries((k - 1) as nat) + osc4_query((k - 1) as nat)
    }
}

/// Everything written to the terminal: the 16 ANSI color queries, `OSC 11;?` (background),
/// `OSC 10;?` (foreground), each terminated by `ESC \`, then the DA1 query `ESC [ c`.
pub open spec fn query_bytes() -> Seq<u8> {
    osc4_queries(16) + seq![0x1bu8, 0x5d, 0x31, 0x31, 0x3b, 0x3f, 0x1b, 0x5c] + seq![
        0x1bu8,
        0x5d,
        0x31,
        0x30,
        0x3b,
        0x3f,
        0x1b,
        0x5c,
    ] + seq![0x1bu8, 0x5b, 0x63]
}

/// The bytes written to the terminal to probe its colors (see [`query_bytes`]).
pub fn build_query() -> (q: Vec<u8>)
    ensures
        q@ == query_bytes(),
{
    let mut q: Vec<u8> = Vec::new();
    let mut n: u32 = 0;
    while n < 16
        invariant
            n <= 16,
            q@ == osc4_queries(n as nat),
        decreases 16 - n,
    {
        let open: [u8; 4] = [0x1b, 0x5d, 0x34, 0x3b];
        let close: [u8; 4] = [0x3b, 0x3f, 0x1b, 0x5c];
        let ghost before = q@;
        extend_bytes(&mut q, open.as_slice());
        push_decimal(&mut q, n);
        extend_bytes(&mut q, close.as_slice());
        proof {
            assert(open@ =~= seq![0x1bu8, 0x5d, 0x34, 0x3b]);
            assert(close@ =~= seq![0x3bu8, 0x3f, 0x1b, 0x5c]);
            assert(q@ =~= before + osc4_query(n as nat));
        }
        n = n + 1;
    }
    let background: [u8; 8] = [0x1b, 0x5d, 0x31, 0x31, 0x3b, 0x3f, 0x1b, 0x5c];
    let foreground: [u8; 8] = [0x1b, 0x5d, 0x31, 0x30, 0x3b, 0x3f, 0x1b, 0x5c];
    let sentinel: [u8; 3] = [0x1b, 0x5b, 0x63];
    extend_bytes(&mut q, background.as_slice());
    extend_bytes(&mut q, foreground.as_slice());
    extend_bytes(&mut q, sentinel.as_slice());
    proof {
        assert(background@ =~= seq![0x1bu8, 0x5d, 0x31, 0x31, 0x3b, 0x3f, 0x1b, 0x5c]);
        assert(foreground@ =~= seq![0x1bu8, 0x5d, 0x31, 0x30, 0x3b, 0x3f, 0x1b, 0x5c]);
        assert(sentinel@ =~= seq![0x1bu8, 0x5b, 0x63]);
        assert(q@ =~= query_bytes());
    }
    q
}

/// Is `b` an ASCII letter?
pub open spec fn is_ascii_letter(b: u8) -> bool {
    (0x41 <= b <= 0x5a) || (0x61 <= b <= 0x7a)
}

/// The first ASCII letter at or after position `j`.
pub open spec fn first_letter_from(b: Seq<u8>, j: int) -> Option<int>
    decreases b.len() - j,
{
    if j < 0 || j >= b.len() {
        None
    } else if is_ascii_letter(b[j]) {
        Some(j)
    } else {
        first_letter_from(b, j + 1)
    }
}

/// A complete DA1 reply starts at `i`: `ESC [ ?`, and the control sequence's final letter is
/// `c`.
pub open spec fn da1_reply_at(b: Seq<u8>, i: int) -> bool {
    &&& 0 <= i
    &&& i + 2 < b.len()
    &&& b[i] == 0x1b
    &&& b[i + 1] == 0x5b
    &&& b[i + 2] == 0x3f
    &&& first_letter_from(b, i + 3) matches Some(j) && b[j] == 0x63
}

/// The first ASCII letter at or after `j` (see [`first_letter_from`]).
fn first_letter(bytes: &[u8], j: usize) -> (r: Option<usize>)
    requires
        j <= bytes@.len(),
    ensures
        r matches Some(k) ==> first_letter_from(bytes@, j as int) == Some(k as int) && k < bytes@.len(),
        r is None ==> first_letter_from(bytes@, j as int) is None,
    decreases bytes@.len() - j,
{
    if j >= bytes.len() {
        return None;
    }
    let b = bytes[j];
    if (0x41 <= b && b <= 0x5a) || (0x61 <= b && b <= 0x7a) {
        Some(j)
    } else {
        first_letter(bytes, j + 1)
    }
}

/// Whether the buffer holds a complete DA1 reply (`ESC [ ? … c`): the terminal is done
/// answering.
pub fn has_da1_terminator(bytes: &[u8]) -> (r: bool)
    ensures
        r == exists|i: int| da1_reply_at(bytes@, i),
{
    let n = bytes.len();
    let mut i: usize = 0;
    while i < n && n - i > 2
        invariant
            n == bytes@.len(),
            i <= n,
            forall|k: int| 0 <= k < i ==> !da1_reply_at(bytes@, k),
        decreases n - i,
    {
        if bytes[i] == 0x1b && bytes[i + 1] == 0x5b && bytes[i + 2] == 0x3f {
            if let Some(j) = first_letter(bytes, i + 3) {
                if bytes[j] == 0x63 {
                    proof {
                        assert(da1_reply_at(bytes@, i as int));
                    }
                    return true;
                }
            }
        }
        i = i + 1;
    }
    proof {
        assert forall|k: int| !da1_reply_at(bytes@, k) by {
            if 0 <= k < i {
            }
        }
    }
    false
}

/// Where the OSC sequence whose body starts at `j` ends: the position of its terminator, `BEL`
/// or `ESC \` (ST), whichever comes first.
pub open spec fn osc_end_from(b: Seq<u8>, j: int) -> Option<int>
    decreases b.len() - j,
{
    if j < 0 || j >= b.len() {
        None
    } else if b[j] == 0x07 {
        Some(j)
    } else if b[j] == 0x1b && j + 1 < b.len() && b[j + 1] == 0x5c {
        Some(j)
    } else {
        osc_end_from(b, j + 1)
    }
}

/// The length of the terminator at `end`: 1 for `BEL`, 2 for `ESC \`.
pub open spec fn terminator_len(b: Seq<u8>, end: int) -> int {
    if b[end] == 0x07 {
        1
    } else {
        2
    }
}

/// An OSC terminator found from `j` lies at or after `j`, inside the buffer.
pub proof fn lemma_osc_end_bounds(b: Seq<u8>, j: int)
    ensures
        osc_end_from(b, j) matches Some(e) ==> j <= e && e + terminator_len(b, e) <= b.len(),
    decreases b.len() - j,
{
    if 0 <= j < b.len() && b[j] != 0x07 && !(b[j] == 0x1b && j + 1 < b.len() && b[j + 1] == 0x5c) {
        lemma_osc_end_bounds(b, j + 1);
    }
}

/// The payloads of every complete OSC sequence at or after position `i`: the bytes between an
/// `ESC ]` introducer and its terminator. An unterminated trailing sequence yields nothing.
pub open spec fn payloads_from(b: Seq<u8>, i: int) -> Seq<Seq<u8>>
    decreases b.len() - i,
{
    if i < 0 || i + 1 >= b.len() {
        Seq::empty()
    } else if b[i] == 0x1b && b[i + 1] == 0x5d {
        match osc_end_from(b, i + 2) {
            Some(end) => {
                proof {
                    lemma_osc_end_bounds(b, i + 2);
                }
                seq![b.subrange(i + 2, end)] + payloads_from(b, end + terminator_len(b, end))
            },
            None => Seq::empty(),
        }
    } else {
        payloads_from(b, i + 1)
    }
}

/// The position of the terminator of the OSC body starting at `j` (see [`osc_end_from`]).
fn find_osc_end(bytes: &[u8], j: usize) -> (r: Option<usize>)
    requires
        j <= bytes@.len(),
    ensures
        r matches Some(e) ==> osc_end_from(bytes@, j as int) == Some(e as int),
        r is None ==> osc_end_from(bytes@, j as int) is None,
    decreases bytes@.len() - j,
{
    let n = bytes.len();
    if j >= n {
        return None;
    }
    if bytes[j] == 0x07 {
        return Some(j);
    }
    if bytes[j] == 0x1b && j + 1 < n && bytes[j + 1] == 0x5c {
        return Some(j);
    }
    find_osc_end(bytes, j + 1)
}

/// The payloads of every complete OSC sequence in `bytes`, in order (see [`payloads_from`]).
pub fn osc_payloads(bytes: &[u8]) -> (out: Vec<&[u8]>)
    ensures
        out@.len() == payloads_from(bytes@, 0).len(),
        forall|k: int| 0 <= k < out@.len() ==> #[trigger] out@[k]@ == payloads_from(bytes@, 0)[k],
{
    let n = bytes.len();
    let mut out: Vec<&[u8]> = Vec::new();
    let ghost mut views: Seq<Seq<u8>> = Seq::empty();
    let mut i: usize = 0;
    while i < n && n - i > 1
        invariant
            n == bytes@.len(),
            i <= n,
            views.len() == out@.len(),
            forall|k: int| 0 <= k < out@.len() ==> #[trigger] out@[k]@ == views[k],
            views + payloads_from(bytes@, i as int) == payloads_from(bytes@, 0),
        decreases n - i,
    {
        if bytes[i] == 0x1b && bytes[i + 1] == 0x5d {
            let start = i + 2;
            let end = find_osc_end(bytes, start);
            match end {
                Some(e) => {
                    proof {
                        lemma_osc_end_bounds(bytes@, start as int);
                    }
                    let next = if bytes[e] == 0x07 {
                        e + 1
                    } else {
                        e + 2
                    };
                    let payload = vstd::slice::slice_subrange(bytes, start, e);
                    out.push(payload);
                    proof {
                        let p = bytes@.subrange(start as int, e as int);
                        assert(payloads_from(bytes@, i as int) == seq![p] + payloads_from(
                            bytes@,
                            next as int,
                        ));
                        assert(views.push(p) + payloads_from(bytes@, next as int) =~= views + (seq![
                            p,
                        ] + payloads_from(bytes@, next as int)));
                        views = views.push(p);
                    }
                    i = next;
                },
                None => {
                    proof {
                        assert(payloads_from(bytes@, i as int) =~= Seq::<Seq<u8>>::empty());
                        assert(views =~= payloads_from(bytes@, 0));
                    }
                    return out;
                },
            }
        } else {
            i = i + 1;
        }
    }
    proof {
        assert(payloads_from(bytes@, i as int) =~= Seq::<Seq<u8>>::empty());
        assert(views =~= payloads_from(bytes@, 0));
    }
    out
}

/// `16^n`.
pub open spec fn pow16(n: nat) -> nat
    decreases n,
{
    if n == 0 {
        1
    } else {
        16 * pow16((n - 1) as nat)
    }
}

/// A base-16 digit string of length `n` is below `16^n`.
proof fn lemma_hex_digits_bound(d: Seq<u8>)
    ensures
        digits_value(d, 16) matches Some(v) ==> v < pow16(d.len()),
    decreases d.len(),
{
    if d.len() > 0 {
        lemma_hex_digits_bound(d.drop_last());
    }
}

/// An unsigned base-16 number written with `n` bytes is below `16^n`.
proof fn lemma_hex_value_bound(d: Seq<u8>)
    ensures
        radix_value(d, 16) matches Some(v) ==> v < pow16(d.len()),
{
    if d.len() > 0 && d[0] == 0x2b && d.len() > 1 {
        lemma_hex_digits_bound(d.skip(1));
        assert(pow16(d.len()) == 16 * pow16((d.len() - 1) as nat));
    } else {
        lemma_hex_digits_bound(d);
    }
}

/// `v` out of a full scale of `m` (`16^digits - 1`), rounded to the nearest step of `0..=255`.
pub open spec fn scale_channel(v: nat, m: nat) -> nat {
    (v * 255 + m / 2) / m
}

/// One channel of an XParseColor `rgb:` spec: one to four bytes read as an unsigned base-16
/// number and scaled from its `0..=16^len - 1` range to `0..=255`.
pub open spec fn channel_of(s: Seq<u8>) -> Option<u8> {
    if s.len() == 0 || s.len() > 4 {
        None
    } else {
        match radix_value(s, 16) {
            Some(v) => Some(scale_channel(v, (pow16(s.len()) - 1) as nat) as u8),
            None => None,
        }
    }
}

/// Parse and scale one channel (see [`channel_of`]).
fn parse_channel(s: &[u8]) -> (r: Option<u8>)
    ensures
        r == channel_of(s@),
{
    let len = s.len();
    if len == 0 || len > 4 {
        return None;
    }
    proof {
        assert(s@.subrange(0, len as int) =~= s@);
        lemma_hex_value_bound(s@);
        reveal_with_fuel(pow16, 5);
    }
    match radix_capped(s, 0, len, 16, 0x1_0000) {
        Some(v) => {
            let max: u64 = if len == 1 {
                15
            } else if len == 2 {
                255
            } else if len == 3 {
                4095
            } else {
                65535
            };
            assert(max == pow16(len as nat) - 1);
            assert(v <= max);
            assert(v * 255 + max / 2 < 256 * max);
            let scaled = (v * 255 + max / 2) / max;
            assert(scaled < 256) by (nonlinear_arith)
                requires
                    scaled == (v * 255 + max / 2) / (max as int),
                    v * 255 + max / 2 < 256 * max,
                    max > 0,
            ;
            Some(scaled as u8)
        },
        None => None,
    }
}

/// The first position at or after `j` where `s` holds byte `c`.
pub open spec fn find_byte_from(s: Seq<u8>, c: u8, j: int) -> Option<int>
    decreases s.len() - j,
{
    if j < 0 || j >= s.len() {
        None
    } else if s[j] == c {
        Some(j)
    } else {
        find_byte_from(s, c, j + 1)
    }
}

/// The first position of byte `c` in `s`.
pub open spec fn find_byte(s: Seq<u8>, c: u8) -> Option<int> {
    find_byte_from(s, c, 0)
}

/// A position found from `j` lies at or after `j`, inside the buffer.
proof fn lemma_find_byte_bounds(s: Seq<u8>, c: u8, j: int)
    ensures
        find_byte_from(s, c, j) matches Some(k) ==> j <= k < s.len() && s[k] == c,
    decreases s.len() - j,
{
    if 0 <= j < s.len() && s[j] != c {
        lemma_find_byte_bounds(s, c, j + 1);
    }
}

/// The first position of byte `c` in `s` (see [`find_byte`]).
fn first_index_of(s: &[u8], c: u8) -> (r: Option<usize>)
    ensures
        r matches Some(k) ==> find_byte(s@, c) == Some(k as int) && k < s@.len(),
        r is None ==> find_byte(s@, c) is None,
{
    let n = s.len();
    let mut j: usize = 0;
    while j < n
        invariant
            n == s@.len(),
            j <= n,
            find_byte_from(s@, c, 0) == find_byte_from(s@, c, j as int),
        decreases n - j,
    {
        if s[j] == c {
            return Some(j);
        }
        j = j + 1;
    }
    None
}

/// An XParseColor `rgb:R/G/B` spec: the `rgb:` prefix, then exactly three `/`-separated
/// channels (see [`channel_of`]).
pub open spec fn rgb_spec_of(s: Seq<u8>) -> Option<Color> {
    if s.len() < 4 || s[0] != 0x72 || s[1] != 0x67 || s[2] != 0x62 || s[3] != 0x3a {
        None
    } else {
        let rest = s.skip(4);
        match find_byte(rest, 0x2f) {
            None => None,
            Some(i) => {
                let after = rest.skip(i + 1);
                match find_byte(after, 0x2f) {
                    None => None,
                    Some(j) => {
                        let third = after.skip(j + 1);
                        if find_byte(third, 0x2f) is Some {
                            None
                        } else {
                            match (channel_of(rest.take(i)), channel_of(after.take(j)), channel_of(third)) {
                                (Some(r), Some(g), Some(b)) => Some(Color::Rgb(r, g, b)),
                                _ => None,
                            }
                        }
                    },
                }
            },
        }
    }
}

/// Parse an OSC color-spec body given as bytes (see [`rgb_spec_of`]).
fn rgb_color(s: &[u8]) -> (r: Option<Color>)
    ensures
        r == rgb_spec_of(s@),
{
    let n = s.len();
    if n < 4 || s[0] != 0x72 || s[1] != 0x67 || s[2] != 0x62 || s[3] != 0x3a {
        return None;
    }
    let rest = vstd::slice::slice_subrange(s, 4, n);
    let i = match first_index_of(rest, 0x2f) {
        Some(i) => i,
        None => return None,
    };
    let after = vstd::slice::slice_subrange(rest, i + 1, rest.len());
    let j = match first_index_of(after, 0x2f) {
        Some(j) => j,
        None => return None,
    };
    let third = vstd::slice::slice_subrange(after, j + 1, after.len());
    if first_index_of(third, 0x2f).is_some() {
        return None;
    }
    let red = vstd::slice::slice_subrange(rest, 0, i);
    let green = vstd::slice::slice_subrange(after, 0, j);
    proof {
        assert(rest@ =~= s@.skip(4));
        assert(after@ =~= rest@.skip(i + 1));
        assert(third@ =~= after@.skip(j + 1));
        assert(red@ =~= rest@.take(i as int));
        assert(green@ =~= after@.take(j as int));
    }
    match (parse_channel(red), parse_channel(green), parse_channel(third)) {
        (Some(r), Some(g), Some(b)) => Some(Color::Rgb(r, g, b)),
        _ => None,
    }
}

/// Parse one OSC color-spec body of the form `rgb:RRRR/GGGG/BBBB` (1–4 hex digits per channel)
/// into an 8-bit RGB color; `None` on any malformation.
pub fn parse_rgb_spec(spec: &str) -> (r: Option<Color>)
    ensures
        r == rgb_spec_of(vstd::utf8::encode_utf8(spec@)),
{
    rgb_color(spec.as_bytes())
}

/// Whether `bytes` is well-formed UTF-8.
///
/// Calls `std::str::from_utf8`, which fails exactly when its input is not valid UTF-8; the
/// contract takes that validity to be vstd's `valid_utf8`.
#[verifier::external_body]
fn is_utf8(bytes: &[u8]) -> (r: bool)
    ensures
        r == valid_utf8(bytes@),
{
    std::str::from_utf8(bytes).is_ok()
}

/// What a probe's replies have said so far: each ANSI color, the background, the foreground.
pub struct ProbeScan {
    pub ansi: Seq<Option<Color>>,
    pub background: Option<Color>,
    pub foreground: Option<Color>,
}

/// Nothing answered yet.
pub open spec fn empty_scan() -> ProbeScan {
    ProbeScan { ansi: Seq::new(16, |i: int| None), background: None, foreground: None }
}

/// The scan after one more reply payload. A payload that is not UTF-8 is skipped; `4;n;spec`
/// sets ANSI color `n` when `n` is a decimal index below 16 and the spec parses (otherwise it
/// is ignored); `11;spec` and `10;spec` set the background and foreground to the parsed spec
/// (`None` when it does not parse); anything else is skipped.
pub open spec fn scan_payload(st: ProbeScan, p: Seq<u8>) -> ProbeScan {
    if !valid_utf8(p) {
        st
    } else if p.len() >= 2 && p[0] == 0x34 && p[1] == 0x3b {
        let rest = p.skip(2);
        match find_byte(rest, 0x3b) {
            Some(k) => match (radix_value(rest.take(k), 10), rgb_spec_of(rest.skip(k + 1))) {
                (Some(idx), Some(c)) => if idx < 16 {
                    ProbeScan {
                        ansi: st.ansi.update(idx as int, Some(c)),
                        background: st.background,
                        foreground: st.foreground,
                    }
                } else {
                    st
                },
                _ => st,
            },
            None => st,
        }
    } else if p.len() >= 3 && p[0] == 0x31 && p[1] == 0x31 && p[2] == 0x3b {
        ProbeScan { ansi: st.ansi, background: rgb_spec_of(p.skip(3)), foreground: st.foreground }
    } else if p.len() >= 3 && p[0] == 0x31 && p[1] == 0x30 && p[2] == 0x3b {
        ProbeScan { ansi: st.ansi, background: st.background, foreground: rgb_spec_of(p.skip(3)) }
    } else {
        st
    }
}

/// The scan after the payloads `ps`, in order.
pub open spec fn scan_payloads(ps: Seq<Seq<u8>>) -> ProbeScan
    decreases ps.len(),
{
    if ps.len() == 0 {
        empty_scan()
    } else {
        scan_payload(scan_payloads(ps.drop_last()), ps.last())
    }
}

/// The scan of every OSC reply in a raw buffer.
pub open spec fn probe_scan(bytes: Seq<u8>) -> ProbeScan {
    scan_payloads(payloads_from(bytes, 0))
}

/// `ansi`, `background`, `foreground` hold what scan `st` says.
pub open spec fn holds_scan(
    st: ProbeScan,
    ansi: Seq<Option<Color>>,
    background: Option<Color>,
    foreground: Option<Color>,
) -> bool {
    &&& st.ansi == ansi
    &&& st.background == background
    &&& st.foreground == foreground
}

/// Apply one reply payload to the scan state (see [`scan_payload`]).
fn scan_one(
    ansi: &mut [Option<Color>; 16],
    background: &mut Option<Color>,
    foreground: &mut Option<Color>,
    p: &[u8],
)
    requires
        old(ansi)@.len() == 16,
    ensures
        holds_scan(
            scan_payload(
                ProbeScan { ansi: old(ansi)@, background: *old(background), foreground: *old(foreground) },
                p@,
            ),
            final(ansi)@,
            *final(background),
            *final(foreground),
        ),
{
    if !is_utf8(p) {
        return;
    }
    let n = p.len();
    if n >= 2 && p[0] == 0x34 && p[1] == 0x3b {
        let rest = vstd::slice::slice_subrange(p, 2, n);
        proof {
            assert(rest@ =~= p@.skip(2));
        }
        if let Some(k) = first_index_of(rest, 0x3b) {
            let spec = vstd::slice::slice_subrange(rest, k + 1, rest.len());
            proof {
                assert(spec@ =~= rest@.skip(k + 1));
                assert(rest@.subrange(0, k as int) =~= rest@.take(k as int));
            }
            let index = radix_capped(rest, 0, k, 10, 16);
            let color = rgb_color(spec);
            match (index, color) {
                (Some(idx), Some(c)) => {
                    if idx < 16 {
                        ansi[idx as usize] = Some(c);
                    }
                },
                _ => {},
            }
        }
    } else if n >= 3 && p[0] == 0x31 && p[1] == 0x31 && p[2] == 0x3b {
        let spec = vstd::slice::slice_subrange(p, 3, n);
        proof {
            assert(spec@ =~= p@.skip(3));
        }
        *background = rgb_color(spec);
    } else if n >= 3 && p[0] == 0x31 && p[1] == 0x30 && p[2] == 0x3b {
        let spec = vstd::slice::slice_subrange(p, 3, n);
        proof {
            assert(spec@ =~= p@.skip(3));
        }
        *foreground = rgb_color(spec);
    }
}

/// Parse a raw terminal reply buffer: every `OSC 4;n;spec`, `OSC 11;spec` and `OSC 10;spec`
/// reply in order (see [`scan_payload`]). `ansi16` is `Some` only when all 16 colors answered.
pub fn parse_osc_replies(bytes: &[u8]) -> (r: ProbeResult)
    ensures
        r.background == probe_scan(bytes@).background,
        r.foreground == probe_scan(bytes@).foreground,
        r.ansi16 is Some <==> forall|i: int| 0 <= i < 16 ==> #[trigger] probe_scan(bytes@).ansi[i] is Some,
        r.ansi16 matches Some(a) ==> forall|i: int|
            0 <= i < 16 ==> #[trigger] probe_scan(bytes@).ansi[i] == Some(a@[i]),
{
    let payloads = osc_payloads(bytes);
    let ghost ps = payloads_from(bytes@, 0);
    let mut ansi: [Option<Color>; 16] = [None; 16];
    let mut background: Option<Color> = None;
    let mut foreground: Option<Color> = None;
    proof {
        assert(ps.take(0) =~= Seq::<Seq<u8>>::empty());
        assert(ansi@ =~= empty_scan().ansi);
    }
    let n = payloads.len();
    let mut k: usize = 0;
    while k < n
        invariant
            n == payloads@.len(),
            n == ps.len(),
            ps == payloads_from(bytes@, 0),
            forall|j: int| 0 <= j < n ==> #[trigger] payloads@[j]@ == ps[j],
            k <= n,
            ansi@.len() == 16,
            holds_scan(scan_payloads(ps.take(k as int)), ansi@, background, foreground),
        decreases n - k,
    {
        scan_one(&mut ansi, &mut background, &mut foreground, payloads[k]);
        proof {
            assert(ps.take(k + 1).drop_last() =~= ps.take(k as int));
            assert(ps.take(k + 1).last() == ps[k as int]);
        }
        k = k + 1;
    }
    proof {
        assert(ps.take(n as int) =~= ps);
    }
    let mut all = true;
    let mut i: usize = 0;
    while i < 16
        invariant
            i <= 16,
            ansi@.len() == 16,
            all == forall|j: int| 0 <= j < i ==> #[trigger] ansi@[j] is Some,
        decreases 16 - i,
    {
        if ansi[i].is_none() {
            all = false;
        }
        i = i + 1;
    }
    let ansi16 = if all {
        let mut colors = [Color::Reset; 16];
        let mut i: usize = 0;
        while i < 16
            invariant
                i <= 16,
                ansi@.len() == 16,
                colors@.len() == 16,
                forall|j: int| 0 <= j < 16 ==> #[trigger] ansi@[j] is Some,
                forall|j: int| 0 <= j < i ==> #[trigger] ansi@[j] == Some(colors@[j]),
            decreases 16 - i,
        {
            match ansi[i] {
                Some(c) => {
                    colors[i] = c;
                },
                None => {},
            }
            i = i + 1;
        }
        Some(colors)
    } else {
        None
    };
    ProbeResult { ansi16, background, foreground }
}

/// The ten base16 slots a probed terminal answers directly: `base00` the background, `base03`
/// bright black (ANSI 8), `base05` the foreground (else white, ANSI 7), `base07` bright white
/// (ANSI 15), `base08` red (ANSI 1), `base0A` yellow (ANSI 3), `base0B` green (ANSI 2), `base0C`
/// cyan (ANSI 6), `base0D` blue (ANSI 4), `base0E` magenta (ANSI 5).
#[derive(Debug, Clone, Copy, PartialEq, Eq)]
pub struct AnsiRoles {
    pub base00: Color,
    pub base03: Color,
    pub base05: Color,
    pub base07: Color,
    pub base08: Color,
    pub base0a: Color,
    pub base0b: Color,
    pub base0c: Color,
    pub base0d: Color,
    pub base0e: Color,
}

/// The six base16 slots ANSI has no equivalent for, blended from the answered ones: the ramp
/// steps `base01`/`base02` (background toward bright black), `base04` (bright black toward the
/// foreground), `base06` (foreground toward bright white), and the accents `base09` (orange,
/// red toward yellow) and `base0F` (brown, orange toward red).
#[derive(Debug, Clone, Copy, PartialEq, Eq)]
pub struct SynthesizedSlots {
    pub base01: Color,
    pub base02: Color,
    pub base04: Color,
    pub base06: Color,
    pub base09: Color,
    pub base0f: Color,
}

/// Map a probed ANSI-16 palette, background and optional foreground onto the base16 roles they
/// answer (see [`AnsiRoles`]).
pub fn ansi_roles(ansi: &[Color; 16], background: Color, foreground: Option<Color>) -> (r: AnsiRoles)
    ensures
        r.base00 == background,
        r.base03 == ansi@[8],
        r.base05 == (match foreground {
            Some(f) => f,
            None => ansi@[7],
        }),
        r.base07 == ansi@[15],
        r.base08 == ansi@[1],
        r.base0a == ansi@[3],
        r.base0b == ansi@[2],
        r.base0c == ansi@[6],
        r.base0d == ansi@[4],
        r.base0e == ansi@[5],
{
    AnsiRoles {
        base00: background,
        base03: ansi[8],
        base05: match foreground {
            Some(f) => f,
            None => ansi[7],
        },
        base07: ansi[15],
        base08: ansi[1],
        base0a: ansi[3],
        base0b: ansi[2],
        base0c: ansi[6],
        base0d: ansi[4],
        base0e: ansi[5],
    }
}

/// The scheme with the answered roles and the synthesized slots, each in its slot.
pub fn assemble_base16(roles: &AnsiRoles, synth: &SynthesizedSlots) -> (b: Base16)
    ensures
        b.slots@ == seq![
            roles.base00,
            synth.base01,
            synth.base02,
            roles.base03,
            synth.base04,
            roles.base05,
            synth.base06,
            roles.base07,
            roles.base08,
            synth.base09,
            roles.base0a,
            roles.base0b,
            roles.base0c,
            roles.base0d,
            roles.base0e,
            synth.base0f,
        ],
{
    let b = Base16 {
        slots: [
            roles.base00,
            synth.base01,
            synth.base02,
            roles.base03,
            synth.base04,
            roles.base05,
            synth.base06,
            roles.base07,
            roles.base08,
            synth.base09,
            roles.base0a,
            roles.base0b,
            roles.base0c,
            roles.base0d,
            roles.base0e,
            synth.base0f,
        ],
    };
    proof {
        assert(b.slots@ =~= seq![
            roles.base00,
            synth.base01,
            synth.base02,
            roles.base03,
            synth.base04,
            roles.base05,
            synth.base06,
            roles.base07,
            roles.base08,
            synth.base09,
            roles.base0a,
            roles.base0b,
            roles.base0c,
            roles.base0d,
            roles.base0e,
            synth.base0f,
        ]);
    }
    b
}

/// Which palette `theme = auto` resolves to for a probe result.
#[derive(Debug, Clone, Copy, PartialEq, Eq)]
pub enum AutoScheme {
    /// Derived from the terminal's own colors: all 16 ANSI colors and the background answered.
    Terminal { ansi: [Color; 16], background: Color, foreground: Option<Color> },
    /// The curated light scheme.
    Light,
    /// The curated dark scheme.
    Dark,
}

/// The `theme = auto` decision: a complete probe (all 16 ANSI colors and a background) derives
/// from the terminal; otherwise an answered background picks the curated scheme by its
/// luminance; with no background at all, curated dark.
pub fn auto_scheme(probe: &ProbeResult) -> (r: AutoScheme)
    ensures
        r == (match (probe.ansi16, probe.background) {
            (Some(ansi), Some(bg)) => AutoScheme::Terminal {
                ansi,
                background: bg,
                foreground: probe.foreground,
            },
            (_, Some(bg)) => if crate::theme::light_background(bg) {
                AutoScheme::Light
            } else {
                AutoScheme::Dark
            },
            (_, None) => AutoScheme::Dark,
        }),
{
    match (probe.ansi16, probe.background) {
        (Some(ansi), Some(bg)) => AutoScheme::Terminal {
            ansi,
            background: bg,
            foreground: probe.foreground,
        },
        (_, Some(bg)) => {
            if crate::theme::is_light_background(bg) {
                AutoScheme::Light
            } else {
                AutoScheme::Dark
            }
        },
        (_, None) => AutoScheme::Dark,
    }
}

/// What one read of the terminal returned.
pub enum ReadEvent<'a> {
    /// Reply bytes arrived.
    Data(&'a [u8]),
    /// Nothing yet: a zero-byte polling read or a would-block. Never end of input.
    Pending,
    /// A genuine read error.
    Failed,
}

/// What the reply-collecting loop does next.
#[derive(Debug, Clone, Copy, PartialEq, Eq, Structural)]
pub enum CollectAction {
    /// Read again at once.
    Continue,
    /// Yield briefly, then read again (until the deadline).
    Wait,
    /// Stop reading: the DA1 sentinel arrived, or the read failed.
    Stop,
}

/// One step of collecting terminal replies: received bytes are appended to `buf`, and the loop
/// stops once `buf` holds the DA1 sentinel; a pending read waits and retries; a failed read
/// stops with what already arrived.
pub fn collect_step(buf: &mut Vec<u8>, event: ReadEvent) -> (action: CollectAction)
    ensures
        match event {
            ReadEvent::Data(d) => {
                &&& final(buf)@ == old(buf)@ + d@
                &&& action == (if exists|i: int| da1_reply_at(final(buf)@, i) {
                    CollectAction::Stop
                } else {
                    CollectAction::Continue
                })
            },
            ReadEvent::Pending => final(buf)@ == old(buf)@ && action == CollectAction::Wait,
            ReadEvent::Failed => final(buf)@ == old(buf)@ && action == CollectAction::Stop,
        },
{
    match event {
        ReadEvent::Data(d) => {
            extend_bytes(buf, d);
            if has_da1_terminator(buf.as_slice()) {
                CollectAction::Stop
            } else {
                CollectAction::Continue
            }
        },
        ReadEvent::Pending => CollectAction::Wait,
        ReadEvent::Failed => CollectAction::Stop,
    }
}

} // verus!
