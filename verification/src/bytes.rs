//! Small byte-building helpers shared by the patch renderers: appending slices and string
//! bytes, and rendering unsigned integers as ASCII decimal or zero-padded octal.
use vstd::prelude::*;
use vstd::utf8::encode_utf8;

verus! {

/// The UTF-8 bytes of a string's characters.
pub open spec fn utf8_of(s: Seq<char>) -> Seq<u8> {
    encode_utf8(s)
}

/// The marker line git appends after a line that has no trailing newline.
pub open spec fn no_newline_marker() -> Seq<u8> {
    utf8_of("\n\\ No newline at end of file\n"@)
}

/// Append every byte of `src` to `out`.
pub fn extend_bytes(out: &mut Vec<u8>, src: &[u8])
    ensures
        final(out)@ == old(out)@ + src@,
{
    let n = src.len();
    let mut i: usize = 0;
    while i < n
        invariant
            n == src@.len(),
            i <= n,
            out@ == old(out)@ + src@.take(i as int),
        decreases n - i,
    {
        out.push(src[i]);
        proof {
            assert(src@.take(i + 1) =~= src@.take(i as int).push(src@[i as int]));
        }
        i = i + 1;
    }
    proof {
        assert(src@.take(n as int) =~= src@);
    }
}

/// Append the UTF-8 bytes of `s` to `out`.
pub fn extend_str(out: &mut Vec<u8>, s: &str)
    ensures
        final(out)@ == old(out)@ + utf8_of(s@),
{
    extend_bytes(out, s.as_bytes());
}

/// Append the `\ No newline at end of file` marker (with its surrounding newlines).
pub fn push_no_newline_marker(out: &mut Vec<u8>)
    ensures
        final(out)@ == old(out)@ + no_newline_marker(),
{
    extend_str(out, "\n\\ No newline at end of file\n");
}

/// ASCII decimal digits of `n`, most significant first, no leading zeros (`"0"` for zero).
pub open spec fn decimal_bytes(n: nat) -> Seq<u8>
    decreases n,
{
    if n < 10 {
        seq![(48 + n) as u8]
    } else {
        decimal_bytes(n / 10).push((48 + n % 10) as u8)
    }
}

/// ASCII octal digits of `n`, most significant first, no leading zeros (`"0"` for zero).
pub open spec fn octal_bytes(n: nat) -> Seq<u8>
    decreases n,
{
    if n < 8 {
        seq![(48 + n) as u8]
    } else {
        octal_bytes(n / 8).push((48 + n % 8) as u8)
    }
}

/// `n` in octal, left-padded with `'0'` to at least six digits (the `{:06o}` rendering).
pub open spec fn octal6_bytes(n: nat) -> Seq<u8> {
    let digits = octal_bytes(n);
    if digits.len() < 6 {
        Seq::new((6 - digits.len()) as nat, |i: int| 48u8) + digits
    } else {
        digits
    }
}

/// Append the decimal rendering of `n`.
pub fn push_decimal(out: &mut Vec<u8>, n: u32)
    ensures
        final(out)@ == old(out)@ + decimal_bytes(n as nat),
    decreases n,
{
    if n >= 10 {
        push_decimal(out, n / 10);
    }
    out.push((48 + n % 10) as u8);
    proof {
        if n >= 10 {
            assert(decimal_bytes(n as nat) == decimal_bytes((n / 10) as nat).push((48 + n % 10) as u8));
        }
        assert(out@ =~= old(out)@ + decimal_bytes(n as nat));
    }
}

/// Append the octal rendering of `n`.
fn push_octal(out: &mut Vec<u8>, n: u32)
    ensures
        final(out)@ == old(out)@ + octal_bytes(n as nat),
    decreases n,
{
    if n >= 8 {
        push_octal(out, n / 8);
    }
    out.push((48 + n % 8) as u8);
    proof {
        assert(out@ =~= old(out)@ + octal_bytes(n as nat));
    }
}

/// The number of octal digits of `n`.
fn octal_len(n: u32) -> (len: usize)
    ensures
        len == octal_bytes(n as nat).len(),
        len <= 11,
    decreases n,
{
    if n >= 8 {
        let k = octal_len(n / 8);
        proof {
            assert(octal_bytes(n as nat).len() == octal_bytes((n / 8) as nat).len() + 1);
            lemma_octal_len_bound(n as nat);
        }
        k + 1
    } else {
        1
    }
}

proof fn lemma_octal_len_bound(n: nat)
    requires
        n <= u32::MAX,
    ensures
        octal_bytes(n).len() <= 11,
    decreases n,
{
    if n >= 8 {
        reveal_with_fuel(pow8, 11);
        assert(pow8(10) == 1073741824);
        lemma_octal_len_below(n / 8, 10);
    }
}

proof fn lemma_octal_len_below(n: nat, k: nat)
    requires
        n < pow8(k),
    ensures
        octal_bytes(n).len() <= if k == 0 { 1 } else { k },
    decreases n,
{
    if n >= 8 {
        assert(k >= 2) by {
            if k == 0 {
                assert(pow8(0) == 1);
            } else if k == 1 {
                assert(pow8(1) == 8 * pow8(0));
            }
        }
        assert(pow8(k) == 8 * pow8((k - 1) as nat));
        lemma_octal_len_below(n / 8, (k - 1) as nat);
    }
}

spec fn pow8(k: nat) -> nat
    decreases k,
{
    if k == 0 {
        1
    } else {
        8 * pow8((k - 1) as nat)
    }
}

/// Append `n` in octal, zero-padded to six digits (`{:06o}`).
pub fn push_octal6(out: &mut Vec<u8>, n: u32)
    ensures
        final(out)@ == old(out)@ + octal6_bytes(n as nat),
{
    let len = octal_len(n);
    let ghost start = out@;
    if len < 6 {
        let pad = 6 - len;
        let mut i: usize = 0;
        while i < pad
            invariant
                pad == 6 - len,
                i <= pad,
                out@ == start + Seq::new(i as nat, |j: int| 48u8),
            decreases pad - i,
        {
            out.push(48u8);
            proof {
                assert(out@ =~= start + Seq::new((i + 1) as nat, |j: int| 48u8));
            }
            i = i + 1;
        }
    }
    let ghost mid = out@;
    push_octal(out, n);
    proof {
        assert(out@ =~= start + octal6_bytes(n as nat));
    }
}

} // verus!
