//! Character-level views of strings: collecting a string's characters and mapping character
//! positions to the byte offsets of its UTF-8 encoding.
use vstd::prelude::*;
use vstd::std_specs::iter::IteratorSpec;
use vstd::utf8::{encode_scalar, encode_utf8};

verus! {

broadcast use vstd::string::group_string_axioms;

/// The byte offset of character position `i` in the UTF-8 encoding of `s`.
pub open spec fn byte_pos(s: Seq<char>, i: int) -> int {
    encode_utf8(s.take(i)).len() as int
}

/// UTF-8 encoding distributes over concatenation.
pub proof fn lemma_encode_concat(a: Seq<char>, b: Seq<char>)
    ensures
        encode_utf8(a + b) == encode_utf8(a) + encode_utf8(b),
    decreases a.len(),
{
    if a.len() == 0 {
        assert(a + b =~= b);
        assert(encode_utf8(a) =~= Seq::<u8>::empty());
        assert(encode_utf8(a) + encode_utf8(b) =~= encode_utf8(b));
    } else {
        assert((a + b).drop_first() =~= a.drop_first() + b);
        lemma_encode_concat(a.drop_first(), b);
        assert((a + b)[0] == a[0]);
        assert(encode_utf8(a + b) =~= encode_scalar(a[0] as u32) + encode_utf8(a.drop_first() + b));
    }
}

/// The encoding of one more character grows by that character's encoding.
pub proof fn lemma_byte_pos_step(s: Seq<char>, i: int)
    requires
        0 <= i < s.len(),
    ensures
        byte_pos(s, i + 1) == byte_pos(s, i) + encode_scalar(s[i] as u32).len(),
{
    assert(s.take(i + 1) =~= s.take(i) + seq![s[i]]);
    lemma_encode_concat(s.take(i), seq![s[i]]);
    assert(seq![s[i]].drop_first() =~= Seq::<char>::empty());
    assert(encode_utf8(Seq::<char>::empty()) =~= Seq::<u8>::empty());
}

/// Byte offsets never decrease along the string and end at its full encoded length.
pub proof fn lemma_byte_pos_monotone(s: Seq<char>, i: int, j: int)
    requires
        0 <= i <= j <= s.len(),
    ensures
        byte_pos(s, i) <= byte_pos(s, j),
        byte_pos(s, j) <= encode_utf8(s).len(),
    decreases j - i,
{
    if i < j {
        lemma_byte_pos_step(s, j - 1);
        lemma_byte_pos_monotone(s, i, j - 1);
    }
    assert(s =~= s.take(j) + s.skip(j));
    lemma_encode_concat(s.take(j), s.skip(j));
}

/// Strictly later character positions have strictly later byte offsets.
pub proof fn lemma_byte_pos_strict(s: Seq<char>, i: int, j: int)
    requires
        0 <= i < j <= s.len(),
    ensures
        byte_pos(s, i) < byte_pos(s, j),
{
    lemma_byte_pos_step(s, i);
    lemma_byte_pos_monotone(s, i + 1, j);
}

/// The number of bytes UTF-8 uses for `c`.
pub fn utf8_width(c: char) -> (n: usize)
    ensures
        n == encode_scalar(c as u32).len(),
        1 <= n <= 4,
{
    let v = c as u32;
    proof {
        vstd::utf8::char_is_scalar(c);
    }
    if v <= 0x7F {
        1
    } else if v <= 0x7FF {
        2
    } else if v <= 0xFFFF {
        3
    } else {
        4
    }
}

/// The characters of `s`, in order.
pub fn chars_of(s: &str) -> (v: Vec<char>)
    ensures
        v@ == s@,
{
    let mut v: Vec<char> = Vec::new();
    let mut it = s.chars();
    let ghost all = s@;
    loop
        invariant
            it.obeys_prophetic_iter_laws(),
            all == s@,
            v@ + it.remaining() == all,
            it.decrease() is Some,
        decreases it.decrease()->0,
    {
        let ghost before = it.remaining();
        match it.next() {
            Some(c) => {
                v.push(c);
                proof {
                    assert(v@ + it.remaining() =~= all);
                }
            },
            None => {
                assert(v@ =~= all);
                return v;
            },
        }
    }
}

/// The byte offset of every character position of `h` (`h.len() + 1` entries, the last being
/// the encoded length).
pub fn byte_offsets(s: &str, h: &Vec<char>) -> (offs: Vec<usize>)
    requires
        h@ == s@,
    ensures
        offs@.len() == h@.len() + 1,
        forall|i: int| 0 <= i <= h@.len() ==> #[trigger] offs@[i] as int == byte_pos(h@, i),
{
    let total = s.as_bytes().len();
    let n = h.len();
    let mut offs: Vec<usize> = Vec::new();
    offs.push(0);
    proof {
        assert(h@.take(0) =~= Seq::<char>::empty());
        assert(encode_utf8(Seq::<char>::empty()) =~= Seq::<u8>::empty());
    }
    let mut acc: usize = 0;
    let mut i: usize = 0;
    while i < n
        invariant
            n == h@.len(),
            h@ == s@,
            total as int == encode_utf8(h@).len(),
            i <= n,
            acc as int == byte_pos(h@, i as int),
            offs@.len() == i + 1,
            forall|k: int| 0 <= k <= i ==> #[trigger] offs@[k] as int == byte_pos(h@, k),
        decreases n - i,
    {
        let w = utf8_width(h[i]);
        proof {
            lemma_byte_pos_step(h@, i as int);
            lemma_byte_pos_monotone(h@, (i + 1) as int, n as int);
        }
        acc = acc + w;
        offs.push(acc);
        i = i + 1;
    }
    offs
}

/// Whether `t` and `w` hold the same characters.
pub fn same_chars(t: &[char], w: &[char]) -> (r: bool)
    ensures
        r == (t@ == w@),
{
    if t.len() != w.len() {
        return false;
    }
    let n = t.len();
    let mut i: usize = 0;
    while i < n
        invariant
            n == t@.len(),
            n == w@.len(),
            i <= n,
            t@.take(i as int) == w@.take(i as int),
        decreases n - i,
    {
        if t[i] != w[i] {
            proof {
                assert(t@[i as int] != w@[i as int]);
            }
            return false;
        }
        proof {
            assert(t@.take(i + 1) =~= t@.take(i as int).push(t@[i as int]));
            assert(w@.take(i + 1) =~= w@.take(i as int).push(w@[i as int]));
        }
        i = i + 1;
    }
    proof {
        assert(t@.take(n as int) =~= t@);
        assert(w@.take(n as int) =~= w@);
    }
    true
}

} // verus!
