//! Literal, smartcase text search over a file's pre-collapse diff rows. [`compute_matches`]
//! scans every [`AlignedRow`], hidden context included, and reports each match by row, side and
//! byte range within that line's text.
use vstd::prelude::*;
use vstd::utf8::encode_utf8;

use crate::align::{AlignedRow, CellKind, Row};
use crate::text::{byte_offsets, byte_pos, chars_of, lemma_byte_pos_monotone, lemma_byte_pos_strict};

verus! {

/// Which side(s) of an [`AlignedRow`] a [`SearchMatch`] highlights. `Both` is a context row,
/// whose one line renders on both sides, so one match covers both.
#[derive(Debug, Clone, Copy, PartialEq, Eq, Structural)]
pub enum SearchSide {
    Old,
    New,
    Both,
}

/// One literal match: the row's index in the file's aligned rows, the row's 1-based old/new line
/// numbers (`None` on a filler side), which side(s), and the byte range `[start, end)` within
/// that line's text.
#[derive(Debug, Clone, Copy, PartialEq, Eq, Structural)]
pub struct SearchMatch {
    pub aligned_idx: usize,
    pub old_lineno: Option<usize>,
    pub new_lineno: Option<usize>,
    pub side: SearchSide,
    pub start: usize,
    pub end: usize,
}

// ---------------------------------------------------------------------------------------------
// Character classes from the standard library's Unicode tables
// ---------------------------------------------------------------------------------------------

/// The lowercase mapping of `c` per the Unicode tables (`char::to_lowercase`).
pub uninterp spec fn lowercase_of(c: char) -> Seq<char>;

/// Whether `c` has the Unicode `Uppercase` property (`char::is_uppercase`).
pub uninterp spec fn is_uppercase_char(c: char) -> bool;

/// Calls `char::to_lowercase` and collects the mapping. The standard library documents the
/// mapping as one or more characters taken from the Unicode tables; which characters is left to
/// those tables and named [`lowercase_of`].
#[verifier::external_body]
fn to_lowercase_chars(c: char) -> (r: Vec<char>)
    ensures
        r@ == lowercase_of(c),
        r@.len() >= 1,
{
    c.to_lowercase().collect()
}

/// Calls `char::is_uppercase`: whether `c` has the Unicode `Uppercase` property, named
/// [`is_uppercase_char`].
#[verifier::external_body]
fn char_is_uppercase(c: char) -> (r: bool)
    ensures
        r == is_uppercase_char(c),
{
    c.is_uppercase()
}

// ---------------------------------------------------------------------------------------------
// Specification
// ---------------------------------------------------------------------------------------------

/// Some character of `q` is uppercase (smartcase's switch to a case-sensitive search).
pub open spec fn has_uppercase(q: Seq<char>) -> bool {
    exists|i: int| 0 <= i < q.len() && #[trigger] is_uppercase_char(q[i])
}

/// The char-by-char lowercase folding of `s`.
pub open spec fn fold_lower(s: Seq<char>) -> Seq<char>
    decreases s.len(),
{
    if s.len() == 0 {
        Seq::<char>::empty()
    } else {
        fold_lower(s.drop_last()) + lowercase_of(s.last())
    }
}

/// `q` occurs at character position `i` of `h`.
pub open spec fn exact_at(h: Seq<char>, q: Seq<char>, i: int) -> bool {
    0 <= i && i + q.len() <= h.len() && h.subrange(i, i + q.len()) == q
}

/// Leftmost non-overlapping occurrences of `q` in `h` from position `i`, as character ranges.
pub open spec fn scan_exact(h: Seq<char>, q: Seq<char>, i: int) -> Seq<(int, int)>
    decreases h.len() - i,
{
    if q.len() == 0 || i < 0 || i + q.len() > h.len() {
        Seq::<(int, int)>::empty()
    } else if exact_at(h, q, i) {
        seq![(i, i + q.len())] + scan_exact(h, q, i + q.len())
    } else {
        scan_exact(h, q, i + 1)
    }
}

/// The characters `h[s..k]` fold to exactly `needle`.
pub open spec fn folds_to(h: Seq<char>, s: int, k: int, needle: Seq<char>) -> bool {
    0 <= s < k <= h.len() && fold_lower(h.subrange(s, k)) == needle
}

/// `k` is the first end at which the characters from `s` fold to `needle`.
pub open spec fn is_first_fold(h: Seq<char>, s: int, k: int, needle: Seq<char>) -> bool {
    folds_to(h, s, k, needle) && forall|k2: int| s < k2 < k ==> !#[trigger] folds_to(h, s, k2, needle)
}

/// The end (character position) of a case-folded match of `needle` starting at `s`, if any.
/// A needle that ends partway through one character's multi-character folding has no end.
pub open spec fn folded_match(h: Seq<char>, s: int, needle: Seq<char>) -> Option<int> {
    if exists|k: int| is_first_fold(h, s, k, needle) {
        Some(choose|k: int| is_first_fold(h, s, k, needle))
    } else {
        None
    }
}

/// Leftmost non-overlapping case-folded matches of `needle` in `h` from position `i`.
pub open spec fn scan_folded(h: Seq<char>, needle: Seq<char>, i: int) -> Seq<(int, int)>
    decreases h.len() - i,
{
    if i < 0 || i >= h.len() {
        Seq::<(int, int)>::empty()
    } else {
        match folded_match(h, i, needle) {
            Some(k) => if i < k <= h.len() {
                seq![(i, k)] + scan_folded(h, needle, k)
            } else {
                Seq::<(int, int)>::empty()
            },
            None => scan_folded(h, needle, i + 1),
        }
    }
}

/// A character range of `h` as a byte range of its UTF-8 encoding.
pub open spec fn byte_range(h: Seq<char>, r: (int, int)) -> (usize, usize) {
    (byte_pos(h, r.0) as usize, byte_pos(h, r.1) as usize)
}

/// Every non-overlapping literal match of `q` in `h`, left to right, as byte ranges. Smartcase:
/// case-sensitive when `q` has an uppercase character, otherwise a char-by-char lowercase fold
/// of both sides. No match for an empty query.
pub open spec fn find_all_spec(h: Seq<char>, q: Seq<char>) -> Seq<(usize, usize)> {
    if q.len() == 0 {
        Seq::<(usize, usize)>::empty()
    } else if has_uppercase(q) {
        scan_exact(h, q, 0).map_values(|r: (int, int)| byte_range(h, r))
    } else {
        scan_folded(h, fold_lower(q), 0).map_values(|r: (int, int)| byte_range(h, r))
    }
}

// ---------------------------------------------------------------------------------------------
// Lemmas
// ---------------------------------------------------------------------------------------------

proof fn lemma_fold_concat(a: Seq<char>, b: Seq<char>)
    ensures
        fold_lower(a + b) == fold_lower(a) + fold_lower(b),
    decreases b.len(),
{
    if b.len() == 0 {
        assert(a + b =~= a);
        assert(fold_lower(b) =~= Seq::<char>::empty());
        assert(fold_lower(a) + fold_lower(b) =~= fold_lower(a));
    } else {
        lemma_fold_concat(a, b.drop_last());
        assert((a + b).drop_last() =~= a + b.drop_last());
        assert((a + b).last() == b.last());
    }
}

proof fn lemma_first_fold_unique(h: Seq<char>, s: int, k1: int, k2: int, needle: Seq<char>)
    requires
        is_first_fold(h, s, k1, needle),
        is_first_fold(h, s, k2, needle),
    ensures
        k1 == k2,
{
    if k1 < k2 {
        assert(!folds_to(h, s, k1, needle));
    } else if k2 < k1 {
        assert(!folds_to(h, s, k2, needle));
    }
}

// ---------------------------------------------------------------------------------------------
// Executable search
// ---------------------------------------------------------------------------------------------

fn exact_match_at(h: &Vec<char>, q: &Vec<char>, i: usize) -> (r: bool)
    requires
        i + q@.len() <= h@.len(),
    ensures
        r == exact_at(h@, q@, i as int),
{
    let m = q.len();
    let hn = h.len();
    let mut j: usize = 0;
    while j < m
        invariant
            m == q@.len(),
            hn == h@.len(),
            i + m <= h@.len(),
            j <= m,
            h@.subrange(i as int, i + j) == q@.take(j as int),
        decreases m - j,
    {
        if h[i + j] != q[j] {
            proof {
                assert(h@.subrange(i as int, i + m)[j as int] == h@[i + j]);
            }
            return false;
        }
        proof {
            assert(h@.subrange(i as int, i + j + 1) =~= h@.subrange(i as int, i + j).push(h@[i + j]));
            assert(q@.take(j + 1) =~= q@.take(j as int).push(q@[j as int]));
        }
        j = j + 1;
    }
    proof {
        assert(q@.take(m as int) =~= q@);
    }
    true
}

/// Whether the case-folded `needle` matches `h` starting at character position `start`; on
/// success, the character position just past the match. The needle must be used up exactly at
/// a character boundary of `h`: a needle ending partway through one character's multi-character
/// lowercase expansion is not a match.
fn folded_match_at(h: &Vec<char>, start: usize, needle: &Vec<char>) -> (r: Option<usize>)
    requires
        start < h@.len(),
        needle@.len() > 0,
    ensures
        match folded_match(h@, start as int, needle@) {
            Some(k) => r == Some(k as usize) && start < k <= h@.len(),
            None => r is None,
        },
{
    let n = h.len();
    let m = needle.len();
    let ghost hs = h@;
    let ghost nd = needle@;
    let mut ni: usize = 0;
    let mut j: usize = start;
    while j < n
        invariant
            n == hs.len(),
            hs == h@,
            m == nd.len(),
            nd == needle@,
            m > 0,
            start <= j <= n,
            ni < m,
            fold_lower(hs.subrange(start as int, j as int)) == nd.take(ni as int),
            forall|k2: int| start < k2 <= j ==> !#[trigger] folds_to(hs, start as int, k2, nd),
        decreases n - j,
    {
        let c = h[j];
        let lc = to_lowercase_chars(c);
        let ghost ni0 = ni;
        proof {
            assert(hs.subrange(start as int, j + 1).drop_last() =~= hs.subrange(start as int, j as int));
            assert(hs.subrange(start as int, j + 1).last() == c);
        }
        let mut t: usize = 0;
        while t < lc.len()
            invariant
                n == hs.len(),
                hs == h@,
                m == nd.len(),
                nd == needle@,
                lc@ == lowercase_of(c),
                c == hs[j as int],
                start <= j < n,
                ni0 < m,
                t <= lc@.len(),
                ni == ni0 + t,
                ni <= m,
                fold_lower(hs.subrange(start as int, j as int)) == nd.take(ni0 as int),
                fold_lower(hs.subrange(start as int, j as int)) + lc@.take(t as int) == nd.take(
                    ni as int,
                ),
                forall|k2: int| start < k2 <= j ==> !#[trigger] folds_to(hs, start as int, k2, nd),
            decreases lc@.len() - t,
        {
            if ni >= m || lc[t] != needle[ni] {
                proof {
                    // The folding up to and including `c` already leaves the needle.
                    let x = fold_lower(hs.subrange(start as int, j + 1));
                    assert(hs.subrange(start as int, j + 1).drop_last() =~= hs.subrange(start as int, j as int));
                    assert(hs.subrange(start as int, j + 1).last() == c);
                    assert(x =~= fold_lower(hs.subrange(start as int, j as int)) + lc@);
                    assert(x.len() > ni);
                    assert(x[ni as int] == lc@[t as int]);
                    assert forall|k: int| start < k <= n implies !folds_to(hs, start as int, k, nd) by {
                        if k > j {
                            let rest = hs.subrange(j + 1, k);
                            assert(hs.subrange(start as int, k) =~= hs.subrange(start as int, j + 1) + rest);
                            lemma_fold_concat(hs.subrange(start as int, j + 1), rest);
                            let y = fold_lower(hs.subrange(start as int, k));
                            assert(y.len() >= x.len());
                            assert(y[ni as int] == x[ni as int]);
                            if ni < m {
                                assert(y != nd);
                            } else {
                                assert(y.len() > nd.len());
                            }
                        }
                    }
                    assert(!exists|k: int| is_first_fold(hs, start as int, k, nd));
                }
                return None;
            }
            proof {
                assert(lc@.take(t + 1) =~= lc@.take(t as int).push(lc@[t as int]));
                assert(nd.take(ni + 1) =~= nd.take(ni as int).push(nd[ni as int]));
            }
            ni = ni + 1;
            t = t + 1;
        }
        proof {
            assert(lc@.take(t as int) =~= lc@);
            assert(fold_lower(hs.subrange(start as int, j + 1)) =~= fold_lower(
                hs.subrange(start as int, j as int),
            ) + lc@);
        }
        j = j + 1;
        if ni == m {
            proof {
                assert(nd.take(m as int) =~= nd);
                assert(is_first_fold(hs, start as int, j as int, nd));
                let k = choose|k: int| is_first_fold(hs, start as int, k, nd);
                lemma_first_fold_unique(hs, start as int, j as int, k, nd);
            }
            return Some(j);
        }
        proof {
            assert(!folds_to(hs, start as int, j as int, nd)) by {
                assert(nd.take(ni as int).len() < nd.len());
            }
        }
    }
    proof {
        assert forall|k: int| start < k implies !#[trigger] is_first_fold(hs, start as int, k, nd) by {
        }
    }
    None
}

/// Smartcase literal search: every non-overlapping match of `query` in `haystack`, left to
/// right, as byte ranges of `haystack`. Case-sensitive when `query` has any uppercase
/// character; otherwise both sides are folded to lowercase char by char, and the reported
/// offsets still index the original text. Empty for an empty query.
pub fn find_all(haystack: &str, query: &str) -> (out: Vec<(usize, usize)>)
    ensures
        out@ == find_all_spec(haystack@, query@),
{
    let q = chars_of(query);
    if q.len() == 0 {
        return Vec::new();
    }
    let h = chars_of(haystack);
    let offs = byte_offsets(haystack, &h);
    let n = h.len();
    let m = q.len();

    let mut upper = false;
    let mut t: usize = 0;
    while t < m
        invariant
            m == q@.len(),
            t <= m,
            upper == exists|i: int| 0 <= i < t && #[trigger] is_uppercase_char(q@[i]),
        decreases m - t,
    {
        if char_is_uppercase(q[t]) {
            upper = true;
        }
        t = t + 1;
    }
    let ghost hs = h@;
    let ghost conv = |r: (int, int)| byte_range(hs, r);

    if upper {
        let mut out: Vec<(usize, usize)> = Vec::new();
        let mut i: usize = 0;
        while m <= n && i <= n - m
            invariant
                n == hs.len(),
                hs == h@,
                m == q@.len(),
                m > 0,
                offs@.len() == n + 1,
                forall|k: int| 0 <= k <= n ==> #[trigger] offs@[k] as int == byte_pos(hs, k),
                conv == (|r: (int, int)| byte_range(hs, r)),
                i <= n,
                scan_exact(hs, q@, 0).map_values(conv) == out@ + scan_exact(hs, q@, i as int).map_values(conv),
            decreases n - i,
        {
            if exact_match_at(&h, &q, i) {
                out.push((offs[i], offs[i + m]));
                proof {
                    let rest = scan_exact(hs, q@, (i + m) as int);
                    assert(scan_exact(hs, q@, i as int) == seq![(i as int, (i + m) as int)] + rest);
                    assert((seq![(i as int, (i + m) as int)] + rest).map_values(conv) =~= seq![
                        conv((i as int, (i + m) as int)),
                    ] + rest.map_values(conv));
                }
                i = i + m;
            } else {
                i = i + 1;
            }
        }
        proof {
            assert(scan_exact(hs, q@, i as int) =~= Seq::<(int, int)>::empty());
        }
        return out;
    }

    let mut needle: Vec<char> = Vec::new();
    let mut t2: usize = 0;
    while t2 < m
        invariant
            m == q@.len(),
            t2 <= m,
            needle@ == fold_lower(q@.take(t2 as int)),
            t2 > 0 ==> needle@.len() > 0,
        decreases m - t2,
    {
        let lc = to_lowercase_chars(q[t2]);
        let mut u: usize = 0;
        let ghost base = needle@;
        while u < lc.len()
            invariant
                u <= lc@.len(),
                needle@ == base + lc@.take(u as int),
            decreases lc@.len() - u,
        {
            needle.push(lc[u]);
            proof {
                assert(lc@.take(u + 1) =~= lc@.take(u as int).push(lc@[u as int]));
            }
            u = u + 1;
        }
        proof {
            assert(lc@.take(u as int) =~= lc@);
            assert(q@.take(t2 + 1).drop_last() =~= q@.take(t2 as int));
        }
        t2 = t2 + 1;
    }
    proof {
        assert(q@.take(m as int) =~= q@);
    }

    let mut out: Vec<(usize, usize)> = Vec::new();
    let mut i: usize = 0;
    while i < n
        invariant
            n == hs.len(),
            hs == h@,
            needle@ == fold_lower(q@),
            needle@.len() > 0,
            offs@.len() == n + 1,
            forall|k: int| 0 <= k <= n ==> #[trigger] offs@[k] as int == byte_pos(hs, k),
            conv == (|r: (int, int)| byte_range(hs, r)),
            i <= n,
            scan_folded(hs, needle@, 0).map_values(conv) == out@ + scan_folded(hs, needle@, i as int).map_values(conv),
        decreases n - i,
    {
        match folded_match_at(&h, i, &needle) {
            Some(k) => {
                out.push((offs[i], offs[k]));
                proof {
                    let rest = scan_folded(hs, needle@, k as int);
                    assert(scan_folded(hs, needle@, i as int) == seq![(i as int, k as int)] + rest);
                    assert((seq![(i as int, k as int)] + rest).map_values(conv) =~= seq![
                        conv((i as int, k as int)),
                    ] + rest.map_values(conv));
                }
                i = k;
            },
            None => {
                i = i + 1;
            },
        }
    }
    proof {
        assert(scan_folded(hs, needle@, i as int) =~= Seq::<(int, int)>::empty());
    }
    out
}

// ---------------------------------------------------------------------------------------------
// Matching over aligned rows
// ---------------------------------------------------------------------------------------------

/// The 1-based line number a row side carries, `None` for filler.
pub open spec fn lineno_of(r: Row) -> Option<usize> {
    match r {
        Row::Line(n) => Some(n),
        Row::Filler => None,
    }
}

/// The text of 1-based line `n` of `lines` (empty past either end).
pub open spec fn line_text(lines: Seq<String>, n: usize) -> Seq<char> {
    if 1 <= n && n <= lines.len() {
        lines[n - 1]@
    } else {
        Seq::<char>::empty()
    }
}

/// Byte ranges turned into matches on row `idx`, side `side`.
pub open spec fn as_matches(
    ranges: Seq<(usize, usize)>,
    idx: int,
    old_lineno: Option<usize>,
    new_lineno: Option<usize>,
    side: SearchSide,
) -> Seq<SearchMatch> {
    ranges.map_values(
        |r: (usize, usize)|
            SearchMatch {
                aligned_idx: idx as usize,
                old_lineno,
                new_lineno,
                side,
                start: r.0,
                end: r.1,
            },
    )
}

/// The matches of `q` on one aligned row. A context row (context on both sides) is scanned
/// once, on its new-side line, and reported as `Both`; any other row is scanned on each side
/// that carries a line (old first), reported as `Old` or `New`.
pub open spec fn row_matches(
    idx: int,
    row: AlignedRow,
    q: Seq<char>,
    old_lines: Seq<String>,
    new_lines: Seq<String>,
) -> Seq<SearchMatch> {
    if row.old_kind == CellKind::Context && row.new_kind == CellKind::Context {
        match row.new {
            Row::Line(n) => as_matches(
                find_all_spec(line_text(new_lines, n), q),
                idx,
                lineno_of(row.old),
                Some(n),
                SearchSide::Both,
            ),
            Row::Filler => Seq::<SearchMatch>::empty(),
        }
    } else {
        (match row.old {
            Row::Line(n) => as_matches(
                find_all_spec(line_text(old_lines, n), q),
                idx,
                Some(n),
                lineno_of(row.new),
                SearchSide::Old,
            ),
            Row::Filler => Seq::<SearchMatch>::empty(),
        }) + (match row.new {
            Row::Line(n) => as_matches(
                find_all_spec(line_text(new_lines, n), q),
                idx,
                lineno_of(row.old),
                Some(n),
                SearchSide::New,
            ),
            Row::Filler => Seq::<SearchMatch>::empty(),
        })
    }
}

/// The matches of `q` on every row of `rows`, in row order.
pub open spec fn all_matches(
    rows: Seq<AlignedRow>,
    q: Seq<char>,
    old_lines: Seq<String>,
    new_lines: Seq<String>,
) -> Seq<SearchMatch>
    decreases rows.len(),
{
    if rows.len() == 0 {
        Seq::<SearchMatch>::empty()
    } else {
        all_matches(rows.drop_last(), q, old_lines, new_lines) + row_matches(
            rows.len() - 1,
            rows.last(),
            q,
            old_lines,
            new_lines,
        )
    }
}

/// The 1-based line number a row side carries, `None` for filler.
pub fn row_lineno(row: Row) -> (r: Option<usize>)
    ensures
        r == lineno_of(row),
{
    match row {
        Row::Line(n) => Some(n),
        Row::Filler => None,
    }
}

fn line_of(lines: &[String], n: usize) -> (s: &str)
    ensures
        s@ == line_text(lines@, n),
{
    if n >= 1 && n <= lines.len() {
        lines[n - 1].as_str()
    } else {
        proof {
            assert(""@ =~= Seq::<char>::empty()) by {
                reveal_strlit("");
            }
        }
        ""
    }
}

fn push_matches(
    out: &mut Vec<SearchMatch>,
    ranges: &Vec<(usize, usize)>,
    idx: usize,
    old_lineno: Option<usize>,
    new_lineno: Option<usize>,
    side: SearchSide,
)
    ensures
        final(out)@ == old(out)@ + as_matches(ranges@, idx as int, old_lineno, new_lineno, side),
{
    let n = ranges.len();
    let mut i: usize = 0;
    while i < n
        invariant
            n == ranges@.len(),
            i <= n,
            out@ == old(out)@ + as_matches(ranges@.take(i as int), idx as int, old_lineno, new_lineno, side),
        decreases n - i,
    {
        let (start, end) = ranges[i];
        out.push(SearchMatch { aligned_idx: idx, old_lineno, new_lineno, side, start, end });
        proof {
            assert(ranges@.take(i + 1) =~= ranges@.take(i as int).push(ranges@[i as int]));
            assert(as_matches(ranges@.take(i + 1), idx as int, old_lineno, new_lineno, side)
                =~= as_matches(ranges@.take(i as int), idx as int, old_lineno, new_lineno, side).push(
                SearchMatch { aligned_idx: idx, old_lineno, new_lineno, side, start, end },
            ));
        }
        i = i + 1;
    }
    proof {
        assert(ranges@.take(n as int) =~= ranges@);
    }
}

/// Scan every row of `rows` (a file's pre-collapse aligned rows) for literal, smartcase
/// matches of `query`, hidden context rows exactly like visible ones. `old_lines`/`new_lines`
/// hold the file's old/new text, line `n` at index `n - 1`.
///
/// A context row is scanned once (its new-side text) and reported as [`SearchSide::Both`]; any
/// other row is scanned on whichever side(s) carry a [`Row::Line`].
pub fn compute_matches(
    rows: &[AlignedRow],
    query: &str,
    old_lines: &[String],
    new_lines: &[String],
) -> (out: Vec<SearchMatch>)
    ensures
        out@ == all_matches(rows@, query@, old_lines@, new_lines@),
        forall|k: int| 0 <= k < out@.len() ==> lies_on_its_line(#[trigger] out@[k], rows@, query@, old_lines@, new_lines@),
        reports_every_match(out@, rows@, query@, old_lines@, new_lines@),
{
    let n = rows.len();
    proof {
        lemma_matches_lie_on_their_lines(rows@, query@, old_lines@, new_lines@);
        lemma_every_match_is_reported(rows@, query@, old_lines@, new_lines@);
    }
    let mut out: Vec<SearchMatch> = Vec::new();
    if query.is_empty() {
        proof {
            lemma_empty_query_no_matches(rows@, query@, old_lines@, new_lines@);
        }
        return out;
    }
    let mut idx: usize = 0;
    while idx < n
        invariant
            n == rows@.len(),
            idx <= n,
            out@ == all_matches(rows@.take(idx as int), query@, old_lines@, new_lines@),
        decreases n - idx,
    {
        let row = rows[idx];
        let ghost before = out@;
        if row.old_kind == CellKind::Context && row.new_kind == CellKind::Context {
            if let Row::Line(ln) = row.new {
                let found = find_all(line_of(new_lines, ln), query);
                push_matches(&mut out, &found, idx, row_lineno(row.old), Some(ln), SearchSide::Both);
            }
        } else {
            if let Row::Line(ln) = row.old {
                let found = find_all(line_of(old_lines, ln), query);
                push_matches(&mut out, &found, idx, Some(ln), row_lineno(row.new), SearchSide::Old);
            }
            if let Row::Line(ln) = row.new {
                let found = find_all(line_of(new_lines, ln), query);
                push_matches(&mut out, &found, idx, row_lineno(row.old), Some(ln), SearchSide::New);
            }
        }
        proof {
            assert(rows@.take(idx + 1).drop_last() =~= rows@.take(idx as int));
            assert(rows@.take(idx + 1).last() == row);
            assert(out@ =~= before + row_matches(idx as int, row, query@, old_lines@, new_lines@));
        }
        idx = idx + 1;
    }
    proof {
        assert(rows@.take(n as int) =~= rows@);
    }
    out
}

proof fn lemma_empty_query_no_matches(
    rows: Seq<AlignedRow>,
    q: Seq<char>,
    old_lines: Seq<String>,
    new_lines: Seq<String>,
)
    requires
        q.len() == 0,
    ensures
        all_matches(rows, q, old_lines, new_lines) =~= Seq::<SearchMatch>::empty(),
    decreases rows.len(),
{
    if rows.len() > 0 {
        lemma_empty_query_no_matches(rows.drop_last(), q, old_lines, new_lines);
    }
}


// ---------------------------------------------------------------------------------------------
// Laws of the search
// ---------------------------------------------------------------------------------------------

/// Character ranges inside `[lo, hi]`, each non-empty, in increasing non-overlapping order.
pub open spec fn ordered_ranges(rs: Seq<(int, int)>, lo: int, hi: int) -> bool {
    &&& forall|k: int| 0 <= k < rs.len() ==> lo <= (#[trigger] rs[k]).0 < rs[k].1 <= hi
    &&& forall|k: int, l: int| 0 <= k < l < rs.len() ==> (#[trigger] rs[k]).1 <= (#[trigger] rs[l]).0
}

proof fn lemma_ordered_prepend(r: (int, int), rest: Seq<(int, int)>, lo: int, hi: int)
    requires
        lo <= r.0 < r.1 <= hi,
        ordered_ranges(rest, r.1, hi),
    ensures
        ordered_ranges(seq![r] + rest, lo, hi),
{
    let all = seq![r] + rest;
    assert forall|k: int| 0 <= k < all.len() implies lo <= (#[trigger] all[k]).0 < all[k].1 <= hi by {
        if k > 0 {
            assert(all[k] == rest[k - 1]);
        }
    }
    assert forall|k: int, l: int| 0 <= k < l < all.len() implies (#[trigger] all[k]).1
        <= (#[trigger] all[l]).0 by {
        assert(all[l] == rest[l - 1]);
        if k > 0 {
            assert(all[k] == rest[k - 1]);
        }
    }
}

proof fn lemma_scan_exact_ordered(h: Seq<char>, q: Seq<char>, i: int)
    requires
        0 <= i,
    ensures
        ordered_ranges(scan_exact(h, q, i), i, h.len() as int),
    decreases h.len() - i,
{
    if q.len() == 0 || i + q.len() > h.len() {
    } else if exact_at(h, q, i) {
        lemma_scan_exact_ordered(h, q, i + q.len());
        lemma_ordered_prepend((i, i + q.len()), scan_exact(h, q, i + q.len()), i, h.len() as int);
    } else {
        lemma_scan_exact_ordered(h, q, i + 1);
    }
}

proof fn lemma_scan_folded_ordered(h: Seq<char>, needle: Seq<char>, i: int)
    requires
        0 <= i,
    ensures
        ordered_ranges(scan_folded(h, needle, i), i, h.len() as int),
    decreases h.len() - i,
{
    if i >= h.len() {
    } else {
        match folded_match(h, i, needle) {
            Some(k) => {
                if i < k <= h.len() {
                    lemma_scan_folded_ordered(h, needle, k);
                    lemma_ordered_prepend((i, k), scan_folded(h, needle, k), i, h.len() as int);
                }
            },
            None => {
                lemma_scan_folded_ordered(h, needle, i + 1);
            },
        }
    }
}

proof fn lemma_byte_ranges_ordered(h: Seq<char>, rs: Seq<(int, int)>)
    requires
        ordered_ranges(rs, 0, h.len() as int),
        encode_utf8(h).len() <= usize::MAX,
    ensures
        ({
            let bs = rs.map_values(|r: (int, int)| byte_range(h, r));
            &&& forall|k: int| 0 <= k < bs.len() ==> (#[trigger] bs[k]).0 < bs[k].1 && bs[k].1
                <= encode_utf8(h).len()
            &&& forall|k: int, l: int| 0 <= k < l < bs.len() ==> (#[trigger] bs[k]).1 <= (
            #[trigger] bs[l]).0
        }),
{
    let bs = rs.map_values(|r: (int, int)| byte_range(h, r));
    assert forall|k: int| 0 <= k < bs.len() implies (#[trigger] bs[k]).0 < bs[k].1 && bs[k].1
        <= encode_utf8(h).len() by {
        let r = rs[k];
        lemma_byte_pos_strict(h, r.0, r.1);
        lemma_byte_pos_monotone(h, r.1, h.len() as int);
        lemma_byte_pos_monotone(h, 0, r.0);
    }
    assert forall|k: int, l: int| 0 <= k < l < bs.len() implies (#[trigger] bs[k]).1 <= (
    #[trigger] bs[l]).0 by {
        let a = rs[k];
        let b = rs[l];
        lemma_byte_pos_monotone(h, a.1, b.0);
        lemma_byte_pos_monotone(h, b.0, h.len() as int);
        lemma_byte_pos_monotone(h, 0, a.1);
    }
}

/// Every match [`find_all`] reports is a non-empty byte range inside the text, and the matches
/// come left to right without overlapping.
pub proof fn lemma_find_all_ordered(h: Seq<char>, q: Seq<char>)
    requires
        encode_utf8(h).len() <= usize::MAX,
    ensures
        ({
            let ms = find_all_spec(h, q);
            &&& forall|k: int| 0 <= k < ms.len() ==> (#[trigger] ms[k]).0 < ms[k].1 && ms[k].1
                <= encode_utf8(h).len()
            &&& forall|k: int, l: int| 0 <= k < l < ms.len() ==> (#[trigger] ms[k]).1 <= (
            #[trigger] ms[l]).0
        }),
{
    if q.len() == 0 {
    } else if has_uppercase(q) {
        lemma_scan_exact_ordered(h, q, 0);
        lemma_byte_ranges_ordered(h, scan_exact(h, q, 0));
    } else {
        lemma_scan_folded_ordered(h, fold_lower(q), 0);
        lemma_byte_ranges_ordered(h, scan_folded(h, fold_lower(q), 0));
    }
}

proof fn lemma_scan_exact_hits(h: Seq<char>, q: Seq<char>, i: int)
    requires
        0 <= i,
    ensures
        forall|k: int|
            0 <= k < scan_exact(h, q, i).len() ==> exact_at(h, q, (#[trigger] scan_exact(h, q, i)[k]).0)
                && scan_exact(h, q, i)[k].1 == scan_exact(h, q, i)[k].0 + q.len(),
    decreases h.len() - i,
{
    if q.len() == 0 || i + q.len() > h.len() {
    } else if exact_at(h, q, i) {
        lemma_scan_exact_hits(h, q, i + q.len());
        let rest = scan_exact(h, q, i + q.len());
        assert(scan_exact(h, q, i) == seq![(i, i + q.len())] + rest);
        assert forall|k: int| 0 <= k < scan_exact(h, q, i).len() implies exact_at(
            h,
            q,
            (#[trigger] scan_exact(h, q, i)[k]).0,
        ) && scan_exact(h, q, i)[k].1 == scan_exact(h, q, i)[k].0 + q.len() by {
            if k > 0 {
                assert(scan_exact(h, q, i)[k] == rest[k - 1]);
            }
        }
    } else {
        lemma_scan_exact_hits(h, q, i + 1);
        assert(scan_exact(h, q, i) == scan_exact(h, q, i + 1));
    }
}

/// In a case-sensitive search (the query has an uppercase character), the bytes of the text in
/// every reported range are exactly the bytes of the query.
pub proof fn lemma_sensitive_match_bytes(h: Seq<char>, q: Seq<char>)
    requires
        q.len() > 0,
        has_uppercase(q),
        encode_utf8(h).len() <= usize::MAX,
    ensures
        forall|k: int|
            0 <= k < find_all_spec(h, q).len() ==> encode_utf8(h).subrange(
                (#[trigger] find_all_spec(h, q)[k]).0 as int,
                find_all_spec(h, q)[k].1 as int,
            ) == encode_utf8(q),
{
    let rs = scan_exact(h, q, 0);
    lemma_scan_exact_hits(h, q, 0);
    lemma_scan_exact_ordered(h, q, 0);
    assert forall|k: int| 0 <= k < find_all_spec(h, q).len() implies encode_utf8(h).subrange(
        (#[trigger] find_all_spec(h, q)[k]).0 as int,
        find_all_spec(h, q)[k].1 as int,
    ) == encode_utf8(q) by {
        let a = rs[k].0;
        let b = rs[k].1;
        assert(rs[k] == (a, b));
        assert(exact_at(h, q, a));
        assert(h.subrange(a, b) == q);
        let pre = h.take(a);
        let mid = h.subrange(a, b);
        let post = h.skip(b);
        assert(h =~= pre + mid + post);
        crate::text::lemma_encode_concat(pre, mid);
        crate::text::lemma_encode_concat(pre + mid, post);
        assert(h.take(b) =~= pre + mid);
        lemma_byte_pos_monotone(h, b, h.len() as int);
        lemma_byte_pos_monotone(h, 0, a);
        assert(encode_utf8(h).subrange(byte_pos(h, a), byte_pos(h, b)) =~= encode_utf8(mid));
    }
}

/// Whether both sides of `row` are context: such a row is scanned once, as `Both`.
pub open spec fn context_row(row: AlignedRow) -> bool {
    row.old_kind == CellKind::Context && row.new_kind == CellKind::Context
}

/// Match `m` lies on the line it names: its row is one of `rows`, its line numbers are that
/// row's, and its byte range is a match of `q` in the text of the side it reports. An `Old`
/// match lies in the old file's line of a row that is not all context; a `New` match in the new
/// file's line of such a row; a `Both` match in the new file's line of a context row.
pub open spec fn lies_on_its_line(
    m: SearchMatch,
    rows: Seq<AlignedRow>,
    q: Seq<char>,
    old_lines: Seq<String>,
    new_lines: Seq<String>,
) -> bool {
    let i = m.aligned_idx as int;
    &&& 0 <= i < rows.len()
    &&& m.old_lineno == lineno_of(rows[i].old)
    &&& m.new_lineno == lineno_of(rows[i].new)
    &&& match m.side {
        SearchSide::Old => !context_row(rows[i]) && (rows[i].old matches Row::Line(n)
            && find_all_spec(line_text(old_lines, n), q).contains((m.start, m.end))),
        SearchSide::New => !context_row(rows[i]) && (rows[i].new matches Row::Line(n)
            && find_all_spec(line_text(new_lines, n), q).contains((m.start, m.end))),
        SearchSide::Both => context_row(rows[i]) && (rows[i].new matches Row::Line(n)
            && find_all_spec(line_text(new_lines, n), q).contains((m.start, m.end))),
    }
}

/// Every match of a row's scan lies on its line.
proof fn lemma_row_matches_lie_on_their_lines(
    idx: int,
    rows: Seq<AlignedRow>,
    q: Seq<char>,
    old_lines: Seq<String>,
    new_lines: Seq<String>,
)
    requires
        0 <= idx < rows.len(),
        idx <= usize::MAX,
    ensures
        forall|k: int|
            0 <= k < row_matches(idx, rows[idx], q, old_lines, new_lines).len() ==> lies_on_its_line(
                #[trigger] row_matches(idx, rows[idx], q, old_lines, new_lines)[k],
                rows,
                q,
                old_lines,
                new_lines,
            ),
{
    let row = rows[idx];
    let ms = row_matches(idx, row, q, old_lines, new_lines);
    assert forall|k: int| 0 <= k < ms.len() implies lies_on_its_line(#[trigger] ms[k], rows, q, old_lines, new_lines) by {
        if context_row(row) {
            if let Row::Line(n) = row.new {
                let rs = find_all_spec(line_text(new_lines, n), q);
                assert(ms[k].start == rs[k].0 && ms[k].end == rs[k].1);
                assert(rs.contains((ms[k].start, ms[k].end)));
            }
        } else {
            let olds = match row.old {
                Row::Line(n) => as_matches(find_all_spec(line_text(old_lines, n), q), idx, Some(n), lineno_of(row.new), SearchSide::Old),
                Row::Filler => Seq::<SearchMatch>::empty(),
            };
            let news = match row.new {
                Row::Line(n) => as_matches(find_all_spec(line_text(new_lines, n), q), idx, lineno_of(row.old), Some(n), SearchSide::New),
                Row::Filler => Seq::<SearchMatch>::empty(),
            };
            assert(ms == olds + news);
            if k < olds.len() {
                if let Row::Line(n) = row.old {
                    let rs = find_all_spec(line_text(old_lines, n), q);
                    assert(ms[k] == olds[k]);
                    assert(ms[k].start == rs[k].0 && ms[k].end == rs[k].1);
                    assert(rs.contains((ms[k].start, ms[k].end)));
                }
            } else {
                if let Row::Line(n) = row.new {
                    let rs = find_all_spec(line_text(new_lines, n), q);
                    let j = k - olds.len();
                    assert(ms[k] == news[j]);
                    assert(ms[k].start == rs[j].0 && ms[k].end == rs[j].1);
                    assert(rs.contains((ms[k].start, ms[k].end)));
                }
            }
        }
    }
}

/// Every match the search reports lies on the line it names (see [`lies_on_its_line`]): a match
/// on the old side of a deleted or changed row is a match of the query in the old file's text
/// of that line, one on the new side or on a context row a match in the new file's text.
pub proof fn lemma_matches_lie_on_their_lines(
    rows: Seq<AlignedRow>,
    q: Seq<char>,
    old_lines: Seq<String>,
    new_lines: Seq<String>,
)
    requires
        rows.len() <= usize::MAX + 1,
    ensures
        forall|k: int|
            0 <= k < all_matches(rows, q, old_lines, new_lines).len() ==> lies_on_its_line(
                #[trigger] all_matches(rows, q, old_lines, new_lines)[k],
                rows,
                q,
                old_lines,
                new_lines,
            ),
    decreases rows.len(),
{
    if rows.len() > 0 {
        let pre = rows.drop_last();
        lemma_matches_lie_on_their_lines(pre, q, old_lines, new_lines);
        lemma_row_matches_lie_on_their_lines(rows.len() - 1, rows, q, old_lines, new_lines);
        let a = all_matches(pre, q, old_lines, new_lines);
        let b = row_matches(rows.len() - 1, rows.last(), q, old_lines, new_lines);
        let ms = all_matches(rows, q, old_lines, new_lines);
        assert(ms == a + b);
        assert forall|k: int| 0 <= k < ms.len() implies lies_on_its_line(#[trigger] ms[k], rows, q, old_lines, new_lines) by {
            if k < a.len() {
                assert(ms[k] == a[k]);
                assert(lies_on_its_line(a[k], pre, q, old_lines, new_lines));
                assert(pre[a[k].aligned_idx as int] == rows[a[k].aligned_idx as int]);
            } else {
                assert(ms[k] == b[k - a.len()]);
            }
        }
    }
}

/// The match on side `side` of row `idx` for the byte range `r`.
pub open spec fn match_at(row: AlignedRow, idx: int, side: SearchSide, r: (usize, usize)) -> SearchMatch {
    SearchMatch {
        aligned_idx: idx as usize,
        old_lineno: lineno_of(row.old),
        new_lineno: lineno_of(row.new),
        side,
        start: r.0,
        end: r.1,
    }
}

/// Every match of the query in a scanned line is reported: on a row that is not all context,
/// each match in the old file's line (as `Old`) and in the new file's line (as `New`); on a
/// context row, each match in the new file's line (as `Both`).
pub open spec fn reports_every_match(
    ms: Seq<SearchMatch>,
    rows: Seq<AlignedRow>,
    q: Seq<char>,
    old_lines: Seq<String>,
    new_lines: Seq<String>,
) -> bool {
    forall|idx: int, r: (usize, usize)|
        #![trigger rows[idx], find_all_spec(line_text(old_lines, lineno_of(rows[idx].old)->0), q).contains(r)]
        #![trigger rows[idx], find_all_spec(line_text(new_lines, lineno_of(rows[idx].new)->0), q).contains(r)]
        0 <= idx < rows.len() ==> {
            &&& (!context_row(rows[idx]) && rows[idx].old is Line && find_all_spec(
                line_text(old_lines, lineno_of(rows[idx].old)->0),
                q,
            ).contains(r)) ==> ms.contains(match_at(rows[idx], idx, SearchSide::Old, r))
            &&& (!context_row(rows[idx]) && rows[idx].new is Line && find_all_spec(
                line_text(new_lines, lineno_of(rows[idx].new)->0),
                q,
            ).contains(r)) ==> ms.contains(match_at(rows[idx], idx, SearchSide::New, r))
            &&& (context_row(rows[idx]) && rows[idx].new is Line && find_all_spec(
                line_text(new_lines, lineno_of(rows[idx].new)->0),
                q,
            ).contains(r)) ==> ms.contains(match_at(rows[idx], idx, SearchSide::Both, r))
        }
}

/// A row's scan reports every match of the query in the lines it scans.
proof fn lemma_row_reports_every_match(
    idx: int,
    row: AlignedRow,
    q: Seq<char>,
    old_lines: Seq<String>,
    new_lines: Seq<String>,
    r: (usize, usize),
)
    requires
        0 <= idx <= usize::MAX,
    ensures
        ({
            let ms = row_matches(idx, row, q, old_lines, new_lines);
            &&& (!context_row(row) && row.old is Line && find_all_spec(line_text(old_lines, lineno_of(row.old)->0), q).contains(r))
                ==> ms.contains(match_at(row, idx, SearchSide::Old, r))
            &&& (!context_row(row) && row.new is Line && find_all_spec(line_text(new_lines, lineno_of(row.new)->0), q).contains(r))
                ==> ms.contains(match_at(row, idx, SearchSide::New, r))
            &&& (context_row(row) && row.new is Line && find_all_spec(line_text(new_lines, lineno_of(row.new)->0), q).contains(r))
                ==> ms.contains(match_at(row, idx, SearchSide::Both, r))
        }),
{
    let ms = row_matches(idx, row, q, old_lines, new_lines);
    if context_row(row) {
        if let Row::Line(n) = row.new {
            let rs = find_all_spec(line_text(new_lines, n), q);
            if rs.contains(r) {
                let j = choose|j: int| 0 <= j < rs.len() && rs[j] == r;
                assert(ms[j] == match_at(row, idx, SearchSide::Both, r));
            }
        }
    } else {
        let olds = match row.old {
            Row::Line(n) => as_matches(find_all_spec(line_text(old_lines, n), q), idx, Some(n), lineno_of(row.new), SearchSide::Old),
            Row::Filler => Seq::<SearchMatch>::empty(),
        };
        let news = match row.new {
            Row::Line(n) => as_matches(find_all_spec(line_text(new_lines, n), q), idx, lineno_of(row.old), Some(n), SearchSide::New),
            Row::Filler => Seq::<SearchMatch>::empty(),
        };
        assert(ms == olds + news);
        if let Row::Line(n) = row.old {
            let rs = find_all_spec(line_text(old_lines, n), q);
            if rs.contains(r) {
                let j = choose|j: int| 0 <= j < rs.len() && rs[j] == r;
                assert(ms[j] == match_at(row, idx, SearchSide::Old, r));
            }
        }
        if let Row::Line(n) = row.new {
            let rs = find_all_spec(line_text(new_lines, n), q);
            if rs.contains(r) {
                let j = choose|j: int| 0 <= j < rs.len() && rs[j] == r;
                assert(ms[olds.len() + j] == match_at(row, idx, SearchSide::New, r));
            }
        }
    }
}

/// The search reports every match of the query in every line it scans (see
/// [`reports_every_match`]).
pub proof fn lemma_every_match_is_reported(
    rows: Seq<AlignedRow>,
    q: Seq<char>,
    old_lines: Seq<String>,
    new_lines: Seq<String>,
)
    requires
        rows.len() <= usize::MAX + 1,
    ensures
        reports_every_match(all_matches(rows, q, old_lines, new_lines), rows, q, old_lines, new_lines),
    decreases rows.len(),
{
    if rows.len() > 0 {
        let pre = rows.drop_last();
        lemma_every_match_is_reported(pre, q, old_lines, new_lines);
        let a = all_matches(pre, q, old_lines, new_lines);
        let b = row_matches(rows.len() - 1, rows.last(), q, old_lines, new_lines);
        let ms = all_matches(rows, q, old_lines, new_lines);
        assert(ms == a + b);
        assert forall|idx: int, r: (usize, usize)| 0 <= idx < rows.len() implies {
            &&& (!context_row(rows[idx]) && rows[idx].old is Line && find_all_spec(
                line_text(old_lines, lineno_of(rows[idx].old)->0),
                q,
            ).contains(r)) ==> ms.contains(match_at(rows[idx], idx, SearchSide::Old, r))
            &&& (!context_row(rows[idx]) && rows[idx].new is Line && find_all_spec(
                line_text(new_lines, lineno_of(rows[idx].new)->0),
                q,
            ).contains(r)) ==> ms.contains(match_at(rows[idx], idx, SearchSide::New, r))
            &&& (context_row(rows[idx]) && rows[idx].new is Line && find_all_spec(
                line_text(new_lines, lineno_of(rows[idx].new)->0),
                q,
            ).contains(r)) ==> ms.contains(match_at(rows[idx], idx, SearchSide::Both, r))
        } by {
            if idx < pre.len() {
                assert(pre[idx] == rows[idx]);
                assert forall|m: SearchMatch| a.contains(m) implies ms.contains(m) by {
                    let j = choose|j: int| 0 <= j < a.len() && a[j] == m;
                    assert(ms[j] == m);
                }
            } else {
                lemma_row_reports_every_match(idx, rows[idx], q, old_lines, new_lines, r);
                assert forall|m: SearchMatch| b.contains(m) implies ms.contains(m) by {
                    let j = choose|j: int| 0 <= j < b.len() && b[j] == m;
                    assert(ms[a.len() + j] == m);
                }
            }
        }
    }
}

} // verus!
