//! Classifying a review `<source>` argument: the bare keywords `stack` and `uncommitted`, a
//! `base..head` / `base...head` range, or anything else as a candidate ref. Classification is
//! pure and case-sensitive: `refs/heads/stack` is a ref, not the keyword.
use vstd::prelude::*;
use vstd::string::{StrSliceExecFns, StringExecFns};

use crate::text::{chars_of, same_chars};

verus! {

/// Which dot form a [`Source::Range`] was spelled with.
#[derive(Debug, Clone, Copy, PartialEq, Eq, Structural)]
pub enum RangeDots {
    /// `a..b`: base `a`, head `b`.
    Two,
    /// `a...b`: base `merge-base(a, b)`, head `b`.
    Three,
}

/// What a review source argument was classified as.
#[derive(Debug, Clone, PartialEq, Eq)]
pub enum Source {
    /// The exact bare word `stack`.
    Stack,
    /// The exact bare word `uncommitted`.
    Uncommitted,
    /// `<base>..<head>` or `<base>...<head>`; either side may be empty.
    Range { base_text: String, head_text: String, dots: RangeDots },
    /// Everything else: a candidate ref.
    Ref(String),
}

/// The mathematical value of a [`Source`].
pub enum SourceView {
    Stack,
    Uncommitted,
    Range { base_text: Seq<char>, head_text: Seq<char>, dots: RangeDots },
    Ref(Seq<char>),
}

impl View for Source {
    type V = SourceView;

    open spec fn view(&self) -> SourceView {
        match self {
            Source::Stack => SourceView::Stack,
            Source::Uncommitted => SourceView::Uncommitted,
            Source::Range { base_text, head_text, dots } => SourceView::Range {
                base_text: base_text@,
                head_text: head_text@,
                dots: *dots,
            },
            Source::Ref(t) => SourceView::Ref(t@),
        }
    }
}

/// The keyword `stack`.
pub open spec fn stack_word() -> Seq<char> {
    seq!['s', 't', 'a', 'c', 'k']
}

/// The keyword `uncommitted`.
pub open spec fn uncommitted_word() -> Seq<char> {
    seq!['u', 'n', 'c', 'o', 'm', 'm', 'i', 't', 't', 'e', 'd']
}

/// A run of `k` dots.
pub open spec fn dots(k: nat) -> Seq<char> {
    Seq::new(k, |i: int| '.')
}

/// The first position at or after `i` where `pat` occurs in `t`.
pub open spec fn find_from(t: Seq<char>, pat: Seq<char>, i: int) -> Option<int>
    decreases t.len() + 1 - i,
{
    if i < 0 || i + pat.len() > t.len() {
        None
    } else if t.subrange(i, i + pat.len()) == pat {
        Some(i)
    } else {
        find_from(t, pat, i + 1)
    }
}

/// The classification of `t`: an exact bare keyword, else a three-dot range split at the first
/// `...`, else a two-dot range split at the first `..`, else a ref.
pub open spec fn classify_spec(t: Seq<char>) -> SourceView {
    if t == stack_word() {
        SourceView::Stack
    } else if t == uncommitted_word() {
        SourceView::Uncommitted
    } else {
        match find_from(t, dots(3), 0) {
            Some(i) => SourceView::Range {
                base_text: t.take(i),
                head_text: t.skip(i + 3),
                dots: RangeDots::Three,
            },
            None => match find_from(t, dots(2), 0) {
                Some(i) => SourceView::Range {
                    base_text: t.take(i),
                    head_text: t.skip(i + 2),
                    dots: RangeDots::Two,
                },
                None => SourceView::Ref(t),
            },
        }
    }
}

/// The first position of a run of `k` dots in `t`.
fn find_dots(t: &Vec<char>, k: usize) -> (r: Option<usize>)
    requires
        1 <= k <= 3,
    ensures
        r matches Some(j) ==> find_from(t@, dots(k as nat), 0) == Some(j as int) && j + k <= t@.len(),
        r is None ==> find_from(t@, dots(k as nat), 0) is None,
{
    let n = t.len();
    if n < k {
        return None;
    }
    let mut i: usize = 0;
    while i <= n - k
        invariant
            n == t@.len(),
            k <= n,
            1 <= k <= 3,
            i <= n - k + 1,
            find_from(t@, dots(k as nat), 0) == find_from(t@, dots(k as nat), i as int),
        decreases n - k + 1 - i,
    {
        let mut all = true;
        let mut j: usize = 0;
        proof {
            assert(t@.subrange(i as int, i as int) =~= dots(0));
        }
        while j < k
            invariant
                n == t@.len(),
                k <= n,
                i <= n - k,
                j <= k,
                all == (t@.subrange(i as int, i + j) == dots(j as nat)),
            decreases k - j,
        {
            if all && t[i + j] != '.' {
                proof {
                    assert(t@.subrange(i as int, i + j + 1)[j as int] == t@[i + j]);
                }
                all = false;
            } else if all {
                proof {
                    assert(t@.subrange(i as int, i + j + 1) =~= dots((j + 1) as nat));
                }
            } else {
                proof {
                    if t@.subrange(i as int, i + j + 1) == dots((j + 1) as nat) {
                        assert(t@.subrange(i as int, i + j) =~= dots(j as nat));
                    }
                }
            }
            j = j + 1;
        }
        if all {
            return Some(i);
        }
        i = i + 1;
    }
    None
}

impl Source {
    /// Classify `text`: an exact bare keyword (`stack`, `uncommitted`), else a range (three-dot
    /// checked before two-dot, since `...` contains `..`) split at its first occurrence, else a
    /// ref.
    pub fn classify(text: &str) -> (r: Source)
        ensures
            r@ == classify_spec(text@),
    {
        let t = chars_of(text);
        let stack: [char; 5] = ['s', 't', 'a', 'c', 'k'];
        let uncommitted: [char; 11] = ['u', 'n', 'c', 'o', 'm', 'm', 'i', 't', 't', 'e', 'd'];
        proof {
            assert(stack@ =~= stack_word());
            assert(uncommitted@ =~= uncommitted_word());
        }
        if same_chars(t.as_slice(), stack.as_slice()) {
            return Source::Stack;
        }
        if same_chars(t.as_slice(), uncommitted.as_slice()) {
            return Source::Uncommitted;
        }
        let n = t.len();
        if let Some(i) = find_dots(&t, 3) {
            let base_text = String::from_str(text.substring_char(0, i));
            let head_text = String::from_str(text.substring_char(i + 3, n));
            proof {
                assert(t@.subrange(0, i as int) =~= t@.take(i as int));
                assert(t@.subrange(i + 3, n as int) =~= t@.skip(i + 3));
            }
            return Source::Range { base_text, head_text, dots: RangeDots::Three };
        }
        if let Some(i) = find_dots(&t, 2) {
            let base_text = String::from_str(text.substring_char(0, i));
            let head_text = String::from_str(text.substring_char(i + 2, n));
            proof {
                assert(t@.subrange(0, i as int) =~= t@.take(i as int));
                assert(t@.subrange(i + 2, n as int) =~= t@.skip(i + 2));
            }
            return Source::Range { base_text, head_text, dots: RangeDots::Two };
        }
        Source::Ref(String::from_str(text))
    }
}

/// A git repository, opened by the caller.
#[verifier::external_type_specification]
#[verifier::external_body]
pub struct ExRepository(git2::Repository);

/// Whether `repo` has a local branch named `name`.
///
/// Calls `git2::Repository::find_branch` with `BranchType::Local`. The answer depends on the
/// repository on disk, so the contract states nothing of it.
#[verifier::external_body]
fn local_branch_exists(repo: &git2::Repository, name: &str) -> bool {
    repo.find_branch(name, git2::BranchType::Local).is_ok()
}

/// The prefix `refs/heads/`.
pub open spec fn refs_heads_prefix() -> Seq<char> {
    seq!['r', 'e', 'f', 's', '/', 'h', 'e', 'a', 'd', 's', '/']
}

/// The prefix `heads/`.
pub open spec fn heads_prefix() -> Seq<char> {
    seq!['h', 'e', 'a', 'd', 's', '/']
}

/// The local branch names `t` may spell, in the order they are tried: `t` itself, then `t`
/// without a leading `refs/heads/`, then `t` without a leading `heads/`.
pub open spec fn branch_name_candidates(t: Seq<char>) -> Seq<Seq<char>> {
    seq![t] + (if t.len() >= 11 && t.take(11) == refs_heads_prefix() {
        seq![t.skip(11)]
    } else {
        Seq::empty()
    }) + (if t.len() >= 6 && t.take(6) == heads_prefix() {
        seq![t.skip(6)]
    } else {
        Seq::empty()
    })
}

/// The candidate local branch names of `text` (see [`branch_name_candidates`]).
fn branch_candidates(text: &str) -> (c: Vec<String>)
    ensures
        c@.len() == branch_name_candidates(text@).len(),
        forall|i: int| 0 <= i < c@.len() ==> #[trigger] c@[i]@ == branch_name_candidates(text@)[i],
{
    let t = chars_of(text);
    let n = t.len();
    let mut c: Vec<String> = Vec::new();
    c.push(String::from_str(text));
    let refs_heads: [char; 11] = ['r', 'e', 'f', 's', '/', 'h', 'e', 'a', 'd', 's', '/'];
    let heads: [char; 6] = ['h', 'e', 'a', 'd', 's', '/'];
    proof {
        assert(refs_heads@ =~= refs_heads_prefix());
        assert(heads@ =~= heads_prefix());
    }
    let ghost first = c@;
    if n >= 11 && same_chars(vstd::slice::slice_subrange(t.as_slice(), 0, 11), refs_heads.as_slice()) {
        proof {
            assert(t@.subrange(0, 11) =~= t@.take(11));
            assert(t@.subrange(11, n as int) =~= t@.skip(11));
        }
        c.push(String::from_str(text.substring_char(11, n)));
    }
    let ghost second = c@;
    if n >= 6 && same_chars(vstd::slice::slice_subrange(t.as_slice(), 0, 6), heads.as_slice()) {
        proof {
            assert(t@.subrange(0, 6) =~= t@.take(6));
            assert(t@.subrange(6, n as int) =~= t@.skip(6));
        }
        c.push(String::from_str(text.substring_char(6, n)));
    }
    proof {
        let view = Seq::new(c@.len(), |i: int| c@[i]@);
        assert(view =~= branch_name_candidates(text@));
    }
    c
}

/// The first of `cands` from position `i` on whose lookup answer in `found` is yes, looking
/// no further than either list goes; `None` when no answer there is yes.
pub open spec fn first_found(cands: Seq<Seq<char>>, found: Seq<bool>, i: int) -> Option<Seq<char>>
    decreases cands.len() - i,
{
    if i < 0 || i >= cands.len() || i >= found.len() {
        None
    } else if found[i] {
        Some(cands[i])
    } else {
        first_found(cands, found, i + 1)
    }
}

/// `found` is the record of looking `n` candidates up in order until one is found: every
/// answer but the last is no, and the lookups stop early only at a yes.
pub open spec fn lookup_trace(found: Seq<bool>, n: nat) -> bool {
    &&& found.len() <= n
    &&& forall|i: int| 0 <= i < found.len() - 1 ==> !#[trigger] found[i]
    &&& found.len() < n ==> found.len() > 0 && found.last()
}

/// Looking candidates up in order until one is found gives the last candidate looked up when
/// its answer was yes, and nothing only when every candidate was looked up and none was found.
pub proof fn lemma_trace_result(cands: Seq<Seq<char>>, found: Seq<bool>)
    requires
        cands.len() > 0,
        lookup_trace(found, cands.len()),
    ensures
        found.len() > 0 && found.last() ==> first_found(cands, found, 0) == Some(cands[found.len() - 1]),
        first_found(cands, found, 0) is None <==> (found.len() == cands.len() && forall|i: int|
            0 <= i < found.len() ==> !#[trigger] found[i]),
{
    lemma_first_found_of_trace(cands, found, 0);
}

/// The search from position `i` over a lookup record.
proof fn lemma_first_found_of_trace(cands: Seq<Seq<char>>, found: Seq<bool>, i: int)
    requires
        0 <= i,
        cands.len() > 0,
        lookup_trace(found, cands.len()),
    ensures
        i < found.len() && found.last() ==> first_found(cands, found, i) == Some(cands[found.len() - 1]),
        i >= found.len() ==> first_found(cands, found, i) is None,
        i < found.len() && !found.last() ==> first_found(cands, found, i) is None,
    decreases cands.len() - i,
{
    if i < found.len() && i < cands.len() {
        if i < found.len() - 1 {
            assert(!found[i]);
            lemma_first_found_of_trace(cands, found, i + 1);
        }
    }
}

/// The text of an optional string.
pub open spec fn opt_chars(r: Option<String>) -> Option<Seq<char>> {
    match r {
        Some(s) => Some(s@),
        None => None,
    }
}

/// The local branch `text` names, given the answers `found` of looking its candidate spellings
/// up in order (see [`branch_name_candidates`]): the first candidate answered yes, or `None`.
pub fn branch_from_lookups(text: &str, found: &[bool]) -> (r: Option<String>)
    ensures
        opt_chars(r) == first_found(branch_name_candidates(text@), found@, 0),
{
    let candidates = branch_candidates(text);
    let n = candidates.len();
    let mut i: usize = 0;
    while i < n && i < found.len()
        invariant
            n == candidates@.len(),
            n == branch_name_candidates(text@).len(),
            forall|k: int| 0 <= k < n ==> #[trigger] candidates@[k]@ == branch_name_candidates(text@)[k],
            i <= n,
            first_found(branch_name_candidates(text@), found@, 0) == first_found(
                branch_name_candidates(text@),
                found@,
                i as int,
            ),
        decreases n - i,
    {
        if found[i] {
            let name = candidates[i].clone();
            assert(branch_name_candidates(text@)[i as int] == name@);
            return Some(name);
        }
        i = i + 1;
    }
    None
}

/// The local branch `text` names: the first of its candidate spellings (see
/// [`branch_name_candidates`]) that `repo` has as a local branch, or `None`. The candidates
/// are looked up in order until one is found (see [`branch_from_lookups`]).
pub fn resolve_local_branch_name(repo: &git2::Repository, text: &str) -> (r: Option<String>)
    ensures
        r matches Some(name) ==> exists|i: int|
            0 <= i < branch_name_candidates(text@).len() && #[trigger] branch_name_candidates(
                text@,
            )[i] == name@,
        exists|found: Seq<bool>|
            lookup_trace(found, branch_name_candidates(text@).len()) && opt_chars(r) == first_found(
                branch_name_candidates(text@),
                found,
                0,
            ),
{
    let candidates = branch_candidates(text);
    let n = candidates.len();
    let mut answers: Vec<bool> = Vec::new();
    let mut i: usize = 0;
    while i < n
        invariant_except_break
            answers@.len() == i,
            forall|k: int| 0 <= k < answers@.len() ==> !#[trigger] answers@[k],
        invariant
            n == candidates@.len(),
            i <= n,
            answers@.len() <= n,
        ensures
            lookup_trace(answers@, n as nat),
        decreases n - i,
    {
        let found = local_branch_exists(repo, candidates[i].as_str());
        answers.push(found);
        if found {
            break;
        }
        i = i + 1;
    }
    let r = branch_from_lookups(text, answers.as_slice());
    proof {
        lemma_first_found_member(branch_name_candidates(text@), answers@, 0);
        assert(candidates@.len() == branch_name_candidates(text@).len());
    }
    r
}

/// Whatever [`first_found`] gives is one of the candidates.
proof fn lemma_first_found_member(cands: Seq<Seq<char>>, found: Seq<bool>, i: int)
    ensures
        first_found(cands, found, i) matches Some(c) ==> exists|k: int| 0 <= k < cands.len() && #[trigger] cands[k] == c,
    decreases cands.len() - i,
{
    if 0 <= i < cands.len() && i < found.len() && !found[i] {
        lemma_first_found_member(cands, found, i + 1);
    }
}

} // verus!
