//! Enclosing "scope" lookup for the reveal-to-scope gap expansion: which syntax-node kinds count
//! as a scope in each language, and the choice of the smallest allowlisted node that encloses a
//! line, given the chain of nodes from the one at that line up to the root.
//!
//! Lines are 1-based and ranges inclusive, like the rest of the diff-alignment code; node rows
//! are 0-based, as a parser reports them.
use vstd::prelude::*;

use crate::text::{chars_of, same_chars};

verus! {

/// Files with more lines than this skip scope lookup entirely.
pub const MAX_SCOPE_LINES: usize = 20000;

/// The scope node kinds of a language key: function, impl, trait, module, struct and enum items
/// for Rust; functions, methods, classes and arrow functions for JavaScript, plus interfaces,
/// enums and modules for TypeScript and TSX; function declarations and definitions for Lua; none
/// for anything else (data formats have no scope worth revealing to).
pub open spec fn scope_kinds_spec(lang_key: Seq<char>) -> Seq<Seq<char>> {
    if lang_key == "rust"@ {
        seq![
            "function_item"@,
            "impl_item"@,
            "trait_item"@,
            "mod_item"@,
            "struct_item"@,
            "enum_item"@,
        ]
    } else if lang_key == "javascript"@ {
        seq![
            "function_declaration"@,
            "function_expression"@,
            "method_definition"@,
            "class_declaration"@,
            "arrow_function"@,
        ]
    } else if lang_key == "typescript"@ || lang_key == "tsx"@ {
        seq![
            "function_declaration"@,
            "function_expression"@,
            "method_definition"@,
            "class_declaration"@,
            "arrow_function"@,
            "interface_declaration"@,
            "enum_declaration"@,
            "module_declaration"@,
        ]
    } else if lang_key == "lua"@ {
        seq!["function_declaration"@, "function_definition"@]
    } else {
        Seq::empty()
    }
}

/// Whether the characters `t` spell the literal `lit`.
fn spells(t: &Vec<char>, lit: &str) -> (r: bool)
    ensures
        r == (t@ == lit@),
{
    let l = chars_of(lit);
    same_chars(t.as_slice(), l.as_slice())
}

/// The scope node kinds of `lang_key` (see [`scope_kinds_spec`]).
pub fn scope_kinds(lang_key: &str) -> (kinds: Vec<&'static str>)
    ensures
        kinds@.len() == scope_kinds_spec(lang_key@).len(),
        forall|i: int| 0 <= i < kinds@.len() ==> #[trigger] kinds@[i]@ == scope_kinds_spec(lang_key@)[i],
{
    let t = chars_of(lang_key);
    let kinds = if spells(&t, "rust") {
        vec!["function_item", "impl_item", "trait_item", "mod_item", "struct_item", "enum_item"]
    } else if spells(&t, "javascript") {
        vec![
            "function_declaration",
            "function_expression",
            "method_definition",
            "class_declaration",
            "arrow_function",
        ]
    } else if spells(&t, "typescript") || spells(&t, "tsx") {
        vec![
            "function_declaration",
            "function_expression",
            "method_definition",
            "class_declaration",
            "arrow_function",
            "interface_declaration",
            "enum_declaration",
            "module_declaration",
        ]
    } else if spells(&t, "lua") {
        vec!["function_declaration", "function_definition"]
    } else {
        Vec::new()
    };
    proof {
        let view = Seq::new(kinds@.len(), |i: int| kinds@[i]@);
        assert(view =~= scope_kinds_spec(lang_key@));
    }
    kinds
}

/// A syntax node on the way from the node at a line up to the root: its kind and its 0-based
/// first and last rows.
pub struct ScopeNode {
    pub kind: String,
    pub start_row: usize,
    pub end_row: usize,
}

/// The first node of `chain` whose kind is in `kinds`, from `i` on.
pub open spec fn first_scope_from(kinds: Seq<Seq<char>>, chain: Seq<ScopeNode>, i: int) -> Option<int>
    decreases chain.len() - i,
{
    if i < 0 || i >= chain.len() {
        None
    } else if kinds.contains(chain[i].kind@) {
        Some(i)
    } else {
        first_scope_from(kinds, chain, i + 1)
    }
}

/// Whether `kind` is one of `kinds`.
fn is_scope_kind(kinds: &[&str], kind: &String) -> (r: bool)
    ensures
        r == exists|j: int| 0 <= j < kinds@.len() && #[trigger] kinds@[j]@ == kind@,
{
    let k = chars_of(kind.as_str());
    let n = kinds.len();
    let mut j: usize = 0;
    while j < n
        invariant
            n == kinds@.len(),
            j <= n,
            k@ == kind@,
            forall|m: int| 0 <= m < j ==> #[trigger] kinds@[m]@ != kind@,
        decreases n - j,
    {
        let candidate = chars_of(kinds[j]);
        if same_chars(candidate.as_slice(), k.as_slice()) {
            return true;
        }
        j = j + 1;
    }
    false
}

/// The smallest allowlisted node enclosing a line, as an inclusive 1-based line range: the first
/// node of `chain` (innermost first, ending at the root) whose kind is in `kinds`, or `None`
/// when no node of the chain is allowlisted.
pub fn innermost_scope(kinds: &[&str], chain: &[ScopeNode]) -> (r: Option<(usize, usize)>)
    requires
        forall|i: int| 0 <= i < chain@.len() ==> #[trigger] chain@[i].end_row < usize::MAX && chain@[i].start_row < usize::MAX,
    ensures
        ({
            let names = Seq::new(kinds@.len(), |j: int| kinds@[j]@);
            match first_scope_from(names, chain@, 0) {
                Some(i) => r == Some(((chain@[i].start_row + 1) as usize, (chain@[i].end_row + 1) as usize)),
                None => r is None,
            }
        }),
{
    let ghost names = Seq::new(kinds@.len(), |j: int| kinds@[j]@);
    let n = chain.len();
    let mut i: usize = 0;
    while i < n
        invariant
            n == chain@.len(),
            i <= n,
            names == Seq::new(kinds@.len(), |j: int| kinds@[j]@),
            forall|m: int| 0 <= m < n ==> #[trigger] chain@[m].end_row < usize::MAX && chain@[m].start_row < usize::MAX,
            first_scope_from(names, chain@, 0) == first_scope_from(names, chain@, i as int),
        decreases n - i,
    {
        let node = &chain[i];
        let found = is_scope_kind(kinds, &node.kind);
        proof {
            if found {
                let j = choose|j: int| 0 <= j < kinds@.len() && #[trigger] kinds@[j]@ == node.kind@;
                assert(names[j] == node.kind@);
            } else {
                assert forall|j: int| 0 <= j < names.len() implies names[j] != node.kind@ by {
                    assert(kinds@[j]@ != node.kind@);
                }
            }
        }
        if found {
            assert(chain@[i as int].end_row < usize::MAX);
            return Some((node.start_row + 1, node.end_row + 1));
        }
        i = i + 1;
    }
    None
}

/// The number of `\n` characters in `t`.
pub open spec fn newline_count(t: Seq<char>) -> nat
    decreases t.len(),
{
    if t.len() == 0 {
        0
    } else {
        newline_count(t.drop_last()) + if t.last() == '\n' {
            1nat
        } else {
            0nat
        }
    }
}

/// The number of lines of `t`, counted as `str::lines` counts them: one per `\n`, plus one for
/// a last line that does not end in `\n`.
pub open spec fn line_count(t: Seq<char>) -> nat {
    newline_count(t) + if t.len() > 0 && t.last() != '\n' {
        1nat
    } else {
        0nat
    }
}

/// A text has no more newlines than characters.
proof fn lemma_newline_count_le(t: Seq<char>)
    ensures
        newline_count(t) <= t.len(),
    decreases t.len(),
{
    if t.len() > 0 {
        lemma_newline_count_le(t.drop_last());
    }
}

/// The number of lines of `text` (see [`line_count`]).
pub fn text_line_count(text: &str) -> (n: usize)
    ensures
        n == line_count(text@),
{
    let t = chars_of(text);
    let len = t.len();
    let mut count: usize = 0;
    let mut i: usize = 0;
    while i < len
        invariant
            t@ == text@,
            len == t@.len(),
            i <= len,
            count <= i,
            count == newline_count(t@.take(i as int)),
        decreases len - i,
    {
        proof {
            assert(t@.take(i + 1).drop_last() =~= t@.take(i as int));
        }
        if t[i] == '\n' {
            count = count + 1;
        }
        i = i + 1;
    }
    proof {
        assert(t@.take(len as int) =~= t@);
    }
    if len > 0 && t[len - 1] != '\n' {
        proof {
            lemma_newline_count_le(t@.drop_last());
        }
        count + 1
    } else {
        count
    }
}

/// Whether a scope lookup is worth running: the language has scope kinds, and the text has at
/// most [`MAX_SCOPE_LINES`] lines. Otherwise the lookup finds nothing and the caller falls back
/// to the flat reveal.
pub fn scope_lookup_allowed(lang_key: &str, text: &str) -> (r: bool)
    ensures
        r == (scope_kinds_spec(lang_key@).len() > 0 && line_count(text@) <= MAX_SCOPE_LINES),
{
    let kinds = scope_kinds(lang_key);
    if kinds.len() == 0 {
        return false;
    }
    text_line_count(text) <= MAX_SCOPE_LINES
}

} // verus!
