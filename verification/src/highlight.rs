//! The syntax-highlight capture space: the capture names the highlighter binds, in the order that
//! gives each its capture index. A palette colors a capture by that index (see
//! [`crate::theme::syntax_slot_of`]), so the two tables run parallel.
use vstd::prelude::*;

use crate::text::{chars_of, same_chars};
use crate::theme::syntax_capture_count;

verus! {

/// One highlighted byte range of a line: `start..end` colored as capture `capture`.
#[derive(Debug, Clone, Copy, PartialEq, Eq, Structural)]
pub struct FgSpan {
    pub start: usize,
    pub end: usize,
    pub capture: usize,
}

/// The capture names, by capture index.
pub open spec fn highlight_names_spec() -> Seq<Seq<char>> {
    seq![
        "attribute"@,
        "comment"@,
        "constant"@,
        "constant.builtin"@,
        "constructor"@,
        "embedded"@,
        "escape"@,
        "function"@,
        "function.builtin"@,
        "function.macro"@,
        "function.method"@,
        "keyword"@,
        "label"@,
        "number"@,
        "operator"@,
        "property"@,
        "punctuation"@,
        "punctuation.bracket"@,
        "punctuation.delimiter"@,
        "punctuation.special"@,
        "string"@,
        "string.special"@,
        "tag"@,
        "type"@,
        "type.builtin"@,
        "variable"@,
        "variable.builtin"@,
        "variable.parameter"@,
    ]
}

/// The capture names the highlighter binds, by capture index.
pub fn highlight_names() -> (names: Vec<&'static str>)
    ensures
        names@.len() == highlight_names_spec().len(),
        forall|i: int| 0 <= i < names@.len() ==> #[trigger] names@[i]@ == highlight_names_spec()[i],
{
    let names = vec![
        "attribute",
        "comment",
        "constant",
        "constant.builtin",
        "constructor",
        "embedded",
        "escape",
        "function",
        "function.builtin",
        "function.macro",
        "function.method",
        "keyword",
        "label",
        "number",
        "operator",
        "property",
        "punctuation",
        "punctuation.bracket",
        "punctuation.delimiter",
        "punctuation.special",
        "string",
        "string.special",
        "tag",
        "type",
        "type.builtin",
        "variable",
        "variable.builtin",
        "variable.parameter",
    ];
    proof {
        let view = Seq::new(names@.len(), |i: int| names@[i]@);
        assert(view =~= highlight_names_spec());
    }
    names
}

/// The capture index of `name`, or `None` if the highlighter binds no such capture.
pub fn capture_index(name: &str) -> (r: Option<usize>)
    ensures
        r matches Some(i) ==> i < highlight_names_spec().len() && highlight_names_spec()[i as int]
            == name@ && forall|j: int| 0 <= j < i ==> highlight_names_spec()[j] != name@,
        r is None ==> forall|j: int|
            0 <= j < highlight_names_spec().len() ==> highlight_names_spec()[j] != name@,
{
    let names = highlight_names();
    let target = chars_of(name);
    let n = names.len();
    let mut i: usize = 0;
    while i < n
        invariant
            n == names@.len(),
            n == highlight_names_spec().len(),
            i <= n,
            target@ == name@,
            forall|k: int| 0 <= k < n ==> #[trigger] names@[k]@ == highlight_names_spec()[k],
            forall|j: int| 0 <= j < i ==> highlight_names_spec()[j] != name@,
        decreases n - i,
    {
        let candidate = chars_of(names[i]);
        if same_chars(candidate.as_slice(), target.as_slice()) {
            return Some(i);
        }
        i = i + 1;
    }
    None
}

/// Every capture the highlighter binds has exactly one entry in the palette's syntax template.
pub proof fn lemma_template_covers_every_capture()
    ensures
        highlight_names_spec().len() == syntax_capture_count(),
{
}

/// The one capture that renders in italics is the one named `comment`.
pub proof fn lemma_only_comment_is_italic(capture: int)
    requires
        0 <= capture < syntax_capture_count(),
    ensures
        (capture == 1) <==> highlight_names_spec()[capture] == "comment"@,
{
    reveal_strlit("attribute");
    reveal_strlit("comment");
    reveal_strlit("constant");
    reveal_strlit("constant.builtin");
    reveal_strlit("constructor");
    reveal_strlit("embedded");
    reveal_strlit("escape");
    reveal_strlit("function");
    reveal_strlit("function.builtin");
    reveal_strlit("function.macro");
    reveal_strlit("function.method");
    reveal_strlit("keyword");
    reveal_strlit("label");
    reveal_strlit("number");
    reveal_strlit("operator");
    reveal_strlit("property");
    reveal_strlit("punctuation");
    reveal_strlit("punctuation.bracket");
    reveal_strlit("punctuation.delimiter");
    reveal_strlit("punctuation.special");
    reveal_strlit("string");
    reveal_strlit("string.special");
    reveal_strlit("tag");
    reveal_strlit("type");
    reveal_strlit("type.builtin");
    reveal_strlit("variable");
    reveal_strlit("variable.builtin");
    reveal_strlit("variable.parameter");
    if capture != 1 {
        assert(highlight_names_spec()[capture].len() != 7 || highlight_names_spec()[capture][0]
            != 'c' || highlight_names_spec()[capture][2] != 'm');
    }
}

} // verus!
