//! Inline code: the text between two backticks.

use super::{fragment, push_fragment};
use crate::parser::md::parse_contents::content_ir::{push_node, ContentIr, IrView};
use crate::parser::md::parse_contents::Validations;
use crate::text::{index_of, index_of_exec, lemma_index_of, string_of_range, to_chars};
use vstd::prelude::*;

verus! {

/// The positions of the first backtick of `t` and of the next one after it.
pub open spec fn inline_code_match(t: Seq<char>) -> Option<(int, int)> {
    match index_of(t, '`', 0) {
        Some(open) => match index_of(t, '`', open + 1) {
            Some(close) => Some((open, close)),
            None => None,
        },
        None => None,
    }
}

/// The node for the code `code`: none where it is empty.
pub open spec fn inline_code_node(code: Seq<char>) -> Seq<IrView> {
    if code.len() > 0 {
        seq![IrView::InlineCode(code)]
    } else {
        Seq::<IrView>::empty()
    }
}

/// What the inline-code operator makes of the fragment `t` with the mask `m`:
/// the text before the first backtick, with inline code suppressed on it; the code
/// between the first two backticks; the text after the second, with `m`.
pub open spec fn inline_code_spec(t: Seq<char>, m: Validations) -> Option<Seq<IrView>> {
    match inline_code_match(t) {
        Some((open, close)) => Some(
            fragment(t.subrange(0, open), Validations { skip_inline_code: true, ..m })
                + inline_code_node(t.subrange(open + 1, close)) + fragment(
                t.subrange(close + 1, t.len() as int),
                m,
            ),
        ),
        None => None,
    }
}

/// A match lies within the text, and its backticks are the first two of the text.
pub proof fn lemma_inline_code_match(t: Seq<char>)
    ensures
        match inline_code_match(t) {
            Some((open, close)) => {
                &&& 0 <= open < close < t.len()
                &&& t[open] == '`'
                &&& t[close] == '`'
                &&& forall|k: int| 0 <= k < close && k != open ==> t[k] != '`'
            },
            None => forall|i: int, j: int|
                0 <= i < j < t.len() ==> !(t[i] == '`' && t[j] == '`'),
        },
{
    lemma_index_of(t, '`', 0);
    if let Some(open) = index_of(t, '`', 0) {
        lemma_index_of(t, '`', open + 1);
    }
}

/// Splits `contents` around its first piece of inline code.
pub fn inline_code(contents: &String, validations: &Validations) -> (r: Option<Vec<ContentIr>>)
    ensures
        r.deep_view() == inline_code_spec(contents@, *validations),
{
    let chars = to_chars(contents.as_str());
    let open = match index_of_exec(&chars, '`', 0) {
        Some(i) => i,
        None => {
            return None;
        },
    };
    proof {
        lemma_index_of(chars@, '`', 0);
    }
    let close = match index_of_exec(&chars, '`', open + 1) {
        Some(i) => i,
        None => {
            return None;
        },
    };
    proof {
        lemma_index_of(chars@, '`', open + 1);
    }
    let len = chars.len();
    let mut ir: Vec<ContentIr> = Vec::new();
    assert(ir.deep_view() =~= Seq::<IrView>::empty());
    push_fragment(&mut ir, &chars, 0, open, Validations { skip_inline_code: true, ..*validations });
    if open + 1 < close {
        let code = string_of_range(&chars, open + 1, close);
        push_node(&mut ir, ContentIr::InlineCode(code));
    }
    push_fragment(&mut ir, &chars, close + 1, len, *validations);
    assert(ir.deep_view() =~= inline_code_spec(contents@, *validations)->0);
    Some(ir)
}

} // verus!
