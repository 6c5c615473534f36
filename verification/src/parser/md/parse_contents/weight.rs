//! The weight of unresolved fragments, by which the reduction is shown to end.

use crate::parser::md::parse_contents::chomp::fragment;
use crate::parser::md::parse_contents::content_ir::IrView;
use crate::parser::md::parse_contents::Validations;
use vstd::prelude::*;

verus! {

/// 1 where `b` is false, else 0.
pub open spec fn open_bit(b: bool) -> nat {
    if b {
        0
    } else {
        1
    }
}

/// The number of operators that `m` does not suppress.
#[verifier::opaque]
pub open spec fn unsuppressed(m: Validations) -> nat {
    open_bit(m.skip_code_block) + open_bit(m.skip_header) + open_bit(m.skip_inline_code)
        + open_bit(m.skip_link) + open_bit(m.skip_list) + open_bit(m.skip_metadata_display_title)
        + open_bit(m.skip_metadata_keywords) + open_bit(m.skip_metadata_series) + open_bit(
        m.skip_metadata_summary,
    )
}

/// The weight of the fragment `t` with the mask `m`. Whatever an operator makes of
/// a fragment weighs less than the fragment, and so does every text that is parsed
/// on its behalf: this is why the reduction ends.
pub open spec fn fragment_weight(t: Seq<char>, m: Validations) -> nat {
    16 * t.len() + unsuppressed(m) + 1
}

/// The weight of `node`: that of its fragment where it is unresolved, else 0.
pub open spec fn node_weight(node: IrView) -> nat {
    match node {
        IrView::Unparsed { contents, validations } => fragment_weight(contents, validations),
        _ => 0,
    }
}

/// The sum of the weights of `nodes`.
pub open spec fn nodes_weight(nodes: Seq<IrView>) -> nat
    decreases nodes.len(),
{
    if nodes.len() == 0 {
        0
    } else {
        nodes_weight(nodes.drop_last()) + node_weight(nodes.last())
    }
}

/// A sequence of one node weighs what the node weighs.
pub proof fn lemma_single_weight(node: IrView)
    ensures
        nodes_weight(seq![node]) == node_weight(node),
{
    assert(seq![node].drop_last() =~= Seq::<IrView>::empty());
    assert(nodes_weight(seq![node].drop_last()) == 0);
}

/// There are nine operators.
pub proof fn lemma_unsuppressed_bound(m: Validations)
    ensures
        unsuppressed(m) <= 9,
{
    reveal(unsuppressed);
}

/// A mask that suppresses whatever `m` suppresses leaves no more operators than
/// `m` does, and fewer where it suppresses lists and `m` does not.
pub proof fn lemma_suppressed(m: Validations, more: Validations)
    requires
        m.skip_code_block ==> more.skip_code_block,
        m.skip_header ==> more.skip_header,
        m.skip_inline_code ==> more.skip_inline_code,
        m.skip_link ==> more.skip_link,
        m.skip_list ==> more.skip_list,
        m.skip_metadata_display_title ==> more.skip_metadata_display_title,
        m.skip_metadata_keywords ==> more.skip_metadata_keywords,
        m.skip_metadata_series ==> more.skip_metadata_series,
        m.skip_metadata_summary ==> more.skip_metadata_summary,
    ensures
        unsuppressed(more) <= unsuppressed(m),
        !m.skip_list && more.skip_list ==> unsuppressed(more) < unsuppressed(m),
{
    reveal(unsuppressed);
}

/// The weight of a sequence is the sum of the weights of its parts.
pub proof fn lemma_weight_concat(a: Seq<IrView>, b: Seq<IrView>)
    ensures
        nodes_weight(a + b) == nodes_weight(a) + nodes_weight(b),
    decreases b.len(),
{
    if b.len() == 0 {
        assert(a + b =~= a);
    } else {
        lemma_weight_concat(a, b.drop_last());
        assert((a + b).drop_last() =~= a + b.drop_last());
    }
}

/// No node weighs more than the sequence it stands in.
pub proof fn lemma_weight_bound(nodes: Seq<IrView>, i: int)
    requires
        0 <= i < nodes.len(),
    ensures
        node_weight(nodes[i]) <= nodes_weight(nodes),
    decreases nodes.len(),
{
    if i < nodes.len() - 1 {
        lemma_weight_bound(nodes.drop_last(), i);
    }
}

/// A fragment weighs what `fragment_weight` says, and nothing where it is empty.
pub proof fn lemma_fragment_weight(t: Seq<char>, m: Validations)
    ensures
        nodes_weight(fragment(t, m)) == if t.len() > 0 {
            fragment_weight(t, m)
        } else {
            0
        },
{
    if t.len() > 0 {
        lemma_single_weight(IrView::Unparsed { contents: t, validations: m });
    }
}

/// What an operator returns weighs less than the fragment it was given: the text
/// `before` under `m1`, a node that is resolved, and the text `after` under `m2`,
/// where the operator has taken at least one character away and suppresses nothing
/// less than `m` does.
pub proof fn lemma_split_weight(
    t: Seq<char>,
    m: Validations,
    before: Seq<char>,
    m1: Validations,
    middle: Seq<IrView>,
    after: Seq<char>,
    m2: Validations,
)
    requires
        before.len() + after.len() < t.len(),
        unsuppressed(m1) <= unsuppressed(m),
        unsuppressed(m2) <= unsuppressed(m),
        nodes_weight(middle) == 0,
    ensures
        nodes_weight(fragment(before, m1) + middle + fragment(after, m2)) < fragment_weight(t, m),
{
    lemma_unsuppressed_bound(m);
    lemma_fragment_weight(before, m1);
    lemma_fragment_weight(after, m2);
    lemma_weight_concat(fragment(before, m1), middle);
    lemma_weight_concat(fragment(before, m1) + middle, fragment(after, m2));
}

} // verus!
