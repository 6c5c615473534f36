//! Fenced blocks: code between two fences, or a quote after the fence ```` ```quote ````.

use super::{fragment, push_fragment};
use crate::outcome::{Location, Res, ResView};
use crate::parser::md::parse_contents::content_ir::{push_node, BlockKind, ContentIr, IrView};
use crate::parser::md::parse_contents::weight::{
    fragment_weight,
    lemma_single_weight,
    lemma_split_weight,
    lemma_suppressed,
    nodes_weight,
    unsuppressed,
};
use crate::parser::md::parse_contents::{execute, execute_spec, Options, Validations};
use crate::text::{find, find_from, find_from_exec, lemma_find_from, string_of_range, to_chars};
use vstd::prelude::*;

verus! {

/// Where a fenced block stands in a text.
pub struct BlockMatch {
    pub kind: BlockKind,
    /// Where the opening fence starts.
    pub start: int,
    /// Where the contents start, right after the opening fence.
    pub open_end: int,
    /// Where the closing fence starts.
    pub close: int,
}

/// The opening fence of `t`: the first fence of a quote where `t` holds one, even
/// where a plain fence stands before it, else the first plain fence.
pub open spec fn block_open(t: Seq<char>) -> Option<(BlockKind, int, int)> {
    match find(t, "```quote"@) {
        Some(start) => Some((BlockKind::Quote, start, start + "```quote"@.len())),
        None => match find(t, "```"@) {
            Some(start) => Some((BlockKind::Code, start, start + "```"@.len())),
            None => None,
        },
    }
}

/// The fenced block of `t`: its opening fence and the first plain fence after it.
/// There is none where either is missing.
pub open spec fn block_match(t: Seq<char>) -> Option<BlockMatch> {
    match block_open(t) {
        Some((kind, start, open_end)) => match find_from(t, "```"@, open_end) {
            Some(close) => Some(BlockMatch { kind, start, open_end, close }),
            None => None,
        },
        None => None,
    }
}

/// A block that was found lies within the text, in order, and its fences are not
/// empty.
pub proof fn lemma_block_match(t: Seq<char>)
    ensures
        match block_match(t) {
            Some(found) => {
                &&& 0 <= found.start
                &&& found.start + 3 <= found.open_end <= found.close
                &&& found.close + 3 <= t.len()
                &&& "```"@.len() == 3
            },
            None => true,
        },
{
    reveal_strlit("```quote");
    reveal_strlit("```");
    lemma_find_from(t, "```quote"@, 0);
    lemma_find_from(t, "```"@, 0);
    if let Some((kind, start, open_end)) = block_open(t) {
        lemma_find_from(t, "```"@, open_end);
    }
}

/// The mask under which the contents of a quote are parsed: `m`, without the check
/// of the length of paragraphs.
pub open spec fn quote_mask(m: Validations) -> Validations {
    Validations { validate_paragraph_len: false, ..m }
}

/// What a block of the kind `kind` holds for the contents `code`: the text itself
/// for code; for a quote the tree that the contents parse to, under `quote_mask`,
/// or the text itself where that parse fails or gives more than one warning.
pub open spec fn block_contents(
    kind: BlockKind,
    code: Seq<char>,
    opts: Options,
    m: Validations,
) -> IrView
    decreases fragment_weight(code, m) + 32, 2int, 0int,
{
    proof {
        lemma_suppressed(m, quote_mask(m));
    }
    match kind {
        BlockKind::Code => IrView::Text { text: code },
        BlockKind::Quote => match execute_spec(
            code,
            Location::spec_nowhere(),
            opts,
            Some(quote_mask(m)),
        ) {
            ResView::Success(item) => item.item,
            ResView::Warn { item, .. } => item.item,
            _ => IrView::Text { text: code },
        },
    }
}

/// What the block operator makes of the fragment `t` with the mask `m`: the text
/// before the opening fence, with blocks suppressed on it; the block, where its
/// contents are not empty; and the text after the closing fence, with `m`.
pub open spec fn block_spec(t: Seq<char>, opts: Options, m: Validations) -> Option<Seq<IrView>>
    decreases fragment_weight(t, m), 3int, 0int,
{
    match block_match(t) {
        Some(found) => {
            let code = t.subrange(found.open_end, found.close);
            proof {
                lemma_block_match(t);
            }
            let block = if code.len() > 0 {
                seq![
                    IrView::Block {
                        contents: Box::new(block_contents(found.kind, code, opts, m)),
                        block_kind: found.kind,
                    },
                ]
            } else {
                Seq::<IrView>::empty()
            };
            Some(
                fragment(t.subrange(0, found.start), Validations { skip_code_block: true, ..m })
                    + block + fragment(t.subrange(found.close + 3, t.len() as int), m),
            )
        },
        None => None,
    }
}

/// What the block operator returns weighs less than the fragment it was given.
#[verifier::rlimit(40)]
pub proof fn lemma_block_weight(t: Seq<char>, opts: Options, m: Validations, m0: Validations)
    requires
        unsuppressed(m) <= unsuppressed(m0),
    ensures
        block_spec(t, opts, m) matches Some(nodes) ==> nodes_weight(nodes) < fragment_weight(
            t,
            m0,
        ),
{
    lemma_block_match(t);
    if let Some(found) = block_match(t) {
        let code = t.subrange(found.open_end, found.close);
        let block = if code.len() > 0 {
            seq![
                IrView::Block {
                    contents: Box::new(block_contents(found.kind, code, opts, m)),
                    block_kind: found.kind,
                },
            ]
        } else {
            Seq::<IrView>::empty()
        };
        if code.len() > 0 {
            lemma_single_weight(block[0]);
        }
        lemma_suppressed(m, Validations { skip_code_block: true, ..m });
        lemma_split_weight(
            t,
            m0,
            t.subrange(0, found.start),
            Validations { skip_code_block: true, ..m },
            block,
            t.subrange(found.close + 3, t.len() as int),
            m,
        );
    }
}

/// Finds the fenced block of `chars`.
fn block_match_exec(chars: &Vec<char>) -> (r: Option<(BlockKind, usize, usize, usize)>)
    ensures
        match r {
            Some((kind, start, open_end, close)) => {
                &&& block_match(chars@) == Some(
                    BlockMatch {
                        kind,
                        start: start as int,
                        open_end: open_end as int,
                        close: close as int,
                    },
                )
                &&& start + 3 <= open_end <= close
                &&& close + 3 <= chars@.len()
            },
            None => block_match(chars@).is_none(),
        },
{
    let len = chars.len();
    let quote_fence = to_chars("```quote");
    let fence = to_chars("```");
    proof {
        reveal_strlit("```quote");
        reveal_strlit("```");
        lemma_find_from(chars@, quote_fence@, 0);
        lemma_find_from(chars@, fence@, 0);
    }
    let (kind, start, open_end) = match find_from_exec(chars, &quote_fence, 0) {
        Some(at) => (BlockKind::Quote, at, at + quote_fence.len()),
        None => match find_from_exec(chars, &fence, 0) {
            Some(at) => (BlockKind::Code, at, at + fence.len()),
            None => {
                return None;
            },
        },
    };
    let close = match find_from_exec(chars, &fence, open_end) {
        Some(at) => at,
        None => {
            return None;
        },
    };
    proof {
        lemma_block_match(chars@);
    }
    Some((kind, start, open_end, close))
}

/// What a block of the kind `kind` holds for the contents `code`.
fn block_contents_exec(kind: BlockKind, code: String, opts: Options, m: Validations) -> (r:
    ContentIr)
    ensures
        r.deep_view() == block_contents(kind, code@, opts, m),
    decreases fragment_weight(code@, m) + 32, 2int, 0int,
{
    proof {
        lemma_suppressed(m, Validations { validate_paragraph_len: false, ..m });
    }
    match kind {
        BlockKind::Code => ContentIr::Text { text: code },
        BlockKind::Quote => {
            let text = code.clone();
            match execute(
                code,
                Location::nowhere(),
                opts,
                Some(Validations { validate_paragraph_len: false, ..m }),
            ) {
                Res::Success(item) => item.item,
                Res::Warn { item, .. } => item.item,
                _ => ContentIr::Text { text },
            }
        },
    }
}

/// Splits `contents` around its first fenced block.
#[verifier::rlimit(40)]
pub fn block(contents: &String, opts: Options, validations: &Validations) -> (r: Option<
    Vec<ContentIr>,
>)
    ensures
        r.deep_view() == block_spec(contents@, opts, *validations),
    decreases fragment_weight(contents@, *validations), 3int, 0int,
{
    let chars = to_chars(contents.as_str());
    let len = chars.len();
    let (kind, start, open_end, close) = match block_match_exec(&chars) {
        Some(found) => found,
        None => {
            return None;
        },
    };
    let m = *validations;
    let mut ir: Vec<ContentIr> = Vec::new();
    assert(ir.deep_view() =~= Seq::<IrView>::empty());
    push_fragment(&mut ir, &chars, 0, start, Validations { skip_code_block: true, ..m });
    if open_end < close {
        let code = string_of_range(&chars, open_end, close);
        let inner = block_contents_exec(kind, code, opts, m);
        push_node(&mut ir, ContentIr::Block { contents: Box::new(inner), block_kind: kind });
    }
    push_fragment(&mut ir, &chars, close + 3, len, m);
    assert(ir.deep_view() =~= block_spec(contents@, opts, m)->0);
    Some(ir)
}

} // verus!
