//! The construct extractors. Each looks for one occurrence of one construct in a
//! fragment and splits the fragment around it.

pub mod block;
pub mod header;
pub mod inline_code;
pub mod link;
pub mod list;
pub mod metadata;

use crate::parser::md::parse_contents::content_ir::{push_node, ContentIr, IrView};
use crate::parser::md::parse_contents::Validations;
use crate::text::string_of_range;
use vstd::prelude::*;

pub use block::block;
pub use header::header;
pub use inline_code::inline_code;
pub use link::link;
pub use list::list;
pub use metadata::{
    metadata_display_title,
    metadata_keywords,
    metadata_series,
    metadata_summary,
};

verus! {

/// The unresolved fragment for the text `t` with the mask `m`: no node where `t`
/// is empty.
pub open spec fn fragment(t: Seq<char>, m: Validations) -> Seq<IrView> {
    if t.len() > 0 {
        seq![IrView::Unparsed { contents: t, validations: m }]
    } else {
        Seq::<IrView>::empty()
    }
}

/// Appends the unresolved fragment for `chars[from..to]` to `out`.
pub fn push_fragment(
    out: &mut Vec<ContentIr>,
    chars: &Vec<char>,
    from: usize,
    to: usize,
    m: Validations,
)
    requires
        from <= to <= chars@.len(),
    ensures
        final(out).deep_view() == old(out).deep_view() + fragment(
            chars@.subrange(from as int, to as int),
            m,
        ),
{
    if from < to {
        let contents = string_of_range(chars, from, to);
        push_node(out, ContentIr::Unparsed { contents, validations: m });
        assert(out.deep_view() =~= old(out).deep_view() + fragment(
            chars@.subrange(from as int, to as int),
            m,
        ));
    } else {
        assert(out.deep_view() =~= old(out).deep_view() + fragment(
            chars@.subrange(from as int, to as int),
            m,
        ));
    }
}

} // verus!
