//! The four directives of a document: title, keywords, series and summary.

use super::{fragment, push_fragment};
use crate::parser::md::parse_contents::content_ir::{
    push_node,
    ContentIr,
    IrView,
    Metadata,
    MetadataView,
};
use crate::parser::md::parse_contents::Validations;
use crate::text::{
    find,
    find_from_exec,
    index_of,
    index_of_exec,
    lemma_find_from,
    lemma_index_of,
    string_of_range,
    to_chars,
    tokens,
    tokens_exec,
    trim,
    trim_range,
};
use vstd::prelude::*;

verus! {

/// Where the directive that `marker` starts stands in `t`: the position of the first
/// `marker` and of the first line feed after it. There is none where `t` holds no
/// `marker`, or no line feed after the first.
pub open spec fn directive_match(t: Seq<char>, marker: Seq<char>) -> Option<(int, int)> {
    match find(t, marker) {
        Some(start) => match index_of(t, '\n', start + marker.len()) {
            Some(end) => Some((start, end)),
            None => None,
        },
        None => None,
    }
}

/// The text of the directive at `(start, end)`: what stands between the marker and
/// the line feed, trimmed.
pub open spec fn directive_text(t: Seq<char>, marker: Seq<char>, found: (int, int)) -> Seq<char> {
    trim(t.subrange(found.0 + marker.len(), found.1))
}

/// The fragment before the directive, the directive, and the fragment after its
/// line feed; both fragments carry the mask `m`.
pub open spec fn directive_nodes(
    t: Seq<char>,
    found: (int, int),
    value: MetadataView,
    m: Validations,
) -> Seq<IrView> {
    fragment(t.subrange(0, found.0), m) + seq![IrView::Metadata(value)] + fragment(
        t.subrange(found.1 + 1, t.len() as int),
        m,
    )
}

/// A match lies within the text, in order.
pub proof fn lemma_directive_match(t: Seq<char>, marker: Seq<char>)
    ensures
        match directive_match(t, marker) {
            Some((start, end)) => 0 <= start && start + marker.len() <= end < t.len(),
            None => true,
        },
{
    lemma_find_from(t, marker, 0);
    if let Some(start) = find(t, marker) {
        lemma_index_of(t, '\n', start + marker.len());
    }
}

/// What the title operator makes of the fragment `t` with the mask `m`.
pub open spec fn metadata_display_title_spec(t: Seq<char>, m: Validations) -> Option<Seq<IrView>> {
    match directive_match(t, "!!title"@) {
        Some(found) => Some(
            directive_nodes(
                t,
                found,
                MetadataView::DisplayTitle(directive_text(t, "!!title"@, found)),
                Validations { skip_metadata_display_title: true, ..m },
            ),
        ),
        None => None,
    }
}

/// What the keywords operator makes of the fragment `t` with the mask `m`.
pub open spec fn metadata_keywords_spec(t: Seq<char>, m: Validations) -> Option<Seq<IrView>> {
    match directive_match(t, "!!keywords"@) {
        Some(found) => Some(
            directive_nodes(
                t,
                found,
                MetadataView::Keywords(tokens(directive_text(t, "!!keywords"@, found))),
                Validations { skip_metadata_keywords: true, ..m },
            ),
        ),
        None => None,
    }
}

/// What the series operator makes of the fragment `t` with the mask `m`.
pub open spec fn metadata_series_spec(t: Seq<char>, m: Validations) -> Option<Seq<IrView>> {
    match directive_match(t, "!!series"@) {
        Some(found) => Some(
            directive_nodes(
                t,
                found,
                MetadataView::Series(tokens(directive_text(t, "!!series"@, found))),
                Validations { skip_metadata_series: true, ..m },
            ),
        ),
        None => None,
    }
}

/// What the summary operator makes of the fragment `t` with the mask `m`.
pub open spec fn metadata_summary_spec(t: Seq<char>, m: Validations) -> Option<Seq<IrView>> {
    match directive_match(t, "!!summary"@) {
        Some(found) => Some(
            directive_nodes(
                t,
                found,
                MetadataView::Summary(directive_text(t, "!!summary"@, found)),
                Validations { skip_metadata_summary: true, ..m },
            ),
        ),
        None => None,
    }
}

/// The directive that `marker` starts in `chars`: its position, the bounds of its
/// trimmed text, and the position of its line feed.
fn directive_parts(chars: &Vec<char>, marker: &str) -> (r: Option<(usize, usize, usize, usize)>)
    ensures
        match r {
            Some((start, lo, hi, end)) => {
                &&& directive_match(chars@, marker@) == Some((start as int, end as int))
                &&& start <= lo <= hi <= end < chars@.len()
                &&& chars@.subrange(lo as int, hi as int) == directive_text(
                    chars@,
                    marker@,
                    (start as int, end as int),
                )
            },
            None => directive_match(chars@, marker@).is_none(),
        },
{
    let needle = to_chars(marker);
    let len = chars.len();
    let start = match find_from_exec(chars, &needle, 0) {
        Some(i) => i,
        None => {
            return None;
        },
    };
    proof {
        lemma_find_from(chars@, needle@, 0);
    }
    let from: usize = start + needle.len();
    let end = match index_of_exec(chars, '\n', from) {
        Some(i) => i,
        None => {
            return None;
        },
    };
    proof {
        lemma_index_of(chars@, '\n', from as int);
    }
    let (lo, hi) = trim_range(chars, from, end);
    Some((start, lo, hi, end))
}

/// Assembles what a directive operator returns.
fn directive_output(
    chars: &Vec<char>,
    start: usize,
    end: usize,
    value: Metadata,
    m: Validations,
) -> (ir: Vec<ContentIr>)
    requires
        start <= end < chars@.len(),
    ensures
        ir.deep_view() == directive_nodes(
            chars@,
            (start as int, end as int),
            value.deep_view(),
            m,
        ),
{
    let len = chars.len();
    let mut ir: Vec<ContentIr> = Vec::new();
    assert(ir.deep_view() =~= Seq::<IrView>::empty());
    push_fragment(&mut ir, chars, 0, start, m);
    push_node(&mut ir, ContentIr::Metadata(value));
    push_fragment(&mut ir, chars, end + 1, len, m);
    assert(ir.deep_view() =~= directive_nodes(
        chars@,
        (start as int, end as int),
        value.deep_view(),
        m,
    ));
    ir
}

/// Splits `contents` around its title directive, `!!title`.
pub fn metadata_display_title(contents: &String, validations: &Validations) -> (r: Option<
    Vec<ContentIr>,
>)
    ensures
        r.deep_view() == metadata_display_title_spec(contents@, *validations),
{
    let chars = to_chars(contents.as_str());
    match directive_parts(&chars, "!!title") {
        Some((start, lo, hi, end)) => {
            let value = Metadata::DisplayTitle(string_of_range(&chars, lo, hi));
            Some(
                directive_output(
                    &chars,
                    start,
                    end,
                    value,
                    Validations { skip_metadata_display_title: true, ..*validations },
                ),
            )
        },
        None => None,
    }
}

/// Splits `contents` around its keywords directive, `!!keywords`.
pub fn metadata_keywords(contents: &String, validations: &Validations) -> (r: Option<
    Vec<ContentIr>,
>)
    ensures
        r.deep_view() == metadata_keywords_spec(contents@, *validations),
{
    let chars = to_chars(contents.as_str());
    match directive_parts(&chars, "!!keywords") {
        Some((start, lo, hi, end)) => {
            let value = Metadata::Keywords(tokens_exec(&chars, lo, hi));
            Some(
                directive_output(
                    &chars,
                    start,
                    end,
                    value,
                    Validations { skip_metadata_keywords: true, ..*validations },
                ),
            )
        },
        None => None,
    }
}

/// Splits `contents` around its series directive, `!!series`.
pub fn metadata_series(contents: &String, validations: &Validations) -> (r: Option<
    Vec<ContentIr>,
>)
    ensures
        r.deep_view() == metadata_series_spec(contents@, *validations),
{
    let chars = to_chars(contents.as_str());
    match directive_parts(&chars, "!!series") {
        Some((start, lo, hi, end)) => {
            let value = Metadata::Series(tokens_exec(&chars, lo, hi));
            Some(
                directive_output(
                    &chars,
                    start,
                    end,
                    value,
                    Validations { skip_metadata_series: true, ..*validations },
                ),
            )
        },
        None => None,
    }
}

/// Splits `contents` around its summary directive, `!!summary`.
pub fn metadata_summary(contents: &String, validations: &Validations) -> (r: Option<
    Vec<ContentIr>,
>)
    ensures
        r.deep_view() == metadata_summary_spec(contents@, *validations),
{
    let chars = to_chars(contents.as_str());
    match directive_parts(&chars, "!!summary") {
        Some((start, lo, hi, end)) => {
            let value = Metadata::Summary(string_of_range(&chars, lo, hi));
            Some(
                directive_output(
                    &chars,
                    start,
                    end,
                    value,
                    Validations { skip_metadata_summary: true, ..*validations },
                ),
            )
        },
        None => None,
    }
}

} // verus!
