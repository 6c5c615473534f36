//! The reduction leaves no unresolved fragment: the proof.

use crate::outcome::{Diagnostic, ItemView, Location, LocationView, ResView};
use crate::parser::md::parse_contents::chomp::block::{
    block_contents,
    block_match,
    block_spec,
    lemma_block_match,
    quote_mask,
};
use crate::parser::md::parse_contents::chomp::fragment;
use crate::parser::md::parse_contents::chomp::header::{
    header_match,
    header_spec,
    heading_level,
    heading_node,
};
use crate::parser::md::parse_contents::chomp::inline_code::{
    inline_code_match,
    inline_code_node,
    inline_code_spec,
};
use crate::parser::md::parse_contents::chomp::link::{
    has_exclamation,
    link_description,
    link_match,
    link_spec,
    link_target,
};
use crate::parser::md::parse_contents::chomp::list::{
    item_content,
    item_end,
    item_options,
    item_weight,
    lemma_item_end,
    list_items,
    list_spec,
    list_weight,
    parsed_item,
};
use crate::parser::md::parse_contents::chomp::metadata::{
    directive_match,
    directive_nodes,
    directive_text,
};
use crate::parser::md::parse_contents::content_ir::{IrView, MetadataView};
use crate::parser::md::parse_contents::hierarchy::{
    all_clean,
    clean_node,
    clean_spec,
    header_scan,
    headers_spec,
    lemma_clean_is_clean,
    paragraph_scan,
    paragraphs_spec,
};
use crate::parser::md::parse_contents::render::{all_resolved, resolved};
use crate::parser::md::parse_contents::weight::{
    fragment_weight,
    lemma_single_weight,
    lemma_suppressed,
    lemma_weight_bound,
    nodes_weight,
};
use crate::parser::md::parse_contents::{
    after_block,
    after_header,
    after_list,
    arrange,
    directive_step,
    execute_spec,
    finish_spec,
    inline_step,
    lemma_normalize_len,
    lemma_reduce_step,
    literal_text,
    normalize,
    parse_spec,
    pass_scan,
    reduce_spec,
    start_mask,
    try_process_spec,
    ContinueRunning,
    Options,
    PassScan,
    Validations,
};
use crate::text::{lemma_index_of_bounds, tokens, trim};
use vstd::prelude::*;

verus! {

/// Whether `node` is an unresolved fragment, or holds none at any depth.
pub open spec fn settled(node: IrView) -> bool {
    node is Unparsed || resolved(node)
}

/// Whether every node of `nodes` is settled.
pub open spec fn all_settled(nodes: Seq<IrView>) -> bool {
    forall|i: int| 0 <= i < nodes.len() ==> settled(#[trigger] nodes[i])
}

/// Cleaning a resolved node leaves a resolved node.
pub proof fn lemma_clean_node_resolved(node: IrView)
    requires
        resolved(node),
    ensures
        clean_node(node) matches Some(kept) ==> resolved(kept),
    decreases node,
{
    match node {
        IrView::Block { contents, .. } => lemma_clean_node_resolved(*contents),
        IrView::Card(children) => lemma_clean_resolved(children),
        IrView::Div { contents } => lemma_clean_resolved(contents),
        IrView::OrderedList { items, .. } => lemma_clean_resolved(items),
        IrView::Paragraph { children } => lemma_clean_resolved(children),
        IrView::UnorderedList { items } => lemma_clean_resolved(items),
        _ => {},
    }
}

/// Cleaning resolved nodes leaves resolved nodes.
pub proof fn lemma_clean_resolved(nodes: Seq<IrView>)
    requires
        all_resolved(nodes),
    ensures
        all_resolved(clean_spec(nodes)),
    decreases nodes,
{
    if nodes.len() > 0 {
        assert(resolved(nodes[nodes.len() - 1]));
        assert forall|i: int| 0 <= i < nodes.drop_last().len() implies resolved(
            #[trigger] nodes.drop_last()[i],
        ) by {
            assert(nodes.drop_last()[i] == nodes[i]);
        }
        lemma_clean_resolved(nodes.drop_last());
        lemma_clean_node_resolved(nodes.last());
    }
}

/// Grouping resolved nodes into paragraphs leaves resolved nodes.
pub proof fn lemma_paragraphs_resolved(nodes: Seq<IrView>)
    requires
        all_resolved(nodes),
    ensures
        all_resolved(paragraph_scan(nodes).done),
        all_resolved(paragraph_scan(nodes).open),
        all_resolved(paragraphs_spec(nodes)),
    decreases nodes.len(),
{
    if nodes.len() > 0 {
        assert(resolved(nodes[nodes.len() - 1]));
        assert forall|i: int| 0 <= i < nodes.drop_last().len() implies resolved(
            #[trigger] nodes.drop_last()[i],
        ) by {
            assert(nodes.drop_last()[i] == nodes[i]);
        }
        lemma_paragraphs_resolved(nodes.drop_last());
        let before = paragraph_scan(nodes.drop_last());
        assert(resolved(IrView::Paragraph { children: before.open }));
        let after = paragraph_scan(nodes);
        assert(resolved(IrView::Paragraph { children: after.open }));
    }
}

/// Nesting resolved nodes under their headings leaves resolved nodes.
pub proof fn lemma_headers_resolved(nodes: Seq<IrView>)
    requires
        all_resolved(nodes),
    ensures
        all_resolved(header_scan(nodes).done),
        header_scan(nodes).open matches Some((heading, below)) ==> resolved(heading)
            && all_resolved(below),
        all_resolved(headers_spec(nodes)),
    decreases nodes.len(),
{
    if nodes.len() > 0 {
        assert(resolved(nodes[nodes.len() - 1]));
        assert forall|i: int| 0 <= i < nodes.drop_last().len() implies resolved(
            #[trigger] nodes.drop_last()[i],
        ) by {
            assert(nodes.drop_last()[i] == nodes[i]);
        }
        lemma_headers_resolved(nodes.drop_last());
        let before = header_scan(nodes.drop_last());
        if let Some((heading, below)) = before.open {
            lemma_card_resolved(heading, below);
        }
        let after = header_scan(nodes);
        if let Some((heading, below)) = after.open {
            lemma_card_resolved(heading, below);
        }
    }
}

proof fn lemma_card_resolved(heading: IrView, below: Seq<IrView>)
    requires
        resolved(heading),
        all_resolved(below),
    ensures
        resolved(IrView::Card(seq![heading, IrView::Div { contents: below }])),
{
    assert(resolved(IrView::Div { contents: below }));
}

/// Whatever the passes leave, arranged, is resolved if it was.
pub proof fn lemma_arrange_resolved(nodes: Seq<IrView>, opts: Options)
    requires
        all_resolved(nodes),
    ensures
        all_resolved(arrange(nodes, opts)),
{
    lemma_paragraphs_resolved(nodes);
    let grouped = if opts.make_paragraphs {
        paragraphs_spec(nodes)
    } else {
        nodes
    };
    lemma_headers_resolved(grouped);
    let nested = if opts.make_cards {
        headers_spec(grouped)
    } else {
        grouped
    };
    lemma_clean_resolved(nested);
}

/// Settled nodes that hold no weight are resolved.
pub proof fn lemma_weightless_resolved(nodes: Seq<IrView>)
    requires
        all_settled(nodes),
        nodes_weight(nodes) == 0,
    ensures
        all_resolved(nodes),
{
    assert forall|i: int| 0 <= i < nodes.len() implies resolved(#[trigger] nodes[i]) by {
        lemma_weight_bound(nodes, i);
    }
}

/// A fragment is settled.
/// Sequences of settled nodes in a row are settled.
proof fn lemma_concat_settled(a: Seq<IrView>, b: Seq<IrView>)
    requires
        all_settled(a),
        all_settled(b),
    ensures
        all_settled(a + b),
{
    assert forall|i: int| 0 <= i < (a + b).len() implies settled(#[trigger] (a + b)[i]) by {
        if i < a.len() {
            assert((a + b)[i] == a[i]);
        } else {
            assert((a + b)[i] == b[i - a.len()]);
        }
    }
}

/// What a parse returns is resolved.
#[verifier::rlimit(40)]
pub proof fn lemma_execute_resolved(
    text: Seq<char>,
    location: LocationView,
    opts: Options,
    validations: Option<Validations>,
)
    ensures
        execute_spec(text, location, opts, validations).payload() matches Some(tree) ==> resolved(
            tree.item,
        ),
    decreases fragment_weight(text, start_mask(validations)) + 16, 9int, 0int,
{
    reveal(execute_spec);
    reveal(reduce_spec);
    let m = start_mask(validations);
    let start = seq![IrView::Unparsed { contents: normalize(text), validations: m }];
    lemma_normalize_len(text);
    lemma_single_weight(start[0]);
    lemma_reduce_resolved(start, location, opts);
    if let Ok((nodes, diagnostics)) = reduce_spec(start, location, opts) {
        lemma_arrange_resolved(nodes, opts);
        assert(resolved(IrView::Div { contents: arrange(nodes, opts) }));
    }
}

/// What a parse whose passes have ended returns is a `Div` whose children are
/// clean.
proof fn lemma_finish_clean(
    reduced: Result<(Seq<IrView>, Seq<Diagnostic>), (Option<LocationView>, Seq<char>)>,
    location: LocationView,
    opts: Options,
)
    ensures
        finish_spec(reduced, location, opts).payload() matches Some(tree) ==> tree.item matches IrView::Div {
            contents,
        } && all_clean(contents),
{
    if let Ok((nodes, diagnostics)) = reduced {
        let grouped = if opts.make_paragraphs {
            paragraphs_spec(nodes)
        } else {
            nodes
        };
        let nested = if opts.make_cards {
            headers_spec(grouped)
        } else {
            grouped
        };
        lemma_clean_is_clean(nested);
    }
}

/// What a parse returns is a `Div` whose children are clean.
pub proof fn lemma_execute_clean(
    text: Seq<char>,
    location: LocationView,
    opts: Options,
    validations: Option<Validations>,
)
    ensures
        execute_spec(text, location, opts, validations).payload() matches Some(tree)
            ==> tree.item matches IrView::Div { contents } && all_clean(contents),
{
    reveal(execute_spec);
    reveal(reduce_spec);
    let m = start_mask(validations);
    let start = seq![IrView::Unparsed { contents: normalize(text), validations: m }];
    lemma_finish_clean(reduce_spec(start, location, opts), location, opts);
}

/// What the passes leave of settled nodes is resolved.
pub proof fn lemma_reduce_resolved(nodes: Seq<IrView>, location: LocationView, opts: Options)
    requires
        all_settled(nodes),
    ensures
        reduce_spec(nodes, location, opts) matches Ok((last, _)) ==> all_resolved(last),
    decreases nodes_weight(nodes), 8int, 0int,
{
    lemma_reduce_step(nodes, location, opts);
    lemma_pass_settled(nodes, location, opts);
    let pass = parse_spec(nodes, location, opts);
    if !(pass is Error) {
        let (next, again) = pass.payload()->0.item;
        if again == ContinueRunning::Yes {
            lemma_reduce_resolved(next, location, opts);
        } else {
            lemma_weightless_resolved(next);
        }
    }
}

/// A pass over settled nodes leaves settled nodes.
#[verifier::rlimit(40)]
pub proof fn lemma_pass_settled(nodes: Seq<IrView>, location: LocationView, opts: Options)
    requires
        all_settled(nodes),
    ensures
        pass_scan(nodes, location, opts).failure.is_none() ==> all_settled(
            pass_scan(nodes, location, opts).nodes,
        ),
    decreases nodes_weight(nodes), 6int, nodes.len(),
{
    if nodes.len() > 0 {
        assert(settled(nodes[nodes.len() - 1]));
        assert forall|i: int| 0 <= i < nodes.drop_last().len() implies settled(
            #[trigger] nodes.drop_last()[i],
        ) by {
            assert(nodes.drop_last()[i] == nodes[i]);
        }
        lemma_pass_settled(nodes.drop_last(), location, opts);
        let before = pass_scan(nodes.drop_last(), location, opts);
        if before.failure.is_none() {
            match nodes.last() {
                IrView::Unparsed { contents, validations } => {
                    lemma_step_settled(contents, location, opts, validations);
                    let step = try_process_spec(contents, location, opts, validations);
                    if !(step is Error) {
                        match step.payload()->0.item {
                            Some(made) => {
                                lemma_concat_settled(before.nodes, made);
                            },
                            None => {
                                lemma_literal_settled(contents);
                                lemma_concat_settled(before.nodes, literal_text(contents));
                            },
                        }
                    }
                },
                node => {
                    lemma_concat_settled(before.nodes, seq![node]);
                    assert(before.nodes + seq![node] =~= before.nodes.push(node));
                },
            }
        }
    }
}

/// Literal text is settled.
proof fn lemma_literal_settled(t: Seq<char>)
    ensures
        all_settled(literal_text(t)),
{
    assert forall|i: int| 0 <= i < literal_text(t).len() implies settled(
        #[trigger] literal_text(t)[i],
    ) by {
        assert(resolved(literal_text(t)[i]));
    }
}

/// What an operator returns is settled: a fragment, settled nodes, and a
/// fragment.
proof fn lemma_split_settled(
    before: Seq<char>,
    m1: Validations,
    middle: Seq<IrView>,
    after: Seq<char>,
    m2: Validations,
)
    requires
        all_settled(middle),
    ensures
        all_settled(fragment(before, m1) + middle + fragment(after, m2)),
{
    lemma_concat_settled(fragment(before, m1), middle);
    lemma_concat_settled(fragment(before, m1) + middle, fragment(after, m2));
}

/// What a directive operator returns is settled.
proof fn lemma_directive_settled(
    t: Seq<char>,
    found: (int, int),
    value: MetadataView,
    m: Validations,
)
    ensures
        all_settled(directive_nodes(t, found, value, m)),
{
    let middle = seq![IrView::Metadata(value)];
    assert(resolved(middle[0]));
    lemma_split_settled(
        t.subrange(0, found.0),
        m,
        middle,
        t.subrange(found.1 + 1, t.len() as int),
        m,
    );
}

/// What the heading operator returns is settled.
proof fn lemma_header_settled(t: Seq<char>, m: Validations)
    ensures
        header_spec(t, m) matches Some(nodes) ==> all_settled(nodes),
{
    if let Some((start, run_end, end)) = header_match(t) {
        let middle = heading_node(heading_level(run_end - start), trim(t.subrange(run_end, end)));
        assert(all_settled(middle)) by {
            if middle.len() > 0 {
                assert(resolved(middle[0]));
            }
        }
        lemma_split_settled(
            t.subrange(0, start),
            Validations { skip_header: true, ..m },
            middle,
            t.subrange(end, t.len() as int),
            m,
        );
    }
}

/// What the directive and heading operators return is settled.
#[verifier::rlimit(40)]
proof fn lemma_directive_step_settled(t: Seq<char>, m: Validations)
    ensures
        directive_step(t, m) matches Some(nodes) ==> all_settled(nodes),
{
    let m2 = Validations { skip_metadata_display_title: true, ..m };
    let m3 = Validations { skip_metadata_keywords: true, ..m2 };
    let m4 = Validations { skip_metadata_series: true, ..m3 };
    let m5 = Validations { skip_metadata_summary: true, ..m4 };
    if let Some(found) = directive_match(t, "!!title"@) {
        lemma_directive_settled(
            t,
            found,
            MetadataView::DisplayTitle(directive_text(t, "!!title"@, found)),
            m2,
        );
    }
    if let Some(found) = directive_match(t, "!!keywords"@) {
        lemma_directive_settled(
            t,
            found,
            MetadataView::Keywords(tokens(directive_text(t, "!!keywords"@, found))),
            m3,
        );
    }
    if let Some(found) = directive_match(t, "!!series"@) {
        lemma_directive_settled(
            t,
            found,
            MetadataView::Series(tokens(directive_text(t, "!!series"@, found))),
            m4,
        );
    }
    if let Some(found) = directive_match(t, "!!summary"@) {
        lemma_directive_settled(
            t,
            found,
            MetadataView::Summary(directive_text(t, "!!summary"@, found)),
            m5,
        );
    }
    lemma_header_settled(t, m5);
}

/// What the inline-code operator returns is settled.
proof fn lemma_inline_code_settled(t: Seq<char>, m: Validations)
    ensures
        inline_code_spec(t, m) matches Some(nodes) ==> all_settled(nodes),
{
    if let Some((open, close)) = inline_code_match(t) {
        let middle = inline_code_node(t.subrange(open + 1, close));
        assert(all_settled(middle)) by {
            if middle.len() > 0 {
                assert(resolved(middle[0]));
            }
        }
        lemma_split_settled(
            t.subrange(0, open),
            Validations { skip_inline_code: true, ..m },
            middle,
            t.subrange(close + 1, t.len() as int),
            m,
        );
    }
}

/// What the link operator returns is settled.
proof fn lemma_link_settled(t: Seq<char>, location: LocationView, m: Validations)
    ensures
        match link_spec(t, location, m).payload() {
            Some(item) => item.item matches Some(nodes) ==> all_settled(nodes),
            None => true,
        },
{
    if let Some(found) = link_match(t) {
        if let Some(target) = link_target(t, found) {
            let before_end = if has_exclamation(t, found.0) {
                found.0 - 1
            } else {
                found.0
            };
            let middle = seq![
                IrView::Link {
                    description: link_description(t, found),
                    url: target.1,
                    link_type: target.0,
                },
            ];
            assert(resolved(middle[0]));
            lemma_split_settled(
                t.subrange(0, before_end),
                Validations { skip_link: true, ..m },
                middle,
                t.subrange(found.3 + 1, t.len() as int),
                m,
            );
        }
    }
}

/// What the inline-code and link operators return is settled.
proof fn lemma_inline_step_settled(t: Seq<char>, location: LocationView, m: Validations)
    ensures
        match inline_step(t, location, m).payload() {
            Some(item) => item.item matches Some(nodes) ==> all_settled(nodes),
            None => true,
        },
{
    lemma_inline_code_settled(t, m);
    lemma_link_settled(t, location, Validations { skip_inline_code: true, ..m });
}

/// What a step returns is settled.
#[verifier::rlimit(40)]
pub proof fn lemma_step_settled(t: Seq<char>, location: LocationView, opts: Options, m: Validations)
    ensures
        match try_process_spec(t, location, opts, m).payload() {
            Some(item) => item.item matches Some(nodes) ==> all_settled(nodes),
            None => true,
        },
    decreases fragment_weight(t, m), 5int, 0int,
{
    let m1 = after_block(m);
    let m6 = after_header(m1);
    lemma_suppressed(m, m6);
    lemma_block_settled(t, opts, m);
    lemma_directive_step_settled(t, m1);
    if !m6.skip_list {
        lemma_list_settled(t, opts, m6);
    }
    lemma_inline_step_settled(t, location, after_list(m6));
}

/// What the block operator returns is settled.
#[verifier::rlimit(40)]
pub proof fn lemma_block_settled(t: Seq<char>, opts: Options, m: Validations)
    ensures
        block_spec(t, opts, m) matches Some(nodes) ==> all_settled(nodes),
    decreases fragment_weight(t, m), 3int, 0int,
{
    reveal(execute_spec);
    lemma_block_match(t);
    if let Some(found) = block_match(t) {
        let code = t.subrange(found.open_end, found.close);
        lemma_suppressed(m, quote_mask(m));
        lemma_execute_resolved(code, Location::spec_nowhere(), opts, Some(quote_mask(m)));
        assert(resolved(block_contents(found.kind, code, opts, m)));
        let before = fragment(
            t.subrange(0, found.start),
            Validations { skip_code_block: true, ..m },
        );
        let block = if code.len() > 0 {
            seq![
                IrView::Block {
                    contents: Box::new(block_contents(found.kind, code, opts, m)),
                    block_kind: found.kind,
                },
            ]
        } else {
            Seq::<IrView>::empty()
        };
        let after = fragment(t.subrange(found.close + 3, t.len() as int), m);
        lemma_concat_settled(before, block);
        lemma_concat_settled(before + block, after);
    }
}

/// The tree of an item is resolved.
proof fn lemma_item_resolved(item: Seq<char>, kind: crate::parser::md::parse_contents::chomp::list::ListKind, m: Validations)
    ensures
        parsed_item(item, kind, m) matches Ok(tree) ==> resolved(tree),
    decreases item_weight(item, m), 2int, 0int,
{
    reveal(execute_spec);
    if let Some((content, mask)) = item_content(item, kind, m) {
        lemma_index_of_bounds(item, ')', 0);
        lemma_suppressed(
            Validations { skip_list: false, ..m },
            Validations { skip_list: true, ..m },
        );
        lemma_suppressed(Validations { skip_list: false, ..m }, m);
        lemma_execute_resolved(content, Location::spec_nowhere(), item_options(), Some(mask));
    }
}

/// The trees of the items of a run are resolved.
proof fn lemma_items_resolved(t: Seq<char>, i: int, kind: crate::parser::md::parse_contents::chomp::list::ListKind, m: Validations)
    ensures
        list_items(t, i, kind, m) matches Ok(items) ==> all_resolved(items),
    decreases list_weight(t, m), 3int, t.len() - i,
{
    if let Some(end) = item_end(t, i) {
        lemma_item_end(t, i);
        lemma_item_resolved(t.subrange(i, end), kind, m);
        lemma_items_resolved(t, end + 1, kind, m);
    }
}

/// What the list operator returns is settled.
pub proof fn lemma_list_settled(t: Seq<char>, opts: Options, m: Validations)
    ensures
        match list_spec(t, opts, m).payload() {
            Some(item) => item.item matches Some(nodes) ==> all_settled(nodes),
            None => true,
        },
    decreases list_weight(t, m), 4int, 0int,
{
    if let Some(start) = crate::parser::md::parse_contents::chomp::list::list_start(t, 0) {
        let first = t.subrange(start, item_end(t, start)->0);
        let kind = crate::parser::md::parse_contents::chomp::list::list_kind(first);
        lemma_items_resolved(t, start, kind, m);
    }
}

/// A pass over resolved nodes changes nothing.
proof fn lemma_pass_keeps(nodes: Seq<IrView>, location: LocationView, opts: Options)
    requires
        all_resolved(nodes),
    ensures
        pass_scan(nodes, location, opts) == (PassScan {
            nodes,
            diagnostics: Seq::<Diagnostic>::empty(),
            progress: false,
            failure: None,
        }),
    decreases nodes.len(),
{
    if nodes.len() > 0 {
        assert(resolved(nodes[nodes.len() - 1]));
        assert forall|i: int| 0 <= i < nodes.drop_last().len() implies resolved(
            #[trigger] nodes.drop_last()[i],
        ) by {
            assert(nodes.drop_last()[i] == nodes[i]);
        }
        lemma_pass_keeps(nodes.drop_last(), location, opts);
        assert(nodes.drop_last().push(nodes.last()) =~= nodes);
    } else {
        assert(nodes =~= Seq::<IrView>::empty());
    }
}

/// A sequence without unresolved fragments is a fixed point of the reduction: a
/// pass over it returns it as it is, without warnings, and asks for no other pass;
/// and so do the passes as a whole.
pub proof fn lemma_fixed_point(nodes: Seq<IrView>, location: LocationView, opts: Options)
    requires
        all_resolved(nodes),
    ensures
        parse_spec(nodes, location, opts) == ResView::Success(
            ItemView { item: (nodes, ContinueRunning::No), location: Some(location) },
        ),
        reduce_spec(nodes, location, opts) == Ok::<
            (Seq<IrView>, Seq<Diagnostic>),
            (Option<LocationView>, Seq<char>),
        >((nodes, Seq::<Diagnostic>::empty())),
{
    lemma_pass_keeps(nodes, location, opts);
    lemma_reduce_step(nodes, location, opts);
}

} // verus!
