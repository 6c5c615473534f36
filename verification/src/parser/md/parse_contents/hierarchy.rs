//! The passes over the reduced sequence: grouping into paragraphs, nesting under
//! headings, and the removal of empty nodes.

use crate::parser::md::parse_contents::content_ir::{
    lemma_child_models,
    push_node,
    ContentIr,
    IrView,
};
use vstd::prelude::*;

verus! {

/// Whether `node` may stand in a paragraph: text, a link or inline code.
pub open spec fn is_inline(node: IrView) -> bool {
    node is Text || node is Link || node is InlineCode
}

/// Whether `node` is as paragraph grouping leaves the nodes of a sequence: a
/// paragraph with a child at least and inline children only, or a node that is
/// not inline.
pub open spec fn well_grouped(node: IrView) -> bool {
    match node {
        IrView::Paragraph { children } => children.len() > 0 && forall|i: int|
            0 <= i < children.len() ==> is_inline(#[trigger] children[i]),
        _ => !is_inline(node),
    }
}

/// The state of paragraph grouping: the nodes that are done, the children of the
/// paragraph that is open, and whether the last node read was text.
pub struct ParagraphScan {
    pub done: Seq<IrView>,
    pub open: Seq<IrView>,
    pub after_text: bool,
}

impl ParagraphScan {
    /// The nodes that are done once the open paragraph is closed: an open paragraph
    /// without children leaves no node.
    pub open spec fn closed(self) -> Seq<IrView> {
        if self.open.len() > 0 {
            self.done.push(IrView::Paragraph { children: self.open })
        } else {
            self.done
        }
    }

    /// The state after the node `node` is read. A node that is not inline closes the
    /// open paragraph and stands for itself. Text that follows text closes the open
    /// paragraph and starts the next one. Any other inline node joins the open
    /// paragraph.
    pub open spec fn step(self, node: IrView) -> ParagraphScan {
        if !is_inline(node) {
            ParagraphScan {
                done: self.closed().push(node),
                open: Seq::<IrView>::empty(),
                after_text: false,
            }
        } else if self.after_text && node is Text && self.open.len() > 0 {
            ParagraphScan { done: self.closed(), open: seq![node], after_text: true }
        } else {
            ParagraphScan { done: self.done, open: self.open.push(node), after_text: node is Text }
        }
    }
}

/// The state of paragraph grouping after all of `nodes` is read.
pub open spec fn paragraph_scan(nodes: Seq<IrView>) -> ParagraphScan
    decreases nodes.len(),
{
    if nodes.len() == 0 {
        ParagraphScan {
            done: Seq::<IrView>::empty(),
            open: Seq::<IrView>::empty(),
            after_text: false,
        }
    } else {
        paragraph_scan(nodes.drop_last()).step(nodes.last())
    }
}

/// `nodes` with each run of inline nodes gathered into a paragraph, where two
/// texts in a row end one paragraph and start the next.
pub open spec fn paragraphs_spec(nodes: Seq<IrView>) -> Seq<IrView> {
    paragraph_scan(nodes).closed()
}

/// The state of header nesting: the nodes that are done, and the heading that is
/// open with the nodes read since.
pub struct HeaderScan {
    pub done: Seq<IrView>,
    pub open: Option<(IrView, Seq<IrView>)>,
}

impl HeaderScan {
    /// The nodes that are done once the open heading is closed: a card of the
    /// heading and of a `Div` with the nodes read since.
    pub open spec fn closed(self) -> Seq<IrView> {
        match self.open {
            Some((heading, below)) => self.done.push(
                IrView::Card(seq![heading, IrView::Div { contents: below }]),
            ),
            None => self.done,
        }
    }

    /// The state after the node `node` is read. A heading closes the one that is
    /// open and opens itself. Any other node goes below the open heading, or stands
    /// for itself where none is open.
    pub open spec fn step(self, node: IrView) -> HeaderScan {
        if node is Header {
            HeaderScan { done: self.closed(), open: Some((node, Seq::<IrView>::empty())) }
        } else {
            match self.open {
                Some((heading, below)) => HeaderScan {
                    done: self.done,
                    open: Some((heading, below.push(node))),
                },
                None => HeaderScan { done: self.done.push(node), open: None },
            }
        }
    }
}

/// The state of header nesting after all of `nodes` is read.
pub open spec fn header_scan(nodes: Seq<IrView>) -> HeaderScan
    decreases nodes.len(),
{
    if nodes.len() == 0 {
        HeaderScan { done: Seq::<IrView>::empty(), open: None }
    } else {
        header_scan(nodes.drop_last()).step(nodes.last())
    }
}

/// `nodes` with each heading, and what follows it up to the next heading, nested
/// into a card. What stands before the first heading stays as it is.
pub open spec fn headers_spec(nodes: Seq<IrView>) -> Seq<IrView> {
    header_scan(nodes).closed()
}

/// `node` without the empty nodes below it, or `None` where `node` itself is
/// empty: text, inline code or a heading without characters, or a container whose
/// children are all empty.
pub open spec fn clean_node(node: IrView) -> Option<IrView>
    decreases node,
{
    match node {
        IrView::Block { contents, block_kind } => match clean_node(*contents) {
            Some(inner) => Some(IrView::Block { contents: Box::new(inner), block_kind }),
            None => None,
        },
        IrView::Card(children) => {
            let kept = clean_spec(children);
            if kept.len() > 0 {
                Some(IrView::Card(kept))
            } else {
                None
            }
        },
        IrView::Div { contents } => {
            let kept = clean_spec(contents);
            if kept.len() > 0 {
                Some(IrView::Div { contents: kept })
            } else {
                None
            }
        },
        IrView::Header { text, .. } => if text.len() > 0 {
            Some(node)
        } else {
            None
        },
        IrView::InlineCode(code) => if code.len() > 0 {
            Some(node)
        } else {
            None
        },
        IrView::OrderedList { items, numeric } => {
            let kept = clean_spec(items);
            if kept.len() > 0 {
                Some(IrView::OrderedList { items: kept, numeric })
            } else {
                None
            }
        },
        IrView::Paragraph { children } => {
            let kept = clean_spec(children);
            if kept.len() > 0 {
                Some(IrView::Paragraph { children: kept })
            } else {
                None
            }
        },
        IrView::Text { text } => if text.len() > 0 {
            Some(node)
        } else {
            None
        },
        IrView::UnorderedList { items } => {
            let kept = clean_spec(items);
            if kept.len() > 0 {
                Some(IrView::UnorderedList { items: kept })
            } else {
                None
            }
        },
        _ => Some(node),
    }
}

/// The nodes of `nodes` that are not empty, in order, each without the empty nodes
/// below it.
pub open spec fn clean_spec(nodes: Seq<IrView>) -> Seq<IrView>
    decreases nodes,
{
    if nodes.len() == 0 {
        Seq::<IrView>::empty()
    } else {
        match clean_node(nodes.last()) {
            Some(kept) => clean_spec(nodes.drop_last()).push(kept),
            None => clean_spec(nodes.drop_last()),
        }
    }
}

/// Whether `node` holds something at every depth: its texts, its inline code and
/// its headings have characters, and its containers have children that do so too.
pub open spec fn is_clean(node: IrView) -> bool
    decreases node,
{
    match node {
        IrView::Block { contents, .. } => is_clean(*contents),
        IrView::Card(children) => children.len() > 0 && forall|i: int|
            0 <= i < children.len() ==> is_clean(#[trigger] children[i]),
        IrView::Div { contents } => contents.len() > 0 && forall|i: int|
            0 <= i < contents.len() ==> is_clean(#[trigger] contents[i]),
        IrView::Header { text, .. } => text.len() > 0,
        IrView::InlineCode(code) => code.len() > 0,
        IrView::OrderedList { items, .. } => items.len() > 0 && forall|i: int|
            0 <= i < items.len() ==> is_clean(#[trigger] items[i]),
        IrView::Paragraph { children } => children.len() > 0 && forall|i: int|
            0 <= i < children.len() ==> is_clean(#[trigger] children[i]),
        IrView::Text { text } => text.len() > 0,
        IrView::UnorderedList { items } => items.len() > 0 && forall|i: int|
            0 <= i < items.len() ==> is_clean(#[trigger] items[i]),
        _ => true,
    }
}

/// Whether every node of `nodes` is clean.
pub open spec fn all_clean(nodes: Seq<IrView>) -> bool {
    forall|i: int| 0 <= i < nodes.len() ==> is_clean(#[trigger] nodes[i])
}

/// What cleaning keeps of a node is clean.
pub proof fn lemma_clean_node_is_clean(node: IrView)
    ensures
        clean_node(node) matches Some(kept) ==> is_clean(kept),
    decreases node,
{
    match node {
        IrView::Block { contents, .. } => lemma_clean_node_is_clean(*contents),
        IrView::Card(children) => lemma_clean_is_clean(children),
        IrView::Div { contents } => lemma_clean_is_clean(contents),
        IrView::OrderedList { items, .. } => lemma_clean_is_clean(items),
        IrView::Paragraph { children } => lemma_clean_is_clean(children),
        IrView::UnorderedList { items } => lemma_clean_is_clean(items),
        _ => {},
    }
}

/// Cleaning leaves no empty node at any depth.
pub proof fn lemma_clean_is_clean(nodes: Seq<IrView>)
    ensures
        all_clean(clean_spec(nodes)),
    decreases nodes,
{
    if nodes.len() > 0 {
        lemma_clean_is_clean(nodes.drop_last());
        lemma_clean_node_is_clean(nodes.last());
    }
}

/// Cleaning keeps a clean node as it is.
pub proof fn lemma_clean_node_keeps(node: IrView)
    requires
        is_clean(node),
    ensures
        clean_node(node) == Some(node),
    decreases node,
{
    match node {
        IrView::Block { contents, .. } => lemma_clean_node_keeps(*contents),
        IrView::Card(children) => lemma_clean_keeps(children),
        IrView::Div { contents } => lemma_clean_keeps(contents),
        IrView::OrderedList { items, .. } => lemma_clean_keeps(items),
        IrView::Paragraph { children } => lemma_clean_keeps(children),
        IrView::UnorderedList { items } => lemma_clean_keeps(items),
        _ => {},
    }
}

/// Cleaning what is clean changes nothing: cleaning twice is cleaning once.
pub proof fn lemma_clean_keeps(nodes: Seq<IrView>)
    requires
        all_clean(nodes),
    ensures
        clean_spec(nodes) == nodes,
    decreases nodes,
{
    if nodes.len() > 0 {
        assert(is_clean(nodes[nodes.len() - 1]));
        assert forall|i: int| 0 <= i < nodes.drop_last().len() implies is_clean(
            #[trigger] nodes.drop_last()[i],
        ) by {
            assert(nodes.drop_last()[i] == nodes[i]);
        }
        lemma_clean_keeps(nodes.drop_last());
        lemma_clean_node_keeps(nodes.last());
        assert(nodes.drop_last().push(nodes.last()) =~= nodes);
    } else {
        assert(clean_spec(nodes) =~= nodes);
    }
}

/// After header nesting no heading stands for itself: each is the first of the
/// two children of a card, and the second is a `Div`.
pub proof fn lemma_headers_nested(nodes: Seq<IrView>)
    ensures
        forall|i: int|
            0 <= i < header_scan(nodes).done.len() ==> !(#[trigger] header_scan(nodes).done[i]
                is Header),
        header_scan(nodes).open matches Some((heading, below)) ==> heading is Header && forall|
            i: int,
        |
            0 <= i < below.len() ==> !(#[trigger] below[i] is Header),
        forall|i: int|
            0 <= i < headers_spec(nodes).len() ==> !(#[trigger] headers_spec(nodes)[i] is Header),
    decreases nodes.len(),
{
    if nodes.len() > 0 {
        lemma_headers_nested(nodes.drop_last());
    }
}

/// Where no node of `nodes` is a heading, header nesting leaves `nodes` as they
/// are: what stands before the first heading is not wrapped.
pub proof fn lemma_headers_without_heading(nodes: Seq<IrView>)
    requires
        forall|i: int| 0 <= i < nodes.len() ==> !(#[trigger] nodes[i] is Header),
    ensures
        header_scan(nodes).open.is_none(),
        header_scan(nodes).done == nodes,
        headers_spec(nodes) == nodes,
    decreases nodes.len(),
{
    if nodes.len() > 0 {
        assert(!(nodes[nodes.len() - 1] is Header));
        assert forall|i: int| 0 <= i < nodes.drop_last().len() implies !(
        #[trigger] nodes.drop_last()[i] is Header) by {
            assert(nodes.drop_last()[i] == nodes[i]);
        }
        lemma_headers_without_heading(nodes.drop_last());
        assert(nodes.drop_last().push(nodes.last()) =~= nodes);
    } else {
        assert(header_scan(nodes).done =~= nodes);
    }
}

/// Every paragraph that paragraph grouping makes has a child, and inline
/// children only; and no inline node is left outside a paragraph.
pub proof fn lemma_paragraphs_grouped(nodes: Seq<IrView>)
    requires
        forall|i: int| 0 <= i < nodes.len() ==> !(#[trigger] nodes[i] is Paragraph),
    ensures
        forall|i: int|
            0 <= i < paragraph_scan(nodes).open.len() ==> is_inline(
                #[trigger] paragraph_scan(nodes).open[i],
            ),
        forall|i: int|
            0 <= i < paragraph_scan(nodes).done.len() ==> well_grouped(
                #[trigger] paragraph_scan(nodes).done[i],
            ),
        forall|i: int|
            0 <= i < paragraphs_spec(nodes).len() ==> well_grouped(
                #[trigger] paragraphs_spec(nodes)[i],
            ),
    decreases nodes.len(),
{
    if nodes.len() > 0 {
        assert(!(nodes[nodes.len() - 1] is Paragraph));
        assert forall|i: int| 0 <= i < nodes.drop_last().len() implies !(
        #[trigger] nodes.drop_last()[i] is Paragraph) by {
            assert(nodes.drop_last()[i] == nodes[i]);
        }
        lemma_paragraphs_grouped(nodes.drop_last());
        let before = paragraph_scan(nodes.drop_last());
        assert(before.open.len() > 0 ==> well_grouped(
            IrView::Paragraph { children: before.open },
        ));
        let after = paragraph_scan(nodes);
        assert(after.open.len() > 0 ==> well_grouped(IrView::Paragraph { children: after.open }));
    }
}

/// Whether `node` is a heading.
fn is_heading(node: &ContentIr) -> (b: bool)
    ensures
        b == (node.deep_view() is Header),
{
    match node {
        ContentIr::Header { .. } => true,
        _ => false,
    }
}

/// Whether `node` is text.
fn is_text_node(node: &ContentIr) -> (b: bool)
    ensures
        b == (node.deep_view() is Text),
{
    match node {
        ContentIr::Text { .. } => true,
        _ => false,
    }
}

/// Whether `node` may stand in a paragraph.
fn is_inline_node(node: &ContentIr) -> (b: bool)
    ensures
        b == is_inline(node.deep_view()),
{
    match node {
        ContentIr::Text { .. } => true,
        ContentIr::Link { .. } => true,
        ContentIr::InlineCode(_) => true,
        _ => false,
    }
}

/// The card for the heading `heading` and the nodes `below` it.
fn heading_card(heading: ContentIr, below: Vec<ContentIr>) -> (card: ContentIr)
    ensures
        card.deep_view() == IrView::Card(
            seq![heading.deep_view(), IrView::Div { contents: below.deep_view() }],
        ),
{
    let inner = ContentIr::Div { contents: below };
    proof {
        lemma_child_models(below);
    }
    let mut pair: Vec<ContentIr> = Vec::new();
    pair.push(heading);
    pair.push(inner);
    assert(pair.deep_view() =~= seq![heading.deep_view(), inner.deep_view()]);
    proof {
        lemma_child_models(pair);
    }
    ContentIr::Card(pair)
}

/// The paragraph with the children `children`.
fn paragraph_of(children: Vec<ContentIr>) -> (paragraph: ContentIr)
    ensures
        paragraph.deep_view() == (IrView::Paragraph { children: children.deep_view() }),
{
    proof {
        lemma_child_models(children);
    }
    ContentIr::Paragraph { children }
}

/// Nests each heading of `ir`, with what follows it, into a card. No heading is
/// left standing for itself.
#[verifier::rlimit(40)]
pub fn headers(ir: Vec<ContentIr>) -> (contents: Vec<ContentIr>)
    ensures
        contents.deep_view() == headers_spec(ir.deep_view()),
        forall|i: int|
            0 <= i < contents.deep_view().len() ==> !(#[trigger] contents.deep_view()[i]
                is Header),
{
    proof {
        lemma_headers_nested(ir.deep_view());
    }

    let mut contents: Vec<ContentIr> = Vec::new();
    let mut heading: Option<ContentIr> = None;
    let mut below: Vec<ContentIr> = Vec::new();
    let mut i: usize = 0;
    assert(contents.deep_view() =~= Seq::<IrView>::empty());
    assert(ir.deep_view().take(0) =~= Seq::<IrView>::empty());
    while i < ir.len()
        invariant
            i <= ir@.len(),
            ({
                let st = header_scan(ir.deep_view().take(i as int));
                &&& st.done == contents.deep_view()
                &&& match st.open {
                    Some((h, b)) => heading.deep_view() == Some(h) && b == below.deep_view(),
                    None => heading.is_none(),
                }
            }),
        decreases ir.len() - i,
    {
        let node = ir[i].copy();
        assert(ir.deep_view().take(i + 1).drop_last() =~= ir.deep_view().take(i as int));
        assert(ir.deep_view().take(i + 1).last() == node.deep_view());
        if is_heading(&node) {
            match heading {
                Some(h) => {
                    push_node(&mut contents, heading_card(h, below));
                },
                None => {},
            }
            below = Vec::new();
            assert(below.deep_view() =~= Seq::<IrView>::empty());
            heading = Some(node);
        } else if heading.is_some() {
            push_node(&mut below, node);
        } else {
            push_node(&mut contents, node);
        }
        i += 1;
    }
    assert(ir.deep_view().take(ir@.len() as int) =~= ir.deep_view());
    match heading {
        Some(h) => {
            push_node(&mut contents, heading_card(h, below));
        },
        None => {},
    }
    contents
}

/// Gathers each run of inline nodes of `ir` into a paragraph. Where `ir` holds no
/// paragraph yet, every paragraph of the result has a child and inline children
/// only, and no inline node is left outside a paragraph.
#[verifier::rlimit(40)]
pub fn paragraphs(ir: Vec<ContentIr>) -> (contents: Vec<ContentIr>)
    ensures
        contents.deep_view() == paragraphs_spec(ir.deep_view()),
        (forall|i: int| 0 <= i < ir.deep_view().len() ==> !(#[trigger] ir.deep_view()[i]
            is Paragraph)) ==> forall|i: int|
            0 <= i < contents.deep_view().len() ==> well_grouped(
                #[trigger] contents.deep_view()[i],
            ),
{
    proof {
        if forall|i: int| 0 <= i < ir.deep_view().len() ==> !(#[trigger] ir.deep_view()[i]
            is Paragraph) {
            lemma_paragraphs_grouped(ir.deep_view());
        }
    }

    let mut contents: Vec<ContentIr> = Vec::new();
    let mut open: Vec<ContentIr> = Vec::new();
    let mut after_text = false;
    let mut i: usize = 0;
    assert(contents.deep_view() =~= Seq::<IrView>::empty());
    assert(open.deep_view() =~= Seq::<IrView>::empty());
    assert(ir.deep_view().take(0) =~= Seq::<IrView>::empty());
    while i < ir.len()
        invariant
            i <= ir@.len(),
            ({
                let st = paragraph_scan(ir.deep_view().take(i as int));
                &&& st.done == contents.deep_view()
                &&& st.open == open.deep_view()
                &&& st.after_text == after_text
            }),
        decreases ir.len() - i,
    {
        let node = ir[i].copy();
        assert(ir.deep_view().take(i + 1).drop_last() =~= ir.deep_view().take(i as int));
        assert(ir.deep_view().take(i + 1).last() == node.deep_view());
        let is_text = is_text_node(&node);
        let inline = is_inline_node(&node);
        if !inline {
            if open.len() > 0 {
                push_node(&mut contents, paragraph_of(open));
            }
            open = Vec::new();
            assert(open.deep_view() =~= Seq::<IrView>::empty());
            push_node(&mut contents, node);
        } else {
            if after_text && is_text && open.len() > 0 {
                push_node(&mut contents, paragraph_of(open));
                open = Vec::new();
                assert(open.deep_view() =~= Seq::<IrView>::empty());
            }
            push_node(&mut open, node);
        }
        after_text = is_text;
        i += 1;
    }
    assert(ir.deep_view().take(ir@.len() as int) =~= ir.deep_view());
    if open.len() > 0 {
        push_node(&mut contents, paragraph_of(open));
    }
    contents
}

/// `node` without the empty nodes below it, or `None` where it is empty itself.
fn clean_one(node: &ContentIr) -> (r: Option<ContentIr>)
    ensures
        r.deep_view() == clean_node(node.deep_view()),
    decreases node, 1int,
{
    match node {
        ContentIr::Block { contents, block_kind } => match clean_one(contents) {
            Some(inner) => Some(
                ContentIr::Block { contents: Box::new(inner), block_kind: *block_kind },
            ),
            None => None,
        },
        ContentIr::Card(children) => {
            let kept = clean_all(children);
            proof {
                lemma_child_models(*children);
                lemma_child_models(kept);
            }
            if kept.len() > 0 {
                Some(ContentIr::Card(kept))
            } else {
                None
            }
        },
        ContentIr::Div { contents } => {
            let kept = clean_all(contents);
            proof {
                lemma_child_models(*contents);
                lemma_child_models(kept);
            }
            if kept.len() > 0 {
                Some(ContentIr::Div { contents: kept })
            } else {
                None
            }
        },
        ContentIr::Header { text, .. } => if text.as_str().unicode_len() > 0 {
            Some(node.copy())
        } else {
            None
        },
        ContentIr::InlineCode(code) => if code.as_str().unicode_len() > 0 {
            Some(node.copy())
        } else {
            None
        },
        ContentIr::OrderedList { items, numeric } => {
            let kept = clean_all(items);
            proof {
                lemma_child_models(*items);
                lemma_child_models(kept);
            }
            if kept.len() > 0 {
                Some(ContentIr::OrderedList { items: kept, numeric: *numeric })
            } else {
                None
            }
        },
        ContentIr::Paragraph { children } => {
            let kept = clean_all(children);
            proof {
                lemma_child_models(*children);
                lemma_child_models(kept);
            }
            if kept.len() > 0 {
                Some(ContentIr::Paragraph { children: kept })
            } else {
                None
            }
        },
        ContentIr::Text { text } => if text.as_str().unicode_len() > 0 {
            Some(node.copy())
        } else {
            None
        },
        ContentIr::UnorderedList { items } => {
            let kept = clean_all(items);
            proof {
                lemma_child_models(*items);
                lemma_child_models(kept);
            }
            if kept.len() > 0 {
                Some(ContentIr::UnorderedList { items: kept })
            } else {
                None
            }
        },
        _ => Some(node.copy()),
    }
}

/// The nodes of `nodes` that are not empty, each without the empty nodes below it.
fn clean_all(nodes: &Vec<ContentIr>) -> (cleaned: Vec<ContentIr>)
    ensures
        cleaned.deep_view() == clean_spec(nodes.deep_view()),
    decreases nodes, 0int,
{
    let mut cleaned: Vec<ContentIr> = Vec::new();
    let mut i: usize = 0;
    assert(cleaned.deep_view() =~= Seq::<IrView>::empty());
    assert(nodes.deep_view().take(0) =~= Seq::<IrView>::empty());
    while i < nodes.len()
        invariant
            i <= nodes@.len(),
            cleaned.deep_view() == clean_spec(nodes.deep_view().take(i as int)),
        decreases nodes.len() - i,
    {
        assert(nodes.deep_view().take(i + 1).drop_last() =~= nodes.deep_view().take(i as int));
        assert(nodes.deep_view().take(i + 1).last() == nodes[i as int].deep_view());
        match clean_one(&nodes[i]) {
            Some(kept) => {
                push_node(&mut cleaned, kept);
            },
            None => {},
        }
        i += 1;
    }
    assert(nodes.deep_view().take(nodes@.len() as int) =~= nodes.deep_view());
    cleaned
}

/// Removes every empty node from `contents`, at any depth.
pub fn clean(contents: Vec<ContentIr>) -> (cleaned: Vec<ContentIr>)
    ensures
        cleaned.deep_view() == clean_spec(contents.deep_view()),
        all_clean(cleaned.deep_view()),
{
    proof {
        lemma_clean_is_clean(contents.deep_view());
    }
    clean_all(&contents)
}

} // verus!
