//! The content tree that the parser builds, and its mathematical value.

use super::Validations;
use crate::context::{copy_strings, Links, LinksView};
use crate::parser::md::{copy_link, Link};
use crate::text::{lowercase, lowercase_of, string_of, to_chars, without, without_exec};
use vstd::prelude::*;
use vstd::string::StringExecFns;

verus! {

/// What a fenced block holds.
#[derive(Copy, Clone, Debug, PartialEq, Eq, Structural)]
pub enum BlockKind {
    Code,
    Quote,
}

/// What a link points at.
#[derive(Clone, Copy, Debug, PartialEq, Eq, Structural)]
pub enum LinkType {
    Iframe,
    LocalImage,
    Regular,
    Youtube,
}

/// A directive of a document, with its value.
#[derive(Clone, Debug, PartialEq)]
pub enum Metadata {
    DisplayTitle(String),
    Keywords(Vec<String>),
    Series(Vec<String>),
    Summary(String),
}

/// The mathematical value of a [`Metadata`].
pub enum MetadataView {
    DisplayTitle(Seq<char>),
    Keywords(Seq<Seq<char>>),
    Series(Seq<Seq<char>>),
    Summary(Seq<char>),
}

impl DeepView for Metadata {
    type V = MetadataView;

    open spec fn deep_view(&self) -> MetadataView {
        match self {
            Metadata::DisplayTitle(s) => MetadataView::DisplayTitle(s@),
            Metadata::Keywords(v) => MetadataView::Keywords(v.deep_view()),
            Metadata::Series(v) => MetadataView::Series(v.deep_view()),
            Metadata::Summary(s) => MetadataView::Summary(s@),
        }
    }
}

impl Metadata {
    /// A copy of this directive.
    pub fn copy(&self) -> (r: Metadata)
        ensures
            r.deep_view() == self.deep_view(),
    {
        match self {
            Metadata::DisplayTitle(s) => Metadata::DisplayTitle(s.clone()),
            Metadata::Keywords(v) => Metadata::Keywords(copy_strings(v)),
            Metadata::Series(v) => Metadata::Series(copy_strings(v)),
            Metadata::Summary(s) => Metadata::Summary(s.clone()),
        }
    }
}

/// A node of the content tree.
#[derive(Debug, PartialEq)]
pub enum ContentIr {
    /// A fenced block around one node.
    Block { contents: Box<ContentIr>, block_kind: BlockKind },
    /// Nodes that are shown as one unit.
    Card(Vec<ContentIr>),
    /// A plain sequence of nodes.
    Div { contents: Vec<ContentIr> },
    Header { header_size: u32, id: String, text: String },
    InlineCode(String),
    Link { description: String, url: String, link_type: LinkType },
    Metadata(Metadata),
    /// The navigation of a page; the parser carries it without reading it.
    Navigation { links: Links, next: Option<Link>, previous: Option<Link> },
    OrderedList { items: Vec<ContentIr>, numeric: bool },
    Paragraph { children: Vec<ContentIr> },
    Text { text: String },
    /// Raw text that no operator has been through yet, with its mask. No such
    /// node is left when the reduction ends.
    Unparsed { contents: String, validations: Validations },
    UnorderedList { items: Vec<ContentIr> },
}

/// The mathematical value of a [`ContentIr`].
pub enum IrView {
    Block { contents: Box<IrView>, block_kind: BlockKind },
    Card(Seq<IrView>),
    Div { contents: Seq<IrView> },
    Header { header_size: u32, id: Seq<char>, text: Seq<char> },
    InlineCode(Seq<char>),
    Link { description: Seq<char>, url: Seq<char>, link_type: LinkType },
    Metadata(MetadataView),
    Navigation { links: LinksView, next: Option<Seq<char>>, previous: Option<Seq<char>> },
    OrderedList { items: Seq<IrView>, numeric: bool },
    Paragraph { children: Seq<IrView> },
    Text { text: Seq<char> },
    Unparsed { contents: Seq<char>, validations: Validations },
    UnorderedList { items: Seq<IrView> },
}

impl ContentIr {
    /// The values of the children `nodes` of this node.
    pub open spec fn child_models(nodes: Seq<ContentIr>) -> Seq<IrView>
        decreases nodes, 0int,
    {
        Seq::new(
            nodes.len(),
            |i: int|
                if 0 <= i < nodes.len() {
                    nodes[i].model()
                } else {
                    IrView::Card(Seq::empty())
                },
        )
    }

    /// The value of this node.
    pub open spec fn model(&self) -> IrView
        decreases self, 1int,
    {
        match self {
            ContentIr::Block { contents, block_kind } => IrView::Block {
                contents: Box::new(contents.model()),
                block_kind: *block_kind,
            },
            ContentIr::Card(children) => IrView::Card(Self::child_models(children@)),
            ContentIr::Div { contents } => IrView::Div { contents: Self::child_models(contents@) },
            ContentIr::Header { header_size, id, text } => IrView::Header {
                header_size: *header_size,
                id: id@,
                text: text@,
            },
            ContentIr::InlineCode(code) => IrView::InlineCode(code@),
            ContentIr::Link { description, url, link_type } => IrView::Link {
                description: description@,
                url: url@,
                link_type: *link_type,
            },
            ContentIr::Metadata(m) => IrView::Metadata(m.deep_view()),
            ContentIr::Navigation { links, next, previous } => IrView::Navigation {
                links: links.deep_view(),
                next: next.deep_view(),
                previous: previous.deep_view(),
            },
            ContentIr::OrderedList { items, numeric } => IrView::OrderedList {
                items: Self::child_models(items@),
                numeric: *numeric,
            },
            ContentIr::Paragraph { children } => IrView::Paragraph {
                children: Self::child_models(children@),
            },
            ContentIr::Text { text } => IrView::Text { text: text@ },
            ContentIr::Unparsed { contents, validations } => IrView::Unparsed {
                contents: contents@,
                validations: *validations,
            },
            ContentIr::UnorderedList { items } => IrView::UnorderedList {
                items: Self::child_models(items@),
            },
        }
    }
}

impl DeepView for ContentIr {
    type V = IrView;

    open spec fn deep_view(&self) -> IrView {
        self.model()
    }
}

/// The value of a node, one level deep: its children by their `deep_view`.
pub open spec fn unfold(ir: ContentIr) -> IrView {
    match ir {
        ContentIr::Block { contents, block_kind } => IrView::Block {
            contents: Box::new(contents.deep_view()),
            block_kind,
        },
        ContentIr::Card(children) => IrView::Card(children.deep_view()),
        ContentIr::Div { contents } => IrView::Div { contents: contents.deep_view() },
        ContentIr::Header { header_size, id, text } => IrView::Header {
            header_size,
            id: id@,
            text: text@,
        },
        ContentIr::InlineCode(code) => IrView::InlineCode(code@),
        ContentIr::Link { description, url, link_type } => IrView::Link {
            description: description@,
            url: url@,
            link_type,
        },
        ContentIr::Metadata(m) => IrView::Metadata(m.deep_view()),
        ContentIr::Navigation { links, next, previous } => IrView::Navigation {
            links: links.deep_view(),
            next: next.deep_view(),
            previous: previous.deep_view(),
        },
        ContentIr::OrderedList { items, numeric } => IrView::OrderedList {
            items: items.deep_view(),
            numeric,
        },
        ContentIr::Paragraph { children } => IrView::Paragraph { children: children.deep_view() },
        ContentIr::Text { text } => IrView::Text { text: text@ },
        ContentIr::Unparsed { contents, validations } => IrView::Unparsed {
            contents: contents@,
            validations,
        },
        ContentIr::UnorderedList { items } => IrView::UnorderedList { items: items.deep_view() },
    }
}

/// The children of a node have the values that `deep_view` gives their vector.
pub broadcast proof fn lemma_child_models(nodes: Vec<ContentIr>)
    ensures
        #[trigger] ContentIr::child_models(nodes@) == nodes.deep_view(),
{
    assert(ContentIr::child_models(nodes@) =~= nodes.deep_view());
}

/// The value of a node is its value one level deep.
pub broadcast proof fn lemma_unfold(ir: ContentIr)
    ensures
        #[trigger] ir.deep_view() == unfold(ir),
{
    match ir {
        ContentIr::Card(children) => lemma_child_models(children),
        ContentIr::Div { contents } => lemma_child_models(contents),
        ContentIr::OrderedList { items, .. } => lemma_child_models(items),
        ContentIr::Paragraph { children } => lemma_child_models(children),
        ContentIr::UnorderedList { items } => lemma_child_models(items),
        _ => {},
    }
}

/// Appends `node` to `nodes`.
pub fn push_node(nodes: &mut Vec<ContentIr>, node: ContentIr)
    ensures
        final(nodes).deep_view() == old(nodes).deep_view().push(node.deep_view()),
{
    nodes.push(node);
    assert(nodes.deep_view() =~= old(nodes).deep_view().push(node.deep_view()));
}

/// Moves every node of `more` to the end of `nodes`.
pub fn append_nodes(nodes: &mut Vec<ContentIr>, more: Vec<ContentIr>)
    ensures
        final(nodes).deep_view() == old(nodes).deep_view() + more.deep_view(),
{
    let mut more = more;
    let ghost before = nodes.deep_view();
    let ghost added = more.deep_view();
    nodes.append(&mut more);
    assert(nodes.deep_view() =~= before + added);
}

/// A copy of a sequence of nodes.
pub fn copy_nodes(nodes: &Vec<ContentIr>) -> (r: Vec<ContentIr>)
    ensures
        r.deep_view() == nodes.deep_view(),
    decreases nodes, 0int,
{
    let mut r: Vec<ContentIr> = Vec::new();
    let mut i: usize = 0;
    assert(r.deep_view() =~= nodes.deep_view().take(0));
    while i < nodes.len()
        invariant
            i <= nodes@.len(),
            r.deep_view() == nodes.deep_view().take(i as int),
        decreases nodes.len() - i,
    {
        let node = nodes[i].copy();
        push_node(&mut r, node);
        i += 1;
        assert(r.deep_view() =~= nodes.deep_view().take(i as int));
    }
    assert(nodes.deep_view().take(nodes@.len() as int) =~= nodes.deep_view());
    r
}

impl ContentIr {
    /// A copy of this node and of all below it.
    pub fn copy(&self) -> (r: ContentIr)
        ensures
            r.deep_view() == self.deep_view(),
        decreases self, 1int,
    {
        broadcast use lemma_unfold;

        match self {
            ContentIr::Block { contents, block_kind } => ContentIr::Block {
                contents: Box::new(contents.copy()),
                block_kind: *block_kind,
            },
            ContentIr::Card(children) => ContentIr::Card(copy_nodes(children)),
            ContentIr::Div { contents } => ContentIr::Div { contents: copy_nodes(contents) },
            ContentIr::Header { header_size, id, text } => ContentIr::Header {
                header_size: *header_size,
                id: id.clone(),
                text: text.clone(),
            },
            ContentIr::InlineCode(code) => ContentIr::InlineCode(code.clone()),
            ContentIr::Link { description, url, link_type } => ContentIr::Link {
                description: description.clone(),
                url: url.clone(),
                link_type: *link_type,
            },
            ContentIr::Metadata(m) => ContentIr::Metadata(m.copy()),
            ContentIr::Navigation { links, next, previous } => ContentIr::Navigation {
                links: links.copy(),
                next: copy_link(next),
                previous: copy_link(previous),
            },
            ContentIr::OrderedList { items, numeric } => ContentIr::OrderedList {
                items: copy_nodes(items),
                numeric: *numeric,
            },
            ContentIr::Paragraph { children } => ContentIr::Paragraph {
                children: copy_nodes(children),
            },
            ContentIr::Text { text } => ContentIr::Text { text: text.clone() },
            ContentIr::Unparsed { contents, validations } => ContentIr::Unparsed {
                contents: contents.clone(),
                validations: *validations,
            },
            ContentIr::UnorderedList { items } => ContentIr::UnorderedList {
                items: copy_nodes(items),
            },
        }
    }
}

impl Clone for ContentIr {
    fn clone(&self) -> (r: Self)
        ensures
            r.deep_view() == self.deep_view(),
    {
        self.copy()
    }
}

/// The id of the heading of the section `header`: `header` in lowercase, without
/// its spaces, and `_headerId`.
pub open spec fn section_header_id_spec(header: Seq<char>) -> Seq<char> {
    without(lowercase_of(header), ' ', ' ') + "_headerId"@
}

/// The value of the section with the heading `header` over `contents`: a card
/// whose first child is a heading of level 3.
pub open spec fn section_spec(header: Seq<char>, contents: Seq<IrView>) -> IrView {
    IrView::Card(
        seq![
            IrView::Header {
                header_size: 3,
                id: section_header_id_spec(header),
                text: header,
            },
        ] + contents,
    )
}

impl ContentIr {
    /// A section: a card of a heading of level 3 and `contents`.
    pub fn section(header: String, contents: Vec<ContentIr>) -> (r: ContentIr)
        ensures
            r.deep_view() == section_spec(header@, contents.deep_view()),
    {
        let id = Self::section_header_id(header.clone());
        let mut contents = contents;
        let ghost before = contents.deep_view();
        let heading = ContentIr::Header { header_size: 3, id, text: header };
        contents.insert(0, heading);
        proof {
            assert(contents.deep_view() =~= seq![heading.deep_view()] + before);
            lemma_child_models(contents);
        }
        ContentIr::Card(contents)
    }

    /// The id of the heading of the section `header`.
    pub fn section_header_id(header: String) -> (id: String)
        ensures
            id@ == section_header_id_spec(header@),
    {
        let lowered = to_chars(lowercase(header.as_str()).as_str());
        let kept = without_exec(&lowered, 0, lowered.len(), ' ', ' ');
        assert(lowered@.subrange(0, lowered@.len() as int) =~= lowered@);
        let mut id = string_of(&kept);
        id.append("_headerId");
        id
    }

    /// A text node.
    pub fn text(text: String) -> (r: ContentIr)
        ensures
            r.deep_view() == (IrView::Text { text: text@ }),
    {
        ContentIr::Text { text }
    }

    /// The title of a page: a heading of level 2.
    pub fn title(text: String, id: String) -> (r: ContentIr)
        ensures
            r.deep_view() == (IrView::Header { header_size: 2, id: id@, text: text@ }),
    {
        ContentIr::Header { header_size: 2, text, id }
    }
}

} // verus!
