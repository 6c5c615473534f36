//! Resolved trees, and the elements they are shown as.

use crate::html::element::{
    bottom_nav,
    bottom_nav_spec,
    card,
    card_spec,
    code_block,
    code_block_spec,
    div,
    framed,
    header,
    html_of,
    iframe,
    image,
    image_spec,
    inline_code,
    inline_code_spec,
    link,
    list,
    nil,
    p,
    plain,
    push_element,
    text,
    top_nav,
    top_nav_spec,
    youtube,
    Element,
    ElementView,
    KindView,
    ListType,
};
use crate::html::stylesheet::Class;
use crate::html::{Html, HtmlElement};
use crate::parser::md::parse_contents::content_ir::{
    lemma_child_models,
    BlockKind,
    ContentIr,
    IrView,
    LinkType,
};
use crate::text::text_of;
use vstd::prelude::*;
use vstd::string::StringExecFns;

verus! {

/// Whether no unresolved fragment is left at `node` or below it.
pub open spec fn resolved(node: IrView) -> bool
    decreases node,
{
    match node {
        IrView::Unparsed { .. } => false,
        IrView::Block { contents, .. } => resolved(*contents),
        IrView::Card(children) => forall|i: int|
            0 <= i < children.len() ==> resolved(#[trigger] children[i]),
        IrView::Div { contents } => forall|i: int|
            0 <= i < contents.len() ==> resolved(#[trigger] contents[i]),
        IrView::OrderedList { items, .. } => forall|i: int|
            0 <= i < items.len() ==> resolved(#[trigger] items[i]),
        IrView::Paragraph { children } => forall|i: int|
            0 <= i < children.len() ==> resolved(#[trigger] children[i]),
        IrView::UnorderedList { items } => forall|i: int|
            0 <= i < items.len() ==> resolved(#[trigger] items[i]),
        _ => true,
    }
}

/// Whether every node of `nodes` is resolved.
pub open spec fn all_resolved(nodes: Seq<IrView>) -> bool {
    forall|i: int| 0 <= i < nodes.len() ==> resolved(#[trigger] nodes[i])
}

/// A container is resolved exactly where all its children are.
pub proof fn lemma_resolved_node(node: IrView)
    ensures
        match node {
            IrView::Card(children) => resolved(node) == all_resolved(children),
            IrView::Div { contents } => resolved(node) == all_resolved(contents),
            IrView::OrderedList { items, .. } => resolved(node) == all_resolved(items),
            IrView::Paragraph { children } => resolved(node) == all_resolved(children),
            IrView::UnorderedList { items } => resolved(node) == all_resolved(items),
            _ => true,
        },
{
}

/// Whether no unresolved fragment is left among `nodes` or below them.
fn are_resolved(nodes: &Vec<ContentIr>) -> (b: bool)
    ensures
        b == all_resolved(nodes.deep_view()),
    decreases nodes, 0int,
{
    let ghost all = nodes.deep_view();
    let mut i: usize = 0;
    while i < nodes.len()
        invariant
            i <= nodes@.len(),
            all == nodes.deep_view(),
            forall|k: int| 0 <= k < i ==> resolved(#[trigger] all[k]),
        decreases nodes.len() - i,
    {
        if !is_resolved(&nodes[i]) {
            assert(!resolved(all[i as int]));
            return false;
        }
        i += 1;
    }
    true
}

/// Whether no unresolved fragment is left at `node` or below it.
pub fn is_resolved(node: &ContentIr) -> (b: bool)
    ensures
        b == resolved(node.deep_view()),
    decreases node, 1int,
{
    match node {
        ContentIr::Unparsed { .. } => false,
        ContentIr::Block { contents, .. } => is_resolved(contents),
        ContentIr::Card(children) => {
            proof {
                lemma_child_models(*children);
            }
            let b = are_resolved(children);
            proof {
                lemma_resolved_node(node.deep_view());
            }
            b
        },
        ContentIr::Div { contents } => {
            proof {
                lemma_child_models(*contents);
            }
            let b = are_resolved(contents);
            proof {
                lemma_resolved_node(node.deep_view());
            }
            b
        },
        ContentIr::OrderedList { items, numeric } => {
            proof {
                lemma_child_models(*items);
            }
            let b = are_resolved(items);
            proof {
                lemma_resolved_node(node.deep_view());
            }
            b
        },
        ContentIr::Paragraph { children } => {
            proof {
                lemma_child_models(*children);
            }
            let b = are_resolved(children);
            proof {
                lemma_resolved_node(node.deep_view());
            }
            b
        },
        ContentIr::UnorderedList { items } => {
            proof {
                lemma_child_models(*items);
            }
            let b = are_resolved(items);
            proof {
                lemma_resolved_node(node.deep_view());
            }
            b
        },
        ContentIr::Header { .. } => true,
        ContentIr::InlineCode(_) => true,
        ContentIr::Link { .. } => true,
        ContentIr::Metadata(_) => true,
        ContentIr::Navigation { .. } => true,
        ContentIr::Text { .. } => true,
    }
}

/// What `c` is written as in the text of a page: `&amp;` for `&`, `&lt;` for `<`,
/// and itself else.
pub open spec fn escaped_char(c: char) -> Seq<char> {
    if c == '&' {
        "&amp;"@
    } else if c == '<' {
        "&lt;"@
    } else {
        seq![c]
    }
}

/// `s` as it is written in the text of a page.
pub open spec fn escaped(s: Seq<char>) -> Seq<char>
    decreases s.len(),
{
    if s.len() == 0 {
        Seq::<char>::empty()
    } else {
        escaped(s.drop_last()) + escaped_char(s.last())
    }
}

/// `html_escape::encode_text_minimal_to_string` appends its first argument to its
/// second, with `&amp;` in place of every `&` and `&lt;` in place of every `<`.
#[verifier::external_body]
fn escape(s: &str) -> (output: String)
    ensures
        output@ == escaped(s@),
{
    let mut output = String::new();
    html_escape::encode_text_minimal_to_string(s, &mut output);
    output
}

/// The elements of `nodes`, in order.
pub open spec fn elements_of(nodes: Seq<IrView>) -> Seq<ElementView>
    decreases nodes, 0int,
{
    Seq::new(
        nodes.len(),
        |i: int|
            if 0 <= i < nodes.len() {
                element_of(nodes[i])
            } else {
                plain(KindView::Nil)
            },
    )
}

/// The element that `node` is shown as. Text, headings and inline code are
/// escaped; a directive shows as nothing; a code block holds its contents written
/// out; a heading starts with a link to itself.
pub open spec fn element_of(node: IrView) -> ElementView
    decreases node, 1int,
{
    match node {
        IrView::Block { contents, block_kind } => match block_kind {
            BlockKind::Code => code_block_spec(html_of(element_of(*contents))),
            BlockKind::Quote => card_spec(seq![element_of(*contents)], true),
        },
        IrView::Card(children) => card_spec(elements_of(children), false),
        IrView::Div { contents } => plain(KindView::Div { children: elements_of(contents) }),
        IrView::Header { header_size, id, text } => ElementView {
            classes: Seq::<Class>::empty(),
            id: Some(id),
            kind: KindView::Header {
                header_size,
                children: seq![
                    plain(KindView::Link { description: "#"@, redirect: true, url: "#"@ + id }),
                    plain(KindView::Text(escaped(text))),
                ],
            },
        },
        IrView::InlineCode(code) => inline_code_spec(escaped(code)),
        IrView::Link { description, url, link_type } => match link_type {
            LinkType::Iframe => framed(KindView::Iframe { description, url }),
            LinkType::LocalImage => image_spec(None, description, url),
            LinkType::Regular => plain(KindView::Link { description, redirect: true, url }),
            LinkType::Youtube => framed(KindView::Youtube { url }),
        },
        IrView::Metadata(_) => plain(KindView::Nil),
        IrView::Navigation { links, next, previous } => plain(
            KindView::Div { children: seq![bottom_nav_spec(previous, next), top_nav_spec(links)] },
        ),
        IrView::OrderedList { items, numeric } => ElementView {
            classes: seq![Class::List],
            id: None,
            kind: KindView::List {
                items: elements_of(items),
                list_type: if numeric {
                    ListType::OrderedNumeric
                } else {
                    ListType::OrderedAlpha
                },
            },
        },
        IrView::Paragraph { children } => plain(
            KindView::Paragraph { children: elements_of(children) },
        ),
        IrView::Text { text } => plain(KindView::Text(escaped(text))),
        IrView::Unparsed { .. } => plain(KindView::Nil),
        IrView::UnorderedList { items } => ElementView {
            classes: seq![Class::List],
            id: None,
            kind: KindView::List { items: elements_of(items), list_type: ListType::Unordered },
        },
    }
}

/// The text of an optional link.
fn link_text(link: &Option<crate::parser::md::Link>) -> (r: Option<String>)
    ensures
        r.deep_view() == link.deep_view(),
{
    match link {
        Some(link) => Some(text_of(link.to_str())),
        None => None,
    }
}

/// The elements of `nodes`, in order.
fn elements_exec(nodes: &Vec<ContentIr>) -> (elements: Vec<Element>)
    requires
        all_resolved(nodes.deep_view()),
    ensures
        elements.deep_view() == elements_of(nodes.deep_view()),
    decreases nodes, 0int,
{
    let mut elements: Vec<Element> = Vec::new();
    let mut i: usize = 0;
    let ghost all = nodes.deep_view();
    assert(elements.deep_view() =~= elements_of(all).take(0));
    while i < nodes.len()
        invariant
            i <= nodes@.len(),
            all == nodes.deep_view(),
            all_resolved(all),
            elements.deep_view() == elements_of(all).take(i as int),
        decreases nodes.len() - i,
    {
        assert(resolved(all[i as int]));
        let element = element_exec(&nodes[i]);
        push_element(&mut elements, element);
        i += 1;
        assert(elements.deep_view() =~= elements_of(all).take(i as int));
    }
    assert(elements_of(all).take(nodes@.len() as int) =~= elements_of(all));
    elements
}

/// The element that `node` is shown as.
fn element_exec(node: &ContentIr) -> (e: Element)
    requires
        resolved(node.deep_view()),
    ensures
        e.deep_view() == element_of(node.deep_view()),
    decreases node, 1int,
{
    match node {
        ContentIr::Block { contents, block_kind } => match block_kind {
            BlockKind::Code => code_block(element_exec(contents).to_html()),
            BlockKind::Quote => {
                let inner = element_exec(contents);
                let mut children: Vec<Element> = Vec::new();
                children.push(inner);
                assert(children.deep_view() =~= seq![inner.deep_view()]);
                card(children, true)
            },
        },
        ContentIr::Card(children) => {
            proof {
                lemma_child_models(*children);
            }
            card(elements_exec(children), false)
        },
        ContentIr::Div { contents } => {
            proof {
                lemma_child_models(*contents);
            }
            div(elements_exec(contents))
        },
        ContentIr::Header { header_size, id, text: heading } => {
            let mut target = text_of("#");
            target.append(id.as_str());
            let fragment = link(None, text_of("#"), target, true);
            let shown = text(escape(heading.as_str()).as_str());
            let mut children: Vec<Element> = Vec::new();
            children.push(fragment);
            children.push(shown);
            assert(children.deep_view() =~= seq![fragment.deep_view(), shown.deep_view()]);
            header(*header_size, Some(id.clone()), children)
        },
        ContentIr::InlineCode(code) => inline_code(escape(code.as_str())),
        ContentIr::Link { description, url, link_type } => match link_type {
            LinkType::Iframe => iframe(description.clone(), url.clone()),
            LinkType::LocalImage => image(None, description.clone(), url.clone()),
            LinkType::Regular => link(None, description.clone(), url.clone(), true),
            LinkType::Youtube => youtube(url.clone()),
        },
        ContentIr::Metadata(_) => nil(),
        ContentIr::Navigation { links, next, previous } => {
            let bottom = bottom_nav(link_text(previous), link_text(next));
            let top = top_nav(links.copy());
            let mut children: Vec<Element> = Vec::new();
            children.push(bottom);
            children.push(top);
            assert(children.deep_view() =~= seq![bottom.deep_view(), top.deep_view()]);
            div(children)
        },
        ContentIr::OrderedList { items, numeric } => {
            proof {
                lemma_child_models(*items);
            }
            list(
                elements_exec(items),
                if *numeric {
                    ListType::OrderedNumeric
                } else {
                    ListType::OrderedAlpha
                },
            )
        },
        ContentIr::Paragraph { children } => {
            proof {
                lemma_child_models(*children);
            }
            p(elements_exec(children))
        },
        ContentIr::Text { text: shown } => text(escape(shown.as_str()).as_str()),
        ContentIr::Unparsed { .. } => nil(),
        ContentIr::UnorderedList { items } => {
            proof {
                lemma_child_models(*items);
            }
            list(elements_exec(items), ListType::Unordered)
        },
    }
}

impl HtmlElement for ContentIr {
    /// A tree can be shown once it is resolved.
    open spec fn convertible(&self) -> bool {
        resolved(self.deep_view())
    }

    open spec fn element(&self) -> ElementView {
        element_of(self.deep_view())
    }

    fn to_element(&self) -> (e: Element) {
        element_exec(self)
    }
}

} // verus!
