//! The elements of a page, and how each is written out.

use crate::context::{Links, LinksView};
use crate::html::stylesheet::{Alignment, Class, Position};
use crate::html::Html;
use crate::text::{decimal, join, push_decimal, push_string, text_of};
use vstd::prelude::*;
use vstd::string::StringExecFns;

verus! {

/// How the items of a list are marked.
#[derive(Clone, Copy, Debug, PartialEq, Eq, Structural)]
pub enum ListType {
    OrderedAlpha,
    OrderedNumeric,
    Unordered,
}

/// What an element is.
#[derive(Debug, PartialEq)]
pub enum Kind {
    Card(String),
    Codeblock(String),
    Div { children: Vec<Element> },
    Header { header_size: u32, children: Vec<Element> },
    Iframe { description: String, url: String },
    Image { description: String, url: String },
    Link { description: String, redirect: bool, url: String },
    List { items: Vec<Element>, list_type: ListType },
    Nil,
    Paragraph { children: Vec<Element> },
    Span { children: Vec<Element> },
    Text(String),
    Youtube { url: String },
}

/// An element of a page: what it is, its style classes and its id.
#[derive(Debug, PartialEq)]
pub struct Element {
    pub classes: Vec<Class>,
    pub id: Option<String>,
    pub kind: Kind,
}

/// The mathematical value of a [`Kind`].
pub enum KindView {
    Card(Seq<char>),
    Codeblock(Seq<char>),
    Div { children: Seq<ElementView> },
    Header { header_size: u32, children: Seq<ElementView> },
    Iframe { description: Seq<char>, url: Seq<char> },
    Image { description: Seq<char>, url: Seq<char> },
    Link { description: Seq<char>, redirect: bool, url: Seq<char> },
    List { items: Seq<ElementView>, list_type: ListType },
    Nil,
    Paragraph { children: Seq<ElementView> },
    Span { children: Seq<ElementView> },
    Text(Seq<char>),
    Youtube { url: Seq<char> },
}

/// The mathematical value of an [`Element`].
pub struct ElementView {
    pub classes: Seq<Class>,
    pub id: Option<Seq<char>>,
    pub kind: KindView,
}

impl Element {
    /// The values of the children `elements` of an element.
    pub open spec fn child_models(elements: Seq<Element>) -> Seq<ElementView>
        decreases elements, 0int,
    {
        Seq::new(
            elements.len(),
            |i: int|
                if 0 <= i < elements.len() {
                    elements[i].model()
                } else {
                    ElementView { classes: Seq::empty(), id: None, kind: KindView::Nil }
                },
        )
    }

    /// The value of this element.
    pub open spec fn model(&self) -> ElementView
        decreases self, 1int,
    {
        ElementView {
            classes: self.classes@,
            id: self.id.deep_view(),
            kind: match self.kind {
                Kind::Card(text) => KindView::Card(text@),
                Kind::Codeblock(text) => KindView::Codeblock(text@),
                Kind::Div { children } => KindView::Div { children: Self::child_models(children@) },
                Kind::Header { header_size, children } => KindView::Header {
                    header_size,
                    children: Self::child_models(children@),
                },
                Kind::Iframe { description, url } => KindView::Iframe {
                    description: description@,
                    url: url@,
                },
                Kind::Image { description, url } => KindView::Image {
                    description: description@,
                    url: url@,
                },
                Kind::Link { description, redirect, url } => KindView::Link {
                    description: description@,
                    redirect,
                    url: url@,
                },
                Kind::List { items, list_type } => KindView::List {
                    items: Self::child_models(items@),
                    list_type,
                },
                Kind::Nil => KindView::Nil,
                Kind::Paragraph { children } => KindView::Paragraph {
                    children: Self::child_models(children@),
                },
                Kind::Span { children } => KindView::Span {
                    children: Self::child_models(children@),
                },
                Kind::Text(text) => KindView::Text(text@),
                Kind::Youtube { url } => KindView::Youtube { url: url@ },
            },
        }
    }
}

impl DeepView for Element {
    type V = ElementView;

    open spec fn deep_view(&self) -> ElementView {
        self.model()
    }
}

/// The children of an element have the values that `deep_view` gives their
/// vector.
pub proof fn lemma_child_elements(elements: Vec<Element>)
    ensures
        Element::child_models(elements@) == elements.deep_view(),
{
    assert(Element::child_models(elements@) =~= elements.deep_view());
}

/// Appends `element` to `elements`.
pub fn push_element(elements: &mut Vec<Element>, element: Element)
    ensures
        final(elements).deep_view() == old(elements).deep_view().push(element.deep_view()),
{
    elements.push(element);
    assert(elements.deep_view() =~= old(elements).deep_view().push(element.deep_view()));
}

/// The classes `classes` as the attribute of an element: nothing where there are
/// none.
pub open spec fn class_attribute(classes: Seq<Class>) -> Seq<char> {
    if classes.len() == 0 {
        Seq::<char>::empty()
    } else {
        "class=\""@ + join(Seq::new(classes.len(), |i: int| classes[i].selector_text()), " "@)
            + "\""@
    }
}

/// The id `id` as the attribute of an element: nothing where there is none.
pub open spec fn id_attribute(id: Option<Seq<char>>) -> Seq<char> {
    match id {
        Some(id) => "id=\""@ + id + "\""@,
        None => Seq::<char>::empty(),
    }
}

/// The element with the tag `tag`, the attributes `id`, `attributes` and `css`, and
/// the contents `children`.
pub open spec fn tagged(
    tag: Seq<char>,
    id: Seq<char>,
    attributes: Seq<char>,
    css: Seq<char>,
    children: Seq<char>,
) -> Seq<char> {
    "<"@ + tag + " "@ + id + " "@ + attributes + " "@ + css + ">"@ + children + "</"@ + tag + ">"@
}

/// The attributes of an embedded frame that shows `url` under the title `title`.
pub open spec fn frame_attributes(indent: Seq<char>, url: Seq<char>, title: Seq<char>) -> Seq<
    char,
> {
    "\n"@ + indent + "src=\""@ + url + "\" \n"@ + indent + "title=\""@ + title + "\" \n"@ + indent
        + "frameborder=\"0\" \n"@ + indent
        + "allow=\"accelerometer; autoplay; clipboard-write; encrypted-media; gyroscope; picture-in-picture\" \n"@
        + indent + "allowfullscreen"@
}

/// The elements `elements` written out, with `sep` between each two.
pub open spec fn html_of_all(elements: Seq<ElementView>, sep: Seq<char>) -> Seq<char>
    decreases elements, 0int,
{
    if elements.len() == 0 {
        Seq::<char>::empty()
    } else if elements.len() == 1 {
        html_of(elements[0])
    } else {
        html_of_all(elements.drop_last(), sep) + sep + html_of(elements.last())
    }
}

/// The items `items` of a list written out, each between `<li>` and `</li>`.
pub open spec fn html_of_items(items: Seq<ElementView>) -> Seq<char>
    decreases items, 0int,
{
    if items.len() == 0 {
        Seq::<char>::empty()
    } else {
        html_of_items(items.drop_last()) + "<li>"@ + html_of(items.last()) + "</li>"@
    }
}

/// The element `element` written out. Text stands for itself and `Nil` for
/// nothing; every other element is a tag with its id, its attributes and its
/// classes around its contents.
pub open spec fn html_of(element: ElementView) -> Seq<char>
    decreases element, 1int,
{
    let id = id_attribute(element.id);
    let css = class_attribute(element.classes);
    let none = ""@;
    match element.kind {
        KindView::Card(contents) => tagged("div"@, id, none, css, contents),
        KindView::Codeblock(text) => tagged("div"@, id, none, css, text),
        KindView::Div { children } => tagged("div"@, id, none, css, html_of_all(children, "\n"@)),
        KindView::Header { header_size, children } => tagged(
            "h"@ + decimal(header_size as nat),
            id,
            none,
            css,
            html_of_all(children, "\n"@),
        ),
        KindView::List { items, list_type } => match list_type {
            ListType::OrderedAlpha => tagged("ol"@, id, "type=\"a\""@, css, html_of_items(items)),
            ListType::OrderedNumeric => tagged(
                "ol"@,
                id,
                "type=\"1\""@,
                css,
                html_of_items(items),
            ),
            ListType::Unordered => tagged("ul"@, id, none, css, html_of_items(items)),
        },
        KindView::Link { description, redirect, url } => tagged(
            "a"@,
            id,
            "href=\""@ + url + "\" "@ + if redirect {
                ""@
            } else {
                "target=\"_blank\" rel=\"noreferrer noopener\""@
            },
            css,
            description,
        ),
        KindView::Iframe { description, url } => tagged(
            "iframe"@,
            id,
            frame_attributes("                    "@, url, description),
            css,
            none,
        ),
        KindView::Image { description, url } => tagged(
            "img"@,
            id,
            "src=\""@ + url + "\" alt=\""@ + description + "\""@,
            css,
            none,
        ),
        KindView::Nil => Seq::<char>::empty(),
        KindView::Paragraph { children } => tagged("p"@, id, none, css, html_of_all(children, ""@)),
        KindView::Span { children } => tagged("span"@, id, none, css, html_of_all(children, ""@)),
        KindView::Text(text) => text,
        KindView::Youtube { url } => tagged(
            "iframe"@,
            id,
            frame_attributes("                        "@, url, "YouTube video player"@),
            css,
            none,
        ),
    }
}

/// The classes `classes` as the attribute of an element.
fn class_attribute_exec(classes: &Vec<Class>) -> (s: String)
    ensures
        s@ == class_attribute(classes@),
{
    if classes.len() == 0 {
        return String::new();
    }
    let mut names: Vec<String> = Vec::new();
    let mut i: usize = 0;
    let ghost all = classes@;
    assert(names.deep_view() =~= Seq::new(0nat, |k: int| all[k].selector_text()));
    while i < classes.len()
        invariant
            i <= classes@.len(),
            all == classes@,
            names.deep_view() == Seq::new(i as nat, |k: int| all[k].selector_text()),
        decreases classes.len() - i,
    {
        push_string(&mut names, text_of(classes[i].selector().to_str()));
        i += 1;
        assert(names.deep_view() =~= Seq::new(i as nat, |k: int| all[k].selector_text()));
    }
    let mut s = text_of("class=\"");
    s.append(crate::text::join_exec(&names, " ").as_str());
    s.append("\"");
    s
}

/// The id `id` as the attribute of an element.
fn id_attribute_exec(id: &Option<String>) -> (s: String)
    ensures
        s@ == id_attribute(id.deep_view()),
{
    match id {
        Some(id) => {
            let mut s = text_of("id=\"");
            s.append(id.as_str());
            s.append("\"");
            s
        },
        None => String::new(),
    }
}

/// The element with the tag `tag` written out.
fn tagged_exec(tag: &str, id: &str, attributes: &str, css: &str, children: &str) -> (s: String)
    ensures
        s@ == tagged(tag@, id@, attributes@, css@, children@),
{
    let mut s = text_of("<");
    s.append(tag);
    s.append(" ");
    s.append(id);
    s.append(" ");
    s.append(attributes);
    s.append(" ");
    s.append(css);
    s.append(">");
    s.append(children);
    s.append("</");
    s.append(tag);
    s.append(">");
    s
}

/// The attributes of an embedded frame.
fn frame_attributes_exec(indent: &str, url: &str, title: &str) -> (s: String)
    ensures
        s@ == frame_attributes(indent@, url@, title@),
{
    let mut s = text_of("\n");
    s.append(indent);
    s.append("src=\"");
    s.append(url);
    s.append("\" \n");
    s.append(indent);
    s.append("title=\"");
    s.append(title);
    s.append("\" \n");
    s.append(indent);
    s.append("frameborder=\"0\" \n");
    s.append(indent);
    s.append(
        "allow=\"accelerometer; autoplay; clipboard-write; encrypted-media; gyroscope; picture-in-picture\" \n",
    );
    s.append(indent);
    s.append("allowfullscreen");
    s
}

/// The elements `elements` written out, with `sep` between each two.
fn html_of_all_exec(elements: &Vec<Element>, sep: &str) -> (s: String)
    ensures
        s@ == html_of_all(elements.deep_view(), sep@),
    decreases elements, 0int,
{
    let mut s = String::new();
    let mut i: usize = 0;
    let ghost all = elements.deep_view();
    assert(all.take(0) =~= Seq::<ElementView>::empty());
    while i < elements.len()
        invariant
            i <= elements@.len(),
            all == elements.deep_view(),
            s@ == html_of_all(all.take(i as int), sep@),
        decreases elements.len() - i,
    {
        assert(all.take(i + 1).drop_last() =~= all.take(i as int));
        assert(all.take(i + 1).last() == elements[i as int].deep_view());
        let one = write_element(&elements[i]);
        if i > 0 {
            s.append(sep);
        } else {
            assert(s@ + one@ =~= one@);
        }
        s.append(one.as_str());
        i += 1;
    }
    assert(all.take(elements@.len() as int) =~= all);
    s
}

/// The items `items` of a list written out.
fn html_of_items_exec(items: &Vec<Element>) -> (s: String)
    ensures
        s@ == html_of_items(items.deep_view()),
    decreases items, 0int,
{
    let mut s = String::new();
    let mut i: usize = 0;
    let ghost all = items.deep_view();
    assert(all.take(0) =~= Seq::<ElementView>::empty());
    while i < items.len()
        invariant
            i <= items@.len(),
            all == items.deep_view(),
            s@ == html_of_items(all.take(i as int)),
        decreases items.len() - i,
    {
        assert(all.take(i + 1).drop_last() =~= all.take(i as int));
        assert(all.take(i + 1).last() == items[i as int].deep_view());
        let one = write_element(&items[i]);
        s.append("<li>");
        s.append(one.as_str());
        s.append("</li>");
        i += 1;
    }
    assert(all.take(items@.len() as int) =~= all);
    s
}

/// Writes `element` out.
#[verifier::rlimit(40)]
fn write_element(element: &Element) -> (s: String)
    ensures
        s@ == html_of(element.deep_view()),
    decreases element, 1int,
{
    let id = id_attribute_exec(&element.id);
    let css = class_attribute_exec(&element.classes);
    match &element.kind {
        Kind::Card(contents) => tagged_exec("div", id.as_str(), "", css.as_str(), contents.as_str()),
        Kind::Codeblock(text) => tagged_exec("div", id.as_str(), "", css.as_str(), text.as_str()),
        Kind::Div { children } => {
            proof {
                lemma_child_elements(*children);
            }
            let inner = html_of_all_exec(children, "\n");
            tagged_exec("div", id.as_str(), "", css.as_str(), inner.as_str())
        },
        Kind::Header { header_size, children } => {
            proof {
                lemma_child_elements(*children);
            }
            let inner = html_of_all_exec(children, "\n");
            let mut tag = text_of("h");
            push_decimal(&mut tag, *header_size as usize);
            tagged_exec(tag.as_str(), id.as_str(), "", css.as_str(), inner.as_str())
        },
        Kind::List { items, list_type } => {
            proof {
                lemma_child_elements(*items);
            }
            let inner = html_of_items_exec(items);
            match list_type {
                ListType::OrderedAlpha => tagged_exec(
                    "ol",
                    id.as_str(),
                    "type=\"a\"",
                    css.as_str(),
                    inner.as_str(),
                ),
                ListType::OrderedNumeric => tagged_exec(
                    "ol",
                    id.as_str(),
                    "type=\"1\"",
                    css.as_str(),
                    inner.as_str(),
                ),
                ListType::Unordered => tagged_exec(
                    "ul",
                    id.as_str(),
                    "",
                    css.as_str(),
                    inner.as_str(),
                ),
            }
        },
        Kind::Link { description, redirect, url } => {
            let mut attributes = text_of("href=\"");
            attributes.append(url.as_str());
            attributes.append("\" ");
            if *redirect {
                attributes.append("");
            } else {
                attributes.append("target=\"_blank\" rel=\"noreferrer noopener\"");
            }
            tagged_exec(
                "a",
                id.as_str(),
                attributes.as_str(),
                css.as_str(),
                description.as_str(),
            )
        },
        Kind::Iframe { description, url } => {
            let attributes = frame_attributes_exec(
                "                    ",
                url.as_str(),
                description.as_str(),
            );
            tagged_exec("iframe", id.as_str(), attributes.as_str(), css.as_str(), "")
        },
        Kind::Image { description, url } => {
            let mut attributes = text_of("src=\"");
            attributes.append(url.as_str());
            attributes.append("\" alt=\"");
            attributes.append(description.as_str());
            attributes.append("\"");
            tagged_exec("img", id.as_str(), attributes.as_str(), css.as_str(), "")
        },
        Kind::Nil => String::new(),
        Kind::Paragraph { children } => {
            proof {
                lemma_child_elements(*children);
            }
            let inner = html_of_all_exec(children, "");
            tagged_exec("p", id.as_str(), "", css.as_str(), inner.as_str())
        },
        Kind::Span { children } => {
            proof {
                lemma_child_elements(*children);
            }
            let inner = html_of_all_exec(children, "");
            tagged_exec("span", id.as_str(), "", css.as_str(), inner.as_str())
        },
        Kind::Text(text) => text.clone(),
        Kind::Youtube { url } => {
            let attributes = frame_attributes_exec(
                "                        ",
                url.as_str(),
                "YouTube video player",
            );
            tagged_exec("iframe", id.as_str(), attributes.as_str(), css.as_str(), "")
        },
    }
}

impl Html for Element {
    open spec fn html(&self) -> Seq<char> {
        html_of(self.deep_view())
    }

    fn to_html(&self) -> (s: String) {
        write_element(self)
    }
}

/// The element of the kind `kind` without classes and without id.
pub open spec fn plain(kind: KindView) -> ElementView {
    ElementView { classes: Seq::<Class>::empty(), id: None, kind }
}

/// The classes of what is shown as a raised box.
pub open spec fn box_classes(first: Seq<Class>) -> Seq<Class> {
    first + seq![
        Class::HoverShadow,
        Class::Padded { position: Position::Bottom },
        Class::Padded { position: Position::Top },
        Class::Shadow,
    ]
}

/// The container that keeps `content` at the ratio 16 to 9.
pub open spec fn aspect_ratio_16x9_container_spec(content: ElementView) -> ElementView {
    ElementView {
        classes: box_classes(seq![Class::AspectRatio16x9Container]),
        id: None,
        kind: KindView::Div { children: seq![content] },
    }
}

/// A link of the navigation: a link with the id `id`, or the bare description
/// where there is no target.
pub open spec fn make_link_spec(
    url: Option<Seq<char>>,
    description: Seq<char>,
    id: Seq<char>,
) -> ElementView {
    match url {
        Some(url) => ElementView {
            classes: Seq::<Class>::empty(),
            id: Some(id),
            kind: KindView::Link { description, redirect: true, url },
        },
        None => plain(KindView::Text(description)),
    }
}

/// The navigation at the bottom of a page: to the page before and to the page
/// after.
pub open spec fn bottom_nav_spec(
    previous: Option<Seq<char>>,
    next: Option<Seq<char>>,
) -> ElementView {
    ElementView {
        classes: seq![Class::Navigation { position: Position::Bottom }],
        id: None,
        kind: KindView::Div {
            children: seq![
                make_link_spec(previous, "🡄 Previous"@, "previous_page_link"@),
                make_link_spec(next, "Forward 🡆"@, "next_page_link"@),
            ],
        },
    }
}

/// The navigation at the top of a page: home, catalog, projects, about me.
pub open spec fn top_nav_spec(links: LinksView) -> ElementView {
    ElementView {
        classes: seq![Class::Navigation { position: Position::Top }],
        id: None,
        kind: KindView::Div {
            children: seq![
                make_link_spec(Some(links.index_link), "Home"@, "homeNav"@),
                make_link_spec(Some(links.catalog_link), "Catalog"@, "catalogNav"@),
                make_link_spec(Some(links.projects_link), "Projects"@, "projectsNav"@),
                make_link_spec(Some(links.about_me_link), "About Me"@, "aboutMeNav"@),
            ],
        },
    }
}

/// A card around `children`.
pub open spec fn card_spec(children: Seq<ElementView>, dark_mode: bool) -> ElementView {
    ElementView {
        classes: seq![
            Class::Card { dark_mode },
            Class::HoverShadow,
            Class::Outlined { dark_mode },
            Class::Padded { position: Position::Bottom },
            Class::Padded { position: Position::Top },
            Class::Shadow,
            Class::TextAlign { alignment: Alignment::Left },
        ],
        id: None,
        kind: KindView::Div { children },
    }
}

/// A block of code.
pub open spec fn code_block_spec(code: Seq<char>) -> ElementView {
    ElementView {
        classes: seq![
            Class::Codeblock,
            Class::ContentWrapper,
            Class::HoverShadow,
            Class::Outlined { dark_mode: true },
            Class::Padded { position: Position::Bottom },
            Class::Padded { position: Position::Top },
            Class::Shadow,
        ],
        id: None,
        kind: KindView::Codeblock(code),
    }
}

/// An image, which links to itself: a link whose description is the image
/// written out.
pub open spec fn image_spec(id: Option<Seq<char>>, description: Seq<char>, url: Seq<char>) -> ElementView {
    plain(
        KindView::Link {
            description: html_of(
                ElementView {
                    classes: box_classes(seq![Class::FullImg]),
                    id,
                    kind: KindView::Image { description, url },
                },
            ),
            redirect: false,
            url,
        },
    )
}

/// A piece of inline code.
pub open spec fn inline_code_spec(code: Seq<char>) -> ElementView {
    ElementView {
        classes: seq![Class::Codeblock, Class::Outlined { dark_mode: true }],
        id: None,
        kind: KindView::Span { children: seq![plain(KindView::Text(code))] },
    }
}

/// An embedded frame of the kind `kind`, kept at the ratio 16 to 9.
pub open spec fn framed(kind: KindView) -> ElementView {
    aspect_ratio_16x9_container_spec(
        ElementView { classes: seq![Class::AspectRatio16x9Inner], id: None, kind },
    )
}

/// The classes of what is shown as a raised box.
fn box_classes_exec(first: Class) -> (classes: Vec<Class>)
    ensures
        classes@ == box_classes(seq![first]),
{
    let classes = vec![
        first,
        Class::HoverShadow,
        Class::Padded { position: Position::Bottom },
        Class::Padded { position: Position::Top },
        Class::Shadow,
    ];
    assert(classes@ =~= box_classes(seq![first]));
    classes
}

/// The vector that holds `element` alone.
fn one(element: Element) -> (v: Vec<Element>)
    ensures
        v.deep_view() == seq![element.deep_view()],
{
    let mut v: Vec<Element> = Vec::new();
    v.push(element);
    assert(v.deep_view() =~= seq![element.deep_view()]);
    v
}

fn aspect_ratio_16x9_container(content: Element) -> (r: Element)
    ensures
        r.deep_view() == aspect_ratio_16x9_container_spec(content.deep_view()),
{
    let children = one(content);
    proof {
        lemma_child_elements(children);
    }
    Element {
        classes: box_classes_exec(Class::AspectRatio16x9Container),
        id: None,
        kind: Kind::Div { children },
    }
}

/// The navigation at the bottom of a page.
pub fn bottom_nav(previous: Option<String>, next: Option<String>) -> (r: Element)
    ensures
        r.deep_view() == bottom_nav_spec(previous.deep_view(), next.deep_view()),
{
    let previous = make_link(previous, text_of("🡄 Previous"), text_of("previous_page_link"));
    let next = make_link(next, text_of("Forward 🡆"), text_of("next_page_link"));
    let mut children: Vec<Element> = Vec::new();
    children.push(previous);
    children.push(next);
    let classes = vec![Class::Navigation { position: Position::Bottom }];
    proof {
        assert(children.deep_view() =~= seq![previous.deep_view(), next.deep_view()]);
        assert(classes@ =~= seq![Class::Navigation { position: Position::Bottom }]);
        lemma_child_elements(children);
    }
    Element { classes, id: None, kind: Kind::Div { children } }
}

/// A card around `children`.
pub fn card(children: Vec<Element>, dark_mode: bool) -> (r: Element)
    ensures
        r.deep_view() == card_spec(children.deep_view(), dark_mode),
{
    let classes = vec![
        Class::Card { dark_mode },
        Class::HoverShadow,
        Class::Outlined { dark_mode },
        Class::Padded { position: Position::Bottom },
        Class::Padded { position: Position::Top },
        Class::Shadow,
        Class::TextAlign { alignment: Alignment::Left },
    ];
    proof {
        assert(classes@ =~= card_spec(children.deep_view(), dark_mode).classes);
        lemma_child_elements(children);
    }
    Element { classes, id: None, kind: Kind::Div { children } }
}

/// A block of code.
pub fn code_block(code: String) -> (r: Element)
    ensures
        r.deep_view() == code_block_spec(code@),
{
    let classes = vec![
        Class::Codeblock,
        Class::ContentWrapper,
        Class::HoverShadow,
        Class::Outlined { dark_mode: Class::Codeblock.dark_mode() },
        Class::Padded { position: Position::Bottom },
        Class::Padded { position: Position::Top },
        Class::Shadow,
    ];
    assert(classes@ =~= code_block_spec(code@).classes);
    Element { classes, id: None, kind: Kind::Codeblock(code) }
}

/// A plain sequence of `children`.
pub fn div(children: Vec<Element>) -> (r: Element)
    ensures
        r.deep_view() == plain(KindView::Div { children: children.deep_view() }),
{
    proof {
        lemma_child_elements(children);
    }
    Element { classes: Vec::new(), id: None, kind: Kind::Div { children } }
}

/// A heading of the level `header_size` around `children`.
pub fn header(header_size: u32, id: Option<String>, children: Vec<Element>) -> (r: Element)
    ensures
        r.deep_view() == (ElementView {
            classes: Seq::<Class>::empty(),
            id: id.deep_view(),
            kind: KindView::Header { header_size, children: children.deep_view() },
        }),
{
    proof {
        lemma_child_elements(children);
    }
    Element { classes: Vec::new(), id, kind: Kind::Header { children, header_size } }
}

/// An embedded frame that shows `url`.
pub fn iframe(description: String, url: String) -> (r: Element)
    ensures
        r.deep_view() == framed(KindView::Iframe { description: description@, url: url@ }),
{
    let classes = vec![Class::AspectRatio16x9Inner];
    assert(classes@ =~= seq![Class::AspectRatio16x9Inner]);
    aspect_ratio_16x9_container(
        Element { classes, id: None, kind: Kind::Iframe { description, url } },
    )
}

/// An image that links to itself.
pub fn image(id: Option<String>, description: String, url: String) -> (r: Element)
    ensures
        r.deep_view() == image_spec(id.deep_view(), description@, url@),
{
    let img_element = Element {
        classes: box_classes_exec(Class::FullImg),
        id,
        kind: Kind::Image { description, url: url.clone() },
    }.to_html();
    Element {
        classes: Vec::new(),
        id: None,
        kind: Kind::Link { description: img_element, redirect: false, url },
    }
}

/// A piece of inline code.
pub fn inline_code(code: String) -> (r: Element)
    ensures
        r.deep_view() == inline_code_spec(code@),
{
    let classes = vec![
        Class::Codeblock,
        Class::Outlined { dark_mode: Class::Codeblock.dark_mode() },
    ];
    let children = one(text(code.as_str()));
    proof {
        assert(classes@ =~= inline_code_spec(code@).classes);
        lemma_child_elements(children);
    }
    Element { classes, id: None, kind: Kind::Span { children } }
}

/// A link to `url`.
pub fn link(id: Option<String>, description: String, url: String, redirect: bool) -> (r: Element)
    ensures
        r.deep_view() == (ElementView {
            classes: Seq::<Class>::empty(),
            id: id.deep_view(),
            kind: KindView::Link { description: description@, redirect, url: url@ },
        }),
{
    Element { classes: Vec::new(), id, kind: Kind::Link { description, redirect, url } }
}

/// A list of `items`.
pub fn list(items: Vec<Element>, list_type: ListType) -> (r: Element)
    ensures
        r.deep_view() == (ElementView {
            classes: seq![Class::List],
            id: None,
            kind: KindView::List { items: items.deep_view(), list_type },
        }),
{
    let classes = vec![Class::List];
    proof {
        assert(classes@ =~= seq![Class::List]);
        lemma_child_elements(items);
    }
    Element { classes, id: None, kind: Kind::List { items, list_type } }
}

fn make_link(url: Option<String>, description: String, id: String) -> (r: Element)
    ensures
        r.deep_view() == make_link_spec(url.deep_view(), description@, id@),
{
    match url {
        None => text(description.as_str()),
        Some(url) => link(Some(id), description, url, true),
    }
}

/// The element that is written out as nothing.
pub fn nil() -> (r: Element)
    ensures
        r.deep_view() == plain(KindView::Nil),
{
    Element { classes: Vec::new(), id: None, kind: Kind::Nil }
}

/// A paragraph of `children`.
pub fn p(children: Vec<Element>) -> (r: Element)
    ensures
        r.deep_view() == plain(KindView::Paragraph { children: children.deep_view() }),
{
    proof {
        lemma_child_elements(children);
    }
    Element { classes: Vec::new(), id: None, kind: Kind::Paragraph { children } }
}

/// The text `s`.
pub fn text(s: &str) -> (r: Element)
    ensures
        r.deep_view() == plain(KindView::Text(s@)),
{
    Element { classes: Vec::new(), id: None, kind: Kind::Text(text_of(s)) }
}

/// The navigation at the top of a page.
pub fn top_nav(links: Links) -> (r: Element)
    ensures
        r.deep_view() == top_nav_spec(links.deep_view()),
{
    let about_me = make_link(Some(links.about_me_link), text_of("About Me"), text_of("aboutMeNav"));
    let catalog = make_link(Some(links.catalog_link), text_of("Catalog"), text_of("catalogNav"));
    let index = make_link(Some(links.index_link), text_of("Home"), text_of("homeNav"));
    let projects = make_link(
        Some(links.projects_link),
        text_of("Projects"),
        text_of("projectsNav"),
    );
    let mut children: Vec<Element> = Vec::new();
    children.push(index);
    children.push(catalog);
    children.push(projects);
    children.push(about_me);
    let classes = vec![Class::Navigation { position: Position::Top }];
    proof {
        assert(children.deep_view() =~= seq![
            index.deep_view(),
            catalog.deep_view(),
            projects.deep_view(),
            about_me.deep_view(),
        ]);
        assert(classes@ =~= seq![Class::Navigation { position: Position::Top }]);
        lemma_child_elements(children);
    }
    Element { classes, id: None, kind: Kind::Div { children } }
}

/// An embedded video.
pub fn youtube(url: String) -> (r: Element)
    ensures
        r.deep_view() == framed(KindView::Youtube { url: url@ }),
{
    let classes = vec![Class::AspectRatio16x9Inner];
    assert(classes@ =~= seq![Class::AspectRatio16x9Inner]);
    aspect_ratio_16x9_container(Element { classes, id: None, kind: Kind::Youtube { url } })
}

} // verus!
