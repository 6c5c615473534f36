//! The home page: the most recent documents, and the last one in full.

use crate::builder::about_me_page::{div_of, one_node, page_title, regular_link, regular_link_exec, unordered};
use crate::builder::BuildContext;
use crate::config::ConfigView;
use crate::context::{copy_strings, Context};
use crate::outcome::{Item, ItemView, LocationView};
use crate::parser::md::parse_contents::content_ir::{
    push_node,
    section_spec,
    ContentIr,
    IrView,
};
use crate::parser::md::{Md, MdView};
use crate::parser::page::PageView;
use crate::parser::Page;
use crate::text::text_of;
use vstd::prelude::*;
use vstd::string::StringExecFns;

verus! {

/// How many documents the home page lists.
pub open spec fn recent_post_count() -> int {
    7
}

/// The entry of the document `md` in the list of recent documents: a link to it
/// under its date and title, and its summary.
pub open spec fn recent_item(md: MdView) -> IrView {
    IrView::Div {
        contents: seq![
            regular_link(md.date + ": "@ + md.display_title, md.html_file_name),
            IrView::Text { text: " - "@ + md.summary },
        ],
    }
}

/// The entries of the last documents of `md`, up to seven, the last one first.
pub open spec fn recent_items(md: Seq<(Option<LocationView>, MdView)>) -> Seq<IrView> {
    Seq::new(
        if md.len() < recent_post_count() {
            md.len()
        } else {
            recent_post_count() as nat
        },
        |k: int| recent_item(md[md.len() - 1 - k].1),
    )
}

/// The home page, in the file `file_name`: the list of recent documents, and the
/// tree of the last document.
pub open spec fn build_spec(
    file_name: Seq<char>,
    md: Seq<(Option<LocationView>, MdView)>,
    config: ConfigView,
) -> PageView {
    PageView {
        contents: ItemView {
            item: IrView::Div {
                contents: seq![
                    page_title("Home"@, "indexTitle"@),
                    section_spec(
                        "Recent Posts"@,
                        seq![IrView::UnorderedList { items: recent_items(md) }],
                    ),
                    md.last().1.contents.item,
                ],
            },
            location: None,
        },
        file_name,
        keywords: config.index_keywords,
        summary: "Home page"@,
        title: config.index_title,
    }
}

/// The tree of the last document.
fn last_post(build_context: &BuildContext) -> (r: ContentIr)
    requires
        build_context.md@.len() > 0,
    ensures
        r.deep_view() == build_context.md.deep_view().last().1.contents.item,
{
    build_context.md[build_context.md.len() - 1].1.contents.item.copy()
}

/// The entry of `md` in the list of recent documents.
fn recent_item_exec(md: &Md) -> (r: ContentIr)
    ensures
        r.deep_view() == recent_item(md.deep_view()),
{
    let mut description = md.date.clone();
    description.append(": ");
    description.append(md.display_title.as_str());
    let mut summary = text_of(" - ");
    summary.append(md.summary.as_str());
    let link = regular_link_exec(description, text_of(md.html_file_name.to_str()));
    let text = ContentIr::text(summary);
    let mut contents: Vec<ContentIr> = Vec::new();
    contents.push(link);
    contents.push(text);
    assert(contents.deep_view() =~= seq![link.deep_view(), text.deep_view()]);
    div_of(contents)
}

/// The list of the most recent documents.
fn recent_posts(build_context: &BuildContext) -> (r: Vec<ContentIr>)
    ensures
        r.deep_view() == seq![
            IrView::UnorderedList { items: recent_items(build_context.md.deep_view()) },
        ],
{
    let md = &build_context.md;
    let ghost all = md.deep_view();
    let len = md.len();
    let count: usize = if len < 7 {
        len
    } else {
        7
    };
    let mut items: Vec<ContentIr> = Vec::new();
    let mut k: usize = 0;
    assert(items.deep_view() =~= recent_items(all).take(0));
    while k < count
        invariant
            k <= count <= len == md@.len(),
            count == recent_items(all).len(),
            all == md.deep_view(),
            items.deep_view() == recent_items(all).take(k as int),
        decreases count - k,
    {
        push_node(&mut items, recent_item_exec(&md[len - 1 - k].1));
        k += 1;
        assert(items.deep_view() =~= recent_items(all).take(k as int));
    }
    assert(recent_items(all).take(count as int) =~= recent_items(all));
    one_node(unordered(items))
}

/// Composes the home page. There must be a document.
pub fn build(html_filename: String, build_context: &BuildContext, context: &Context) -> (r: Page)
    requires
        build_context.md@.len() > 0,
    ensures
        r.deep_view() == build_spec(
            html_filename@,
            build_context.md.deep_view(),
            context.config.deep_view(),
        ),
{
    let title = ContentIr::title(text_of("Home"), text_of("indexTitle"));
    let recent = ContentIr::section(text_of("Recent Posts"), recent_posts(build_context));
    let last = last_post(build_context);
    let mut page_contents: Vec<ContentIr> = Vec::new();
    page_contents.push(title);
    page_contents.push(recent);
    page_contents.push(last);
    assert(page_contents.deep_view() =~= seq![
        title.deep_view(),
        recent.deep_view(),
        last.deep_view(),
    ]);
    Page {
        contents: Item { location: None, item: div_of(page_contents) },
        file_name: html_filename,
        keywords: copy_strings(&context.config.index_keywords),
        summary: text_of("Home page"),
        title: context.config.index_title.clone(),
    }
}

} // verus!
