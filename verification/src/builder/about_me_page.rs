//! The page about the author.

use crate::config::ConfigView;
use crate::context::{copy_strings, Context};
use crate::outcome::{Item, ItemView};
use crate::parser::md::parse_contents::content_ir::{
    lemma_child_models,
    push_node,
    section_spec,
    ContentIr,
    IrView,
    LinkType,
};
use crate::parser::page::PageView;
use crate::parser::Page;
use crate::text::text_of;
use vstd::prelude::*;

verus! {

/// A regular link.
pub open spec fn regular_link(description: Seq<char>, url: Seq<char>) -> IrView {
    IrView::Link { description, url, link_type: LinkType::Regular }
}

/// The title of a page, a heading of level 2.
pub open spec fn page_title(text: Seq<char>, id: Seq<char>) -> IrView {
    IrView::Header { header_size: 2, id, text }
}

/// The link to the profile `url` of the author, if they have one.
pub open spec fn profile_link(description: Seq<char>, url: Option<Seq<char>>) -> Seq<IrView> {
    match url {
        Some(url) => seq![regular_link(description, url)],
        None => Seq::<IrView>::empty(),
    }
}

/// The links to the profiles of the author: GitHub, LinkedIn, Twitter.
pub open spec fn profile_links(config: ConfigView) -> Seq<IrView> {
    profile_link("Visit my Github"@, config.github) + profile_link(
        "Visit my LinkedIn"@,
        config.linked_in,
    ) + profile_link("Visit my Twitter"@, config.twitter)
}

/// The page about the author, in the file `file_name`: what they say of
/// themself, and their profiles where they have any.
pub open spec fn build_spec(file_name: Seq<char>, config: ConfigView) -> PageView {
    let links = profile_links(config);
    let start = seq![
        page_title("About Me"@, "aboutMe"@),
        section_spec("Who I am"@, seq![IrView::Text { text: config.about_me }]),
    ];
    PageView {
        contents: ItemView {
            item: IrView::Div {
                contents: if links.len() > 0 {
                    start.push(
                        section_spec(
                            "Social Media"@,
                            seq![IrView::UnorderedList { items: links }],
                        ),
                    )
                } else {
                    start
                },
            },
            location: None,
        },
        file_name,
        keywords: config.about_me_keywords,
        summary: config.about_me_summary,
        title: "About Me"@,
    }
}

/// A regular link.
pub fn regular_link_exec(description: String, url: String) -> (r: ContentIr)
    ensures
        r.deep_view() == regular_link(description@, url@),
{
    ContentIr::Link { description, url, link_type: LinkType::Regular }
}

/// The vector that holds `node` alone.
pub fn one_node(node: ContentIr) -> (v: Vec<ContentIr>)
    ensures
        v.deep_view() == seq![node.deep_view()],
{
    let mut v: Vec<ContentIr> = Vec::new();
    v.push(node);
    assert(v.deep_view() =~= seq![node.deep_view()]);
    v
}

/// An unordered list of `items`.
pub fn unordered(items: Vec<ContentIr>) -> (r: ContentIr)
    ensures
        r.deep_view() == (IrView::UnorderedList { items: items.deep_view() }),
{
    proof {
        lemma_child_models(items);
    }
    ContentIr::UnorderedList { items }
}

/// A `Div` of `contents`.
pub fn div_of(contents: Vec<ContentIr>) -> (r: ContentIr)
    ensures
        r.deep_view() == (IrView::Div { contents: contents.deep_view() }),
{
    proof {
        lemma_child_models(contents);
    }
    ContentIr::Div { contents }
}

/// Appends the link to the profile `url` to `links`.
fn push_profile(links: &mut Vec<ContentIr>, description: &str, url: &Option<String>)
    ensures
        final(links).deep_view() == old(links).deep_view() + profile_link(
            description@,
            url.deep_view(),
        ),
{
    match url {
        Some(url) => {
            push_node(links, regular_link_exec(text_of(description), url.clone()));
            assert(links.deep_view() =~= old(links).deep_view() + profile_link(
                description@,
                Some(url@),
            ));
        },
        None => {
            assert(links.deep_view() =~= old(links).deep_view() + profile_link(
                description@,
                None,
            ));
        },
    }
}

/// Composes the page about the author.
pub fn build(html_filename: String, context: &Context) -> (r: Page)
    ensures
        r.deep_view() == build_spec(html_filename@, context.config.deep_view()),
{
    let about_me = ContentIr::section(
        text_of("Who I am"),
        one_node(ContentIr::Text { text: context.config.about_me.clone() }),
    );
    let mut page_contents: Vec<ContentIr> = Vec::new();
    push_node(&mut page_contents, ContentIr::title(text_of("About Me"), text_of("aboutMe")));
    push_node(&mut page_contents, about_me);
    let mut important_links: Vec<ContentIr> = Vec::new();
    assert(important_links.deep_view() =~= Seq::<IrView>::empty());
    push_profile(&mut important_links, "Visit my Github", &context.config.github);
    push_profile(&mut important_links, "Visit my LinkedIn", &context.config.linked_in);
    push_profile(&mut important_links, "Visit my Twitter", &context.config.twitter);
    assert(important_links.deep_view() =~= profile_links(context.config.deep_view()));
    if important_links.len() > 0 {
        push_node(
            &mut page_contents,
            ContentIr::section(text_of("Social Media"), one_node(unordered(important_links))),
        );
    }
    assert(page_contents.deep_view() =~= build_spec(
        html_filename@,
        context.config.deep_view(),
    ).contents.item->Div_contents);
    Page {
        contents: Item { location: None, item: div_of(page_contents) },
        file_name: html_filename,
        keywords: copy_strings(&context.config.about_me_keywords),
        summary: context.config.about_me_summary.clone(),
        title: text_of("About Me"),
    }
}

} // verus!
