//! The assembly of the site from all that was parsed: the documents are put in
//! order and linked to their neighbours, and the pages that span all documents are
//! composed.

pub mod about_me_page;
pub mod catalog;
pub mod index;
pub mod projects_page;

use crate::context::{Context, Links};
use crate::order::{
    ascending,
    lemma_text_le_total,
    lemma_text_le_transitive,
    text_le,
    text_le_exec,
};
use crate::outcome::{copy_location, Item, ItemView, Location, LocationView, Res, ResView};
use crate::parser::css::CssView;
use crate::parser::img::ImgView;
use crate::parser::md::parse_contents::content_ir::{
    lemma_child_models,
    ContentIr,
    IrView,
    LinkType,
};
use crate::parser::md::{Link, Md, MdView, NavigationView};
use crate::parser::page::PageView;
use crate::parser::{Css, Img, IntermediateRepresentation, IntermediateRepresentationView, Page};
use crate::text::{
    debug_of,
    debug_text,
    lowercase,
    lowercase_of,
    occurs_at,
    replace_all,
    replaced,
    starts_with,
    text_of,
    to_chars,
};
use vstd::prelude::*;
use vstd::seq_lib::{to_multiset_build, to_multiset_insert};
use vstd::string::StringExecFns;

verus! {

/// Everything that was parsed, by kind, each with the place it came from.
pub struct BuildContext {
    pub css: Vec<(Option<Location>, Css)>,
    pub img: Vec<(Option<Location>, Img)>,
    pub md: Vec<(Option<Location>, Md)>,
    pub page: Vec<(Option<Location>, Page)>,
}

/// The mathematical value of a [`BuildContext`].
pub struct BuildContextView {
    pub css: Seq<(Option<LocationView>, CssView)>,
    pub img: Seq<(Option<LocationView>, ImgView)>,
    pub md: Seq<(Option<LocationView>, MdView)>,
    pub page: Seq<(Option<LocationView>, PageView)>,
}

impl DeepView for BuildContext {
    type V = BuildContextView;

    open spec fn deep_view(&self) -> BuildContextView {
        BuildContextView {
            css: self.css.deep_view(),
            img: self.img.deep_view(),
            md: self.md.deep_view(),
            page: self.page.deep_view(),
        }
    }
}

/// The names of the files of the images `img`.
pub open spec fn image_names(img: Seq<(Option<LocationView>, ImgView)>) -> Seq<Seq<char>> {
    Seq::new(img.len(), |i: int| img[i].1.file_name)
}

/// By what the documents are ordered: year, month, day and default title, in a
/// row. For documents whose names are valid this is the order of their dates, and
/// among those of one day that of their titles.
pub open spec fn sort_key(md: MdView) -> Seq<char> {
    md.year + md.month + md.day + md.default_title
}

/// The keys of the documents `md`, in order.
pub open spec fn sort_keys(md: Seq<(Option<LocationView>, MdView)>) -> Seq<Seq<char>> {
    Seq::new(md.len(), |i: int| sort_key(md[i].1))
}

/// Where a document with the key `key` goes among documents with the keys
/// `keys[from..]`: before the first whose key is later.
pub open spec fn place_of(keys: Seq<Seq<char>>, key: Seq<char>, from: int) -> int
    decreases keys.len() - from,
{
    if from < 0 || from >= keys.len() {
        keys.len() as int
    } else if !text_le(keys[from], key) {
        from
    } else {
        place_of(keys, key, from + 1)
    }
}

/// The documents `md` in the order of their keys; documents with the same key stay
/// in their order.
pub open spec fn in_order(md: Seq<(Option<LocationView>, MdView)>) -> Seq<
    (Option<LocationView>, MdView),
>
    decreases md.len(),
{
    if md.len() == 0 {
        md
    } else {
        let sorted = in_order(md.drop_last());
        sorted.insert(place_of(sort_keys(sorted), sort_key(md.last().1), 0), md.last())
    }
}

/// The name of the file of the local image `url`, or `None` where `url` does not
/// point into the folder of assets.
pub open spec fn asset_name(url: Seq<char>) -> Option<Seq<char>> {
    if occurs_at(url, "assets/"@, 0) {
        Some(replaced(url, "assets/"@, ""@))
    } else {
        None
    }
}

/// The first local image among `nodes[i..]` and below that is none of `images`.
pub open spec fn first_unlinked_from(
    nodes: Seq<IrView>,
    i: int,
    images: Seq<Seq<char>>,
) -> Option<Seq<char>>
    decreases nodes, nodes.len() - i,
{
    if i < 0 || i >= nodes.len() {
        None
    } else {
        match first_unlinked(nodes[i], images) {
            Some(name) => Some(name),
            None => first_unlinked_from(nodes, i + 1, images),
        }
    }
}

/// The first local image at `node` or below it, in document order, that is none of
/// `images`: the name of its file.
pub open spec fn first_unlinked(node: IrView, images: Seq<Seq<char>>) -> Option<Seq<char>>
    decreases node, 0int,
{
    match node {
        IrView::Block { contents, .. } => first_unlinked(*contents, images),
        IrView::Card(children) => first_unlinked_from(children, 0, images),
        IrView::Div { contents } => first_unlinked_from(contents, 0, images),
        IrView::OrderedList { items, .. } => first_unlinked_from(items, 0, images),
        IrView::Paragraph { children } => first_unlinked_from(children, 0, images),
        IrView::UnorderedList { items } => first_unlinked_from(items, 0, images),
        IrView::Link { url, link_type: LinkType::LocalImage, .. } => match asset_name(url) {
            Some(name) => if images.contains(name) {
                None
            } else {
                Some(name)
            },
            None => None,
        },
        _ => None,
    }
}

/// What the validation of the tree `content` returns: success at `location`, or
/// the failure for the first local image that is none of `images`.
pub open spec fn validate_md_spec(
    content: IrView,
    location: Option<LocationView>,
    images: Seq<Seq<char>>,
) -> ResView<()> {
    match first_unlinked(content, images) {
        Some(name) => ResView::Error {
            location,
            msg: "Unlinked image with raw url: "@ + debug_of(name) + "!"@,
        },
        None => ResView::Success(ItemView { item: (), location }),
    }
}

/// Whether `name` is the name of one of the images `img`.
fn is_image(name: &String, img: &Vec<(Option<Location>, Img)>) -> (found: bool)
    ensures
        found == image_names(img.deep_view()).contains(name@),
{
    let ghost names = image_names(img.deep_view());
    let mut i: usize = 0;
    while i < img.len()
        invariant
            i <= img@.len(),
            names == image_names(img.deep_view()),
            forall|k: int| 0 <= k < i ==> names[k] != name@,
        decreases img.len() - i,
    {
        assert(names[i as int] == img[i as int].1.file_name@);
        if *name == img[i].1.file_name {
            return true;
        }
        i += 1;
    }
    false
}

/// The first unlinked local image among `nodes` and below.
fn first_unlinked_in(nodes: &Vec<ContentIr>, img: &Vec<(Option<Location>, Img)>) -> (r: Option<
    String,
>)
    ensures
        r.deep_view() == first_unlinked_from(nodes.deep_view(), 0, image_names(img.deep_view())),
    decreases nodes, 0int,
{
    let ghost all = nodes.deep_view();
    let ghost images = image_names(img.deep_view());
    let mut i: usize = 0;
    while i < nodes.len()
        invariant
            i <= nodes@.len(),
            all == nodes.deep_view(),
            images == image_names(img.deep_view()),
            first_unlinked_from(all, 0, images) == first_unlinked_from(all, i as int, images),
        decreases nodes.len() - i,
    {
        match first_unlinked_exec(&nodes[i], img) {
            Some(name) => {
                return Some(name);
            },
            None => {},
        }
        i += 1;
    }
    None
}

/// The first unlinked local image at `node` or below it.
fn first_unlinked_exec(node: &ContentIr, img: &Vec<(Option<Location>, Img)>) -> (r: Option<String>)
    ensures
        r.deep_view() == first_unlinked(node.deep_view(), image_names(img.deep_view())),
    decreases node, 1int,
{
    match node {
        ContentIr::Block { contents, .. } => first_unlinked_exec(contents, img),
        ContentIr::Card(children) => {
            proof {
                lemma_child_models(*children);
            }
            first_unlinked_in(children, img)
        },
        ContentIr::Div { contents } => {
            proof {
                lemma_child_models(*contents);
            }
            first_unlinked_in(contents, img)
        },
        ContentIr::OrderedList { items, .. } => {
            proof {
                lemma_child_models(*items);
            }
            first_unlinked_in(items, img)
        },
        ContentIr::Paragraph { children } => {
            proof {
                lemma_child_models(*children);
            }
            first_unlinked_in(children, img)
        },
        ContentIr::UnorderedList { items } => {
            proof {
                lemma_child_models(*items);
            }
            first_unlinked_in(items, img)
        },
        ContentIr::Link { url, link_type, .. } => match link_type {
            LinkType::LocalImage => {
                let chars = to_chars(url.as_str());
                if starts_with(&chars, "assets/") {
                    let name = replace_all(url.as_str(), "assets/", "");
                    if is_image(&name, img) {
                        None
                    } else {
                        Some(name)
                    }
                } else {
                    None
                }
            },
            _ => None,
        },
        _ => None,
    }
}

/// Checks that every local image of the tree `content` is among the images of
/// `build_context`.
pub fn validate_md(content: &ContentIr, location: &Option<Location>, build_context: &BuildContext) -> (r:
    Res<()>)
    ensures
        r.deep_view() == validate_md_spec(
            content.deep_view(),
            location.deep_view(),
            image_names(build_context.img.deep_view()),
        ),
{
    match first_unlinked_exec(content, &build_context.img) {
        Some(name) => {
            let mut msg = text_of("Unlinked image with raw url: ");
            msg.append(debug_text(name.as_str()).as_str());
            msg.append("!");
            Res::Error { location: copy_location(location), msg }
        },
        None => Res::Success(Item { item: (), location: copy_location(location) }),
    }
}

/// The document `md`, the one at `index` among `all`, linked to its neighbours: its
/// navigation names the document before it and the one after it, where there is
/// one, and its tree starts with the navigation of the page.
pub open spec fn linked(
    md: MdView,
    index: int,
    all: Seq<(Option<LocationView>, MdView)>,
    links: crate::context::LinksView,
) -> MdView {
    let previous = if 0 < index <= all.len() {
        md.navigation.previous.push(all[index - 1].1.html_file_name)
    } else {
        md.navigation.previous
    };
    let next = if 0 <= index < all.len() - 1 {
        md.navigation.next.push(all[index + 1].1.html_file_name)
    } else {
        md.navigation.next
    };
    MdView {
        navigation: NavigationView { next, previous },
        contents: ItemView {
            item: IrView::Div {
                contents: seq![
                    IrView::Navigation {
                        links,
                        next: if next.len() > 0 {
                            Some(next.first())
                        } else {
                            None
                        },
                        previous: if previous.len() > 0 {
                            Some(previous.last())
                        } else {
                            None
                        },
                    },
                    md.contents.item,
                ],
            },
            location: md.contents.location,
        },
        ..md
    }
}

/// What building the document `md` returns: the failure of its validation, or the
/// document linked to its neighbours, at `location`.
pub open spec fn build_md_spec(
    index: int,
    location: Option<LocationView>,
    md: MdView,
    build_context: BuildContextView,
    links: crate::context::LinksView,
) -> ResView<MdView> {
    match validate_md_spec(
        md.contents.item,
        md.contents.location,
        image_names(build_context.img),
    ) {
        ResView::Error { location: at, msg } => ResView::Error { location: at, msg },
        _ => ResView::Success(
            ItemView { item: linked(md, index, build_context.md, links), location },
        ),
    }
}

/// Appends `link` to `links`.
fn push_link(links: &mut Vec<Link>, link: Link)
    ensures
        final(links).deep_view() == old(links).deep_view().push(link@),
{
    links.push(link);
    assert(links.deep_view() =~= old(links).deep_view().push(link@));
}

/// Links the document `md`, the one at `index` among those of `build_context`, to
/// its neighbours, after checking its local images. The index may be that of the
/// place right after the last document: the document then has a neighbour before
/// it only.
pub fn build_md(
    index: usize,
    location: Option<Location>,
    md: Md,
    build_context: &BuildContext,
    context: &Context,
) -> (r: Res<Md>)
    requires
        build_context.md@.len() == 0 || index <= build_context.md@.len(),
    ensures
        r.deep_view() == build_md_spec(
            index as int,
            location.deep_view(),
            md.deep_view(),
            build_context.deep_view(),
            context.links.deep_view(),
        ),
{
    let mut md = md;
    let ghost before = md.deep_view();
    let count = build_context.md.len();
    if count > 0 {
        if index != 0 {
            push_link(
                &mut md.navigation.previous,
                build_context.md[index - 1].1.html_file_name.copy(),
            );
        }
        if index < count - 1 {
            push_link(&mut md.navigation.next, build_context.md[index + 1].1.html_file_name.copy());
        }
    }
    match validate_md(&md.contents.item, &md.contents.location, build_context) {
        Res::Error { location: at, msg } => {
            return Res::Error { location: at, msg };
        },
        _ => {},
    }
    let next = if md.navigation.next.len() > 0 {
        Some(md.navigation.next[0].copy())
    } else {
        None
    };
    let previous = if md.navigation.previous.len() > 0 {
        Some(md.navigation.previous[md.navigation.previous.len() - 1].copy())
    } else {
        None
    };
    let navigation = ContentIr::Navigation { links: context.links.copy(), next, previous };
    let mut children: Vec<ContentIr> = Vec::new();
    children.push(navigation);
    children.push(md.contents.item);
    proof {
        assert(children.deep_view() =~= seq![navigation.deep_view(), before.contents.item]);
        lemma_child_models(children);
    }
    md.contents = Item { item: ContentIr::Div { contents: children }, location: md.contents.location };
    Res::Success(Item { location, item: md })
}

/// Putting `key` into the ascending `keys` at `at` leaves them ascending, where
/// all before `at` are at most `key` and the one at `at` is more.
proof fn lemma_insert_ascending(keys: Seq<Seq<char>>, at: int, key: Seq<char>)
    requires
        ascending(keys),
        0 <= at <= keys.len(),
        forall|i: int| 0 <= i < at ==> text_le(keys[i], key),
        at < keys.len() ==> !text_le(keys[at], key),
    ensures
        ascending(keys.insert(at, key)),
{
    let new = keys.insert(at, key);
    assert forall|i: int, j: int| 0 <= i <= j < new.len() implies text_le(new[i], new[j]) by {
        if i == j {
            lemma_text_le_total(new[i], new[i]);
        } else if j == at {
            assert(new[i] == keys[i]);
        } else if i == at {
            assert(new[j] == keys[j - 1]);
            lemma_text_le_total(keys[at], key);
            lemma_text_le_transitive(key, keys[at], keys[j - 1]);
        } else if i < at && j > at {
            assert(new[i] == keys[i] && new[j] == keys[j - 1]);
        } else if i < at {
            assert(new[i] == keys[i] && new[j] == keys[j]);
        } else {
            assert(new[i] == keys[i - 1] && new[j] == keys[j - 1]);
        }
    }
}

/// The key by which `md` is ordered.
fn sort_key_exec(md: &Md) -> (key: Vec<char>)
    ensures
        key@ == sort_key(md.deep_view()),
{
    let mut key = md.year.clone();
    key.append(md.month.as_str());
    key.append(md.day.as_str());
    key.append(md.default_title.as_str());
    to_chars(key.as_str())
}

/// Puts the documents `md` in order: by year, month and day, then by title. The
/// result holds the documents of `md`, each as often as `md` does, in ascending
/// order of their keys.
#[verifier::rlimit(40)]
pub fn sort_documents(md: Vec<(Option<Location>, Md)>) -> (sorted: Vec<(Option<Location>, Md)>)
    ensures
        sorted.deep_view() == in_order(md.deep_view()),
        ascending(sort_keys(sorted.deep_view())),
        sorted.deep_view().to_multiset() == md.deep_view().to_multiset(),
{
    let ghost all = md.deep_view();
    let mut rest = md;
    let mut sorted: Vec<(Option<Location>, Md)> = Vec::new();
    let mut keys: Vec<Vec<char>> = Vec::new();
    let ghost mut done: int = 0;
    proof {
        assert(sorted.deep_view() =~= in_order(all.take(0)));
        assert(rest.deep_view() =~= all.skip(0));
        assert(keys.deep_view() =~= sort_keys(sorted.deep_view()));
        assert(all.take(0) =~= Seq::empty());
    }
    while rest.len() > 0
        invariant
            0 <= done <= all.len(),
            rest.deep_view() == all.skip(done),
            sorted.deep_view() == in_order(all.take(done)),
            keys.deep_view() == sort_keys(sorted.deep_view()),
            keys@.len() == sorted@.len(),
            ascending(keys.deep_view()),
            sorted.deep_view().to_multiset() == all.take(done).to_multiset(),
        decreases rest.len(),
    {
        let ghost left = rest.deep_view();
        let ghost before = sorted.deep_view();
        let ghost old_keys = keys.deep_view();
        let entry = rest.remove(0);
        proof {
            assert(entry.deep_view() == left[0]);
            assert(left.len() == all.len() - done);
            assert(left[0] == all[done]);
            assert(rest.deep_view() =~= left.remove(0));
            assert(left.remove(0) =~= all.skip(done + 1));
            assert(all.take(done + 1).drop_last() =~= all.take(done));
            assert(all.take(done + 1).last() == all[done]);
            assert(all.take(done + 1) =~= all.take(done).push(all[done]));
        }
        let key = sort_key_exec(&entry.1);
        let mut at: usize = 0;
        while at < keys.len() && text_le_exec(&keys[at], &key)
            invariant
                at <= keys@.len(),
                old_keys == keys.deep_view(),
                place_of(old_keys, key@, 0) == place_of(old_keys, key@, at as int),
                forall|i: int| 0 <= i < at ==> text_le(old_keys[i], key@),
            decreases keys.len() - at,
        {
            assert(keys[at as int].deep_view() =~= keys[at as int]@);
            at += 1;
        }
        proof {
            if at < keys.len() {
                assert(keys[at as int].deep_view() =~= keys[at as int]@);
            }
            assert(key.deep_view() =~= key@);
            lemma_insert_ascending(old_keys, at as int, key@);
            to_multiset_insert(before, at as int, entry.deep_view());
            to_multiset_build(all.take(done), all[done]);
        }
        sorted.insert(at, entry);
        keys.insert(at, key);
        proof {
            assert(sorted.deep_view() =~= before.insert(at as int, entry.deep_view()));
            assert(keys.deep_view() =~= old_keys.insert(at as int, key@));
            assert(keys.deep_view() =~= sort_keys(sorted.deep_view()));
            done = done + 1;
        }
    }
    proof {
        assert(all.take(all.len() as int) =~= all);
    }
    sorted
}

/// What was parsed, `ir`, by kind, each kind in the order of `ir`.
pub open spec fn by_kind(ir: Seq<ItemView<IntermediateRepresentationView>>) -> BuildContextView
    decreases ir.len(),
{
    if ir.len() == 0 {
        BuildContextView {
            css: Seq::empty(),
            img: Seq::empty(),
            md: Seq::empty(),
            page: Seq::empty(),
        }
    } else {
        let before = by_kind(ir.drop_last());
        let location = ir.last().location;
        match ir.last().item {
            IntermediateRepresentationView::Css(css) => BuildContextView {
                css: before.css.push((location, css)),
                ..before
            },
            IntermediateRepresentationView::Img(img) => BuildContextView {
                img: before.img.push((location, img)),
                ..before
            },
            IntermediateRepresentationView::Md(md) => BuildContextView {
                md: before.md.push((location, md)),
                ..before
            },
            IntermediateRepresentationView::Page(page) => BuildContextView {
                page: before.page.push((location, page)),
                ..before
            },
        }
    }
}

/// What the builder works on: what was parsed, by kind, with the names of the
/// style sheets and of the images in lowercase, and the documents in order.
pub open spec fn prepared(ir: Seq<ItemView<IntermediateRepresentationView>>) -> BuildContextView {
    let sorted = by_kind(ir);
    BuildContextView {
        css: Seq::new(
            sorted.css.len(),
            |i: int|
                (
                    sorted.css[i].0,
                    CssView { file_name: lowercase_of(sorted.css[i].1.file_name), ..sorted.css[i].1 },
                ),
        ),
        img: Seq::new(
            sorted.img.len(),
            |i: int|
                (
                    sorted.img[i].0,
                    ImgView { file_name: lowercase_of(sorted.img[i].1.file_name), ..sorted.img[i].1 },
                ),
        ),
        md: in_order(sorted.md),
        page: sorted.page,
    }
}

/// The outcome `res` with its value wrapped by `wrap`.
pub open spec fn wrapped<A, B>(res: ResView<A>, wrap: spec_fn(A) -> B) -> ResView<B> {
    match res {
        ResView::Success(item) => ResView::Success(
            ItemView { item: wrap(item.item), location: item.location },
        ),
        ResView::Warn { item, msg } => ResView::Warn {
            item: ItemView { item: wrap(item.item), location: item.location },
            msg,
        },
        ResView::Warnings { item, msgs } => ResView::Warnings {
            item: ItemView { item: wrap(item.item), location: item.location },
            msgs,
        },
        ResView::Error { location, msg } => ResView::Error { location, msg },
    }
}

/// The documents of `build_context`, each built.
pub open spec fn build_mds_spec(
    build_context: BuildContextView,
    links: crate::context::LinksView,
) -> Seq<ResView<MdView>> {
    Seq::new(
        build_context.md.len(),
        |i: int|
            build_md_spec(i, build_context.md[i].0, build_context.md[i].1, build_context, links),
    )
}

/// The page `page`, as the outcome of its composition.
pub open spec fn composed(page: PageView) -> ResView<PageView> {
    ResView::Success(ItemView { item: page, location: None })
}

/// The pages that span all documents: home, catalog, projects, about me.
pub open spec fn build_standalone_pages_spec(
    about_me_link: Seq<char>,
    catalog_link: Seq<char>,
    index_link: Seq<char>,
    projects_link: Seq<char>,
    build_context: BuildContextView,
    config: crate::config::ConfigView,
) -> Seq<ResView<PageView>> {
    seq![
        composed(index::build_spec(index_link, build_context.md, config)),
        composed(catalog::build_spec(catalog_link, build_context.md)),
        composed(projects_page::build_spec(projects_link, config)),
        composed(about_me_page::build_spec(about_me_link, config)),
    ]
}

/// The site: the style sheets and the images as they are, the documents in order
/// and each linked to its neighbours, and the pages that span all documents.
pub open spec fn execute_spec(
    context: crate::context::ContextView,
    ir: Seq<ItemView<IntermediateRepresentationView>>,
) -> Seq<ResView<IntermediateRepresentationView>> {
    let build_context = prepared(ir);
    let mds = build_mds_spec(build_context, context.links);
    let pages = build_standalone_pages_spec(
        context.links.about_me_link,
        context.links.catalog_link,
        context.links.index_link,
        context.links.projects_link,
        build_context,
        context.config,
    );
    Seq::new(
        build_context.css.len(),
        |i: int|
            ResView::Success(
                ItemView {
                    item: IntermediateRepresentationView::Css(build_context.css[i].1),
                    location: build_context.css[i].0,
                },
            ),
    ) + Seq::new(
        build_context.img.len(),
        |i: int|
            ResView::Success(
                ItemView {
                    item: IntermediateRepresentationView::Img(build_context.img[i].1),
                    location: build_context.img[i].0,
                },
            ),
    ) + Seq::new(
        mds.len(),
        |i: int| wrapped(mds[i], |md: MdView| IntermediateRepresentationView::Md(md)),
    ) + Seq::new(
        pages.len(),
        |i: int| wrapped(pages[i], |page: PageView| IntermediateRepresentationView::Page(page)),
    )
}

/// Files what was parsed by kind.
fn by_kind_exec(ir: Vec<Item<IntermediateRepresentation>>) -> (r: BuildContext)
    ensures
        r.deep_view() == by_kind(ir.deep_view()),
{
    let ghost all = ir.deep_view();
    let mut rest = ir;
    let mut r = BuildContext { css: Vec::new(), img: Vec::new(), md: Vec::new(), page: Vec::new() };
    let ghost mut done: int = 0;
    proof {
        assert(all.take(0) =~= Seq::empty());
        assert(r.css.deep_view() =~= by_kind(all.take(0)).css);
        assert(r.img.deep_view() =~= by_kind(all.take(0)).img);
        assert(r.md.deep_view() =~= by_kind(all.take(0)).md);
        assert(r.page.deep_view() =~= by_kind(all.take(0)).page);
        assert(rest.deep_view() =~= all.skip(0));
    }
    while rest.len() > 0
        invariant
            0 <= done <= all.len(),
            rest.deep_view() == all.skip(done),
            r.deep_view() == by_kind(all.take(done)),
        decreases rest.len(),
    {
        let ghost left = rest.deep_view();
        let ghost before = r.deep_view();
        let i = rest.remove(0);
        proof {
            assert(i.deep_view() == left[0]);
            assert(left.len() == all.len() - done);
            assert(left[0] == all[done]);
            assert(rest.deep_view() =~= left.remove(0));
            assert(left.remove(0) =~= all.skip(done + 1));
            assert(all.take(done + 1).drop_last() =~= all.take(done));
            assert(all.take(done + 1).last() == all[done]);
        }
        let location = i.location;
        match i.item {
            IntermediateRepresentation::Css(item) => {
                r.css.push((location, item));
                assert(r.css.deep_view() =~= before.css.push((location.deep_view(), item.deep_view())));
            },
            IntermediateRepresentation::Img(item) => {
                r.img.push((location, item));
                assert(r.img.deep_view() =~= before.img.push((location.deep_view(), item.deep_view())));
            },
            IntermediateRepresentation::Md(item) => {
                r.md.push((location, item));
                assert(r.md.deep_view() =~= before.md.push((location.deep_view(), item.deep_view())));
            },
            IntermediateRepresentation::Page(item) => {
                r.page.push((location, item));
                assert(r.page.deep_view() =~= before.page.push(
                    (location.deep_view(), item.deep_view()),
                ));
            },
        }
        proof {
            done = done + 1;
        }
    }
    proof {
        assert(all.take(all.len() as int) =~= all);
    }
    r
}

/// The style sheets `css` with the names of their files in lowercase.
fn lowered_css(css: Vec<(Option<Location>, Css)>) -> (r: Vec<(Option<Location>, Css)>)
    ensures
        r.deep_view() == Seq::new(
            css@.len(),
            |i: int|
                (
                    css.deep_view()[i].0,
                    CssView {
                        file_name: lowercase_of(css.deep_view()[i].1.file_name),
                        ..css.deep_view()[i].1
                    },
                ),
        ),
{
    let ghost all = css.deep_view();
    let ghost wanted = Seq::new(
        all.len(),
        |i: int| (all[i].0, CssView { file_name: lowercase_of(all[i].1.file_name), ..all[i].1 }),
    );
    let mut rest = css;
    let mut r: Vec<(Option<Location>, Css)> = Vec::new();
    let ghost mut done: int = 0;
    proof {
        assert(r.deep_view() =~= wanted.take(0));
        assert(rest.deep_view() =~= all.skip(0));
    }
    while rest.len() > 0
        invariant
            0 <= done <= all.len(),
            rest.deep_view() == all.skip(done),
            r.deep_view() == wanted.take(done),
            wanted.len() == all.len(),
            forall|i: int|
                0 <= i < all.len() ==> #[trigger] wanted[i] == (
                    all[i].0,
                    CssView { file_name: lowercase_of(all[i].1.file_name), ..all[i].1 },
                ),
        decreases rest.len(),
    {
        let ghost left = rest.deep_view();
        let ghost before = r.deep_view();
        let (location, item) = rest.remove(0);
        proof {
            assert(left.len() == all.len() - done);
            assert(left[0] == all[done]);
            assert(rest.deep_view() =~= left.remove(0));
            assert(left.remove(0) =~= all.skip(done + 1));
        }
        let file_name = lowercase(item.file_name.as_str());
        let changed = Css { contents: item.contents, file_name };
        r.push((location, changed));
        proof {
            assert(r.deep_view() =~= before.push((location.deep_view(), changed.deep_view())));
            assert(r.deep_view() =~= wanted.take(done + 1));
            done = done + 1;
        }
    }
    proof {
        assert(wanted.take(all.len() as int) =~= wanted);
    }
    r
}

/// The images `img` with the names of their files in lowercase.
fn lowered_img(img: Vec<(Option<Location>, Img)>) -> (r: Vec<(Option<Location>, Img)>)
    ensures
        r.deep_view() == Seq::new(
            img@.len(),
            |i: int|
                (
                    img.deep_view()[i].0,
                    ImgView {
                        file_name: lowercase_of(img.deep_view()[i].1.file_name),
                        ..img.deep_view()[i].1
                    },
                ),
        ),
{
    let ghost all = img.deep_view();
    let ghost wanted = Seq::new(
        all.len(),
        |i: int| (all[i].0, ImgView { file_name: lowercase_of(all[i].1.file_name), ..all[i].1 }),
    );
    let mut rest = img;
    let mut r: Vec<(Option<Location>, Img)> = Vec::new();
    let ghost mut done: int = 0;
    proof {
        assert(r.deep_view() =~= wanted.take(0));
        assert(rest.deep_view() =~= all.skip(0));
    }
    while rest.len() > 0
        invariant
            0 <= done <= all.len(),
            rest.deep_view() == all.skip(done),
            r.deep_view() == wanted.take(done),
            wanted.len() == all.len(),
            forall|i: int|
                0 <= i < all.len() ==> #[trigger] wanted[i] == (
                    all[i].0,
                    ImgView { file_name: lowercase_of(all[i].1.file_name), ..all[i].1 },
                ),
        decreases rest.len(),
    {
        let ghost left = rest.deep_view();
        let ghost before = r.deep_view();
        let (location, item) = rest.remove(0);
        proof {
            assert(left.len() == all.len() - done);
            assert(left[0] == all[done]);
            assert(rest.deep_view() =~= left.remove(0));
            assert(left.remove(0) =~= all.skip(done + 1));
        }
        let file_name = lowercase(item.file_name.as_str());
        let changed = Img { contents: item.contents, file_name };
        r.push((location, changed));
        proof {
            assert(r.deep_view() =~= before.push((location.deep_view(), changed.deep_view())));
            assert(r.deep_view() =~= wanted.take(done + 1));
            done = done + 1;
        }
    }
    proof {
        assert(wanted.take(all.len() as int) =~= wanted);
    }
    r
}

/// Files what was parsed by kind, puts the names of style sheets and images in
/// lowercase, and the documents in order.
pub fn prepare(ir: Vec<Item<IntermediateRepresentation>>) -> (r: BuildContext)
    ensures
        r.deep_view() == prepared(ir.deep_view()),
{
    let sorted = by_kind_exec(ir);
    let css = lowered_css(sorted.css);
    let img = lowered_img(sorted.img);
    let md = sort_documents(sorted.md);
    BuildContext { css, img, md, page: sorted.page }
}

/// A copy of the bytes `bytes`.
fn copy_bytes(bytes: &Vec<u8>) -> (r: Vec<u8>)
    ensures
        r@ == bytes@,
{
    let mut r: Vec<u8> = Vec::new();
    let mut i: usize = 0;
    while i < bytes.len()
        invariant
            i <= bytes@.len(),
            r@ == bytes@.take(i as int),
        decreases bytes.len() - i,
    {
        r.push(bytes[i]);
        i += 1;
        assert(r@ =~= bytes@.take(i as int));
    }
    assert(bytes@.take(bytes@.len() as int) =~= bytes@);
    r
}

/// A copy of a list of links.
fn copy_links(links: &Vec<Link>) -> (r: Vec<Link>)
    ensures
        r.deep_view() == links.deep_view(),
{
    let mut r: Vec<Link> = Vec::new();
    let mut i: usize = 0;
    assert(r.deep_view() =~= links.deep_view().take(0));
    while i < links.len()
        invariant
            i <= links@.len(),
            r.deep_view() == links.deep_view().take(i as int),
        decreases links.len() - i,
    {
        push_link(&mut r, links[i].copy());
        i += 1;
        assert(r.deep_view() =~= links.deep_view().take(i as int));
    }
    assert(links.deep_view().take(links@.len() as int) =~= links.deep_view());
    r
}

/// A copy of the document `md`.
pub fn copy_md(md: &Md) -> (r: Md)
    ensures
        r.deep_view() == md.deep_view(),
{
    Md {
        contents: Item {
            item: md.contents.item.copy(),
            location: copy_location(&md.contents.location),
        },
        date: md.date.clone(),
        day: md.day.clone(),
        default_title: md.default_title.clone(),
        display_title: md.display_title.clone(),
        html_file_name: md.html_file_name.copy(),
        keywords: crate::context::copy_strings(&md.keywords),
        month: md.month.clone(),
        month_year: md.month_year.clone(),
        navigation: crate::parser::md::Navigation {
            next: copy_links(&md.navigation.next),
            previous: copy_links(&md.navigation.previous),
        },
        path: md.path.clone(),
        series: crate::context::copy_strings(&md.series),
        summary: md.summary.clone(),
        year: md.year.clone(),
    }
}

/// Builds every document of `build_context`.
pub fn build_mds(build_context: &BuildContext, context: &Context) -> (r: Vec<Res<Md>>)
    ensures
        r.deep_view() == build_mds_spec(build_context.deep_view(), context.links.deep_view()),
{
    let ghost wanted = build_mds_spec(build_context.deep_view(), context.links.deep_view());
    let mut r: Vec<Res<Md>> = Vec::new();
    let mut i: usize = 0;
    assert(r.deep_view() =~= wanted.take(0));
    while i < build_context.md.len()
        invariant
            i <= build_context.md@.len(),
            wanted == build_mds_spec(build_context.deep_view(), context.links.deep_view()),
            r.deep_view() == wanted.take(i as int),
        decreases build_context.md.len() - i,
    {
        let ghost before = r.deep_view();
        let entry = &build_context.md[i];
        let built = build_md(i, copy_location(&entry.0), copy_md(&entry.1), build_context, context);
        r.push(built);
        proof {
            assert(build_context.deep_view().md[i as int] == entry.deep_view());
            assert(r.deep_view() =~= before.push(built.deep_view()));
            assert(r.deep_view() =~= wanted.take(i + 1));
        }
        i += 1;
    }
    assert(wanted.take(build_context.md@.len() as int) =~= wanted);
    r
}

/// The page `page`, as the outcome of its composition.
fn composed_exec(page: Page) -> (r: Res<Page>)
    ensures
        r.deep_view() == composed(page.deep_view()),
{
    Res::Success(Item { item: page, location: None })
}

/// Composes the pages that span all documents: home, catalog, projects, about
/// me. There must be a document, and the month of every document must be one from
/// `01` to `12`.
pub fn build_standalone_pages(
    about_me_link: String,
    catalog_link: String,
    index_link: String,
    projects_link: String,
    build_context: &BuildContext,
    context: &Context,
) -> (r: Vec<Res<Page>>)
    requires
        build_context.md@.len() > 0,
        catalog::months_known(build_context.md.deep_view()),
    ensures
        r.deep_view() == build_standalone_pages_spec(
            about_me_link@,
            catalog_link@,
            index_link@,
            projects_link@,
            build_context.deep_view(),
            context.config.deep_view(),
        ),
{
    let about_me = composed_exec(about_me_page::build(about_me_link, context));
    let catalog = composed_exec(catalog::build(catalog_link, build_context));
    let projects = composed_exec(projects_page::build(projects_link, context));
    let index = composed_exec(index::build(index_link, build_context, context));
    let mut r: Vec<Res<Page>> = Vec::new();
    r.push(index);
    r.push(catalog);
    r.push(projects);
    r.push(about_me);
    assert(r.deep_view() =~= seq![
        index.deep_view(),
        catalog.deep_view(),
        projects.deep_view(),
        about_me.deep_view(),
    ]);
    r
}

/// Whether the builder can compose the site from `ir`: there is a document, and
/// the month of every document is one from `01` to `12`.
pub open spec fn can_build(ir: Seq<ItemView<IntermediateRepresentationView>>) -> bool {
    by_kind(ir).md.len() > 0 && catalog::months_known(by_kind(ir).md)
}

/// Where a document goes lies among the documents.
proof fn lemma_place_of(keys: Seq<Seq<char>>, key: Seq<char>, from: int)
    requires
        0 <= from <= keys.len(),
    ensures
        from <= place_of(keys, key, from) <= keys.len(),
    decreases keys.len() - from,
{
    if from < keys.len() && text_le(keys[from], key) {
        lemma_place_of(keys, key, from + 1);
    }
}

/// Putting the documents in order keeps their number, and keeps the months of
/// all of them known where they were.
pub proof fn lemma_in_order_keeps(md: Seq<(Option<LocationView>, MdView)>)
    ensures
        in_order(md).len() == md.len(),
        catalog::months_known(md) ==> catalog::months_known(in_order(md)),
    decreases md.len(),
{
    if md.len() > 0 {
        lemma_in_order_keeps(md.drop_last());
        let sorted = in_order(md.drop_last());
        let at = place_of(sort_keys(sorted), sort_key(md.last().1), 0);
        lemma_place_of(sort_keys(sorted), sort_key(md.last().1), 0);
        if catalog::months_known(md) {
            assert forall|i: int| 0 <= i < md.drop_last().len() implies catalog::month_name(
                (#[trigger] md.drop_last()[i]).1.month,
            ).is_some() by {
                assert(md.drop_last()[i] == md[i]);
            }
            assert(catalog::month_name(md[md.len() - 1].1.month).is_some());
            let after = sorted.insert(at, md.last());
            assert forall|i: int| 0 <= i < after.len() implies catalog::month_name(
                (#[trigger] after[i]).1.month,
            ).is_some() by {
                if i < at {
                    assert(after[i] == sorted[i]);
                } else if i > at {
                    assert(after[i] == sorted[i - 1]);
                }
            }
        }
    }
}

/// Whether the builder can compose the site from `ir`.
pub fn check_can_build(ir: &Vec<Item<IntermediateRepresentation>>) -> (b: bool)
    ensures
        b == can_build(ir.deep_view()),
{
    let ghost all = ir.deep_view();
    let mut found = false;
    let mut i: usize = 0;
    assert(all.take(0) =~= Seq::empty());
    while i < ir.len()
        invariant
            i <= ir@.len(),
            all == ir.deep_view(),
            found == (by_kind(all.take(i as int)).md.len() > 0),
            catalog::months_known(by_kind(all.take(i as int)).md),
        decreases ir.len() - i,
    {
        proof {
            assert(all.take(i + 1).drop_last() =~= all.take(i as int));
            assert(all.take(i + 1).last() == ir[i as int].deep_view());
        }
        let ghost before = by_kind(all.take(i as int)).md;
        match &ir[i].item {
            IntermediateRepresentation::Md(md) => {
                let ghost after = by_kind(all.take(i + 1)).md;
                assert(after == before.push((ir[i as int].location.deep_view(), md.deep_view())));
                if !catalog::is_month(md.month.as_str()) {
                    proof {
                        let whole = by_kind(all).md;
                        lemma_by_kind_grows(all, i + 1);
                        assert(whole[before.len() as int] == after[before.len() as int]);
                        assert(!catalog::month_name(whole[before.len() as int].1.month).is_some());
                    }
                    return false;
                }
                found = true;
                assert forall|k: int| 0 <= k < after.len() implies catalog::month_name(
                    (#[trigger] after[k]).1.month,
                ).is_some() by {
                    if k < before.len() {
                        assert(after[k] == before[k]);
                    }
                }
            },
            _ => {},
        }
        i += 1;
    }
    assert(all.take(ir@.len() as int) =~= all);
    found
}

/// The documents of a part of what was parsed are the first of the documents of
/// the whole.
proof fn lemma_by_kind_grows(ir: Seq<ItemView<IntermediateRepresentationView>>, n: int)
    requires
        0 <= n <= ir.len(),
    ensures
        by_kind(ir.take(n)).md.len() <= by_kind(ir).md.len(),
        forall|k: int|
            0 <= k < by_kind(ir.take(n)).md.len() ==> by_kind(ir).md[k] == by_kind(
                ir.take(n),
            ).md[k],
    decreases ir.len() - n,
{
    if n < ir.len() {
        lemma_by_kind_grows(ir.drop_last(), n);
        assert(ir.drop_last().take(n) =~= ir.take(n));
    } else {
        assert(ir.take(n) =~= ir);
    }
}

/// The outcome `res` as that of a document of the site.
fn wrap_md(res: Res<Md>) -> (r: Res<IntermediateRepresentation>)
    ensures
        r.deep_view() == wrapped(
            res.deep_view(),
            |md: MdView| IntermediateRepresentationView::Md(md),
        ),
{
    match res {
        Res::Success(i) => Res::Success(
            Item { item: IntermediateRepresentation::Md(i.item), location: i.location },
        ),
        Res::Warn { item, msg } => Res::Warn {
            item: Item { location: item.location, item: IntermediateRepresentation::Md(item.item) },
            msg,
        },
        Res::Warnings { item, msgs } => Res::Warnings {
            item: Item { location: item.location, item: IntermediateRepresentation::Md(item.item) },
            msgs,
        },
        Res::Error { location, msg } => Res::Error { location, msg },
    }
}

/// The outcome `res` as that of a page of the site.
fn wrap_page(res: Res<Page>) -> (r: Res<IntermediateRepresentation>)
    ensures
        r.deep_view() == wrapped(
            res.deep_view(),
            |page: PageView| IntermediateRepresentationView::Page(page),
        ),
{
    match res {
        Res::Success(i) => Res::Success(
            Item { item: IntermediateRepresentation::Page(i.item), location: i.location },
        ),
        Res::Warn { item, msg } => Res::Warn {
            item: Item {
                location: item.location,
                item: IntermediateRepresentation::Page(item.item),
            },
            msg,
        },
        Res::Warnings { item, msgs } => Res::Warnings {
            item: Item {
                location: item.location,
                item: IntermediateRepresentation::Page(item.item),
            },
            msgs,
        },
        Res::Error { location, msg } => Res::Error { location, msg },
    }
}

/// Appends `res` to `out`.
fn push_res(out: &mut Vec<Res<IntermediateRepresentation>>, res: Res<IntermediateRepresentation>)
    ensures
        final(out).deep_view() == old(out).deep_view().push(res.deep_view()),
{
    out.push(res);
    assert(out.deep_view() =~= old(out).deep_view().push(res.deep_view()));
}

/// Composes the site from everything that was parsed. There must be a document,
/// and the month of every document must be one from `01` to `12`.
#[verifier::rlimit(40)]
pub fn execute(context: &Context, ir: Vec<Item<IntermediateRepresentation>>) -> (r: Vec<
    Res<IntermediateRepresentation>,
>)
    requires
        can_build(ir.deep_view()),
    ensures
        r.deep_view() == execute_spec(context.deep_view(), ir.deep_view()),
{
    proof {
        lemma_in_order_keeps(by_kind(ir.deep_view()).md);
    }
    let build_context = prepare(ir);
    let ghost bc = build_context.deep_view();
    let mds = build_mds(&build_context, context);
    let pages = build_standalone_pages(
        context.links.about_me_link.clone(),
        context.links.catalog_link.clone(),
        context.links.index_link.clone(),
        context.links.projects_link.clone(),
        &build_context,
        context,
    );
    let ghost css_part = Seq::new(
        bc.css.len(),
        |i: int|
            ResView::Success(
                ItemView {
                    item: IntermediateRepresentationView::Css(bc.css[i].1),
                    location: bc.css[i].0,
                },
            ),
    );
    let ghost img_part = Seq::new(
        bc.img.len(),
        |i: int|
            ResView::Success(
                ItemView {
                    item: IntermediateRepresentationView::Img(bc.img[i].1),
                    location: bc.img[i].0,
                },
            ),
    );
    let ghost md_part = Seq::new(
        mds.deep_view().len(),
        |i: int| wrapped(mds.deep_view()[i], |md: MdView| IntermediateRepresentationView::Md(md)),
    );
    let ghost page_part = Seq::new(
        pages.deep_view().len(),
        |i: int|
            wrapped(
                pages.deep_view()[i],
                |page: PageView| IntermediateRepresentationView::Page(page),
            ),
    );
    let mut out: Vec<Res<IntermediateRepresentation>> = Vec::new();
    let mut i: usize = 0;
    assert(out.deep_view() =~= css_part.take(0));
    while i < build_context.css.len()
        invariant
            i <= build_context.css@.len(),
            bc == build_context.deep_view(),
            css_part.len() == bc.css.len(),
            forall|k: int|
                0 <= k < bc.css.len() ==> #[trigger] css_part[k] == ResView::Success(
                    ItemView {
                        item: IntermediateRepresentationView::Css(bc.css[k].1),
                        location: bc.css[k].0,
                    },
                ),
            out.deep_view() == css_part.take(i as int),
        decreases build_context.css.len() - i,
    {
        let entry = &build_context.css[i];
        assert(bc.css[i as int] == entry.deep_view());
        let css = Css { contents: copy_bytes(&entry.1.contents), file_name: entry.1.file_name.clone() };
        push_res(
            &mut out,
            Res::Success(
                Item { location: copy_location(&entry.0), item: IntermediateRepresentation::Css(css) },
            ),
        );
        i += 1;
        assert(out.deep_view() =~= css_part.take(i as int));
    }
    assert(css_part.take(css_part.len() as int) =~= css_part);
    let mut i: usize = 0;
    assert(out.deep_view() =~= css_part + img_part.take(0));
    while i < build_context.img.len()
        invariant
            i <= build_context.img@.len(),
            bc == build_context.deep_view(),
            img_part.len() == bc.img.len(),
            forall|k: int|
                0 <= k < bc.img.len() ==> #[trigger] img_part[k] == ResView::Success(
                    ItemView {
                        item: IntermediateRepresentationView::Img(bc.img[k].1),
                        location: bc.img[k].0,
                    },
                ),
            out.deep_view() == css_part + img_part.take(i as int),
        decreases build_context.img.len() - i,
    {
        let entry = &build_context.img[i];
        assert(bc.img[i as int] == entry.deep_view());
        let img = Img { contents: copy_bytes(&entry.1.contents), file_name: entry.1.file_name.clone() };
        push_res(
            &mut out,
            Res::Success(
                Item { location: copy_location(&entry.0), item: IntermediateRepresentation::Img(img) },
            ),
        );
        i += 1;
        assert(out.deep_view() =~= css_part + img_part.take(i as int));
    }
    assert(img_part.take(img_part.len() as int) =~= img_part);
    let ghost built = mds.deep_view();
    let mut rest = mds;
    let ghost mut done: int = 0;
    proof {
        assert(rest.deep_view() =~= built.skip(0));
        assert(out.deep_view() =~= css_part + img_part + md_part.take(0));
    }
    while rest.len() > 0
        invariant
            0 <= done <= built.len(),
            rest.deep_view() == built.skip(done),
            md_part.len() == built.len(),
            forall|k: int|
                0 <= k < built.len() ==> #[trigger] md_part[k] == wrapped(
                    built[k],
                    |md: MdView| IntermediateRepresentationView::Md(md),
                ),
            out.deep_view() == css_part + img_part + md_part.take(done),
        decreases rest.len(),
    {
        let ghost left = rest.deep_view();
        let res = rest.remove(0);
        proof {
            assert(left.len() == built.len() - done);
            assert(left[0] == built[done]);
            assert(rest.deep_view() =~= left.remove(0));
            assert(left.remove(0) =~= built.skip(done + 1));
        }
        push_res(&mut out, wrap_md(res));
        proof {
            assert(out.deep_view() =~= css_part + img_part + md_part.take(done + 1));
            done = done + 1;
        }
    }
    assert(md_part.take(md_part.len() as int) =~= md_part);
    let ghost composed_pages = pages.deep_view();
    let mut rest = pages;
    let ghost mut done: int = 0;
    proof {
        assert(rest.deep_view() =~= composed_pages.skip(0));
        assert(out.deep_view() =~= css_part + img_part + md_part + page_part.take(0));
    }
    while rest.len() > 0
        invariant
            0 <= done <= composed_pages.len(),
            rest.deep_view() == composed_pages.skip(done),
            page_part.len() == composed_pages.len(),
            forall|k: int|
                0 <= k < composed_pages.len() ==> #[trigger] page_part[k] == wrapped(
                    composed_pages[k],
                    |page: PageView| IntermediateRepresentationView::Page(page),
                ),
            out.deep_view() == css_part + img_part + md_part + page_part.take(done),
        decreases rest.len(),
    {
        let ghost left = rest.deep_view();
        let res = rest.remove(0);
        proof {
            assert(left.len() == composed_pages.len() - done);
            assert(left[0] == composed_pages[done]);
            assert(rest.deep_view() =~= left.remove(0));
            assert(left.remove(0) =~= composed_pages.skip(done + 1));
        }
        push_res(&mut out, wrap_page(res));
        proof {
            assert(out.deep_view() =~= css_part + img_part + md_part + page_part.take(done + 1));
            done = done + 1;
        }
    }
    assert(page_part.take(page_part.len() as int) =~= page_part);
    out
}

} // verus!
