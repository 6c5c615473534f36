//! The parsers that turn crawled files into their intermediate representation.

pub mod css;
pub mod img;
pub mod md;
pub mod page;

use crate::context::Context;
use crate::crawler::{File, FileKind, FileView};
use crate::outcome::{Item, ItemView, Location, LocationView, Res, ResView};
use crate::text::text_of;
use vstd::prelude::*;

pub use css::Css;
pub use img::Img;
pub use md::{ContentIr, LinkType, Md};
pub use page::Page;

verus! {

/// What a file of the site has been parsed to.
#[derive(Clone, Debug, PartialEq)]
pub enum IntermediateRepresentation {
    Css(Css),
    Img(Img),
    Md(Md),
    Page(Page),
}

/// The mathematical value of an [`IntermediateRepresentation`].
pub enum IntermediateRepresentationView {
    Css(css::CssView),
    Img(img::ImgView),
    Md(md::MdView),
    Page(page::PageView),
}

impl DeepView for IntermediateRepresentation {
    type V = IntermediateRepresentationView;

    open spec fn deep_view(&self) -> IntermediateRepresentationView {
        match self {
            IntermediateRepresentation::Css(css) => IntermediateRepresentationView::Css(
                css.deep_view(),
            ),
            IntermediateRepresentation::Img(img) => IntermediateRepresentationView::Img(
                img.deep_view(),
            ),
            IntermediateRepresentation::Md(md) => IntermediateRepresentationView::Md(
                md.deep_view(),
            ),
            IntermediateRepresentation::Page(page) => IntermediateRepresentationView::Page(
                page.deep_view(),
            ),
        }
    }
}

/// What was read of a file: text or bytes.
#[derive(Clone, Debug, PartialEq)]
pub enum Contents {
    Text(String),
    Bytes(Vec<u8>),
}

/// The mathematical value of [`Contents`].
pub enum ContentsView {
    Text(Seq<char>),
    Bytes(Seq<u8>),
}

impl DeepView for Contents {
    type V = ContentsView;

    open spec fn deep_view(&self) -> ContentsView {
        match self {
            Contents::Text(text) => ContentsView::Text(text@),
            Contents::Bytes(bytes) => ContentsView::Bytes(bytes@),
        }
    }
}

/// Where the diagnostics of `file` point: at its start.
pub open spec fn location_of(file: FileView) -> LocationView {
    LocationView { column: 0, file: file.file_name, line: 0, path: file.path }
}

/// What parsing `file` with the contents `contents` returns: what the parser of
/// its kind returns. Documents and style sheets are read as text, images as bytes;
/// contents of the other form fail.
pub open spec fn execute_spec(
    file: ItemView<FileView>,
    contents: ContentsView,
    theme: crate::theme::Theme,
) -> ResView<IntermediateRepresentationView> {
    let location = location_of(file.item);
    match (file.item.kind, contents) {
        (FileKind::Css, ContentsView::Text(text)) => css::parse_spec(text, location, theme),
        (FileKind::Img, ContentsView::Bytes(bytes)) => img::parse_spec(bytes, location),
        (FileKind::Md, ContentsView::Text(text)) => md::parse_spec(
            file.item.file_name,
            file.item.path,
            text,
            location,
        ),
        _ => ResView::Error {
            location: Some(location),
            msg: "The contents were not read as the kind of the file asks!"@,
        },
    }
}

/// Parses `file`, whose contents are `contents`, with the parser of its kind.
pub fn execute(file: &Item<File>, contents: Contents, context: &Context) -> (r: Res<
    IntermediateRepresentation,
>)
    ensures
        r.deep_view() == execute_spec(
            file.deep_view(),
            contents.deep_view(),
            context.config.theme,
        ),
{
    let location = Location {
        column: 0,
        file: file.item.file_name.clone(),
        line: 0,
        path: file.item.path.clone(),
    };
    match file.item.kind {
        FileKind::Css => match contents {
            Contents::Text(text) => css::parse(text, location, context),
            _ => mismatch(location),
        },
        FileKind::Img => match contents {
            Contents::Bytes(bytes) => img::parse(bytes, location),
            _ => mismatch(location),
        },
        FileKind::Md => match contents {
            Contents::Text(text) => md::parse(
                &file.item.file_name,
                file.item.path.clone(),
                text,
                location,
            ),
            _ => mismatch(location),
        },
    }
}

/// The failure for contents that are not of the form that the kind of the file
/// asks.
fn mismatch(location: Location) -> (r: Res<IntermediateRepresentation>)
    ensures
        r.deep_view() == (ResView::<IntermediateRepresentationView>::Error {
            location: Some(location.deep_view()),
            msg: "The contents were not read as the kind of the file asks!"@,
        }),
{
    Res::Error {
        location: Some(location),
        msg: text_of("The contents were not read as the kind of the file asks!"),
    }
}

} // verus!
