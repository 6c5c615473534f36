//! Images: they pass through the generator as they are.

use crate::outcome::{Item, ItemView, Location, LocationView, Res, ResView};
use crate::parser::{IntermediateRepresentation, IntermediateRepresentationView};
use vstd::prelude::*;

verus! {

/// An image and the name of its file.
#[derive(Clone, Debug, PartialEq)]
pub struct Img {
    pub contents: Vec<u8>,
    pub file_name: String,
}

/// The mathematical value of an [`Img`].
pub struct ImgView {
    pub contents: Seq<u8>,
    pub file_name: Seq<char>,
}

impl DeepView for Img {
    type V = ImgView;

    open spec fn deep_view(&self) -> ImgView {
        ImgView { contents: self.contents@, file_name: self.file_name@ }
    }
}

/// What parsing an image returns: its bytes under the name of the file of
/// `location`.
pub open spec fn parse_spec(contents: Seq<u8>, location: LocationView) -> ResView<
    IntermediateRepresentationView,
> {
    ResView::Success(
        ItemView {
            item: IntermediateRepresentationView::Img(
                ImgView { contents, file_name: location.file },
            ),
            location: Some(location),
        },
    )
}

/// Wraps the bytes `contents` of the image at `location`.
pub fn parse(contents: Vec<u8>, location: Location) -> (r: Res<IntermediateRepresentation>)
    ensures
        r.deep_view() == parse_spec(contents@, location.deep_view()),
{
    let file_name = location.file.clone();
    Res::Success(
        Item {
            item: IntermediateRepresentation::Img(Img { contents, file_name }),
            location: Some(location),
        },
    )
}

} // verus!
