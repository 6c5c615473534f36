//! Pages that the builder composes from all documents.

use crate::outcome::{Item, ItemView};
use crate::parser::md::parse_contents::content_ir::IrView;
use crate::parser::md::ContentIr;
use vstd::prelude::*;

verus! {

/// A page of the site that is no document: the home page, the catalog and the
/// like.
#[derive(Clone, Debug, PartialEq)]
pub struct Page {
    pub contents: Item<ContentIr>,
    pub file_name: String,
    pub keywords: Vec<String>,
    pub summary: String,
    pub title: String,
}

/// The mathematical value of a [`Page`].
pub struct PageView {
    pub contents: ItemView<IrView>,
    pub file_name: Seq<char>,
    pub keywords: Seq<Seq<char>>,
    pub summary: Seq<char>,
    pub title: Seq<char>,
}

impl DeepView for Page {
    type V = PageView;

    open spec fn deep_view(&self) -> PageView {
        PageView {
            contents: self.contents.deep_view(),
            file_name: self.file_name@,
            keywords: self.keywords.deep_view(),
            summary: self.summary@,
            title: self.title@,
        }
    }
}

} // verus!
