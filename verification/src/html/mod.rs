//! The rendering of content trees to markup, and the style sheet of the site.

pub mod css_link;
pub mod element;
pub mod metadata;
pub mod page;
pub mod stylesheet;

use vstd::prelude::*;

pub use css_link::CssLink;
pub use element::{Element, ElementView};
pub use metadata::Metadata;
pub use page::Page;
pub use stylesheet::Stylesheet;

verus! {

/// What can be written out as markup or as a style sheet.
pub trait Html {
    /// The text that `to_html` writes.
    spec fn html(&self) -> Seq<char>;

    /// Writes this value out.
    fn to_html(&self) -> (s: String)
        ensures
            s@ == self.html(),
    ;
}

/// What can be turned into an element of a page.
pub trait HtmlElement {
    /// Whether this value can be turned into an element.
    spec fn convertible(&self) -> bool;

    /// The element that `to_element` returns.
    spec fn element(&self) -> ElementView;

    /// Turns this value into an element.
    fn to_element(&self) -> (e: Element)
        requires
            self.convertible(),
        ensures
            e.deep_view() == self.element(),
    ;
}

} // verus!
