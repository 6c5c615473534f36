//! The link from a page to its style sheet.

use crate::html::Html;
use crate::text::text_of;
use vstd::prelude::*;
use vstd::std_specs::convert::FromSpecImpl;
use vstd::string::StringExecFns;

verus! {

/// The address of a style sheet.
#[derive(Clone, Debug, PartialEq)]
pub struct CssLink(pub String);

impl View for CssLink {
    type V = Seq<char>;

    open spec fn view(&self) -> Seq<char> {
        self.0@
    }
}

impl Html for CssLink {
    /// The element that links a page to the style sheet.
    open spec fn html(&self) -> Seq<char> {
        "<link rel=\"stylesheet\" href=\""@ + self@ + "\">"@
    }

    fn to_html(&self) -> (s: String) {
        let mut s = text_of("<link rel=\"stylesheet\" href=\"");
        s.append(self.0.as_str());
        s.append("\">");
        s
    }
}

impl From<String> for CssLink {
    fn from(s: String) -> (r: Self) {
        Self(s)
    }
}

impl FromSpecImpl<String> for CssLink {
    open spec fn obeys_from_spec() -> bool {
        true
    }

    open spec fn from_spec(s: String) -> Self {
        CssLink(s)
    }
}

} // verus!
