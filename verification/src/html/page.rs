//! A whole page of the site.

use crate::html::css_link::CssLink;
use crate::html::element::Element;
use crate::html::metadata::Metadata;
use crate::html::stylesheet::Class;
use crate::html::Html;
use crate::text::text_of;
use vstd::prelude::*;
use vstd::string::StringExecFns;

verus! {

/// A page: its content, its style sheet, its file, its metadata and its title.
#[derive(Debug, PartialEq)]
pub struct Page {
    pub content: Element,
    pub css: CssLink,
    pub file_name: String,
    pub metadata: Metadata,
    pub title: String,
}

impl Html for Page {
    /// The document: a head with the title, the metadata and the link to the style
    /// sheet; a body with the content, wrapped in the page class and in the class
    /// of the content wrapper.
    open spec fn html(&self) -> Seq<char> {
        "\n<!DOCTYPE html>\n<html>\n    <head>\n        <title>"@ + self.title@
            + "</title>\n        <!-- metadata -->\n        "@ + self.metadata.html()
            + "\n        <!-- css -->\n        "@ + self.css.html()
            + "\n    </head>\n    <body>\n        <!-- page class -->\n        <div class="@
            + Class::Page.selector_text()
            + ">\n            <!-- content wrapper -->\n            <div class="@
            + Class::ContentWrapper.selector_text()
            + ">\n                <!-- content -->\n                "@ + self.content.html()
            + "\n            </div>\n        </div>\n    </body>\n</html>\n"@
    }

    fn to_html(&self) -> (s: String) {
        let mut s = text_of("\n<!DOCTYPE html>\n<html>\n    <head>\n        <title>");
        s.append(self.title.as_str());
        s.append("</title>\n        <!-- metadata -->\n        ");
        s.append(self.metadata.to_html().as_str());
        s.append("\n        <!-- css -->\n        ");
        s.append(self.css.to_html().as_str());
        s.append("\n    </head>\n    <body>\n        <!-- page class -->\n        <div class=");
        s.append(Class::Page.selector().to_str());
        s.append(">\n            <!-- content wrapper -->\n            <div class=");
        s.append(Class::ContentWrapper.selector().to_str());
        s.append(">\n                <!-- content -->\n                ");
        s.append(self.content.to_html().as_str());
        s.append("\n            </div>\n        </div>\n    </body>\n</html>\n");
        s
    }
}

} // verus!
