//! What a page says of itself to search engines and browsers.

use crate::html::Html;
use crate::text::{join, join_exec, text_of};
use vstd::prelude::*;
use vstd::string::StringExecFns;

verus! {

/// The author, the keywords and the summary of a page.
#[derive(Clone, Debug, PartialEq)]
pub struct Metadata {
    pub author: String,
    pub keywords: Vec<String>,
    pub summary: String,
}

/// The `meta` element that gives `name` the content `content`.
pub open spec fn named_meta(name: Seq<char>, content: Seq<char>) -> Seq<char> {
    "<meta name=\""@ + name + "\" content=\""@ + content + "\">"@
}

impl Html for Metadata {
    /// Five `meta` elements, one to a line: the character set, the summary as
    /// description, the keywords with commas between them, the author, and the
    /// viewport.
    open spec fn html(&self) -> Seq<char> {
        "<meta charset=\"UTF-8\">"@ + "\n"@ + named_meta("description"@, self.summary@) + "\n"@
            + named_meta("keywords"@, join(self.keywords.deep_view(), ", "@)) + "\n"@ + named_meta(
            "author"@,
            self.author@,
        ) + "\n"@ + named_meta("viewport"@, "width=device-width, initial-scale=1.0"@)
    }

    fn to_html(&self) -> (s: String) {
        let keywords = join_exec(&self.keywords, ", ");
        let mut s = text_of("<meta charset=\"UTF-8\">");
        s.append("\n");
        s.append(named_meta_exec("description", self.summary.as_str()).as_str());
        s.append("\n");
        s.append(named_meta_exec("keywords", keywords.as_str()).as_str());
        s.append("\n");
        s.append(named_meta_exec("author", self.author.as_str()).as_str());
        s.append("\n");
        s.append(
            named_meta_exec("viewport", "width=device-width, initial-scale=1.0").as_str(),
        );
        s
    }
}

fn named_meta_exec(name: &str, content: &str) -> (s: String)
    ensures
        s@ == named_meta(name@, content@),
{
    let mut s = text_of("<meta name=\"");
    s.append(name);
    s.append("\" content=\"");
    s.append(content);
    s.append("\">");
    s
}

} // verus!
