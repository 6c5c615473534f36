//! Pieces of a style sheet.

use vstd::prelude::*;
use vstd::std_specs::convert::FromSpecImpl;

verus! {

/// The text of one or more rules of a style sheet.
#[derive(Debug, Clone, PartialEq)]
pub struct Css(pub String);

impl View for Css {
    type V = Seq<char>;

    open spec fn view(&self) -> Seq<char> {
        self.0@
    }
}

impl DeepView for Css {
    type V = Seq<char>;

    open spec fn deep_view(&self) -> Seq<char> {
        self.0@
    }
}

impl Css {
    /// The rules as text.
    pub fn to_str(&self) -> (s: &str)
        ensures
            s@ == self@,
    {
        self.0.as_str()
    }
}

impl From<String> for Css {
    fn from(s: String) -> (r: Self) {
        Self(s)
    }
}

impl FromSpecImpl<String> for Css {
    open spec fn obeys_from_spec() -> bool {
        true
    }

    open spec fn from_spec(s: String) -> Self {
        Css(s)
    }
}

} // verus!
