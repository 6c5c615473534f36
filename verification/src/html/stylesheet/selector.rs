//! The names of style classes.

use vstd::prelude::*;
use vstd::std_specs::convert::FromSpecImpl;

verus! {

/// The name of a style class.
#[derive(Debug, Clone, PartialEq)]
pub struct Selector(pub String);

impl View for Selector {
    type V = Seq<char>;

    open spec fn view(&self) -> Seq<char> {
        self.0@
    }
}

impl Selector {
    /// The name as text.
    pub fn to_str(&self) -> (s: &str)
        ensures
            s@ == self@,
    {
        self.0.as_str()
    }
}

impl From<String> for Selector {
    fn from(s: String) -> (r: Self) {
        Self(s)
    }
}

impl FromSpecImpl<String> for Selector {
    open spec fn obeys_from_spec() -> bool {
        true
    }

    open spec fn from_spec(s: String) -> Self {
        Selector(s)
    }
}

} // verus!
