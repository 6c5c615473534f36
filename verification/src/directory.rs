//! The directories that a run reads from and writes to.

use vstd::prelude::*;
use vstd::std_specs::convert::FromSpecImpl;

verus! {

/// The path of a directory.
#[derive(Clone, Debug, PartialEq)]
pub struct Directory(pub String);

impl View for Directory {
    type V = Seq<char>;

    open spec fn view(&self) -> Seq<char> {
        self.0@
    }
}

impl DeepView for Directory {
    type V = Seq<char>;

    open spec fn deep_view(&self) -> Seq<char> {
        self.0@
    }
}

impl Directory {
    /// The path as a string.
    pub fn to_string(&self) -> (s: String)
        ensures
            s@ == self@,
    {
        self.0.clone()
    }
}

impl From<String> for Directory {
    fn from(s: String) -> (r: Self) {
        Self(s)
    }
}

impl FromSpecImpl<String> for Directory {
    open spec fn obeys_from_spec() -> bool {
        true
    }

    open spec fn from_spec(s: String) -> Self {
        Directory(s)
    }
}

} // verus!
