//! What the generator says of a place in its messages.

use crate::outcome::{Location, LocationView};
use crate::text::{decimal, push_decimal, text_of};
use vstd::prelude::*;
use vstd::string::StringExecFns;

verus! {

/// How a message names the place `location`: its path, line and column, or
/// nothing where no place is known.
pub open spec fn pretty_print_loc_spec(location: Option<LocationView>) -> Seq<char> {
    match location {
        Some(loc) => " at path '"@ + loc.path + "', ln "@ + decimal(loc.line as nat) + ", col "@
            + decimal(loc.column as nat),
        None => Seq::<char>::empty(),
    }
}

/// How a message names the place `location`.
pub fn pretty_print_loc(location: Option<Location>) -> (s: String)
    ensures
        s@ == pretty_print_loc_spec(location.deep_view()),
{
    match location {
        Some(loc) => {
            let mut s = text_of(" at path '");
            s.append(loc.path.as_str());
            s.append("', ln ");
            push_decimal(&mut s, loc.line);
            s.append(", col ");
            push_decimal(&mut s, loc.column);
            s
        },
        None => String::new(),
    }
}

} // verus!
