//! The style sheet of the generated site.

pub mod class;
pub mod css;
pub mod selector;

use crate::context::Context;
use crate::html::Html;
use crate::text::{join, join_exec, push_string, text_of};
use crate::theme::Theme;
use class::{all_classes, anchor, anchor_text, body, body_text, html, html_text};
use vstd::prelude::*;

pub use class::{Alignment, Class, Position};
pub use css::Css;
pub use selector::Selector;

verus! {

/// The style classes of a site and its colors.
#[derive(Debug, Clone, PartialEq)]
pub struct Stylesheet {
    pub classes: Vec<Class>,
    pub theme: Theme,
}

impl Stylesheet {
    /// The style sheet of a site with the colors of `context`: every class.
    pub fn new(context: &Context) -> (r: Self)
        ensures
            r.classes@ == all_classes(),
            r.theme == context.config.theme,
    {
        Self { classes: Class::all(), theme: context.config.theme }
    }
}

/// The style sheets of the classes `classes` under `theme`, in order.
pub open spec fn class_sheets(classes: Seq<Class>, theme: Theme) -> Seq<Seq<char>> {
    Seq::new(classes.len(), |i: int| classes[i].css_text(theme))
}

impl Html for Stylesheet {
    /// The style sheets of the classes, and the rules for links, for the body and
    /// for the document, one after the other.
    open spec fn html(&self) -> Seq<char> {
        join(
            class_sheets(self.classes@, self.theme).push(anchor_text(self.theme)).push(
                body_text(self.theme),
            ).push(html_text()),
            "\n"@,
        )
    }

    fn to_html(&self) -> (s: String) {
        let mut generated: Vec<String> = Vec::new();
        let mut i: usize = 0;
        assert(generated.deep_view() =~= class_sheets(self.classes@.take(0), self.theme));
        while i < self.classes.len()
            invariant
                i <= self.classes@.len(),
                generated.deep_view() == class_sheets(self.classes@.take(i as int), self.theme),
            decreases self.classes.len() - i,
        {
            let sheet = self.classes[i].css(&self.theme);
            push_string(&mut generated, text_of(sheet.to_str()));
            i += 1;
            assert(generated.deep_view() =~= class_sheets(
                self.classes@.take(i as int),
                self.theme,
            ));
        }
        assert(self.classes@.take(self.classes@.len() as int) =~= self.classes@);
        push_string(&mut generated, text_of(anchor(&self.theme).to_str()));
        push_string(&mut generated, text_of(body(&self.theme).to_str()));
        push_string(&mut generated, text_of(html().to_str()));
        join_exec(&generated, "\n")
    }
}

} // verus!
