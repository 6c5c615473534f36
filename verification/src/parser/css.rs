//! Style sheets: the names of colors in them give way to the colors of the theme.

use crate::context::Context;
use crate::html::Html;
use crate::outcome::{Item, ItemView, Location, LocationView, Res, ResView};
use crate::parser::{IntermediateRepresentation, IntermediateRepresentationView};
use crate::text::{replace_all, replaced};
use crate::theme::Theme;
use vstd::prelude::*;
use vstd::string::{StrSliceExecFns, StringSliceAdditionalSpecFns};

verus! {

/// A style sheet, as bytes, and the name of its file.
#[derive(Clone, Debug, PartialEq)]
pub struct Css {
    pub contents: Vec<u8>,
    pub file_name: String,
}

/// The mathematical value of a [`Css`].
pub struct CssView {
    pub contents: Seq<u8>,
    pub file_name: Seq<char>,
}

impl DeepView for Css {
    type V = CssView;

    open spec fn deep_view(&self) -> CssView {
        CssView { contents: self.contents@, file_name: self.file_name@ }
    }
}

/// The style sheet `text` with each name of a color replaced by that color of
/// `theme`, the names taken in this order: primary and secondary text for the light
/// and then the dark mode, primary and secondary fill for the light and then the
/// dark mode, and the red, the green and the blue accent.
pub open spec fn themed(text: Seq<char>, theme: Theme) -> Seq<char> {
    let a = replaced(text, "_TXT_L_PRIMARY"@, theme.text_primary_light_mode.html());
    let b = replaced(a, "_TXT_L_SECONDARY"@, theme.text_secondary_light_mode.html());
    let c = replaced(b, "_TXT_D_PRIMARY"@, theme.text_primary_dark_mode.html());
    let d = replaced(c, "_TXT_D_SECONDARY"@, theme.text_secondary_dark_mode.html());
    let e = replaced(d, "_FILL_L_PRIMARY"@, theme.fill_primary_light_mode.html());
    let f = replaced(e, "_FILL_L_SECONDARY"@, theme.fill_secondary_light_mode.html());
    let g = replaced(f, "_FILL_D_PRIMARY"@, theme.fill_primary_dark_mode.html());
    let h = replaced(g, "_FILL_D_SECONDARY"@, theme.fill_secondary_dark_mode.html());
    let i = replaced(h, "_ACCENT_RED"@, theme.accent_red.html());
    let j = replaced(i, "_ACCENT_GREEN"@, theme.accent_green.html());
    replaced(j, "_ACCENT_BLUE"@, theme.accent_blue.html())
}

/// The style sheet `text` with the colors of `theme`.
fn themed_exec(text: &str, theme: &Theme) -> (r: String)
    ensures
        r@ == themed(text@, *theme),
{
    let a = replace_all(text, "_TXT_L_PRIMARY", theme.text_primary_light_mode.to_html().as_str());
    let b = replace_all(
        a.as_str(),
        "_TXT_L_SECONDARY",
        theme.text_secondary_light_mode.to_html().as_str(),
    );
    let c = replace_all(b.as_str(), "_TXT_D_PRIMARY", theme.text_primary_dark_mode.to_html().as_str());
    let d = replace_all(
        c.as_str(),
        "_TXT_D_SECONDARY",
        theme.text_secondary_dark_mode.to_html().as_str(),
    );
    let e = replace_all(
        d.as_str(),
        "_FILL_L_PRIMARY",
        theme.fill_primary_light_mode.to_html().as_str(),
    );
    let f = replace_all(
        e.as_str(),
        "_FILL_L_SECONDARY",
        theme.fill_secondary_light_mode.to_html().as_str(),
    );
    let g = replace_all(
        f.as_str(),
        "_FILL_D_PRIMARY",
        theme.fill_primary_dark_mode.to_html().as_str(),
    );
    let h = replace_all(
        g.as_str(),
        "_FILL_D_SECONDARY",
        theme.fill_secondary_dark_mode.to_html().as_str(),
    );
    let i = replace_all(h.as_str(), "_ACCENT_RED", theme.accent_red.to_html().as_str());
    let j = replace_all(i.as_str(), "_ACCENT_GREEN", theme.accent_green.to_html().as_str());
    replace_all(j.as_str(), "_ACCENT_BLUE", theme.accent_blue.to_html().as_str())
}

/// What parsing a style sheet returns: the bytes of its text with the colors of
/// the theme of `theme`, under the name of the file of `location`.
pub open spec fn parse_spec(text: Seq<char>, location: LocationView, theme: Theme) -> ResView<
    IntermediateRepresentationView,
> {
    ResView::Success(
        ItemView {
            item: IntermediateRepresentationView::Css(
                CssView {
                    contents: vstd::utf8::encode_utf8(themed(text, theme)),
                    file_name: location.file,
                },
            ),
            location: Some(location),
        },
    )
}

/// Puts the colors of the theme of `context` into the style sheet `text`.
pub fn parse(text: String, location: Location, context: &Context) -> (r: Res<
    IntermediateRepresentation,
>)
    ensures
        r.deep_view() == parse_spec(text@, location.deep_view(), context.config.theme),
{
    let contents = themed_exec(text.as_str(), &context.config.theme);
    let file_name = location.file.clone();
    Res::Success(
        Item {
            item: IntermediateRepresentation::Css(
                Css { contents: contents.as_str().as_bytes_vec(), file_name },
            ),
            location: Some(location),
        },
    )
}

} // verus!
