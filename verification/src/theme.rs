//! The colors of the generated site.

use crate::html::Html;
use crate::text::{decimal, push_decimal, text_of};
use vstd::prelude::*;
use vstd::std_specs::convert::FromSpecImpl;
use vstd::string::StringExecFns;

verus! {

/// A color, by its red, green, blue and alpha parts.
#[derive(Copy, Clone, Debug, PartialEq, Eq, Structural)]
pub struct Color {
    pub r: u8,
    pub g: u8,
    pub b: u8,
    pub a: u8,
}

impl From<[u8; 3]> for Color {
    fn from(rgb: [u8; 3]) -> (c: Self) {
        Self { r: rgb[0], g: rgb[1], b: rgb[2], a: u8::MAX }
    }
}

impl FromSpecImpl<[u8; 3]> for Color {
    open spec fn obeys_from_spec() -> bool {
        true
    }

    /// An opaque color.
    open spec fn from_spec(rgb: [u8; 3]) -> Self {
        Color { r: rgb[0], g: rgb[1], b: rgb[2], a: u8::MAX }
    }
}

impl Html for Color {
    /// The color in the notation of style sheets: `rgba(r,g,b,a)`.
    open spec fn html(&self) -> Seq<char> {
        "rgba("@ + decimal(self.r as nat) + ","@ + decimal(self.g as nat) + ","@ + decimal(
            self.b as nat,
        ) + ","@ + decimal(self.a as nat) + ")"@
    }

    fn to_html(&self) -> (s: String) {
        let mut s = text_of("rgba(");
        push_decimal(&mut s, self.r as usize);
        s.append(",");
        push_decimal(&mut s, self.g as usize);
        s.append(",");
        push_decimal(&mut s, self.b as usize);
        s.append(",");
        push_decimal(&mut s, self.a as usize);
        s.append(")");
        s
    }
}

/// The colors of a site.
#[derive(Copy, Clone, Debug, PartialEq, Eq, Structural)]
pub struct Theme {
    pub accent_blue: Color,
    pub accent_green: Color,
    pub accent_red: Color,
    pub fill_primary_dark_mode: Color,
    pub fill_primary_light_mode: Color,
    pub fill_secondary_dark_mode: Color,
    pub fill_secondary_light_mode: Color,
    pub text_primary_dark_mode: Color,
    pub text_primary_light_mode: Color,
    pub text_secondary_dark_mode: Color,
    pub text_secondary_light_mode: Color,
}

/// The opaque color with the parts `r`, `g` and `b`.
pub open spec fn rgb(r: u8, g: u8, b: u8) -> Color {
    Color { r, g, b, a: u8::MAX }
}

/// The colors of a site whose configuration names none.
pub open spec fn default_theme() -> Theme {
    Theme {
        accent_blue: rgb(30, 71, 246),
        accent_green: rgb(104, 159, 57),
        accent_red: rgb(204, 0, 0),
        fill_primary_dark_mode: rgb(37, 37, 37),
        fill_primary_light_mode: rgb(255, 255, 255),
        fill_secondary_dark_mode: rgb(0, 0, 0),
        fill_secondary_light_mode: rgb(224, 224, 224),
        text_primary_dark_mode: rgb(255, 255, 255),
        text_primary_light_mode: rgb(3, 3, 3),
        text_secondary_dark_mode: rgb(162, 162, 162),
        text_secondary_light_mode: rgb(96, 96, 96),
    }
}

fn rgb_exec(r: u8, g: u8, b: u8) -> (c: Color)
    ensures
        c == rgb(r, g, b),
{
    Color { r, g, b, a: u8::MAX }
}

impl Default for Theme {
    fn default() -> (t: Self)
        ensures
            t == default_theme(),
    {
        Self {
            accent_blue: rgb_exec(30, 71, 246),
            accent_green: rgb_exec(104, 159, 57),
            accent_red: rgb_exec(204, 0, 0),
            fill_primary_dark_mode: rgb_exec(37, 37, 37),
            fill_primary_light_mode: rgb_exec(255, 255, 255),
            fill_secondary_dark_mode: rgb_exec(0, 0, 0),
            fill_secondary_light_mode: rgb_exec(224, 224, 224),
            text_primary_dark_mode: rgb_exec(255, 255, 255),
            text_primary_light_mode: rgb_exec(3, 3, 3),
            text_secondary_dark_mode: rgb_exec(162, 162, 162),
            text_secondary_light_mode: rgb_exec(96, 96, 96),
        }
    }
}

} // verus!
