//! The style classes of the site and the rules of each.

use super::css::Css;
use super::selector::Selector;
use crate::html::Html;
use crate::text::{decimal, join, join_exec, push_decimal, push_string, text_of};
use crate::theme::Theme;
use vstd::prelude::*;
use vstd::string::StringExecFns;

verus! {

/// How text is aligned.
#[derive(Debug, Clone, Copy, PartialEq, Eq, Structural)]
pub enum Alignment {
    Center,
    Justify,
    Left,
    Right,
}

impl Alignment {
    /// The name of the alignment in a style sheet.
    pub open spec fn name(self) -> Seq<char> {
        match self {
            Alignment::Center => "center"@,
            Alignment::Justify => "justify"@,
            Alignment::Left => "left"@,
            Alignment::Right => "right"@,
        }
    }

    /// The name of the alignment in a style sheet.
    pub fn to_str(&self) -> (s: &'static str)
        ensures
            s@ == self.name(),
    {
        match self {
            Alignment::Center => "center",
            Alignment::Justify => "justify",
            Alignment::Left => "left",
            Alignment::Right => "right",
        }
    }
}

/// A side.
#[derive(Debug, Clone, Copy, PartialEq, Eq, Structural)]
pub enum Position {
    Bottom,
    Left,
    Right,
    Top,
}

impl Position {
    /// The name of the side in a style sheet.
    pub open spec fn name(self) -> Seq<char> {
        match self {
            Position::Bottom => "bottom"@,
            Position::Left => "left"@,
            Position::Right => "right"@,
            Position::Top => "top"@,
        }
    }

    /// The name of the side in a style sheet.
    pub fn to_str(&self) -> (s: &'static str)
        ensures
            s@ == self.name(),
    {
        match self {
            Position::Bottom => "bottom",
            Position::Left => "left",
            Position::Right => "right",
            Position::Top => "top",
        }
    }
}

/// A style class.
#[derive(Debug, Clone, Copy, PartialEq, Eq, Structural)]
pub enum Class {
    AspectRatio16x9Container,
    AspectRatio16x9Inner,
    Card { dark_mode: bool },
    Codeblock,
    ContentWrapper,
    FullImg,
    HoverShadow,
    List,
    Navigation { position: Position },
    Outlined { dark_mode: bool },
    Padded { position: Position },
    Page,
    Shadow,
    TextAlign { alignment: Alignment },
}

/// Every style class, in the order of the style sheet.
pub open spec fn all_classes() -> Seq<Class> {
    seq![
        Class::AspectRatio16x9Container,
        Class::AspectRatio16x9Inner,
        Class::Card { dark_mode: false },
        Class::Card { dark_mode: true },
        Class::Codeblock,
        Class::ContentWrapper,
        Class::FullImg,
        Class::HoverShadow,
        Class::List,
        Class::Outlined { dark_mode: false },
        Class::Outlined { dark_mode: true },
        Class::Navigation { position: Position::Bottom },
        Class::Navigation { position: Position::Left },
        Class::Navigation { position: Position::Right },
        Class::Navigation { position: Position::Top },
        Class::Padded { position: Position::Bottom },
        Class::Padded { position: Position::Left },
        Class::Padded { position: Position::Right },
        Class::Padded { position: Position::Top },
        Class::Page,
        Class::Shadow,
        Class::TextAlign { alignment: Alignment::Center },
        Class::TextAlign { alignment: Alignment::Justify },
        Class::TextAlign { alignment: Alignment::Left },
        Class::TextAlign { alignment: Alignment::Right },
    ]
}

/// The rules `rules`, each closed by a semicolon, one to a line.
pub open spec fn combined(rules: Seq<Seq<char>>) -> Seq<char> {
    join(Seq::new(rules.len(), |i: int| rules[i] + ";"@), "\n"@)
}

/// The block of the rules `rules` for whatever `target` selects.
pub open spec fn block(target: Seq<char>, rules: Seq<Seq<char>>) -> Seq<char> {
    target + " { "@ + combined(rules) + " }"@
}

/// `main`, and after it the rules `rules` for `target`, to hold on screens that
/// are at most `width` pixels wide.
pub open spec fn with_media_query(
    main: Seq<char>,
    target: Seq<char>,
    width: u32,
    rules: Seq<Seq<char>>,
) -> Seq<char> {
    main + "\n"@ + "@media screen and "@ + "(max-width: "@ + decimal(width as nat) + "px)"@
        + " { "@ + block(target, rules) + " }"@
}

/// The rules of a navigation on the side `position`: it is fixed to the top where
/// `position` is the top, else to the bottom.
pub open spec fn nav_rules(position: Position, theme: Theme) -> Seq<Seq<char>> {
    seq![
        "align-content: center"@,
        "background: "@ + theme.fill_secondary_light_mode.html(),
        if position == Position::Top {
            "top: 0"@
        } else {
            "bottom: 0"@
        },
        "display: flex"@,
        "flex-direction: row"@,
        "justify-content: space-evenly"@,
        "left: 0"@,
        "padding: 16px"@,
        "position: fixed"@,
        "width: 100%"@,
    ]
}

/// The style sheet of the class `class` as a navigation on the side `position`:
/// the block of the rules of that navigation for `class`; at the top the navigation
/// becomes a column on narrow screens.
pub open spec fn nav_text(class: Class, position: Position, theme: Theme) -> Seq<char> {
    let main = block(class.target(), nav_rules(position, theme));
    if position == Position::Top {
        with_media_query(
            main,
            class.target(),
            top_nav_column_px_limit(),
            seq!["flex-direction: column"@],
        )
    } else {
        main
    }
}

/// The widest screen, in pixels, on which the top navigation is a column.
pub open spec fn top_nav_column_px_limit() -> u32 {
    400
}

impl Class {
    /// Whether the class belongs to the dark mode.
    pub open spec fn is_dark(self) -> bool {
        match self {
            Class::Card { dark_mode } => dark_mode,
            Class::Codeblock => true,
            Class::Outlined { dark_mode } => dark_mode,
            _ => false,
        }
    }

    /// The name of the class: what it styles, and `Dark` or `Light`.
    pub open spec fn selector_text(self) -> Seq<char> {
        let prefix = match self {
            Class::AspectRatio16x9Container => "aspectRatio16x9Container"@,
            Class::AspectRatio16x9Inner => "aspectRatio16x9Inner"@,
            Class::Card { .. } => "card"@,
            Class::Codeblock => "codeblock"@,
            Class::ContentWrapper => "contentWrapper"@,
            Class::FullImg => "fullImg"@,
            Class::HoverShadow => "hoverShadow"@,
            Class::List => "list"@,
            Class::Navigation { position } => "nav"@ + position.name(),
            Class::Outlined { .. } => "outlined"@,
            Class::Padded { position } => "padded"@ + position.name(),
            Class::Page => "page"@,
            Class::Shadow => "shadow"@,
            Class::TextAlign { alignment } => "alignment"@ + alignment.name(),
        };
        prefix + if self.is_dark() {
            "Dark"@
        } else {
            "Light"@
        }
    }

    /// What selects the class in a style sheet: a dot and its name.
    pub open spec fn target(self) -> Seq<char> {
        "."@ + self.selector_text()
    }

    /// The rules of the class under the theme `theme`, for the classes whose style
    /// sheet is a block of rules.
    pub open spec fn rules(self, theme: Theme) -> Seq<Seq<char>> {
        match self {
            Class::AspectRatio16x9Container => seq![
                "height: 0px"@,
                "padding-bottom: 56.25%"@,
                "position: relative"@,
                "width: 100%"@,
            ],
            Class::AspectRatio16x9Inner => seq![
                "height: 100%"@,
                "left: 0"@,
                "position: absolute"@,
                "top: 0"@,
                "width: 100%"@,
            ],
            Class::Card { dark_mode } => seq![
                "background: "@ + if dark_mode {
                    theme.fill_primary_dark_mode.html()
                } else {
                    theme.fill_primary_light_mode.html()
                },
                "color: "@ + if dark_mode {
                    theme.text_primary_dark_mode.html()
                } else {
                    theme.text_primary_light_mode.html()
                },
                "display: flex"@,
                "flex-direction: column"@,
                "padding: 16px"@,
                "text-align: justify"@,
                "width: 100%"@,
                "word-wrap: normal"@,
            ],
            Class::Codeblock => seq![
                "background: "@ + theme.fill_primary_dark_mode.html(),
                "border-color: "@ + theme.fill_secondary_dark_mode.html(),
                "color: "@ + theme.text_primary_dark_mode.html(),
                "flex: none"@,
                "line-height: 1.25"@,
                "overflow-x: auto"@,
                "padding-left: 8px"@,
                "padding-right: 8px"@,
                "text-align: left"@,
                "text-justify: none"@,
                "white-space: pre"@,
            ],
            Class::FullImg => seq!["height: auto"@, "max-width: 100%"@, "width: 100%"@],
            Class::HoverShadow => seq!["box-shadow: 0 8px 12px 0 rgba(0, 0, 0, 0.2)"@],
            Class::List => seq![
                "display: flex"@,
                "flex-direction: column"@,
                "align-content: left"@,
                "text-align: left"@,
            ],
            Class::Navigation { position } => nav_rules(position, theme),
            Class::Outlined { dark_mode } => seq![
                "border: 1px solid"@,
                "border-color: "@ + if dark_mode {
                    theme.fill_secondary_dark_mode.html()
                } else {
                    theme.fill_secondary_light_mode.html()
                },
                "border-radius: 8px"@,
            ],
            Class::Shadow => seq!["box-shadow: 0 4px 8px 0 rgba(0, 0, 0, 0.2)"@],
            Class::TextAlign { alignment } => seq!["text-align: "@ + alignment.name()],
            _ => Seq::<Seq<char>>::empty(),
        }
    }

    /// The style sheet of the class under the theme `theme`: the block of its rules;
    /// for the shadow on hover the block holds while the pointer is over the
    /// element, and the top navigation becomes a column on narrow screens.
    pub open spec fn css_text(self, theme: Theme) -> Seq<char> {
        match self {
            Class::HoverShadow => block(self.target() + ":hover"@, self.rules(theme)),
            Class::ContentWrapper => self.target()
                + " { \n            padding: 16px;\n        }        \n        "@,
            Class::Padded { position } => "\n"@ + self.target() + " {\n    margin-"@
                + position.name() + ": 16px;\n}"@,
            Class::Page => "\n"@ + self.target()
                + " {\n    align-content: center;            \n    display: flex;\n    flex-direction: column;\n    justify-content: center;\n    max-width: 100vw;\n    width: 100vw - (100vw - 100%);\n}"@,
            Class::Navigation { position } => nav_text(self, position, theme),
            _ => block(self.target(), self.rules(theme)),
        }
    }

    /// Every style class, in the order of the style sheet.
    pub fn all() -> (classes: Vec<Self>)
        ensures
            classes@ == all_classes(),
    {
        let classes = vec![
            Class::AspectRatio16x9Container,
            Class::AspectRatio16x9Inner,
            Class::Card { dark_mode: false },
            Class::Card { dark_mode: true },
            Class::Codeblock,
            Class::ContentWrapper,
            Class::FullImg,
            Class::HoverShadow,
            Class::List,
            Class::Outlined { dark_mode: false },
            Class::Outlined { dark_mode: true },
            Class::Navigation { position: Position::Bottom },
            Class::Navigation { position: Position::Left },
            Class::Navigation { position: Position::Right },
            Class::Navigation { position: Position::Top },
            Class::Padded { position: Position::Bottom },
            Class::Padded { position: Position::Left },
            Class::Padded { position: Position::Right },
            Class::Padded { position: Position::Top },
            Class::Page,
            Class::Shadow,
            Class::TextAlign { alignment: Alignment::Center },
            Class::TextAlign { alignment: Alignment::Justify },
            Class::TextAlign { alignment: Alignment::Left },
            Class::TextAlign { alignment: Alignment::Right },
        ];
        assert(classes@ =~= all_classes());
        classes
    }

    /// Whether the class belongs to the dark mode.
    pub fn dark_mode(&self) -> (dark: bool)
        ensures
            dark == self.is_dark(),
    {
        match self {
            Class::Card { dark_mode } => *dark_mode,
            Class::Codeblock => true,
            Class::Outlined { dark_mode } => *dark_mode,
            _ => false,
        }
    }

    /// The name of the class.
    pub fn selector(&self) -> (r: Selector)
        ensures
            r@ == self.selector_text(),
    {
        let mut name = match self {
            Class::AspectRatio16x9Container => text_of("aspectRatio16x9Container"),
            Class::AspectRatio16x9Inner => text_of("aspectRatio16x9Inner"),
            Class::Card { .. } => text_of("card"),
            Class::Codeblock => text_of("codeblock"),
            Class::ContentWrapper => text_of("contentWrapper"),
            Class::FullImg => text_of("fullImg"),
            Class::HoverShadow => text_of("hoverShadow"),
            Class::List => text_of("list"),
            Class::Navigation { position } => {
                let mut s = text_of("nav");
                s.append(position.to_str());
                s
            },
            Class::Outlined { .. } => text_of("outlined"),
            Class::Padded { position } => {
                let mut s = text_of("padded");
                s.append(position.to_str());
                s
            },
            Class::Page => text_of("page"),
            Class::Shadow => text_of("shadow"),
            Class::TextAlign { alignment } => {
                let mut s = text_of("alignment");
                s.append(alignment.to_str());
                s
            },
        };
        if self.dark_mode() {
            name.append("Dark");
        } else {
            name.append("Light");
        }
        Selector(name)
    }

    /// The style sheet of the class under the theme `theme`.
    pub fn css(&self, theme: &Theme) -> (r: Css)
        ensures
            r@ == self.css_text(*theme),
    {
        match self {
            Class::AspectRatio16x9Container => aspect_ratio_16x9_container(self),
            Class::AspectRatio16x9Inner => aspect_ratio_16x9_inner(self),
            Class::Card { dark_mode } => card(self, *dark_mode, theme),
            Class::Codeblock => codeblock(self, theme),
            Class::ContentWrapper => content_wrapper(self),
            Class::FullImg => full_img(self),
            Class::HoverShadow => hover_shadow(self),
            Class::List => list(self),
            Class::Navigation { position } => nav(self, position, theme),
            Class::Outlined { dark_mode } => outline(self, *dark_mode, theme),
            Class::Padded { position } => padded(self, *position),
            Class::Page => page(self),
            Class::Shadow => shadow(self),
            Class::TextAlign { alignment } => text_align(self, alignment),
        }
    }
}

/// The rules `rules`, each closed by a semicolon, one to a line.
fn combine_rules(rules: Vec<String>) -> (s: String)
    ensures
        s@ == combined(rules.deep_view()),
{
    let mut closed: Vec<String> = Vec::new();
    let mut i: usize = 0;
    let ghost all = rules.deep_view();
    assert(closed.deep_view() =~= Seq::new(0nat, |k: int| all[k] + ";"@));
    while i < rules.len()
        invariant
            i <= rules@.len(),
            all == rules.deep_view(),
            closed.deep_view() == Seq::new(i as nat, |k: int| all[k] + ";"@),
        decreases rules.len() - i,
    {
        let mut rule = rules[i].clone();
        rule.append(";");
        push_string(&mut closed, rule);
        i += 1;
        assert(closed.deep_view() =~= Seq::new(i as nat, |k: int| all[k] + ";"@));
    }
    join_exec(&closed, "\n")
}

/// The block of the rules `rules` for whatever `target` selects.
fn block_exec(target: String, rules: Vec<String>) -> (s: String)
    ensures
        s@ == block(target@, rules.deep_view()),
{
    let mut s = target;
    s.append(" { ");
    s.append(combine_rules(rules).as_str());
    s.append(" }");
    s
}

/// What selects `class` in a style sheet.
fn target_exec(class: &Class) -> (s: String)
    ensures
        s@ == class.target(),
{
    let mut s = text_of(".");
    s.append(class.selector().to_str());
    s
}

/// The strings with the texts `items`.
fn strings(items: Vec<&'static str>) -> (r: Vec<String>)
    ensures
        r.deep_view() == items.deep_view(),
{
    let mut r: Vec<String> = Vec::new();
    let mut i: usize = 0;
    assert(r.deep_view() =~= items.deep_view().take(0));
    while i < items.len()
        invariant
            i <= items@.len(),
            r.deep_view() == items.deep_view().take(i as int),
        decreases items.len() - i,
    {
        push_string(&mut r, text_of(items[i]));
        i += 1;
        assert(r.deep_view() =~= items.deep_view().take(i as int));
    }
    assert(items.deep_view().take(items@.len() as int) =~= items.deep_view());
    r
}

/// The rule `name` with the value `value`.
fn rule(name: &str, value: &str) -> (s: String)
    ensures
        s@ == name@ + value@,
{
    let mut s = text_of(name);
    s.append(value);
    s
}

/// The rules for links.
pub open spec fn anchor_text(theme: Theme) -> Seq<char> {
    block("a"@, seq!["color: "@ + theme.accent_blue.html(), "text-overflow: ellipsis"@])
}

/// The rules for links.
pub fn anchor(theme: &Theme) -> (r: Css)
    ensures
        r@ == anchor_text(*theme),
{
    let mut rules: Vec<String> = Vec::new();
    rules.push(rule("color: ", theme.accent_blue.to_html().as_str()));
    rules.push(text_of("text-overflow: ellipsis"));
    assert(rules.deep_view() =~= seq![
        "color: "@ + theme.accent_blue.html(),
        "text-overflow: ellipsis"@,
    ]);
    Css(block_exec(text_of("a"), rules))
}

fn aspect_ratio_16x9_container(class: &Class) -> (r: Css)
    requires
        class is AspectRatio16x9Container,
    ensures
        r@ == block(class.target(), class.rules(arbitrary())),
{
    let items = vec!["height: 0px", "padding-bottom: 56.25%", "position: relative", "width: 100%"];
    assert(items.deep_view() =~= class.rules(arbitrary()));
    Css(block_exec(target_exec(class), strings(items)))
}

fn aspect_ratio_16x9_inner(class: &Class) -> (r: Css)
    requires
        class is AspectRatio16x9Inner,
    ensures
        r@ == block(class.target(), class.rules(arbitrary())),
{
    let items = vec!["height: 100%", "left: 0", "position: absolute", "top: 0", "width: 100%"];
    assert(items.deep_view() =~= class.rules(arbitrary()));
    Css(block_exec(target_exec(class), strings(items)))
}

/// The rules for the body of a page: the block of its rules, with less padding
/// at the top on narrow screens.
pub open spec fn body_text(theme: Theme) -> Seq<char> {
    with_media_query(
        block(
            "body"@,
            seq![
                "background: "@ + theme.fill_secondary_light_mode.html(),
                "color: "@ + theme.text_primary_light_mode.html(),
                "font-family: Arial, Helvetica, sans-serif"@,
                "font-size: 18pt"@,
                "font-weight: 400"@,
                "margin: auto"@,
                "max-width: 100vw"@,
                "padding: 64px 0 64px 0"@,
                "text-align: center"@,
            ],
        ),
        "body"@,
        top_nav_column_px_limit(),
        seq!["padding: 128px 0 64px 0"@],
    )
}

/// The rules for the body of a page.
pub fn body(theme: &Theme) -> (r: Css)
    ensures
        r@ == body_text(*theme),
{
    let mut rules: Vec<String> = Vec::new();
    rules.push(rule("background: ", theme.fill_secondary_light_mode.to_html().as_str()));
    rules.push(rule("color: ", theme.text_primary_light_mode.to_html().as_str()));
    rules.push(text_of("font-family: Arial, Helvetica, sans-serif"));
    rules.push(text_of("font-size: 18pt"));
    rules.push(text_of("font-weight: 400"));
    rules.push(text_of("margin: auto"));
    rules.push(text_of("max-width: 100vw"));
    rules.push(text_of("padding: 64px 0 64px 0"));
    rules.push(text_of("text-align: center"));
    assert(rules.deep_view() =~= seq![
        "background: "@ + theme.fill_secondary_light_mode.html(),
        "color: "@ + theme.text_primary_light_mode.html(),
        "font-family: Arial, Helvetica, sans-serif"@,
        "font-size: 18pt"@,
        "font-weight: 400"@,
        "margin: auto"@,
        "max-width: 100vw"@,
        "padding: 64px 0 64px 0"@,
        "text-align: center"@,
    ]);
    let main = block_exec(text_of("body"), rules);
    let narrow = vec!["padding: 128px 0 64px 0"];
    assert(narrow.deep_view() =~= seq!["padding: 128px 0 64px 0"@]);
    media_screen_query(main, false, "body", 400, strings(narrow))
}

fn card(class: &Class, dark_mode: bool, theme: &Theme) -> (r: Css)
    requires
        *class == (Class::Card { dark_mode }),
    ensures
        r@ == block(class.target(), class.rules(*theme)),
{
    let background = if dark_mode {
        theme.fill_primary_dark_mode.to_html()
    } else {
        theme.fill_primary_light_mode.to_html()
    };
    let color = if dark_mode {
        theme.text_primary_dark_mode.to_html()
    } else {
        theme.text_primary_light_mode.to_html()
    };
    let mut rules: Vec<String> = Vec::new();
    rules.push(rule("background: ", background.as_str()));
    rules.push(rule("color: ", color.as_str()));
    rules.push(text_of("display: flex"));
    rules.push(text_of("flex-direction: column"));
    rules.push(text_of("padding: 16px"));
    rules.push(text_of("text-align: justify"));
    rules.push(text_of("width: 100%"));
    rules.push(text_of("word-wrap: normal"));
    assert(rules.deep_view() =~= class.rules(*theme));
    Css(block_exec(target_exec(class), rules))
}

fn codeblock(class: &Class, theme: &Theme) -> (r: Css)
    requires
        class is Codeblock,
    ensures
        r@ == block(class.target(), class.rules(*theme)),
{
    let mut rules: Vec<String> = Vec::new();
    rules.push(rule("background: ", theme.fill_primary_dark_mode.to_html().as_str()));
    rules.push(rule("border-color: ", theme.fill_secondary_dark_mode.to_html().as_str()));
    rules.push(rule("color: ", theme.text_primary_dark_mode.to_html().as_str()));
    rules.push(text_of("flex: none"));
    rules.push(text_of("line-height: 1.25"));
    rules.push(text_of("overflow-x: auto"));
    rules.push(text_of("padding-left: 8px"));
    rules.push(text_of("padding-right: 8px"));
    rules.push(text_of("text-align: left"));
    rules.push(text_of("text-justify: none"));
    rules.push(text_of("white-space: pre"));
    assert(rules.deep_view() =~= class.rules(*theme));
    Css(block_exec(target_exec(class), rules))
}

fn content_wrapper(class: &Class) -> (r: Css)
    requires
        class is ContentWrapper,
    ensures
        r@ == class.css_text(arbitrary()),
{
    let mut s = target_exec(class);
    s.append(" { \n            padding: 16px;\n        }        \n        ");
    Css(s)
}

fn full_img(class: &Class) -> (r: Css)
    requires
        class is FullImg,
    ensures
        r@ == block(class.target(), class.rules(arbitrary())),
{
    let items = vec!["height: auto", "max-width: 100%", "width: 100%"];
    assert(items.deep_view() =~= class.rules(arbitrary()));
    Css(block_exec(target_exec(class), strings(items)))
}

fn hover_shadow(class: &Class) -> (r: Css)
    requires
        class is HoverShadow,
    ensures
        r@ == block(class.target() + ":hover"@, class.rules(arbitrary())),
{
    let items = vec!["box-shadow: 0 8px 12px 0 rgba(0, 0, 0, 0.2)"];
    assert(items.deep_view() =~= class.rules(arbitrary()));
    let mut target = target_exec(class);
    target.append(":hover");
    Css(block_exec(target, strings(items)))
}

/// The rules for the whole document: the page scrolls down only, and every box
/// counts its border in.
pub open spec fn html_text() -> Seq<char> {
    "\nhtml {\n    box-sizing: border-box;\n    height: 100%;\n        overflow-y: scroll;\n}\n\n*,\n*:before,\n*:after {\n    box-sizing: inherit;\n}\n\n"@
}

/// The rules for the whole document.
pub fn html() -> (r: Css)
    ensures
        r@ == html_text(),
{
    Css(
        text_of(
            "\nhtml {\n    box-sizing: border-box;\n    height: 100%;\n        overflow-y: scroll;\n}\n\n*,\n*:before,\n*:after {\n    box-sizing: inherit;\n}\n\n",
        ),
    )
}

fn list(class: &Class) -> (r: Css)
    requires
        class is List,
    ensures
        r@ == block(class.target(), class.rules(arbitrary())),
{
    let items = vec![
        "display: flex",
        "flex-direction: column",
        "align-content: left",
        "text-align: left",
    ];
    assert(items.deep_view() =~= class.rules(arbitrary()));
    Css(block_exec(target_exec(class), strings(items)))
}

/// `main_class`, and after it the rules `media_rules` for `id`, to hold on
/// screens that are at most `max_width_pixels` wide.
fn media_screen_query(
    main_class: String,
    is_custom_class: bool,
    id: &str,
    max_width_pixels: u32,
    media_rules: Vec<String>,
) -> (r: Css)
    ensures
        r@ == with_media_query(
            main_class@,
            if is_custom_class {
                "."@ + id@
            } else {
                id@
            },
            max_width_pixels,
            media_rules.deep_view(),
        ),
{
    let mut target = if is_custom_class {
        text_of(".")
    } else {
        String::new()
    };
    target.append(id);
    assert(Seq::<char>::empty() + id@ =~= id@);
    let mut s = main_class;
    s.append("\n");
    s.append("@media screen and ");
    s.append("(max-width: ");
    push_decimal(&mut s, max_width_pixels as usize);
    s.append("px)");
    s.append(" { ");
    s.append(block_exec(target, media_rules).as_str());
    s.append(" }");
    Css(s)
}

/// The style sheet of `class` as a navigation on the side `position`.
pub fn nav(class: &Class, position: &Position, theme: &Theme) -> (r: Css)
    ensures
        r@ == nav_text(*class, *position, *theme),
{
    let top = match position {
        Position::Top => true,
        _ => false,
    };
    let mut rules: Vec<String> = Vec::new();
    rules.push(text_of("align-content: center"));
    rules.push(rule("background: ", theme.fill_secondary_light_mode.to_html().as_str()));
    rules.push(
        if top {
            text_of("top: 0")
        } else {
            text_of("bottom: 0")
        },
    );
    rules.push(text_of("display: flex"));
    rules.push(text_of("flex-direction: row"));
    rules.push(text_of("justify-content: space-evenly"));
    rules.push(text_of("left: 0"));
    rules.push(text_of("padding: 16px"));
    rules.push(text_of("position: fixed"));
    rules.push(text_of("width: 100%"));
    assert(rules.deep_view() =~= nav_rules(*position, *theme));
    let main = block_exec(target_exec(class), rules);
    if top {
        let narrow = vec!["flex-direction: column"];
        assert(narrow.deep_view() =~= seq!["flex-direction: column"@]);
        media_screen_query(main, true, class.selector().to_str(), 400, strings(narrow))
    } else {
        Css(main)
    }
}

fn outline(class: &Class, dark_mode: bool, theme: &Theme) -> (r: Css)
    requires
        *class == (Class::Outlined { dark_mode }),
    ensures
        r@ == block(class.target(), class.rules(*theme)),
{
    let color = if dark_mode {
        theme.fill_secondary_dark_mode.to_html()
    } else {
        theme.fill_secondary_light_mode.to_html()
    };
    let mut rules: Vec<String> = Vec::new();
    rules.push(text_of("border: 1px solid"));
    rules.push(rule("border-color: ", color.as_str()));
    rules.push(text_of("border-radius: 8px"));
    assert(rules.deep_view() =~= class.rules(*theme));
    Css(block_exec(target_exec(class), rules))
}

fn padded(class: &Class, position: Position) -> (r: Css)
    requires
        *class == (Class::Padded { position }),
    ensures
        r@ == class.css_text(arbitrary()),
{
    let mut s = text_of("\n");
    s.append(target_exec(class).as_str());
    s.append(" {\n    margin-");
    s.append(position.to_str());
    s.append(": 16px;\n}");
    Css(s)
}

fn page(class: &Class) -> (r: Css)
    requires
        class is Page,
    ensures
        r@ == class.css_text(arbitrary()),
{
    let mut s = text_of("\n");
    s.append(target_exec(class).as_str());
    s.append(
        " {\n    align-content: center;            \n    display: flex;\n    flex-direction: column;\n    justify-content: center;\n    max-width: 100vw;\n    width: 100vw - (100vw - 100%);\n}",
    );
    Css(s)
}

fn shadow(class: &Class) -> (r: Css)
    requires
        class is Shadow,
    ensures
        r@ == block(class.target(), class.rules(arbitrary())),
{
    let items = vec!["box-shadow: 0 4px 8px 0 rgba(0, 0, 0, 0.2)"];
    assert(items.deep_view() =~= class.rules(arbitrary()));
    Css(block_exec(target_exec(class), strings(items)))
}

fn text_align(class: &Class, alignment: &Alignment) -> (r: Css)
    requires
        *class == (Class::TextAlign { alignment: *alignment }),
    ensures
        r@ == block(class.target(), class.rules(arbitrary())),
{
    let mut rules: Vec<String> = Vec::new();
    rules.push(rule("text-align: ", alignment.to_str()));
    assert(rules.deep_view() =~= class.rules(arbitrary()));
    Css(block_exec(target_exec(class), rules))
}

} // verus!
