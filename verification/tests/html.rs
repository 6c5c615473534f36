use blog_gen::config::Config;
use blog_gen::env_args::context_of;
use blog_gen::html::element::{
    bottom_nav, card, code_block, div, header, iframe, image, inline_code, link, list, nil, p,
    text, top_nav, youtube, Element, Kind, ListType,
};
use blog_gen::html::stylesheet::class::{anchor, body, html, nav};
use blog_gen::html::stylesheet::{Alignment, Class, Css, Position, Selector, Stylesheet};
use blog_gen::html::{CssLink, Html, HtmlElement, Metadata, Page};
use blog_gen::parser::md::parse_contents::content_ir::{BlockKind, ContentIr, LinkType};
use blog_gen::parser::md::parse_contents::content_ir::Metadata as Directive;
use blog_gen::parser::md::Link;
use blog_gen::theme::{Color, Theme};
use blog_gen::{Directory, Links};

fn links() -> Links {
    Links {
        about_me_link: "about_me.html".to_string(),
        catalog_link: "catalog.html".to_string(),
        index_link: "index.html".to_string(),
        projects_link: "projects.html".to_string(),
    }
}

fn box_classes(first: Class) -> Vec<Class> {
    vec![
        first,
        Class::HoverShadow,
        Class::Padded { position: Position::Bottom },
        Class::Padded { position: Position::Top },
        Class::Shadow,
    ]
}

#[test]
fn color_is_written_as_rgba() {
    assert_eq!(Color { r: 0, g: 9, b: 10, a: 255 }.to_html(), "rgba(0,9,10,255)");
    assert_eq!(Color::from([30, 71, 246]), Color { r: 30, g: 71, b: 246, a: 255 });
}

#[test]
fn default_theme_has_the_stock_colors() {
    let theme = Theme::default();
    assert_eq!(theme.accent_blue, Color { r: 30, g: 71, b: 246, a: 255 });
    assert_eq!(theme.accent_green, Color { r: 104, g: 159, b: 57, a: 255 });
    assert_eq!(theme.accent_red, Color { r: 204, g: 0, b: 0, a: 255 });
    assert_eq!(theme.fill_primary_dark_mode, Color { r: 37, g: 37, b: 37, a: 255 });
    assert_eq!(theme.fill_primary_light_mode, Color { r: 255, g: 255, b: 255, a: 255 });
    assert_eq!(theme.fill_secondary_dark_mode, Color { r: 0, g: 0, b: 0, a: 255 });
    assert_eq!(theme.fill_secondary_light_mode, Color { r: 224, g: 224, b: 224, a: 255 });
    assert_eq!(theme.text_primary_dark_mode, Color { r: 255, g: 255, b: 255, a: 255 });
    assert_eq!(theme.text_primary_light_mode, Color { r: 3, g: 3, b: 3, a: 255 });
    assert_eq!(theme.text_secondary_dark_mode, Color { r: 162, g: 162, b: 162, a: 255 });
    assert_eq!(theme.text_secondary_light_mode, Color { r: 96, g: 96, b: 96, a: 255 });
}

#[test]
fn selectors_name_the_class_and_its_mode() {
    let name = |c: Class| c.selector().to_str().to_string();
    assert_eq!(name(Class::AspectRatio16x9Container), "aspectRatio16x9ContainerLight");
    assert_eq!(name(Class::AspectRatio16x9Inner), "aspectRatio16x9InnerLight");
    assert_eq!(name(Class::Card { dark_mode: true }), "cardDark");
    assert_eq!(name(Class::Card { dark_mode: false }), "cardLight");
    assert_eq!(name(Class::Codeblock), "codeblockDark");
    assert_eq!(name(Class::ContentWrapper), "contentWrapperLight");
    assert_eq!(name(Class::FullImg), "fullImgLight");
    assert_eq!(name(Class::HoverShadow), "hoverShadowLight");
    assert_eq!(name(Class::List), "listLight");
    assert_eq!(name(Class::Navigation { position: Position::Top }), "navtopLight");
    assert_eq!(name(Class::Outlined { dark_mode: true }), "outlinedDark");
    assert_eq!(name(Class::Padded { position: Position::Left }), "paddedleftLight");
    assert_eq!(name(Class::Page), "pageLight");
    assert_eq!(name(Class::Shadow), "shadowLight");
    assert_eq!(name(Class::TextAlign { alignment: Alignment::Justify }), "alignmentjustifyLight");
    assert_eq!(Selector::from("x".to_string()), Selector("x".to_string()));
}

#[test]
fn names_of_sides_and_alignments() {
    assert_eq!(Position::Bottom.to_str(), "bottom");
    assert_eq!(Position::Left.to_str(), "left");
    assert_eq!(Position::Right.to_str(), "right");
    assert_eq!(Position::Top.to_str(), "top");
    assert_eq!(Alignment::Center.to_str(), "center");
    assert_eq!(Alignment::Justify.to_str(), "justify");
    assert_eq!(Alignment::Left.to_str(), "left");
    assert_eq!(Alignment::Right.to_str(), "right");
}

#[test]
fn dark_mode_of_classes() {
    assert!(Class::Codeblock.dark_mode());
    assert!(Class::Card { dark_mode: true }.dark_mode());
    assert!(!Class::Card { dark_mode: false }.dark_mode());
    assert!(Class::Outlined { dark_mode: true }.dark_mode());
    assert!(!Class::Page.dark_mode());
}

#[test]
fn all_classes_are_twenty_five() {
    let all = Class::all();
    assert_eq!(all.len(), 25);
    assert_eq!(all[0], Class::AspectRatio16x9Container);
    assert_eq!(all[9], Class::Outlined { dark_mode: false });
    assert_eq!(all[14], Class::Navigation { position: Position::Top });
    assert_eq!(all[24], Class::TextAlign { alignment: Alignment::Right });
}

#[test]
fn style_sheets_of_classes() {
    let theme = Theme::default();
    let css = |c: Class| c.css(&theme).to_str().to_string();
    assert_eq!(css(Class::Shadow), ".shadowLight { box-shadow: 0 4px 8px 0 rgba(0, 0, 0, 0.2); }");
    assert_eq!(
        css(Class::HoverShadow),
        ".hoverShadowLight:hover { box-shadow: 0 8px 12px 0 rgba(0, 0, 0, 0.2); }"
    );
    assert_eq!(
        css(Class::AspectRatio16x9Container),
        ".aspectRatio16x9ContainerLight { height: 0px;\npadding-bottom: 56.25%;\nposition: relative;\nwidth: 100%; }"
    );
    assert_eq!(
        css(Class::AspectRatio16x9Inner),
        ".aspectRatio16x9InnerLight { height: 100%;\nleft: 0;\nposition: absolute;\ntop: 0;\nwidth: 100%; }"
    );
    assert_eq!(
        css(Class::Card { dark_mode: true }),
        ".cardDark { background: rgba(37,37,37,255);\ncolor: rgba(255,255,255,255);\ndisplay: flex;\nflex-direction: column;\npadding: 16px;\ntext-align: justify;\nwidth: 100%;\nword-wrap: normal; }"
    );
    assert_eq!(
        css(Class::Card { dark_mode: false }),
        ".cardLight { background: rgba(255,255,255,255);\ncolor: rgba(3,3,3,255);\ndisplay: flex;\nflex-direction: column;\npadding: 16px;\ntext-align: justify;\nwidth: 100%;\nword-wrap: normal; }"
    );
    assert_eq!(
        css(Class::Codeblock),
        ".codeblockDark { background: rgba(37,37,37,255);\nborder-color: rgba(0,0,0,255);\ncolor: rgba(255,255,255,255);\nflex: none;\nline-height: 1.25;\noverflow-x: auto;\npadding-left: 8px;\npadding-right: 8px;\ntext-align: left;\ntext-justify: none;\nwhite-space: pre; }"
    );
    assert_eq!(
        css(Class::ContentWrapper),
        ".contentWrapperLight { \n            padding: 16px;\n        }        \n        "
    );
    assert_eq!(
        css(Class::FullImg),
        ".fullImgLight { height: auto;\nmax-width: 100%;\nwidth: 100%; }"
    );
    assert_eq!(
        css(Class::List),
        ".listLight { display: flex;\nflex-direction: column;\nalign-content: left;\ntext-align: left; }"
    );
    assert_eq!(
        css(Class::Outlined { dark_mode: false }),
        ".outlinedLight { border: 1px solid;\nborder-color: rgba(224,224,224,255);\nborder-radius: 8px; }"
    );
    assert_eq!(
        css(Class::Padded { position: Position::Right }),
        "\n.paddedrightLight {\n    margin-right: 16px;\n}"
    );
    assert_eq!(
        css(Class::Page),
        "\n.pageLight {\n    align-content: center;            \n    display: flex;\n    flex-direction: column;\n    justify-content: center;\n    max-width: 100vw;\n    width: 100vw - (100vw - 100%);\n}"
    );
    assert_eq!(
        css(Class::TextAlign { alignment: Alignment::Center }),
        ".alignmentcenterLight { text-align: center; }"
    );
}

#[test]
fn navigation_style_sheets() {
    let theme = Theme::default();
    let bottom = Class::Navigation { position: Position::Bottom };
    assert_eq!(
        nav(&bottom, &Position::Bottom, &theme).to_str(),
        ".navbottomLight { align-content: center;\nbackground: rgba(224,224,224,255);\nbottom: 0;\ndisplay: flex;\nflex-direction: row;\njustify-content: space-evenly;\nleft: 0;\npadding: 16px;\nposition: fixed;\nwidth: 100%; }"
    );
    let top = Class::Navigation { position: Position::Top };
    assert_eq!(
        top.css(&theme).to_str(),
        ".navtopLight { align-content: center;\nbackground: rgba(224,224,224,255);\ntop: 0;\ndisplay: flex;\nflex-direction: row;\njustify-content: space-evenly;\nleft: 0;\npadding: 16px;\nposition: fixed;\nwidth: 100%; }\n@media screen and (max-width: 400px) { .navtopLight { flex-direction: column; } }"
    );
}

#[test]
fn navigation_style_sheet_of_any_class_and_side() {
    let theme = Theme::default();
    assert_eq!(
        nav(&Class::Page, &Position::Top, &theme).to_str(),
        ".pageLight { align-content: center;\nbackground: rgba(224,224,224,255);\ntop: 0;\ndisplay: flex;\nflex-direction: row;\njustify-content: space-evenly;\nleft: 0;\npadding: 16px;\nposition: fixed;\nwidth: 100%; }\n@media screen and (max-width: 400px) { .pageLight { flex-direction: column; } }"
    );
    let top = Class::Navigation { position: Position::Top };
    assert_eq!(
        nav(&top, &Position::Left, &theme).to_str(),
        ".navtopLight { align-content: center;\nbackground: rgba(224,224,224,255);\nbottom: 0;\ndisplay: flex;\nflex-direction: row;\njustify-content: space-evenly;\nleft: 0;\npadding: 16px;\nposition: fixed;\nwidth: 100%; }"
    );
}

#[test]
fn rules_for_links_body_and_document() {
    let theme = Theme::default();
    assert_eq!(
        anchor(&theme).to_str(),
        "a { color: rgba(30,71,246,255);\ntext-overflow: ellipsis; }"
    );
    assert_eq!(
        body(&theme).to_str(),
        "body { background: rgba(224,224,224,255);\ncolor: rgba(3,3,3,255);\nfont-family: Arial, Helvetica, sans-serif;\nfont-size: 18pt;\nfont-weight: 400;\nmargin: auto;\nmax-width: 100vw;\npadding: 64px 0 64px 0;\ntext-align: center; }\n@media screen and (max-width: 400px) { body { padding: 128px 0 64px 0; } }"
    );
    assert_eq!(
        html().to_str(),
        "\nhtml {\n    box-sizing: border-box;\n    height: 100%;\n        overflow-y: scroll;\n}\n\n*,\n*:before,\n*:after {\n    box-sizing: inherit;\n}\n\n"
    );
    assert_eq!(Css::from("x".to_string()), Css("x".to_string()));
}

#[test]
fn style_sheet_joins_everything() {
    let context = context_of(
        Config::example_config(),
        Directory::from("in".to_string()),
        Directory::from("out".to_string()),
    );
    let sheet = Stylesheet::new(&context);
    assert_eq!(sheet.classes, Class::all());
    assert_eq!(sheet.theme, Theme::default());
    let text = sheet.to_html();
    let mut expected: Vec<String> =
        Class::all().iter().map(|c| c.css(&Theme::default()).to_str().to_string()).collect();
    expected.push(anchor(&Theme::default()).to_str().to_string());
    expected.push(body(&Theme::default()).to_str().to_string());
    expected.push(html().to_str().to_string());
    assert_eq!(text, expected.join("\n"));
}

#[test]
fn elements_are_written_with_their_attributes() {
    assert_eq!(text("a").to_html(), "a");
    assert_eq!(nil().to_html(), "");
    assert_eq!(
        link(None, "d".to_string(), "u".to_string(), true).to_html(),
        "<a  href=\"u\"  >d</a>"
    );
    assert_eq!(
        link(Some("i".to_string()), "d".to_string(), "u".to_string(), false).to_html(),
        "<a id=\"i\" href=\"u\" target=\"_blank\" rel=\"noreferrer noopener\" >d</a>"
    );
    assert_eq!(div(vec![text("a"), text("b")]).to_html(), "<div   >a\nb</div>");
    assert_eq!(div(vec![]).to_html(), "<div   ></div>");
    assert_eq!(p(vec![text("a"), text("b")]).to_html(), "<p   >ab</p>");
    assert_eq!(
        header(2, Some("top".to_string()), vec![text("x"), text("y")]).to_html(),
        "<h2 id=\"top\"  >x\ny</h2>"
    );
    assert_eq!(
        list(vec![text("a"), text("b")], ListType::Unordered).to_html(),
        "<ul   class=\"listLight\"><li>a</li><li>b</li></ul>"
    );
    assert_eq!(
        list(vec![text("a")], ListType::OrderedAlpha).to_html(),
        "<ol  type=\"a\" class=\"listLight\"><li>a</li></ol>"
    );
    assert_eq!(
        list(vec![], ListType::OrderedNumeric).to_html(),
        "<ol  type=\"1\" class=\"listLight\"></ol>"
    );
    assert_eq!(
        inline_code("c".to_string()).to_html(),
        "<span   class=\"codeblockDark outlinedDark\">c</span>"
    );
    assert_eq!(
        code_block("x".to_string()).to_html(),
        "<div   class=\"codeblockDark contentWrapperLight hoverShadowLight outlinedDark paddedbottomLight paddedtopLight shadowLight\">x</div>"
    );
    let plain = |kind: Kind| Element { classes: vec![], id: None, kind };
    assert_eq!(plain(Kind::Card("c".to_string())).to_html(), "<div   >c</div>");
    assert_eq!(
        plain(Kind::Span { children: vec![text("s")] }).to_html(),
        "<span   >s</span>"
    );
    assert_eq!(
        plain(Kind::Image { description: "d".to_string(), url: "u".to_string() }).to_html(),
        "<img  src=\"u\" alt=\"d\" ></img>"
    );
    assert_eq!(
        plain(Kind::Youtube { url: "u".to_string() }).to_html(),
        "<iframe  \n                        src=\"u\" \n                        title=\"YouTube video player\" \n                        frameborder=\"0\" \n                        allow=\"accelerometer; autoplay; clipboard-write; encrypted-media; gyroscope; picture-in-picture\" \n                        allowfullscreen ></iframe>"
    );
    assert_eq!(
        plain(Kind::Iframe { description: "d".to_string(), url: "u".to_string() }).to_html(),
        "<iframe  \n                    src=\"u\" \n                    title=\"d\" \n                    frameborder=\"0\" \n                    allow=\"accelerometer; autoplay; clipboard-write; encrypted-media; gyroscope; picture-in-picture\" \n                    allowfullscreen ></iframe>"
    );
}

#[test]
fn constructors_set_classes_and_kinds() {
    assert_eq!(
        card(vec![text("a")], true),
        Element {
            classes: vec![
                Class::Card { dark_mode: true },
                Class::HoverShadow,
                Class::Outlined { dark_mode: true },
                Class::Padded { position: Position::Bottom },
                Class::Padded { position: Position::Top },
                Class::Shadow,
                Class::TextAlign { alignment: Alignment::Left },
            ],
            id: None,
            kind: Kind::Div { children: vec![text("a")] },
        }
    );
    assert_eq!(
        youtube("u".to_string()),
        Element {
            classes: box_classes(Class::AspectRatio16x9Container),
            id: None,
            kind: Kind::Div {
                children: vec![Element {
                    classes: vec![Class::AspectRatio16x9Inner],
                    id: None,
                    kind: Kind::Youtube { url: "u".to_string() },
                }]
            },
        }
    );
    assert_eq!(
        iframe("d".to_string(), "u".to_string()),
        Element {
            classes: box_classes(Class::AspectRatio16x9Container),
            id: None,
            kind: Kind::Div {
                children: vec![Element {
                    classes: vec![Class::AspectRatio16x9Inner],
                    id: None,
                    kind: Kind::Iframe { description: "d".to_string(), url: "u".to_string() },
                }]
            },
        }
    );
    let inner = Element {
        classes: box_classes(Class::FullImg),
        id: Some("i".to_string()),
        kind: Kind::Image { description: "d".to_string(), url: "u".to_string() },
    };
    assert_eq!(
        image(Some("i".to_string()), "d".to_string(), "u".to_string()),
        Element {
            classes: vec![],
            id: None,
            kind: Kind::Link { description: inner.to_html(), redirect: false, url: "u".to_string() },
        }
    );
    assert_eq!(
        inner.to_html(),
        "<img id=\"i\" src=\"u\" alt=\"d\" class=\"fullImgLight hoverShadowLight paddedbottomLight paddedtopLight shadowLight\"></img>"
    );
}

#[test]
fn navigation_elements() {
    assert_eq!(
        bottom_nav(None, Some("n.html".to_string())),
        Element {
            classes: vec![Class::Navigation { position: Position::Bottom }],
            id: None,
            kind: Kind::Div {
                children: vec![
                    text("\u{1f844} Previous"),
                    link(
                        Some("next_page_link".to_string()),
                        "Forward \u{1f846}".to_string(),
                        "n.html".to_string(),
                        true
                    ),
                ]
            },
        }
    );
    assert_eq!(
        top_nav(links()),
        Element {
            classes: vec![Class::Navigation { position: Position::Top }],
            id: None,
            kind: Kind::Div {
                children: vec![
                    link(Some("homeNav".to_string()), "Home".to_string(), "index.html".to_string(), true),
                    link(
                        Some("catalogNav".to_string()),
                        "Catalog".to_string(),
                        "catalog.html".to_string(),
                        true
                    ),
                    link(
                        Some("projectsNav".to_string()),
                        "Projects".to_string(),
                        "projects.html".to_string(),
                        true
                    ),
                    link(
                        Some("aboutMeNav".to_string()),
                        "About Me".to_string(),
                        "about_me.html".to_string(),
                        true
                    ),
                ]
            },
        }
    );
}

#[test]
fn text_of_trees_is_escaped() {
    let node = ContentIr::Text { text: "a<b & c>d".to_string() };
    assert_eq!(node.to_element().to_html(), "a&lt;b &amp; c>d");
    let code = ContentIr::InlineCode("x<&y".to_string());
    assert_eq!(code.to_element(), inline_code("x&lt;&amp;y".to_string()));
}

#[test]
fn trees_become_elements() {
    let heading =
        ContentIr::Header { header_size: 3, id: "Hi".to_string(), text: "H<i".to_string() };
    assert_eq!(
        heading.to_element(),
        header(
            3,
            Some("Hi".to_string()),
            vec![link(None, "#".to_string(), "#Hi".to_string(), true), text("H&lt;i")]
        )
    );
    let t = |s: &str| ContentIr::Text { text: s.to_string() };
    assert_eq!(
        ContentIr::Block { contents: Box::new(t("a&b")), block_kind: BlockKind::Code }
            .to_element(),
        code_block("a&amp;b".to_string())
    );
    assert_eq!(
        ContentIr::Block { contents: Box::new(t("q")), block_kind: BlockKind::Quote }.to_element(),
        card(vec![text("q")], true)
    );
    assert_eq!(ContentIr::Card(vec![t("c")]).to_element(), card(vec![text("c")], false));
    assert_eq!(ContentIr::Div { contents: vec![t("c")] }.to_element(), div(vec![text("c")]));
    assert_eq!(ContentIr::Paragraph { children: vec![t("c")] }.to_element(), p(vec![text("c")]));
    assert_eq!(
        ContentIr::OrderedList { items: vec![t("c")], numeric: true }.to_element(),
        list(vec![text("c")], ListType::OrderedNumeric)
    );
    assert_eq!(
        ContentIr::OrderedList { items: vec![t("c")], numeric: false }.to_element(),
        list(vec![text("c")], ListType::OrderedAlpha)
    );
    assert_eq!(
        ContentIr::UnorderedList { items: vec![t("c")] }.to_element(),
        list(vec![text("c")], ListType::Unordered)
    );
    assert_eq!(
        ContentIr::Metadata(Directive::DisplayTitle("t".to_string())).to_element(),
        nil()
    );
    let l = |kind: LinkType| ContentIr::Link {
        description: "d".to_string(),
        url: "u".to_string(),
        link_type: kind,
    };
    assert_eq!(
        l(LinkType::Regular).to_element(),
        link(None, "d".to_string(), "u".to_string(), true)
    );
    assert_eq!(l(LinkType::Youtube).to_element(), youtube("u".to_string()));
    assert_eq!(l(LinkType::Iframe).to_element(), iframe("d".to_string(), "u".to_string()));
    assert_eq!(
        l(LinkType::LocalImage).to_element(),
        image(None, "d".to_string(), "u".to_string())
    );
    assert_eq!(
        ContentIr::Navigation {
            links: links(),
            next: None,
            previous: Some(Link("p.html".to_string()))
        }
        .to_element(),
        div(vec![bottom_nav(Some("p.html".to_string()), None), top_nav(links())])
    );
}

#[test]
fn metadata_and_page_are_written_out() {
    let metadata = Metadata {
        author: "Me".to_string(),
        keywords: vec!["a".to_string(), "b".to_string()],
        summary: "S".to_string(),
    };
    let meta = "<meta charset=\"UTF-8\">\n<meta name=\"description\" content=\"S\">\n<meta name=\"keywords\" content=\"a, b\">\n<meta name=\"author\" content=\"Me\">\n<meta name=\"viewport\" content=\"width=device-width, initial-scale=1.0\">";
    assert_eq!(metadata.to_html(), meta);
    let css = CssLink::from("main.css".to_string());
    assert_eq!(css.to_html(), "<link rel=\"stylesheet\" href=\"main.css\">");
    let page = Page {
        content: text("C"),
        css,
        file_name: "f.html".to_string(),
        metadata,
        title: "T".to_string(),
    };
    assert_eq!(
        page.to_html(),
        format!(
            "\n<!DOCTYPE html>\n<html>\n    <head>\n        <title>T</title>\n        <!-- metadata -->\n        {}\n        <!-- css -->\n        <link rel=\"stylesheet\" href=\"main.css\">\n    </head>\n    <body>\n        <!-- page class -->\n        <div class=pageLight>\n            <!-- content wrapper -->\n            <div class=contentWrapperLight>\n                <!-- content -->\n                C\n            </div>\n        </div>\n    </body>\n</html>\n",
            meta
        )
    );
}
