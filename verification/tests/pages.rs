use blog_gen::builder::{about_me_page, catalog, index, prepare, projects_page};
use blog_gen::config::{Config, Project};
use blog_gen::env_args::context_of;
use blog_gen::outcome::{Item, Location, Res};
use blog_gen::parser::md::parse;
use blog_gen::parser::md::parse_contents::content_ir::{ContentIr, LinkType};
use blog_gen::parser::{IntermediateRepresentation, Page};
use blog_gen::{Context, Directory};

fn context_with(config: Config) -> Context {
    context_of(config, Directory("in".to_string()), Directory("out".to_string()))
}

fn document(name: &str) -> Item<IntermediateRepresentation> {
    let slug = &name[11..name.len() - 3];
    let text = format!(
        "!!title Title {}\n!!keywords one two three four five\n!!series s\n!!summary Summary of {} that is long enough.\nbody\n",
        slug, slug
    );
    let location =
        Location { column: 0, file: name.to_string(), line: 0, path: format!("in/{}", name) };
    match parse(&name.to_string(), format!("in/{}", name), text, location) {
        Res::Success(item) => item,
        other => panic!("document did not parse: {:?}", other),
    }
}

fn text(s: &str) -> ContentIr {
    ContentIr::Text { text: s.to_string() }
}

fn link(d: &str, u: &str) -> ContentIr {
    ContentIr::Link { description: d.to_string(), url: u.to_string(), link_type: LinkType::Regular }
}

fn heading(size: u32, text: &str, id: &str) -> ContentIr {
    ContentIr::Header { header_size: size, id: id.to_string(), text: text.to_string() }
}

fn section(title: &str, id: &str, mut contents: Vec<ContentIr>) -> ContentIr {
    contents.insert(0, heading(3, title, id));
    ContentIr::Card(contents)
}

fn words(ws: &[&str]) -> Vec<String> {
    ws.iter().map(|w| w.to_string()).collect()
}

#[test]
fn sections_and_titles() {
    assert_eq!(ContentIr::section_header_id("Who I Am".to_string()), "whoiam_headerId");
    assert_eq!(
        ContentIr::section("My Part".to_string(), vec![text("x")]),
        section("My Part", "mypart_headerId", vec![text("x")])
    );
    assert_eq!(ContentIr::title("T".to_string(), "i".to_string()), heading(2, "T", "i"));
    assert_eq!(ContentIr::text("t".to_string()), text("t"));
}

#[test]
fn about_me_page_lists_the_profiles() {
    let page = about_me_page::build("about_me.html".to_string(), &context_with(Config::example_config()));
    assert_eq!(
        page,
        Page {
            contents: Item {
                item: ContentIr::Div {
                    contents: vec![
                        heading(2, "About Me", "aboutMe"),
                        section(
                            "Who I am",
                            "whoiam_headerId",
                            vec![text("Required: A blurb about you!")]
                        ),
                        section(
                            "Social Media",
                            "socialmedia_headerId",
                            vec![ContentIr::UnorderedList {
                                items: vec![
                                    link("Visit my Github", "Optional github profile"),
                                    link("Visit my LinkedIn", "Optional linked in profile"),
                                    link("Visit my Twitter", "Optional twitter"),
                                ]
                            }]
                        ),
                    ]
                },
                location: None
            },
            file_name: "about_me.html".to_string(),
            keywords: words(&["Required: About Me keywords"]),
            summary: "Required: About Me summary".to_string(),
            title: "About Me".to_string(),
        }
    );
}

#[test]
fn about_me_page_without_profiles_has_no_social_section() {
    let mut config = Config::example_config();
    config.github = None;
    config.linked_in = None;
    config.twitter = None;
    let page = about_me_page::build("a.html".to_string(), &context_with(config));
    match page.contents.item {
        ContentIr::Div { contents } => assert_eq!(contents.len(), 2),
        other => panic!("unexpected {:?}", other),
    }
}

#[test]
fn projects_page_lists_projects_and_keywords() {
    let mut config = Config::example_config();
    config.projects = vec![
        Project {
            title: "Blog Gen".to_string(),
            description: "A generator for the Blog. And the the rest.".to_string(),
            url: "http://b".to_string(),
        },
        Project {
            title: "Other".to_string(),
            description: "rest rest in PEACE".to_string(),
            url: "http://o".to_string(),
        },
    ];
    let page = projects_page::build("projects.html".to_string(), &context_with(config));
    assert_eq!(
        page.keywords,
        words(&[
            "github", "collection", "various", "projects", "generator", "blog", "rest", "peace"
        ])
    );
    assert_eq!(page.summary, "A collection of projects I've worked on over the years.");
    assert_eq!(page.title, "Projects");
    assert_eq!(
        page.contents.item,
        ContentIr::Div {
            contents: vec![
                heading(2, "Projects", "projects"),
                section(
                    "Projects",
                    "projects_headerId",
                    vec![text("A collection of various projects I've worked on over the years.")]
                ),
                ContentIr::Div {
                    contents: vec![
                        section(
                            "Blog Gen",
                            "bloggen_headerId",
                            vec![
                                text("A generator for the Blog. And the the rest."),
                                link("Check it out", "http://b"),
                            ]
                        ),
                        section(
                            "Other",
                            "other_headerId",
                            vec![text("rest rest in PEACE"), link("Check it out", "http://o")]
                        ),
                    ]
                },
            ]
        }
    );
}

#[test]
fn home_page_lists_the_last_seven_documents() {
    let names: Vec<String> = (1..=9).map(|d| format!("2020.01.0{}_P{}.md", d, d)).collect();
    let bc = prepare(names.iter().map(|n| document(n)).collect());
    let context = context_with(Config::example_config());
    let page = index::build("index.html".to_string(), &bc, &context);
    assert_eq!(page.file_name, "index.html");
    assert_eq!(page.title, "Required: Some Index Title");
    assert_eq!(page.summary, "Home page");
    assert_eq!(page.keywords, words(&["Required: Index keywords"]));
    let contents = match page.contents.item {
        ContentIr::Div { contents } => contents,
        other => panic!("unexpected {:?}", other),
    };
    assert_eq!(contents.len(), 3);
    assert_eq!(contents[0], heading(2, "Home", "indexTitle"));
    let items: Vec<ContentIr> = (3..=9)
        .rev()
        .map(|d| ContentIr::Div {
            contents: vec![
                link(
                    &format!("2020.01.0{}: Title P{}", d, d),
                    &format!("2020.01.0{}_P{}.html", d, d),
                ),
                text(&format!(" - Summary of P{} that is long enough.", d)),
            ],
        })
        .collect();
    assert_eq!(
        contents[1],
        section(
            "Recent Posts",
            "recentposts_headerId",
            vec![ContentIr::UnorderedList { items }]
        )
    );
    assert_eq!(contents[2], bc.md[8].1.contents.item);
}

#[test]
fn catalog_groups_by_month_latest_first() {
    let bc = prepare(vec![
        document("2020.02.05_Third.md"),
        document("2020.01.01_First.md"),
        document("2020.02.01_Second.md"),
    ]);
    let page = catalog::build("catalog.html".to_string(), &bc);
    let entry = |title: &str, url: &str, summary: &str| ContentIr::Div {
        contents: vec![link(title, url), ContentIr::UnorderedList { items: vec![text(summary)] }],
    };
    assert_eq!(
        page,
        Page {
            contents: Item {
                item: ContentIr::Div {
                    contents: vec![
                        heading(2, "Catalog", "catalog"),
                        section(
                            "Catalog",
                            "catalog_headerId",
                            vec![ContentIr::Div {
                                contents: vec![
                                    text("A catalog of all pages in the blog. To start at the beginning "),
                                    link("click here.", "2020.01.01_First.html"),
                                    text("Or you can jump to the bottom of this page by "),
                                    link(
                                        "clicking here.",
                                        "catalog.html#2020-january_headerId"
                                    ),
                                ]
                            }]
                        ),
                        section(
                            "2020 - February",
                            "2020-february_headerId",
                            vec![ContentIr::UnorderedList {
                                items: vec![
                                    entry(
                                        "05 - Third",
                                        "2020.02.05_Third.html",
                                        "Summary of Third that is long enough."
                                    ),
                                    entry(
                                        "01 - Second",
                                        "2020.02.01_Second.html",
                                        "Summary of Second that is long enough."
                                    ),
                                ]
                            }]
                        ),
                        section(
                            "2020 - January",
                            "2020-january_headerId",
                            vec![ContentIr::UnorderedList {
                                items: vec![entry(
                                    "01 - First",
                                    "2020.01.01_First.html",
                                    "Summary of First that is long enough."
                                )]
                            }]
                        ),
                    ]
                },
                location: None
            },
            file_name: "catalog.html".to_string(),
            keywords: words(&["catalog", "blog_gen", "eric", "olson", "overview", "tech"]),
            summary: "A collection of all posts ever made.".to_string(),
            title: "Catalog".to_string(),
        }
    );
}

#[test]
fn catalog_names_all_twelve_months() {
    let names: Vec<String> = (1..=12).map(|m| format!("2021.{:02}.15_M{}.md", m, m)).collect();
    let bc = prepare(names.iter().map(|n| document(n)).collect());
    let page = catalog::build("c.html".to_string(), &bc);
    let contents = match page.contents.item {
        ContentIr::Div { contents } => contents,
        other => panic!("unexpected {:?}", other),
    };
    let titles: Vec<String> = contents[2..]
        .iter()
        .map(|c| match c {
            ContentIr::Card(children) => match &children[0] {
                ContentIr::Header { text, .. } => text.clone(),
                other => panic!("unexpected {:?}", other),
            },
            other => panic!("unexpected {:?}", other),
        })
        .collect();
    assert_eq!(
        titles,
        vec![
            "2021 - December",
            "2021 - November",
            "2021 - October",
            "2021 - September",
            "2021 - August",
            "2021 - July",
            "2021 - June",
            "2021 - May",
            "2021 - April",
            "2021 - March",
            "2021 - February",
            "2021 - January",
        ]
    );
}

#[test]
fn each_month_stands_once_in_the_catalog() {
    let bc = prepare(vec![
        document("2020.02.05_B.md"),
        document("2020.01.01_A.md"),
        document("2021.01.09_D.md"),
        document("2020.02.01_C.md"),
        document("2020.01.20_E.md"),
    ]);
    let page = catalog::build("c.html".to_string(), &bc);
    let contents = match page.contents.item {
        ContentIr::Div { contents } => contents,
        other => panic!("unexpected {:?}", other),
    };
    let titles: Vec<String> = contents[2..]
        .iter()
        .map(|c| match c {
            ContentIr::Card(children) => match &children[0] {
                ContentIr::Header { text, .. } => text.clone(),
                other => panic!("unexpected {:?}", other),
            },
            other => panic!("unexpected {:?}", other),
        })
        .collect();
    assert_eq!(titles, vec!["2021 - January", "2020 - February", "2020 - January"]);
}
