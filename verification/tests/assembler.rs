use blog_gen::outcome::{Item, Location, Res};
use blog_gen::parser::md::filename::validate;
use blog_gen::parser::md::parse_contents::content_ir::{ContentIr, Metadata};
use blog_gen::parser::md::{
    get_display_title, get_keywords, get_series, get_summary, parse, Link, Md, Navigation,
};
use blog_gen::parser::IntermediateRepresentation;

fn loc() -> Location {
    Location {
        column: 0,
        file: "2020.01.01_First.md".to_string(),
        line: 0,
        path: "in/2020.01.01_First.md".to_string(),
    }
}

fn doc(nodes: Vec<ContentIr>) -> Item<ContentIr> {
    Item { item: ContentIr::Div { contents: nodes }, location: Some(loc()) }
}

fn words(ws: &[&str]) -> Vec<String> {
    ws.iter().map(|w| w.to_string()).collect()
}

fn text(s: &str) -> ContentIr {
    ContentIr::Text { text: s.to_string() }
}

const GOOD: &str = "!!title A fine title\n!!keywords one two three four five\n!!series posts\n!!summary A summary that is long enough to please.\nHello\n";

#[test]
fn valid_names_are_accepted() {
    assert_eq!(validate(&"2020.01.01_First.md".to_string()), Ok(()));
    assert_eq!(validate(&"1999.12.31_a.md".to_string()), Ok(()));
    assert_eq!(validate(&"2024.02.29_Abc123XYZ.md".to_string()), Ok(()));
}

#[test]
fn invalid_names_name_their_first_fault() {
    let expect = |name: &str, fault: &str| {
        assert_eq!(
            validate(&name.to_string()),
            Err(format!("{}. Expected: YYYY.MM.DD_AlphaNumericTitle.md", fault)),
            "for {:?}",
            name
        );
    };
    expect("", "Invalid year");
    expect("2020", "Invalid year");
    expect("20200.01.01_a.md", "Invalid year");
    expect("20x0.01.01_a.md", "Invalid year");
    expect("2020-01.01_a.md", "Invalid year");
    expect("2020.1.01_a.md", "Invalid month");
    expect("2020.001.01_a.md", "Invalid month");
    expect("2020.01", "Invalid month");
    expect("2020.01.1_a.md", "Invalid day");
    expect("2020.01.01-a.md", "Invalid day");
    expect("2020.01.01_", "Invalid title");
    expect("2020.01.01_.md", "Invalid title");
    expect("2020.01.01_a b.md", "Invalid title");
    expect("2020.01.01_abc", "Invalid title");
    expect("2020.01.01_caf\u{e9}.md", "Invalid title");
    expect("2020.01.01_a.", "Invalid extension");
    expect("2020.01.01_a.m", "Invalid extension");
    expect("2020.01.01_a.mdx", "Invalid extension");
    expect("2020.01.01_a.txt", "Invalid extension");
    expect("\u{663}020.01.01_a.md", "Invalid year");
}

#[test]
fn document_with_invalid_name_fails_without_a_tree() {
    for name in ["post.md", "2020.01.01_First.txt", "2020.13_First.md", ""] {
        let got = parse(&name.to_string(), "in/x".to_string(), GOOD.to_string(), loc());
        match got {
            Res::Error { location, msg } => {
                assert_eq!(location, Some(loc()));
                assert!(msg.ends_with("Expected: YYYY.MM.DD_AlphaNumericTitle.md"));
            }
            other => panic!("expected a failure for {:?}, got {:?}", name, other),
        }
    }
}

#[test]
fn document_record_is_assembled() {
    let got = parse(
        &"2020.01.02_First.md".to_string(),
        "in/2020.01.02_First.md".to_string(),
        GOOD.to_string(),
        loc(),
    );
    let md = match got {
        Res::Success(Item { item: IntermediateRepresentation::Md(md), location }) => {
            assert_eq!(location, Some(loc()));
            md
        }
        other => panic!("unexpected {:?}", other),
    };
    let parsed = ContentIr::Div {
        contents: vec![
            ContentIr::Metadata(Metadata::DisplayTitle("A fine title".to_string())),
            ContentIr::Metadata(Metadata::Keywords(words(&["one", "two", "three", "four", "five"]))),
            ContentIr::Metadata(Metadata::Series(words(&["posts"]))),
            ContentIr::Metadata(Metadata::Summary(
                "A summary that is long enough to please.".to_string(),
            )),
            ContentIr::Paragraph { children: vec![text("Hello")] },
        ],
    };
    assert_eq!(
        md,
        Md {
            contents: Item {
                item: ContentIr::Div {
                    contents: vec![
                        ContentIr::Header {
                            header_size: 2,
                            id: "title".to_string(),
                            text: "2020.01.02 - A fine title".to_string()
                        },
                        parsed,
                    ]
                },
                location: Some(loc())
            },
            date: "2020.01.02".to_string(),
            day: "02".to_string(),
            default_title: "First".to_string(),
            display_title: "A fine title".to_string(),
            html_file_name: Link("2020.01.02_First.html".to_string()),
            keywords: words(&["one", "two", "three", "four", "five"]),
            month: "01".to_string(),
            month_year: "2020,01".to_string(),
            navigation: Navigation { next: vec![], previous: vec![] },
            path: "in/2020.01.02_First.md".to_string(),
            series: words(&["posts"]),
            summary: "A summary that is long enough to please.".to_string(),
            year: "2020".to_string(),
        }
    );
    assert_eq!(md.html_file_name.to_str(), "2020.01.02_First.html");
}

#[test]
fn three_keywords_warn_and_are_kept() {
    let got = get_keywords(&doc(vec![ContentIr::Metadata(Metadata::Keywords(words(&[
        "a", "b", "c",
    ])))]));
    assert_eq!(
        got,
        Res::Warn {
            item: Item { item: words(&["a", "b", "c"]), location: Some(loc()) },
            msg: "Keywords should have at least 5 words! Got 3.".to_string()
        }
    );
}

#[test]
fn keywords_directive_with_three_tokens_warns_in_the_document() {
    let text = GOOD.replace("one two three four five", "one two three");
    let got = parse(&"2020.01.01_First.md".to_string(), "p".to_string(), text, loc());
    match got {
        Res::Warn { item, msg } => {
            assert_eq!(msg, "Keywords should have at least 5 words! Got 3.");
            match item.item {
                IntermediateRepresentation::Md(md) => {
                    assert_eq!(md.keywords, words(&["one", "two", "three"]))
                }
                other => panic!("unexpected {:?}", other),
            }
        }
        other => panic!("unexpected {:?}", other),
    }
}

#[test]
fn five_keywords_are_enough_and_none_gives_placeholders() {
    let five = words(&["a", "b", "c", "d", "e"]);
    assert_eq!(
        get_keywords(&doc(vec![ContentIr::Metadata(Metadata::Keywords(five.clone()))])),
        Res::Success(Item { item: five, location: Some(loc()) })
    );
    assert_eq!(
        get_keywords(&doc(vec![ContentIr::Metadata(Metadata::Keywords(vec![]))])),
        Res::Warn {
            item: Item { item: words(&["A", "Placeholder!"]), location: Some(loc()) },
            msg: "Keywords empty!".to_string()
        }
    );
}

#[test]
fn summary_of_ten_characters_warns_and_is_kept() {
    let got = get_summary(&doc(vec![ContentIr::Metadata(Metadata::Summary(
        "0123456789".to_string(),
    ))]));
    assert_eq!(
        got,
        Res::Warn {
            item: Item { item: "0123456789".to_string(), location: Some(loc()) },
            msg: "Summary should have a minimum len of 30! Got 10.".to_string()
        }
    );
}

#[test]
fn summary_limits() {
    let of = |n: usize| {
        get_summary(&doc(vec![ContentIr::Metadata(Metadata::Summary("s".repeat(n)))]))
    };
    assert!(matches!(of(29), Res::Warn { .. }));
    assert!(matches!(of(30), Res::Success(_)));
    assert!(matches!(of(160), Res::Success(_)));
    assert_eq!(
        of(161),
        Res::Warn {
            item: Item { item: "s".repeat(161), location: Some(loc()) },
            msg: "Summary should have a maximum len of 160! Got 161.".to_string()
        }
    );
    assert_eq!(
        of(0),
        Res::Warn {
            item: Item { item: "A placeholder!".to_string(), location: Some(loc()) },
            msg: "Summary empty!".to_string()
        }
    );
}

#[test]
fn summary_length_counts_characters_not_bytes() {
    let got = get_summary(&doc(vec![ContentIr::Metadata(Metadata::Summary(
        "\u{e9}".repeat(30),
    ))]));
    assert!(matches!(got, Res::Success(_)));
}

#[test]
fn title_limits() {
    let of = |n: usize| {
        get_display_title(&doc(vec![ContentIr::Metadata(Metadata::DisplayTitle("t".repeat(n)))]))
    };
    assert_eq!(of(64), Res::Success(Item { item: "t".repeat(64), location: Some(loc()) }));
    assert_eq!(
        of(65),
        Res::Warn {
            item: Item { item: "t".repeat(65), location: Some(loc()) },
            msg: "Display title exceeds 65 characters! Got 65.".to_string()
        }
    );
    assert_eq!(
        of(0),
        Res::Warn {
            item: Item { item: "Placeholder!".to_string(), location: Some(loc()) },
            msg: "Display title empty!".to_string()
        }
    );
}

#[test]
fn missing_directives_fail() {
    let empty = doc(vec![text("nothing here")]);
    assert_eq!(
        get_display_title(&empty),
        Res::Error {
            location: Some(loc()),
            msg: "Display title not found! Start each page with '!!title YOUR TITLE' ended with newline.".to_string()
        }
    );
    assert_eq!(
        get_keywords(&empty),
        Res::Error {
            location: Some(loc()),
            msg: "Keywords not found! Start each page with '!!keywords A LIST OF KEYWORDS' ended with newline.".to_string()
        }
    );
    assert_eq!(
        get_series(&empty),
        Res::Error {
            location: Some(loc()),
            msg: "Series not found! Start each page with '!!series SERIES_TITLE' ended with newline.".to_string()
        }
    );
    assert_eq!(
        get_summary(&empty),
        Res::Error {
            location: Some(loc()),
            msg: "Summary not found! Start each page with '!!summary YOUR SUMMARY' ended with newline.".to_string()
        }
    );
}

#[test]
fn search_is_depth_first_and_first_in_document_order_wins() {
    let tree = doc(vec![
        ContentIr::Div { contents: vec![text("x")] },
        ContentIr::Card(vec![ContentIr::Metadata(Metadata::Series(words(&["hidden"])))]),
        ContentIr::Div {
            contents: vec![ContentIr::Div {
                contents: vec![ContentIr::Metadata(Metadata::Series(words(&["deep"])))],
            }],
        },
        ContentIr::Metadata(Metadata::Series(words(&["late"]))),
    ]);
    assert_eq!(
        get_series(&tree),
        Res::Success(Item { item: words(&["hidden"]), location: Some(loc()) })
    );
}

#[test]
fn search_goes_down_through_every_container() {
    let series = || ContentIr::Metadata(Metadata::Series(words(&["s"])));
    let heading =
        ContentIr::Header { header_size: 1, id: "h".to_string(), text: "h".to_string() };
    let wrapped = vec![
        ContentIr::Card(vec![heading, ContentIr::Div { contents: vec![series()] }]),
        ContentIr::Block {
            contents: Box::new(series()),
            block_kind: blog_gen::parser::md::parse_contents::content_ir::BlockKind::Quote,
        },
        ContentIr::OrderedList { items: vec![text("a"), series()], numeric: true },
        ContentIr::UnorderedList { items: vec![series()] },
        ContentIr::Paragraph { children: vec![text("a"), series()] },
        ContentIr::Div { contents: vec![series()] },
    ];
    for node in wrapped {
        assert_eq!(
            get_series(&doc(vec![text("before"), node.clone()])),
            Res::Success(Item { item: words(&["s"]), location: Some(loc()) }),
            "under {:?}",
            node
        );
    }
    assert!(matches!(get_series(&doc(vec![text("none")])), Res::Error { .. }));
}

#[test]
fn directives_after_a_heading_are_found() {
    let text = "!!title A fine title\n# Heading\n!!keywords one two three four five\n!!series posts\n!!summary A summary that is long enough to please.\nHello\n";
    let got = parse(&"2020.01.01_First.md".to_string(), "p".to_string(), text.to_string(), loc());
    match got {
        Res::Success(Item { item: IntermediateRepresentation::Md(md), .. }) => {
            assert_eq!(md.series, words(&["posts"]));
            assert_eq!(md.keywords, words(&["one", "two", "three", "four", "five"]));
            assert_eq!(md.summary, "A summary that is long enough to please.");
        }
        other => panic!("unexpected {:?}", other),
    }
}

#[test]
fn document_without_series_fails() {
    let text = GOOD.replace("!!series posts\n", "");
    let got = parse(&"2020.01.01_First.md".to_string(), "p".to_string(), text, loc());
    assert_eq!(
        got,
        Res::Error {
            location: Some(loc()),
            msg: "Series not found! Start each page with '!!series SERIES_TITLE' ended with newline.".to_string()
        }
    );
}

#[test]
fn warnings_of_all_stages_are_gathered_in_order() {
    let text = format!(
        "!!title\n!!keywords a\n!!series s\n!!summary short\n{}\n",
        "w".repeat(360)
    );
    let got = parse(&"2020.01.01_First.md".to_string(), "p".to_string(), text, loc());
    match got {
        Res::Warnings { msgs, .. } => {
            let texts: Vec<&str> = msgs.iter().map(|m| m.0.as_str()).collect();
            assert_eq!(texts.len(), 4);
            assert!(texts[0].contains("exceeded limit of 350 by 10 characters"));
            assert_eq!(texts[1], "Display title empty!");
            assert_eq!(texts[2], "Keywords should have at least 5 words! Got 1.");
            assert_eq!(texts[3], "Summary should have a minimum len of 30! Got 5.");
        }
        other => panic!("unexpected {:?}", other),
    }
}
