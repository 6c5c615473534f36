use blog_gen::builder::catalog::is_month;
use blog_gen::builder::{
    build_md, check_can_build, execute, prepare, sort_documents, validate_md, BuildContext,
};
use blog_gen::config::Config;
use blog_gen::env_args::context_of;
use blog_gen::outcome::{Item, Location, Res};
use blog_gen::parser::md::parse_contents::content_ir::{ContentIr, LinkType};
use blog_gen::parser::md::{parse, Link, Md};
use blog_gen::parser::{Css, Img, IntermediateRepresentation};
use blog_gen::{Context, Directory};

fn context() -> Context {
    context_of(
        Config::example_config(),
        Directory("in".to_string()),
        Directory("out".to_string()),
    )
}

fn loc(name: &str) -> Location {
    Location { column: 0, file: name.to_string(), line: 0, path: format!("in/{}", name) }
}

fn document(name: &str, body: &str) -> Item<IntermediateRepresentation> {
    let text = format!(
        "!!title Title of {}\n!!keywords one two three four five\n!!series s\n!!summary A summary that is long enough to please.\n{}\n",
        &name[11..name.len() - 3],
        body
    );
    match parse(&name.to_string(), format!("in/{}", name), text, loc(name)) {
        Res::Success(item) => item,
        other => panic!("document did not parse: {:?}", other),
    }
}

fn md_of(item: Item<IntermediateRepresentation>) -> Md {
    match item.item {
        IntermediateRepresentation::Md(md) => md,
        other => panic!("no document: {:?}", other),
    }
}

fn image(name: &str) -> Item<IntermediateRepresentation> {
    Item {
        item: IntermediateRepresentation::Img(Img {
            contents: vec![1, 2, 3],
            file_name: name.to_string(),
        }),
        location: None,
    }
}

fn built_md(res: &Res<IntermediateRepresentation>) -> Option<&Md> {
    match res {
        Res::Success(Item { item: IntermediateRepresentation::Md(md), .. }) => Some(md),
        _ => None,
    }
}

#[test]
fn neighbours_are_linked_in_order_of_date() {
    let second = document("2020.02.01_Second.md", "b");
    let first = document("2020.01.01_First.md", "a");
    let out = execute(&context(), vec![second, first]);
    let mds: Vec<&Md> = out.iter().filter_map(built_md).collect();
    assert_eq!(mds.len(), 2);
    assert_eq!(mds[0].date, "2020.01.01");
    assert_eq!(mds[1].date, "2020.02.01");
    assert_eq!(mds[0].navigation.next, vec![Link("2020.02.01_Second.html".to_string())]);
    assert_eq!(mds[0].navigation.previous, vec![]);
    assert_eq!(mds[1].navigation.previous, vec![Link("2020.01.01_First.html".to_string())]);
    assert_eq!(mds[1].navigation.next, vec![]);
    match &mds[0].contents.item {
        ContentIr::Div { contents } => assert_eq!(
            contents[0],
            ContentIr::Navigation {
                links: context().links,
                next: Some(Link("2020.02.01_Second.html".to_string())),
                previous: None,
            }
        ),
        other => panic!("unexpected {:?}", other),
    }
    match &mds[1].contents.item {
        ContentIr::Div { contents } => assert_eq!(
            contents[0],
            ContentIr::Navigation {
                links: context().links,
                next: None,
                previous: Some(Link("2020.01.01_First.html".to_string())),
            }
        ),
        other => panic!("unexpected {:?}", other),
    }
}

#[test]
fn site_is_css_images_documents_and_four_pages() {
    let css = Item {
        item: IntermediateRepresentation::Css(Css {
            contents: vec![97],
            file_name: "MAIN.CSS".to_string(),
        }),
        location: Some(loc("MAIN.CSS")),
    };
    let out = execute(
        &context(),
        vec![document("2020.01.01_First.md", "a"), image("Pic.PNG"), css],
    );
    assert_eq!(out.len(), 7);
    assert_eq!(
        out[0],
        Res::Success(Item {
            item: IntermediateRepresentation::Css(Css {
                contents: vec![97],
                file_name: "main.css".to_string()
            }),
            location: Some(loc("MAIN.CSS"))
        })
    );
    assert_eq!(
        out[1],
        Res::Success(Item {
            item: IntermediateRepresentation::Img(Img {
                contents: vec![1, 2, 3],
                file_name: "pic.png".to_string()
            }),
            location: None
        })
    );
    assert!(built_md(&out[2]).is_some());
    let names: Vec<String> = out[3..]
        .iter()
        .map(|r| match r {
            Res::Success(Item { item: IntermediateRepresentation::Page(p), location: None }) => {
                format!("{}|{}", p.file_name, p.title)
            }
            other => panic!("no page: {:?}", other),
        })
        .collect();
    assert_eq!(
        names,
        vec![
            "index.html|Required: Some Index Title",
            "catalog.html|Catalog",
            "projects.html|Projects",
            "about_me.html|About Me",
        ]
    );
}

#[test]
fn documents_are_sorted_by_year_month_day_and_title() {
    let names = [
        "2021.01.01_b.md",
        "2020.12.31_z.md",
        "2021.01.01_a.md",
        "2020.02.10_m.md",
        "2020.02.09_n.md",
    ];
    let md: Vec<(Option<Location>, Md)> =
        names.iter().map(|n| (None, md_of(document(n, "x")))).collect();
    let sorted: Vec<String> =
        sort_documents(md).into_iter().map(|(_, m)| m.html_file_name.0).collect();
    assert_eq!(
        sorted,
        vec![
            "2020.02.09_n.html",
            "2020.02.10_m.html",
            "2020.12.31_z.html",
            "2021.01.01_a.html",
            "2021.01.01_b.html",
        ]
    );
    assert_eq!(sort_documents(vec![]), vec![]);
}

#[test]
fn unlinked_local_image_fails_the_document() {
    let doc = document("2020.01.01_First.md", "![p](./_img/Missing.png)");
    let out = execute(&context(), vec![doc, image("other.png")]);
    assert_eq!(
        out[1],
        Res::Error {
            location: Some(loc("2020.01.01_First.md")),
            msg: "Unlinked image with raw url: \"missing.png\"!".to_string()
        }
    );
}

#[test]
fn linked_local_image_passes() {
    let doc = document("2020.01.01_First.md", "![p](./_img/Here.PNG)");
    let out = execute(&context(), vec![doc, image("HERE.png")]);
    assert!(built_md(&out[1]).is_some());
}

#[test]
fn validation_reads_lists_blocks_and_cards() {
    let bc = BuildContext { css: vec![], img: vec![], md: vec![], page: vec![] };
    let img = ContentIr::Link {
        description: "d".to_string(),
        url: "assets/a.png".to_string(),
        link_type: LinkType::LocalImage,
    };
    let elsewhere = ContentIr::Link {
        description: "d".to_string(),
        url: "http://x/a.png".to_string(),
        link_type: LinkType::LocalImage,
    };
    let regular = ContentIr::Link {
        description: "d".to_string(),
        url: "assets/b.png".to_string(),
        link_type: LinkType::Regular,
    };
    let tree = ContentIr::Card(vec![
        regular,
        elsewhere,
        ContentIr::OrderedList {
            items: vec![ContentIr::Paragraph { children: vec![img] }],
            numeric: true,
        },
    ]);
    assert_eq!(
        validate_md(&tree, &None, &bc),
        Res::Error { location: None, msg: "Unlinked image with raw url: \"a.png\"!".to_string() }
    );
    assert_eq!(
        validate_md(&ContentIr::Text { text: "t".to_string() }, &Some(loc("x")), &bc),
        Res::Success(Item { item: (), location: Some(loc("x")) })
    );
}

#[test]
fn single_document_has_no_neighbours() {
    let bc = prepare(vec![document("2020.01.01_First.md", "a")]);
    let (location, md) = (bc.md[0].0.clone(), bc.md[0].1.clone());
    match build_md(0, location, md, &bc, &context()) {
        Res::Success(item) => {
            assert_eq!(item.item.navigation.next, vec![]);
            assert_eq!(item.item.navigation.previous, vec![]);
        }
        other => panic!("unexpected {:?}", other),
    }
}

#[test]
fn index_after_the_last_document_links_backwards_only() {
    let bc = prepare(vec![
        document("2020.01.01_First.md", "a"),
        document("2020.02.01_Second.md", "b"),
    ]);
    let extra = md_of(document("2020.03.01_Third.md", "c"));
    match build_md(2, None, extra, &bc, &context()) {
        Res::Success(item) => {
            assert_eq!(item.location, None);
            assert_eq!(
                item.item.navigation.previous,
                vec![Link("2020.02.01_Second.html".to_string())]
            );
            assert_eq!(item.item.navigation.next, vec![]);
        }
        other => panic!("unexpected {:?}", other),
    }
}

#[test]
fn any_index_on_an_empty_list_links_nothing() {
    let bc = BuildContext { css: vec![], img: vec![], md: vec![], page: vec![] };
    let md = md_of(document("2020.03.01_Third.md", "c"));
    match build_md(5, None, md, &bc, &context()) {
        Res::Success(item) => {
            assert_eq!(item.item.navigation.previous, vec![]);
            assert_eq!(item.item.navigation.next, vec![]);
        }
        other => panic!("unexpected {:?}", other),
    }
}

#[test]
fn site_can_be_built_from_documents_with_known_months() {
    assert!(!check_can_build(&vec![]));
    assert!(!check_can_build(&vec![image("a.png")]));
    assert!(check_can_build(&vec![image("a.png"), document("2020.12.01_Last.md", "x")]));
    assert!(!check_can_build(&vec![
        document("2020.01.01_First.md", "x"),
        document("2020.13.01_Odd.md", "x"),
        document("2020.02.01_Second.md", "x"),
    ]));
    assert!(!check_can_build(&vec![document("2020.00.01_Zero.md", "x")]));
}

#[test]
fn months_are_told_by_two_digits() {
    for m in ["01", "02", "03", "04", "05", "06", "07", "08", "09", "10", "11", "12"] {
        assert!(is_month(m), "{}", m);
    }
    for m in ["", "0", "1", "00", "13", "+1", "1 ", "012", "ab"] {
        assert!(!is_month(m), "{:?}", m);
    }
}
