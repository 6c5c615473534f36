use blog_gen::outcome::{Item, Location, Res};
use blog_gen::parser::md::parse_contents::content_ir::{BlockKind, ContentIr, LinkType, Metadata};
use blog_gen::parser::md::parse_contents::hierarchy::{clean, headers, paragraphs};
use blog_gen::parser::md::parse_contents::render::is_resolved;
use blog_gen::parser::md::parse_contents::{
    execute, parse, try_process, ContinueRunning, Options, Validations,
};

fn mask() -> Validations {
    Validations {
        skip_code_block: false,
        skip_header: false,
        skip_inline_code: false,
        skip_link: false,
        skip_list: false,
        skip_metadata_display_title: false,
        skip_metadata_keywords: false,
        skip_metadata_series: false,
        skip_metadata_summary: false,
        validate_paragraph_len: true,
    }
}

fn loc() -> Location {
    Location { column: 0, file: "post.md".to_string(), line: 0, path: "in/post.md".to_string() }
}

fn grouped() -> Options {
    Options { make_cards: true, make_paragraphs: true }
}

fn flat() -> Options {
    Options { make_cards: false, make_paragraphs: false }
}

fn text(s: &str) -> ContentIr {
    ContentIr::Text { text: s.to_string() }
}

fn raw(s: &str, m: Validations) -> ContentIr {
    ContentIr::Unparsed { contents: s.to_string(), validations: m }
}

fn link_to(d: &str, u: &str) -> ContentIr {
    ContentIr::Link { description: d.to_string(), url: u.to_string(), link_type: LinkType::Regular }
}

fn has_unparsed(node: &ContentIr) -> bool {
    match node {
        ContentIr::Unparsed { .. } => true,
        ContentIr::Block { contents, .. } => has_unparsed(contents),
        ContentIr::Card(c) => c.iter().any(has_unparsed),
        ContentIr::Div { contents } => contents.iter().any(has_unparsed),
        ContentIr::OrderedList { items, .. } => items.iter().any(has_unparsed),
        ContentIr::Paragraph { children } => children.iter().any(has_unparsed),
        ContentIr::UnorderedList { items } => items.iter().any(has_unparsed),
        _ => false,
    }
}

fn tree(res: Res<ContentIr>) -> ContentIr {
    match res {
        Res::Success(item) => item.item,
        Res::Warn { item, .. } => item.item,
        Res::Warnings { item, .. } => item.item,
        Res::Error { msg, .. } => panic!("failed: {}", msg),
    }
}

#[test]
fn step_prefers_the_block_over_everything() {
    let got = try_process(&"# h ```c``` `i` [a](b)\n".to_string(), &loc(), grouped(), &mask());
    match got {
        Res::Success(Item { item: Some(nodes), location }) => {
            assert_eq!(location, Some(loc()));
            assert_eq!(
                nodes[1],
                ContentIr::Block { contents: Box::new(text("c")), block_kind: BlockKind::Code }
            );
        }
        other => panic!("unexpected {:?}", other),
    }
}

#[test]
fn step_carries_the_failed_operators_in_the_mask() {
    let got = try_process(&"a [l](u) b".to_string(), &loc(), grouped(), &mask());
    let tried = Validations {
        skip_code_block: true,
        skip_header: true,
        skip_inline_code: true,
        skip_list: true,
        skip_metadata_display_title: true,
        skip_metadata_keywords: true,
        skip_metadata_series: true,
        skip_metadata_summary: true,
        ..mask()
    };
    match got {
        Res::Success(Item { item: Some(nodes), .. }) => {
            assert_eq!(
                nodes,
                vec![
                    raw("a ", Validations { skip_link: true, ..tried }),
                    link_to("l", "u"),
                    raw(" b", tried),
                ]
            );
        }
        other => panic!("unexpected {:?}", other),
    }
}

#[test]
fn step_skips_suppressed_operators() {
    let m = Validations { skip_inline_code: true, skip_link: true, ..mask() };
    let got = try_process(&"`c` [a](b)".to_string(), &loc(), grouped(), &m);
    assert_eq!(got, Res::Success(Item { item: None, location: Some(loc()) }));
}

#[test]
fn step_returns_none_for_plain_text() {
    let got = try_process(&"just text\n".to_string(), &loc(), grouped(), &mask());
    assert_eq!(got, Res::Success(Item { item: None, location: Some(loc()) }));
}

#[test]
fn pass_turns_unmatched_fragments_into_lines_of_text() {
    let got = parse(&vec![raw("a\nb\n", mask()), text("kept")], &loc(), grouped());
    assert_eq!(
        got,
        Res::Success(Item {
            item: (vec![text("a"), text("b"), text(""), text("kept")], ContinueRunning::No),
            location: Some(loc())
        })
    );
}

#[test]
fn pass_drops_empty_fragments() {
    let got = parse(&vec![raw("", mask())], &loc(), grouped());
    assert_eq!(
        got,
        Res::Success(Item { item: (vec![], ContinueRunning::No), location: Some(loc()) })
    );
}

#[test]
fn pass_over_resolved_nodes_is_a_fixed_point() {
    let nodes = vec![text("a"), link_to("d", "u"), ContentIr::Card(vec![text("x")])];
    let got = parse(&nodes, &loc(), grouped());
    assert_eq!(
        got,
        Res::Success(Item { item: (nodes, ContinueRunning::No), location: Some(loc()) })
    );
}

#[test]
fn pass_reports_progress() {
    let got = parse(&vec![raw("`c`", mask())], &loc(), grouped());
    match got {
        Res::Success(Item { item: (nodes, again), .. }) => {
            assert_eq!(again, ContinueRunning::Yes);
            assert_eq!(nodes, vec![ContentIr::InlineCode("c".to_string())]);
        }
        other => panic!("unexpected {:?}", other),
    }
}

#[test]
fn misused_link_keeps_its_text_and_warns() {
    let got = execute("![gif](http://g.if)\n".to_string(), loc(), flat(), None);
    match got {
        Res::Warn { item, msg } => {
            assert_eq!(item.item, ContentIr::Div { contents: vec![text("![gif](http://g.if)")] });
            assert_eq!(
                msg,
                "Misused link in file '\"post.md\"'! This is probably a gif. Link: \"http://g.if\". Description: \"gif\"."
            );
        }
        other => panic!("unexpected {:?}", other),
    }
}

#[test]
fn long_line_warns_and_is_kept() {
    let line: String = "x".repeat(351);
    let got = execute(line.clone(), loc(), flat(), None);
    match got {
        Res::Warn { item, msg } => {
            assert_eq!(item.item, ContentIr::Div { contents: vec![text(&line)] });
            assert_eq!(item.location, Some(loc()));
            assert_eq!(
                msg,
                format!(
                    "\n\tParagraph '{}' exceeded limit of 350 by 1 characters!\n\tSuggested fix is newline at: 'x'",
                    "x".repeat(20)
                )
            );
        }
        other => panic!("unexpected {:?}", other),
    }
}

#[test]
fn line_of_350_characters_draws_no_warning() {
    let line: String = "y".repeat(350);
    let got = execute(line.clone(), loc(), flat(), None);
    assert_eq!(
        got,
        Res::Success(Item {
            item: ContentIr::Div { contents: vec![text(&line)] },
            location: Some(loc())
        })
    );
}

#[test]
fn two_long_lines_give_two_warnings() {
    let line: String = "z".repeat(400);
    let got = execute(format!("{}\n{}\n", line, line), loc(), flat(), None);
    match got {
        Res::Warnings { msgs, .. } => {
            assert_eq!(msgs.len(), 2);
            assert_eq!(msgs[0].1, Some(loc()));
            assert!(msgs[0].0.contains("by 50 characters"));
            assert!(msgs[1].0.ends_with(&format!("'{}'", "z".repeat(20))));
        }
        other => panic!("unexpected {:?}", other),
    }
}

#[test]
fn long_line_in_a_quote_draws_no_warning() {
    let line: String = "q".repeat(400);
    let got = execute(format!("```quote{}```", line), loc(), flat(), None);
    assert!(matches!(got, Res::Success(_)));
}

#[test]
fn carriage_returns_before_line_feeds_are_dropped() {
    let got = tree(execute("a\r\nb\r".to_string(), loc(), flat(), None));
    assert_eq!(got, ContentIr::Div { contents: vec![text("a"), text("b\r")] });
}

#[test]
fn empty_document_is_an_empty_div() {
    let got = execute("".to_string(), loc(), grouped(), None);
    assert_eq!(
        got,
        Res::Success(Item { item: ContentIr::Div { contents: vec![] }, location: Some(loc()) })
    );
}

#[test]
fn malformed_list_fails_the_document() {
    let got = execute("1) a\n* b\n".to_string(), loc(), grouped(), None);
    assert_eq!(
        got,
        Res::Error {
            location: Some(loc()),
            msg: "You have an ordered list that is not well formed! Likely missing a paren."
                .to_string()
        }
    );
}

#[test]
fn no_unresolved_fragment_is_left() {
    let inputs = [
        "",
        "plain",
        "# A\ntext `code` [l](u)\n* a\n* * b\n```quote # q\n1) x\n```\n![youtube](v)\n",
        "!!title T\n!!keywords a b c\n!!series s\n!!summary sum\n## H\n*x*\n",
        "[[[a](b)](c) ![gif](d) ``` `` `",
        "a) alpha\nb) beta\n\n#\n##\n",
    ];
    for input in inputs {
        for opts in [grouped(), flat()] {
            let got = tree(execute(input.to_string(), loc(), opts, None));
            assert!(!has_unparsed(&got), "left unresolved in {:?}: {:?}", input, got);
        }
    }
}

#[test]
fn directives_are_found_once_only() {
    let got = tree(execute("!!title A\n!!title B\n".to_string(), loc(), flat(), None));
    assert_eq!(
        got,
        ContentIr::Div {
            contents: vec![
                ContentIr::Metadata(Metadata::DisplayTitle("A".to_string())),
                text("!!title B"),
            ]
        }
    );
}

#[test]
fn adjacent_texts_break_the_paragraph() {
    let got = paragraphs(vec![text("a"), link_to("d", "u"), text("b"), text("c"), link_to("e", "v")]);
    assert_eq!(
        got,
        vec![
            ContentIr::Paragraph { children: vec![text("a"), link_to("d", "u"), text("b")] },
            ContentIr::Paragraph { children: vec![text("c"), link_to("e", "v")] },
        ]
    );
}

#[test]
fn block_nodes_close_the_paragraph() {
    let heading =
        ContentIr::Header { header_size: 1, id: "h".to_string(), text: "h".to_string() };
    let got = paragraphs(vec![
        ContentIr::InlineCode("i".to_string()),
        heading.clone(),
        text("t"),
    ]);
    assert_eq!(
        got,
        vec![
            ContentIr::Paragraph { children: vec![ContentIr::InlineCode("i".to_string())] },
            heading,
            ContentIr::Paragraph { children: vec![text("t")] },
        ]
    );
    assert_eq!(paragraphs(vec![]), vec![]);
}

#[test]
fn headings_nest_what_follows_them() {
    let h1 = ContentIr::Header { header_size: 1, id: "a".to_string(), text: "a".to_string() };
    let h2 = ContentIr::Header { header_size: 2, id: "b".to_string(), text: "b".to_string() };
    let got = headers(vec![text("before"), h1.clone(), text("x"), text("y"), h2.clone()]);
    assert_eq!(
        got,
        vec![
            text("before"),
            ContentIr::Card(vec![h1, ContentIr::Div { contents: vec![text("x"), text("y")] }]),
            ContentIr::Card(vec![h2, ContentIr::Div { contents: vec![] }]),
        ]
    );
    assert_eq!(headers(vec![text("only")]), vec![text("only")]);
}

#[test]
fn cleaning_removes_empty_nodes_bottom_up() {
    let empty_heading =
        ContentIr::Header { header_size: 1, id: "".to_string(), text: "".to_string() };
    let got = clean(vec![
        text(""),
        ContentIr::InlineCode("".to_string()),
        empty_heading,
        ContentIr::Div { contents: vec![ContentIr::Paragraph { children: vec![text("")] }] },
        ContentIr::Card(vec![text("keep"), text("")]),
        ContentIr::Block { contents: Box::new(text("")), block_kind: BlockKind::Code },
        ContentIr::OrderedList { items: vec![], numeric: true },
        ContentIr::UnorderedList { items: vec![ContentIr::Div { contents: vec![] }] },
        link_to("", ""),
        ContentIr::Metadata(Metadata::Summary("".to_string())),
    ]);
    assert_eq!(
        got,
        vec![
            ContentIr::Card(vec![text("keep")]),
            link_to("", ""),
            ContentIr::Metadata(Metadata::Summary("".to_string())),
        ]
    );
}

#[test]
fn cards_are_not_made_where_not_asked_for() {
    let opts = Options { make_cards: false, make_paragraphs: true };
    let got = tree(execute("# H\nt\n".to_string(), loc(), opts, None));
    assert_eq!(
        got,
        ContentIr::Div {
            contents: vec![
                ContentIr::Header { header_size: 1, id: "H".to_string(), text: "H".to_string() },
                ContentIr::Paragraph { children: vec![text("t")] },
            ]
        }
    );
}

#[test]
fn cleaning_twice_is_cleaning_once() {
    let once = clean(vec![
        text(""),
        ContentIr::Card(vec![text("a"), ContentIr::Paragraph { children: vec![text("")] }]),
        ContentIr::Div { contents: vec![ContentIr::InlineCode("c".to_string())] },
    ]);
    assert_eq!(
        once,
        vec![
            ContentIr::Card(vec![text("a")]),
            ContentIr::Div { contents: vec![ContentIr::InlineCode("c".to_string())] },
        ]
    );
    assert_eq!(clean(once.clone()), once);
}

#[test]
fn nesting_leaves_no_heading_at_the_top() {
    let h = |t: &str| ContentIr::Header { header_size: 1, id: t.to_string(), text: t.to_string() };
    let got = headers(vec![h("a"), h("b"), text("x"), h("c")]);
    assert_eq!(got.len(), 3);
    assert!(got.iter().all(|n| matches!(n, ContentIr::Card(c) if c.len() == 2)));
}

#[test]
fn resolved_trees_are_told_from_unresolved_ones() {
    assert!(is_resolved(&text("a")));
    assert!(is_resolved(&ContentIr::Card(vec![])));
    assert!(!is_resolved(&raw("x", mask())));
    let deep = |leaf: ContentIr| {
        ContentIr::Div {
            contents: vec![
                text("a"),
                ContentIr::Card(vec![ContentIr::OrderedList {
                    items: vec![ContentIr::UnorderedList {
                        items: vec![ContentIr::Paragraph {
                            children: vec![ContentIr::Block {
                                contents: Box::new(leaf),
                                block_kind: BlockKind::Quote,
                            }],
                        }],
                    }],
                    numeric: false,
                }]),
            ],
        }
    };
    assert!(is_resolved(&deep(link_to("d", "u"))));
    assert!(!is_resolved(&deep(raw("", mask()))));
    for input in ["# A\n* x\n```quote y```\n", "plain", ""] {
        assert!(is_resolved(&tree(execute(input.to_string(), loc(), grouped(), None))));
    }
}
