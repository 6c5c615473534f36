use blog_gen::outcome::{Item, Location, Res};
use blog_gen::parser::md::parse_contents::chomp::{
    block, header, inline_code, link, list, metadata_display_title, metadata_keywords,
    metadata_series, metadata_summary,
};
use blog_gen::parser::md::parse_contents::content_ir::{BlockKind, ContentIr, LinkType, Metadata};
use blog_gen::parser::md::parse_contents::{Options, Validations};

fn mask() -> Validations {
    Validations {
        skip_code_block: false,
        skip_header: false,
        skip_inline_code: false,
        skip_link: false,
        skip_list: false,
        skip_metadata_display_title: false,
        skip_metadata_keywords: false,
        skip_metadata_series: false,
        skip_metadata_summary: false,
        validate_paragraph_len: true,
    }
}

fn opts() -> Options {
    Options { make_cards: true, make_paragraphs: true }
}

fn loc() -> Location {
    Location { column: 0, file: "post.md".to_string(), line: 0, path: "in/post.md".to_string() }
}

fn raw(s: &str, m: Validations) -> ContentIr {
    ContentIr::Unparsed { contents: s.to_string(), validations: m }
}

fn text(s: &str) -> ContentIr {
    ContentIr::Text { text: s.to_string() }
}

fn found(res: Res<Option<Vec<ContentIr>>>) -> Option<Vec<ContentIr>> {
    match res {
        Res::Success(Item { item, .. }) => item,
        other => panic!("expected success, got {:?}", other),
    }
}

#[test]
fn inline_code_splits_around_first_pair() {
    let got = inline_code(&"a `b` c `d`".to_string(), &mask()).unwrap();
    assert_eq!(
        got,
        vec![
            raw("a ", Validations { skip_inline_code: true, ..mask() }),
            ContentIr::InlineCode("b".to_string()),
            raw(" c `d`", mask()),
        ]
    );
}

#[test]
fn inline_code_needs_two_backticks() {
    assert_eq!(inline_code(&"a ` b".to_string(), &mask()), None);
    assert_eq!(inline_code(&"".to_string(), &mask()), None);
}

#[test]
fn inline_code_empty_code_leaves_no_node() {
    let got = inline_code(&"x``y".to_string(), &mask()).unwrap();
    assert_eq!(
        got,
        vec![raw("x", Validations { skip_inline_code: true, ..mask() }), raw("y", mask())]
    );
}

#[test]
fn title_directive_is_trimmed() {
    let got = metadata_display_title(&"a\n!!title   My Title \nrest".to_string(), &mask()).unwrap();
    let after = Validations { skip_metadata_display_title: true, ..mask() };
    assert_eq!(
        got,
        vec![
            raw("a\n", after),
            ContentIr::Metadata(Metadata::DisplayTitle("My Title".to_string())),
            raw("rest", after),
        ]
    );
}

#[test]
fn directive_without_newline_does_not_match() {
    assert_eq!(metadata_display_title(&"!!title T".to_string(), &mask()), None);
    assert_eq!(metadata_keywords(&"!!keywords a b".to_string(), &mask()), None);
    assert_eq!(metadata_series(&"no marker\n".to_string(), &mask()), None);
    assert_eq!(metadata_summary(&"!!summar y\n".to_string(), &mask()), None);
}

#[test]
fn keywords_directive_splits_on_ascii_whitespace() {
    let got = metadata_keywords(&"!!keywords  rust\tverus  proofs \n".to_string(), &mask()).unwrap();
    assert_eq!(
        got,
        vec![ContentIr::Metadata(Metadata::Keywords(vec![
            "rust".to_string(),
            "verus".to_string(),
            "proofs".to_string()
        ]))]
    );
}

#[test]
fn series_and_summary_directives() {
    let got = metadata_series(&"!!series one two\n".to_string(), &mask()).unwrap();
    assert_eq!(
        got,
        vec![ContentIr::Metadata(Metadata::Series(vec!["one".to_string(), "two".to_string()]))]
    );
    let got = metadata_summary(&"!!summary  a short one \nx".to_string(), &mask()).unwrap();
    assert_eq!(
        got,
        vec![
            ContentIr::Metadata(Metadata::Summary("a short one".to_string())),
            raw("x", Validations { skip_metadata_summary: true, ..mask() }),
        ]
    );
}

#[test]
fn heading_level_counts_the_run_of_hashes() {
    let got = header(&"intro\n### Deep dive\nmore".to_string(), &mask()).unwrap();
    assert_eq!(
        got,
        vec![
            raw("intro\n", Validations { skip_header: true, ..mask() }),
            ContentIr::Header {
                header_size: 3,
                id: "Deepdive".to_string(),
                text: "Deep dive".to_string()
            },
            raw("\nmore", mask()),
        ]
    );
}

#[test]
fn heading_starts_only_at_line_start() {
    assert_eq!(header(&"a # b\n".to_string(), &mask()), None);
    assert_eq!(header(&"".to_string(), &mask()), None);
}

#[test]
fn heading_without_newline_runs_to_the_end() {
    let got = header(&"# C# rocks".to_string(), &mask()).unwrap();
    assert_eq!(
        got,
        vec![ContentIr::Header {
            header_size: 1,
            id: "Crocks".to_string(),
            text: "C# rocks".to_string()
        }]
    );
}

#[test]
fn heading_without_text_leaves_no_node() {
    let got = header(&"##\nx".to_string(), &mask()).unwrap();
    assert_eq!(got, vec![raw("\nx", mask())]);
}

#[test]
fn plain_fence_is_code() {
    let got = block(&"a```let x;```b".to_string(), opts(), &mask()).unwrap();
    assert_eq!(
        got,
        vec![
            raw("a", Validations { skip_code_block: true, ..mask() }),
            ContentIr::Block { contents: Box::new(text("let x;")), block_kind: BlockKind::Code },
            raw("b", mask()),
        ]
    );
}

#[test]
fn quote_fence_wins_over_an_earlier_plain_fence() {
    let got = block(&"```a``` ```quote hi```".to_string(), opts(), &mask()).unwrap();
    assert_eq!(got.len(), 2);
    assert_eq!(got[0], raw("```a``` ", Validations { skip_code_block: true, ..mask() }));
    assert_eq!(
        got[1],
        ContentIr::Block {
            contents: Box::new(ContentIr::Div {
                contents: vec![ContentIr::Paragraph { children: vec![text(" hi")] }]
            }),
            block_kind: BlockKind::Quote
        }
    );
}

#[test]
fn fence_without_close_does_not_match() {
    assert_eq!(block(&"```open".to_string(), opts(), &mask()), None);
    assert_eq!(block(&"no fence".to_string(), opts(), &mask()), None);
}

#[test]
fn empty_fence_leaves_no_block() {
    let got = block(&"a``````b".to_string(), opts(), &mask()).unwrap();
    assert_eq!(
        got,
        vec![raw("a", Validations { skip_code_block: true, ..mask() }), raw("b", mask())]
    );
}

#[test]
fn link_splits_around_the_link() {
    let got = found(link(&"see [Click](http://x.com) now".to_string(), &loc(), &mask())).unwrap();
    assert_eq!(
        got,
        vec![
            raw("see ", Validations { skip_link: true, ..mask() }),
            ContentIr::Link {
                description: "Click".to_string(),
                url: "http://x.com".to_string(),
                link_type: LinkType::Regular
            },
            raw(" now", mask()),
        ]
    );
}

#[test]
fn no_link_where_a_bracket_is_missing() {
    assert_eq!(found(link(&"[a](b".to_string(), &loc(), &mask())), None);
    assert_eq!(found(link(&"a](b)".to_string(), &loc(), &mask())), None);
    assert_eq!(found(link(&"".to_string(), &loc(), &mask())), None);
    assert_eq!(found(link(&"(a)[b]".to_string(), &loc(), &mask())), None);
}

#[test]
fn second_open_bracket_restarts_the_scan() {
    let got = found(link(&"[x [a](b)".to_string(), &loc(), &mask())).unwrap();
    assert_eq!(
        got,
        vec![
            raw("[x ", Validations { skip_link: true, ..mask() }),
            ContentIr::Link {
                description: "a".to_string(),
                url: "b".to_string(),
                link_type: LinkType::Regular
            },
        ]
    );
}

#[test]
fn local_image_is_flattened_and_lowercased() {
    let got = found(link(&"![Pic](./_img/Sub/Dir/PHOTO.PNG)".to_string(), &loc(), &mask())).unwrap();
    assert_eq!(
        got,
        vec![ContentIr::Link {
            description: "Pic".to_string(),
            url: "assets/photo.png".to_string(),
            link_type: LinkType::LocalImage
        }]
    );
}

#[test]
fn iframe_embed() {
    let got = found(link(&"x ![ iframe ](http://f.io)".to_string(), &loc(), &mask())).unwrap();
    assert_eq!(
        got,
        vec![
            raw("x ", Validations { skip_link: true, ..mask() }),
            ContentIr::Link {
                description: " iframe ".to_string(),
                url: "http://f.io".to_string(),
                link_type: LinkType::Iframe
            },
        ]
    );
}

#[test]
fn misused_exclamation_link_warns_and_matches_nothing() {
    let got = link(&"![a \"gif\"](http://g.if)".to_string(), &loc(), &mask());
    match got {
        Res::Warn { item, msg } => {
            assert_eq!(item.item, None);
            assert_eq!(item.location, Some(loc()));
            assert_eq!(
                msg,
                "Misused link in file '\"post.md\"'! This is probably a gif. Link: \"http://g.if\". Description: \"a \\\"gif\\\"\"."
            );
        }
        other => panic!("expected a warning, got {:?}", other),
    }
}

#[test]
fn star_list_is_unordered() {
    let got = found(list(&"x\n* a\n* b\ny\n".to_string(), opts(), &mask())).unwrap();
    assert_eq!(
        got,
        vec![
            raw("x\n", Validations { skip_list: true, ..mask() }),
            ContentIr::UnorderedList {
                items: vec![
                    ContentIr::Div { contents: vec![text("a")] },
                    ContentIr::Div { contents: vec![text("b")] },
                ]
            },
            raw("y\n", mask()),
        ]
    );
}

#[test]
fn numbered_list_is_numeric() {
    let got = found(list(&"1) one\n2) two\n".to_string(), opts(), &mask())).unwrap();
    assert_eq!(
        got,
        vec![
            raw("", Validations { skip_list: true, ..mask() }),
            ContentIr::OrderedList {
                items: vec![
                    ContentIr::Div { contents: vec![text(" one")] },
                    ContentIr::Div { contents: vec![text(" two")] },
                ],
                numeric: true
            },
            raw("", mask()),
        ]
    );
}

#[test]
fn lettered_list_is_alphabetic_in_any_case() {
    let got = found(list(&"A) x\nb) y\n".to_string(), opts(), &mask())).unwrap();
    assert_eq!(
        got[1],
        ContentIr::OrderedList {
            items: vec![
                ContentIr::Div { contents: vec![text(" x")] },
                ContentIr::Div { contents: vec![text(" y")] },
            ],
            numeric: false
        }
    );
}

#[test]
fn other_marker_makes_an_unordered_list_of_literal_items() {
    let got = found(list(&"c) x\n".to_string(), opts(), &mask())).unwrap();
    assert_eq!(
        got[1],
        ContentIr::UnorderedList { items: vec![ContentIr::Div { contents: vec![text("c) x")] }] }
    );
}

#[test]
fn star_without_space_is_a_literal_item() {
    let got = found(list(&"*bold*\n".to_string(), opts(), &mask())).unwrap();
    assert_eq!(
        got[1],
        ContentIr::UnorderedList { items: vec![ContentIr::Div { contents: vec![text("*bold*")] }] }
    );
}

#[test]
fn nested_star_makes_a_nested_list() {
    let got = found(list(&"* * a\n".to_string(), opts(), &mask())).unwrap();
    assert_eq!(
        got[1],
        ContentIr::UnorderedList {
            items: vec![ContentIr::Div {
                contents: vec![ContentIr::UnorderedList {
                    items: vec![ContentIr::Div { contents: vec![text("a")] }]
                }]
            }]
        }
    );
}

#[test]
fn ordered_item_without_paren_fails() {
    match list(&"1) one\n* two\n".to_string(), opts(), &mask()) {
        Res::Error { location, msg } => {
            assert_eq!(location, None);
            assert_eq!(
                msg,
                "You have an ordered list that is not well formed! Likely missing a paren."
            );
        }
        other => panic!("expected a failure, got {:?}", other),
    }
}

#[test]
fn list_item_with_two_warnings_fails() {
    let item = format!("* ![a](b) {}\n", "x".repeat(351));
    match list(&item, opts(), &mask()) {
        Res::Error { location, msg } => {
            assert_eq!(location, None);
            assert_eq!(msg, "A list item gave more than one warning!");
        }
        other => panic!("expected a failure, got {:?}", other),
    }
}

#[test]
fn list_item_with_one_warning_is_kept() {
    let got = found(list(&"* ![a](b)\n".to_string(), opts(), &mask())).unwrap();
    assert_eq!(
        got[1],
        ContentIr::UnorderedList {
            items: vec![ContentIr::Div { contents: vec![text("![a](b)")] }]
        }
    );
}

#[test]
fn list_needs_a_terminated_line() {
    assert_eq!(found(list(&"* a".to_string(), opts(), &mask())), None);
    assert_eq!(found(list(&"plain\n".to_string(), opts(), &mask())), None);
    assert_eq!(found(list(&"".to_string(), opts(), &mask())), None);
}

#[test]
fn list_ends_at_the_first_line_that_is_no_item() {
    let got = found(list(&"* a\nb\n* c\n".to_string(), opts(), &mask())).unwrap();
    assert_eq!(got[2], raw("b\n* c\n", mask()));
}
