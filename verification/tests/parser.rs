use blog_gen::outcome::{Item, Location, Res};
use blog_gen::parser::md::parse_contents::content_ir::{BlockKind, ContentIr, LinkType, Metadata};
use blog_gen::parser::md::parse_contents::{execute, Options, Validations};

fn here() -> Location {
    Location { column: 0, file: "a.md".to_string(), line: 0, path: "docs/a.md".to_string() }
}

fn grouped() -> Options {
    Options { make_cards: true, make_paragraphs: true }
}

fn flat() -> Options {
    Options { make_cards: false, make_paragraphs: false }
}

fn children(res: Res<ContentIr>) -> Vec<ContentIr> {
    match res {
        Res::Success(Item { item: ContentIr::Div { contents }, .. }) => contents,
        other => panic!("expected a clean Div, got {:?}", other),
    }
}

fn text(s: &str) -> ContentIr {
    ContentIr::Text { text: s.to_string() }
}

#[test]
fn fenced_code_becomes_code_block() {
    let got = children(execute("```code```".to_string(), here(), flat(), None));
    assert_eq!(
        got,
        vec![ContentIr::Block { contents: Box::new(text("code")), block_kind: BlockKind::Code }]
    );
}

#[test]
fn heading_and_text_nest_into_card() {
    let got = children(execute("# Hello\nWorld\n".to_string(), here(), grouped(), None));
    assert_eq!(
        got,
        vec![ContentIr::Card(vec![
            ContentIr::Header { header_size: 1, id: "Hello".to_string(), text: "Hello".to_string() },
            ContentIr::Div {
                contents: vec![ContentIr::Paragraph { children: vec![text("World")] }]
            },
        ])]
    );
}

#[test]
fn plain_link_is_regular() {
    let got = children(execute("[Click](http://x.com)".to_string(), here(), flat(), None));
    assert_eq!(
        got,
        vec![ContentIr::Link {
            description: "Click".to_string(),
            url: "http://x.com".to_string(),
            link_type: LinkType::Regular,
        }]
    );
}

#[test]
fn exclamation_youtube_is_embed() {
    let got = children(execute("![youtube](http://yt.com/e/1)".to_string(), here(), flat(), None));
    assert_eq!(
        got,
        vec![ContentIr::Link {
            description: "youtube".to_string(),
            url: "http://yt.com/e/1".to_string(),
            link_type: LinkType::Youtube,
        }]
    );
}

#[test]
fn star_lines_become_unordered_list() {
    let got = children(execute("* a\n* b\n".to_string(), here(), grouped(), None));
    assert_eq!(
        got,
        vec![ContentIr::UnorderedList {
            items: vec![
                ContentIr::Div { contents: vec![text("a")] },
                ContentIr::Div { contents: vec![text("b")] },
            ]
        }]
    );
}

#[test]
fn directives_are_extracted_in_order() {
    let got = children(execute(
        "!!title T\n!!keywords a b\n!!series s\n!!summary S\nbody\n".to_string(),
        here(),
        flat(),
        None,
    ));
    assert_eq!(
        got,
        vec![
            ContentIr::Metadata(Metadata::DisplayTitle("T".to_string())),
            ContentIr::Metadata(Metadata::Keywords(vec!["a".to_string(), "b".to_string()])),
            ContentIr::Metadata(Metadata::Series(vec!["s".to_string()])),
            ContentIr::Metadata(Metadata::Summary("S".to_string())),
            text("body"),
        ]
    );
}

#[test]
fn mask_none_is_the_fresh_mask() {
    let fresh = Validations {
        skip_code_block: false,
        skip_header: false,
        skip_inline_code: false,
        skip_link: false,
        skip_list: false,
        skip_metadata_display_title: false,
        skip_metadata_keywords: false,
        skip_metadata_series: false,
        skip_metadata_summary: false,
        validate_paragraph_len: true,
    };
    let a = execute("x `y` [z](w)\n".to_string(), here(), grouped(), None);
    let b = execute("x `y` [z](w)\n".to_string(), here(), grouped(), Some(fresh));
    assert_eq!(a, b);
}
