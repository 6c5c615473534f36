use blog_gen::config::Config;
use blog_gen::console::pretty_print_loc;
use blog_gen::crawler::{classify, kind_for, File, FileKind};
use blog_gen::env_args::{config_path, context_of, Command};
use blog_gen::order::text_le_exec;
use blog_gen::outcome::{append_diagnostics, push_diagnostic, Item, Location, Res};
use blog_gen::parser::md::parse_contents::content_ir::ContentIr;
use blog_gen::parser::{css, execute, img, Contents, IntermediateRepresentation};
use blog_gen::text::{
    find_from_exec, index_of_exec, join_exec, last_segment_exec, push_decimal, replace_all,
    split_lines_exec, string_of, string_of_range, tokens_exec, trim_range,
};
use blog_gen::{Context, Directory, Links};

fn chars(s: &str) -> Vec<char> {
    s.chars().collect()
}

fn context() -> Context {
    context_of(
        Config::example_config(),
        Directory("in".to_string()),
        Directory("out".to_string()),
    )
}

fn loc() -> Location {
    Location { column: 7, file: "f.md".to_string(), line: 12, path: "in/f.md".to_string() }
}

#[test]
fn place_is_named_by_path_line_and_column() {
    assert_eq!(pretty_print_loc(Some(loc())), " at path 'in/f.md', ln 12, col 7");
    assert_eq!(pretty_print_loc(None), "");
    assert_eq!(Location::nowhere(), Location { column: 0, file: "".into(), line: 0, path: "".into() });
}

#[test]
fn files_are_filed_by_extension() {
    let file = |kind: FileKind, name: &str| {
        Some(Res::Success(Item {
            item: File { kind, path: format!("in/{}", name), file_name: name.to_string() },
            location: None,
        }))
    };
    let go = |name: &str, ext: &str| classify(name.to_string(), format!("in/{}", name), ext);
    assert_eq!(go("a.PNG", "PNG"), file(FileKind::Img, "a.PNG"));
    assert_eq!(go("a.gif", "gif"), file(FileKind::Img, "a.gif"));
    assert_eq!(go("a.Md", "Md"), file(FileKind::Md, "a.Md"));
    assert_eq!(go("a.css", "css"), file(FileKind::Css, "a.css"));
    assert_eq!(go("config.json", "json"), None);
    assert_eq!(
        go("a.TXT", "TXT"),
        Some(Res::Error {
            location: Some(Location {
                column: 0,
                file: "a.TXT".to_string(),
                line: 0,
                path: "in/a.TXT".to_string()
            }),
            msg: "Unhandled file type 'TXT'!".to_string()
        })
    );
}

#[test]
fn command_line_is_read() {
    let args = |a: &[&str]| a.iter().map(|s| s.to_string()).collect::<Vec<String>>();
    assert_eq!(Command::parse(args(&["HeLp"])), Ok(Command::Help));
    assert_eq!(Command::parse(args(&["help", "x"])), Ok(Command::Help));
    assert_eq!(
        Command::parse(args(&["in"])),
        Err("Unable to parse output directory!".to_string())
    );
    assert_eq!(
        Command::parse(args(&["In", "Out", "more"])),
        Ok(Command::Generate {
            input: Directory("In".to_string()),
            output: Directory("Out".to_string())
        })
    );
}

#[test]
fn context_has_the_site_links() {
    let c = context();
    assert_eq!(
        c.links,
        Links {
            about_me_link: "about_me.html".to_string(),
            catalog_link: "catalog.html".to_string(),
            index_link: "index.html".to_string(),
            projects_link: "projects.html".to_string(),
        }
    );
    assert_eq!(c.input.to_string(), "in");
    assert_eq!(c.output, Directory::from("out".to_string()));
    assert_eq!(c.config, Config::example_config());
}

#[test]
fn configuration_is_found_in_the_input_directory() {
    assert_eq!(config_path(&Directory("site".to_string())), "site/config.json");
    assert_eq!(config_path(&Directory("site/".to_string())), "site/config.json");
    assert_eq!(config_path(&Directory("".to_string())), "/config.json");
}

#[test]
fn style_sheet_gets_the_colors_of_the_theme() {
    let text = "a{color:_ACCENT_RED;b:_TXT_L_PRIMARY;c:_TXT_L_SECONDARY;d:_TXT_D_PRIMARY;e:_TXT_D_SECONDARY;f:_FILL_L_PRIMARY;g:_FILL_L_SECONDARY;h:_FILL_D_PRIMARY;i:_FILL_D_SECONDARY;j:_ACCENT_GREEN;k:_ACCENT_BLUE;l:_ACCENT_RED}";
    let got = css::parse(text.to_string(), loc(), &context());
    let expected = "a{color:rgba(204,0,0,255);b:rgba(3,3,3,255);c:rgba(96,96,96,255);d:rgba(255,255,255,255);e:rgba(162,162,162,255);f:rgba(255,255,255,255);g:rgba(224,224,224,255);h:rgba(37,37,37,255);i:rgba(0,0,0,255);j:rgba(104,159,57,255);k:rgba(30,71,246,255);l:rgba(204,0,0,255)}";
    assert_eq!(
        got,
        Res::Success(Item {
            item: IntermediateRepresentation::Css(css::Css {
                contents: expected.as_bytes().to_vec(),
                file_name: "f.md".to_string()
            }),
            location: Some(loc())
        })
    );
}

#[test]
fn image_passes_through() {
    assert_eq!(
        img::parse(vec![0, 255, 7], loc()),
        Res::Success(Item {
            item: IntermediateRepresentation::Img(img::Img {
                contents: vec![0, 255, 7],
                file_name: "f.md".to_string()
            }),
            location: Some(loc())
        })
    );
}

#[test]
fn files_go_to_the_parser_of_their_kind() {
    let file = |kind: FileKind, name: &str| Item {
        item: File { kind, path: format!("in/{}", name), file_name: name.to_string() },
        location: None,
    };
    let at = |name: &str| Location {
        column: 0,
        file: name.to_string(),
        line: 0,
        path: format!("in/{}", name),
    };
    assert_eq!(
        execute(&file(FileKind::Img, "p.png"), Contents::Bytes(vec![1]), &context()),
        img::parse(vec![1], at("p.png"))
    );
    assert_eq!(
        execute(&file(FileKind::Css, "m.css"), Contents::Text("x".to_string()), &context()),
        css::parse("x".to_string(), at("m.css"), &context())
    );
    let md = execute(
        &file(FileKind::Md, "bad.md"),
        Contents::Text("!!title t\n".to_string()),
        &context(),
    );
    assert_eq!(
        md,
        Res::Error {
            location: Some(at("bad.md")),
            msg: "Invalid year. Expected: YYYY.MM.DD_AlphaNumericTitle.md".to_string()
        }
    );
    assert_eq!(
        execute(&file(FileKind::Md, "2020.01.01_a.md"), Contents::Bytes(vec![]), &context()),
        Res::Error {
            location: Some(at("2020.01.01_a.md")),
            msg: "The contents were not read as the kind of the file asks!".to_string()
        }
    );
    assert!(matches!(
        execute(&file(FileKind::Img, "p.png"), Contents::Text("t".to_string()), &context()),
        Res::Error { .. }
    ));
    assert!(matches!(
        execute(&file(FileKind::Css, "m.css"), Contents::Bytes(vec![]), &context()),
        Res::Error { .. }
    ));
}

#[test]
fn outcomes_are_built_from_their_diagnostics() {
    let item = || Item { item: 5u8, location: Some(loc()) };
    assert_eq!(Res::from_diagnostics(item(), vec![]), Res::Success(item()));
    assert_eq!(
        Res::from_diagnostics(item(), vec![("w".to_string(), None)]),
        Res::Warn { item: item(), msg: "w".to_string() }
    );
    let two = vec![("a".to_string(), None), ("b".to_string(), Some(loc()))];
    assert_eq!(
        Res::from_diagnostics(item(), two.clone()),
        Res::Warnings { item: item(), msgs: two.clone() }
    );
    assert_eq!(Res::Success(item()).into_parts(), Ok((item(), vec![])));
    assert_eq!(
        Res::Warn { item: item(), msg: "w".to_string() }.into_parts(),
        Ok((item(), vec![("w".to_string(), Some(loc()))]))
    );
    assert_eq!(
        Res::Warnings { item: item(), msgs: two.clone() }.into_parts(),
        Ok((item(), two.clone()))
    );
    assert_eq!(
        Res::<u8>::Error { location: None, msg: "e".to_string() }.into_parts(),
        Err((None, "e".to_string()))
    );
    let mut msgs = vec![];
    push_diagnostic(&mut msgs, "x".to_string(), None);
    append_diagnostics(&mut msgs, two);
    assert_eq!(msgs.len(), 3);
    assert_eq!(msgs[0].0, "x");
    assert_eq!(msgs[2].1, Some(loc()));
}

#[test]
fn copies_are_equal() {
    let node = ContentIr::Card(vec![
        ContentIr::Text { text: "t".to_string() },
        ContentIr::Navigation { links: context().links, next: None, previous: None },
    ]);
    assert_eq!(node.copy(), node);
    assert_eq!(node.clone(), node);
    assert_eq!(loc().copy(), loc());
}

#[test]
fn text_utilities() {
    assert_eq!(find_from_exec(&chars("abcabc"), &chars("bc"), 0), Some(1));
    assert_eq!(find_from_exec(&chars("abcabc"), &chars("bc"), 2), Some(4));
    assert_eq!(find_from_exec(&chars("abcabc"), &chars("bc"), 5), None);
    assert_eq!(find_from_exec(&chars("abc"), &chars(""), 3), Some(3));
    assert_eq!(find_from_exec(&chars("abc"), &chars("abcd"), 0), None);
    assert_eq!(index_of_exec(&chars("a\u{e9}b"), 'b', 0), Some(2));
    assert_eq!(index_of_exec(&chars("ab"), 'a', 1), None);
    assert_eq!(trim_range(&chars(" \t a b \u{a0}\n"), 0, 9), (3, 6));
    assert_eq!(trim_range(&chars("   "), 0, 3), (3, 3));
    assert_eq!(trim_range(&chars("ab"), 0, 2), (0, 2));
    assert_eq!(tokens_exec(&chars(" a  b\tc\n"), 0, 8), vec!["a", "b", "c"]);
    assert_eq!(tokens_exec(&chars("a\u{a0}b"), 0, 3), vec!["a\u{a0}b"]);
    assert_eq!(tokens_exec(&chars(""), 0, 0), Vec::<String>::new());
    assert_eq!(
        split_lines_exec(&chars("a\n\nb\n")),
        vec![chars("a"), chars(""), chars("b"), chars("")]
    );
    assert_eq!(split_lines_exec(&chars("")), vec![chars("")]);
    assert_eq!(last_segment_exec(&chars("a/b/c.png"), '/'), chars("c.png"));
    assert_eq!(last_segment_exec(&chars("a/"), '/'), chars(""));
    assert_eq!(last_segment_exec(&chars("abc"), '/'), chars("abc"));
    assert_eq!(string_of(&chars("h\u{e9}")), "h\u{e9}");
    assert_eq!(string_of_range(&chars("hello"), 1, 3), "el");
    assert_eq!(join_exec(&vec!["a".to_string(), "b".to_string()], ", "), "a, b");
    assert_eq!(join_exec(&vec![], ", "), "");
    assert_eq!(replace_all("aXXbXXX", "XX", "y"), "aybyX");
    assert_eq!(replace_all("abc", "", "y"), "abc");
    assert_eq!(replace_all("aaa", "a", "aa"), "aaaaaa");
    let mut s = String::new();
    push_decimal(&mut s, 0);
    push_decimal(&mut s, 7);
    push_decimal(&mut s, 10);
    push_decimal(&mut s, 4096);
    assert_eq!(s, "07104096");
}

#[test]
fn order_of_texts() {
    let le = |a: &str, b: &str| text_le_exec(&chars(a), &chars(b));
    assert!(le("", ""));
    assert!(le("", "a"));
    assert!(!le("a", ""));
    assert!(le("abc", "abd"));
    assert!(!le("abd", "abc"));
    assert!(le("ab", "abc"));
    assert!(!le("abc", "ab"));
    assert!(le("Z", "a"));
    assert!(le("2020", "2020"));
}

#[test]
fn kinds_of_extensions() {
    assert_eq!(kind_for("gif"), Some(FileKind::Img));
    assert_eq!(kind_for("png"), Some(FileKind::Img));
    assert_eq!(kind_for("md"), Some(FileKind::Md));
    assert_eq!(kind_for("css"), Some(FileKind::Css));
    assert_eq!(kind_for("PNG"), None);
    assert_eq!(kind_for(""), None);
    assert_eq!(kind_for("mdx"), None);
}
