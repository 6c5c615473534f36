use blog_gen::text::to_chars;

#[test]
fn to_chars_keeps_every_character() {
    assert_eq!(to_chars("a\u{e9}b"), vec!['a', '\u{e9}', 'b']);
}
