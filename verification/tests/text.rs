use hex_assistant_app::text::squeeze;

#[test]
fn squeeze_collapses_unicode_whitespace() {
    assert_eq!(squeeze("\u{3000}a\u{a0}\t b\u{2003}\u{85}"), "a b");
    assert_eq!(squeeze("a\u{200b}b"), "a\u{200b}b");
    assert_eq!(squeeze(" \u{2028} "), "");
}
