use soban::utils::words::first_word_bytes;

fn by_the_standard_library(text: &str) -> &str {
    text.split_whitespace().next().unwrap_or("")
}

#[test]
fn first_word_stands_between_white_space() {
    assert_eq!(first_word_bytes("peppy"), b"peppy");
    assert_eq!(first_word_bytes("white cat"), b"white");
    assert_eq!(first_word_bytes("  white  cat  "), b"white");
    assert_eq!(first_word_bytes("\t\n\r\u{b}\u{c}x\ty"), b"x");
    assert_eq!(first_word_bytes("12\u{a0}34"), b"12");
    assert_eq!(
        first_word_bytes("\u{3000}\u{2003}\u{e9}t\u{e9}\u{2028}x"),
        "\u{e9}t\u{e9}".as_bytes()
    );
}

#[test]
fn text_without_a_word_has_an_empty_first_word() {
    assert_eq!(first_word_bytes(""), b"");
    assert_eq!(first_word_bytes(" "), b"");
    assert_eq!(first_word_bytes(" \t \u{85}\u{1680} "), b"");
}

#[test]
fn what_only_looks_like_white_space_belongs_to_the_word() {
    // U+200B, U+180E and U+FEFF are no white space; U+00C2 and U+2080 share bytes with some.
    for text in ["a\u{200b}b c", "a\u{180e}b", "\u{feff}a b", "\u{c2}\u{a1} x", "7\u{2080} x"] {
        assert_eq!(first_word_bytes(text), by_the_standard_library(text).as_bytes(), "{text:?}");
    }
}

#[test]
fn first_word_is_what_the_standard_library_splits_off() {
    for code in 0..=0x10ffffu32 {
        let Some(c) = char::from_u32(code) else {
            continue;
        };
        let text = format!("{c}ab{c}cd{c}");
        assert_eq!(first_word_bytes(&text), by_the_standard_library(&text).as_bytes(), "{text:?}");
    }
}
