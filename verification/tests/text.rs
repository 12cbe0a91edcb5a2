use fungi_transport::text::{
    append_decimal, chars_of, is_hex, parse_u16, same_text, split_last_colon, split_words,
    starts_as_flag, white_space, ParseU16Error,
};

#[test]
fn decimals_are_those_of_the_standard_library() {
    for n in [
        0u64, 1, 9, 10, 11, 99, 100, 101, 65535, 65536, 1_048_576, 4_294_967_295, u64::MAX,
    ] {
        let mut out = String::from("n=");
        append_decimal(&mut out, n);
        assert_eq!(out, format!("n={n}"));
    }
}

#[test]
fn u16_parsing_agrees_with_the_standard_library() {
    let texts = [
        "", "+", "-", "0", "00", "+0", "-0", "7", "9735", "65535", "65536", "70000", "99999x",
        "65536x", "6553x6", "x65536", "1 ", " 1", "+-1", "++1", "1+", "12_3", "0x10", "notaport",
        "0000000000000000065535", "0000000000000000065536", "99999999999999999999", "\u{661}",
        "1\u{661}", "12\u{e9}", "+65536", "+65535", "-1",
    ];
    for text in texts {
        let parsed = parse_u16(text);
        match text.parse::<u16>() {
            Ok(number) => assert_eq!(parsed, Ok(number), "{text:?}"),
            Err(error) => assert_eq!(
                parsed.map_err(|e| e.to_string()),
                Err(error.to_string()),
                "{text:?}"
            ),
        }
    }
}

#[test]
fn u16_parsing_names_the_fault() {
    assert_eq!(parse_u16(""), Err(ParseU16Error::Empty));
    assert_eq!(parse_u16("1a"), Err(ParseU16Error::InvalidDigit));
    assert_eq!(parse_u16("65536"), Err(ParseU16Error::TooLarge));
    assert_eq!(
        ParseU16Error::Empty.to_string(),
        "cannot parse integer from empty string"
    );
    assert_eq!(
        ParseU16Error::InvalidDigit.to_string(),
        "invalid digit found in string"
    );
    assert_eq!(
        ParseU16Error::TooLarge.to_string(),
        "number too large to fit in target type"
    );
}

#[test]
fn white_space_is_that_of_unicode() {
    for code in 0..=0x10ffffu32 {
        if let Some(c) = char::from_u32(code) {
            assert_eq!(white_space(c), c.is_whitespace(), "{code:x}");
        }
    }
}

#[test]
fn hex_digits_are_those_of_ascii() {
    for code in 0..0x300u32 {
        if let Some(c) = char::from_u32(code) {
            assert_eq!(is_hex(&String::from(c)), c.is_ascii_hexdigit(), "{code:x}");
        }
    }
    assert!(is_hex(""));
    assert!(is_hex("09afAF"));
    assert!(!is_hex("09afAG"));
}

#[test]
fn words_are_split_as_by_the_standard_library() {
    for line in [
        "", " ", "a", " a", "a ", "a b", "\ta\u{a0}b\r", "  one   two\u{2003}three  ", "#x y",
        "caf\u{e9} \u{3000}au\u{85}lait",
    ] {
        let expected: Vec<String> = line.split_whitespace().map(String::from).collect();
        assert_eq!(split_words(line), expected, "{line:?}");
    }
}

#[test]
fn last_colon_splits_as_by_the_standard_library() {
    for text in ["", ":", "a", "a:", ":b", "a:b", "a:b:c", "\u{e9}:\u{e9}", "::"] {
        assert_eq!(split_last_colon(text), text.rsplit_once(':'), "{text:?}");
    }
}

#[test]
fn flags_start_with_two_hyphens() {
    for text in ["", "-", "--", "--x", "-x", "x--", "x"] {
        assert_eq!(starts_as_flag(text), text.starts_with("--"), "{text:?}");
    }
}

#[test]
fn texts_compare_by_characters() {
    assert!(same_text("", ""));
    assert!(same_text("ab", "ab"));
    assert!(!same_text("ab", "ba"));
    assert!(!same_text("ab", "a"));
    assert_eq!(chars_of("a\u{1f344}b"), vec!['a', '\u{1f344}', 'b']);
}
