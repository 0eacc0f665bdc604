use hoarder::text::{
    chars_of, digit, find_last, is_digit, is_whitespace, matches_at, push_decimal,
    push_zero_padded, string_of, to_ascii_lower, trim,
};

#[test]
fn whitespace_is_the_unicode_property() {
    for code in 0u32..=0x10FFFF {
        if let Some(c) = char::from_u32(code) {
            assert_eq!(is_whitespace(c), c.is_whitespace(), "U+{:04X}", code);
        }
    }
}

#[test]
fn ascii_lower_agrees_with_std() {
    for code in 0u32..=0x10FFFF {
        if let Some(c) = char::from_u32(code) {
            assert_eq!(to_ascii_lower(c), c.to_ascii_lowercase());
            assert_eq!(is_digit(c), c.is_ascii_digit());
        }
    }
}

#[test]
fn digits_are_numerals() {
    assert_eq!(digit(0), '0');
    assert_eq!(digit(7), '7');
    assert_eq!(digit(9), '9');
}

#[test]
fn decimal_numerals() {
    for n in [0u64, 1, 9, 10, 11, 99, 100, 101, 12345, 9999999999, u64::MAX] {
        let mut out = Vec::new();
        push_decimal(&mut out, n);
        assert_eq!(string_of(&out), format!("{}", n));
    }
}

#[test]
fn zero_padding_follows_the_width() {
    for n in [0u64, 1, 9, 10, 99, 100, 12345] {
        for width in [0usize, 1, 2, 4, 7] {
            let mut out = vec!['x'];
            push_zero_padded(&mut out, n, width);
            assert_eq!(string_of(&out), format!("x{:0w$}", n, w = width));
        }
    }
}

#[test]
fn chars_and_strings_round_trip() {
    let text = "naïve ☃ file.txt";
    assert_eq!(string_of(&chars_of(text)), text);
    assert_eq!(chars_of("").len(), 0);
}

#[test]
fn last_dot_is_found() {
    assert_eq!(find_last(&chars_of("a.b.c"), '.'), Some(3));
    assert_eq!(find_last(&chars_of(".abc"), '.'), Some(0));
    assert_eq!(find_last(&chars_of("abc"), '.'), None);
    assert_eq!(find_last(&chars_of(""), '.'), None);
}

#[test]
fn pattern_matching_at_an_index() {
    let s = chars_of("x1080p");
    assert!(matches_at(&s, 1, "1080p"));
    assert!(!matches_at(&s, 0, "1080p"));
    assert!(!matches_at(&s, 2, "1080p"));
    assert!(matches_at(&s, 6, ""));
    assert!(!matches_at(&s, 5, "pp"));
}

#[test]
fn trim_agrees_with_std() {
    for text in ["", " ", "  key  ", "key\n", "\t\u{a0}a b\u{3000}", "no-space", " \r\n"] {
        assert_eq!(trim(text), text.trim());
    }
}
