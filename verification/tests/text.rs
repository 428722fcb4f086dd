use tiered_log::log::usize_digits;
use tiered_log::text::{
    after_prefix, chars_of, find_char, is_whitespace, lowered_chars, push_decimal, push_padded,
    push_spaces, range_is, same_text, same_text_ignoring_case, split_lines, text_of, to_lower,
    trim_bounds,
};

#[test]
fn white_space_is_what_the_standard_library_calls_so() {
    for code in 0u32..=0x10FFFF {
        if let Some(c) = char::from_u32(code) {
            assert_eq!(is_whitespace(c), c.is_whitespace(), "U+{:04X}", code);
        }
    }
}

#[test]
fn lower_case_is_the_ascii_lower_case() {
    for code in 0u32..=0x10FFFF {
        if let Some(c) = char::from_u32(code) {
            assert_eq!(to_lower(c), c.to_ascii_lowercase(), "U+{:04X}", code);
        }
    }
    assert_eq!(to_lower('A'), 'a');
    assert_eq!(to_lower('Z'), 'z');
    assert_eq!(to_lower('@'), '@');
    assert_eq!(to_lower('['), '[');
}

#[test]
fn characters_are_copied_in_order() {
    assert_eq!(chars_of("a\u{e9}z"), vec!['a', '\u{e9}', 'z']);
    assert_eq!(chars_of(""), Vec::<char>::new());
    assert_eq!(lowered_chars("AbC\u{c9}"), vec!['a', 'b', 'c', '\u{c9}']);
}

#[test]
fn first_occurrence_is_found_within_the_range() {
    let v = chars_of("a,b,c");
    assert_eq!(find_char(&v, 0, 5, ','), 1);
    assert_eq!(find_char(&v, 2, 5, ','), 3);
    assert_eq!(find_char(&v, 4, 5, ','), 5);
    assert_eq!(find_char(&v, 0, 1, ','), 1);
    assert_eq!(find_char(&v, 2, 2, ','), 2);
}

#[test]
fn trimming_narrows_to_the_inner_text() {
    let v = chars_of("  a b \t");
    assert_eq!(trim_bounds(&v, 0, v.len()), (2, 5));
    assert_eq!(text_of(&v, 2, 5), "a b");
    let blank = chars_of(" \n ");
    let (a, b) = trim_bounds(&blank, 0, blank.len());
    assert_eq!(a, b);
    let none = chars_of("ab");
    assert_eq!(trim_bounds(&none, 0, 2), (0, 2));
}

#[test]
fn ranges_are_compared_with_words() {
    let v = chars_of("xwarny");
    assert!(range_is(&v, 1, 5, "warn"));
    assert!(!range_is(&v, 1, 4, "warn"));
    assert!(!range_is(&v, 0, 5, "warn"));
    assert!(!range_is(&v, 1, 5, "warm"));
    assert!(range_is(&v, 3, 3, ""));
}

#[test]
fn texts_are_compared_exactly_or_without_case() {
    assert!(same_text("never", "never"));
    assert!(!same_text("never", "Never"));
    assert!(!same_text("never", "neve"));
    assert!(!same_text("neve", "never"));
    assert!(same_text("", ""));
    assert!(same_text_ignoring_case("FALSE", "false"));
    assert!(same_text_ignoring_case("FaLsE", "fAlSe"));
    assert!(!same_text_ignoring_case("fals", "false"));
    assert!(!same_text_ignoring_case("\u{c9}", "\u{e9}"));
}

#[test]
fn prefix_is_taken_off() {
    assert_eq!(after_prefix("--colour=always", "--colour="), Some("always"));
    assert_eq!(after_prefix("-c=", "-c="), Some(""));
    assert_eq!(after_prefix("-c", "-c="), None);
    assert_eq!(after_prefix("--color=x", "--colour="), None);
    assert_eq!(after_prefix("\u{e9}=\u{e8}", "\u{e9}="), Some("\u{e8}"));
}

#[test]
fn digits_are_counted() {
    assert_eq!(usize_digits(0), 1);
    assert_eq!(usize_digits(9), 1);
    assert_eq!(usize_digits(10), 2);
    assert_eq!(usize_digits(99), 2);
    assert_eq!(usize_digits(100), 3);
    assert_eq!(usize_digits(4_294_967_295), 10);
    assert_eq!(usize_digits(usize::MAX), usize::MAX.to_string().len());
}

#[test]
fn numbers_and_padding_are_appended() {
    let mut out = String::from("x");
    push_decimal(&mut out, 0);
    push_decimal(&mut out, 7);
    push_decimal(&mut out, 120);
    push_decimal(&mut out, 4_294_967_295);
    assert_eq!(out, "x071204294967295");
    let mut padded = String::new();
    push_padded(&mut padded, "ab", 4);
    push_padded(&mut padded, "cdef", 2);
    push_padded(&mut padded, "\u{e9}", 2);
    push_spaces(&mut padded, 3);
    push_spaces(&mut padded, 0);
    assert_eq!(padded, "ab  cdef\u{e9}    ");
}

#[test]
fn lines_are_what_the_standard_library_gives() {
    let texts = [
        "",
        "one",
        "one\n",
        "one\ntwo",
        "one\r\ntwo\r\n",
        "one\rtwo\r",
        "\n",
        "\n\n",
        "\r\n",
        "\r",
        "a\n\r\nb\r\r\nc\n\r",
        "\u{e9}\n\u{e8}",
    ];
    for text in texts {
        let expected: Vec<String> = text.lines().map(String::from).collect();
        assert_eq!(split_lines(text), expected, "{:?}", text);
    }
    assert_eq!(split_lines("one\r\ntwo\r"), vec![String::from("one"), String::from("two\r")]);
    assert_eq!(split_lines("\n\n"), vec![String::new(), String::new()]);
    assert_eq!(split_lines(""), Vec::<String>::new());
}
