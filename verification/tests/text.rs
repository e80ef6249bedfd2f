use rss_chat::text::{
    chars_of, contains_text, ends_with_text, is_whitespace, range_equals, same_text,
    skip_whitespace_from, skip_word_from, string_of, string_of_range, trim_end_from, trim_range,
};

#[test]
fn whitespace_is_the_unicode_property() {
    for c in ['\t', '\n', '\u{b}', '\u{c}', '\r', ' ', '\u{85}', '\u{a0}', '\u{1680}', '\u{2000}',
        '\u{200a}', '\u{2028}', '\u{2029}', '\u{202f}', '\u{205f}', '\u{3000}']
    {
        assert!(is_whitespace(c));
    }
    for c in ['a', '0', '%', '\u{8}', '\u{e}', '\u{200b}', '\u{feff}', '\u{1f}', '\u{180e}'] {
        assert!(!is_whitespace(c));
    }
}

#[test]
fn whitespace_agrees_with_the_standard_library() {
    let mut n: u32 = 0;
    while n <= 0x3100 {
        if let Some(c) = char::from_u32(n) {
            assert_eq!(is_whitespace(c), c.is_whitespace());
        }
        n += 1;
    }
}

#[test]
fn characters_round_trip() {
    let v = chars_of("h\u{e9}llo");
    assert_eq!(v, vec!['h', '\u{e9}', 'l', 'l', 'o']);
    assert_eq!(string_of(&v), "h\u{e9}llo");
    assert_eq!(string_of_range(&v, 1, 3), "\u{e9}l");
    assert_eq!(string_of_range(&v, 2, 2), "");
    assert_eq!(chars_of(""), Vec::<char>::new());
}

#[test]
fn scanning_finds_word_boundaries() {
    let v = chars_of("  ab  cd");
    assert_eq!(skip_whitespace_from(&v, 0), 2);
    assert_eq!(skip_whitespace_from(&v, 2), 2);
    assert_eq!(skip_word_from(&v, 2), 4);
    assert_eq!(skip_whitespace_from(&v, 4), 6);
    assert_eq!(skip_word_from(&v, 6), 8);
    assert_eq!(skip_whitespace_from(&v, 8), 8);
    assert_eq!(skip_word_from(&v, 8), 8);
}

#[test]
fn trimming_cuts_both_ends() {
    let v = chars_of(" \t ab c \n");
    assert_eq!(trim_range(&v), (3, 7));
    assert_eq!(trim_end_from(&v, 0, 9), 7);
    assert_eq!(trim_end_from(&v, 0, 3), 0);
    let blank = chars_of("   ");
    assert_eq!(trim_range(&blank), (3, 3));
}

#[test]
fn ranges_are_compared_by_character() {
    let v = chars_of("%help me");
    assert!(range_equals(&v, 1, 5, &chars_of("help")));
    assert!(!range_equals(&v, 1, 5, &chars_of("hell")));
    assert!(!range_equals(&v, 1, 4, &chars_of("help")));
    assert!(range_equals(&v, 3, 3, &chars_of("")));
}

#[test]
fn texts_are_compared_by_character() {
    assert!(same_text("", ""));
    assert!(same_text("<Heartbeat>", "<Heartbeat>"));
    assert!(!same_text("<Heartbeat>", "<Heartbeat"));
    assert!(!same_text("abc", "abd"));
    assert!(!same_text("", "a"));
}

#[test]
fn runs_and_endings_are_found() {
    let v = chars_of("the sysadmin (bot)");
    assert!(contains_text(&v, &chars_of("admin")));
    assert!(contains_text(&v, &chars_of("")));
    assert!(contains_text(&v, &chars_of("the")));
    assert!(contains_text(&v, &chars_of("(bot)")));
    assert!(!contains_text(&v, &chars_of("system")));
    assert!(!contains_text(&chars_of("ab"), &chars_of("abc")));
    assert!(ends_with_text(&v, &chars_of("(bot)")));
    assert!(ends_with_text(&v, &chars_of("")));
    assert!(!ends_with_text(&v, &chars_of("the")));
    assert!(!ends_with_text(&chars_of("ot)"), &chars_of("(bot)")));
}
