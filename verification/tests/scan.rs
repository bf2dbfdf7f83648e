use pollkeeper::scan::{read_number, read_unsigned, remove_all, space, split_words, stands_at};
use pollkeeper::text::chars_of;

#[test]
fn stands_at_finds_a_part_in_place() {
    let input = chars_of("choice_12");
    assert!(stands_at(&input, 0, "choice_"));
    assert!(stands_at(&input, 7, "12"));
    assert!(stands_at(&input, 9, ""));
    assert!(!stands_at(&input, 1, "choice_"));
    assert!(!stands_at(&input, 8, "23"));
    assert!(!stands_at(&input, 10, ""));
    assert!(!stands_at(&input, usize::MAX, "x"));
}

#[test]
fn read_number_reads_the_run_of_digits() {
    assert_eq!(read_number(&chars_of("123,"), 0), Some((123, 3)));
    assert_eq!(read_number(&chars_of("x007"), 1), Some((7, 4)));
    assert_eq!(read_number(&chars_of("18446744073709551615"), 0), Some((u64::MAX, 20)));
    assert_eq!(read_number(&chars_of("18446744073709551616"), 0), None);
    assert_eq!(read_number(&chars_of("99999999999999999999999"), 0), None);
    assert_eq!(read_number(&chars_of("abc"), 0), None);
    assert_eq!(read_number(&chars_of("12"), 2), None);
}

#[test]
fn read_unsigned_reads_as_the_standard_library_does() {
    for text in ["0", "1", "255", "256", "+7", "007", "", "+", "-1", " 1", "1 ", "1a", "++1", "٣"] {
        assert_eq!(read_unsigned(text, 255), text.parse::<u8>().ok().map(u64::from), "{text:?}");
    }
    for text in ["18446744073709551615", "18446744073709551616", "+0", "000000000000000000000001"] {
        assert_eq!(read_unsigned(text, u64::MAX), text.parse::<u64>().ok(), "{text:?}");
    }
}

#[test]
fn remove_all_removes_as_replace_does() {
    for (text, part) in [
        ("choice_5", "choice_"),
        ("choice_choice_5", "choice_"),
        ("aaa", "aa"),
        ("abcabc", "bc"),
        ("", "x"),
        ("xxx", "x"),
        ("chochoice_ice_1", "choice_"),
        ("héllo", "l"),
        ("héllo", ""),
        ("", ""),
    ] {
        assert_eq!(remove_all(text, part), text.replace(part, ""), "{text:?} {part:?}");
    }
}

#[test]
fn space_is_white_space() {
    for code in 0u32..0x3100 {
        if let Some(c) = char::from_u32(code) {
            assert_eq!(space(c), c.is_whitespace(), "{code:#x}");
        }
    }
    assert!(!space('🦀'));
}

#[test]
fn split_words_splits_as_the_standard_library_does() {
    for text in ["", "   ", "vote", " vote  -a\ttitle\nx  y ", "a\u{3000}b", "é 漢\u{a0}🦀", "x "] {
        let expected: Vec<String> = text.split_whitespace().map(str::to_string).collect();
        assert_eq!(split_words(text), expected, "{text:?}");
    }
}

#[test]
fn words_are_never_empty_and_hold_no_white_space() {
    for word in split_words(" a  bc\t\u{2003}d\n\n e ") {
        assert!(!word.is_empty());
        assert!(word.chars().all(|c| !c.is_whitespace()));
    }
}
