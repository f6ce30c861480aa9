use sendfiles::text::{decimal_text, same_text, text_contains, trim_text};

#[test]
fn numerals_are_decimal() {
    assert_eq!(decimal_text(0), "0");
    assert_eq!(decimal_text(9), "9");
    assert_eq!(decimal_text(10), "10");
    assert_eq!(decimal_text(1_234_567_890), "1234567890");
    assert_eq!(decimal_text(u128::MAX), u128::MAX.to_string());
}

#[test]
fn texts_are_compared_by_their_characters() {
    assert!(same_text("Unknown", "Unknown"));
    assert!(!same_text("Unknown", "unknown"));
    assert!(same_text("", ""));
}

#[test]
fn parts_are_found_as_substrings() {
    let texts = ["", "a", "b", "ab", "aab", "abab", "\u{e4}b", "b\u{e4}b", "Unknown", "x:::Unknown"];
    for text in texts {
        for part in texts {
            assert_eq!(text_contains(text, part), text.contains(part));
        }
    }
    assert!(text_contains("AAAA:::Phone", "A:::P"));
    assert!(!text_contains("AAAA", "AAAAA"));
}

#[test]
fn white_space_is_trimmed_at_both_ends() {
    for text in ["", " ", "\n\t ", "a", " a", "a ", " a b ", "\u{3000}a\u{200b}", "\u{a0}\u{e4}\r\n"] {
        assert_eq!(trim_text(text), text.trim());
    }
}
