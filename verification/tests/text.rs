use padprobe::text::{
    chars_of, contains, contains_chars, hex_char, hex_string, matches_at, starts_with,
    string_from_chars,
};

#[test]
fn substring_search_finds_every_position() {
    assert!(contains("AxisChanged(LeftStickX)", "LeftStick"));
    assert!(contains("abc", ""));
    assert!(contains("abc", "abc"));
    assert!(!contains("abc", "abcd"));
    assert!(!contains("abc", "cb"));
    assert!(contains("aaab", "aab"));
}

#[test]
fn prefixes_are_checked_character_by_character() {
    assert!(starts_with("ButtonPressed(South)", "Button"));
    assert!(!starts_with("AxisChanged", "Button"));
    assert!(starts_with("Axis", ""));
    assert!(!starts_with("Ax", "Axis"));
}

#[test]
fn characters_round_trip() {
    let chars = chars_of("Menü ✓");
    assert_eq!(chars, vec!['M', 'e', 'n', 'ü', ' ', '✓']);
    assert_eq!(string_from_chars(&chars), "Menü ✓");
}

#[test]
fn character_matching_at_a_position() {
    let text = chars_of("rumble test");
    let needle = chars_of("test");

    assert!(matches_at(&text, &needle, 7));
    assert!(!matches_at(&text, &needle, 6));
    assert!(contains_chars(&text, &needle));
    assert!(!contains_chars(&needle, &text));
}

#[test]
fn hex_digits_and_bytes() {
    assert_eq!(hex_char(0), '0');
    assert_eq!(hex_char(9), '9');
    assert_eq!(hex_char(10), 'a');
    assert_eq!(hex_char(15), 'f');
    assert_eq!(hex_string(&[0x00, 0x7f, 0xa5, 0xff]), "007fa5ff");
    assert_eq!(hex_string(&[]), "");
}
