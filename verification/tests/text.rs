use itmr_dragonfable_launcher::text::{
    characters, cut, cut_leading, find_from, has_suffix, occurs, same_text, strip_prefix, trim,
    white_space,
};

#[test]
fn white_space_is_that_of_unicode() {
    for c in '\0'..=char::MAX {
        assert_eq!(white_space(c), c.is_whitespace(), "{:?}", c);
    }
}

#[test]
fn texts_are_trimmed_and_stripped() {
    for text in ["", " ", " a b\t", "\u{3000}x\u{2009}", "vvv", "xvx"] {
        assert_eq!(trim(text), text.trim());
        assert_eq!(cut_leading(text, 'v'), text.trim_start_matches('v'));
        assert_eq!(strip_prefix(text, "x"), text.strip_prefix("x"));
        assert_eq!(strip_prefix(text, ""), Some(text));
        assert_eq!(characters(text), text.chars().collect::<Vec<char>>());
    }
    assert_eq!(strip_prefix("é", "éé"), None);
}

#[test]
fn patterns_are_found_where_they_first_stand() {
    let bytes = b"abcabc";
    assert_eq!(find_from(bytes, b"bc", 0), Some(1));
    assert_eq!(find_from(bytes, b"bc", 2), Some(4));
    assert_eq!(find_from(bytes, b"bc", 5), None);
    assert_eq!(find_from(bytes, b"", 6), Some(6));
    assert_eq!(find_from(bytes, b"", 7), None);
    assert!(occurs(bytes, b"cab", 2));
    assert!(!occurs(bytes, b"cab", 4));
    assert!(has_suffix(bytes, b"abc"));
    assert!(!has_suffix(b"c", b"bc"));
    assert!(same_text("a", "a"));
    assert!(!same_text("a", "ab"));
    assert_eq!(cut("aéb", 1, 3), "é");
}
