use nocobase_desktop::text::{
    contains, decimal, join_words, last_occurrence, same_text, starts_with, to_chars, trim,
    white_space,
};

#[test]
fn white_space_agrees_with_unicode() {
    for n in 0..=0x10ffffu32 {
        if let Some(c) = char::from_u32(n) {
            assert_eq!(white_space(c), c.is_whitespace(), "U+{:04X}", n);
        }
    }
}

#[test]
fn trim_removes_white_space_at_both_ends_only() {
    assert_eq!(trim("  a b \n"), "a b");
    assert_eq!(trim("\u{3000}\u{85}地址\u{2028}"), "地址");
    assert_eq!(trim(" \t\r\n"), "");
    assert_eq!(trim(""), "");
    assert_eq!(trim("x"), "x");
    assert_eq!(trim(trim("  x ")), trim("  x "));
}

#[test]
fn searches_find_what_is_there() {
    assert!(starts_with("abc", "ab"));
    assert!(starts_with("abc", ""));
    assert!(!starts_with("abc", "b"));
    assert!(!starts_with("ab", "abc"));
    assert!(contains("xxabxx", "ab"));
    assert!(contains("", ""));
    assert!(!contains("xaxbx", "ab"));
    assert_eq!(last_occurrence("abab", "ab"), Some(2));
    assert_eq!(last_occurrence("aaa", "aa"), Some(1));
    assert_eq!(last_occurrence("abc", ""), Some(3));
    assert_eq!(last_occurrence("地址ab", "ab"), Some(2));
    assert_eq!(last_occurrence("abc", "d"), None);
}

#[test]
fn decimal_writes_every_port_as_the_standard_library_does() {
    for n in 0..=u16::MAX {
        assert_eq!(decimal(n), n.to_string());
    }
}

#[test]
fn words_are_joined_with_gaps_between() {
    let words = |list: &[&str]| list.iter().map(|w| w.to_string()).collect::<Vec<String>>();
    assert_eq!(join_words(&words(&[]), " "), "");
    assert_eq!(join_words(&words(&["install"]), " "), "install");
    assert_eq!(join_words(&words(&["pm", "enable", "x"]), " "), "pm enable x");
    assert_eq!(join_words(&words(&["", ""]), ", "), ", ");
}

#[test]
fn texts_are_compared_by_their_characters() {
    assert!(same_text("main", "main"));
    assert!(!same_text("main", "Main"));
    assert_eq!(to_chars("a地"), vec!['a', '地']);
}
