use ht::text::{chars_of, decimal, join, same_text, string_of, word_at};

#[test]
fn decimal_numbers() {
    assert_eq!(decimal(0), "0");
    assert_eq!(decimal(7), "7");
    assert_eq!(decimal(10), "10");
    assert_eq!(decimal(65535), "65535");
    assert_eq!(decimal(1000000), "1000000");
    assert_eq!(decimal(usize::MAX), usize::MAX.to_string());
}

#[test]
fn characters_and_back() {
    assert_eq!(chars_of("h\u{e9}\u{65e5}"), vec!['h', '\u{e9}', '\u{65e5}']);
    assert_eq!(chars_of(""), Vec::<char>::new());
    assert_eq!(string_of(&vec!['h', '\u{e9}']), "h\u{e9}");
    assert_eq!(string_of(&vec![]), "");
}

#[test]
fn words_at_positions() {
    let chars = chars_of("C-Left");
    assert!(word_at(&chars, 2, "Left"));
    assert!(word_at(&chars, 0, "C-Left"));
    assert!(word_at(&chars, 6, ""));
    assert!(!word_at(&chars, 2, "Lef"));
    assert!(!word_at(&chars, 2, "Left "));
    assert!(!word_at(&chars, 1, "Left"));
    assert!(same_text("abc", "abc"));
    assert!(!same_text("abc", "abd"));
    assert!(!same_text("abc", "ab"));
    assert!(same_text("", ""));
}

#[test]
fn joined_text() {
    assert_eq!(join(&vec!["a".to_string(), "b".to_string(), "c".to_string()], '\n'), "a\nb\nc");
    assert_eq!(join(&vec!["a".to_string()], ','), "a");
    assert_eq!(join(&vec![], ','), "");
    assert_eq!(join(&vec!["".to_string(), "".to_string()], ','), ",");
}
