use mail_merge::chars::{decimal, to_chars, to_text};

#[test]
fn chars_and_text_are_inverse() {
    for text in ["", "a", "hello world", "é{ü}日本語", "\n\t\"\\"] {
        let chars = to_chars(text);
        assert_eq!(chars, text.chars().collect::<Vec<char>>());
        assert_eq!(to_text(&chars), text);
    }
}

#[test]
fn decimal_writes_numbers() {
    assert_eq!(decimal(0), "0");
    assert_eq!(decimal(7), "7");
    assert_eq!(decimal(10), "10");
    assert_eq!(decimal(109), "109");
    assert_eq!(decimal(65535), "65535");
    assert_eq!(decimal(usize::MAX), usize::MAX.to_string());
}

#[test]
fn decimal_agrees_with_std() {
    for n in 0..2000usize {
        assert_eq!(decimal(n), n.to_string());
    }
}
