use rust_basics::text::{
    append_exclamation, calculate_length, first_word, get_first_char, is_whitespace_char,
    make_uppercase, second_word,
};

#[test]
fn test_calculate_length() {
    let s = String::from("hello");
    assert_eq!(calculate_length(&s), 5);
    assert_eq!(s, "hello");
}

#[test]
fn calculate_length_counts_bytes() {
    assert_eq!(calculate_length(&String::from("héllo")), 6);
    assert_eq!(calculate_length(&String::new()), 0);
}

#[test]
fn test_make_uppercase() {
    let mut s = String::from("hello world");
    make_uppercase(&mut s);
    assert_eq!(s, "HELLO WORLD");
}

#[test]
fn make_uppercase_leaves_other_characters() {
    let mut s = String::from("abc-XYZ 9 é!");
    make_uppercase(&mut s);
    assert_eq!(s, "ABC-XYZ 9 é!");
}

#[test]
fn test_first_word() {
    assert_eq!(first_word("hello world"), "hello");
    assert_eq!(first_word("rust"), "rust");
    assert_eq!(first_word("hello rust programming"), "hello");
}

#[test]
fn first_word_with_leading_space_or_empty() {
    assert_eq!(first_word(" hello"), "");
    assert_eq!(first_word(""), "");
}

#[test]
fn second_word_cases() {
    assert_eq!(second_word("hello world from rust"), Some("world"));
    assert_eq!(second_word("hello"), None);
    assert_eq!(second_word("a  b"), Some(""));
    assert_eq!(second_word("a b"), Some("b"));
}

#[test]
fn test_append_exclamation() {
    let s = String::from("hello");
    let result = append_exclamation(s);
    assert_eq!(result, "hello!");
}

#[test]
fn test_get_first_char() {
    assert_eq!(get_first_char("hello"), Some('h'));
    assert_eq!(get_first_char(""), None);
    assert_eq!(get_first_char("x"), Some('x'));
}

#[test]
fn get_first_char_of_multibyte() {
    assert_eq!(get_first_char("élan"), Some('é'));
}

#[test]
fn whitespace_agrees_with_std() {
    for u in 0u32..=0x10ffff {
        if let Some(c) = char::from_u32(u) {
            assert_eq!(is_whitespace_char(c), c.is_whitespace(), "code point {:x}", u);
        }
    }
}
