use rustfmt_user_config_db::text::{contains_char, has_suffix, push_decimal, same_text};
use rustfmt_user_config_db::vectors::reversed;

#[test]
fn suffix_is_found_only_at_the_end() {
    assert!(has_suffix("a.git", ".git"));
    assert!(has_suffix(".git", ".git"));
    assert!(has_suffix("anything", ""));
    assert!(has_suffix("", ""));
    assert!(!has_suffix("git", ".git"));
    assert!(!has_suffix(".git.", ".git"));
    assert!(!has_suffix("a.gix", ".git"));
    assert!(has_suffix("caf\u{e9}.git", ".git"));
    assert!(has_suffix("x\u{e9}", "\u{e9}"));
}

#[test]
fn character_is_found_anywhere() {
    assert!(contains_char("a/b", '/'));
    assert!(contains_char("/", '/'));
    assert!(contains_char("ab/", '/'));
    assert!(!contains_char("ab", '/'));
    assert!(!contains_char("", '/'));
    assert!(contains_char("\u{e9}/", '/'));
}

#[test]
fn texts_are_compared_character_by_character() {
    assert!(same_text("", ""));
    assert!(same_text("abc", "abc"));
    assert!(!same_text("abc", "abd"));
    assert!(!same_text("abc", "ab"));
    assert!(!same_text("ab", "abc"));
    assert!(same_text("\u{e9}t\u{e9}", "\u{e9}t\u{e9}"));
}

#[test]
fn decimal_numerals_have_no_leading_zeros() {
    for (n, expected) in [
        (0u128, "0"),
        (7, "7"),
        (10, "10"),
        (99, "99"),
        (100, "100"),
        (65535, "65535"),
        (18446744073709551615, "18446744073709551615"),
        (u128::MAX, "340282366920938463463374607431768211455"),
    ] {
        let mut out = String::from("n=");
        push_decimal(&mut out, n);
        assert_eq!(out, format!("n={expected}"));
    }
}

#[test]
fn reversed_turns_the_order_round() {
    assert_eq!(reversed(vec![1, 2, 3]), vec![3, 2, 1]);
    assert_eq!(reversed(Vec::<u8>::new()), Vec::<u8>::new());
    assert_eq!(reversed(vec!["a".to_string()]), vec!["a".to_string()]);
}
