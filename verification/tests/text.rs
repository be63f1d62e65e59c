use socket_server::text::{clone_strings, contains_str, str_eq};

#[test]
fn str_eq_compares_contents() {
    assert!(str_eq("", ""));
    assert!(str_eq("abc", "abc"));
    assert!(!str_eq("abc", "abd"));
    assert!(!str_eq("abc", "ab"));
    assert!(!str_eq("ab", "abc"));
    assert!(!str_eq("", "a"));
    assert!(!str_eq("abc", "ABC"));
    assert!(str_eq("\u{e9}t\u{e9}", "\u{e9}t\u{e9}"));
    assert!(!str_eq("\u{e9}", "e\u{301}"));
    let owned = String::from("ping");
    assert!(str_eq(&owned, "ping"));
}

#[test]
fn contains_str_finds_whole_strings() {
    let strings = vec!["a".to_string(), "bc".to_string(), "".to_string()];
    assert!(contains_str(&strings, "a"));
    assert!(contains_str(&strings, "bc"));
    assert!(contains_str(&strings, ""));
    assert!(!contains_str(&strings, "b"));
    assert!(!contains_str(&strings, "abc"));
    assert!(!contains_str(&Vec::new(), ""));
}

#[test]
fn clone_strings_copies_in_order() {
    let strings = vec!["x".to_string(), "".to_string(), "x".to_string(), "\u{2603}".to_string()];
    assert_eq!(clone_strings(&strings), strings);
    assert!(clone_strings(&Vec::new()).is_empty());
}
