use llm_gateway::text::{
    append2, append3, contains, decimal, eq_ignore_ascii_case, integer_string, join, lines_of,
    same_text, strip_prefix,
};

#[test]
fn lines_are_those_of_std() {
    for text in ["", "a", "a\n", "a\r\nb", "\n\n", "a\r", "\r\n", "a\r\r\nb\n\nc\u{e9}"] {
        let expected: Vec<String> = text.lines().map(|l| l.to_string()).collect();
        assert_eq!(lines_of(text), expected);
    }
}

#[test]
fn numbers_are_those_of_std() {
    for n in [0u64, 7, 10, 99, 100, 8080, u64::MAX] {
        assert_eq!(decimal(n), n.to_string());
    }
    for i in [0i64, -1, 42, i64::MIN, i64::MAX] {
        assert_eq!(integer_string(i), i.to_string());
    }
}

#[test]
fn texts_are_compared_by_characters() {
    assert!(same_text("\u{e9}a", "\u{e9}a"));
    assert!(!same_text("a", "ab"));
    assert!(!same_text("a", "b"));
    assert!(eq_ignore_ascii_case("LoAdEd", "loaded"));
    assert!(!eq_ignore_ascii_case("\u{c9}", "\u{e9}"));
    assert!(!eq_ignore_ascii_case("loaded", "unloaded"));
}

#[test]
fn parts_are_found_and_cut() {
    assert!(contains("model is already up", "already"));
    assert!(contains("x", ""));
    assert!(!contains("alread", "already"));
    assert_eq!(strip_prefix("data: x", "data: "), Some("x"));
    assert_eq!(strip_prefix("data:x", "data: "), None);
    assert_eq!(join(&vec!["a".to_string(), "".to_string(), "b".to_string()], ", "), "a, , b");
    assert_eq!(join(&Vec::new(), ", "), "");
    assert_eq!(append2("a", "b"), "ab");
    assert_eq!(append3("a", "", "c"), "ac");
}
