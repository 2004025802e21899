use thttp::paths::{canonical_or_joined, join_under_root, resolve_request};
use thttp::strings::{find_char_from, str_eq, str_le};

#[test]
fn join_puts_separator_between() {
    assert_eq!(join_under_root("root", "a.txt").as_str(), "root/a.txt");
    assert_eq!(join_under_root("root", "sub/b.txt").as_str(), "root/sub/b.txt");
}

#[test]
fn join_of_empty_request_is_root() {
    assert_eq!(join_under_root("root", "").as_str(), "root");
}

#[test]
fn fallback_keeps_joined_path_on_failure() {
    let r = canonical_or_joined("root/missing.txt".to_string(), None);
    assert_eq!(r.as_str(), "root/missing.txt");
}

#[test]
fn fallback_takes_canonical_path_on_success() {
    let r = canonical_or_joined("root/a.txt".to_string(), Some("/real/root/a.txt".to_string()));
    assert_eq!(r.as_str(), "/real/root/a.txt");
}

#[test]
fn resolving_a_missing_path_keeps_it_unchanged() {
    let (p, ok) = resolve_request("surely/not/a/real/path.txt".to_string());
    assert!(!ok);
    assert_eq!(p.as_str(), "surely/not/a/real/path.txt");
}

#[test]
fn resolving_the_current_directory_canonicalizes_it() {
    let (p, ok) = resolve_request(".".to_string());
    assert!(ok);
    assert_ne!(p.as_str(), ".");
    assert!(p.starts_with('/'));
}

#[test]
fn string_order_is_lexicographic() {
    assert!(str_le("a", "b"));
    assert!(!str_le("b", "a"));
    assert!(str_le("abc", "abd"));
    assert!(str_le("", "a"));
    assert!(str_le("abc", "abc"));
    assert!(str_le("ab", "abc"));
    assert!(!str_le("abc", "ab"));
}

#[test]
fn string_equality_is_exact() {
    assert!(str_eq("abc", "abc"));
    assert!(!str_eq("abc", "abd"));
    assert!(!str_eq("abc", "ab"));
    assert!(str_eq("", ""));
}

#[test]
fn finds_first_occurrence_from_offset() {
    assert_eq!(find_char_from("a.b.c", 0, '.'), 1);
    assert_eq!(find_char_from("a.b.c", 2, '.'), 3);
    assert_eq!(find_char_from("a.b.c", 4, '.'), 5);
    assert_eq!(find_char_from("abc", 0, '.'), 3);
}
