use bridle::order::str_le;
use bridle::profile_name::{NameError, ProfileName};
use bridle::text::{joined, contains_char, contains_name, starts_with, suffix_from};

#[test]
fn accepts_ordinary_names() {
    for name in ["default", "work", "profile-a", "A1", "my_profile", "v1.2", "x"] {
        let made = ProfileName::new(name).unwrap();
        assert_eq!(made.as_str(), name);
        assert_eq!(made.clone().as_str(), name);
    }
}

#[test]
fn rejects_empty_name() {
    assert_eq!(ProfileName::new("").unwrap_err(), NameError::Empty);
}

#[test]
fn rejects_path_separators() {
    assert_eq!(ProfileName::new("a/b").unwrap_err(), NameError::PathSeparator);
    assert_eq!(ProfileName::new("a\\b").unwrap_err(), NameError::PathSeparator);
    assert_eq!(ProfileName::new("/").unwrap_err(), NameError::PathSeparator);
    assert_eq!(ProfileName::new("../x").unwrap_err(), NameError::PathSeparator);
}

#[test]
fn rejects_parent_references() {
    assert_eq!(ProfileName::new(".").unwrap_err(), NameError::ParentReference);
    assert_eq!(ProfileName::new("..").unwrap_err(), NameError::ParentReference);
    assert_eq!(ProfileName::new("a..b").unwrap_err(), NameError::ParentReference);
    assert_eq!(ProfileName::new("..:").unwrap_err(), NameError::ParentReference);
}

#[test]
fn rejects_reserved_characters() {
    for name in ["a:b", "a*b", "a?b", "a\"b", "a<b", "a>b", "a|b", "a\0b", "a\nb", "tab\t"] {
        assert_eq!(ProfileName::new(name).unwrap_err(), NameError::ReservedCharacter);
    }
}

#[test]
fn accepts_names_beyond_ascii() {
    assert_eq!(ProfileName::new("büro").unwrap().as_str(), "büro");
    assert_eq!(ProfileName::new(".hidden").unwrap().as_str(), ".hidden");
}

#[test]
fn text_helpers() {
    assert!(starts_with("https://x", "https://"));
    assert!(starts_with("abc", ""));
    assert!(!starts_with("ab", "abc"));
    assert!(!starts_with("abd", "abc"));
    assert!(contains_char("a/b", '/'));
    assert!(!contains_char("ab", '/'));
    assert_eq!(suffix_from("héllo", 2), "llo");
    assert_eq!(suffix_from("abc", 3), "");
    assert_eq!(joined("ab", "cd"), "abcd");
    let list = vec!["x".to_string(), "y".to_string()];
    assert!(contains_name(&list, "y"));
    assert!(!contains_name(&list, "z"));
}

#[test]
fn string_order_is_lexicographic() {
    assert!(str_le("", ""));
    assert!(str_le("", "a"));
    assert!(!str_le("a", ""));
    assert!(str_le("a", "a"));
    assert!(str_le("a", "ab"));
    assert!(!str_le("ab", "a"));
    assert!(str_le("Z", "a"));
    assert!(!str_le("b", "a"));
    assert!(str_le("abc", "abd"));
    assert!(!str_le("abd", "abc"));
}
