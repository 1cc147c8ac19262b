use rsearch::paths::file_extension;
use rsearch::text::{chars_contain, str_contains, str_eq, string_from_chars, to_chars};
use std::path::Path;

#[test]
fn extension_follows_the_final_dot() {
    assert_eq!(file_extension("a.txt"), Some("txt".to_string()));
    assert_eq!(file_extension("a.b.c"), Some("c".to_string()));
    assert_eq!(file_extension("a."), Some("".to_string()));
    assert_eq!(file_extension("a"), None);
    assert_eq!(file_extension(".profile"), None);
    assert_eq!(file_extension(".profile.bak"), Some("bak".to_string()));
    assert_eq!(file_extension(""), None);
}

#[test]
fn extension_agrees_with_std_on_file_names() {
    for name in ["a.txt", "a.b.c", "a.", "a", ".profile", ".a.b", "x.TAR.GZ", "é.ü", "..a"] {
        let expected = Path::new(name).extension().map(|e| e.to_string_lossy().into_owned());
        assert_eq!(file_extension(name), expected, "for {:?}", name);
    }
}

#[test]
fn substring_search() {
    assert!(str_contains("report_2024.txt", "report"));
    assert!(str_contains("report_2024.txt", ".txt"));
    assert!(str_contains("report", "report"));
    assert!(str_contains("report", ""));
    assert!(str_contains("", ""));
    assert!(!str_contains("", "a"));
    assert!(!str_contains("repor", "report"));
    assert!(!str_contains("Report", "report"));
    assert!(str_contains("aaab", "aab"));
    assert!(str_contains("héllo wörld", "o wö"));
    assert!(chars_contain(&to_chars("abc"), &to_chars("bc")));
}

#[test]
fn text_equality_and_slices() {
    assert!(str_eq("abc", "abc"));
    assert!(!str_eq("abc", "abd"));
    assert!(!str_eq("abc", "ab"));
    assert!(str_eq("", ""));
    let chars = to_chars("héllo");
    assert_eq!(chars, vec!['h', 'é', 'l', 'l', 'o']);
    assert_eq!(string_from_chars(&chars, 1, 4), "éll");
    assert_eq!(string_from_chars(&chars, 2, 2), "");
}
