use rsearch::engine::extractor::utils::{
    arrange, build_text_content, bytes_less, split_words, text_extract_distribution,
    text_normalize,
};

#[test]
fn normal_form_keeps_letters_digits_and_white_space() {
    assert_eq!(text_normalize("Hello, World! 42\tTimes\n"), "hello world 42\ttimes\n");
    assert_eq!(text_normalize("a-b_c.d"), "abcd");
    assert_eq!(text_normalize(""), "");
    assert_eq!(text_normalize("ÉCOLE d'été"), "école dété");
}

#[test]
fn words_are_cut_at_spaces_only() {
    assert_eq!(split_words("the cat  sat", 3), vec!["the", "cat", "sat"]);
    assert_eq!(split_words("dog\ndog\r end", 3), vec!["dogdog", "end"]);
    assert_eq!(split_words("tab\tbed ab", 3), vec!["tab\tbed"]);
    assert_eq!(split_words("a  b", 0), vec!["a", "", "b"]);
    assert_eq!(split_words("", 1), Vec::<String>::new());
}

#[test]
fn bytes_are_ordered_like_strings() {
    let samples = ["", "a", "ab", "abc", "b", "ba", "é", "z", "aa", "Z"];
    for a in samples {
        for b in samples {
            assert_eq!(bytes_less(a.as_bytes(), b.as_bytes()), a < b, "{:?} < {:?}", a, b);
        }
    }
}

#[test]
fn entries_are_arranged_by_count_and_then_by_word() {
    let entries = vec![
        ("pear".to_string(), 1),
        ("fig".to_string(), 2),
        ("apple".to_string(), 1),
        ("kiwi".to_string(), 2),
        ("date".to_string(), 3),
    ];
    let names: Vec<String> = arrange(&entries).into_iter().map(|e| e.0).collect();
    assert_eq!(names, vec!["date", "fig", "kiwi", "apple", "pear"]);
}

#[test]
fn most_frequent_words_of_a_text() {
    let words =
        text_extract_distribution("The cat, the Cat and the dog.\nDog!".to_string(), 3, 200);
    assert_eq!(words, vec!["the", "cat", "and", "dogdog"]);
    let two = text_extract_distribution("The cat, the Cat and the dog.\nDog!".to_string(), 3, 2);
    assert_eq!(two, vec!["the", "cat"]);
    let none = text_extract_distribution("a b c".to_string(), 3, 200);
    assert!(none.is_empty());
}

#[test]
fn content_is_the_words_joined_by_spaces() {
    assert_eq!(
        build_text_content("beta alpha beta gamma alpha beta".to_string(), 3, 200),
        "beta alpha gamma"
    );
    assert_eq!(build_text_content("gamma beta alpha".to_string(), 3, 200), "alpha beta gamma");
    assert_eq!(build_text_content("".to_string(), 3, 200), "");
    assert_eq!(build_text_content("one two three".to_string(), 3, 0), "");
}
