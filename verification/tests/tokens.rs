use rsearch::engine::extractor::tokens::{count_word, cut, TextTokensDistribution};

fn lines(text: &[&str]) -> Vec<String> {
    text.iter().map(|l| l.to_string()).collect()
}

#[test]
fn tokens_are_cut_at_separators_and_short_ones_dropped() {
    let tokens = TextTokensDistribution::get_tokens("alpha, be gamma-delta  x", 3);
    assert_eq!(tokens, vec!["alpha", "gamma", "delta"]);
}

#[test]
fn token_length_counts_bytes() {
    // "éé" has two characters and four bytes.
    let tokens = TextTokensDistribution::get_tokens("éé ab", 3);
    assert_eq!(tokens, vec!["éé"]);
}

#[test]
fn minimum_length_zero_keeps_empty_pieces() {
    let tokens = TextTokensDistribution::get_tokens("a,,b", 0);
    assert_eq!(tokens, vec!["a", "", "b"]);
}

#[test]
fn words_are_counted_in_lowercase() {
    let mut d = TextTokensDistribution::default();
    d.add_word("Alpha");
    d.add_word("ALPHA");
    d.add_word("beta");
    assert_eq!(d.top_n(10), vec![("alpha".to_string(), 2), ("beta".to_string(), 1)]);
}

#[test]
fn single_text_file_summary() {
    let d = TextTokensDistribution::from_buffer(&lines(&["alpha beta alpha gamma"]), 3);
    let summary = d.export_string_nth(500);
    let words: Vec<&str> = summary.split(' ').collect();
    assert_eq!(words.len(), 3);
    assert_eq!(words[0], "alpha");
    assert!(words.contains(&"beta"));
    assert!(words.contains(&"gamma"));
    // Ties keep the order in which the words were first seen.
    assert_eq!(summary, "alpha beta gamma");
}

#[test]
fn ranking_is_by_descending_count_with_stable_ties() {
    let d = TextTokensDistribution::from_buffer(
        &lines(&["one two two three three three", "four four four five"]),
        3,
    );
    assert_eq!(
        d.top_n(10),
        vec![
            ("three".to_string(), 3),
            ("four".to_string(), 3),
            ("two".to_string(), 2),
            ("one".to_string(), 1),
            ("five".to_string(), 1),
        ]
    );
    assert_eq!(d.top_n(2), vec![("three".to_string(), 3), ("four".to_string(), 3)]);
    assert_eq!(d.top_n(0), vec![]);
}

#[test]
fn same_input_gives_same_ranking() {
    let text = lines(&["b a c a b a", "c d"]);
    let first = TextTokensDistribution::from_buffer(&text, 1).top_n(3);
    let second = TextTokensDistribution::from_buffer(&text, 1).top_n(3);
    assert_eq!(first, second);
}

#[test]
fn shorter_export_is_prefix_of_longer() {
    let d = TextTokensDistribution::from_buffer(&lines(&["red green green blue blue blue"]), 3);
    for k in 0..5 {
        let shorter = d.export_string_nth(k);
        let longer = d.export_string_nth(k + 1);
        assert!(longer.starts_with(&shorter));
    }
    assert_eq!(d.export_string_nth(1), "blue");
    assert_eq!(d.export_string_nth(2), "blue green");
    assert_eq!(d.export_string(), "blue green red");
}

#[test]
fn summary_words_are_unique_lowercase_and_bounded() {
    let d = TextTokensDistribution::from_buffer(&lines(&["Foo foo FOO Bar baz BAZ qux"]), 3);
    let summary = d.export_string_nth(3);
    let words: Vec<&str> = summary.split(' ').collect();
    assert_eq!(words, vec!["foo", "baz", "bar"]);
    assert!(words.iter().all(|w| *w == w.to_lowercase()));
}

#[test]
fn empty_input_gives_empty_summary() {
    let d = TextTokensDistribution::from_buffer(&lines(&[]), 3);
    assert_eq!(d.export_string(), "");
    assert_eq!(d.top_n(5), vec![]);
}

#[test]
fn text_is_cut_where_the_marks_say() {
    let chars: Vec<char> = "ab-cd ef".chars().collect();
    let marks = vec![true, true, false, true, true, false, true, true];
    assert_eq!(cut(&chars, &marks, 2), vec!["ab", "cd", "ef"]);
    let other = vec![true, true, true, true, true, false, true, false];
    assert_eq!(cut(&chars, &other, 2), vec!["ab-cd"]);
    assert_eq!(cut(&chars, &other, 0), vec!["ab-cd", "e", ""]);
    assert_eq!(cut(&Vec::new(), &Vec::new(), 1), Vec::<String>::new());
}

#[test]
fn words_are_counted_as_they_stand() {
    let mut entries: Vec<(String, usize)> = Vec::new();
    count_word(&mut entries, "b".to_string());
    count_word(&mut entries, "a".to_string());
    count_word(&mut entries, "b".to_string());
    count_word(&mut entries, "B".to_string());
    assert_eq!(
        entries,
        vec![("b".to_string(), 2), ("a".to_string(), 1), ("B".to_string(), 1)]
    );
    let mut full = vec![("x".to_string(), usize::MAX)];
    count_word(&mut full, "x".to_string());
    assert_eq!(full, vec![("x".to_string(), usize::MAX)]);
}

#[test]
fn top_words_are_distinct() {
    let d = TextTokensDistribution::from_buffer(&lines(&["a b a c b a", "C c B"]), 1);
    let top = d.top_n(10);
    let mut words: Vec<&str> = top.iter().map(|e| e.0.as_str()).collect();
    assert_eq!(words, vec!["a", "b", "c"]);
    words.dedup();
    assert_eq!(words.len(), 3);
    assert!(top.iter().all(|e| e.1 >= 1));
}
