use wordle_cli::filters::{
    ends_with, filter_by_incorrect_words, filter_by_letter, find_with_pattern,
    find_with_static_letters, fits, includes_letters, join_all, pooled_letters, starts_with,
};

fn words(list: &[&str]) -> Vec<String> {
    list.iter().map(|w| w.to_string()).collect()
}

#[test]
fn starts_with_keeps_matching_first_letter() {
    let r = starts_with(&words(&["cat", "dog", "cow"]), "c");
    assert_eq!(r, words(&["cat", "cow"]));
}

#[test]
fn starts_with_accepts_longer_prefix() {
    let r = starts_with(&words(&["crane", "cramp", "cough"]), "cra");
    assert_eq!(r, words(&["crane", "cramp"]));
}

#[test]
fn ends_with_keeps_matching_suffix() {
    let r = ends_with(&words(&["cat", "dog", "hot", "cow"]), "t");
    assert_eq!(r, words(&["cat", "hot"]));
}

#[test]
fn filter_by_letter_keeps_words_holding_letter() {
    let r = filter_by_letter(&words(&["cat", "cow", "top"]), "t");
    assert_eq!(r, words(&["cat", "top"]));
}

#[test]
fn includes_letters_keeps_words_with_all() {
    let r = includes_letters(&words(&["cat", "art", "top"]), &words(&["a", "t"]));
    assert_eq!(r, words(&["cat", "art"]));
}

#[test]
fn includes_letters_with_no_letters_keeps_all() {
    let input = words(&["cat", "art", "top"]);
    assert_eq!(includes_letters(&input, &vec![]), input);
}

#[test]
fn incorrect_words_pool_letters() {
    let r = filter_by_incorrect_words(&words(&["cat", "dog", "egg"]), &words(&["abc"]));
    assert_eq!(r, words(&["dog", "egg"]));
}

#[test]
fn incorrect_words_trim_tokens() {
    let r = filter_by_incorrect_words(&words(&["a b", "cd", "xy"]), &words(&[" x ", "d"]));
    assert_eq!(r, words(&["a b"]));
}

#[test]
fn pooled_letters_are_distinct() {
    let mut r = pooled_letters(&words(&["abca", " b "]));
    r.sort();
    assert_eq!(r, vec!['a', 'b', 'c']);
}

#[test]
fn static_letters_join_then_search() {
    let r = find_with_static_letters(&words(&["crane", "ocean", "cramp"]), &words(&["r", "a"]));
    assert_eq!(r, words(&["crane", "cramp"]));
}

#[test]
fn join_all_concatenates() {
    assert_eq!(join_all(&words(&["ab", "", "c"])), "abc");
}

#[test]
fn pattern_with_wildcard() {
    let r = find_with_pattern(&words(&["cat", "cut", "cot", "dot"]), &words(&["c", "_", "t"]));
    assert_eq!(r, words(&["cat", "cut", "cot"]));
}

#[test]
fn pattern_rejects_word_shorter_than_pattern() {
    let r = find_with_pattern(&words(&["cat", "cats"]), &words(&["c", "a", "t", "_", "_"]));
    assert!(r.is_empty());
    assert!(!fits("cat", &vec!['c', 'a', 't', '_', '_']));
}

#[test]
fn pattern_rejects_word_longer_than_pattern() {
    assert!(!fits("cats", &vec!['c', 'a', 't']));
    assert!(fits("cats", &vec!['c', '_', 't', 's']));
}

#[test]
fn empty_list_gives_empty_result() {
    let empty: Vec<String> = vec![];
    assert!(starts_with(&empty, "c").is_empty());
    assert!(ends_with(&empty, "c").is_empty());
    assert!(filter_by_letter(&empty, "c").is_empty());
    assert!(includes_letters(&empty, &words(&["c"])).is_empty());
    assert!(filter_by_incorrect_words(&empty, &words(&["c"])).is_empty());
    assert!(find_with_static_letters(&empty, &words(&["c"])).is_empty());
    assert!(find_with_pattern(&empty, &words(&["c"])).is_empty());
}

#[test]
fn filters_are_case_sensitive() {
    let r = starts_with(&words(&["Cat", "cat"]), "c");
    assert_eq!(r, words(&["cat"]));
}

#[test]
fn filtering_twice_changes_nothing() {
    let input = words(&["crane", "cramp", "ocean", "cat"]);
    let once = starts_with(&input, "c");
    assert_eq!(starts_with(&once, "c"), once);
    let once = filter_by_incorrect_words(&input, &words(&["ne"]));
    assert_eq!(filter_by_incorrect_words(&once, &words(&["ne"])), once);
}

#[test]
fn duplicates_are_kept_in_order() {
    let r = filter_by_letter(&words(&["cat", "dog", "cat"]), "a");
    assert_eq!(r, words(&["cat", "cat"]));
}
