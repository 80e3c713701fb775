use wordle_cli::text::{
    chars_of, contains_str, has_prefix, has_suffix, same_text, string_of, trim_end_string,
    trimmed_chars,
};

#[test]
fn chars_and_strings() {
    assert_eq!(chars_of("añb"), vec!['a', 'ñ', 'b']);
    assert_eq!(string_of(&['x', 'é']), "xé");
    assert_eq!(string_of(&[]), "");
}

#[test]
fn substring_search() {
    assert!(contains_str("crane", "ran"));
    assert!(contains_str("crane", ""));
    assert!(!contains_str("crane", "rn"));
    assert!(!contains_str("ab", "abc"));
}

#[test]
fn prefixes_and_suffixes() {
    assert!(has_prefix("crane", "cr"));
    assert!(!has_prefix("crane", "ra"));
    assert!(has_suffix("crane", "ne"));
    assert!(!has_suffix("ne", "crane"));
}

#[test]
fn trimming_white_space() {
    assert_eq!(trimmed_chars(" \tab c\u{3000}"), vec!['a', 'b', ' ', 'c']);
    assert!(trimmed_chars("   ").is_empty());
    assert_eq!(trim_end_string(" ab \n"), " ab");
}

#[test]
fn text_equality() {
    assert!(same_text("help", "help"));
    assert!(!same_text("help", "hel"));
    assert!(!same_text("help", "kelp"));
}
