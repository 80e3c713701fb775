use wordle_cli::session::{
    parse_command, parse_lang, query_words, split_by, split_chars, split_line, Actions, Command,
    Langs, Session, Source, WordleCLI,
};

fn words(list: &[&str]) -> Vec<String> {
    list.iter().map(|w| w.to_string()).collect()
}

#[test]
fn new_splits_comma_arguments() {
    let cli = WordleCLI::new(Actions::Contains, &"a,t".to_string(), &Langs::En);
    assert_eq!(cli.clean_input, words(&["a", "t"]));
    assert_eq!(cli.action, Actions::Contains);
    assert_eq!(*cli.lang, Langs::En);
}

#[test]
fn new_splits_pattern_into_characters() {
    let cli = WordleCLI::new(Actions::Pattern, &"c_t".to_string(), &Langs::Es);
    assert_eq!(cli.clean_input, words(&["c", "_", "t"]));
}

#[test]
fn new_keeps_single_argument_whole() {
    let cli = WordleCLI::new(Actions::FirstLetter, &"a,b".to_string(), &Langs::En);
    assert_eq!(cli.clean_input, words(&["a,b"]));
}

#[test]
fn clean_raw_input_keeps_empty_pieces() {
    let r = WordleCLI::clean_raw_input(&Actions::IncorrectWords, ",ab,".to_string());
    assert_eq!(r, words(&["", "ab", ""]));
    let r = WordleCLI::clean_raw_input(&Actions::Pattern, String::new());
    assert!(r.is_empty());
}

#[test]
fn split_helpers() {
    assert_eq!(split_by("", ','), words(&[""]));
    assert_eq!(split_by("a b", ' '), words(&["a", "b"]));
    assert_eq!(split_chars("añb"), words(&["a", "ñ", "b"]));
}

#[test]
fn query_words_starts_with() {
    let cli = WordleCLI::new(Actions::FirstLetter, &"c".to_string(), &Langs::En);
    let r = query_words(&cli, &words(&["cat", "dog", "cow"]));
    assert_eq!(r, words(&["cat", "cow"]));
}

#[test]
fn query_words_contains_all() {
    let cli = WordleCLI::new(Actions::Contains, &"a,t".to_string(), &Langs::En);
    let r = query_words(&cli, &words(&["cat", "art", "top"]));
    assert_eq!(r, words(&["cat", "art"]));
}

#[test]
fn query_words_excludes_all() {
    let cli = WordleCLI::new(Actions::IncorrectWords, &"abc".to_string(), &Langs::En);
    let r = query_words(&cli, &words(&["cat", "dog", "egg"]));
    assert_eq!(r, words(&["dog", "egg"]));
}

#[test]
fn query_words_pattern() {
    let cli = WordleCLI::new(Actions::Pattern, &"c_t".to_string(), &Langs::En);
    let r = query_words(&cli, &words(&["cat", "cut", "cot", "dot"]));
    assert_eq!(r, words(&["cat", "cut", "cot"]));
}

#[test]
fn query_words_pattern_rejects_shorter_word() {
    let cli = WordleCLI::new(Actions::Pattern, &"ca___".to_string(), &Langs::En);
    let r = query_words(&cli, &words(&["cat", "cater"]));
    assert_eq!(r, words(&["cater"]));
}

#[test]
fn query_words_static_letters_and_last_letter() {
    let cli = WordleCLI::new(Actions::StaticLetters, &"ra".to_string(), &Langs::En);
    assert_eq!(query_words(&cli, &words(&["crane", "ocean"])), words(&["crane"]));
    let cli = WordleCLI::new(Actions::LastLetter, &"n".to_string(), &Langs::En);
    assert_eq!(query_words(&cli, &words(&["crane", "ocean"])), words(&["ocean"]));
}

#[test]
fn no_action_gives_sentinel() {
    let cli = WordleCLI::new(Actions::NoAction, &" :( ".to_string(), &Langs::En);
    assert_eq!(query_words(&cli, &words(&["cat"])), words(&["no action required"]));
    assert_eq!(query_words(&cli, &vec![]), words(&["no action required"]));
}

#[test]
fn sequential_narrowing() {
    let input = words(&["cat", "cow", "top"]);
    let first = WordleCLI::new(Actions::FirstLetter, &"c".to_string(), &Langs::En);
    let second = WordleCLI::new(Actions::Contain, &"t".to_string(), &Langs::En);
    let r = query_words(&second, &query_words(&first, &input));
    assert_eq!(r, words(&["cat"]));
    let combined: Vec<String> = input
        .iter()
        .filter(|w| w.starts_with('c') && w.contains('t'))
        .cloned()
        .collect();
    assert_eq!(r, combined);
}

#[test]
fn session_narrows_turn_by_turn() {
    let mut session = Session::new(Langs::En, false);
    assert_eq!(session.source(), Source::Fetch);
    let first = WordleCLI::new(Actions::FirstLetter, &"c".to_string(), &Langs::En);
    session.take_turn(&first, &words(&["cat", "cow", "top"]));
    assert_eq!(session.candidates, words(&["cat", "cow"]));
    assert_eq!(session.source(), Source::Candidates);
    let second = WordleCLI::new(Actions::Contain, &"t".to_string(), &Langs::En);
    session.take_turn(&second, &words(&["ignored"]));
    assert_eq!(session.candidates, words(&["cat"]));
}

#[test]
fn session_reads_local_file_once() {
    let mut session = Session::new(Langs::Es, true);
    assert_eq!(session.source(), Source::ReadLocal);
    let first = WordleCLI::new(Actions::Contain, &"a".to_string(), &Langs::Es);
    session.take_turn(&first, &words(&["casa", "perro"]));
    assert_eq!(session.source(), Source::Candidates);
    assert_eq!(session.candidates, words(&["casa"]));
}

#[test]
fn commands_are_recognised() {
    assert_eq!(parse_command("help"), Command::Help);
    assert_eq!(parse_command("save"), Command::Save);
    assert_eq!(parse_command("read"), Command::Read);
    assert_eq!(parse_command("firstLetter"), Command::Filter(Actions::FirstLetter));
    assert_eq!(parse_command("lastLetter"), Command::Filter(Actions::LastLetter));
    assert_eq!(parse_command("contains"), Command::Filter(Actions::Contains));
    assert_eq!(parse_command("contain"), Command::Filter(Actions::Contain));
    assert_eq!(parse_command("incorrectWords"), Command::Filter(Actions::IncorrectWords));
    assert_eq!(parse_command("pattern"), Command::Filter(Actions::Pattern));
    assert_eq!(parse_command("staticLetters"), Command::Filter(Actions::StaticLetters));
    assert_eq!(parse_command("Pattern"), Command::Filter(Actions::NoAction));
}

#[test]
fn languages_are_recognised() {
    assert_eq!(parse_lang("es"), Langs::Es);
    assert_eq!(parse_lang("en"), Langs::En);
    assert_eq!(parse_lang("fr"), Langs::En);
}

#[test]
fn command_lines_split_at_spaces() {
    let (c, a) = split_line("contains a,b \t\n").unwrap();
    assert_eq!(c, "contains");
    assert_eq!(a, "a,b");
    let (c, a) = split_line("pattern c_t extra").unwrap();
    assert_eq!(c, "pattern");
    assert_eq!(a, "c_t");
    assert!(split_line("help\n").is_none());
}

#[test]
fn action_descriptions() {
    assert_eq!(Actions::Pattern.describe(), "Check word with pattern <_rom_>");
    assert_eq!(Actions::NoAction.describe(), "No Action required");
}
