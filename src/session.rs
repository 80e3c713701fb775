//! Commands and their arguments, and the dispatch of one command onto the
//! candidate list.
use vstd::prelude::*;
use crate::filters::{
    all_pred, avoids_pred, contains_pred, ends_with, filter_by_incorrect_words, filter_by_letter,
    find_with_pattern, find_with_static_letters, includes_letters, pattern_pred, starts_pred,
    starts_with,
};
use crate::text::{chars_of, same_text, string_of, trim_end, trim_end_string};

verus! {

/// The filter that a command asks for.
#[derive(PartialEq, Eq, Structural, Clone, Copy, Debug)]
pub enum Actions {
    FirstLetter,
    LastLetter,
    Contains,
    Contain,
    IncorrectWords,
    StaticLetters,
    Pattern,
    NoAction,
}

/// The usage line of each action.
pub open spec fn action_text(action: Actions) -> Seq<char> {
    match action {
        Actions::LastLetter => "Last letter <a>"@,
        Actions::IncorrectWords => "Incorrect Words <house,dogs>"@,
        Actions::FirstLetter => "First letter <a>"@,
        Actions::Contains => "Contains letters <a,b,c>"@,
        Actions::Contain => "Contain letter <a>"@,
        Actions::StaticLetters => "Contain Static Letters <amb>"@,
        Actions::Pattern => "Check word with pattern <_rom_>"@,
        Actions::NoAction => "No Action required"@,
    }
}

impl Actions {
    /// The usage line of the action.
    pub fn describe(&self) -> (r: String)
        ensures
            r@ == action_text(*self),
    {
        match self {
            Actions::LastLetter => String::from_str("Last letter <a>"),
            Actions::IncorrectWords => String::from_str("Incorrect Words <house,dogs>"),
            Actions::FirstLetter => String::from_str("First letter <a>"),
            Actions::Contains => String::from_str("Contains letters <a,b,c>"),
            Actions::Contain => String::from_str("Contain letter <a>"),
            Actions::StaticLetters => String::from_str("Contain Static Letters <amb>"),
            Actions::Pattern => String::from_str("Check word with pattern <_rom_>"),
            Actions::NoAction => String::from_str("No Action required"),
        }
    }
}

/// The language whose word list is filtered.
#[derive(PartialEq, Eq, Structural, Clone, Copy, Debug)]
pub enum Langs {
    Es,
    En,
}

/// The pieces of `s` between occurrences of `sep`; `s` without `sep` is one
/// piece, and the empty string gives one empty piece.
pub open spec fn split_on(s: Seq<char>, sep: char) -> Seq<Seq<char>>
    decreases s.len(),
{
    if s.len() == 0 {
        seq![Seq::empty()]
    } else {
        let r = split_on(s.drop_last(), sep);
        if s.last() == sep {
            r.push(Seq::empty())
        } else {
            r.update(r.len() - 1, r.last().push(s.last()))
        }
    }
}

/// Each character of `s` as a string of its own.
pub open spec fn singletons(s: Seq<char>) -> Seq<Seq<char>> {
    s.map_values(|c: char| seq![c])
}

/// The arguments that `action` takes from the raw input `raw`.
pub open spec fn clean_spec(action: Actions, raw: Seq<char>) -> Seq<Seq<char>> {
    match action {
        Actions::Contains | Actions::IncorrectWords => split_on(raw, ','),
        Actions::Pattern => singletons(raw),
        _ => seq![raw],
    }
}

/// Splitting never gives an empty list of pieces.
proof fn lemma_split_nonempty(s: Seq<char>, sep: char)
    ensures
        split_on(s, sep).len() >= 1,
    decreases s.len(),
{
    if s.len() > 0 {
        lemma_split_nonempty(s.drop_last(), sep);
    }
}

/// The pieces of `s` between occurrences of `sep`.
pub fn split_by(s: &str, sep: char) -> (r: Vec<String>)
    ensures
        r.deep_view() == split_on(s@, sep),
{
    let cs = chars_of(s);
    let mut pieces: Vec<String> = Vec::new();
    let mut cur: Vec<char> = Vec::new();
    let mut i: usize = 0;
    assert(cs@.subrange(0, 0) =~= Seq::<char>::empty());
    assert(pieces.deep_view().push(cur@) =~= seq![Seq::<char>::empty()]);
    while i < cs.len()
        invariant
            i <= cs@.len(),
            pieces.deep_view().push(cur@) == split_on(cs@.subrange(0, i as int), sep),
        decreases cs@.len() - i,
    {
        let ghost prev = cs@.subrange(0, i as int);
        assert(cs@.subrange(0, i + 1).drop_last() =~= prev);
        proof {
            lemma_split_nonempty(prev, sep);
        }
        if cs[i] == sep {
            let piece = string_of(cur.as_slice());
            let ghost before = pieces.deep_view();
            pieces.push(piece);
            assert(pieces.deep_view() =~= before.push(piece@));
            cur = Vec::new();
            assert(pieces.deep_view().push(cur@) =~= before.push(piece@).push(Seq::empty()));
        } else {
            let ghost before = cur@;
            cur.push(cs[i]);
            assert(pieces.deep_view().push(cur@) =~= pieces.deep_view().push(before).update(
                pieces.deep_view().len() as int,
                before.push(cs@[i as int]),
            ));
        }
        i += 1;
    }
    assert(cs@.subrange(0, cs@.len() as int) =~= cs@);
    let last = string_of(cur.as_slice());
    let ghost before = pieces.deep_view();
    pieces.push(last);
    assert(pieces.deep_view() =~= before.push(cur@));
    pieces
}

/// Each character of `s` as a string of its own.
pub fn split_chars(s: &str) -> (r: Vec<String>)
    ensures
        r.deep_view() == singletons(s@),
{
    let cs = chars_of(s);
    let mut values: Vec<String> = Vec::new();
    let mut i: usize = 0;
    while i < cs.len()
        invariant
            i <= cs@.len(),
            cs@ == s@,
            values.deep_view() == singletons(cs@.subrange(0, i as int)),
        decreases cs@.len() - i,
    {
        let one = vec![cs[i]];
        let piece = string_of(one.as_slice());
        let ghost before = values.deep_view();
        values.push(piece);
        assert(piece@ =~= seq![cs@[i as int]]);
        assert(values.deep_view() =~= before.push(piece@));
        assert(singletons(cs@.subrange(0, i + 1)) =~= singletons(cs@.subrange(0, i as int)).push(
            seq![cs@[i as int]],
        ));
        i += 1;
    }
    assert(cs@.subrange(0, cs@.len() as int) =~= cs@);
    values
}

/// A command with its arguments, for one language.
pub struct WordleCLI<'l> {
    pub action: Actions,
    pub clean_input: Vec<String>,
    pub lang: &'l Langs,
}

impl<'l> WordleCLI<'l> {
    /// The arguments are as many as the action reads: every action but the
    /// pattern reads the first one.
    pub open spec fn wf(&self) -> bool {
        self.action == Actions::Pattern || self.clean_input@.len() >= 1
    }

    /// A command for `action`, with its arguments taken from `raw_input`.
    pub fn new(action: Actions, raw_input: &String, lang: &'l Langs) -> (r: Self)
        ensures
            r.wf(),
            r.action == action,
            r.lang == lang,
            r.clean_input.deep_view() == clean_spec(action, raw_input@),
    {
        let clean_input = WordleCLI::clean_raw_input(&action, raw_input.clone());
        WordleCLI { clean_input, action, lang }
    }

    /// The arguments of `action` in `raw_input`: split at commas for the
    /// actions that take several, one per character for the pattern, and the
    /// input itself for the others.
    pub fn clean_raw_input(action: &Actions, raw_input: String) -> (r: Vec<String>)
        ensures
            r.deep_view() == clean_spec(*action, raw_input@),
            *action != Actions::Pattern ==> r@.len() >= 1,
    {
        match action {
            Actions::Contains | Actions::IncorrectWords => {
                proof {
                    lemma_split_nonempty(raw_input@, ',');
                }
                split_by(raw_input.as_str(), ',')
            },
            Actions::Pattern => split_chars(raw_input.as_str()),
            _ => {
                let r = vec![raw_input];
                assert(r.deep_view() =~= seq![raw_input@]);
                r
            },
        }
    }
}

/// The text that stands in for a result when no filter was applied.
pub open spec fn sentinel() -> Seq<char> {
    "no action required"@
}

/// The words of `words` that `action` with arguments `args` keeps; the
/// no-op gives the one-element sentinel list.
pub open spec fn filtered(action: Actions, args: Seq<Seq<char>>, words: Seq<Seq<char>>) -> Seq<
    Seq<char>,
> {
    match action {
        Actions::NoAction => seq![sentinel()],
        _ => words.filter(keeps(action, args)),
    }
}

/// The predicate by which `action` with arguments `args` keeps a word.
pub open spec fn keeps(action: Actions, args: Seq<Seq<char>>) -> spec_fn(Seq<char>) -> bool {
    match action {
        Actions::FirstLetter => starts_pred(args[0]),
        Actions::LastLetter => crate::filters::ends_pred(args[0]),
        Actions::Contain => contains_pred(args[0]),
        Actions::Contains => all_pred(args),
        Actions::IncorrectWords => avoids_pred(args),
        Actions::StaticLetters => contains_pred(args.flatten()),
        Actions::Pattern => pattern_pred(args.flatten()),
        Actions::NoAction => |w: Seq<char>| true,
    }
}

/// Applies the command `input` to `word_list`.
pub fn query_words(input: &WordleCLI, word_list: &Vec<String>) -> (r: Vec<String>)
    requires
        input.wf(),
    ensures
        r.deep_view() == filtered(input.action, input.clean_input.deep_view(), word_list.deep_view()),
{
    let args = &input.clean_input;
    proof {
        if input.action != Actions::Pattern {
            assert(args.deep_view()[0] == args@[0]@);
        }
    }
    match input.action {
        Actions::FirstLetter => starts_with(word_list, args[0].as_str()),
        Actions::LastLetter => ends_with(word_list, args[0].as_str()),
        Actions::Contain => filter_by_letter(word_list, args[0].as_str()),
        Actions::Contains => includes_letters(word_list, args),
        Actions::IncorrectWords => filter_by_incorrect_words(word_list, args),
        Actions::StaticLetters => find_with_static_letters(word_list, args),
        Actions::Pattern => find_with_pattern(word_list, args),
        Actions::NoAction => {
            let r = vec![String::from_str("no action required")];
            assert(r.deep_view() =~= seq![sentinel()]);
            r
        },
    }
}

/// What a command word asks for.
#[derive(PartialEq, Eq, Structural, Clone, Copy, Debug)]
pub enum Command {
    /// List the commands, then stop.
    Help,
    /// Store the fetched word list, then stop.
    Save,
    /// Show the stored word list, then stop.
    Read,
    /// Apply a filter; `NoAction` stops the session.
    Filter(Actions),
}

/// The command that the word `token` names; an unknown word names the no-op.
pub open spec fn command_spec(token: Seq<char>) -> Command {
    if token == "help"@ {
        Command::Help
    } else if token == "save"@ {
        Command::Save
    } else if token == "read"@ {
        Command::Read
    } else if token == "firstLetter"@ {
        Command::Filter(Actions::FirstLetter)
    } else if token == "lastLetter"@ {
        Command::Filter(Actions::LastLetter)
    } else if token == "contains"@ {
        Command::Filter(Actions::Contains)
    } else if token == "contain"@ {
        Command::Filter(Actions::Contain)
    } else if token == "incorrectWords"@ {
        Command::Filter(Actions::IncorrectWords)
    } else if token == "pattern"@ {
        Command::Filter(Actions::Pattern)
    } else if token == "staticLetters"@ {
        Command::Filter(Actions::StaticLetters)
    } else {
        Command::Filter(Actions::NoAction)
    }
}

/// The command that the word `token` names.
pub fn parse_command(token: &str) -> (r: Command)
    ensures
        r == command_spec(token@),
{
    if same_text(token, "help") {
        Command::Help
    } else if same_text(token, "save") {
        Command::Save
    } else if same_text(token, "read") {
        Command::Read
    } else if same_text(token, "firstLetter") {
        Command::Filter(Actions::FirstLetter)
    } else if same_text(token, "lastLetter") {
        Command::Filter(Actions::LastLetter)
    } else if same_text(token, "contains") {
        Command::Filter(Actions::Contains)
    } else if same_text(token, "contain") {
        Command::Filter(Actions::Contain)
    } else if same_text(token, "incorrectWords") {
        Command::Filter(Actions::IncorrectWords)
    } else if same_text(token, "pattern") {
        Command::Filter(Actions::Pattern)
    } else if same_text(token, "staticLetters") {
        Command::Filter(Actions::StaticLetters)
    } else {
        Command::Filter(Actions::NoAction)
    }
}

/// The language that `token` names: `es` is Spanish, anything else English.
pub fn parse_lang(token: &str) -> (r: Langs)
    ensures
        r == (if token@ == "es"@ {
            Langs::Es
        } else {
            Langs::En
        }),
{
    if same_text(token, "es") {
        Langs::Es
    } else {
        Langs::En
    }
}

/// A command line: the command word before the first space, and the
/// argument between the first and the second space, without trailing white
/// space; `None` where the line has no space.
pub fn split_line(line: &str) -> (r: Option<(String, String)>)
    ensures
        split_on(line@, ' ').len() < 2 ==> r is None,
        split_on(line@, ' ').len() >= 2 ==> (r matches Some((command, argument)) && command@
            == split_on(line@, ' ')[0] && argument@ == trim_end(split_on(line@, ' ')[1])),
{
    let values = split_by(line, ' ');
    if values.len() < 2 {
        return None;
    }
    assert(values.deep_view()[0] == values@[0]@);
    assert(values.deep_view()[1] == values@[1]@);
    let command = values[0].clone();
    let argument = trim_end_string(values[1].as_str());
    Some((command, argument))
}

/// Where the words that a turn filters come from.
#[derive(PartialEq, Eq, Structural, Clone, Copy, Debug)]
pub enum Source {
    /// Fetch them from the language's source.
    Fetch,
    /// Read them from the stored file.
    ReadLocal,
    /// Take the candidates that the previous turn left.
    Candidates,
}

/// The state carried from one turn to the next.
pub struct Session {
    pub lang: Langs,
    /// Whether the first word list is read from the stored file.
    pub from_local: bool,
    /// Whether no turn has been taken yet.
    pub first_turn: bool,
    /// Whether the stored file has been read.
    pub local_loaded: bool,
    /// The words that survived every turn so far.
    pub candidates: Vec<String>,
}

impl Session {
    /// A session before its first turn.
    pub fn new(lang: Langs, from_local: bool) -> (r: Session)
        ensures
            r.lang == lang,
            r.from_local == from_local,
            r.first_turn,
            !r.local_loaded,
            r.candidates@.len() == 0,
    {
        Session { lang, from_local, first_turn: true, local_loaded: false, candidates: Vec::new() }
    }

    /// Where the next turn's words come from: the source on the first turn
    /// (or the stored file, once, where the session reads from it), and the
    /// previous turn's result after that.
    pub open spec fn source_spec(&self) -> Source {
        if !self.from_local {
            if self.first_turn {
                Source::Fetch
            } else {
                Source::Candidates
            }
        } else if !self.local_loaded {
            Source::ReadLocal
        } else {
            Source::Candidates
        }
    }

    /// Where the next turn's words come from.
    pub fn source(&self) -> (r: Source)
        ensures
            r == self.source_spec(),
    {
        if !self.from_local {
            if self.first_turn {
                Source::Fetch
            } else {
                Source::Candidates
            }
        } else if !self.local_loaded {
            Source::ReadLocal
        } else {
            Source::Candidates
        }
    }

    /// Takes one turn: filters the previous candidates where `source` says
    /// so, else `loaded` (the words just fetched or read), and keeps the
    /// result as the new candidates.
    pub fn take_turn(&mut self, cli: &WordleCLI, loaded: &Vec<String>)
        requires
            cli.wf(),
        ensures
            final(self).candidates.deep_view() == filtered(
                cli.action,
                cli.clean_input.deep_view(),
                if old(self).source_spec() == Source::Candidates {
                    old(self).candidates.deep_view()
                } else {
                    loaded.deep_view()
                },
            ),
            final(self).lang == old(self).lang,
            final(self).from_local == old(self).from_local,
            !final(self).first_turn,
            final(self).local_loaded == (old(self).local_loaded || old(self).from_local),
    {
        let response = if self.source() == Source::Candidates {
            query_words(cli, &self.candidates)
        } else {
            query_words(cli, loaded)
        };
        self.candidates = response;
        if self.from_local {
            self.local_loaded = true;
        }
        self.first_turn = false;
    }
}

} // verus!
