//! The flat file a word list is stored in: every word followed by `:`, and
//! one file per language.
use vstd::prelude::*;
use crate::session::{split_by, split_on, Langs};

verus! {

/// Each word followed by the delimiter `:`.
pub open spec fn encoded(words: Seq<Seq<char>>) -> Seq<char>
    decreases words.len(),
{
    if words.len() == 0 {
        Seq::empty()
    } else {
        encoded(words.drop_last()) + words.last() + seq![':']
    }
}

/// The file contents for `words`: each word followed by `:`.
pub fn encode_words(words: &Vec<String>) -> (r: String)
    ensures
        r@ == encoded(words.deep_view()),
{
    let mut word_list = String::new();
    let mut i: usize = 0;
    while i < words.len()
        invariant
            i <= words@.len(),
            word_list@ == encoded(words.deep_view().subrange(0, i as int)),
        decreases words@.len() - i,
    {
        let ghost prefix = words.deep_view().subrange(0, i + 1);
        assert(prefix.drop_last() =~= words.deep_view().subrange(0, i as int));
        assert(prefix.last() == words@[i as int]@);
        word_list.append(words[i].as_str());
        word_list.append(":");
        proof {
            reveal_strlit(":");
        }
        assert(word_list@ =~= encoded(prefix));
        i += 1;
    }
    assert(words.deep_view().subrange(0, words@.len() as int) =~= words.deep_view());
    word_list
}

/// The words in stored file contents: the pieces between the delimiters.
pub fn decode_words(contents: &str) -> (r: Vec<String>)
    ensures
        r.deep_view() == split_on(contents@, ':'),
{
    split_by(contents, ':')
}

/// The display name of a language.
pub open spec fn lang_name(lang: Langs) -> Seq<char> {
    match lang {
        Langs::Es => "Español"@,
        Langs::En => "English"@,
    }
}

impl Langs {
    /// The display name of the language.
    pub fn name(&self) -> (r: String)
        ensures
            r@ == lang_name(*self),
    {
        match self {
            Langs::Es => String::from_str("Español"),
            Langs::En => String::from_str("English"),
        }
    }
}

/// The name of the file that stores `lang`'s words.
pub fn file_name(lang: &Langs) -> (r: String)
    ensures
        r@ == lang_name(*lang) + ".txt"@,
{
    let mut r = lang.name();
    r.append(".txt");
    r
}

} // verus!
