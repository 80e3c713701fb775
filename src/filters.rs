//! The filter engine: each filter keeps, in their original order, the words
//! of a list that satisfy one constraint.
use vstd::prelude::*;
use crate::text::{
    chars_of, contains_str, contains_sub, has_prefix, has_suffix, is_prefix_of, is_suffix_of,
    string_of, trimmed, trimmed_chars,
};

verus! {

/// Keeps the words that begin with `p`.
pub open spec fn starts_pred(p: Seq<char>) -> spec_fn(Seq<char>) -> bool {
    |w: Seq<char>| is_prefix_of(p, w)
}

/// Keeps the words that end with `p`.
pub open spec fn ends_pred(p: Seq<char>) -> spec_fn(Seq<char>) -> bool {
    |w: Seq<char>| is_suffix_of(p, w)
}

/// Keeps the words in which `s` occurs.
pub open spec fn contains_pred(s: Seq<char>) -> spec_fn(Seq<char>) -> bool {
    |w: Seq<char>| contains_sub(w, s)
}

/// `w` holds every one of `parts` as a substring.
pub open spec fn contains_every(w: Seq<char>, parts: Seq<Seq<char>>) -> bool {
    forall|k: int| 0 <= k < parts.len() ==> contains_sub(w, #[trigger] parts[k])
}

/// Keeps the words that hold every one of `parts`.
pub open spec fn all_pred(parts: Seq<Seq<char>>) -> spec_fn(Seq<char>) -> bool {
    |w: Seq<char>| contains_every(w, parts)
}

/// `c` is one of the letters of the tokens, once each token is trimmed.
pub open spec fn is_pooled(tokens: Seq<Seq<char>>, c: char) -> bool {
    exists|k: int| 0 <= k < tokens.len() && #[trigger] trimmed(tokens[k]).contains(c)
}

/// `w` holds none of the letters pooled from `tokens`.
pub open spec fn avoids_pooled(w: Seq<char>, tokens: Seq<Seq<char>>) -> bool {
    forall|c: char| is_pooled(tokens, c) ==> !(#[trigger] w.contains(c))
}

/// Keeps the words that hold none of the letters pooled from `tokens`.
pub open spec fn avoids_pred(tokens: Seq<Seq<char>>) -> spec_fn(Seq<char>) -> bool {
    |w: Seq<char>| avoids_pooled(w, tokens)
}

/// The pattern character that matches any letter.
pub open spec fn wildcard() -> char {
    '_'
}

/// `w` fits the pattern `p`: the same length, and at each position either the
/// wildcard or the word's own character.
pub open spec fn fits_pattern(w: Seq<char>, p: Seq<char>) -> bool {
    w.len() == p.len() && forall|i: int|
        0 <= i < w.len() ==> (#[trigger] p[i] == wildcard() || p[i] == w[i])
}

/// Keeps the words that fit the pattern `p`.
pub open spec fn pattern_pred(p: Seq<char>) -> spec_fn(Seq<char>) -> bool {
    |w: Seq<char>| fits_pattern(w, p)
}

/// Filtering a prefix one element longer.
proof fn lemma_filter_extend(ws: Seq<Seq<char>>, i: int, pred: spec_fn(Seq<char>) -> bool)
    requires
        0 <= i < ws.len(),
    ensures
        ws.subrange(0, i + 1).filter(pred) == if pred(ws[i]) {
            ws.subrange(0, i).filter(pred).push(ws[i])
        } else {
            ws.subrange(0, i).filter(pred)
        },
{
    assert(ws.subrange(0, i + 1) =~= ws.subrange(0, i).push(ws[i]));
    ws.subrange(0, i).lemma_filter_push(ws[i], pred);
}

/// Appends a copy of `w`.
fn push_word(r: &mut Vec<String>, w: &String)
    ensures
        final(r).deep_view() == old(r).deep_view().push(w@),
{
    r.push(w.clone());
    assert(final(r).deep_view() =~= old(r).deep_view().push(w@));
}

/// The parts written one after another.
pub fn join_all(parts: &Vec<String>) -> (r: String)
    ensures
        r@ == parts.deep_view().flatten(),
{
    let mut r = String::new();
    let mut i: usize = 0;
    while i < parts.len()
        invariant
            i <= parts@.len(),
            r@ == parts.deep_view().subrange(0, i as int).flatten(),
        decreases parts@.len() - i,
    {
        r.append(parts[i].as_str());
        proof {
            let ds = parts.deep_view();
            assert(ds.subrange(0, i + 1) =~= ds.subrange(0, i as int).push(ds[i as int]));
            ds.subrange(0, i as int).lemma_flatten_push(ds[i as int]);
        }
        i += 1;
    }
    assert(parts.deep_view().subrange(0, parts@.len() as int) =~= parts.deep_view());
    r
}

/// The words that begin with `letter`.
pub fn starts_with(words: &Vec<String>, letter: &str) -> (r: Vec<String>)
    ensures
        r.deep_view() == words.deep_view().filter(starts_pred(letter@)),
{
    let ghost pred = starts_pred(letter@);
    let mut response: Vec<String> = Vec::new();
    let mut i: usize = 0;
    while i < words.len()
        invariant
            i <= words@.len(),
            pred == starts_pred(letter@),
            response.deep_view() == words.deep_view().subrange(0, i as int).filter(pred),
        decreases words@.len() - i,
    {
        proof {
            lemma_filter_extend(words.deep_view(), i as int, pred);
            assert(words.deep_view()[i as int] == words@[i as int]@);
        }
        if has_prefix(words[i].as_str(), letter) {
            push_word(&mut response, &words[i]);
        }
        i += 1;
    }
    assert(words.deep_view().subrange(0, words@.len() as int) =~= words.deep_view());
    response
}

/// The words that end with `letter`.
pub fn ends_with(words: &Vec<String>, letter: &str) -> (r: Vec<String>)
    ensures
        r.deep_view() == words.deep_view().filter(ends_pred(letter@)),
{
    let ghost pred = ends_pred(letter@);
    let mut response: Vec<String> = Vec::new();
    let mut i: usize = 0;
    while i < words.len()
        invariant
            i <= words@.len(),
            pred == ends_pred(letter@),
            response.deep_view() == words.deep_view().subrange(0, i as int).filter(pred),
        decreases words@.len() - i,
    {
        proof {
            lemma_filter_extend(words.deep_view(), i as int, pred);
            assert(words.deep_view()[i as int] == words@[i as int]@);
        }
        if has_suffix(words[i].as_str(), letter) {
            push_word(&mut response, &words[i]);
        }
        i += 1;
    }
    assert(words.deep_view().subrange(0, words@.len() as int) =~= words.deep_view());
    response
}

/// The words in which `letter` occurs.
pub fn filter_by_letter(words: &Vec<String>, letter: &str) -> (r: Vec<String>)
    ensures
        r.deep_view() == words.deep_view().filter(contains_pred(letter@)),
{
    let ghost pred = contains_pred(letter@);
    let mut response: Vec<String> = Vec::new();
    let mut i: usize = 0;
    while i < words.len()
        invariant
            i <= words@.len(),
            pred == contains_pred(letter@),
            response.deep_view() == words.deep_view().subrange(0, i as int).filter(pred),
        decreases words@.len() - i,
    {
        proof {
            lemma_filter_extend(words.deep_view(), i as int, pred);
            assert(words.deep_view()[i as int] == words@[i as int]@);
        }
        if contains_str(words[i].as_str(), letter) {
            push_word(&mut response, &words[i]);
        }
        i += 1;
    }
    assert(words.deep_view().subrange(0, words@.len() as int) =~= words.deep_view());
    response
}

/// Whether `w` holds every one of `letters` as a substring.
fn contains_each(w: &str, letters: &Vec<String>) -> (r: bool)
    ensures
        r == contains_every(w@, letters.deep_view()),
{
    let mut index: usize = 0;
    while index < letters.len()
        invariant
            index <= letters@.len(),
            forall|k: int| 0 <= k < index ==> contains_sub(w@, #[trigger] letters.deep_view()[k]),
        decreases letters@.len() - index,
    {
        assert(letters.deep_view()[index as int] == letters@[index as int]@);
        if !contains_str(w, letters[index].as_str()) {
            return false;
        }
        index += 1;
    }
    true
}

/// The words that hold every one of `letters` as a substring.
pub fn includes_letters(words: &Vec<String>, letters: &Vec<String>) -> (r: Vec<String>)
    ensures
        r.deep_view() == words.deep_view().filter(all_pred(letters.deep_view())),
{
    let ghost pred = all_pred(letters.deep_view());
    let mut response: Vec<String> = Vec::new();
    let mut i: usize = 0;
    while i < words.len()
        invariant
            i <= words@.len(),
            pred == all_pred(letters.deep_view()),
            response.deep_view() == words.deep_view().subrange(0, i as int).filter(pred),
        decreases words@.len() - i,
    {
        proof {
            lemma_filter_extend(words.deep_view(), i as int, pred);
            assert(words.deep_view()[i as int] == words@[i as int]@);
        }
        if contains_each(words[i].as_str(), letters) {
            push_word(&mut response, &words[i]);
        }
        i += 1;
    }
    assert(words.deep_view().subrange(0, words@.len() as int) =~= words.deep_view());
    response
}

/// Whether `c` is one of `cs`.
fn has_char(cs: &Vec<char>, c: char) -> (r: bool)
    ensures
        r == cs@.contains(c),
{
    let mut i: usize = 0;
    while i < cs.len()
        invariant
            i <= cs@.len(),
            forall|k: int| 0 <= k < i ==> cs@[k] != c,
        decreases cs@.len() - i,
    {
        if cs[i] == c {
            return true;
        }
        i += 1;
    }
    false
}

/// `c` is a letter of one of the first `n` tokens, once trimmed.
pub open spec fn pooled_before(tokens: Seq<Seq<char>>, n: int, c: char) -> bool {
    exists|k: int| 0 <= k < n && #[trigger] trimmed(tokens[k]).contains(c)
}

/// The distinct letters of all the tokens, each token trimmed of white space
/// first.
pub fn pooled_letters(tokens: &Vec<String>) -> (r: Vec<char>)
    ensures
        r@.no_duplicates(),
        forall|c: char| #[trigger] r@.contains(c) <==> is_pooled(tokens.deep_view(), c),
{
    let ghost ts = tokens.deep_view();
    let mut r: Vec<char> = Vec::new();
    let mut k: usize = 0;
    while k < tokens.len()
        invariant
            k <= tokens@.len(),
            ts == tokens.deep_view(),
            r@.no_duplicates(),
            forall|c: char| #[trigger] r@.contains(c) <==> pooled_before(ts, k as int, c),
        decreases tokens@.len() - k,
    {
        assert(ts[k as int] == tokens@[k as int]@);
        let cs = trimmed_chars(tokens[k].as_str());
        let mut i: usize = 0;
        while i < cs.len()
            invariant
                i <= cs@.len(),
                k < tokens@.len(),
                ts == tokens.deep_view(),
                cs@ == trimmed(ts[k as int]),
                r@.no_duplicates(),
                forall|c: char|
                    #[trigger] r@.contains(c) <==> (pooled_before(ts, k as int, c)
                        || cs@.subrange(0, i as int).contains(c)),
            decreases cs@.len() - i,
        {
            let c = cs[i];
            let ghost before = r@;
            if !has_char(&r, c) {
                r.push(c);
            }
            assert(r@ == if before.contains(c) { before } else { before.push(c) });
            assert forall|d: char| #[trigger] r@.contains(d) <==> (pooled_before(ts, k as int, d)
                || cs@.subrange(0, i + 1).contains(d)) by {
                let pre = cs@.subrange(0, i as int);
                let post = cs@.subrange(0, i + 1);
                assert(post =~= pre.push(c));
                assert(before.contains(d) <==> (pooled_before(ts, k as int, d) || pre.contains(d)));
                if r@.contains(d) && d != c {
                    let j = choose|j: int| 0 <= j < r@.len() && r@[j] == d;
                    assert(before[j] == d);
                }
                if before.contains(d) {
                    let j = choose|j: int| 0 <= j < before.len() && before[j] == d;
                    assert(r@[j] == d);
                }
                if pre.contains(d) {
                    let j = choose|j: int| 0 <= j < pre.len() && pre[j] == d;
                    assert(post[j] == d);
                }
                if d == c {
                    assert(post[i as int] == c);
                    if !before.contains(c) {
                        assert(r@[before.len() as int] == c);
                    }
                }
                if post.contains(d) && d != c {
                    let j = choose|j: int| 0 <= j < post.len() && post[j] == d;
                    assert(pre[j] == d);
                }
            }
            i += 1;
        }
        assert(cs@.subrange(0, cs@.len() as int) =~= cs@);
        assert forall|c: char| #[trigger] r@.contains(c) <==> pooled_before(ts, k + 1, c) by {
            if pooled_before(ts, k + 1, c) && !pooled_before(ts, k as int, c) {
                let j = choose|j: int| 0 <= j < k + 1 && #[trigger] trimmed(ts[j]).contains(c);
                assert(j == k);
            }
            if cs@.contains(c) {
                assert(trimmed(ts[k as int]).contains(c));
            }
        }
        k += 1;
    }
    r
}

/// Whether none of `letters` occurs in `w`.
fn misses_all(w: &Vec<char>, letters: &Vec<char>) -> (r: bool)
    ensures
        r == (forall|c: char| #[trigger] letters@.contains(c) ==> !w@.contains(c)),
{
    let mut i: usize = 0;
    while i < letters.len()
        invariant
            i <= letters@.len(),
            forall|k: int| 0 <= k < i ==> !w@.contains(#[trigger] letters@[k]),
        decreases letters@.len() - i,
    {
        if has_char(w, letters[i]) {
            assert(letters@.contains(letters@[i as int]));
            return false;
        }
        i += 1;
    }
    assert forall|c: char| #[trigger] letters@.contains(c) implies !w@.contains(c) by {
        let j = choose|j: int| 0 <= j < letters@.len() && letters@[j] == c;
    }
    true
}

/// The words that hold none of the letters pooled from `incorrect_words`:
/// every token is trimmed and split into its letters, and a word is kept only
/// if it lacks each of them.
pub fn filter_by_incorrect_words(words: &Vec<String>, incorrect_words: &Vec<String>) -> (r: Vec<
    String,
>)
    ensures
        r.deep_view() == words.deep_view().filter(avoids_pred(incorrect_words.deep_view())),
{
    let ghost pred = avoids_pred(incorrect_words.deep_view());
    let incorrect_letters = pooled_letters(incorrect_words);
    let mut response: Vec<String> = Vec::new();
    let mut i: usize = 0;
    while i < words.len()
        invariant
            i <= words@.len(),
            pred == avoids_pred(incorrect_words.deep_view()),
            forall|c: char| #[trigger]
                incorrect_letters@.contains(c) <==> is_pooled(incorrect_words.deep_view(), c),
            response.deep_view() == words.deep_view().subrange(0, i as int).filter(pred),
        decreases words@.len() - i,
    {
        proof {
            lemma_filter_extend(words.deep_view(), i as int, pred);
            assert(words.deep_view()[i as int] == words@[i as int]@);
        }
        let w = chars_of(words[i].as_str());
        let keep = misses_all(&w, &incorrect_letters);
        proof {
            let ts = incorrect_words.deep_view();
            if keep {
                assert forall|c: char| is_pooled(ts, c) implies !(#[trigger] w@.contains(c)) by {
                    assert(incorrect_letters@.contains(c));
                }
            } else {
                let c = choose|c: char| #[trigger]
                    incorrect_letters@.contains(c) && w@.contains(c);
                assert(is_pooled(ts, c));
            }
        }
        if keep {
            push_word(&mut response, &words[i]);
        }
        i += 1;
    }
    assert(words.deep_view().subrange(0, words@.len() as int) =~= words.deep_view());
    response
}

/// The words in which `letters`, written one after another, occur.
pub fn find_with_static_letters(words: &Vec<String>, letters: &Vec<String>) -> (r: Vec<String>)
    ensures
        r.deep_view() == words.deep_view().filter(contains_pred(letters.deep_view().flatten())),
{
    let letter_to_look = join_all(letters);
    filter_by_letter(words, letter_to_look.as_str())
}

/// Whether `word` fits `pattern`: one flag per position, over the longer of
/// the two, set where the pattern holds the wildcard or the word's own
/// character; the word fits when every flag is set.
pub fn fits(word: &str, pattern: &Vec<char>) -> (r: bool)
    ensures
        r == fits_pattern(word@, pattern@),
{
    let w = chars_of(word);
    let width = if w.len() >= pattern.len() {
        w.len()
    } else {
        pattern.len()
    };
    let mut flags: Vec<bool> = Vec::new();
    let mut i: usize = 0;
    while i < width
        invariant
            i <= width,
            width == if w@.len() >= pattern@.len() { w@.len() } else { pattern@.len() },
            flags@.len() == i,
            forall|k: int|
                0 <= k < i ==> #[trigger] flags@[k] == (k < w@.len() && k < pattern@.len() && (
                pattern@[k] == wildcard() || pattern@[k] == w@[k])),
        decreases width - i,
    {
        let ok = i < w.len() && i < pattern.len() && (pattern[i] == '_' || pattern[i] == w[i]);
        flags.push(ok);
        i += 1;
    }
    let mut j: usize = 0;
    while j < width
        invariant
            j <= width,
            w@ == word@,
            width == if w@.len() >= pattern@.len() { w@.len() } else { pattern@.len() },
            flags@.len() == width,
            forall|k: int|
                0 <= k < width ==> #[trigger] flags@[k] == (k < w@.len() && k < pattern@.len() && (
                pattern@[k] == wildcard() || pattern@[k] == w@[k])),
            forall|k: int| 0 <= k < j ==> #[trigger] flags@[k],
        decreases width - j,
    {
        if !flags[j] {
            proof {
                if w@.len() == pattern@.len() {
                    assert(!(pattern@[j as int] == wildcard() || pattern@[j as int] == w@[j as int]));
                }
            }
            return false;
        }
        j += 1;
    }
    assert(forall|k: int| 0 <= k < width ==> #[trigger] flags@[k]);
    proof {
        if w@.len() != pattern@.len() {
            assert(!flags@[width - 1]);
        }
    }
    assert forall|k: int| 0 <= k < w@.len() implies (#[trigger] pattern@[k] == wildcard()
        || pattern@[k] == w@[k]) by {
        assert(flags@[k]);
    }
    true
}

/// The words that fit the pattern that `letters` spell, position by
/// position, where `_` matches any character.
pub fn find_with_pattern(words: &Vec<String>, letters: &Vec<String>) -> (r: Vec<String>)
    ensures
        r.deep_view() == words.deep_view().filter(pattern_pred(letters.deep_view().flatten())),
{
    let ghost pred = pattern_pred(letters.deep_view().flatten());
    let joined = join_all(letters);
    let letters_to_look = chars_of(joined.as_str());
    let mut response: Vec<String> = Vec::new();
    let mut i: usize = 0;
    while i < words.len()
        invariant
            i <= words@.len(),
            pred == pattern_pred(letters.deep_view().flatten()),
            letters_to_look@ == letters.deep_view().flatten(),
            response.deep_view() == words.deep_view().subrange(0, i as int).filter(pred),
        decreases words@.len() - i,
    {
        proof {
            lemma_filter_extend(words.deep_view(), i as int, pred);
            assert(words.deep_view()[i as int] == words@[i as int]@);
        }
        if fits(words[i].as_str(), &letters_to_look) {
            push_word(&mut response, &words[i]);
        }
        i += 1;
    }
    assert(words.deep_view().subrange(0, words@.len() as int) =~= words.deep_view());
    response
}

} // verus!
