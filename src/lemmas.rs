//! Laws that hold of the filters: what they keep, how they compose.
use vstd::prelude::*;
use crate::filters::{fits_pattern, pattern_pred};
use crate::session::{filtered, keeps, sentinel, Actions};

verus! {

/// `a` is `b` with some elements removed and the rest kept in order: `idx`
/// gives, for each element of `a`, its position in `b`.
pub open spec fn embeds(a: Seq<Seq<char>>, b: Seq<Seq<char>>, idx: Seq<int>) -> bool {
    &&& idx.len() == a.len()
    &&& forall|i: int| 0 <= i < idx.len() ==> 0 <= #[trigger] idx[i] < b.len() && a[i] == b[idx[i]]
    &&& forall|i: int, j: int| 0 <= i < j < idx.len() ==> #[trigger] idx[i] < #[trigger] idx[j]
}

/// `a` is a subsequence of `b`.
pub open spec fn is_subsequence(a: Seq<Seq<char>>, b: Seq<Seq<char>>) -> bool {
    exists|idx: Seq<int>| embeds(a, b, idx)
}

proof fn lemma_filter_of_push(s: Seq<Seq<char>>, p: spec_fn(Seq<char>) -> bool)
    requires
        s.len() > 0,
    ensures
        s.filter(p) == if p(s.last()) {
            s.drop_last().filter(p).push(s.last())
        } else {
            s.drop_last().filter(p)
        },
{
    assert(s =~= s.drop_last().push(s.last()));
    s.drop_last().lemma_filter_push(s.last(), p);
}

proof fn lemma_filter_embeds(s: Seq<Seq<char>>, p: spec_fn(Seq<char>) -> bool)
    ensures
        is_subsequence(s.filter(p), s),
    decreases s.len(),
{
    if s.len() == 0 {
        reveal(Seq::filter);
        assert(embeds(s.filter(p), s, Seq::empty()));
    } else {
        let t = s.drop_last();
        lemma_filter_embeds(t, p);
        lemma_filter_of_push(s, p);
        let idx = choose|idx: Seq<int>| embeds(t.filter(p), t, idx);
        if p(s.last()) {
            let idx2 = idx.push(s.len() - 1);
            assert(embeds(s.filter(p), s, idx2));
        } else {
            assert(embeds(s.filter(p), s, idx));
        }
    }
}

proof fn lemma_filter_twice(s: Seq<Seq<char>>, p: spec_fn(Seq<char>) -> bool, q: spec_fn(Seq<char>) -> bool)
    ensures
        s.filter(p).filter(q) == s.filter(|w: Seq<char>| p(w) && q(w)),
    decreases s.len(),
{
    let both = |w: Seq<char>| p(w) && q(w);
    if s.len() == 0 {
        reveal(Seq::filter);
    } else {
        let t = s.drop_last();
        let x = s.last();
        lemma_filter_twice(t, p, q);
        lemma_filter_of_push(s, p);
        lemma_filter_of_push(s, both);
        if p(x) {
            t.filter(p).lemma_filter_push(x, q);
        }
    }
}

proof fn lemma_filter_idempotent(s: Seq<Seq<char>>, p: spec_fn(Seq<char>) -> bool)
    ensures
        s.filter(p).filter(p) == s.filter(p),
    decreases s.len(),
{
    if s.len() == 0 {
        reveal(Seq::filter);
    } else {
        let t = s.drop_last();
        let x = s.last();
        lemma_filter_idempotent(t, p);
        lemma_filter_of_push(s, p);
        if p(x) {
            t.filter(p).lemma_filter_push(x, p);
        }
    }
}

/// Every filter keeps a subsequence of its input: it only removes words and
/// never reorders them. The no-op instead gives the one-element sentinel
/// list, whatever the input.
pub proof fn lemma_filter_is_subsequence(
    action: Actions,
    args: Seq<Seq<char>>,
    words: Seq<Seq<char>>,
)
    ensures
        action != Actions::NoAction ==> is_subsequence(filtered(action, args, words), words),
        action == Actions::NoAction ==> filtered(action, args, words) == seq![sentinel()],
{
    if action != Actions::NoAction {
        lemma_filter_embeds(words, keeps(action, args));
    }
}

/// Applying a filter a second time changes nothing, for every action but the
/// no-op.
pub proof fn lemma_filter_idempotent_action(
    action: Actions,
    args: Seq<Seq<char>>,
    words: Seq<Seq<char>>,
)
    requires
        action != Actions::NoAction,
    ensures
        filtered(action, args, filtered(action, args, words)) == filtered(action, args, words),
{
    lemma_filter_idempotent(words, keeps(action, args));
}

/// Applying one filter and then another to the result keeps exactly the
/// words that satisfy both constraints.
pub proof fn lemma_sequential_narrowing(
    first: Actions,
    first_args: Seq<Seq<char>>,
    second: Actions,
    second_args: Seq<Seq<char>>,
    words: Seq<Seq<char>>,
)
    requires
        first != Actions::NoAction,
        second != Actions::NoAction,
    ensures
        filtered(second, second_args, filtered(first, first_args, words)) == words.filter(
            |w: Seq<char>| keeps(first, first_args)(w) && keeps(second, second_args)(w),
        ),
{
    lemma_filter_twice(words, keeps(first, first_args), keeps(second, second_args));
}

/// A word shorter than the pattern never fits it, even where the pattern's
/// extra positions are wildcards, so the pattern filter drops it.
pub proof fn lemma_pattern_rejects_shorter(
    word: Seq<char>,
    args: Seq<Seq<char>>,
    words: Seq<Seq<char>>,
)
    requires
        word.len() < args.flatten().len(),
    ensures
        !fits_pattern(word, args.flatten()),
        !filtered(Actions::Pattern, args, words).contains(word),
{
    let p = pattern_pred(args.flatten());
    if words.filter(p).contains(word) {
        let i = choose|i: int| 0 <= i < words.filter(p).len() && words.filter(p)[i] == word;
        words.lemma_filter_pred(p, i);
    }
}

} // verus!
