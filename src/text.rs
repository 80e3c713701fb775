//! Character-level primitives on words: prefixes, suffixes, substrings and
//! whitespace trimming, each proved against its mathematical meaning.
use vstd::prelude::*;

verus! {

/// `p` is a prefix of `w`.
pub open spec fn is_prefix_of(p: Seq<char>, w: Seq<char>) -> bool {
    p.len() <= w.len() && w.subrange(0, p.len() as int) == p
}

/// `p` is a suffix of `w`.
pub open spec fn is_suffix_of(p: Seq<char>, w: Seq<char>) -> bool {
    p.len() <= w.len() && w.subrange(w.len() - p.len(), w.len() as int) == p
}

/// `s` occurs in `w` starting at position `i`.
pub open spec fn occurs_at(w: Seq<char>, s: Seq<char>, i: int) -> bool {
    0 <= i && i + s.len() <= w.len() && w.subrange(i, i + s.len()) == s
}

/// `s` occurs somewhere in `w` as a contiguous substring.
pub open spec fn contains_sub(w: Seq<char>, s: Seq<char>) -> bool {
    exists|i: int| occurs_at(w, s, i)
}

/// Relies on `String::push`: the character is appended at the end.
#[verifier::external_body]
pub(crate) fn push_char(s: &mut String, c: char)
    ensures
        final(s)@ == old(s)@.push(c),
{
    s.push(c)
}

/// The characters of `s`, in order.
pub fn chars_of(s: &str) -> (r: Vec<char>)
    ensures
        r@ == s@,
{
    let n = s.unicode_len();
    let mut r: Vec<char> = Vec::new();
    let mut i: usize = 0;
    while i < n
        invariant
            i <= n,
            n == s@.len(),
            r@ == s@.subrange(0, i as int),
        decreases n - i,
    {
        r.push(s.get_char(i));
        i += 1;
    }
    assert(r@ =~= s@);
    r
}

/// A string holding the characters `cs`.
pub fn string_of(cs: &[char]) -> (r: String)
    ensures
        r@ == cs@,
{
    let mut r = String::new();
    let mut i: usize = 0;
    while i < cs.len()
        invariant
            i <= cs@.len(),
            r@ == cs@.subrange(0, i as int),
        decreases cs@.len() - i,
    {
        push_char(&mut r, cs[i]);
        assert(cs@.subrange(0, i + 1) =~= cs@.subrange(0, i as int).push(cs@[i as int]));
        i += 1;
    }
    assert(r@ =~= cs@);
    r
}

/// Whether `s` occurs in `w` at position `i`.
fn matches_at(w: &Vec<char>, s: &Vec<char>, i: usize) -> (r: bool)
    requires
        i + s@.len() <= w@.len(),
    ensures
        r == occurs_at(w@, s@, i as int),
{
    let wl = w.len();
    let mut j: usize = 0;
    while j < s.len()
        invariant
            wl == w@.len(),
            j <= s@.len(),
            i + s@.len() <= w@.len(),
            forall|k: int| 0 <= k < j ==> w@[i + k] == s@[k],
        decreases s@.len() - j,
    {
        assert(i + j < w@.len());
        if w[i + j] != s[j] {
            assert(w@.subrange(i as int, i + s@.len())[j as int] != s@[j as int]);
            return false;
        }
        j += 1;
    }
    assert(w@.subrange(i as int, i + s@.len()) =~= s@);
    true
}

/// Whether the characters `s` occur contiguously in the characters `w`.
fn contains_chars(w: &Vec<char>, s: &Vec<char>) -> (r: bool)
    ensures
        r == contains_sub(w@, s@),
{
    if s.len() > w.len() {
        return false;
    }
    let last = w.len() - s.len();
    let mut i: usize = 0;
    while i <= last
        invariant
            i <= last,
            last == w@.len() - s@.len(),
            forall|k: int| 0 <= k < i ==> !occurs_at(w@, s@, k),
        ensures
            forall|k: int| 0 <= k <= last ==> !occurs_at(w@, s@, k),
        decreases last + 1 - i,
    {
        if matches_at(w, s, i) {
            return true;
        }
        if i == last {
            break;
        }
        i += 1;
    }
    assert forall|k: int| !occurs_at(w@, s@, k) by {
        if 0 <= k && k + s@.len() <= w@.len() {
            assert(k <= last);
        }
    }
    false
}

/// Whether `s` occurs in `w` as a contiguous substring.
pub fn contains_str(w: &str, s: &str) -> (r: bool)
    ensures
        r == contains_sub(w@, s@),
{
    let wc = chars_of(w);
    let sc = chars_of(s);
    contains_chars(&wc, &sc)
}

/// Whether `w` begins with `p`.
pub fn has_prefix(w: &str, p: &str) -> (r: bool)
    ensures
        r == is_prefix_of(p@, w@),
{
    let wc = chars_of(w);
    let pc = chars_of(p);
    if pc.len() > wc.len() {
        return false;
    }
    let r = matches_at(&wc, &pc, 0);
    assert(r == occurs_at(w@, p@, 0));
    r
}

/// Whether `w` ends with `p`.
pub fn has_suffix(w: &str, p: &str) -> (r: bool)
    ensures
        r == is_suffix_of(p@, w@),
{
    let wc = chars_of(w);
    let pc = chars_of(p);
    if pc.len() > wc.len() {
        return false;
    }
    matches_at(&wc, &pc, wc.len() - pc.len())
}

/// Whether a character is white space, as Unicode's `White_Space` property says.
pub uninterp spec fn white_space(c: char) -> bool;

/// Relies on `char::is_whitespace`: true exactly for characters with the
/// Unicode `White_Space` property.
#[verifier::external_body]
pub(crate) fn is_space(c: char) -> (r: bool)
    ensures
        r == white_space(c),
{
    c.is_whitespace()
}

/// `s` without its leading white space.
pub open spec fn trim_start(s: Seq<char>) -> Seq<char>
    decreases s.len(),
{
    if s.len() > 0 && white_space(s[0]) {
        trim_start(s.drop_first())
    } else {
        s
    }
}

/// `s` without its trailing white space.
pub open spec fn trim_end(s: Seq<char>) -> Seq<char>
    decreases s.len(),
{
    if s.len() > 0 && white_space(s.last()) {
        trim_end(s.drop_last())
    } else {
        s
    }
}

/// `s` without leading or trailing white space.
pub open spec fn trimmed(s: Seq<char>) -> Seq<char> {
    trim_end(trim_start(s))
}

/// The characters of `s` with leading and trailing white space removed.
pub fn trimmed_chars(s: &str) -> (r: Vec<char>)
    ensures
        r@ == trimmed(s@),
{
    let cs = chars_of(s);
    let n = cs.len();
    let mut a: usize = 0;
    assert(cs@.subrange(0, n as int) =~= cs@);
    while a < n && is_space(cs[a])
        invariant
            a <= n,
            n == cs@.len(),
            trim_start(cs@) == trim_start(cs@.subrange(a as int, n as int)),
        decreases n - a,
    {
        assert(cs@.subrange(a as int, n as int).drop_first() =~= cs@.subrange(a + 1, n as int));
        a += 1;
    }
    assert(trim_start(cs@) == cs@.subrange(a as int, n as int));
    let mut b: usize = n;
    while b > a && is_space(cs[b - 1])
        invariant
            a <= b <= n,
            n == cs@.len(),
            trimmed(cs@) == trim_end(cs@.subrange(a as int, b as int)),
        decreases b - a,
    {
        assert(cs@.subrange(a as int, b as int).drop_last() =~= cs@.subrange(a as int, b - 1));
        b -= 1;
    }
    let mut r: Vec<char> = Vec::new();
    let mut i: usize = a;
    while i < b
        invariant
            a <= i <= b <= n,
            n == cs@.len(),
            r@ == cs@.subrange(a as int, i as int),
        decreases b - i,
    {
        r.push(cs[i]);
        assert(cs@.subrange(a as int, i + 1) =~= cs@.subrange(a as int, i as int).push(cs@[i as int]));
        i += 1;
    }
    r
}

/// Whether `a` and `b` hold the same characters.
pub fn same_text(a: &str, b: &str) -> (r: bool)
    ensures
        r == (a@ == b@),
{
    let ac = chars_of(a);
    let bc = chars_of(b);
    if ac.len() != bc.len() {
        return false;
    }
    let mut i: usize = 0;
    while i < ac.len()
        invariant
            i <= ac@.len(),
            ac@ == a@,
            bc@ == b@,
            ac@.len() == bc@.len(),
            forall|k: int| 0 <= k < i ==> ac@[k] == bc@[k],
        decreases ac@.len() - i,
    {
        if ac[i] != bc[i] {
            assert(ac@[i as int] != bc@[i as int]);
            return false;
        }
        i += 1;
    }
    assert(ac@ =~= bc@);
    true
}

/// `s` without its trailing white space.
pub fn trim_end_string(s: &str) -> (r: String)
    ensures
        r@ == trim_end(s@),
{
    let mut cs = chars_of(s);
    let mut b: usize = cs.len();
    assert(cs@.subrange(0, b as int) =~= cs@);
    while b > 0 && is_space(cs[b - 1])
        invariant
            b <= cs@.len(),
            cs@ == s@,
            trim_end(cs@) == trim_end(cs@.subrange(0, b as int)),
        decreases b,
    {
        assert(cs@.subrange(0, b as int).drop_last() =~= cs@.subrange(0, b - 1));
        b -= 1;
    }
    cs.truncate(b);
    assert(cs@ =~= s@.subrange(0, b as int));
    string_of(cs.as_slice())
}

} // verus!
