//! Case-insensitive text matching.
//!
//! The filter engine compares names, categories and search input after
//! Unicode case folding.  Folding itself is delegated to the standard
//! library (`str::to_lowercase`) behind a trusted wrapper; everything that
//! is done with the folded text — substring search, equality, ordering —
//! is verified here over sequences of characters.

use vstd::prelude::*;

verus! {

/// The character sequence that `str::to_lowercase` returns for `s`.
/// The result is a function of the characters of `s` alone.
pub uninterp spec fn lower_of(s: Seq<char>) -> Seq<char>;

/// The character sequence that `str::trim` returns for `s`.
/// The result is a function of the characters of `s` alone.
pub uninterp spec fn trimmed_of(s: Seq<char>) -> Seq<char>;

/// Relies on `str::to_lowercase`: the returned string depends on the
/// characters of `s` alone, and an empty string stays empty.
#[verifier::external_body]
pub fn lowercase(s: &str) -> (r: String)
    ensures
        r@ == lower_of(s@),
        s@.len() == 0 ==> r@.len() == 0,
{
    s.to_lowercase()
}

/// Relies on `str::trim`: the returned string depends on the characters
/// of `s` alone, and an empty string stays empty.
#[verifier::external_body]
pub fn trimmed(s: &str) -> (r: String)
    ensures
        r@ == trimmed_of(s@),
        s@.len() == 0 ==> r@.len() == 0,
{
    s.trim().to_owned()
}

/// Collects the characters of `s` into a vector.
pub fn chars_of(s: &str) -> (r: Vec<char>)
    ensures
        r@ == s@,
{
    let mut r: Vec<char> = Vec::new();
    for c in it: s.chars()
        invariant
            it.seq() == s@,
            r@ == s@.take(it.index() as int),
    {
        r.push(c);
    }
    assert(r@ == s@.take(s@.len() as int));
    assert(s@.take(s@.len() as int) == s@);
    r
}

/// `needle` occurs contiguously inside `hay`.
pub open spec fn has_substring(hay: Seq<char>, needle: Seq<char>) -> bool {
    exists|i: int| substring_at(hay, needle, i)
}

/// `needle` occurs at position `i` of `hay`.
pub open spec fn substring_at(hay: Seq<char>, needle: Seq<char>, i: int) -> bool {
    0 <= i <= hay.len() - needle.len() && hay.subrange(i, i + needle.len() as int) == needle
}

#[verifier::loop_isolation(false)]
fn substring_matches_at(hay: &Vec<char>, needle: &Vec<char>, i: usize) -> (r: bool)
    requires
        i + needle@.len() <= hay@.len(),
    ensures
        r == (hay@.subrange(i as int, i + needle@.len()) == needle@),
{
    let hay_len = hay.len();
    let mut j: usize = 0;
    while j < needle.len()
        invariant
            0 <= j <= needle@.len(),
            hay_len == hay@.len(),
            forall|k: int| 0 <= k < j ==> hay@[i + k] == needle@[k],
        decreases needle@.len() - j,
    {
        if hay[i + j] != needle[j] {
            assert(hay@.subrange(i as int, i + needle@.len())[j as int] != needle@[j as int]);
            return false;
        }
        j = j + 1;
    }
    assert(hay@.subrange(i as int, i + needle@.len()) =~= needle@);
    true
}

/// Substring search: does `needle` occur contiguously inside `hay`?
#[verifier::loop_isolation(false)]
pub fn contains_seq(hay: &Vec<char>, needle: &Vec<char>) -> (r: bool)
    ensures
        r == has_substring(hay@, needle@),
{
    if needle.len() == 0 {
        assert(hay@.subrange(0, 0) =~= needle@);
        assert(substring_at(hay@, needle@, 0));
        return true;
    }
    if needle.len() > hay.len() {
        assert(!has_substring(hay@, needle@));
        return false;
    }
    let end: usize = hay.len() - needle.len();
    let mut i: usize = 0;
    while i <= end
        invariant
            0 <= i <= end + 1,
            forall|k: int| 0 <= k < i ==> !substring_at(hay@, needle@, k),
        decreases end + 1 - i,
    {
        if substring_matches_at(hay, needle, i) {
            assert(substring_at(hay@, needle@, i as int));
            return true;
        }
        i = i + 1;
    }
    assert(forall|k: int|
        0 <= k <= hay@.len() - needle@.len() ==> !substring_at(hay@, needle@, k));
    false
}

/// Strict lexicographic order on character sequences, by code point.
pub open spec fn lex_lt(a: Seq<char>, b: Seq<char>) -> bool
    decreases a.len(),
{
    if b.len() == 0 {
        false
    } else if a.len() == 0 {
        true
    } else if (a[0] as u32) < (b[0] as u32) {
        true
    } else if (a[0] as u32) > (b[0] as u32) {
        false
    } else {
        lex_lt(a.drop_first(), b.drop_first())
    }
}

pub proof fn lemma_lex_lt_irrefl(a: Seq<char>)
    ensures
        !lex_lt(a, a),
    decreases a.len(),
{
    if a.len() > 0 {
        lemma_lex_lt_irrefl(a.drop_first());
    }
}

pub proof fn lemma_lex_lt_trans(a: Seq<char>, b: Seq<char>, c: Seq<char>)
    requires
        lex_lt(a, b),
        lex_lt(b, c),
    ensures
        lex_lt(a, c),
    decreases a.len(),
{
    if a.len() > 0 && b.len() > 0 && c.len() > 0
        && a[0] as u32 == b[0] as u32 && b[0] as u32 == c[0] as u32 {
        lemma_lex_lt_trans(a.drop_first(), b.drop_first(), c.drop_first());
    }
}

/// Totality: two sequences that are not strictly ordered either way are equal.
pub proof fn lemma_lex_lt_connex(a: Seq<char>, b: Seq<char>)
    requires
        !lex_lt(a, b),
        !lex_lt(b, a),
    ensures
        a == b,
    decreases a.len(),
{
    if a.len() == 0 || b.len() == 0 {
        assert(a =~= b);
    } else {
        lemma_lex_lt_connex(a.drop_first(), b.drop_first());
        vstd::utf8::char_u32_cast(a[0], a[0] as u32);
        vstd::utf8::char_u32_cast(b[0], b[0] as u32);
        assert(a[0] == b[0]);
        assert(a =~= seq![a[0]] + a.drop_first());
        assert(b =~= seq![b[0]] + b.drop_first());
    }
}

/// Decides `lex_lt` on character vectors.
#[verifier::loop_isolation(false)]
pub fn lex_lt_chars(a: &Vec<char>, b: &Vec<char>) -> (r: bool)
    ensures
        r == lex_lt(a@, b@),
{
    let mut i: usize = 0;
    assert(a@.skip(0) =~= a@);
    assert(b@.skip(0) =~= b@);
    while i < a.len() && i < b.len()
        invariant
            0 <= i <= a@.len(),
            0 <= i <= b@.len(),
            lex_lt(a@, b@) == lex_lt(a@.skip(i as int), b@.skip(i as int)),
        decreases a@.len() - i,
    {
        let ca = a[i] as u32;
        let cb = b[i] as u32;
        assert(a@.skip(i as int)[0] == a@[i as int]);
        assert(b@.skip(i as int)[0] == b@[i as int]);
        if ca < cb {
            return true;
        }
        if ca > cb {
            return false;
        }
        assert(a@.skip(i as int).drop_first() =~= a@.skip(i + 1));
        assert(b@.skip(i as int).drop_first() =~= b@.skip(i + 1));
        i = i + 1;
    }
    if i < b.len() {
        assert(a@.skip(i as int).len() == 0);
        assert(b@.skip(i as int).len() > 0);
        true
    } else {
        assert(b@.skip(i as int).len() == 0);
        false
    }
}

} // verus!
