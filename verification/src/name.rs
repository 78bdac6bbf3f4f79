//! Canonical names: the upper-case form under which a word is looked up.

use vstd::prelude::*;
use vstd::utf8::is_ascii_chars;
use crate::chars::{ascii_upper, push_char, to_ascii_upper};

verus! {

/// `s` with each lower-case ASCII letter replaced by its capital.
pub open spec fn ascii_uppercase(s: Seq<char>) -> Seq<char> {
    Seq::new(s.len(), |i: int| ascii_upper(s[i]))
}

/// The upper-case form that the standard library's Unicode case mapping
/// gives to `s`.
pub uninterp spec fn unicode_uppercase(s: Seq<char>) -> Seq<char>;

/// The name under which a word is looked up. A word of ASCII characters is
/// folded letter by letter; any other word is mapped by Unicode's rules.
pub open spec fn canonical_name(word: Seq<char>) -> Seq<char> {
    if is_ascii_chars(word) {
        ascii_uppercase(word)
    } else {
        unicode_uppercase(word)
    }
}

/// Calls `str::to_uppercase`. The contract only gives the result its name:
/// the mapping depends on the characters of `s` and on nothing else.
#[verifier::external_body]
pub(crate) fn to_unicode_uppercase(s: &str) -> (r: String)
    ensures
        r@ == unicode_uppercase(s@),
{
    s.to_uppercase()
}

/// A word without lower-case ASCII letters, made of ASCII only, is its own
/// canonical name.
pub proof fn lemma_capitals_are_canonical(word: Seq<char>)
    requires
        is_ascii_chars(word),
        forall|i: int| 0 <= i < word.len() ==> !('a' <= #[trigger] word[i] <= 'z'),
    ensures
        canonical_name(word) == word,
{
    assert(ascii_uppercase(word) =~= word);
}

/// The canonical name of an ASCII word is canonical already: folding twice
/// is folding once.
pub proof fn lemma_canonical_twice(word: Seq<char>)
    requires
        is_ascii_chars(word),
    ensures
        is_ascii_chars(canonical_name(word)),
        canonical_name(canonical_name(word)) == canonical_name(word),
{
    let up = ascii_uppercase(word);
    assert forall|i: int| 0 <= i < up.len() implies '\0' <= #[trigger] up[i] <= '\u{7f}' && !('a'
        <= up[i] <= 'z') by {
        let c = word[i];
        assert('\0' <= c <= '\u{7f}');
    }
    lemma_capitals_are_canonical(up);
}

/// The canonical name of `word`.
pub fn canonical(word: &str) -> (name: String)
    ensures
        name@ == canonical_name(word@),
{
    if word.is_ascii() {
        let mut name = String::new();
        for c in it: word.chars()
            invariant
                it.seq() == word@,
                name@ == ascii_uppercase(word@.take(it.index() as int)),
        {
            push_char(&mut name, to_ascii_upper(c));
            assert(name@ =~= ascii_uppercase(word@.take(it.index() + 1)));
        }
        assert(word@.take(word@.len() as int) =~= word@);
        name
    } else {
        to_unicode_uppercase(word)
    }
}

} // verus!
