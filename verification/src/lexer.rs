//! The tokenizer: a program text cut into atoms at white space, each atom
//! classified.

use vstd::prelude::*;
use crate::chars::{is_space, is_whitespace, push_char};
use crate::token::{classify, token_views, Token, TokenView};

verus! {

/// No character of `s` is white space.
pub open spec fn no_whitespace(s: Seq<char>) -> bool {
    forall|i: int| 0 <= i < s.len() ==> !is_whitespace(#[trigger] s[i])
}

/// How many characters stand at the start of `s` before its first white
/// space, or before its end.
pub open spec fn atom_len(s: Seq<char>) -> nat
    decreases s.len(),
{
    if s.len() == 0 || is_whitespace(s[0]) {
        0
    } else {
        1 + atom_len(s.drop_first())
    }
}

/// The atoms of a text, in order: its longest stretches without white
/// space. White space itself belongs to no atom, and no atom is empty.
pub open spec fn atoms(s: Seq<char>) -> Seq<Seq<char>>
    decreases s.len(),
{
    if s.len() == 0 {
        seq![]
    } else if is_whitespace(s[0]) {
        atoms(s.drop_first())
    } else {
        proof {
            lemma_atom_len(s);
        }
        let n = atom_len(s) as int;
        seq![s.take(n)] + atoms(s.skip(n))
    }
}

/// Each atom of a list, classified.
pub open spec fn classify_all(atoms: Seq<Seq<char>>) -> Seq<TokenView> {
    atoms.map_values(|atom: Seq<char>| classify(atom))
}

/// The tokens of a text: its atoms, each classified.
pub open spec fn tokens_of(text: Seq<char>) -> Seq<TokenView> {
    classify_all(atoms(text))
}

/// The first atom lies within the text, holds no white space and ends at
/// white space or at the end of the text; it is empty only where the text
/// is, or starts with white space.
pub proof fn lemma_atom_len(s: Seq<char>)
    ensures
        atom_len(s) <= s.len(),
        no_whitespace(s.take(atom_len(s) as int)),
        atom_len(s) < s.len() ==> is_whitespace(s[atom_len(s) as int]),
        s.len() > 0 && !is_whitespace(s[0]) ==> atom_len(s) > 0,
    decreases s.len(),
{
    if s.len() == 0 || is_whitespace(s[0]) {
    } else {
        let t = s.drop_first();
        lemma_atom_len(t);
        let n = atom_len(s) as int;
        assert forall|i: int| 0 <= i < n implies !is_whitespace(#[trigger] s.take(n)[i]) by {
            if i > 0 {
                assert(s.take(n)[i] == t.take(n - 1)[i - 1]);
            }
        }
    }
}

/// A stretch without white space, followed by white space or by nothing,
/// is found whole.
pub proof fn lemma_atom_len_of_prefix(a: Seq<char>, rest: Seq<char>)
    requires
        no_whitespace(a),
        rest.len() == 0 || is_whitespace(rest[0]),
    ensures
        atom_len(a + rest) == a.len(),
    decreases a.len(),
{
    let s = a + rest;
    if a.len() == 0 {
        assert(s =~= rest);
    } else {
        assert(s[0] == a[0]);
        assert(s.drop_first() =~= a.drop_first() + rest);
        lemma_atom_len_of_prefix(a.drop_first(), rest);
    }
}

/// A stretch without white space, followed by white space or by nothing,
/// is the first atom, and the atoms of what follows come after it.
pub proof fn lemma_first_atom(a: Seq<char>, rest: Seq<char>)
    requires
        a.len() > 0,
        no_whitespace(a),
        rest.len() == 0 || is_whitespace(rest[0]),
    ensures
        atoms(a + rest) == seq![a] + atoms(rest),
{
    let s = a + rest;
    lemma_atom_len_of_prefix(a, rest);
    assert(s[0] == a[0]);
    assert(s.take(a.len() as int) =~= a);
    assert(s.skip(a.len() as int) =~= rest);
}

/// No atom is empty and none holds white space.
pub proof fn lemma_atoms_are_solid(s: Seq<char>)
    ensures
        forall|i: int|
            0 <= i < atoms(s).len() ==> (#[trigger] atoms(s)[i]).len() > 0 && no_whitespace(
                atoms(s)[i],
            ),
    decreases s.len(),
{
    if s.len() == 0 {
        assert(atoms(s).len() == 0);
    } else if is_whitespace(s[0]) {
        lemma_atoms_are_solid(s.drop_first());
        assert(atoms(s) == atoms(s.drop_first()));
    } else {
        lemma_atom_len(s);
        let n = atom_len(s) as int;
        let first = s.take(n);
        let others = atoms(s.skip(n));
        lemma_atoms_are_solid(s.skip(n));
        assert(atoms(s) == seq![first] + others);
        assert forall|i: int| 0 <= i < atoms(s).len() implies (#[trigger] atoms(s)[i]).len() > 0
            && no_whitespace(atoms(s)[i]) by {
            if i > 0 {
                assert(atoms(s)[i] == others[i - 1]);
            } else {
                assert(atoms(s)[i] == first);
            }
        }
    }
}

/// A text without atoms yields no token, and a text of white space has no
/// atoms.
pub proof fn lemma_blank_text(s: Seq<char>)
    requires
        forall|i: int| 0 <= i < s.len() ==> is_whitespace(#[trigger] s[i]),
    ensures
        atoms(s).len() == 0,
        tokens_of(s).len() == 0,
    decreases s.len(),
{
    if s.len() > 0 {
        lemma_blank_text(s.drop_first());
    }
}

/// A list of tokens that stands for a list of atoms still does with one
/// more of each.
proof fn lemma_one_more_token(tokens: Seq<Token>, token: Token, done: Seq<Seq<char>>, atom: Seq<char>)
    requires
        token_views(tokens) == classify_all(done),
        token@ == classify(atom),
    ensures
        token_views(tokens.push(token)) == classify_all(done.push(atom)),
{
    let left = token_views(tokens.push(token));
    let right = classify_all(done.push(atom));
    assert(tokens.len() == token_views(tokens).len());
    assert(done.len() == classify_all(done).len());
    assert forall|i: int| 0 <= i < left.len() implies left[i] == right[i] by {
        if i < tokens.len() {
            assert(left[i] == token_views(tokens)[i]);
            assert(right[i] == classify_all(done)[i]);
        }
    }
    assert(left =~= right);
}

/// Cuts `text` into tokens.
pub fn tokenize(text: &str) -> (tokens: Vec<Token>)
    ensures
        token_views(tokens@) == tokens_of(text@),
{
    let mut tokens: Vec<Token> = Vec::new();
    let mut atom = String::new();
    let ghost mut done: Seq<Seq<char>> = seq![];
    assert(atom@ + text@.skip(0) =~= text@);
    assert(token_views(tokens@) =~= classify_all(done));
    for c in it: text.chars()
        invariant
            it.seq() == text@,
            no_whitespace(atom@),
            atoms(text@) == done + atoms(atom@ + text@.skip(it.index() as int)),
            token_views(tokens@) == classify_all(done),
    {
        let ghost k = it.index() as int;
        let ghost rest = text@.skip(k);
        let ghost after = text@.skip(k + 1);
        let ghost pending = atom@;
        assert(rest[0] == c);
        assert(rest.drop_first() =~= after);
        if is_space(c) {
            if !atom.as_str().is_empty() {
                let token = Token::from_atom(atom.as_str());
                proof {
                    lemma_first_atom(pending, rest);
                    lemma_one_more_token(tokens@, token, done, pending);
                    assert(done + (seq![pending] + atoms(after)) =~= done.push(pending) + atoms(
                        after,
                    ));
                    done = done.push(pending);
                }
                tokens.push(token);
                atom = String::new();
            } else {
                assert(pending + rest =~= rest);
            }
            assert(atom@ + after =~= after);
        } else {
            push_char(&mut atom, c);
            assert(atom@ + after =~= pending + rest);
        }
    }
    assert(atom@ + text@.skip(text@.len() as int) =~= atom@);
    if !atom.as_str().is_empty() {
        let token = Token::from_atom(atom.as_str());
        proof {
            lemma_first_atom(atom@, seq![]);
            assert(atom@ + Seq::<char>::empty() =~= atom@);
            lemma_one_more_token(tokens@, token, done, atom@);
            assert(done + (seq![atom@] + atoms(seq![])) =~= done.push(atom@));
        }
        tokens.push(token);
    } else {
        assert(done + atoms(atom@) =~= done);
    }
    tokens
}

} // verus!
