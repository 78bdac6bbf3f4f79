//! Tokens: the classified atoms of a program text.

use vstd::prelude::*;
use crate::decimal::{decimal_digits, literal_value, parse_literal, to_decimal};

verus! {

/// One atom of a program: a number to push, or the name of an operation.
#[derive(Debug, PartialEq, Eq)]
pub enum Token {
    /// A numeric literal.
    Integer(u32),
    /// A word, spelled as the program text spells it.
    Word(String),
}

/// A token as contracts see it: a word is the sequence of its characters.
pub enum TokenView {
    Integer(u32),
    Word(Seq<char>),
}

impl View for Token {
    type V = TokenView;

    open spec fn view(&self) -> TokenView {
        match self {
            Token::Integer(i) => TokenView::Integer(*i),
            Token::Word(w) => TokenView::Word(w@),
        }
    }
}

/// The tokens of a list as contracts see them.
pub open spec fn token_views(tokens: Seq<Token>) -> Seq<TokenView> {
    tokens.map_values(|t: Token| t@)
}

/// The token that an atom is: a literal where it reads as one, else a word
/// in the atom's own spelling.
pub open spec fn classify(atom: Seq<char>) -> TokenView {
    match literal_value(atom) {
        Some(v) => TokenView::Integer(v),
        None => TokenView::Word(atom),
    }
}

/// How a token is written: a literal as its decimal numeral, a word as it
/// is spelled.
pub open spec fn token_text(token: TokenView) -> Seq<char> {
    match token {
        TokenView::Integer(i) => decimal_digits(i as nat),
        TokenView::Word(w) => w,
    }
}

impl Clone for Token {
    fn clone(&self) -> (copy: Token)
        ensures
            copy@ == self@,
    {
        match self {
            Token::Integer(i) => Token::Integer(*i),
            Token::Word(w) => Token::Word(w.clone()),
        }
    }
}

impl Token {
    /// The number that an `Integer` token carries.
    pub fn value(&self) -> (v: u32)
        requires
            self is Integer,
        ensures
            self@ == TokenView::Integer(v),
    {
        match self {
            Token::Integer(i) => *i,
            Token::Word(_) => vstd::pervasive::unreached(),
        }
    }

    /// Classifies one atom.
    pub fn from_atom(atom: &str) -> (token: Token)
        ensures
            token@ == classify(atom@),
    {
        match parse_literal(atom) {
            Some(v) => Token::Integer(v),
            None => Token::Word(atom.to_owned()),
        }
    }

    /// The token as text.
    pub fn to_text(&self) -> (text: String)
        ensures
            text@ == token_text(self@),
    {
        match self {
            Token::Integer(i) => to_decimal(*i),
            Token::Word(w) => w.clone(),
        }
    }
}

} // verus!
