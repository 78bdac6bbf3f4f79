use miniforth::lexer::tokenize;
use miniforth::token::Token;

fn word(s: &str) -> Token {
    Token::Word(s.to_string())
}

#[test]
fn atoms_are_cut_at_white_space() {
    assert_eq!(
        tokenize("  12 dup\t+\n."),
        vec![Token::Integer(12), word("dup"), word("+"), word(".")]
    );
    assert_eq!(tokenize("1"), vec![Token::Integer(1)]);
    assert_eq!(tokenize("a b"), vec![word("a"), word("b")]);
    assert_eq!(tokenize("a  b "), vec![word("a"), word("b")]);
}

#[test]
fn no_atoms_no_tokens() {
    assert_eq!(tokenize(""), Vec::<Token>::new());
    assert_eq!(tokenize(" "), Vec::<Token>::new());
    assert_eq!(tokenize("\n\t \r\u{b}\u{c}"), Vec::<Token>::new());
}

#[test]
fn white_space_beyond_ascii_separates_too() {
    assert_eq!(
        tokenize("1\u{a0}2\u{3000}3\u{2028}4\u{85}5\u{1680}6\u{2003}7"),
        vec![
            Token::Integer(1),
            Token::Integer(2),
            Token::Integer(3),
            Token::Integer(4),
            Token::Integer(5),
            Token::Integer(6),
            Token::Integer(7)
        ]
    );
}

#[test]
fn characters_that_only_look_like_space_do_not_separate() {
    assert_eq!(tokenize("1\u{200b}2"), vec![word("1\u{200b}2")]);
    assert_eq!(tokenize("1\u{180e}2"), vec![word("1\u{180e}2")]);
    assert_eq!(tokenize("1\u{feff}2"), vec![word("1\u{feff}2")]);
}

#[test]
fn tokens_agree_with_the_standard_split() {
    let text = "3 4 + . \u{2009}DUP\u{205f}swap\u{202f}007 x\u{2029}y \u{1f}z";
    let expected: Vec<Token> = text.split_whitespace().map(Token::from_atom).collect();
    assert_eq!(tokenize(text), expected);
    assert_eq!(expected.len(), 10);
}

#[test]
fn words_keep_their_spelling() {
    assert_eq!(tokenize("Dup dUP DUP"), vec![word("Dup"), word("dUP"), word("DUP")]);
}

#[test]
fn literals_are_strings_of_digits_that_fit() {
    assert_eq!(Token::from_atom("0"), Token::Integer(0));
    assert_eq!(Token::from_atom("007"), Token::Integer(7));
    assert_eq!(Token::from_atom("4294967295"), Token::Integer(4294967295));
    assert_eq!(Token::from_atom("0000000000004294967295"), Token::Integer(4294967295));
    assert_eq!(Token::from_atom("4294967296"), word("4294967296"));
    assert_eq!(Token::from_atom("42949672950"), word("42949672950"));
    assert_eq!(Token::from_atom("12a"), word("12a"));
    assert_eq!(Token::from_atom("a12"), word("a12"));
    assert_eq!(Token::from_atom("+5"), word("+5"));
    assert_eq!(Token::from_atom("-5"), word("-5"));
    assert_eq!(Token::from_atom("1_000"), word("1_000"));
    assert_eq!(Token::from_atom("0x10"), word("0x10"));
    assert_eq!(Token::from_atom("\u{663}"), word("\u{663}"));
    assert_eq!(Token::from_atom(""), word(""));
}

#[test]
fn a_token_reads_back_as_text() {
    assert_eq!(Token::Integer(0).to_text(), "0");
    assert_eq!(Token::Integer(4294967295).to_text(), "4294967295");
    assert_eq!(Token::from_atom("007").to_text(), "7");
    assert_eq!(word("Dup").to_text(), "Dup");
}

#[test]
fn an_integer_token_has_a_value() {
    assert_eq!(Token::Integer(17).value(), 17);
    assert_eq!(Token::from_atom("4294967295").value(), 4294967295);
}

#[test]
fn a_cloned_token_is_the_same_token() {
    assert_eq!(Token::Integer(3).clone(), Token::Integer(3));
    assert_eq!(word("rot").clone(), word("rot"));
    assert_ne!(word("rot"), word("ROT"));
}
