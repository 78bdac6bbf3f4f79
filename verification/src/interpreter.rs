//! Whole runs: from a list of tokens, or from a program text, to what was
//! printed and how the run ended.

use vstd::prelude::*;
use crate::chars::is_digit;
use crate::decimal::{decimal_digits, lemma_numeral_is_literal, literal_value, to_decimal};
use crate::dictionary::{builtin_words, lemma_vocabulary, Dictionary, Op};
use crate::lexer::{atoms, lemma_first_atom, no_whitespace, tokenize, tokens_of};
use crate::machine::{fresh, run_effect, token_effect, Fault, Machine};
use crate::name::lemma_capitals_are_canonical;
use crate::token::{token_views, Token, TokenView};

verus! {

/// What a run leaves behind: the values it printed, in the order in which
/// it printed them, and the fault that stopped it, if one did. What was
/// printed before a fault stays printed.
#[derive(Debug, PartialEq, Eq)]
pub struct Outcome {
    pub output: Vec<u32>,
    pub fault: Option<Fault>,
}

/// An outcome as contracts see it.
pub struct OutcomeView {
    pub output: Seq<u32>,
    pub fault: Option<Fault>,
}

impl View for Outcome {
    type V = OutcomeView;

    open spec fn view(&self) -> OutcomeView {
        OutcomeView { output: self.output@, fault: self.fault }
    }
}

/// The outcome of running `tokens` from the fresh state with the words of
/// `words`.
pub open spec fn outcome_of(words: Map<Seq<char>, Op>, tokens: Seq<TokenView>) -> OutcomeView {
    let end = run_effect(words, fresh(), tokens);
    OutcomeView { output: end.0.output, fault: end.1 }
}

/// The outcome of a program text: that of its tokens, run with the
/// built-in words.
pub open spec fn interpretation(text: Seq<char>) -> OutcomeView {
    outcome_of(builtin_words(), tokens_of(text))
}

impl Clone for Outcome {
    fn clone(&self) -> (copy: Outcome)
        ensures
            copy@ == self@,
    {
        Outcome { output: self.output.clone(), fault: self.fault }
    }
}

/// Runs `tokens` on a fresh machine.
pub fn evaluate(dictionary: &Dictionary, tokens: &[Token]) -> (outcome: Outcome)
    ensures
        outcome@ == outcome_of(dictionary@, token_views(tokens@)),
{
    let mut machine = Machine::new();
    let fault = match machine.run(dictionary, tokens) {
        Ok(()) => None,
        Err(fault) => Some(fault),
    };
    Outcome { output: machine.output, fault }
}

/// Runs a program text: a fresh dictionary, a fresh machine, the tokens of
/// `text`.
pub fn interpret(text: &str) -> (outcome: Outcome)
    ensures
        outcome@ == interpretation(text@),
{
    let dictionary = Dictionary::new();
    let tokens = tokenize(text);
    evaluate(&dictionary, tokens.as_slice())
}

impl Outcome {
    /// The output as lines of text, without line ends: for each value
    /// printed its decimal numeral, and nothing else.
    pub fn lines(&self) -> (lines: Vec<String>)
        ensures
            lines@.len() == self.output@.len(),
            forall|i: int|
                0 <= i < lines@.len() ==> (#[trigger] lines@[i])@ == decimal_digits(
                    self.output@[i] as nat,
                ),
    {
        let mut lines: Vec<String> = Vec::new();
        let mut i: usize = 0;
        while i < self.output.len()
            invariant
                i <= self.output.len(),
                lines@.len() == i,
                forall|j: int|
                    0 <= j < i ==> (#[trigger] lines@[j])@ == decimal_digits(
                        self.output@[j] as nat,
                    ),
            decreases self.output.len() - i,
        {
            lines.push(to_decimal(self.output[i]));
            i = i + 1;
        }
        lines
    }
}

/// A literal, a space and a dot make a program that prints the literal's
/// number, prints nothing else and ends without a fault.
pub proof fn lemma_literal_is_printed(literal: Seq<char>, v: u32)
    requires
        literal_value(literal) == Some(v),
    ensures
        interpretation(literal + " ."@) == (OutcomeView { output: seq![v], fault: None }),
{
    reveal_strlit(" .");
    reveal_strlit(".");
    let tail = " ."@;
    let dot = "."@;
    assert(no_whitespace(literal)) by {
        assert forall|i: int| 0 <= i < literal.len() implies is_digit(#[trigger] literal[i]) by {}
    }
    lemma_first_atom(literal, tail);
    assert(tail.drop_first() =~= dot);
    assert(dot =~= dot + Seq::<char>::empty());
    lemma_first_atom(dot, seq![]);
    assert(atoms(literal + tail) =~= seq![literal, dot]);
    assert(literal_value(dot) is None) by {
        assert(!is_digit(dot[0]));
    }
    let tokens = seq![TokenView::Integer(v), TokenView::Word(dot)];
    assert(tokens_of(literal + tail) =~= tokens);
    lemma_capitals_are_canonical(dot);
    lemma_vocabulary();
    let words = builtin_words();
    let pushed = token_effect(words, fresh(), tokens[0])->Ok_0;
    assert(pushed.stack =~= seq![v]);
    let printed = token_effect(words, pushed, tokens[1])->Ok_0;
    assert(printed.stack =~= Seq::<u32>::empty());
    assert(printed.output =~= seq![v]);
    assert(tokens.drop_first() =~= seq![tokens[1]]);
    assert(tokens.drop_first().drop_first() =~= Seq::<TokenView>::empty());
    reveal_with_fuel(run_effect, 3);
}

/// For every 32-bit number, the program made of its decimal numeral, a
/// space and a dot prints exactly that number.
pub proof fn lemma_number_is_printed(v: u32)
    ensures
        interpretation(decimal_digits(v as nat) + " ."@) == (OutcomeView {
            output: seq![v],
            fault: None,
        }),
{
    lemma_numeral_is_literal(v);
    lemma_literal_is_printed(decimal_digits(v as nat), v);
}

/// A program text has one outcome: two runs of it, each on a fresh machine
/// with a fresh dictionary, print the same values and end alike.
pub proof fn lemma_runs_agree(text: Seq<char>, first: Outcome, second: Outcome)
    requires
        first@ == interpretation(text),
        second@ == interpretation(text),
    ensures
        first.output@ == second.output@,
        first.fault == second.fault,
{
}

} // verus!
