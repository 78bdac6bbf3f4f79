//! The stack machine: what each operation does to the stack and to the
//! output, and the evaluator that runs tokens through it.

use vstd::prelude::*;
use crate::dictionary::{resolve, Dictionary, Op};
use crate::token::{token_views, Token, TokenView};

verus! {

/// Why a run stopped before its last token.
#[derive(Debug, Clone, Copy, PartialEq, Eq, Structural)]
pub enum Fault {
    /// A word that the dictionary does not hold.
    UnknownWord,
    /// An operation found fewer values on the stack than it takes.
    StackUnderflow,
    /// A division by zero, or a result that 32 unsigned bits cannot hold.
    ArithmeticFault,
}

/// The state of a run: the stack, its top last, and the values printed so
/// far, the first printed first.
pub struct State {
    pub stack: Seq<u32>,
    pub output: Seq<u32>,
}

/// The state in which every run starts: nothing on the stack, nothing
/// printed.
pub open spec fn fresh() -> State {
    State { stack: Seq::empty(), output: Seq::empty() }
}

/// How many values an operation takes off the stack.
pub open spec fn operands(op: Op) -> nat {
    match op {
        Op::Print | Op::Dup | Op::Drop => 1,
        Op::Add | Op::Sub | Op::Mul | Op::Div | Op::Over | Op::Swap => 2,
        Op::Rotate => 3,
    }
}

/// `stack` with its topmost `k` values replaced by `put`, whose last value
/// becomes the new top.
pub open spec fn replace_top(stack: Seq<u32>, k: nat, put: Seq<u32>) -> Seq<u32> {
    stack.take(stack.len() - k) + put
}

/// The state after one operation, or the fault that stops it.
///
/// With fewer values on the stack than the operation takes, the fault is
/// `StackUnderflow`. Else, with `x` the top, `y` the value below it and `z`
/// the one below that, the operation takes its operands off and puts back:
/// `Add` the sum, `Sub` the difference `y - x`, `Mul` the product, `Div`
/// the quotient `y / x`, each an `ArithmeticFault` where the result is not
/// a 32-bit unsigned number or the divisor is zero; `Dup` gives `x`, `x`;
/// `Rotate` gives `y`, `z`, `x`; `Over` gives `x`, `y`, `x`; `Swap` gives
/// `y`, `x`, the last named on top. `Print` takes `x` off and appends it
/// to the output; `Drop` takes it off.
pub open spec fn op_effect(s: State, op: Op) -> Result<State, Fault> {
    let n = s.stack.len() as int;
    if n < operands(op) {
        Err(Fault::StackUnderflow)
    } else {
        let x = s.stack[n - 1];
        let y = s.stack[n - 2];
        let z = s.stack[n - 3];
        match op {
            Op::Print => Ok(
                State { stack: replace_top(s.stack, 1, seq![]), output: s.output.push(x) },
            ),
            Op::Add => if x + y <= u32::MAX {
                Ok(State { stack: replace_top(s.stack, 2, seq![(x + y) as u32]), ..s })
            } else {
                Err(Fault::ArithmeticFault)
            },
            Op::Sub => if x <= y {
                Ok(State { stack: replace_top(s.stack, 2, seq![(y - x) as u32]), ..s })
            } else {
                Err(Fault::ArithmeticFault)
            },
            Op::Mul => if x * y <= u32::MAX {
                Ok(State { stack: replace_top(s.stack, 2, seq![(x * y) as u32]), ..s })
            } else {
                Err(Fault::ArithmeticFault)
            },
            Op::Div => if x != 0 {
                Ok(State { stack: replace_top(s.stack, 2, seq![(y / x) as u32]), ..s })
            } else {
                Err(Fault::ArithmeticFault)
            },
            Op::Dup => Ok(State { stack: replace_top(s.stack, 1, seq![x, x]), ..s }),
            Op::Rotate => Ok(State { stack: replace_top(s.stack, 3, seq![y, z, x]), ..s }),
            Op::Over => Ok(State { stack: replace_top(s.stack, 2, seq![x, y, x]), ..s }),
            Op::Swap => Ok(State { stack: replace_top(s.stack, 2, seq![y, x]), ..s }),
            Op::Drop => Ok(State { stack: replace_top(s.stack, 1, seq![]), ..s }),
        }
    }
}

/// The state after one token, or the fault that stops it: a literal is
/// pushed; a word is resolved in `words` and its operation carried out,
/// and a word that `words` does not hold is an `UnknownWord`.
pub open spec fn token_effect(words: Map<Seq<char>, Op>, s: State, token: TokenView) -> Result<
    State,
    Fault,
> {
    match token {
        TokenView::Integer(v) => Ok(State { stack: s.stack.push(v), ..s }),
        TokenView::Word(w) => match resolve(words, w) {
            Some(op) => op_effect(s, op),
            None => Err(Fault::UnknownWord),
        },
    }
}

/// Where a run of `tokens` from state `s` ends: the tokens take effect from
/// the first on, and the first fault stops the run in the state reached
/// before it. Without a fault every token has taken effect.
pub open spec fn run_effect(words: Map<Seq<char>, Op>, s: State, tokens: Seq<TokenView>) -> (
    State,
    Option<Fault>,
)
    decreases tokens.len(),
{
    if tokens.len() == 0 {
        (s, None)
    } else {
        match token_effect(words, s, tokens[0]) {
            Ok(next) => run_effect(words, next, tokens.drop_first()),
            Err(fault) => (s, Some(fault)),
        }
    }
}

/// A stack and the output printed so far.
pub struct Machine {
    pub stack: Vec<u32>,
    pub output: Vec<u32>,
}

impl View for Machine {
    type V = State;

    open spec fn view(&self) -> State {
        State { stack: self.stack@, output: self.output@ }
    }
}

impl Op {
    /// How many values the operation takes off the stack.
    pub fn operands(self) -> (n: usize)
        ensures
            n == operands(self),
    {
        match self {
            Op::Print | Op::Dup | Op::Drop => 1,
            Op::Add | Op::Sub | Op::Mul | Op::Div | Op::Over | Op::Swap => 2,
            Op::Rotate => 3,
        }
    }
}

impl Machine {
    /// A machine in the fresh state.
    pub fn new() -> (m: Machine)
        ensures
            m@ == fresh(),
    {
        Machine { stack: Vec::new(), output: Vec::new() }
    }

    /// Takes the top value off. Callers have checked that there is one.
    fn pop(&mut self) -> (x: u32)
        requires
            old(self).stack@.len() > 0,
        ensures
            x == old(self).stack@.last(),
            final(self).stack@ == old(self).stack@.drop_last(),
            final(self).output@ == old(self).output@,
    {
        match self.stack.pop() {
            Some(x) => x,
            None => vstd::pervasive::unreached(),
        }
    }

    /// Ends an arithmetic operation: replaces the two operands by the
    /// result, or reports that there is none.
    fn put_result(&mut self, result: Option<u32>) -> (r: Result<(), Fault>)
        requires
            old(self).stack@.len() >= 2,
        ensures
            match result {
                Some(v) => r is Ok && final(self)@ == (State {
                    stack: replace_top(old(self).stack@, 2, seq![v]),
                    ..old(self)@
                }),
                None => r == Err::<(), Fault>(Fault::ArithmeticFault) && final(self)@ == old(
                    self,
                )@,
            },
    {
        match result {
            Some(v) => {
                self.pop();
                self.pop();
                self.stack.push(v);
                assert(self.stack@ =~= replace_top(old(self).stack@, 2, seq![v]));
                Ok(())
            },
            None => Err(Fault::ArithmeticFault),
        }
    }

    /// Carries out one operation. A fault leaves the machine as it was.
    pub fn apply(&mut self, op: Op) -> (r: Result<(), Fault>)
        ensures
            match op_effect(old(self)@, op) {
                Ok(next) => r is Ok && final(self)@ == next,
                Err(fault) => r == Err::<(), Fault>(fault) && final(self)@ == old(self)@,
            },
    {
        let n = self.stack.len();
        if n < op.operands() {
            return Err(Fault::StackUnderflow);
        }
        match op {
            Op::Print => {
                let x = self.pop();
                self.output.push(x);
            },
            Op::Add => {
                let sum = self.stack[n - 1].checked_add(self.stack[n - 2]);
                return self.put_result(sum);
            },
            Op::Sub => {
                let difference = self.stack[n - 2].checked_sub(self.stack[n - 1]);
                return self.put_result(difference);
            },
            Op::Mul => {
                let product = self.stack[n - 1].checked_mul(self.stack[n - 2]);
                return self.put_result(product);
            },
            Op::Div => {
                let quotient = self.stack[n - 2].checked_div(self.stack[n - 1]);
                return self.put_result(quotient);
            },
            Op::Dup => {
                let x = self.pop();
                self.stack.push(x);
                self.stack.push(x);
            },
            Op::Rotate => {
                let x = self.pop();
                let y = self.pop();
                let z = self.pop();
                self.stack.push(y);
                self.stack.push(z);
                self.stack.push(x);
            },
            Op::Over => {
                let x = self.pop();
                let y = self.pop();
                self.stack.push(x);
                self.stack.push(y);
                self.stack.push(x);
            },
            Op::Swap => {
                let x = self.pop();
                let y = self.pop();
                self.stack.push(y);
                self.stack.push(x);
            },
            Op::Drop => {
                self.pop();
            },
        }
        assert(self@.stack =~= op_effect(old(self)@, op)->Ok_0.stack);
        Ok(())
    }

    /// Carries out one token. A fault leaves the machine as it was.
    pub fn step(&mut self, dictionary: &Dictionary, token: &Token) -> (r: Result<(), Fault>)
        ensures
            match token_effect(dictionary@, old(self)@, token@) {
                Ok(next) => r is Ok && final(self)@ == next,
                Err(fault) => r == Err::<(), Fault>(fault) && final(self)@ == old(self)@,
            },
    {
        match token {
            Token::Integer(_) => {
                self.stack.push(token.value());
                Ok(())
            },
            Token::Word(word) => match dictionary.lookup(word.as_str()) {
                Some(op) => self.apply(op),
                None => Err(Fault::UnknownWord),
            },
        }
    }

    /// Carries out `tokens` in order and stops at the first fault, which it
    /// returns; the machine is then in the state it had reached before the
    /// faulting token.
    pub fn run(&mut self, dictionary: &Dictionary, tokens: &[Token]) -> (r: Result<(), Fault>)
        ensures
            final(self)@ == run_effect(dictionary@, old(self)@, token_views(tokens@)).0,
            match run_effect(dictionary@, old(self)@, token_views(tokens@)).1 {
                None => r is Ok,
                Some(fault) => r == Err::<(), Fault>(fault),
            },
    {
        let ghost all = token_views(tokens@);
        let mut i: usize = 0;
        assert(all.skip(0) =~= all);
        while i < tokens.len()
            invariant
                i <= tokens.len(),
                all == token_views(tokens@),
                run_effect(dictionary@, old(self)@, all) == run_effect(
                    dictionary@,
                    self@,
                    all.skip(i as int),
                ),
            decreases tokens.len() - i,
        {
            assert(all.skip(i as int).drop_first() =~= all.skip(i + 1));
            assert(all.skip(i as int)[0] == tokens@[i as int]@);
            match self.step(dictionary, &tokens[i]) {
                Ok(()) => {},
                Err(fault) => {
                    return Err(fault);
                },
            }
            i = i + 1;
        }
        Ok(())
    }
}

} // verus!
