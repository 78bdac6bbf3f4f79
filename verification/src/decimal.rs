//! Decimal numerals: reading one as a 32-bit number, and writing a number as
//! one.

use vstd::prelude::*;
use crate::chars::{digit_char, digit_for, digit_of, digit_value, is_digit, push_char};

verus! {

/// Every character of `s` is a decimal digit.
pub open spec fn all_digits(s: Seq<char>) -> bool {
    forall|i: int| 0 <= i < s.len() ==> is_digit(#[trigger] s[i])
}

/// The number that a string of decimal digits denotes, the first digit
/// counting most. Leading zeros change nothing.
pub open spec fn digits_value(s: Seq<char>) -> nat
    decreases s.len(),
{
    if s.len() == 0 {
        0
    } else {
        digits_value(s.drop_last()) * 10 + digit_value(s.last())
    }
}

/// What an atom is worth as a literal: the number it denotes, where it is
/// made of decimal digits only, of at least one, and the number fits in 32
/// bits; `None` for every other atom. A sign is no digit.
pub open spec fn literal_value(s: Seq<char>) -> Option<u32> {
    if s.len() > 0 && all_digits(s) && digits_value(s) <= u32::MAX {
        Some(digits_value(s) as u32)
    } else {
        None
    }
}

/// The decimal numeral of `v`, without leading zeros.
pub open spec fn decimal_digits(v: nat) -> Seq<char>
    decreases v,
{
    if v < 10 {
        seq![digit_char(v)]
    } else {
        decimal_digits(v / 10).push(digit_char(v % 10))
    }
}

/// A string of digits denotes at least what any of its beginnings denotes.
pub proof fn lemma_value_grows(s: Seq<char>, k: int)
    requires
        0 <= k <= s.len(),
    ensures
        digits_value(s.take(k)) <= digits_value(s),
    decreases s.len(),
{
    if k == s.len() {
        assert(s.take(k) =~= s);
    } else {
        lemma_value_grows(s.drop_last(), k);
        assert(s.drop_last().take(k) =~= s.take(k));
    }
}

/// Reading a numeral gives back the number it was written for.
pub proof fn lemma_decimal_round_trip(v: nat)
    ensures
        decimal_digits(v).len() > 0,
        all_digits(decimal_digits(v)),
        digits_value(decimal_digits(v)) == v,
    decreases v,
{
    if v < 10 {
        let s = decimal_digits(v);
        assert(s.drop_last() =~= Seq::<char>::empty());
        assert(digits_value(s.drop_last()) == 0);
    } else {
        lemma_decimal_round_trip(v / 10);
        let s = decimal_digits(v);
        assert(s.drop_last() =~= decimal_digits(v / 10));
    }
}

/// The numeral of a 32-bit number is a literal, worth that number.
pub proof fn lemma_numeral_is_literal(v: u32)
    ensures
        literal_value(decimal_digits(v as nat)) == Some(v),
{
    lemma_decimal_round_trip(v as nat);
}

/// Reads `atom` as a literal.
pub fn parse_literal(atom: &str) -> (r: Option<u32>)
    ensures
        r == literal_value(atom@),
{
    if atom.is_empty() {
        return None;
    }
    let mut acc: u32 = 0;
    for c in it: atom.chars()
        invariant
            it.seq() == atom@,
            all_digits(atom@.take(it.index() as int)),
            acc == digits_value(atom@.take(it.index() as int)),
    {
        let ghost k = it.index() as int;
        assert(atom@.take(k + 1).drop_last() =~= atom@.take(k));
        match digit_of(c) {
            None => {
                return None;
            },
            Some(d) => {
                if acc > (u32::MAX - d) / 10 {
                    proof {
                        lemma_value_grows(atom@, k + 1);
                    }
                    return None;
                }
                acc = acc * 10 + d;
            },
        }
    }
    assert(atom@.take(atom@.len() as int) =~= atom@);
    Some(acc)
}

/// Appends the decimal numeral of `v` to `s`.
pub fn write_decimal(s: &mut String, v: u32)
    ensures
        final(s)@ == old(s)@ + decimal_digits(v as nat),
    decreases v,
{
    if v >= 10 {
        write_decimal(s, v / 10);
    }
    push_char(s, digit_for(v % 10));
    assert(s@ =~= old(s)@ + decimal_digits(v as nat));
}

/// The decimal numeral of `v`, without leading zeros.
pub fn to_decimal(v: u32) -> (s: String)
    ensures
        s@ == decimal_digits(v as nat),
{
    let mut s = String::new();
    write_decimal(&mut s, v);
    assert(s@ =~= decimal_digits(v as nat));
    s
}

} // verus!
