use miniforth::interpreter::{evaluate, interpret, Outcome};
use miniforth::dictionary::Dictionary;
use miniforth::lexer::tokenize;
use miniforth::machine::Fault;

fn printed(text: &str) -> Vec<u32> {
    let outcome = interpret(text);
    assert_eq!(outcome.fault, None);
    outcome.output
}

#[test]
fn a_literal_and_a_dot_print_the_literal() {
    assert_eq!(printed("0 ."), vec![0]);
    assert_eq!(printed("7 ."), vec![7]);
    assert_eq!(printed("4294967295 ."), vec![4294967295]);
    let mut v: u32 = 1;
    for _ in 0..31 {
        assert_eq!(printed(&format!("{} .", v)), vec![v]);
        assert_eq!(printed(&format!("{} .", v - 1)), vec![v - 1]);
        v *= 2;
    }
}

#[test]
fn addition_prints_the_sum() {
    assert_eq!(printed("3 4 + ."), vec![7]);
}

#[test]
fn subtraction_takes_the_top_from_the_value_below() {
    assert_eq!(printed("10 3 - ."), vec![7]);
}

#[test]
fn multiplication_prints_the_product() {
    assert_eq!(printed("6 7 * ."), vec![42]);
}

#[test]
fn division_divides_the_value_below_by_the_top() {
    assert_eq!(printed("20 4 / ."), vec![5]);
    assert_eq!(printed("7 2 / ."), vec![3]);
    assert_eq!(printed("0 9 / ."), vec![0]);
}

#[test]
fn dup_then_add_doubles() {
    assert_eq!(printed("5 DUP + ."), vec![10]);
}

#[test]
fn swap_puts_the_top_two_back_as_they_stood() {
    assert_eq!(printed("1 2 SWAP . ."), vec![2, 1]);
}

#[test]
fn rot_exchanges_the_two_values_below_the_top() {
    assert_eq!(printed("1 2 3 ROT . . ."), vec![3, 1, 2]);
}

#[test]
fn over_puts_the_top_below_the_top_two() {
    assert_eq!(printed("1 2 OVER . . ."), vec![2, 1, 2]);
}

#[test]
fn drop_discards_the_top() {
    assert_eq!(printed("1 2 DROP ."), vec![1]);
}

#[test]
fn division_by_zero_is_an_arithmetic_fault_and_prints_nothing() {
    let outcome = interpret("5 0 / .");
    assert_eq!(outcome.fault, Some(Fault::ArithmeticFault));
    assert_eq!(outcome.output, Vec::<u32>::new());
}

#[test]
fn an_unknown_word_is_a_fault() {
    let outcome = interpret("FOO");
    assert_eq!(outcome.fault, Some(Fault::UnknownWord));
    assert_eq!(outcome.output, Vec::<u32>::new());
}

#[test]
fn plus_on_an_empty_stack_underflows() {
    let outcome = interpret("+");
    assert_eq!(outcome.fault, Some(Fault::StackUnderflow));
    assert_eq!(outcome.output, Vec::<u32>::new());
}

#[test]
fn every_operation_underflows_on_too_few_values() {
    for text in [".", "DUP", "DROP", "1 +", "1 -", "1 *", "1 /", "1 OVER", "1 SWAP", "ROT", "1 ROT", "1 2 ROT"] {
        assert_eq!(interpret(text).fault, Some(Fault::StackUnderflow), "{}", text);
    }
}

#[test]
fn underflow_comes_before_division_by_zero() {
    assert_eq!(interpret("0 /").fault, Some(Fault::StackUnderflow));
}

#[test]
fn results_out_of_range_are_arithmetic_faults() {
    assert_eq!(interpret("4294967295 1 + .").fault, Some(Fault::ArithmeticFault));
    assert_eq!(interpret("3 10 - .").fault, Some(Fault::ArithmeticFault));
    assert_eq!(interpret("65536 65536 * .").fault, Some(Fault::ArithmeticFault));
    assert_eq!(printed("4294967294 1 + ."), vec![4294967295]);
    assert_eq!(printed("10 10 - ."), vec![0]);
    assert_eq!(printed("65535 65537 * ."), vec![4294967295]);
}

#[test]
fn two_runs_of_one_text_agree() {
    for text in ["1 2 3 ROT . . .", "5 DUP + . FOO 1 .", "9 0 /", "", "1 . 2 . +"] {
        let first = interpret(text);
        let second = interpret(text);
        assert_eq!(first, second);
        let dictionary = Dictionary::new();
        let third = evaluate(&dictionary, &tokenize(text));
        let fourth = evaluate(&dictionary, &tokenize(text));
        assert_eq!(third, first);
        assert_eq!(fourth, first);
    }
}

#[test]
fn what_was_printed_before_a_fault_stays() {
    let outcome = interpret("1 . 2 . FOO 3 .");
    assert_eq!(outcome, Outcome { output: vec![1, 2], fault: Some(Fault::UnknownWord) });
    let outcome = interpret("8 . 1 0 / 9 .");
    assert_eq!(outcome, Outcome { output: vec![8], fault: Some(Fault::ArithmeticFault) });
    let outcome = interpret("8 . . 9 .");
    assert_eq!(outcome, Outcome { output: vec![8], fault: Some(Fault::StackUnderflow) });
}

#[test]
fn the_empty_program_does_nothing() {
    assert_eq!(interpret(""), Outcome { output: vec![], fault: None });
    assert_eq!(interpret(" \t\r\n "), Outcome { output: vec![], fault: None });
    assert_eq!(interpret("1 2 3"), Outcome { output: vec![], fault: None });
}

#[test]
fn words_are_found_in_any_case() {
    assert_eq!(printed("5 dup + ."), vec![10]);
    assert_eq!(printed("1 2 Drop ."), vec![1]);
    assert_eq!(printed("1 2 oVeR . . ."), vec![2, 1, 2]);
    assert_eq!(printed("1 2 3 rot . . ."), vec![3, 1, 2]);
}

#[test]
fn a_word_outside_ascii_is_folded_by_unicode() {
    assert_eq!(printed("1 2 \u{17f}wap . ."), vec![2, 1]);
    assert_eq!(interpret("1 d\u{fc}p").fault, Some(Fault::UnknownWord));
}

#[test]
fn an_atom_with_a_sign_is_a_word() {
    assert_eq!(interpret("+5 .").fault, Some(Fault::UnknownWord));
    assert_eq!(interpret("-5 .").fault, Some(Fault::UnknownWord));
}

#[test]
fn a_numeral_beyond_32_bits_is_a_word() {
    assert_eq!(interpret("4294967296 .").fault, Some(Fault::UnknownWord));
    assert_eq!(interpret("99999999999999999999 .").fault, Some(Fault::UnknownWord));
}

#[test]
fn output_lines_are_decimal_numerals() {
    let outcome = interpret("0 . 42 . 4294967295 . 1000 .");
    let lines = outcome.lines();
    assert_eq!(lines, vec!["0".to_string(), "42".to_string(), "4294967295".to_string(), "1000".to_string()]);
    assert_eq!(interpret("FOO").lines(), Vec::<String>::new());
}

#[test]
fn a_copied_outcome_is_the_same_outcome() {
    let outcome = interpret("1 . 2 . +");
    assert_eq!(outcome.clone(), outcome);
}
