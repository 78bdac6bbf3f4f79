//! A small stack language. A program is a text of atoms separated by white
//! space. An atom made of decimal digits that fits in 32 bits is a literal
//! and is pushed on the stack; every other atom is a word, which names one
//! of ten operations, in upper or lower case. A run prints numbers and
//! ends after the last token, or at the first fault.
//!
//! - [`chars`], [`decimal`], [`name`]: characters, numerals, and the
//!   canonical form of a word;
//! - [`token`], [`lexer`]: from a text to its tokens;
//! - [`dictionary`]: the operations and the words that name them;
//! - [`machine`]: what each operation and each token does to the stack;
//! - [`interpreter`]: whole runs, and what holds of all of them.

pub mod chars;
pub mod decimal;
pub mod dictionary;
pub mod interpreter;
pub mod lexer;
pub mod machine;
pub mod name;
pub mod token;
