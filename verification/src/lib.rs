//! Lexical scanner for the Ween markup/styling language.
//!
//! Source text is turned into a finite, ordered sequence of classified
//! tokens with 1-based line and column metadata.  The scanner never fails:
//! unrecognized characters become `Illegal` tokens, unterminated comments
//! and string literals are consumed through to the end of the input, and
//! the sequence always ends with exactly one `EndOfInput` token.

pub mod ast;
pub mod lexer;
pub mod scan;
pub mod token;
