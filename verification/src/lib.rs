//! A tokenizer for a small imperative language, with its behaviour stated
//! in contracts and proved.
//!
//! Two engines read the same language. [`tokenize`] drives a table of
//! prioritized regex rules over a whole text and returns all its tokens.
//! [`scanner::Lexer`] walks a byte buffer by hand and hands out one token
//! per call. Both report failures as values of [`LexError`].
//!
//! - [`token`]: kinds and tokens.
//! - [`error`]: the failures of a tokenization.
//! - [`rules`]: the rule table as data, and what each handler emits.
//! - [`literal`]: decoding of character and string literals and of words.
//! - [`lexer`]: the rule-table engine and the definition of its result.
//! - [`grammar`]: the grammar over bytes that the scanner follows.
//! - [`scanner`]: the byte scanner.
//! - [`laws`]: what holds of every tokenization.
//! - [`trusted`]: the calls into code that is not verified.
pub mod error;
pub mod grammar;
pub mod laws;
pub mod lexer;
pub mod literal;
pub mod rules;
pub mod scanner;
pub mod token;
pub mod trusted;

pub use error::{LexError, LiteralError};
pub use lexer::tokenize;
pub use token::{Token, TokenKind};
