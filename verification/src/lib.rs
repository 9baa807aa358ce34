//! A pocket-calculator core: a verified tokenizer, recursive-descent parser
//! and evaluator for arithmetic expressions over IEEE-754 doubles, plus the
//! button-driven editor state machine that composes the expression text.
//!
//! Numbers are carried as their canonical decimal rendering (the text that
//! standard float formatting produces), so every piece of surrounding logic
//! is verified; only the primitive operations on doubles are delegated to
//! the `meval` crate behind trusted wrappers in `value`.

pub mod editor;
pub mod eval;
pub mod lexer;
pub mod parser;
pub mod value;

