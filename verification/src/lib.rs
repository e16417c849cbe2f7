//! The interpretation core of a small command-line shell.
//!
//! A line of shell source is turned into tokens by the [`parser::lexer`],
//! into a syntax tree by the [`parser`], and into a schedule of
//! operating-system operations by the [`evaluator`]. Every step is a
//! function on plain values with a proved contract; creating processes,
//! opening files and reading the terminal are left to the caller.

pub mod builtin;
pub mod error;
pub mod evaluator;
pub mod history;
pub mod parser;
pub mod prompt;
pub mod shell;
pub mod terminal;
pub mod text;
pub mod variable;
