//! A small interpreter for a Lisp-family language: lexer, parser, evaluator and
//! printer, each with a machine-checked contract.
//!
//! Source text is turned into tokens by [`lex::lex`], tokens into expressions by
//! [`parse::parse`], and expressions into values by [`runtime::eval`] against a
//! [`model::Runtime`] that owns the root scope.
//!
//! The library performs no floating-point arithmetic and no I/O. A double is kept
//! as the exact record of how it is computed (see [`model::Double`]), and what
//! `print` and `println` write is appended to [`model::Runtime::output`]; the
//! caller turns both into numbers and text.
pub mod depth;
pub mod equality;
pub mod error;
pub mod laws;
pub mod lex;
pub mod literal;
pub mod model;
pub mod parse;
pub mod runtime;
pub mod semantics;
pub mod text;
