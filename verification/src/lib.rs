//! An interpreter for a small s-expression language: a tokenizer, a parser
//! that builds the syntax tree, and an evaluator over persistent
//! environments with closures and native procedures.
//!
//! Every function states its behaviour as a contract over mathematical
//! models, `Seq<char>` for text and `Map` for environments, and is verified
//! against it:
//!
//! - [`lexer`] and [`tokens`]: from characters to tokens, as [`lexer::lex_at`]
//!   defines them;
//! - [`parser`] and [`expressions`]: from tokens to forms, as
//!   [`parser::parse_spec`] defines them;
//! - [`semantics`]: what every form evaluates to, [`semantics::eval_spec`];
//! - [`runtime`], [`values`] and [`env`]: the evaluator that computes it;
//! - [`stdlib`]: the native procedures and the loading of source texts;
//! - [`floats`]: single-precision numbers, held by their bits, with a table
//!   of results that the caller supplies;
//! - [`laws`]: what holds of the parser and the evaluator on all inputs,
//!   among it that a function bound by `let` can call itself.
//!
//! Environments are kept in the persistent hash map of the crate `im`. The
//! proofs rest on what [`env`] states of its operations.

pub mod chars;
pub mod env;
pub mod expressions;
pub mod floats;
pub mod laws;
pub mod lexer;
pub mod parser;
pub mod runtime;
pub mod semantics;
pub mod stdlib;
pub mod tokens;
pub mod values;
