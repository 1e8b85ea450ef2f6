//! A front end and tree-walking evaluator for a small expression language:
//! tokens are parsed into declarations with error recovery, then evaluated
//! against one flat environment.
//!
//! Numbers are exact rationals with an `i64` numerator and denominator, not
//! binary64 floats. This differs from double arithmetic in three ways:
//! - arithmetic whose reduced result leaves the `i64` range is a runtime
//!   error ("numeric result out of range") instead of a rounded value;
//! - a number literal beyond that range is a scanning error ("number literal
//!   out of range");
//! - results are exact where binary64 rounds: `0.1 + 0.2 == 0.3` is true.

pub mod environment;
pub mod error;
pub mod grammar;
pub mod interpreter;
pub mod lox;
pub mod number;
pub mod parser;
pub mod printer;
pub mod scanner;
pub mod text;
pub mod token;
pub mod value;
