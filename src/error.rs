use vstd::prelude::*;

use crate::grammar::expression::Expression;
use crate::text::{decimal, decimal_text};
use crate::token::Token;

verus! {

/// A syntax error, with the token at which it was found.
#[derive(Debug)]
pub struct ParserError {
    pub message: String,
    pub token: Token,
}

impl ParserError {
    pub fn new(message: String, token: Token) -> (r: Self)
        ensures
            r == (ParserError { message, token }),
    {
        ParserError { message, token }
    }
}

/// An evaluation error, with the expression whose evaluation failed.
#[derive(Debug)]
pub struct RuntimeError {
    pub message: String,
    pub expr: Expression,
}

impl RuntimeError {
    pub fn new(message: String, expr: Expression) -> (r: Self)
        ensures
            r == (RuntimeError { message, expr }),
    {
        RuntimeError { message, expr }
    }
}

/// The diagnostic line `[Line <line>] Error <cause>: <message>`.
pub open spec fn report_text(line: nat, cause: Seq<char>, message: Seq<char>) -> Seq<char> {
    "[Line "@ + decimal(line) + "] Error "@ + cause + ": "@ + message
}

/// The diagnostic line for `message` at `line`, with no cause.
pub fn error(line: usize, message: &str) -> (r: String)
    ensures
        r@ == report_text(line as nat, seq![], message@),
{
    proof {
        reveal_strlit("");
    }
    report(line, "", message)
}

/// The diagnostic line for `message` at `line`, caused by `cause`.
pub fn report(line: usize, cause: &str, message: &str) -> (r: String)
    ensures
        r@ == report_text(line as nat, cause@, message@),
{
    let mut s = String::from_str("[Line ");
    let d = decimal_text(line as u64);
    s.append(d.as_str());
    s.append("] Error ");
    s.append(cause);
    s.append(": ");
    s.append(message);
    s
}

} // verus!
