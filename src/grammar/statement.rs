use vstd::prelude::*;

use crate::grammar::expression;

verus! {

/// An expression evaluated for its effects; the value is discarded.
#[derive(Debug)]
pub struct Expression {
    pub expr: expression::Expression,
}

/// An expression whose value is printed.
#[derive(Debug)]
pub struct Print {
    pub expr: expression::Expression,
}

#[derive(Debug)]
pub enum Statement {
    Expression(Expression),
    Print(Print),
}

impl Statement {
    pub fn expression(expr: expression::Expression) -> (r: Self)
        ensures
            r == Statement::Expression(Expression { expr }),
    {
        Statement::Expression(Expression { expr })
    }

    pub fn print(expr: expression::Expression) -> (r: Self)
        ensures
            r == Statement::Print(Print { expr }),
    {
        Statement::Print(Print { expr })
    }
}

} // verus!
