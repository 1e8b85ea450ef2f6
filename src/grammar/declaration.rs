use vstd::prelude::*;

use crate::grammar::{expression, statement};

verus! {

/// `var name;`
#[derive(Debug)]
pub struct Initialization {
    pub name: String,
}

/// `var name = definition;`
#[derive(Debug)]
pub struct Instantiation {
    pub name: String,
    pub definition: expression::Expression,
}

#[derive(Debug)]
pub struct Statement {
    pub stmt: statement::Statement,
}

/// A top-level unit of a program.
#[derive(Debug)]
pub enum Declaration {
    Init(Initialization),
    Inst(Instantiation),
    Stmt(Statement),
}

impl Declaration {
    pub fn initialization(name: String) -> (r: Self)
        ensures
            r == Declaration::Init(Initialization { name }),
    {
        Declaration::Init(Initialization { name })
    }

    pub fn instantiation(name: String, definition: expression::Expression) -> (r: Self)
        ensures
            r == Declaration::Inst(Instantiation { name, definition }),
    {
        Declaration::Inst(Instantiation { name, definition })
    }

    pub fn statement(stmt: statement::Statement) -> (r: Self)
        ensures
            r == Declaration::Stmt(Statement { stmt }),
    {
        Declaration::Stmt(Statement { stmt })
    }
}

} // verus!
