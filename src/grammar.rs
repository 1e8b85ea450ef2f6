//! The syntax tree: expressions, statements and declarations.

pub mod declaration;
pub mod expression;
pub mod statement;
