use vstd::prelude::*;

use crate::number::Number;
use crate::token::TokenType;

verus! {

#[derive(Debug)]
pub enum Literal {
    String(String),
    Number(Number),
    True,
    False,
    Nil,
}

#[derive(Debug)]
pub struct Grouping {
    pub expr: Box<Expression>,
}

#[derive(Clone, Copy, Debug, PartialEq, Eq, Structural)]
pub enum UnaryOperator {
    Not,
    Minus,
}

#[derive(Debug)]
pub struct Unary {
    pub operator: UnaryOperator,
    pub expr: Box<Expression>,
}

#[derive(Clone, Copy, Debug, PartialEq, Eq, Structural)]
pub enum BinaryOperator {
    Equal,
    NotEqual,
    Less,
    LessEqual,
    Greater,
    GreaterEqual,
    Plus,
    Minus,
    Multiply,
    Divide,
    Comma,
}

#[derive(Debug)]
pub struct Binary {
    pub operator: BinaryOperator,
    pub left: Box<Expression>,
    pub right: Box<Expression>,
}

/// `condition ? left_branch : right_branch`
#[derive(Debug)]
pub struct Ternary {
    pub condition: Box<Expression>,
    pub left_branch: Box<Expression>,
    pub right_branch: Box<Expression>,
}

#[derive(Debug)]
pub struct Variable {
    pub name: String,
}

/// An expression; each node owns its sub-expressions.
#[derive(Debug)]
pub enum Expression {
    Literal(Literal),
    Grouping(Grouping),
    Unary(Unary),
    Binary(Binary),
    Ternary(Ternary),
    Variable(Variable),
}

/// The node `left op right`.
pub open spec fn binary_of(op: BinaryOperator, left: Expression, right: Expression) -> Expression {
    Expression::Binary(Binary { operator: op, left: Box::new(left), right: Box::new(right) })
}

/// The node `condition ? left : right`.
pub open spec fn ternary_of(
    condition: Expression,
    left: Expression,
    right: Expression,
) -> Expression {
    Expression::Ternary(
        Ternary {
            condition: Box::new(condition),
            left_branch: Box::new(left),
            right_branch: Box::new(right),
        },
    )
}

impl Expression {
    pub fn literal(l: Literal) -> (r: Self)
        ensures
            r == Expression::Literal(l),
    {
        Expression::Literal(l)
    }

    pub fn grouping(expr: Expression) -> (r: Self)
        ensures
            r == Expression::Grouping(Grouping { expr: Box::new(expr) }),
    {
        Expression::Grouping(Grouping { expr: Box::new(expr) })
    }

    pub fn unary(operator: UnaryOperator, expr: Expression) -> (r: Self)
        ensures
            r == Expression::Unary(Unary { operator, expr: Box::new(expr) }),
    {
        Expression::Unary(Unary { operator, expr: Box::new(expr) })
    }

    pub fn binary(operator: BinaryOperator, left_expr: Expression, right_expr: Expression) -> (r:
        Self)
        ensures
            r == binary_of(operator, left_expr, right_expr),
    {
        Expression::Binary(
            Binary { operator, left: Box::new(left_expr), right: Box::new(right_expr) },
        )
    }

    pub fn ternary(condition: Expression, left_branch: Expression, right_branch: Expression) -> (r:
        Self)
        ensures
            r == ternary_of(condition, left_branch, right_branch),
    {
        Expression::Ternary(
            Ternary {
                condition: Box::new(condition),
                left_branch: Box::new(left_branch),
                right_branch: Box::new(right_branch),
            },
        )
    }

    pub fn variable(name: String) -> (r: Self)
        ensures
            r == Expression::Variable(Variable { name }),
    {
        Expression::Variable(Variable { name })
    }

    /// A deep copy equal to `self`.
    pub fn copy(&self) -> (r: Self)
        ensures
            r == *self,
        decreases self,
    {
        match self {
            Expression::Literal(l) => Expression::Literal(l.copy()),
            Expression::Grouping(g) => Expression::grouping(g.expr.copy()),
            Expression::Unary(u) => Expression::unary(u.operator, u.expr.copy()),
            Expression::Binary(b) => Expression::binary(b.operator, b.left.copy(), b.right.copy()),
            Expression::Ternary(t) => Expression::ternary(
                t.condition.copy(),
                t.left_branch.copy(),
                t.right_branch.copy(),
            ),
            Expression::Variable(v) => Expression::variable(v.name.clone()),
        }
    }
}

impl Literal {
    pub fn copy(&self) -> (r: Self)
        ensures
            r == *self,
    {
        match self {
            Literal::String(s) => Literal::String(s.clone()),
            Literal::Number(n) => Literal::Number(*n),
            Literal::True => Literal::True,
            Literal::False => Literal::False,
            Literal::Nil => Literal::Nil,
        }
    }

    /// The literal that a token of this kind denotes, if any.
    pub open spec fn of_token(t: TokenType) -> Option<Literal> {
        match t {
            TokenType::String(s) => Some(Literal::String(s)),
            TokenType::Number(n) => Some(Literal::Number(n)),
            TokenType::True => Some(Literal::True),
            TokenType::False => Some(Literal::False),
            TokenType::Nil => Some(Literal::Nil),
            _ => None,
        }
    }

    pub fn from_token(t: &TokenType) -> (r: Option<Literal>)
        ensures
            r == Literal::of_token(*t),
    {
        match t {
            TokenType::String(s) => Some(Literal::String(s.clone())),
            TokenType::Number(n) => Some(Literal::Number(*n)),
            TokenType::True => Some(Literal::True),
            TokenType::False => Some(Literal::False),
            TokenType::Nil => Some(Literal::Nil),
            _ => None,
        }
    }
}

impl UnaryOperator {
    /// `!` and `-` in prefix position.
    pub open spec fn of_token(t: TokenType) -> Option<UnaryOperator> {
        match t {
            TokenType::Bang => Some(UnaryOperator::Not),
            TokenType::Minus => Some(UnaryOperator::Minus),
            _ => None,
        }
    }

    pub fn from_token(t: &TokenType) -> (r: Option<UnaryOperator>)
        ensures
            r == UnaryOperator::of_token(*t),
    {
        match t {
            TokenType::Bang => Some(UnaryOperator::Not),
            TokenType::Minus => Some(UnaryOperator::Minus),
            _ => None,
        }
    }
}

impl BinaryOperator {
    pub open spec fn of_token(t: TokenType) -> Option<BinaryOperator> {
        match t {
            TokenType::EqualEqual => Some(BinaryOperator::Equal),
            TokenType::BangEqual => Some(BinaryOperator::NotEqual),
            TokenType::Less => Some(BinaryOperator::Less),
            TokenType::LessEqual => Some(BinaryOperator::LessEqual),
            TokenType::Greater => Some(BinaryOperator::Greater),
            TokenType::GreaterEqual => Some(BinaryOperator::GreaterEqual),
            TokenType::Plus => Some(BinaryOperator::Plus),
            TokenType::Minus => Some(BinaryOperator::Minus),
            TokenType::Star => Some(BinaryOperator::Multiply),
            TokenType::Slash => Some(BinaryOperator::Divide),
            TokenType::Comma => Some(BinaryOperator::Comma),
            _ => None,
        }
    }

    pub fn from_token(t: &TokenType) -> (r: Option<BinaryOperator>)
        ensures
            r == BinaryOperator::of_token(*t),
    {
        match t {
            TokenType::EqualEqual => Some(BinaryOperator::Equal),
            TokenType::BangEqual => Some(BinaryOperator::NotEqual),
            TokenType::Less => Some(BinaryOperator::Less),
            TokenType::LessEqual => Some(BinaryOperator::LessEqual),
            TokenType::Greater => Some(BinaryOperator::Greater),
            TokenType::GreaterEqual => Some(BinaryOperator::GreaterEqual),
            TokenType::Plus => Some(BinaryOperator::Plus),
            TokenType::Minus => Some(BinaryOperator::Minus),
            TokenType::Star => Some(BinaryOperator::Multiply),
            TokenType::Slash => Some(BinaryOperator::Divide),
            TokenType::Comma => Some(BinaryOperator::Comma),
            _ => None,
        }
    }
}

} // verus!
