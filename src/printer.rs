use vstd::prelude::*;

use crate::error::{ParserError, RuntimeError};
use crate::grammar::declaration::Declaration;
use crate::grammar::expression::{BinaryOperator, Expression, Literal, UnaryOperator};
use crate::grammar::statement::Statement;
use crate::text::{decimal, decimal_text, number_text, number_to_text};
use crate::token::{Token, TokenType};

verus! {

pub open spec fn binary_operator_text(op: BinaryOperator) -> Seq<char> {
    match op {
        BinaryOperator::Equal => "=="@,
        BinaryOperator::NotEqual => "!="@,
        BinaryOperator::Less => "<"@,
        BinaryOperator::LessEqual => "<="@,
        BinaryOperator::Greater => ">"@,
        BinaryOperator::GreaterEqual => ">="@,
        BinaryOperator::Plus => "+"@,
        BinaryOperator::Minus => "-"@,
        BinaryOperator::Multiply => "*"@,
        BinaryOperator::Divide => "/"@,
        BinaryOperator::Comma => ","@,
    }
}

pub open spec fn unary_operator_text(op: UnaryOperator) -> Seq<char> {
    match op {
        UnaryOperator::Minus => "-"@,
        UnaryOperator::Not => "!"@,
    }
}

pub open spec fn literal_text(l: Literal) -> Seq<char> {
    match l {
        Literal::String(s) => "\""@ + s@ + "\""@,
        Literal::Number(n) => number_text(n),
        Literal::True => "true"@,
        Literal::False => "false"@,
        Literal::Nil => "nil"@,
    }
}

/// The canonical text of an expression: one spelling per operator, groupings
/// in parentheses, binary operators and ternaries spaced.
pub open spec fn expression_text(e: Expression) -> Seq<char>
    decreases e,
{
    match e {
        Expression::Literal(l) => literal_text(l),
        Expression::Grouping(g) => "("@ + expression_text(*g.expr) + ")"@,
        Expression::Unary(u) => unary_operator_text(u.operator) + expression_text(*u.expr),
        Expression::Binary(b) => expression_text(*b.left) + " "@ + binary_operator_text(b.operator)
            + " "@ + expression_text(*b.right),
        Expression::Ternary(t) => expression_text(*t.condition) + " ? "@ + expression_text(
            *t.left_branch,
        ) + " : "@ + expression_text(*t.right_branch),
        Expression::Variable(v) => v.name@,
    }
}

pub open spec fn statement_text(s: Statement) -> Seq<char> {
    match s {
        Statement::Expression(x) => expression_text(x.expr) + ";"@,
        Statement::Print(p) => "print "@ + expression_text(p.expr) + ";"@,
    }
}

pub open spec fn declaration_text(d: Declaration) -> Seq<char> {
    match d {
        Declaration::Init(i) => "var "@ + i.name@ + ";"@,
        Declaration::Inst(i) => "var "@ + i.name@ + " = "@ + expression_text(i.definition) + ";"@,
        Declaration::Stmt(s) => statement_text(s.stmt),
    }
}

/// How a token is named in messages: punctuation and keywords quoted, values as they are.
pub open spec fn token_type_text(k: TokenType) -> Seq<char> {
    match k {
        TokenType::Identifier(i) => i@,
        TokenType::String(s) => s@,
        TokenType::Number(n) => number_text(n),
        TokenType::LeftParen => "'('"@,
        TokenType::RightParen => "')'"@,
        TokenType::LeftBrace => "'{'"@,
        TokenType::RightBrace => "'}'"@,
        TokenType::Comma => "','"@,
        TokenType::Dot => "'.'"@,
        TokenType::Minus => "'-'"@,
        TokenType::Plus => "'+'"@,
        TokenType::Semicolon => "';'"@,
        TokenType::Slash => "'/'"@,
        TokenType::Star => "'*'"@,
        TokenType::QuestionMark => "'?'"@,
        TokenType::Colon => "':'"@,
        TokenType::Bang => "'!'"@,
        TokenType::BangEqual => "'!='"@,
        TokenType::Equal => "'='"@,
        TokenType::EqualEqual => "'=='"@,
        TokenType::Greater => "'>'"@,
        TokenType::GreaterEqual => "'>='"@,
        TokenType::Less => "'<'"@,
        TokenType::LessEqual => "'<='"@,
        TokenType::And => "'and'"@,
        TokenType::Class => "'class'"@,
        TokenType::Else => "'else'"@,
        TokenType::False => "'false'"@,
        TokenType::Fun => "'fun'"@,
        TokenType::For => "'for'"@,
        TokenType::If => "'if'"@,
        TokenType::Nil => "'nil'"@,
        TokenType::Or => "'or'"@,
        TokenType::Print => "'print'"@,
        TokenType::Return => "'return'"@,
        TokenType::Super => "'super'"@,
        TokenType::This => "'this'"@,
        TokenType::True => "'true'"@,
        TokenType::Var => "'var'"@,
        TokenType::While => "'while'"@,
        TokenType::EOF => "<EOF>"@,
    }
}

fn binary_operator_to_text(op: BinaryOperator) -> (r: &'static str)
    ensures
        r@ == binary_operator_text(op),
{
    match op {
            BinaryOperator::Equal => "==",
            BinaryOperator::NotEqual => "!=",
            BinaryOperator::Less => "<",
            BinaryOperator::LessEqual => "<=",
            BinaryOperator::Greater => ">",
            BinaryOperator::GreaterEqual => ">=",
            BinaryOperator::Plus => "+",
            BinaryOperator::Minus => "-",
            BinaryOperator::Multiply => "*",
            BinaryOperator::Divide => "/",
            BinaryOperator::Comma => ",",
    }
}

impl TokenType {
    pub fn to_text(&self) -> (r: String)
        ensures
            r@ == token_type_text(*self),
    {
        match self {
            TokenType::Identifier(i) => i.clone(),
            TokenType::String(s) => s.clone(),
            TokenType::Number(n) => number_to_text(n),
            TokenType::LeftParen => String::from_str("'('"),
            TokenType::RightParen => String::from_str("')'"),
            TokenType::LeftBrace => String::from_str("'{'"),
            TokenType::RightBrace => String::from_str("'}'"),
            TokenType::Comma => String::from_str("','"),
            TokenType::Dot => String::from_str("'.'"),
            TokenType::Minus => String::from_str("'-'"),
            TokenType::Plus => String::from_str("'+'"),
            TokenType::Semicolon => String::from_str("';'"),
            TokenType::Slash => String::from_str("'/'"),
            TokenType::Star => String::from_str("'*'"),
            TokenType::QuestionMark => String::from_str("'?'"),
            TokenType::Colon => String::from_str("':'"),
            TokenType::Bang => String::from_str("'!'"),
            TokenType::BangEqual => String::from_str("'!='"),
            TokenType::Equal => String::from_str("'='"),
            TokenType::EqualEqual => String::from_str("'=='"),
            TokenType::Greater => String::from_str("'>'"),
            TokenType::GreaterEqual => String::from_str("'>='"),
            TokenType::Less => String::from_str("'<'"),
            TokenType::LessEqual => String::from_str("'<='"),
            TokenType::And => String::from_str("'and'"),
            TokenType::Class => String::from_str("'class'"),
            TokenType::Else => String::from_str("'else'"),
            TokenType::False => String::from_str("'false'"),
            TokenType::Fun => String::from_str("'fun'"),
            TokenType::For => String::from_str("'for'"),
            TokenType::If => String::from_str("'if'"),
            TokenType::Nil => String::from_str("'nil'"),
            TokenType::Or => String::from_str("'or'"),
            TokenType::Print => String::from_str("'print'"),
            TokenType::Return => String::from_str("'return'"),
            TokenType::Super => String::from_str("'super'"),
            TokenType::This => String::from_str("'this'"),
            TokenType::True => String::from_str("'true'"),
            TokenType::Var => String::from_str("'var'"),
            TokenType::While => String::from_str("'while'"),
            TokenType::EOF => String::from_str("<EOF>"),
        }
    }
}

impl Token {
    /// `<token>, Line <line>`
    pub fn to_string(&self) -> (r: String)
        ensures
            r@ == token_type_text(self.token_type) + ", Line "@ + decimal(self.line as nat),
    {
        let mut s = self.token_type.to_text();
        s.append(", Line ");
        let d = decimal_text(self.line as u64);
        s.append(d.as_str());
        s
    }
}

impl Literal {
    pub fn to_text(&self) -> (r: String)
        ensures
            r@ == literal_text(*self),
    {
        match self {
            Literal::String(s) => {
                let mut t = String::from_str("\"");
                t.append(s.as_str());
                t.append("\"");
                t
            },
            Literal::Number(n) => number_to_text(n),
            Literal::True => String::from_str("true"),
            Literal::False => String::from_str("false"),
            Literal::Nil => String::from_str("nil"),
        }
    }
}

impl Expression {
    pub fn to_text(&self) -> (r: String)
        ensures
            r@ == expression_text(*self),
        decreases self,
    {
        match self {
            Expression::Literal(l) => l.to_text(),
            Expression::Grouping(g) => {
                let mut s = String::from_str("(");
                let inner = g.expr.to_text();
                s.append(inner.as_str());
                s.append(")");
                s
            },
            Expression::Unary(u) => {
                let mut s = match u.operator {
                    UnaryOperator::Minus => String::from_str("-"),
                    UnaryOperator::Not => String::from_str("!"),
                };
                let inner = u.expr.to_text();
                s.append(inner.as_str());
                s
            },
            Expression::Binary(b) => {
                let mut s = b.left.to_text();
                s.append(" ");
                s.append(binary_operator_to_text(b.operator));
                s.append(" ");
                let right = b.right.to_text();
                s.append(right.as_str());
                s
            },
            Expression::Ternary(t) => {
                let mut s = t.condition.to_text();
                s.append(" ? ");
                let a = t.left_branch.to_text();
                s.append(a.as_str());
                s.append(" : ");
                let b = t.right_branch.to_text();
                s.append(b.as_str());
                s
            },
            Expression::Variable(v) => v.name.clone(),
        }
    }
}

impl Statement {
    pub fn to_text(&self) -> (r: String)
        ensures
            r@ == statement_text(*self),
    {
        match self {
            Statement::Expression(x) => {
                let mut s = x.expr.to_text();
                s.append(";");
                s
            },
            Statement::Print(p) => {
                let mut s = String::from_str("print ");
                let e = p.expr.to_text();
                s.append(e.as_str());
                s.append(";");
                s
            },
        }
    }
}

impl Declaration {
    pub fn to_text(&self) -> (r: String)
        ensures
            r@ == declaration_text(*self),
    {
        match self {
            Declaration::Init(i) => {
                let mut s = String::from_str("var ");
                s.append(i.name.as_str());
                s.append(";");
                s
            },
            Declaration::Inst(i) => {
                let mut s = String::from_str("var ");
                s.append(i.name.as_str());
                s.append(" = ");
                let e = i.definition.to_text();
                s.append(e.as_str());
                s.append(";");
                s
            },
            Declaration::Stmt(st) => st.stmt.to_text(),
        }
    }
}

impl ParserError {
    /// `ParserError at L<line>: <message>`
    pub fn describe(&self) -> (r: String)
        ensures
            r@ == "ParserError at L"@ + decimal(self.token.line as nat) + ": "@ + self.message@,
    {
        let mut s = String::from_str("ParserError at L");
        let d = decimal_text(self.token.line as u64);
        s.append(d.as_str());
        s.append(": ");
        s.append(self.message.as_str());
        s
    }
}

impl RuntimeError {
    /// ``RuntimeError while evaluating `<expression>`: <message>``
    pub fn describe(&self) -> (r: String)
        ensures
            r@ == "RuntimeError while evaluating `"@ + expression_text(self.expr) + "`: "@
                + self.message@,
    {
        let mut s = String::from_str("RuntimeError while evaluating `");
        let e = self.expr.to_text();
        s.append(e.as_str());
        s.append("`: ");
        s.append(self.message.as_str());
        s
    }
}

/// Renders syntax trees as their canonical text.
pub struct AstPrinter;

impl AstPrinter {
    pub fn print(&self, expr: &Expression) -> (r: String)
        ensures
            r@ == expression_text(*expr),
    {
        expr.to_text()
    }
}

} // verus!
