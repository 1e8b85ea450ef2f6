use vstd::prelude::*;

use crate::error::ParserError;
use crate::grammar::declaration::{self, Declaration};
use crate::grammar::expression::{
    binary_of, ternary_of, BinaryOperator, Expression, Grouping, Literal, Unary, UnaryOperator,
    Variable,
};
use crate::grammar::statement::{self, Statement};
use crate::token::{Token, TokenType};

verus! {

/// A parse of a prefix of the tokens from some index: the result and the index
/// after it, or an error message and the index of the offending token.
pub type Parsed<T> = Result<(T, int), (Seq<char>, int)>;

/// Non-empty and ending with the end marker (and, as any vector, indexable by `usize`).
pub open spec fn well_terminated(t: Seq<Token>) -> bool {
    0 < t.len() <= usize::MAX && t.last().token_type == TokenType::EOF
}

pub open spec fn kind_at(t: Seq<Token>, i: int, k: TokenType) -> bool {
    0 <= i < t.len() && t[i].token_type == k
}

/// The operator of binary level `lvl` (1: factor, 2: term, 3: comparison,
/// 4: equality) that `k` spells, if any.
pub open spec fn level_operator(k: TokenType, lvl: u8) -> Option<BinaryOperator> {
    match (lvl, k) {
        (1, TokenType::Star) => Some(BinaryOperator::Multiply),
        (1, TokenType::Slash) => Some(BinaryOperator::Divide),
        (2, TokenType::Plus) => Some(BinaryOperator::Plus),
        (2, TokenType::Minus) => Some(BinaryOperator::Minus),
        (3, TokenType::Less) => Some(BinaryOperator::Less),
        (3, TokenType::LessEqual) => Some(BinaryOperator::LessEqual),
        (3, TokenType::Greater) => Some(BinaryOperator::Greater),
        (3, TokenType::GreaterEqual) => Some(BinaryOperator::GreaterEqual),
        (4, TokenType::EqualEqual) => Some(BinaryOperator::Equal),
        (4, TokenType::BangEqual) => Some(BinaryOperator::NotEqual),
        _ => None,
    }
}

/// `primary := literal | identifier | "(" expression ")"`
pub open spec fn primary(t: Seq<Token>, i: int) -> Parsed<Expression>
    decreases t.len() - i, 1int,
{
    if !(0 <= i < t.len()) {
        Err(("unable to parse primary expression"@, i))
    } else if let Some(l) = Literal::of_token(t[i].token_type) {
        Ok((Expression::Literal(l), i + 1))
    } else if let TokenType::Identifier(name) = t[i].token_type {
        Ok((Expression::Variable(Variable { name }), i + 1))
    } else if t[i].token_type == TokenType::LeftParen {
        match comma(t, i + 1) {
            Err(x) => Err(x),
            Ok((e, p)) => if p <= i {
                Err(never_parsed())
            } else if kind_at(t, p, TokenType::RightParen) {
                Ok((Expression::Grouping(Grouping { expr: Box::new(e) }), p + 1))
            } else {
                Err(("missing closing parenthesis"@, p))
            },
        }
    } else {
        Err(("unable to parse primary expression"@, i))
    }
}

/// The result of branches that no parse reaches: every parse ends past where it began.
pub open spec fn never_parsed() -> (Seq<char>, int) {
    (seq![], -1)
}

/// `unary := ("!" | "-") primary | primary`
pub open spec fn unary(t: Seq<Token>, i: int) -> Parsed<Expression>
    decreases t.len() - i, 3int,
{
    if 0 <= i < t.len() && UnaryOperator::of_token(t[i].token_type) is Some {
        let op = UnaryOperator::of_token(t[i].token_type)->Some_0;
        match primary(t, i + 1) {
            Err(x) => Err(x),
            Ok((e, p)) => Ok((Expression::Unary(Unary { operator: op, expr: Box::new(e) }), p)),
        }
    } else {
        primary(t, i)
    }
}

/// The operand of binary level `lvl`: the next tighter level.
pub open spec fn operand(t: Seq<Token>, i: int, lvl: u8) -> Parsed<Expression>
    decreases t.len() - i, 2 * (lvl as int) + 4,
{
    if lvl <= 1 {
        unary(t, i)
    } else {
        binary(t, i, (lvl - 1) as u8)
    }
}

/// Left-associative fold of `operand (op operand)*` at level `lvl`.
pub open spec fn binary(t: Seq<Token>, i: int, lvl: u8) -> Parsed<Expression>
    decreases t.len() - i, 2 * (lvl as int) + 5,
{
    match operand(t, i, lvl) {
        Err(x) => Err(x),
        Ok((e, p)) => if p < i || p > t.len() {
            Err(never_parsed())
        } else {
            binary_rest(t, p, e, lvl)
        },
    }
}

pub open spec fn binary_rest(t: Seq<Token>, p: int, acc: Expression, lvl: u8) -> Parsed<Expression>
    decreases t.len() - p, 2 * (lvl as int) + 4,
{
    if 0 <= p < t.len() && level_operator(t[p].token_type, lvl) is Some {
        let op = level_operator(t[p].token_type, lvl)->Some_0;
        match operand(t, p + 1, lvl) {
            Err(x) => Err(x),
            Ok((r, q)) => if q <= p || q > t.len() {
                Err(never_parsed())
            } else {
                binary_rest(t, q, binary_of(op, acc, r), lvl)
            },
        }
    } else {
        Ok((acc, p))
    }
}

/// `ternary := equality ("?" comma ":" equality)?`
pub open spec fn ternary(t: Seq<Token>, i: int) -> Parsed<Expression>
    decreases t.len() - i, 14int,
{
    match binary(t, i, 4) {
        Err(x) => Err(x),
        Ok((c, p)) => if p < i {
            Err(never_parsed())
        } else if kind_at(t, p, TokenType::QuestionMark) {
            match comma(t, p + 1) {
                Err(x) => Err(x),
                Ok((a, q)) => if q <= p {
                    Err(never_parsed())
                } else if kind_at(t, q, TokenType::Colon) {
                    match binary(t, q + 1, 4) {
                        Err(x) => Err(x),
                        Ok((b, r)) => Ok((ternary_of(c, a, b), r)),
                    }
                } else {
                    Err(("unterminated ternary operator"@, q))
                },
            }
        } else {
            Ok((c, p))
        },
    }
}

/// `comma := ternary ("," ternary)*`, the whole expression grammar.
pub open spec fn comma(t: Seq<Token>, i: int) -> Parsed<Expression>
    decreases t.len() - i, 16int,
{
    match ternary(t, i) {
        Err(x) => Err(x),
        Ok((e, p)) => if p < i || p > t.len() {
            Err(never_parsed())
        } else {
            comma_rest(t, p, e)
        },
    }
}

pub open spec fn comma_rest(t: Seq<Token>, p: int, acc: Expression) -> Parsed<Expression>
    decreases t.len() - p, 15int,
{
    if kind_at(t, p, TokenType::Comma) {
        match ternary(t, p + 1) {
            Err(x) => Err(x),
            Ok((r, q)) => if q <= p || q > t.len() {
                Err(never_parsed())
            } else {
                comma_rest(t, q, binary_of(BinaryOperator::Comma, acc, r))
            },
        }
    } else {
        Ok((acc, p))
    }
}

/// `statement := ("print")? comma ";"`
pub open spec fn statement(t: Seq<Token>, i: int) -> Parsed<Statement> {
    let inner = if kind_at(t, i, TokenType::Print) {
        match comma(t, i + 1) {
            Err(x) => Err(x),
            Ok((e, p)) => Ok((Statement::Print(statement::Print { expr: e }), p)),
        }
    } else {
        match comma(t, i) {
            Err(x) => Err(x),
            Ok((e, p)) => Ok((Statement::Expression(statement::Expression { expr: e }), p)),
        }
    };
    match inner {
        Err(x) => Err(x),
        Ok((st, p)) => if kind_at(t, p, TokenType::Semicolon) {
            Ok((st, p + 1))
        } else {
            Err(("statements must end with a semicolon"@, p))
        },
    }
}

/// What follows `var`: `identifier ";"` or `identifier "=" comma ";"`.
pub open spec fn var_declaration(t: Seq<Token>, i: int) -> Parsed<Declaration> {
    if 0 <= i < t.len() && t[i].token_type is Identifier {
        let name = t[i].token_type->Identifier_0;
        if kind_at(t, i + 1, TokenType::Semicolon) {
            Ok((Declaration::Init(declaration::Initialization { name }), i + 2))
        } else if kind_at(t, i + 1, TokenType::Equal) {
            match comma(t, i + 2) {
                Err(x) => Err(x),
                Ok((e, p)) => if kind_at(t, p, TokenType::Semicolon) {
                    Ok(
                        (
                            Declaration::Inst(declaration::Instantiation { name, definition: e }),
                            p + 1,
                        ),
                    )
                } else {
                    Err(("variable initializations must end with a semicolon"@, p))
                },
            }
        } else {
            Err(("invalid variable initialization"@, i + 1))
        }
    } else {
        Err(("variable names must be valid identifiers"@, i))
    }
}

pub open spec fn declaration(t: Seq<Token>, i: int) -> Parsed<Declaration> {
    if kind_at(t, i, TokenType::Var) {
        var_declaration(t, i + 1)
    } else {
        match statement(t, i) {
            Err(x) => Err(x),
            Ok((st, p)) => Ok((Declaration::Stmt(declaration::Statement { stmt: st }), p)),
        }
    }
}

/// Where parsing resumes after an error at `p` in the declaration that began at
/// `start`: just after a `;`, or at a token that begins a declaration, or at the
/// end marker; never at `start` itself.
pub open spec fn recover(t: Seq<Token>, start: int, p: int) -> int
    decreases t.len() - p,
{
    if !(0 <= p < t.len()) || t[p].token_type == TokenType::EOF {
        p
    } else if p > start && (t[p - 1].token_type == TokenType::Semicolon
        || t[p].token_type.starts_declaration()) {
        p
    } else {
        recover(t, start, p + 1)
    }
}

/// The outcome of each declaration from `p` to the end marker, in order:
/// a declaration, or an error message with the index of the offending token.
pub open spec fn declarations(t: Seq<Token>, p: int) -> Seq<Result<Declaration, (Seq<char>, int)>>
    decreases t.len() - p,
{
    if !(0 <= p < t.len()) || t[p].token_type == TokenType::EOF {
        seq![]
    } else {
        match declaration(t, p) {
            Ok((d, q)) => if p < q <= t.len() {
                seq![Ok(d)] + declarations(t, q)
            } else {
                seq![]
            },
            Err((m, k)) => {
                let q = recover(t, p, k);
                if p < q <= t.len() {
                    seq![Err((m, k))] + declarations(t, q)
                } else {
                    seq![]
                }
            },
        }
    }
}

/// `r` is the exec form of the outcome `s`.
pub open spec fn agrees_outcome(
    r: Result<Declaration, ParserError>,
    s: Result<Declaration, (Seq<char>, int)>,
    t: Seq<Token>,
) -> bool {
    match (r, s) {
        (Ok(d), Ok(e)) => d == e,
        (Err(pe), Err((m, k))) => pe.message@ == m && 0 <= k < t.len() && pe.token == t[k],
        _ => false,
    }
}

/// A failed parse in exec code: the error and the index of the offending token.
pub type Failed = (ParserError, usize);

/// `r` is the exec form of `s`, a parse that began at `i`.
pub open spec fn agrees<T>(
    r: Result<(T, usize), Failed>,
    s: Parsed<T>,
    t: Seq<Token>,
    i: int,
) -> bool {
    match r {
        Ok((e, p)) => s == Parsed::<T>::Ok((e, p as int)) && i < p < t.len(),
        Err((pe, k)) => s == Parsed::<T>::Err((pe.message@, k as int)) && pe.token == t[k as int]
            && i <= k < t.len(),
    }
}

fn fail_at(t: &Vec<Token>, k: usize, message: &str) -> (r: Failed)
    requires
        k < t@.len(),
    ensures
        r.0.message@ == message@,
        r.0.token == t@[k as int],
        r.1 == k,
{
    (ParserError::new(String::from_str(message), t[k].copy()), k)
}

fn level_operator_of(k: &TokenType, lvl: u8) -> (r: Option<BinaryOperator>)
    ensures
        r == level_operator(*k, lvl),
{
    match (lvl, k) {
        (1, TokenType::Star) => Some(BinaryOperator::Multiply),
        (1, TokenType::Slash) => Some(BinaryOperator::Divide),
        (2, TokenType::Plus) => Some(BinaryOperator::Plus),
        (2, TokenType::Minus) => Some(BinaryOperator::Minus),
        (3, TokenType::Less) => Some(BinaryOperator::Less),
        (3, TokenType::LessEqual) => Some(BinaryOperator::LessEqual),
        (3, TokenType::Greater) => Some(BinaryOperator::Greater),
        (3, TokenType::GreaterEqual) => Some(BinaryOperator::GreaterEqual),
        (4, TokenType::EqualEqual) => Some(BinaryOperator::Equal),
        (4, TokenType::BangEqual) => Some(BinaryOperator::NotEqual),
        _ => None,
    }
}

fn parse_primary(t: &Vec<Token>, i: usize) -> (r: Result<(Expression, usize), Failed>)
    requires
        well_terminated(t@),
        i < t@.len(),
    ensures
        agrees(r, primary(t@, i as int), t@, i as int),
    decreases t@.len() - i, 1int,
{
    if let Some(l) = Literal::from_token(&t[i].token_type) {
        return Ok((Expression::literal(l), i + 1));
    }
    if let TokenType::Identifier(name) = &t[i].token_type {
        return Ok((Expression::variable(name.clone()), i + 1));
    }
    if let TokenType::LeftParen = &t[i].token_type {
        match parse_comma(t, i + 1) {
            Err(x) => Err(x),
            Ok((e, p)) => {
                if let TokenType::RightParen = &t[p].token_type {
                    Ok((Expression::grouping(e), p + 1))
                } else {
                    Err(fail_at(t, p, "missing closing parenthesis"))
                }
            },
        }
    } else {
        Err(fail_at(t, i, "unable to parse primary expression"))
    }
}

fn parse_unary(t: &Vec<Token>, i: usize) -> (r: Result<(Expression, usize), Failed>)
    requires
        well_terminated(t@),
        i < t@.len(),
    ensures
        agrees(r, unary(t@, i as int), t@, i as int),
    decreases t@.len() - i, 3int,
{
    match UnaryOperator::from_token(&t[i].token_type) {
        Some(op) => match parse_primary(t, i + 1) {
            Err(x) => Err(x),
            Ok((e, p)) => Ok((Expression::unary(op, e), p)),
        },
        None => parse_primary(t, i),
    }
}

fn parse_operand(t: &Vec<Token>, i: usize, lvl: u8) -> (r: Result<(Expression, usize), Failed>)
    requires
        well_terminated(t@),
        i < t@.len(),
    ensures
        agrees(r, operand(t@, i as int, lvl), t@, i as int),
    decreases t@.len() - i, 2 * (lvl as int) + 4,
{
    if lvl <= 1 {
        parse_unary(t, i)
    } else {
        parse_binary(t, i, lvl - 1)
    }
}

fn parse_binary(t: &Vec<Token>, i: usize, lvl: u8) -> (r: Result<(Expression, usize), Failed>)
    requires
        well_terminated(t@),
        i < t@.len(),
    ensures
        agrees(r, binary(t@, i as int, lvl), t@, i as int),
    decreases t@.len() - i, 2 * (lvl as int) + 5,
{
    let (mut acc, mut p) = match parse_operand(t, i, lvl) {
        Err(x) => return Err(x),
        Ok(x) => x,
    };
    loop
        invariant
            well_terminated(t@),
            i < p < t@.len(),
            binary_rest(t@, p as int, acc, lvl) == binary(t@, i as int, lvl),
        decreases t@.len() - p,
    {
        match level_operator_of(&t[p].token_type, lvl) {
            None => return Ok((acc, p)),
            Some(op) => match parse_operand(t, p + 1, lvl) {
                Err(x) => return Err(x),
                Ok((right, q)) => {
                    acc = Expression::binary(op, acc, right);
                    p = q;
                },
            },
        }
    }
}

fn parse_ternary(t: &Vec<Token>, i: usize) -> (r: Result<(Expression, usize), Failed>)
    requires
        well_terminated(t@),
        i < t@.len(),
    ensures
        agrees(r, ternary(t@, i as int), t@, i as int),
    decreases t@.len() - i, 14int,
{
    let (c, p) = match parse_binary(t, i, 4) {
        Err(x) => return Err(x),
        Ok(x) => x,
    };
    if let TokenType::QuestionMark = &t[p].token_type {
        // the middle branch re-enters the whole grammar, the last one only equality
        let (a, q) = match parse_comma(t, p + 1) {
            Err(x) => return Err(x),
            Ok(x) => x,
        };
        if let TokenType::Colon = &t[q].token_type {
            match parse_binary(t, q + 1, 4) {
                Err(x) => Err(x),
                Ok((b, r)) => Ok((Expression::ternary(c, a, b), r)),
            }
        } else {
            Err(fail_at(t, q, "unterminated ternary operator"))
        }
    } else {
        Ok((c, p))
    }
}

fn parse_comma(t: &Vec<Token>, i: usize) -> (r: Result<(Expression, usize), Failed>)
    requires
        well_terminated(t@),
        i < t@.len(),
    ensures
        agrees(r, comma(t@, i as int), t@, i as int),
    decreases t@.len() - i, 16int,
{
    let (mut acc, mut p) = match parse_ternary(t, i) {
        Err(x) => return Err(x),
        Ok(x) => x,
    };
    loop
        invariant
            well_terminated(t@),
            i < p < t@.len(),
            comma_rest(t@, p as int, acc) == comma(t@, i as int),
        decreases t@.len() - p,
    {
        if let TokenType::Comma = &t[p].token_type {
            match parse_ternary(t, p + 1) {
                Err(x) => return Err(x),
                Ok((right, q)) => {
                    acc = Expression::binary(BinaryOperator::Comma, acc, right);
                    p = q;
                },
            }
        } else {
            return Ok((acc, p));
        }
    }
}

fn parse_statement(t: &Vec<Token>, i: usize) -> (r: Result<(Statement, usize), Failed>)
    requires
        well_terminated(t@),
        i < t@.len(),
    ensures
        agrees(r, statement(t@, i as int), t@, i as int),
{
    let (st, p) = if let TokenType::Print = &t[i].token_type {
        match parse_comma(t, i + 1) {
            Err(x) => return Err(x),
            Ok((e, p)) => (Statement::print(e), p),
        }
    } else {
        match parse_comma(t, i) {
            Err(x) => return Err(x),
            Ok((e, p)) => (Statement::expression(e), p),
        }
    };
    if let TokenType::Semicolon = &t[p].token_type {
        Ok((st, p + 1))
    } else {
        Err(fail_at(t, p, "statements must end with a semicolon"))
    }
}

fn parse_var_declaration(t: &Vec<Token>, i: usize) -> (r: Result<(Declaration, usize), Failed>)
    requires
        well_terminated(t@),
        i < t@.len(),
    ensures
        agrees(r, var_declaration(t@, i as int), t@, i as int),
{
    if let TokenType::Identifier(name) = &t[i].token_type {
        if let TokenType::Semicolon = &t[i + 1].token_type {
            Ok((Declaration::initialization(name.clone()), i + 2))
        } else if let TokenType::Equal = &t[i + 1].token_type {
            match parse_comma(t, i + 2) {
                Err(x) => Err(x),
                Ok((e, p)) => {
                    if let TokenType::Semicolon = &t[p].token_type {
                        Ok((Declaration::instantiation(name.clone(), e), p + 1))
                    } else {
                        Err(fail_at(t, p, "variable initializations must end with a semicolon"))
                    }
                },
            }
        } else {
            Err(fail_at(t, i + 1, "invalid variable initialization"))
        }
    } else {
        Err(fail_at(t, i, "variable names must be valid identifiers"))
    }
}

fn parse_declaration(t: &Vec<Token>, i: usize) -> (r: Result<(Declaration, usize), Failed>)
    requires
        well_terminated(t@),
        i < t@.len(),
    ensures
        agrees(r, declaration(t@, i as int), t@, i as int),
{
    if let TokenType::Var = &t[i].token_type {
        parse_var_declaration(t, i + 1)
    } else {
        match parse_statement(t, i) {
            Err(x) => Err(x),
            Ok((st, p)) => Ok((Declaration::statement(st), p)),
        }
    }
}

fn synchronize(t: &Vec<Token>, start: usize, k: usize) -> (r: usize)
    requires
        well_terminated(t@),
        start <= k < t@.len(),
        t@[start as int].token_type != TokenType::EOF,
    ensures
        r == recover(t@, start as int, k as int),
        start < r < t@.len(),
{
    let mut p = k;
    loop
        invariant
            well_terminated(t@),
            start <= k <= p < t@.len(),
            p == start ==> t@[start as int].token_type != TokenType::EOF,
            recover(t@, start as int, p as int) == recover(t@, start as int, k as int),
        decreases t@.len() - p,
    {
        if let TokenType::EOF = &t[p].token_type {
            return p;
        }
        if p > start {
            let stop = match (&t[p - 1].token_type, &t[p].token_type) {
                (TokenType::Semicolon, _) => true,
                (
                    _,
                    TokenType::Class
                    | TokenType::Fun
                    | TokenType::Var
                    | TokenType::For
                    | TokenType::If
                    | TokenType::While
                    | TokenType::Print
                    | TokenType::Return,
                ) => true,
                _ => false,
            };
            if stop {
                return p;
            }
        }
        p = p + 1;
    }
}

/// Turns a token sequence into declarations, one outcome per declaration.
pub struct Parser {
    tokens: Vec<Token>,
    current_pos: usize,
}

impl Parser {
    pub fn new(tokens: Vec<Token>) -> (r: Self)
        ensures
            r.tokens() == tokens@,
            r.position() == 0,
    {
        Parser { tokens, current_pos: 0 }
    }

    pub closed spec fn tokens(&self) -> Seq<Token> {
        self.tokens@
    }

    pub closed spec fn position(&self) -> int {
        self.current_pos as int
    }

    /// Parses every declaration up to the end marker. A failed declaration gives
    /// its error, and parsing resumes at the next statement boundary.
    pub fn parse(&mut self) -> (r: Vec<Result<Declaration, ParserError>>)
        requires
            well_terminated(old(self).tokens()),
            old(self).position() < old(self).tokens().len(),
        ensures
            final(self).tokens() == old(self).tokens(),
            r@.len() == declarations(old(self).tokens(), old(self).position()).len(),
            forall|j: int|
                0 <= j < r@.len() ==> agrees_outcome(
                    #[trigger] r@[j],
                    declarations(old(self).tokens(), old(self).position())[j],
                    old(self).tokens(),
                ),
    {
        let ghost t = self.tokens@;
        let ghost all = declarations(t, self.current_pos as int);
        let mut out: Vec<Result<Declaration, ParserError>> = Vec::new();
        loop
            invariant
                self.tokens@ == t,
                t == old(self).tokens@,
                all == declarations(t, old(self).current_pos as int),
                well_terminated(t),
                self.current_pos < t.len(),
                out@.len() + declarations(t, self.current_pos as int).len() == all.len(),
                declarations(t, self.current_pos as int) == all.subrange(
                    out@.len() as int,
                    all.len() as int,
                ),
                forall|j: int|
                    0 <= j < out@.len() ==> agrees_outcome(#[trigger] out@[j], all[j], t),
            decreases t.len() - self.current_pos,
        {
            let p = self.current_pos;
            if let TokenType::EOF = &self.tokens[p].token_type {
                assert(all.subrange(out@.len() as int, all.len() as int) =~= seq![]);
                return out;
            }
            let ghost rest = declarations(t, p as int);
            match parse_declaration(&self.tokens, p) {
                Ok((d, q)) => {
                    assert(rest[0] == Ok::<Declaration, (Seq<char>, int)>(d));
                    assert(rest.subrange(1, rest.len() as int) =~= declarations(t, q as int));
                    out.push(Ok(d));
                    self.current_pos = q;
                },
                Err((e, k)) => {
                    let q = synchronize(&self.tokens, p, k);
                    assert(rest.subrange(1, rest.len() as int) =~= declarations(t, q as int));
                    out.push(Err(e));
                    self.current_pos = q;
                },
            }
        }
    }
}

/// A parse that began at `i` ends after `i` and within `t`, or fails at or after `i`.
pub open spec fn advances<T>(s: Parsed<T>, t: Seq<Token>, i: int) -> bool {
    match s {
        Ok((_, p)) => i < p <= t.len(),
        Err((_, k)) => k >= i,
    }
}

/// Like [`advances`], for the loops that may stop where they start.
pub open spec fn stays_or_advances<T>(s: Parsed<T>, t: Seq<Token>, i: int) -> bool {
    match s {
        Ok((_, p)) => i <= p <= t.len(),
        Err((_, k)) => k >= i,
    }
}

proof fn lemma_primary_advances(t: Seq<Token>, i: int)
    ensures
        advances(primary(t, i), t, i),
    decreases t.len() - i, 1int,
{
    if 0 <= i < t.len() && t[i].token_type == TokenType::LeftParen {
        lemma_comma_advances(t, i + 1);
    }
}

proof fn lemma_unary_advances(t: Seq<Token>, i: int)
    ensures
        advances(unary(t, i), t, i),
    decreases t.len() - i, 3int,
{
    if 0 <= i < t.len() && UnaryOperator::of_token(t[i].token_type) is Some {
        lemma_primary_advances(t, i + 1);
    } else {
        lemma_primary_advances(t, i);
    }
}

proof fn lemma_operand_advances(t: Seq<Token>, i: int, lvl: u8)
    ensures
        advances(operand(t, i, lvl), t, i),
    decreases t.len() - i, 2 * (lvl as int) + 4,
{
    if lvl <= 1 {
        lemma_unary_advances(t, i);
    } else {
        lemma_binary_advances(t, i, (lvl - 1) as u8);
    }
}

proof fn lemma_binary_advances(t: Seq<Token>, i: int, lvl: u8)
    ensures
        advances(binary(t, i, lvl), t, i),
    decreases t.len() - i, 2 * (lvl as int) + 5,
{
    lemma_operand_advances(t, i, lvl);
    if let Ok((e, p)) = operand(t, i, lvl) {
        if i <= p <= t.len() {
            lemma_binary_rest_advances(t, p, e, lvl);
        }
    }
}

proof fn lemma_binary_rest_advances(t: Seq<Token>, p: int, acc: Expression, lvl: u8)
    requires
        p <= t.len(),
    ensures
        stays_or_advances(binary_rest(t, p, acc, lvl), t, p),
    decreases t.len() - p, 2 * (lvl as int) + 4,
{
    if 0 <= p < t.len() && level_operator(t[p].token_type, lvl) is Some {
        let op = level_operator(t[p].token_type, lvl)->Some_0;
        lemma_operand_advances(t, p + 1, lvl);
        if let Ok((r, q)) = operand(t, p + 1, lvl) {
            if p < q <= t.len() {
                lemma_binary_rest_advances(t, q, binary_of(op, acc, r), lvl);
            }
        }
    }
}

proof fn lemma_ternary_advances(t: Seq<Token>, i: int)
    ensures
        advances(ternary(t, i), t, i),
    decreases t.len() - i, 14int,
{
    lemma_binary_advances(t, i, 4);
    if let Ok((c, p)) = binary(t, i, 4) {
        if i <= p <= t.len() && kind_at(t, p, TokenType::QuestionMark) {
            lemma_comma_advances(t, p + 1);
            if let Ok((a, q)) = comma(t, p + 1) {
                if p < q && kind_at(t, q, TokenType::Colon) {
                    lemma_binary_advances(t, q + 1, 4);
                }
            }
        }
    }
}

proof fn lemma_comma_advances(t: Seq<Token>, i: int)
    ensures
        advances(comma(t, i), t, i),
    decreases t.len() - i, 16int,
{
    lemma_ternary_advances(t, i);
    if let Ok((e, p)) = ternary(t, i) {
        if i <= p <= t.len() {
            lemma_comma_rest_advances(t, p, e);
        }
    }
}

proof fn lemma_comma_rest_advances(t: Seq<Token>, p: int, acc: Expression)
    requires
        p <= t.len(),
    ensures
        stays_or_advances(comma_rest(t, p, acc), t, p),
    decreases t.len() - p, 15int,
{
    if kind_at(t, p, TokenType::Comma) {
        lemma_ternary_advances(t, p + 1);
        if let Ok((r, q)) = ternary(t, p + 1) {
            if p < q <= t.len() {
                lemma_comma_rest_advances(t, q, binary_of(BinaryOperator::Comma, acc, r));
            }
        }
    }
}

proof fn lemma_declaration_advances(t: Seq<Token>, i: int)
    ensures
        advances(declaration(t, i), t, i),
{
    lemma_comma_advances(t, i);
    lemma_comma_advances(t, i + 1);
    lemma_comma_advances(t, i + 3);
}

proof fn lemma_recover_advances(t: Seq<Token>, start: int, p: int)
    requires
        0 <= start <= p,
        start < t.len(),
        p == start ==> t[start].token_type != TokenType::EOF,
    ensures
        recover(t, start, p) >= p,
        recover(t, start, p) > start,
    decreases t.len() - p,
{
    if 0 <= p < t.len() && t[p].token_type != TokenType::EOF && !(p > start && (t[p - 1].token_type
        == TokenType::Semicolon || t[p].token_type.starts_declaration())) {
        lemma_recover_advances(t, start, p + 1);
    }
}

/// Nothing parses at the end marker.
proof fn lemma_at_end_fails(t: Seq<Token>, i: int)
    requires
        kind_at(t, i, TokenType::EOF),
    ensures
        declaration(t, i) is Err,
{
    assert(primary(t, i) is Err);
    assert(unary(t, i) is Err);
    assert(operand(t, i, 1) is Err);
    assert(binary(t, i, 1) is Err);
    assert(operand(t, i, 2) is Err);
    assert(binary(t, i, 2) is Err);
    assert(operand(t, i, 3) is Err);
    assert(binary(t, i, 3) is Err);
    assert(operand(t, i, 4) is Err);
    assert(binary(t, i, 4) is Err);
    assert(ternary(t, i) is Err);
    assert(comma(t, i) is Err);
    assert(statement(t, i) is Err);
}

/// Where the next declaration begins after the one at `p`.
pub open spec fn resume(t: Seq<Token>, p: int) -> int {
    match declaration(t, p) {
        Ok((_, q)) => q,
        Err((_, k)) => recover(t, p, k),
    }
}

/// A malformed declaration followed by a well-formed one gives two outcomes:
/// the first one's error, then exactly the declaration that parsing from its
/// own start gives.
pub proof fn lemma_error_then_declaration(t: Seq<Token>, p: int)
    requires
        well_terminated(t),
        0 <= p < t.len(),
        t[p].token_type != TokenType::EOF,
        declaration(t, p) is Err,
        declaration(t, resume(t, p)) matches Ok((_, r)) && kind_at(t, r, TokenType::EOF),
    ensures
        declarations(t, p) == seq![
            Err::<Declaration, (Seq<char>, int)>(declaration(t, p)->Err_0),
            Ok::<Declaration, (Seq<char>, int)>(declaration(t, resume(t, p))->Ok_0.0),
        ],
{
    lemma_declaration_advances(t, p);
    let k = (declaration(t, p)->Err_0).1;
    lemma_recover_advances(t, p, k);
    let q = resume(t, p);
    lemma_declaration_advances(t, q);
    let r = (declaration(t, q)->Ok_0).1;
    if kind_at(t, q, TokenType::EOF) {
        lemma_at_end_fails(t, q);
    }
    assert(declarations(t, r) =~= seq![]);
    let d = (declaration(t, q)->Ok_0).0;
    assert(declarations(t, q) =~= seq![Ok::<Declaration, (Seq<char>, int)>(d)]);
}

/// `u` stands in `t` from index `k` to the end.
pub open spec fn placed(t: Seq<Token>, u: Seq<Token>, k: int) -> bool {
    &&& 0 <= k
    &&& t.len() == k + u.len()
    &&& forall|j: int| 0 <= j < u.len() ==> t[k + j] == #[trigger] u[j]
}

/// `s` is the parse `r` of the suffix, with every position moved by `k`.
pub open spec fn shifted<T>(s: Parsed<T>, r: Parsed<T>, k: int) -> bool {
    match (s, r) {
        (Ok((a, p)), Ok((b, q))) => a == b && p == q + k,
        (Err((m, p)), Err((n, q))) => m == n && p == q + k,
        _ => false,
    }
}

proof fn lemma_primary_shift(t: Seq<Token>, u: Seq<Token>, k: int, i: int)
    requires
        placed(t, u, k),
        0 <= i,
    ensures
        shifted(primary(t, k + i), primary(u, i), k),
    decreases u.len() - i, 1int,
{
    if i < u.len() && u[i].token_type == TokenType::LeftParen {
        lemma_comma_shift(t, u, k, i + 1);
        lemma_comma_advances(u, i + 1);
        if let Ok((_, q)) = comma(u, i + 1) {
            if q < u.len() {
                assert(t[k + q] == u[q]);
            }
        }
    }
}

proof fn lemma_unary_shift(t: Seq<Token>, u: Seq<Token>, k: int, i: int)
    requires
        placed(t, u, k),
        0 <= i,
    ensures
        shifted(unary(t, k + i), unary(u, i), k),
    decreases u.len() - i, 3int,
{
    if i < u.len() {
        assert(t[k + i] == u[i]);
        lemma_primary_shift(t, u, k, i + 1);
    }
    lemma_primary_shift(t, u, k, i);
}

proof fn lemma_operand_shift(t: Seq<Token>, u: Seq<Token>, k: int, i: int, lvl: u8)
    requires
        placed(t, u, k),
        0 <= i,
    ensures
        shifted(operand(t, k + i, lvl), operand(u, i, lvl), k),
    decreases u.len() - i, 2 * (lvl as int) + 4,
{
    if lvl <= 1 {
        lemma_unary_shift(t, u, k, i);
    } else {
        lemma_binary_shift(t, u, k, i, (lvl - 1) as u8);
    }
}

proof fn lemma_binary_shift(t: Seq<Token>, u: Seq<Token>, k: int, i: int, lvl: u8)
    requires
        placed(t, u, k),
        0 <= i,
    ensures
        shifted(binary(t, k + i, lvl), binary(u, i, lvl), k),
    decreases u.len() - i, 2 * (lvl as int) + 5,
{
    lemma_operand_shift(t, u, k, i, lvl);
    lemma_operand_advances(u, i, lvl);
    if let Ok((e, q)) = operand(u, i, lvl) {
        lemma_binary_rest_shift(t, u, k, q, e, lvl);
    }
}

proof fn lemma_binary_rest_shift(
    t: Seq<Token>,
    u: Seq<Token>,
    k: int,
    p: int,
    acc: Expression,
    lvl: u8,
)
    requires
        placed(t, u, k),
        0 <= p <= u.len(),
    ensures
        shifted(binary_rest(t, k + p, acc, lvl), binary_rest(u, p, acc, lvl), k),
    decreases u.len() - p, 2 * (lvl as int) + 4,
{
    if p < u.len() {
        assert(t[k + p] == u[p]);
        if level_operator(u[p].token_type, lvl) is Some {
            let op = level_operator(u[p].token_type, lvl)->Some_0;
            lemma_operand_shift(t, u, k, p + 1, lvl);
            lemma_operand_advances(u, p + 1, lvl);
            if let Ok((r, q)) = operand(u, p + 1, lvl) {
                lemma_binary_rest_shift(t, u, k, q, binary_of(op, acc, r), lvl);
            }
        }
    }
}

proof fn lemma_ternary_shift(t: Seq<Token>, u: Seq<Token>, k: int, i: int)
    requires
        placed(t, u, k),
        0 <= i,
    ensures
        shifted(ternary(t, k + i), ternary(u, i), k),
    decreases u.len() - i, 14int,
{
    lemma_binary_shift(t, u, k, i, 4);
    lemma_binary_advances(u, i, 4);
    if let Ok((c, p)) = binary(u, i, 4) {
        if p < u.len() {
            assert(t[k + p] == u[p]);
            if u[p].token_type == TokenType::QuestionMark {
                lemma_comma_shift(t, u, k, p + 1);
                lemma_comma_advances(u, p + 1);
                if let Ok((a, q)) = comma(u, p + 1) {
                    if q < u.len() {
                        assert(t[k + q] == u[q]);
                        lemma_binary_shift(t, u, k, q + 1, 4);
                    }
                }
            }
        }
    }
}

proof fn lemma_comma_shift(t: Seq<Token>, u: Seq<Token>, k: int, i: int)
    requires
        placed(t, u, k),
        0 <= i,
    ensures
        shifted(comma(t, k + i), comma(u, i), k),
    decreases u.len() - i, 16int,
{
    lemma_ternary_shift(t, u, k, i);
    lemma_ternary_advances(u, i);
    if let Ok((e, q)) = ternary(u, i) {
        lemma_comma_rest_shift(t, u, k, q, e);
    }
}

proof fn lemma_comma_rest_shift(t: Seq<Token>, u: Seq<Token>, k: int, p: int, acc: Expression)
    requires
        placed(t, u, k),
        0 <= p <= u.len(),
    ensures
        shifted(comma_rest(t, k + p, acc), comma_rest(u, p, acc), k),
    decreases u.len() - p, 15int,
{
    if p < u.len() {
        assert(t[k + p] == u[p]);
        if u[p].token_type == TokenType::Comma {
            lemma_ternary_shift(t, u, k, p + 1);
            lemma_ternary_advances(u, p + 1);
            if let Ok((r, q)) = ternary(u, p + 1) {
                lemma_comma_rest_shift(t, u, k, q, binary_of(BinaryOperator::Comma, acc, r));
            }
        }
    }
}

proof fn lemma_declaration_shift(t: Seq<Token>, u: Seq<Token>, k: int, i: int)
    requires
        placed(t, u, k),
        0 <= i,
    ensures
        shifted(declaration(t, k + i), declaration(u, i), k),
{
    if i < u.len() {
        assert(t[k + i] == u[i]);
    }
    if i + 1 < u.len() {
        assert(t[k + i + 1] == u[i + 1]);
    }
    if i + 2 < u.len() {
        assert(t[k + i + 2] == u[i + 2]);
    }
    lemma_comma_shift(t, u, k, i);
    lemma_comma_shift(t, u, k, i + 1);
    lemma_comma_shift(t, u, k, i + 3);
    lemma_comma_advances(u, i);
    lemma_comma_advances(u, i + 1);
    lemma_comma_advances(u, i + 3);
    if let Ok((_, p)) = comma(u, i) {
        if p < u.len() {
            assert(t[k + p] == u[p]);
        }
    }
    if let Ok((_, p)) = comma(u, i + 1) {
        if p < u.len() {
            assert(t[k + p] == u[p]);
        }
    }
    if let Ok((_, p)) = comma(u, i + 3) {
        if p < u.len() {
            assert(t[k + p] == u[p]);
        }
    }
}

proof fn lemma_recover_shift(t: Seq<Token>, u: Seq<Token>, k: int, start: int, p: int)
    requires
        placed(t, u, k),
        0 <= start <= p,
    ensures
        recover(t, k + start, k + p) == recover(u, start, p) + k,
    decreases u.len() - p,
{
    if p < u.len() {
        assert(t[k + p] == u[p]);
        if p > start {
            assert(t[k + p - 1] == u[p - 1]);
        }
        lemma_recover_shift(t, u, k, start, p + 1);
    }
}

/// The outcomes of the suffix, with every error position moved by `k`.
pub open spec fn shift_outcomes(os: Seq<Result<Declaration, (Seq<char>, int)>>, k: int) -> Seq<
    Result<Declaration, (Seq<char>, int)>,
> {
    os.map_values(
        |o: Result<Declaration, (Seq<char>, int)>|
            match o {
                Ok(d) => Ok(d),
                Err((m, x)) => Err((m, x + k)),
            },
    )
}

proof fn lemma_declarations_shift(t: Seq<Token>, u: Seq<Token>, k: int, p: int)
    requires
        placed(t, u, k),
        0 <= p,
    ensures
        declarations(t, k + p) == shift_outcomes(declarations(u, p), k),
    decreases u.len() - p,
{
    if p < u.len() {
        assert(t[k + p] == u[p]);
        if u[p].token_type != TokenType::EOF {
            lemma_declaration_shift(t, u, k, p);
            lemma_declaration_advances(u, p);
            match declaration(u, p) {
                Ok((d, q)) => {
                    if p < q <= u.len() {
                        lemma_declarations_shift(t, u, k, q);
                        assert(declarations(t, k + p) =~= shift_outcomes(declarations(u, p), k));
                    }
                },
                Err((m, x)) => {
                    lemma_recover_shift(t, u, k, p, x);
                    let q = recover(u, p, x);
                    if p < q <= u.len() {
                        lemma_declarations_shift(t, u, k, q);
                        assert(declarations(t, k + p) =~= shift_outcomes(declarations(u, p), k));
                    }
                },
            }
        } else {
            assert(declarations(t, k + p) =~= shift_outcomes(declarations(u, p), k));
        }
    } else {
        assert(declarations(t, k + p) =~= shift_outcomes(declarations(u, p), k));
    }
}

/// When the first declaration fails at a token that begins a declaration
/// (as when its `;` is missing before a `var` or `print`), its error is the
/// first outcome, and every later outcome is exactly what parsing the rest
/// on its own gives, positions counted from where the rest begins.
pub proof fn lemma_recovery_resumes_at_next_declaration(t: Seq<Token>, k: int)
    requires
        well_terminated(t),
        t[0].token_type != TokenType::EOF,
        declaration(t, 0) matches Err((_, e)) && e == k,
        0 < k < t.len(),
        t[k].token_type.starts_declaration(),
    ensures
        declarations(t, 0) == seq![
            Err::<Declaration, (Seq<char>, int)>(declaration(t, 0)->Err_0),
        ] + shift_outcomes(declarations(t.skip(k), 0), k),
{
    let u = t.skip(k);
    assert(placed(t, u, k));
    assert(recover(t, 0, k) == k);
    lemma_declarations_shift(t, u, k, 0);
    assert(k + 0 == k);
}

} // verus!
