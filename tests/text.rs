use lox::grammar::expression::{BinaryOperator, Expression, Literal, UnaryOperator};
use lox::number::Number;
use lox::printer::AstPrinter;
use lox::error::{error, report};
use lox::text::decimal_text;
use lox::token::{Token, TokenType};

#[test]
fn printer_renders_canonical_text() {
    let e = Expression::binary(
        BinaryOperator::Multiply,
        Expression::grouping(Expression::binary(
            BinaryOperator::Plus,
            Expression::literal(Literal::Number(Number::integer(1))),
            Expression::literal(Literal::Number(Number::integer(2))),
        )),
        Expression::unary(UnaryOperator::Minus, Expression::variable("x".to_string())),
    );
    assert_eq!(AstPrinter.print(&e), "(1 + 2) * -x");
    let t = Expression::ternary(
        Expression::literal(Literal::True),
        Expression::literal(Literal::String("a".to_string())),
        Expression::literal(Literal::Nil),
    );
    assert_eq!(t.to_text(), "true ? \"a\" : nil");
}

#[test]
fn numbers_render_as_text() {
    let half = Number::ratio(1, 2).unwrap();
    assert_eq!(Expression::literal(Literal::Number(half)).to_text(), "0.5");
    let n = Number::ratio(-5, 4).unwrap();
    assert_eq!(Expression::literal(Literal::Number(n)).to_text(), "-1.25");
    let n = Number::ratio(-1, 8).unwrap();
    assert_eq!(Expression::literal(Literal::Number(n)).to_text(), "-0.125");
    let n = Number::ratio(1, 1 << 40).unwrap();
    assert_eq!(
        Expression::literal(Literal::Number(n)).to_text(),
        "0.0000000000009094947017729282379150390625"
    );
    let third = Number::ratio(1, 3).unwrap();
    assert_eq!(Expression::literal(Literal::Number(third)).to_text(), "1/3");
    let neg = Number::ratio(6, -4).unwrap();
    assert_eq!((neg.numerator(), neg.denominator()), (-3, 2));
    assert!(Number::ratio(1, 0).is_none());
    assert_eq!(Expression::literal(Literal::Number(Number::integer(-42))).to_text(), "-42");
}

#[test]
fn diagnostics() {
    assert_eq!(error(12, "boom"), "[Line 12] Error : boom");
    assert_eq!(report(0, "at 'x'", "bad"), "[Line 0] Error at 'x': bad");
    assert_eq!(decimal_text(1234567890), "1234567890");
    let t = Token { token_type: TokenType::LessEqual, line: 7 };
    assert_eq!(t.to_string(), "'<=', Line 7");
    let t = Token { token_type: TokenType::Identifier("abc".to_string()), line: 3 };
    assert_eq!(t.to_string(), "abc, Line 3");
}
