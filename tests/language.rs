use lox::error::ParserError;
use lox::grammar::declaration::Declaration;
use lox::interpreter::Interpreter;
use lox::lox::{Event, Lox};
use lox::number::Number;
use lox::parser::Parser;
use lox::token::{Token, TokenType};
use lox::value::Value;

fn tok(token_type: TokenType) -> Token {
    Token { token_type, line: 1 }
}

fn num(n: i32) -> TokenType {
    TokenType::Number(Number::integer(n))
}

fn text(s: &str) -> TokenType {
    TokenType::String(s.to_string())
}

fn ident(s: &str) -> TokenType {
    TokenType::Identifier(s.to_string())
}

fn program(kinds: Vec<TokenType>) -> Vec<Token> {
    let mut tokens: Vec<Token> = kinds.into_iter().map(tok).collect();
    tokens.push(tok(TokenType::EOF));
    tokens
}

fn run(kinds: Vec<TokenType>) -> Vec<Event> {
    Lox::new().run_tokens(program(kinds))
}

/// Runs `print <expr>;` and gives what was printed, or the runtime error message.
fn print_value(mut expr: Vec<TokenType>) -> Result<Value, String> {
    let mut kinds = vec![TokenType::Print];
    kinds.append(&mut expr);
    kinds.push(TokenType::Semicolon);
    let mut events = run(kinds);
    assert_eq!(events.len(), 1);
    match events.remove(0) {
        Event::Printed(v) => Ok(v),
        Event::Runtime(e) => Err(e.message),
        Event::Syntax(e) => panic!("unexpected syntax error: {}", e.message),
        Event::Lexical(m) => panic!("unexpected scanner error: {}", m),
    }
}

fn as_number(v: &Value) -> (i64, i64) {
    match v {
        Value::Number(n) => (n.numerator(), n.denominator()),
        other => panic!("not a number: {:?}", other),
    }
}

fn as_bool(v: &Value) -> bool {
    match v {
        Value::Boolean(b) => *b,
        other => panic!("not a boolean: {:?}", other),
    }
}

#[test]
fn arithmetic_follows_precedence() {
    let v = print_value(vec![num(1), TokenType::Plus, num(2), TokenType::Star, num(3)]).unwrap();
    assert_eq!(as_number(&v), (7, 1));
    let v = print_value(vec![TokenType::LeftParen, num(1), TokenType::Plus, num(2), TokenType::RightParen, TokenType::Star, num(3)]).unwrap();
    assert_eq!(as_number(&v), (9, 1));
}

#[test]
fn arithmetic_is_left_associative() {
    let v = print_value(vec![num(10), TokenType::Minus, num(4), TokenType::Minus, num(3)]).unwrap();
    assert_eq!(as_number(&v), (3, 1));
    let v = print_value(vec![num(8), TokenType::Slash, num(4), TokenType::Slash, num(2)]).unwrap();
    assert_eq!(as_number(&v), (1, 1));
}

#[test]
fn comma_returns_right_operand() {
    let v = print_value(vec![num(1), TokenType::Comma, num(2)]).unwrap();
    assert_eq!(as_number(&v), (2, 1));
}

#[test]
fn comma_evaluates_left_operand() {
    let e = print_value(vec![num(1), TokenType::Slash, num(0), TokenType::Comma, num(2)]).unwrap_err();
    assert!(e.contains("divide by 0"));
}

#[test]
fn ternary_skips_untaken_branch() {
    let v = print_value(vec![
        TokenType::True, TokenType::QuestionMark, num(1), TokenType::Colon, TokenType::LeftParen, num(1), TokenType::Slash, num(0), TokenType::RightParen,
    ])
    .unwrap();
    assert_eq!(as_number(&v), (1, 1));
    let v = print_value(vec![TokenType::Nil, TokenType::QuestionMark, num(1), TokenType::Slash, num(0), TokenType::Colon, num(2)]).unwrap();
    assert_eq!(as_number(&v), (2, 1));
}

#[test]
fn ternary_middle_branch_takes_commas() {
    // `true ? 1, 2 : 3` picks the whole middle branch `1, 2`
    let v = print_value(vec![TokenType::True, TokenType::QuestionMark, num(1), TokenType::Comma, num(2), TokenType::Colon, num(3)]).unwrap();
    assert_eq!(as_number(&v), (2, 1));
}

#[test]
fn ternary_last_branch_stops_before_comma() {
    // `false ? 1 : 2, 3` is `(false ? 1 : 2), 3`
    let mut parser = Parser::new(program(vec![
        TokenType::False, TokenType::QuestionMark, num(1), TokenType::Colon, num(2), TokenType::Comma, num(3), TokenType::Semicolon,
    ]));
    let parsed = parser.parse();
    assert_eq!(parsed.len(), 1);
    match &parsed[0] {
        Ok(d) => assert_eq!(d.to_text(), "false ? 1 : 2 , 3;"),
        Err(e) => panic!("{}", e.message),
    }
    let v = print_value(vec![TokenType::False, TokenType::QuestionMark, num(1), TokenType::Colon, num(2), TokenType::Comma, num(3)]).unwrap();
    assert_eq!(as_number(&v), (3, 1));
}

#[test]
fn division_by_zero_is_an_error() {
    let e = print_value(vec![num(1), TokenType::Slash, num(0)]).unwrap_err();
    assert!(e.contains("divide by 0"));
}

#[test]
fn division_is_exact() {
    let v = print_value(vec![num(1), TokenType::Slash, num(2)]).unwrap();
    assert_eq!(as_number(&v), (1, 2));
    let v = print_value(vec![num(1), TokenType::Slash, num(2), TokenType::Plus, num(1), TokenType::Slash, num(2)]).unwrap();
    assert_eq!(as_number(&v), (1, 1));
    let v = print_value(vec![num(-6), TokenType::Slash, num(4)]).unwrap();
    assert_eq!(as_number(&v), (-3, 2));
}

#[test]
fn unassigned_variable_is_an_error() {
    let events = run(vec![TokenType::Var, ident("x"), TokenType::Semicolon, ident("x"), TokenType::Semicolon]);
    assert_eq!(events.len(), 1);
    match &events[0] {
        Event::Runtime(e) => assert!(e.message.contains("does not have a value")),
        other => panic!("unexpected event {:?}", other),
    }
}

#[test]
fn initialized_variable_statement_prints_nothing() {
    let events = run(vec![
        TokenType::Var, ident("x"), TokenType::Equal, num(1), TokenType::Semicolon, ident("x"), TokenType::Semicolon,
    ]);
    assert!(events.is_empty());
    let events = run(vec![
        TokenType::Var, ident("x"), TokenType::Equal, num(1), TokenType::Semicolon, TokenType::Print, ident("x"), TokenType::Semicolon,
    ]);
    assert_eq!(events.len(), 1);
    match &events[0] {
        Event::Printed(v) => assert_eq!(as_number(v), (1, 1)),
        other => panic!("unexpected event {:?}", other),
    }
}

#[test]
fn unknown_variable_is_an_error() {
    let e = print_value(vec![ident("y")]).unwrap_err();
    assert_eq!(e, "unknown variable `y`");
}

#[test]
fn redeclaring_clears_the_value() {
    let events = run(vec![
        TokenType::Var, ident("x"), TokenType::Equal, num(1), TokenType::Semicolon, TokenType::Var, ident("x"), TokenType::Semicolon, TokenType::Print, ident("x"),
        TokenType::Semicolon,
    ]);
    assert_eq!(events.len(), 1);
    match &events[0] {
        Event::Runtime(e) => assert_eq!(e.message, "variable `x` has does not have a value"),
        other => panic!("unexpected event {:?}", other),
    }
}

#[test]
fn equality_across_kinds() {
    assert!(!as_bool(&print_value(vec![num(1), TokenType::EqualEqual, text("1")]).unwrap()));
    assert!(as_bool(&print_value(vec![num(1), TokenType::BangEqual, text("1")]).unwrap()));
    assert!(as_bool(&print_value(vec![TokenType::Nil, TokenType::EqualEqual, TokenType::Nil]).unwrap()));
    assert!(!as_bool(&print_value(vec![TokenType::Nil, TokenType::EqualEqual, TokenType::False]).unwrap()));
    assert!(as_bool(&print_value(vec![text("a"), TokenType::EqualEqual, text("a")]).unwrap()));
    assert!(as_bool(&print_value(vec![num(2), TokenType::Slash, num(4), TokenType::EqualEqual, num(1), TokenType::Slash, num(2)]).unwrap()));
}

#[test]
fn comparisons() {
    assert!(as_bool(&print_value(vec![num(1), TokenType::Less, num(2)]).unwrap()));
    assert!(!as_bool(&print_value(vec![num(2), TokenType::Less, num(2)]).unwrap()));
    assert!(as_bool(&print_value(vec![num(2), TokenType::LessEqual, num(2)]).unwrap()));
    assert!(as_bool(&print_value(vec![num(3), TokenType::Greater, num(2)]).unwrap()));
    assert!(!as_bool(&print_value(vec![num(2), TokenType::GreaterEqual, num(3)]).unwrap()));
    let e = print_value(vec![text("a"), TokenType::Less, num(1)]).unwrap_err();
    assert_eq!(e, "cannot compare non-numeric types");
}

#[test]
fn parser_recovers_after_malformed_declaration() {
    // `print 1 print 2;`: the first statement lacks its semicolon
    let mut parser = Parser::new(program(vec![TokenType::Print, num(1), TokenType::Print, num(2), TokenType::Semicolon]));
    let parsed: Vec<Result<Declaration, ParserError>> = parser.parse();
    assert_eq!(parsed.len(), 2);
    match &parsed[0] {
        Err(e) => assert_eq!(e.message, "statements must end with a semicolon"),
        Ok(_) => panic!("the first declaration should fail"),
    }
    match &parsed[1] {
        Ok(d) => assert_eq!(d.to_text(), "print 2;"),
        Err(e) => panic!("{}", e.message),
    }
    let events = run(vec![TokenType::Print, num(1), TokenType::Print, num(2), TokenType::Semicolon]);
    assert_eq!(events.len(), 2);
    assert!(matches!(events[0], Event::Syntax(_)));
    match &events[1] {
        Event::Printed(v) => assert_eq!(as_number(v), (2, 1)),
        other => panic!("unexpected event {:?}", other),
    }
}

#[test]
fn parser_resumes_after_semicolon() {
    // `1 + ; print 3;`
    let mut parser = Parser::new(program(vec![num(1), TokenType::Plus, TokenType::Semicolon, TokenType::Print, num(3), TokenType::Semicolon]));
    let parsed = parser.parse();
    assert_eq!(parsed.len(), 2);
    match &parsed[0] {
        Err(e) => {
            assert_eq!(e.message, "unable to parse primary expression");
            assert!(matches!(e.token.token_type, TokenType::Semicolon));
        }
        Ok(_) => panic!("the first declaration should fail"),
    }
    assert!(parsed[1].is_ok());
}

#[test]
fn parser_error_at_end_of_input() {
    let mut parser = Parser::new(program(vec![num(1), TokenType::Plus]));
    let parsed = parser.parse();
    assert_eq!(parsed.len(), 1);
    assert!(parsed[0].is_err());
}

#[test]
fn parser_skips_unsupported_keyword() {
    let mut parser = Parser::new(program(vec![TokenType::Class, TokenType::Print, num(1), TokenType::Semicolon]));
    let parsed = parser.parse();
    assert_eq!(parsed.len(), 2);
    assert!(parsed[0].is_err());
    assert!(parsed[1].is_ok());
}

#[test]
fn parser_error_messages() {
    let cases: Vec<(Vec<TokenType>, &str)> = vec![
        (vec![TokenType::LeftParen, num(1), TokenType::Semicolon], "missing closing parenthesis"),
        (vec![TokenType::True, TokenType::QuestionMark, num(1), TokenType::Semicolon], "unterminated ternary operator"),
        (vec![TokenType::Var, num(1), TokenType::Semicolon], "variable names must be valid identifiers"),
        (vec![TokenType::Var, ident("a"), TokenType::Plus, TokenType::Semicolon], "invalid variable initialization"),
        (vec![TokenType::Var, ident("a"), TokenType::Equal, num(1), num(2)], "variable initializations must end with a semicolon"),
        (vec![num(1)], "statements must end with a semicolon"),
        (vec![TokenType::Star, TokenType::Semicolon], "unable to parse primary expression"),
    ];
    for (kinds, message) in cases {
        let mut parser = Parser::new(program(kinds));
        let parsed = parser.parse();
        match &parsed[0] {
            Err(e) => assert_eq!(e.message, message),
            Ok(d) => panic!("parsed {}", d.to_text()),
        }
    }
}

#[test]
fn string_concatenation_only() {
    match print_value(vec![text("a"), TokenType::Plus, text("b")]).unwrap() {
        Value::String(s) => assert_eq!(s, "ab"),
        other => panic!("not a string: {:?}", other),
    }
    let e = print_value(vec![text("a"), TokenType::Plus, num(1)]).unwrap_err();
    assert_eq!(e, "cannot add non-numeric types");
}

#[test]
fn arithmetic_type_errors() {
    assert_eq!(print_value(vec![text("a"), TokenType::Minus, num(1)]).unwrap_err(), "cannot subtract non-numeric types");
    assert_eq!(print_value(vec![TokenType::True, TokenType::Star, num(1)]).unwrap_err(), "cannot multiply non-numeric types");
    assert_eq!(print_value(vec![TokenType::Nil, TokenType::Slash, num(1)]).unwrap_err(), "cannot divide non-numeric types");
    assert_eq!(print_value(vec![TokenType::Minus, text("a")]).unwrap_err(), "cannot negate non-numerical value");
}

#[test]
fn unary_truthiness() {
    assert!(as_bool(&print_value(vec![TokenType::Bang, TokenType::Nil]).unwrap()));
    assert!(!as_bool(&print_value(vec![TokenType::Bang, num(0)]).unwrap()));
    assert!(as_bool(&print_value(vec![TokenType::Bang, TokenType::False]).unwrap()));
    assert!(!as_bool(&print_value(vec![TokenType::Bang, text("")]).unwrap()));
    let v = print_value(vec![TokenType::Minus, num(5)]).unwrap();
    assert_eq!(as_number(&v), (-5, 1));
}

#[test]
fn overflow_is_an_error() {
    let big = 2_000_000_000;
    let e = print_value(vec![
        num(big), TokenType::Star, num(big), TokenType::Star, num(big), TokenType::Star, num(big),
    ])
    .unwrap_err();
    assert_eq!(e, "numeric result out of range");
}

#[test]
fn runtime_error_keeps_failing_expression() {
    let events = run(vec![TokenType::Print, num(1), TokenType::Plus, TokenType::LeftParen, num(2), TokenType::Slash, num(0), TokenType::RightParen, TokenType::Semicolon]);
    match &events[0] {
        Event::Runtime(e) => {
            assert_eq!(e.expr.to_text(), "2 / 0");
            assert_eq!(e.describe(), "RuntimeError while evaluating `2 / 0`: cannot divide by 0");
        }
        other => panic!("unexpected event {:?}", other),
    }
}

#[test]
fn runtime_error_does_not_stop_the_run() {
    let events = run(vec![
        TokenType::Print, ident("nope"), TokenType::Semicolon, TokenType::Print, num(4), TokenType::Semicolon,
    ]);
    assert_eq!(events.len(), 2);
    assert!(matches!(events[0], Event::Runtime(_)));
    assert!(matches!(events[1], Event::Printed(_)));
}

#[test]
fn interpreter_keeps_bindings_between_declarations() {
    let mut parser = Parser::new(program(vec![
        TokenType::Var, ident("a"), TokenType::Equal, num(2), TokenType::Semicolon, TokenType::Print, ident("a"), TokenType::Star, ident("a"), TokenType::Semicolon,
    ]));
    let parsed = parser.parse();
    let mut interpreter = Interpreter::new();
    let events = Lox::new().interpret_all(&mut interpreter, &parsed);
    assert_eq!(events.len(), 1);
    match &events[0] {
        Event::Printed(v) => assert_eq!(as_number(v), (4, 1)),
        other => panic!("unexpected event {:?}", other),
    }
    match interpreter.environment.get(&"a".to_string()) {
        Some(v) => assert_eq!(as_number(&v), (2, 1)),
        None => panic!("a is bound"),
    }
}

#[test]
fn recovery_gives_the_next_declaration_as_parsed_alone() {
    // `print 1 var x = 2;` against `var x = 2;`
    let rest = vec![TokenType::Var, ident("x"), TokenType::Equal, num(2), TokenType::Semicolon];
    let mut whole = vec![TokenType::Print, num(1)];
    whole.extend(rest.clone());
    let parsed = Parser::new(program(whole)).parse();
    let alone = Parser::new(program(rest)).parse();
    assert_eq!(parsed.len(), 2);
    assert_eq!(alone.len(), 1);
    assert!(parsed[0].is_err());
    match (&parsed[1], &alone[0]) {
        (Ok(a), Ok(b)) => assert_eq!(a.to_text(), b.to_text()),
        _ => panic!("both should parse"),
    }
}
