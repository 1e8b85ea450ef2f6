use lox::lox::{Event, Lox};
use lox::scanner::Scanner;
use lox::token::TokenType;
use lox::value::Value;

fn run(source: &str) -> Vec<Event> {
    Lox::new().run(source.to_string())
}

fn printed(source: &str) -> Vec<String> {
    run(source)
        .into_iter()
        .map(|e| match e {
            Event::Printed(Value::Number(n)) => format!("{}/{}", n.numerator(), n.denominator()),
            Event::Printed(Value::String(s)) => format!("\"{}\"", s),
            Event::Printed(Value::Boolean(b)) => format!("{}", b),
            Event::Printed(Value::Nil) => "nil".to_string(),
            Event::Printed(Value::Void) => "void".to_string(),
            Event::Runtime(e) => format!("runtime: {}", e.message),
            Event::Syntax(e) => format!("syntax: {}", e.message),
            Event::Lexical(m) => format!("lexical: {}", m),
        })
        .collect()
}

#[test]
fn scanner_ends_with_one_end_marker() {
    let mut scanner = Scanner::new("var x = 1;\nprint x;");
    let tokens = scanner.tokenize();
    assert_eq!(tokens.len(), 9);
    assert!(matches!(tokens[8].token_type, TokenType::EOF));
    assert_eq!(tokens.iter().filter(|t| matches!(t.token_type, TokenType::EOF)).count(), 1);
    assert_eq!(tokens[0].line, 0);
    assert_eq!(tokens[5].line, 1);
    assert!(scanner.errors.is_empty());
}

#[test]
fn scanner_reads_operators_and_literals() {
    let mut scanner = Scanner::new("a <= 12.5 != \"hi there\" // note\n! = ==");
    let tokens = scanner.tokenize();
    let kinds: Vec<String> = tokens.iter().map(|t| t.to_string()).collect();
    assert_eq!(
        kinds,
        vec![
            "a, Line 0",
            "'<=', Line 0",
            "12.5, Line 0",
            "'!=', Line 0",
            "hi there, Line 0",
            "'!', Line 1",
            "'=', Line 1",
            "'==', Line 1",
            "<EOF>, Line 1",
        ]
    );
}

#[test]
fn scanner_reports_unknown_characters_and_goes_on() {
    let mut scanner = Scanner::new("1 @ 2");
    let tokens = scanner.tokenize();
    assert_eq!(tokens.len(), 3);
    assert_eq!(scanner.errors, vec!["[Line 0] Error : unknown character".to_string()]);
    let mut scanner = Scanner::new("\"open");
    let tokens = scanner.tokenize();
    assert_eq!(tokens.len(), 1);
    assert_eq!(scanner.errors, vec!["[Line 0] Error : unterminated string literal".to_string()]);
}

#[test]
fn scanner_keeps_grapheme_clusters_whole() {
    let mut scanner = Scanner::new("\"e\u{301}\"");
    let tokens = scanner.tokenize();
    match &tokens[0].token_type {
        TokenType::String(s) => assert_eq!(s, "e\u{301}"),
        other => panic!("unexpected {:?}", other),
    }
    let mut scanner = Scanner::new("x\u{301}");
    scanner.tokenize();
    assert_eq!(scanner.errors.len(), 1);
}

#[test]
fn source_arithmetic() {
    assert_eq!(printed("print 1 + 2 * 3;"), vec!["7/1"]);
    assert_eq!(printed("print (1 + 2) * 3;"), vec!["9/1"]);
    assert_eq!(printed("print 1 / 2;"), vec!["1/2"]);
    assert_eq!(printed("print 0.1 + 0.2 == 0.3;"), vec!["true"]);
}

#[test]
fn source_program() {
    let out = printed("var a = 1;\nvar b;\nprint a, 2;\nprint b;\nprint true ? \"yes\" : (1/0);\nprint 1 print 2;\nprint !nil;");
    assert_eq!(
        out,
        vec![
            "2/1",
            "runtime: variable `b` has does not have a value",
            "\"yes\"",
            "syntax: statements must end with a semicolon",
            "2/1",
            "true",
        ]
    );
}

#[test]
fn source_lexical_errors_come_first() {
    let out = printed("print 1; # print 2;");
    assert_eq!(out[0], "lexical: [Line 0] Error : unknown character");
    assert_eq!(out[1], "1/1");
}

#[test]
fn scanner_rejects_number_literal_out_of_range() {
    let mut scanner = Scanner::new("99999999999999999999 1.5");
    let tokens = scanner.tokenize();
    assert_eq!(scanner.errors, vec!["[Line 0] Error : number literal out of range".to_string()]);
    assert_eq!(tokens.len(), 2);
    match &tokens[0].token_type {
        TokenType::Number(n) => assert_eq!((n.numerator(), n.denominator()), (3, 2)),
        other => panic!("unexpected {:?}", other),
    }
}

#[test]
fn scanner_counts_lines_inside_strings() {
    let mut scanner = Scanner::new("\"a\nb\" x");
    let tokens = scanner.tokenize();
    assert_eq!(tokens[0].line, 1);
    assert_eq!(tokens[1].line, 1);
    match &tokens[0].token_type {
        TokenType::String(s) => assert_eq!(s, "a\nb"),
        other => panic!("unexpected {:?}", other),
    }
}
