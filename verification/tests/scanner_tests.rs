use lexer::scanner::Scanner;
use lexer::tokens::{Token, TokenType};

#[test]
fn it_scans_an_empty_file() {
    let mut scanner = Scanner::new("      ");
    let _ = scanner.scan();
    let expected = vec![Token::new(TokenType::Eof, None, None, 1)];
    assert_eq!(
        scanner.tokens, expected,
        "\n\nreceived:\n{:#?}\n\nexpected:\n{:#?}",
        scanner.tokens, expected
    )
}

#[test]
fn it_ignores_comments_in_an_empty_file() {
    let mut scanner = Scanner::new("// this file has nothing but a comment");
    let _ = scanner.scan();
    let expected = vec![Token::new(TokenType::Eof, None, None, 1)];
    assert_eq!(
        scanner.tokens, expected,
        "\n\nreceived:\n{:#?}\n\nexpected:\n{:#?}",
        scanner.tokens, expected
    )
}

#[test]
fn it_scans_a_hello_world_file() {
    let mut scanner = Scanner::new("print \"hello world\";");
    let _ = scanner.scan();
    let expected = vec![
        Token::new(TokenType::Print, Some("print"), None, 1),
        Token::new(
            TokenType::String,
            Some("hello world"),
            Some("\"hello world\""),
            1,
        ),
        Token::new(TokenType::Semicolon, None, None, 1),
        Token::new(TokenType::Eof, None, None, 1),
    ];

    assert_eq!(
        scanner.tokens, expected,
        "\n\nreceived:\n{:#?}\n\nexpected:\n{:#?}",
        scanner.tokens, expected
    )
}

#[test]
fn it_scans_a_number() {
    let mut scanner = Scanner::new("12345");
    let _ = scanner.scan();
    let expected = vec![
        Token::new(TokenType::Number, Some("12345"), None, 1),
        Token::new(TokenType::Eof, None, None, 1),
    ];

    assert_eq!(
        scanner.tokens, expected,
        "\n\nreceived:\n{:#?}\n\nexpected:\n{:#?}",
        scanner.tokens, expected
    )
}

#[test]
fn it_ignores_comments() {
    let mut scanner = Scanner::new("// this is a comment\n print \"hello world\";");
    let _ = scanner.scan();
    let expected = vec![
        Token::new(TokenType::Print, Some("print"), None, 2),
        Token::new(
            TokenType::String,
            Some("hello world"),
            Some("\"hello world\""),
            2,
        ),
        Token::new(TokenType::Semicolon, None, None, 2),
        Token::new(TokenType::Eof, None, None, 2),
    ];

    assert_eq!(
        scanner.tokens, expected,
        "\n\nreceived:\n{:#?}\n\nexpected:\n{:#?}",
        scanner.tokens, expected
    )
}

#[test]
fn it_correctly_identifies_numeric_values_and_identifiers() {
    let mut scanner = Scanner::new("var pi = 3.14159");
    let _ = scanner.scan();
    let expected = vec![
        Token::new(TokenType::Var, Some("var"), None, 1),
        Token::new(TokenType::Identifier, Some("pi"), None, 1),
        Token::new(TokenType::Equal, None, None, 1),
        Token::new(TokenType::Number, Some("3.14159"), None, 1),
        Token::new(TokenType::Eof, None, None, 1),
    ];
    assert_eq!(
        scanner.tokens, expected,
        "\n\nreceived:\n{:#?}\n\nexpected:\n{:#?}",
        scanner.tokens, expected
    )
}

#[test]
fn it_creates_a_scanner_over_any_text() {
    let mut scanner = Scanner::new("Some file, it does not matter.");
    let result = scanner.scan();
    assert!(result.is_ok());
}
