use lexer::scanner::Scanner;
use lexer::tokens::{LexError, Token, TokenType};

#[test]
fn empty_input_yields_a_single_eof_token() {
    let mut scanner = Scanner::new("");
    let result = scanner.scan();
    assert!(result.is_ok());
    let expected = vec![Token::new(TokenType::Eof, None, None, 1)];
    assert_eq!(scanner.tokens, expected);
}

#[test]
fn whitespace_and_comments_count_their_newlines() {
    let mut scanner = Scanner::new("  // one\n\t\r\n // two");
    let result = scanner.scan();
    assert!(result.is_ok());
    let expected = vec![Token::new(TokenType::Eof, None, None, 3)];
    assert_eq!(scanner.tokens, expected);
}

#[test]
fn comment_only_input_yields_eof_on_line_one() {
    let mut scanner = Scanner::new("// comment only");
    let result = scanner.scan();
    assert!(result.is_ok());
    let expected = vec![Token::new(TokenType::Eof, None, None, 1)];
    assert_eq!(scanner.tokens, expected);
}

#[test]
fn operator_leads_followed_by_equal_form_one_token() {
    let mut scanner = Scanner::new("!= == <= >= ! = < >");
    let result = scanner.scan();
    assert!(result.is_ok());
    let expected = vec![
        Token::new(TokenType::BangEqual, None, None, 1),
        Token::new(TokenType::EqualEqual, None, None, 1),
        Token::new(TokenType::LessEqual, None, None, 1),
        Token::new(TokenType::GreaterEqual, None, None, 1),
        Token::new(TokenType::Bang, None, None, 1),
        Token::new(TokenType::Equal, None, None, 1),
        Token::new(TokenType::Less, None, None, 1),
        Token::new(TokenType::Greater, None, None, 1),
        Token::new(TokenType::Eof, None, None, 1),
    ];
    assert_eq!(scanner.tokens, expected);
}

#[test]
fn punctuation_scans_one_token_per_character() {
    let mut scanner = Scanner::new("(){},.-+;*/");
    let result = scanner.scan();
    assert!(result.is_ok());
    let expected = vec![
        Token::new(TokenType::LeftParenthesis, None, None, 1),
        Token::new(TokenType::RightParenthesis, None, None, 1),
        Token::new(TokenType::LeftBrace, None, None, 1),
        Token::new(TokenType::RightBrace, None, None, 1),
        Token::new(TokenType::Comma, None, None, 1),
        Token::new(TokenType::Dot, None, None, 1),
        Token::new(TokenType::Minus, None, None, 1),
        Token::new(TokenType::Plus, None, None, 1),
        Token::new(TokenType::Semicolon, None, None, 1),
        Token::new(TokenType::Star, None, None, 1),
        Token::new(TokenType::Slash, None, None, 1),
        Token::new(TokenType::Eof, None, None, 1),
    ];
    assert_eq!(scanner.tokens, expected);
}

#[test]
fn string_lexeme_sits_between_quotes_and_literal_keeps_them() {
    let mut scanner = Scanner::new("\"abc\"");
    let result = scanner.scan();
    assert!(result.is_ok());
    let expected = vec![
        Token::new(TokenType::String, Some("abc"), Some("\"abc\""), 1),
        Token::new(TokenType::Eof, None, None, 1),
    ];
    assert_eq!(scanner.tokens, expected);
}

#[test]
fn multiline_string_advances_the_line_counter() {
    let mut scanner = Scanner::new("\"a\nb\"x");
    let result = scanner.scan();
    assert!(result.is_ok());
    let expected = vec![
        Token::new(TokenType::String, Some("a\nb"), Some("\"a\nb\""), 1),
        Token::new(TokenType::Identifier, Some("x"), None, 2),
        Token::new(TokenType::Eof, None, None, 2),
    ];
    assert_eq!(scanner.tokens, expected);
}

#[test]
fn every_reserved_word_yields_its_keyword_category() {
    let mut scanner = Scanner::new(
        "and class else false fun for if nil or print return super this true var while",
    );
    let result = scanner.scan();
    assert!(result.is_ok());
    let expected = vec![
        Token::new(TokenType::And, Some("and"), None, 1),
        Token::new(TokenType::Class, Some("class"), None, 1),
        Token::new(TokenType::Else, Some("else"), None, 1),
        Token::new(TokenType::False, Some("false"), None, 1),
        Token::new(TokenType::Fun, Some("fun"), None, 1),
        Token::new(TokenType::For, Some("for"), None, 1),
        Token::new(TokenType::If, Some("if"), None, 1),
        Token::new(TokenType::Nil, Some("nil"), None, 1),
        Token::new(TokenType::Or, Some("or"), None, 1),
        Token::new(TokenType::Print, Some("print"), None, 1),
        Token::new(TokenType::Return, Some("return"), None, 1),
        Token::new(TokenType::Super, Some("super"), None, 1),
        Token::new(TokenType::This, Some("this"), None, 1),
        Token::new(TokenType::True, Some("true"), None, 1),
        Token::new(TokenType::Var, Some("var"), None, 1),
        Token::new(TokenType::While, Some("while"), None, 1),
        Token::new(TokenType::Eof, None, None, 1),
    ];
    assert_eq!(scanner.tokens, expected);
}

#[test]
fn keywords_match_case_sensitively_and_as_whole_words() {
    let mut scanner = Scanner::new("And nilx orchid");
    let result = scanner.scan();
    assert!(result.is_ok());
    let expected = vec![
        Token::new(TokenType::Identifier, Some("And"), None, 1),
        Token::new(TokenType::Identifier, Some("nilx"), None, 1),
        Token::new(TokenType::Identifier, Some("orchid"), None, 1),
        Token::new(TokenType::Eof, None, None, 1),
    ];
    assert_eq!(scanner.tokens, expected);
}

#[test]
fn a_trailing_dot_is_not_part_of_a_number() {
    let mut scanner = Scanner::new("3.");
    let result = scanner.scan();
    assert!(result.is_ok());
    let expected = vec![
        Token::new(TokenType::Number, Some("3"), None, 1),
        Token::new(TokenType::Dot, None, None, 1),
        Token::new(TokenType::Eof, None, None, 1),
    ];
    assert_eq!(scanner.tokens, expected);
}

#[test]
fn division_between_numbers_is_a_slash_token() {
    let mut scanner = Scanner::new("1/2");
    let result = scanner.scan();
    assert!(result.is_ok());
    let expected = vec![
        Token::new(TokenType::Number, Some("1"), None, 1),
        Token::new(TokenType::Slash, None, None, 1),
        Token::new(TokenType::Number, Some("2"), None, 1),
        Token::new(TokenType::Eof, None, None, 1),
    ];
    assert_eq!(scanner.tokens, expected);
}

#[test]
fn identifiers_may_hold_digits_after_the_first_character() {
    let mut scanner = Scanner::new("a1b2");
    let result = scanner.scan();
    assert!(result.is_ok());
    let expected = vec![
        Token::new(TokenType::Identifier, Some("a1b2"), None, 1),
        Token::new(TokenType::Eof, None, None, 1),
    ];
    assert_eq!(scanner.tokens, expected);
}

#[test]
fn multi_byte_text_is_scanned_by_character() {
    let mut scanner = Scanner::new("var ciudád = \"niño\"");
    let result = scanner.scan();
    assert!(result.is_ok());
    let expected = vec![
        Token::new(TokenType::Var, Some("var"), None, 1),
        Token::new(TokenType::Identifier, Some("ciudád"), None, 1),
        Token::new(TokenType::Equal, None, None, 1),
        Token::new(TokenType::String, Some("niño"), Some("\"niño\""), 1),
        Token::new(TokenType::Eof, None, None, 1),
    ];
    assert_eq!(scanner.tokens, expected);
}

#[test]
fn unterminated_string_input_is_an_error_not_a_success() {
    let mut scanner = Scanner::new("\"abc");
    let result = scanner.scan();
    assert_eq!(result, Err(LexError::UnterminatedString { line: 1 }));
    let expected: Vec<Token> = vec![];
    assert_eq!(scanner.tokens, expected);
}

#[test]
fn unterminated_string_reports_the_line_it_began_on() {
    let mut scanner = Scanner::new("\n\n\"a\nb");
    let result = scanner.scan();
    assert_eq!(result, Err(LexError::UnterminatedString { line: 3 }));
}

#[test]
fn unrecognized_character_is_an_error_with_character_and_line() {
    let mut scanner = Scanner::new("@");
    let result = scanner.scan();
    assert_eq!(
        result,
        Err(LexError::UnrecognizedCharacter { character: '@', line: 1 })
    );
}

#[test]
fn tokens_before_an_error_remain_retrievable() {
    let mut scanner = Scanner::new("+\n#");
    let result = scanner.scan();
    assert_eq!(
        result,
        Err(LexError::UnrecognizedCharacter { character: '#', line: 2 })
    );
    let expected = vec![Token::new(TokenType::Plus, None, None, 1)];
    assert_eq!(scanner.tokens, expected);
}

#[test]
fn classification_maps_spellings_and_falls_back_to_identifier() {
    assert_eq!(TokenType::from("("), TokenType::LeftParenthesis);
    assert_eq!(TokenType::from("!="), TokenType::BangEqual);
    assert_eq!(TokenType::from("and"), TokenType::And);
    assert_eq!(TokenType::from("nil"), TokenType::Nil);
    assert_eq!(TokenType::from("or"), TokenType::Or);
    assert_eq!(TokenType::from("super"), TokenType::Super);
    assert_eq!(TokenType::from("Nil"), TokenType::Identifier);
    assert_eq!(TokenType::from("xyz"), TokenType::Identifier);
    assert_eq!(TokenType::from("andy"), TokenType::Identifier);
    assert_eq!(TokenType::from(""), TokenType::Identifier);
}
