use jlox::errors::ScanError;
use jlox::scanner::{match_keyword, scan_tokens};
use jlox::token::{Token, TokenType};
use jlox::value::Value;

#[test]
fn hello_world_scan() {
    let source = "print \"Hello, World!\";".to_string();
    let tokens = scan_tokens(source).expect("Token Scanning failed!");

    let cmp_token = Token::new(TokenType::Print, "print".to_string(), None, 1);
    assert_eq!(*tokens.get(0).unwrap(), cmp_token);

    let cmp_token = Token::new(
        TokenType::String,
        "\"Hello, World!\"".to_string(),
        Some(Value::String("Hello, World!".to_string())),
        1,
    );
    assert_eq!(*tokens.get(1).unwrap(), cmp_token);

    let cmp_token = Token::new(TokenType::Semicolon, ";".to_string(), None, 1);
    assert_eq!(*tokens.get(2).unwrap(), cmp_token);

    let cmp_token = Token::new(TokenType::Eof, String::new(), None, 1);
    assert_eq!(*tokens.get(3).unwrap(), cmp_token);
}

#[test]
fn keyword_scan() {
    let source = "var x = true;\r\nclass TestClass {\r\n    testMethod(s) {\r\n        print s;\r\n    }\r\n}".to_string();
    let tokens = scan_tokens(source).expect("Token Scanning failed!");

    let expected = [
        (TokenType::Var, "var", 1),
        (TokenType::Identifier, "x", 1),
        (TokenType::Equal, "=", 1),
        (TokenType::True, "true", 1),
        (TokenType::Semicolon, ";", 1),
        (TokenType::Class, "class", 2),
        (TokenType::Identifier, "TestClass", 2),
        (TokenType::LeftBrace, "{", 2),
        (TokenType::Identifier, "testMethod", 3),
        (TokenType::LeftParen, "(", 3),
        (TokenType::Identifier, "s", 3),
        (TokenType::RightParen, ")", 3),
        (TokenType::LeftBrace, "{", 3),
        (TokenType::Print, "print", 4),
        (TokenType::Identifier, "s", 4),
        (TokenType::Semicolon, ";", 4),
        (TokenType::RightBrace, "}", 5),
        (TokenType::RightBrace, "}", 6),
        (TokenType::Eof, "", 6),
    ];
    for (i, (t, lexeme, line)) in expected.iter().enumerate() {
        let cmp_token = Token::new(*t, lexeme.to_string(), None, *line);
        assert_eq!(*tokens.get(i).unwrap(), cmp_token);
    }
}

#[test]
fn number_scan() {
    let source = "123 45.67".to_string();
    let tokens = scan_tokens(source).expect("Token Scanning failed!");

    let cmp_token = Token::new(
        TokenType::Number,
        "123".to_string(),
        Some(Value::Number(123.0f64.to_bits())),
        1,
    );
    assert_eq!(*tokens.get(0).unwrap(), cmp_token);

    let cmp_token = Token::new(
        TokenType::Number,
        "45.67".to_string(),
        Some(Value::Number(45.67f64.to_bits())),
        1,
    );
    assert_eq!(*tokens.get(1).unwrap(), cmp_token);

    let cmp_token = Token::new(TokenType::Eof, String::new(), None, 1);
    assert_eq!(*tokens.get(2).unwrap(), cmp_token);
}

#[test]
fn string_scan() {
    let source = "\"Hello, World!\"".to_string();
    let tokens = scan_tokens(source).expect("Token Scanning failed!");

    let cmp_token = Token::new(
        TokenType::String,
        "\"Hello, World!\"".to_string(),
        Some(Value::String("Hello, World!".to_string())),
        1,
    );
    assert_eq!(*tokens.get(0).unwrap(), cmp_token);

    let cmp_token = Token::new(TokenType::Eof, String::new(), None, 1);
    assert_eq!(*tokens.get(1).unwrap(), cmp_token);
}

#[test]
fn comment_scan() {
    let source = "// This is a comment\nvar x = 42;".to_string();
    let tokens = scan_tokens(source).expect("Token Scanning failed!");

    let cmp_token = Token::new(TokenType::Var, "var".to_string(), None, 2);
    assert_eq!(*tokens.get(0).unwrap(), cmp_token);

    let cmp_token = Token::new(TokenType::Identifier, "x".to_string(), None, 2);
    assert_eq!(*tokens.get(1).unwrap(), cmp_token);

    let cmp_token = Token::new(TokenType::Equal, "=".to_string(), None, 2);
    assert_eq!(*tokens.get(2).unwrap(), cmp_token);

    let cmp_token = Token::new(
        TokenType::Number,
        "42".to_string(),
        Some(Value::Number(42.0f64.to_bits())),
        2,
    );
    assert_eq!(*tokens.get(3).unwrap(), cmp_token);

    let cmp_token = Token::new(TokenType::Semicolon, ";".to_string(), None, 2);
    assert_eq!(*tokens.get(4).unwrap(), cmp_token);

    let cmp_token = Token::new(TokenType::Eof, String::new(), None, 2);
    assert_eq!(*tokens.get(5).unwrap(), cmp_token);
}

#[test]
fn two_character_operators_scan() {
    let tokens = scan_tokens("! != = == < <= > >= /".to_string()).unwrap();
    let types: Vec<TokenType> = tokens.iter().map(|t| t.token_type()).collect();
    assert_eq!(
        types,
        vec![
            TokenType::Bang,
            TokenType::BangEqual,
            TokenType::Equal,
            TokenType::EqualEqual,
            TokenType::Less,
            TokenType::LessEqual,
            TokenType::Greater,
            TokenType::GreaterEqual,
            TokenType::Slash,
            TokenType::Eof,
        ]
    );
}

#[test]
fn number_without_fraction_digits_leaves_the_dot() {
    let tokens = scan_tokens("12.".to_string()).unwrap();
    assert_eq!(tokens[0].lexeme(), "12");
    assert_eq!(tokens[1].token_type(), TokenType::Dot);
}

#[test]
fn multiline_string_counts_lines() {
    let tokens = scan_tokens("\"a\nb\" x".to_string()).unwrap();
    assert_eq!(tokens[0].literal(), Some(Value::String("a\nb".to_string())));
    assert_eq!(tokens[0].line(), 2);
    assert_eq!(tokens[1].line(), 2);
}

#[test]
fn scan_errors_are_all_reported() {
    let errors = scan_tokens("@ # \"open".to_string()).unwrap_err();
    assert_eq!(
        errors,
        vec![
            ScanError::UnexpectedCharacter('@', 1),
            ScanError::UnexpectedCharacter('#', 1),
            ScanError::UnterminatedString(1),
        ]
    );
}

#[test]
fn numeric_character_that_is_no_numeral() {
    let errors = scan_tokens("\u{b2}".to_string()).unwrap_err();
    assert_eq!(errors, vec![ScanError::InvalidNumber(1)]);
}

#[test]
fn empty_source_gives_end_marker() {
    let tokens = scan_tokens(String::new()).unwrap();
    assert_eq!(tokens, vec![Token::new(TokenType::Eof, String::new(), None, 1)]);
}

#[test]
fn keywords_are_matched() {
    assert_eq!(match_keyword("while"), Some(TokenType::While));
    assert_eq!(match_keyword("nil"), Some(TokenType::Nil));
    assert_eq!(match_keyword("whilex"), None);
    assert_eq!(match_keyword(""), None);
}
