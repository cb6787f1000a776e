use whisp::lexer::{Collection, Lexer, TokenIterator};
use whisp::token::Token;

#[test]
fn test_stream() {
    let lexer = Lexer::new("
            let x = 5;

            x + 1;
        ");
    let expt_tokens = vec![
        Token::Let,
        Token::Identifier("x".to_string()),
        Token::Assign,
        Token::Int(5),
        Token::Semicolon,
        Token::Identifier("x".to_string()),
        Token::Add,
        Token::Int(1),
        Token::Semicolon,
        Token::Eof,
    ];

    let mut stream = lexer.stream();
    let mut token = stream.next();
    let mut index = 0;

    assert!(token.is_ok());

    while token != Ok(Token::Eof) {
        assert_eq!(token.unwrap(), *expt_tokens.get(index).unwrap());
        index = index + 1;
        token = stream.next();
    }
}

#[test]
fn test_unrecognized_token() {
    let lexer = Lexer::new("$");

    let mut stream = lexer.stream();
    let token = stream.next();

    assert!(token.is_err());
    assert!(token.unwrap_err().contains("unrecognized character '$' found."));
}

#[test]
fn test_import_statement_tokens() {
    let lexer = Lexer::new("import path1::path2::sort;");
    let expt_tokens = vec![
        Token::Import,
        Token::Identifier("path1".to_string()),
        Token::DoubleColon,
        Token::Identifier("path2".to_string()),
        Token::DoubleColon,
        Token::Identifier("sort".to_string()),
        Token::Semicolon,
    ];

    let mut stream = lexer.stream();
    let mut token = stream.next();

    assert!(token.is_ok());

    let mut index = 0;

    while token != Ok(Token::Semicolon) {
        assert_eq!(token.unwrap(), *expt_tokens.get(index).unwrap());
        index = index + 1;
        token = stream.next();
    }
}

#[test]
fn test_single_comment() {
    let lexer = Lexer::new("
            # This is a comment
            let x = 10;
        ");
    let expected = vec![
        Token::Let,
        Token::Identifier("x".to_string()),
        Token::Assign,
        Token::Int(10),
        Token::Semicolon,
        Token::Eof,
    ];

    let mut stream = lexer.stream();
    for token in expected {
        assert_eq!(stream.next().unwrap(), token);
    }
}

#[test]
fn test_multiple_consecutive_comments() {
    let lexer = Lexer::new("
            # comment one
            # comment two
            let x = 1;
        ");
    let expected = vec![
        Token::Let,
        Token::Identifier("x".to_string()),
        Token::Assign,
        Token::Int(1),
        Token::Semicolon,
        Token::Eof,
    ];

    let mut stream = lexer.stream();
    for token in expected {
        assert_eq!(stream.next().unwrap(), token);
    }
}

#[test]
fn test_comment_between_tokens() {
    let lexer = Lexer::new("
            let x = 1; # a comment here
            x + 2;
        ");
    let expected = vec![
        Token::Let,
        Token::Identifier("x".to_string()),
        Token::Assign,
        Token::Int(1),
        Token::Semicolon,
        Token::Identifier("x".to_string()),
        Token::Add,
        Token::Int(2),
        Token::Semicolon,
        Token::Eof,
    ];

    let mut stream = lexer.stream();
    for token in expected {
        assert_eq!(stream.next().unwrap(), token);
    }
}

#[test]
fn test_comment_inside_function() {
    let lexer = Lexer::new("
            def f() {
                # comment inside body
                # comment inside body
                return 42;
            }
        ");
    let expected = vec![
        Token::Def,
        Token::Identifier("f".to_string()),
        Token::LParen,
        Token::RParen,
        Token::LBrace,
        Token::Return,
        Token::Int(42),
        Token::Semicolon,
        Token::RBrace,
        Token::Eof,
    ];

    let mut stream = lexer.stream();
    for token in expected {
        assert_eq!(stream.next().unwrap(), token);
    }
}
