use whisp::ops::Operation;
use whisp::parser::ll_parser::{LLParser, Parser};
use whisp::parser::mock::MockStream;
use whisp::symbol::{SymbolInfo, SymbolTable};
use whisp::token::Token;
use whisp::tree::ASTNode;

#[test]
fn test_parse_if_statement() {
    let stream = MockStream::new(vec![
        Token::If,
        Token::Bool(true),
        Token::LBrace,
        Token::Return,
        Token::Int(7),
        Token::Semicolon,
        Token::RBrace,
        Token::Else,
        Token::LBrace,
        Token::Return,
        Token::Int(4),
        Token::Semicolon,
        Token::RBrace,
    ]);
    let mut parser = LLParser::new(stream, SymbolTable::new());

    let result = parser.parse_control_flow();
    assert!(result.is_ok());

    let ast = result.unwrap();

    assert_eq!(
        ast,
        ASTNode::if_statement(
            ASTNode::boolean(true),
            ASTNode::statements(vec![ASTNode::return_stmt(ASTNode::numeric(7))]),
            Some(ASTNode::statements(vec![ASTNode::return_stmt(ASTNode::numeric(4))]))
        )
    );
}

#[test]
fn test_parse_return_statement() {
    let stream = MockStream::new(vec![Token::Return, Token::Int(42), Token::Semicolon]);
    let mut parser = LLParser::new(stream, SymbolTable::new());

    let result = parser.parse_control_flow();

    assert!(result.is_ok());

    let ast = result.unwrap();

    assert_eq!(ast, ASTNode::return_stmt(ASTNode::numeric(42)));
}

#[test]
fn test_parse_assignment_expr() {
    let mut symbols = SymbolTable::new();

    // Mock declaration of 'x' variable.
    symbols.define("x".to_string(), SymbolInfo);

    let tokens = vec![
        Token::Identifier("x".into()),
        Token::Assign,
        Token::Int(42),
        Token::Semicolon,
    ];
    let stream = MockStream::new(tokens);

    let mut parser = LLParser::new(stream, symbols);

    let result = parser.parse_assignment_expr();

    match result {
        Ok(ast) => {
            assert_eq!(ast, ASTNode::assign(ASTNode::identifier("x"), ASTNode::numeric(42)));
        },
        Err(e) => panic!("Failed to parse expression: {}", e.message()),
    }
}

#[test]
fn test_parse_arithmetic_expr() {
    let tokens = vec![
        Token::Int(5),
        Token::Add,
        Token::Int(3),
        Token::Mul,
        Token::Int(2),
        Token::Semicolon,
    ];
    let stream = MockStream::new(tokens);

    let symbols = SymbolTable::new();
    let mut parser = LLParser::new(stream, symbols);

    let result = parser.parse_expression();

    match result {
        Ok(ast) => {
            assert_eq!(
                ast,
                ASTNode::binary_op(
                    Operation::Add,
                    ASTNode::numeric(5),
                    ASTNode::binary_op(Operation::Mul, ASTNode::numeric(3), ASTNode::numeric(2))
                )
            );
        },
        Err(e) => panic!("Failed to parse expression: {}", e.message()),
    }
}

#[test]
fn test_parse_identifier() {
    let tokens = vec![Token::Identifier("y".into())];
    let stream = MockStream::new(tokens);

    let symbols = SymbolTable::new();
    let mut parser = LLParser::new(stream, symbols);

    let ast = parser.parse_identifier().unwrap();

    assert_eq!(ast, ASTNode::identifier("y"));
}

#[test]
fn test_parse_literal() {
    let tokens = vec![
        Token::Int(10),
        Token::String("hello".into()),
        Token::Bool(true),
        Token::Array,
        Token::LBracket,
        Token::Int(1),
        Token::Comma,
        Token::Int(2),
        Token::RBracket,
    ];
    let stream = MockStream::new(tokens);

    let symbols = SymbolTable::new();
    let mut parser = LLParser::new(stream, symbols);

    let int_ast = parser.parse_literal().unwrap();
    assert_eq!(int_ast, ASTNode::numeric(10));

    let string_ast = parser.parse_literal().unwrap();
    assert_eq!(string_ast, ASTNode::string("hello"));

    let bool_ast = parser.parse_literal().unwrap();
    assert_eq!(bool_ast, ASTNode::boolean(true));

    let array_ast = parser.parse_literal().unwrap();
    assert_eq!(array_ast, ASTNode::array(vec![ASTNode::numeric(1), ASTNode::numeric(2)]));
}

#[test]
fn test_function_def() {
    let tokens = vec![
        Token::Def,
        Token::Identifier("my_function".into()),
        Token::LParen,
        Token::Identifier("a".into()),
        Token::Comma,
        Token::Identifier("b".into()),
        Token::RParen,
        Token::LBrace,
        Token::Let,
        Token::Identifier("result".into()),
        Token::Assign,
        Token::Identifier("a".into()),
        Token::Add,
        Token::Identifier("b".into()),
        Token::Semicolon,
        Token::RBrace,
        Token::Eof,
    ];
    let stream = MockStream::new(tokens);

    let symbols = SymbolTable::new();
    let mut parser = LLParser::new(stream, symbols);

    let ast = parser.parse();

    assert!(ast.is_ok());

    match ast.unwrap() {
        ASTNode::Statements { stmts } => {
            assert_eq!(stmts.len(), 1);
            assert_eq!(
                stmts[0],
                ASTNode::function_def(
                    ASTNode::identifier("my_function"),
                    vec![ASTNode::identifier("a"), ASTNode::identifier("b")],
                    ASTNode::statements(vec![ASTNode::let_binding(
                        ASTNode::identifier("result"),
                        ASTNode::binary_op(Operation::Add, ASTNode::identifier("a"), ASTNode::identifier("b"))
                    )])
                )
            );
        },
        _ => panic!("Expected valid statement."),
    }
}

#[test]
fn test_call_function() {
    let tokens = vec![
        Token::Def,
        Token::Identifier("my_function".into()),
        Token::LParen,
        Token::Identifier("a".into()),
        Token::Comma,
        Token::Identifier("b".into()),
        Token::RParen,
        Token::LBrace,
        Token::Let,
        Token::Identifier("result".into()),
        Token::Assign,
        Token::Identifier("a".into()),
        Token::Add,
        Token::Identifier("b".into()),
        Token::Semicolon,
        Token::RBrace,
        Token::Let,
        Token::Identifier("a".into()),
        Token::Assign,
        Token::Int(5),
        Token::Semicolon,
        Token::Identifier("my_function".into()),
        Token::LParen,
        Token::Identifier("a".into()),
        Token::Comma,
        Token::Int(10),
        Token::RParen,
        Token::Semicolon,
        Token::Eof,
    ];
    let stream = MockStream::new(tokens);

    let symbols = SymbolTable::new();
    let mut parser = LLParser::new(stream, symbols);

    let ast = parser.parse();

    assert!(ast.is_ok());
    let expected_ast = ASTNode::statements(vec![
        ASTNode::function_def(
            ASTNode::identifier("my_function"),
            vec![ASTNode::identifier("a"), ASTNode::identifier("b")],
            ASTNode::statements(vec![ASTNode::let_binding(
                ASTNode::identifier("result"),
                ASTNode::binary_op(Operation::Add, ASTNode::identifier("a"), ASTNode::identifier("b")),
            )]),
        ),
        ASTNode::let_binding(ASTNode::identifier("a"), ASTNode::numeric(5)),
        ASTNode::call(
            ASTNode::identifier("my_function"),
            vec![ASTNode::identifier("a"), ASTNode::numeric(10)],
        ),
    ]);

    assert_eq!(ast.unwrap(), expected_ast);
}

#[test]
fn test_call_undefined_function_then_fail() {
    let tokens = vec![
        Token::Let,
        Token::Identifier("a".into()),
        Token::Assign,
        Token::Int(5),
        Token::Semicolon,
        Token::Identifier("my_function".into()),
        Token::LParen,
        Token::Identifier("a".into()),
        Token::Comma,
        Token::Int(10),
        Token::RParen,
        Token::Semicolon,
        Token::Eof,
    ];
    let stream = MockStream::new(tokens);
    let symbols = SymbolTable::new();

    let mut parser = LLParser::new(stream, symbols);
    let ast = parser.parse();

    assert!(ast.is_err());

    let err = ast.unwrap_err();
    assert!(err.message().contains("Undefined function name found 'my_function'"));
}

#[test]
fn test_parse_letbinding_statements() {
    let tokens = vec![
        Token::Let,
        Token::Identifier("x".into()),
        Token::Assign,
        Token::Int(42),
        Token::Semicolon,
        Token::Let,
        Token::Identifier("y".into()),
        Token::Assign,
        Token::Int(100),
        Token::Semicolon,
    ];

    let mut parser = LLParser::new(MockStream::new(tokens), SymbolTable::new());
    let ast = parser.parse_statements();

    assert!(ast.is_ok());

    match ast.unwrap() {
        ASTNode::Statements { stmts } => {
            assert_eq!(stmts.len(), 2);
            assert_eq!(stmts[0], ASTNode::let_binding(ASTNode::identifier("x"), ASTNode::numeric(42)));
            assert_eq!(stmts[1], ASTNode::let_binding(ASTNode::identifier("y"), ASTNode::numeric(100)));
        },
        _ => panic!("Expected valid statement."),
    }
}

#[test]
fn test_block_statements() {
    let tokens = vec![
        Token::LBrace,
        Token::Let,
        Token::Identifier("x".into()),
        Token::Assign,
        Token::Int(42),
        Token::Semicolon,
        Token::RBrace,
    ];

    let mut parser = LLParser::new(MockStream::new(tokens), SymbolTable::new());
    let ast = parser.parse_statements();

    assert!(ast.is_ok());

    match ast.unwrap() {
        ASTNode::Statements { stmts } => {
            assert_eq!(stmts.len(), 1);
            assert_eq!(
                stmts[0],
                ASTNode::statements(vec![ASTNode::let_binding(ASTNode::identifier("x"), ASTNode::numeric(42))])
            );
        },
        _ => panic!("Expected valid statement."),
    }
}
