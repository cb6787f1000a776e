use whisp::ast;
use whisp::environment::Environment;
use whisp::interpreter::Interpreter as FirstInterpreter;
use whisp::lexer::{Collection, Lexer, TokenIterator};
use whisp::object::WhispObj;
use whisp::ops::Operation;
use whisp::parser::error::ParseError;
use whisp::parser::ll_parser::LLParser;
use whisp::parser::mock::MockStream;
use whisp::runtime::error::EvalError;
use whisp::runtime::evaluator::eval;
use whisp::runtime::interpreter::Interpreter;
use whisp::symbol::SymbolTable;
use whisp::token::Token;
use whisp::tree::ASTNode;
use whisp::value::Value;

fn first_error(source: &str) -> String {
    let mut stream = Lexer::new(source).stream();
    loop {
        match stream.next() {
            Ok(Token::Eof) => return String::new(),
            Ok(_) => {},
            Err(e) => return e,
        }
    }
}

#[test]
fn lexer_errors() {
    assert_eq!(first_error("\"a\\q\""), "Invalid escape character: \\q");
    assert_eq!(first_error("\"a\\"), "Unterminated escape sequence.");
    assert_eq!(first_error("99999999999"), "unrecognozed numeric literal.");
    assert_eq!(first_error("a : b"), "Unexpected single ':'.");
    assert_eq!(first_error("\"tab\\there\" 2147483647"), "");
}

#[test]
fn string_escapes() {
    let mut stream = Lexer::new("\"a\\n\\\"b\\\\\"").stream();
    assert_eq!(stream.next(), Ok(Token::String("a\n\"b\\".to_string())));
}

fn parser(tokens: Vec<Token>) -> LLParser<MockStream> {
    LLParser::new(MockStream::new(tokens), SymbolTable::new())
}

#[test]
fn parse_errors() {
    assert!(matches!(parser(vec![Token::Comma]).parse_literal(), Err(ParseError::ExpectedLiteral(Token::Comma))));
    assert!(matches!(parser(vec![Token::Int(1)]).parse_bool_term(), Err(ParseError::ExpectedBoolean(Token::Int(1)))));
    assert!(matches!(
        parser(vec![Token::Int(1), Token::Add]).parse_comparison_expr(),
        Err(ParseError::ExpectedComparison(Token::Add))
    ));
    assert!(matches!(parser(vec![Token::Bool(true)]).parse_operand(), Err(ParseError::ExpectedOperand(Token::Bool(true)))));
    assert!(matches!(
        parser(vec![Token::Identifier("a".into()), Token::LBracket, Token::Bool(true)]).parse_array_index(),
        Err(ParseError::ExpectedArrayIndex(Token::Bool(true)))
    ));
    assert!(matches!(parser(vec![Token::Array]).parse_arg_term(), Err(ParseError::ExpectedArgument(Token::Array))));
    let e = parser(vec![Token::Comma]).parse_literal().unwrap_err();
    assert_eq!(e.message(), "Expected literal, found Comma");
}

#[test]
fn boolean_expressions_parse() {
    let tokens = vec![
        Token::Identifier("a".into()),
        Token::LessThan,
        Token::Int(3),
        Token::And,
        Token::LParen,
        Token::Bool(false),
        Token::Or,
        Token::Identifier("b".into()),
        Token::RParen,
    ];
    let ast = parser(tokens).parse_bool_expr().unwrap();
    assert_eq!(
        ast,
        ASTNode::binary_op(
            Operation::And,
            ASTNode::binary_op(Operation::Lt, ASTNode::identifier("a"), ASTNode::numeric(3)),
            ASTNode::binary_op(Operation::Or, ASTNode::boolean(false), ASTNode::identifier("b")),
        )
    );
}

#[test]
fn calling_a_function_value_with_a_bad_parameter() {
    let mut interpreter = Interpreter::new(Environment::new());
    interpreter.register(
        "f".to_string(),
        WhispObj::Function { params: vec![ASTNode::numeric(1)], body: Box::new(ASTNode::statements(vec![])) },
    );
    let call = ASTNode::call(ASTNode::identifier("f"), vec![ASTNode::numeric(2)]);
    assert!(matches!(eval(&mut interpreter, &call), Err(EvalError::InvalidParameter)));
}

#[test]
fn first_interpreter_evaluates_literals_and_operations() {
    let mut env = Environment::new();
    let interpreter = FirstInterpreter::new(&mut env);
    let sum = ast::ASTNode::BinaryOp {
        op: Operation::Add,
        lhs: Box::new(ast::ASTNode::Numeric { value: 3 }),
        rhs: Box::new(ast::ASTNode::BinaryOp {
            op: Operation::Mul,
            lhs: Box::new(ast::ASTNode::Numeric { value: 2 }),
            rhs: Box::new(ast::ASTNode::Numeric { value: 5 }),
        }),
    };
    assert!(matches!(interpreter.eval(&sum), Ok(Value::Int(13))));
    let s = ast::ASTNode::Str { value: "hi".to_string() };
    assert!(matches!(interpreter.eval_str(&s), Ok(Value::Str(v)) if v == "hi"));
    assert!(matches!(interpreter.eval_numeric(&s), Err(EvalError::ExpectedNode(_))));
    assert!(matches!(interpreter.eval_boolean(&ast::ASTNode::Bool { value: true }), Ok(Value::Bool(true))));
    let cmp = ast::ASTNode::BinaryOp {
        op: Operation::Eq,
        lhs: Box::new(ast::ASTNode::Str { value: "a".to_string() }),
        rhs: Box::new(ast::ASTNode::Str { value: "a".to_string() }),
    };
    assert!(matches!(interpreter.eval(&cmp), Ok(Value::Bool(true))));
    let rem = ast::ASTNode::BinaryOp {
        op: Operation::Mod,
        lhs: Box::new(ast::ASTNode::Numeric { value: 3 }),
        rhs: Box::new(ast::ASTNode::Numeric { value: 2 }),
    };
    let err = interpreter.eval(&rem).unwrap_err();
    assert!(matches!(err, EvalError::UnsupportedOperation));
    assert_eq!(err.message(), "Unsupported operation");
    let div0 = ast::ASTNode::BinaryOp {
        op: Operation::Div,
        lhs: Box::new(ast::ASTNode::Numeric { value: 3 }),
        rhs: Box::new(ast::ASTNode::Numeric { value: 0 }),
    };
    assert!(matches!(interpreter.eval(&div0), Err(EvalError::DivisionByZero)));
    let ident = ast::ASTNode::Identifier { name: "x".to_string() };
    assert!(matches!(interpreter.eval(&ident), Err(EvalError::UnsupportedNode)));
}

#[test]
fn values_print_and_copy() {
    let v = Value::Array(vec![Value::Int(-3), Value::Str("s".to_string()), Value::Bool(true), Value::Void(())]);
    assert_eq!(v.to_string(), "[-3, s, true, ]");
    assert_eq!(v.clone().to_string(), "[-3, s, true, ]");
    assert_eq!(Value::Return(Box::new(Value::Int(1))).to_string(), "1");
}

#[test]
fn nested_value_copies_keep_contents() {
    let inner = Value::Array(vec![Value::Array(vec![Value::Int(7)]), Value::Str("x".to_string())]);
    let v = Value::Return(Box::new(inner));
    let c = v.clone();
    assert_eq!(c.to_string(), "[[7], x]");
    assert!(matches!(c, Value::Return(_)));
}

#[test]
fn argument_list_needs_a_term_after_each_comma() {
    let mut p = parser(vec![Token::Int(1), Token::Comma, Token::RParen]);
    let e = p.parse_args().unwrap_err();
    assert_eq!(e, ParseError::ExpectedArgument(Token::RParen));
    assert_eq!(e.message(), "Expected argument term, found RParen");
    let mut p = parser(vec![Token::Int(1), Token::Comma, Token::Int(2), Token::RParen]);
    assert_eq!(p.parse_args().unwrap().len(), 2);
}

#[test]
fn parameter_list_needs_a_name_after_each_comma() {
    let mut p = parser(vec![Token::Identifier("a".to_string()), Token::Comma, Token::RParen]);
    let e = p.parse_params().unwrap_err();
    assert_eq!(e, ParseError::ExpectedIdentifier(Token::RParen));
    let mut session = whisp::whisp::Whisp::new();
    assert!(session.parse("def f(a, ) { return a; }").is_err());
    assert!(session.parse("max(1, );").is_err());
}

#[test]
fn a_character_that_is_no_token_fails_the_parse() {
    let mut session = whisp::whisp::Whisp::new();
    let e = session.parse("$;").unwrap_err();
    assert_eq!(e, ParseError::Lexer("unrecognized character '$' found.".to_string()));
    assert_eq!(e.message(), "unrecognized character '$' found.");
    // Nothing before the bad character is declared.
    assert!(session.parse("let q = 1; $").is_err());
    assert!(session.parse("q = 2;").is_err());
    assert_eq!(Lexer::new("let a = 1;").first_error(), None);
    assert_eq!(Lexer::new("1 : 2").first_error(), Some("Unexpected single ':'.".to_string()));
}

#[test]
fn messages_write_tokens_as_debug_does() {
    let e = ParseError::Expected { expected: Token::Semicolon, found: Token::Int(5) };
    assert_eq!(e.message(), "expected Semicolon, but found Int(\n    5,\n)");
    let e = ParseError::Expected { expected: Token::RParen, found: Token::Identifier("x".to_string()) };
    assert_eq!(e.message(), format!("expected {:#?}, but found {:#?}", Token::RParen, Token::Identifier("x".to_string())));
    let t = Token::String("a\"b\\c\nd\te\r\u{0}\u{1b}\u{7f}\u{ad}é'".to_string());
    assert_eq!(ParseError::UnexpectedToken(Token::String("a\"b\\c\nd\te\r\u{0}\u{1b}\u{7f}\u{ad}é'".to_string())).message(), format!("Unexpected token: {:?}", t));
    assert_eq!(ParseError::ExpectedOperand(Token::Bool(false)).message(), "Expected operand, found Bool(false)");
    assert_eq!(ParseError::UndeclaredArgument("y".to_string()).message(), "Undeclared variable 'y'");
    assert_eq!(ParseError::UndeclaredVariable("y".to_string()).message(), "Undeclared variable 'y'.");
}

#[test]
fn strings_in_messages_are_escaped_by_std() {
    let s = "e\u{301}\u{200b}\u{feff}x".to_string();
    let e = ParseError::UnexpectedToken(Token::Identifier(s.clone()));
    assert_eq!(e.message(), format!("Unexpected token: {:?}", Token::Identifier(s.clone())));
    assert_eq!(e.message(), "Unexpected token: Identifier(\"e\\u{301}\\u{200b}\\u{feff}x\")");
    let mut out = String::new();
    whisp::parser::error::push_token_form(&mut out, &Token::String(String::new()), &Some("F".to_string()), true);
    assert_eq!(out, "String(\n    F,\n)");
    let mut out = String::new();
    whisp::parser::error::push_token_form(&mut out, &Token::Comma, &None, false);
    assert_eq!(out, "Comma");
    assert_eq!(whisp::parser::error::token_field_text(&Token::String("a\"b".to_string())), Some("\"a\\\"b\"".to_string()));
}
