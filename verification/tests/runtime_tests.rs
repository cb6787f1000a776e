use whisp::environment::Environment;
use whisp::object::{BuiltinFn, WhispObj};
use whisp::ops::Operation;
use whisp::runtime::builtin::{register_builtin, BuiltInFunction};
use whisp::runtime::evaluator::eval;
use whisp::runtime::interpreter::Interpreter;
use whisp::symbol::SymbolTable;
use whisp::tree::ASTNode;

#[test]
fn test_max() {
    let mut env = Environment::new();
    let mut symbols = SymbolTable::new();

    register_builtin(BuiltinFn::Max, &mut env, &mut symbols);

    let builtin_fun = env.get("max");
    let args = vec![WhispObj::Int(3), WhispObj::Int(4)];

    let result = match builtin_fun {
        Some(WhispObj::BuiltInFunction { callback }) => callback.call(args),
        _ => WhispObj::Void(()),
    };

    assert_eq!(result, WhispObj::Int(4));
}

#[test]
fn test_interpreter_numeric() {
    let env = Environment::new();
    let mut interpreter = Interpreter::new(env);
    let ast = ASTNode::Numeric { value: 6 };

    let result = eval(&mut interpreter, &ast);

    match result {
        Ok(WhispObj::Int(val)) => assert_eq!(val, 6),
        _ => panic!("Expected an integer value"),
    }
}

#[test]
fn test_interpreter_string() {
    let env = Environment::new();
    let mut interpreter = Interpreter::new(env);
    let ast = ASTNode::Str { value: "hello".into() };

    let result = eval(&mut interpreter, &ast);

    match result {
        Ok(WhispObj::Str(val)) => assert_eq!(val, "hello"),
        _ => panic!("Expected a string value"),
    }
}

#[test]
fn test_interpreter_boolean() {
    let env = Environment::new();
    let mut interpreter = Interpreter::new(env);
    let ast = ASTNode::Bool { value: true };

    let result = eval(&mut interpreter, &ast);

    match result {
        Ok(WhispObj::Bool(val)) => assert_eq!(val, true),
        _ => panic!("Expected a booelan value"),
    }
}

#[test]
fn test_interpreter_binary_op_addition() {
    let env = Environment::new();
    let mut interpreter = Interpreter::new(env);
    let ast = ASTNode::BinaryOp {
        op: Operation::Add,
        lhs: Box::new(ASTNode::Numeric { value: 3 }),
        rhs: Box::new(ASTNode::Numeric { value: 4 }),
    };

    let result = eval(&mut interpreter, &ast);

    match result {
        Ok(WhispObj::Int(val)) => assert_eq!(val, 7),
        _ => panic!("Expected an integer value from addition"),
    }
}

#[test]
fn test_environment_creation() {
    let env = Environment::new();

    assert!(env.stack.len() == 1);
    assert!(env.stack[0].is_empty());
}
