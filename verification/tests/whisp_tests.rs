use whisp::cli::{command_of, is_input_complete, prompt, Command};
use whisp::environment::Environment;
use whisp::object::{BuiltinFn, WhispObj};
use whisp::ops::Operation;
use whisp::runtime::error::EvalError;
use whisp::runtime::evaluator::eval;
use whisp::runtime::interpreter::Interpreter;
use whisp::tree::ASTNode;
use whisp::whisp::Whisp;

fn run(session: &mut Whisp, source: &str) -> Result<WhispObj, String> {
    let ast = session.parse(source).map_err(|e| e.message())?;
    session.eval(&ast).map_err(|e| e.message())
}

fn run_fresh(source: &str) -> Result<WhispObj, String> {
    run(&mut Whisp::new(), source)
}

#[test]
fn readme_arithmetic() {
    assert_eq!(run_fresh("1 + 5 - 2 * 2;"), Ok(WhispObj::Int(2)));
}

#[test]
fn readme_string() {
    assert_eq!(run_fresh("\"Hello world!\";"), Ok(WhispObj::Str("Hello world!".to_string())));
}

#[test]
fn readme_boolean_operators() {
    assert_eq!(run_fresh("true == true;"), Ok(WhispObj::Bool(true)));
    assert_eq!(run_fresh("true and false;"), Ok(WhispObj::Bool(false)));
    assert_eq!(run_fresh("true or false;"), Ok(WhispObj::Bool(true)));
}

#[test]
fn readme_variables() {
    assert_eq!(run_fresh("let a = 1 + 5; let b = 2; b = b + a; b;"), Ok(WhispObj::Int(8)));
}

#[test]
fn readme_arrays() {
    assert_eq!(
        run_fresh("array[1, 2, 3, 4];"),
        Ok(WhispObj::Array(vec![WhispObj::Int(1), WhispObj::Int(2), WhispObj::Int(3), WhispObj::Int(4)]))
    );
    assert_eq!(run_fresh("let z = array[1, 2, 3, 4]; z[2];"), Ok(WhispObj::Int(3)));
}

#[test]
fn readme_if_variants() {
    let v1 = "let a = 1; let b = 0; if a > b { b = 1; } else { b = 2; } b;";
    assert_eq!(run_fresh(v1), Ok(WhispObj::Int(1)));
    let v2 = "let a = 1; let b = 0; if a > b { b = 1; } b;";
    assert_eq!(run_fresh(v2), Ok(WhispObj::Int(1)));
    let v3 = "let a = 1; let b = 0; if a == b { b = 1; } elif a > b { b = 2; } b;";
    assert_eq!(run_fresh(v3), Ok(WhispObj::Int(2)));
}

#[test]
fn readme_while_loop() {
    assert_eq!(run_fresh("let a = 0; while a < 5 { a = a + 1; } a;"), Ok(WhispObj::Int(5)));
}

#[test]
fn readme_for_loop() {
    let src = "let acc = 0; let arr = array[2, 1, 3, 7]; for v in arr { acc = acc + v; } acc;";
    assert_eq!(run_fresh(src), Ok(WhispObj::Int(13)));
}

#[test]
fn readme_user_defined_function() {
    let src = "def max(a, b) { if a > b { return a; } else { return b; } } max(7, 12);";
    assert_eq!(run_fresh(src), Ok(WhispObj::Int(12)));
}

#[test]
fn readme_builtin_functions() {
    assert_eq!(run_fresh("max(3, 9);"), Ok(WhispObj::Int(9)));
    assert_eq!(run_fresh("min(3, 9);"), Ok(WhispObj::Int(3)));
    let mut session = Whisp::new();
    assert_eq!(run(&mut session, "print(1, \"two\", true);"), Ok(WhispObj::Void(())));
    assert_eq!(run(&mut session, "let a = array[3, true]; print(a);"), Ok(WhispObj::Void(())));
    assert_eq!(
        session.eval.take_output(),
        vec!["1".to_string(), "two".to_string(), "true".to_string(), "[3, true]".to_string()]
    );
    assert!(session.eval.output.is_empty());
}

#[test]
fn session_keeps_bindings_between_inputs() {
    let mut session = Whisp::new();
    assert_eq!(run(&mut session, "let n = 40;"), Ok(WhispObj::Void(())));
    assert_eq!(run(&mut session, "n = n + 2;"), Ok(WhispObj::Int(42)));
    assert_eq!(run(&mut session, "n;"), Ok(WhispObj::Int(42)));
    assert_eq!(run(&mut session, "def twice(x) { return x * 2; }"), Ok(WhispObj::Void(())));
    assert_eq!(run(&mut session, "twice(n);"), Ok(WhispObj::Int(84)));
}

#[test]
fn scopes_of_blocks_and_calls_end() {
    // A binding made inside an if-block does not outlive the block.
    assert_eq!(
        run_fresh("let x = 1; if true { let x = 5; } x;"),
        Ok(WhispObj::Int(1))
    );
    // Assignment reaches the outer binding.
    assert_eq!(run_fresh("let x = 1; if true { x = 5; } x;"), Ok(WhispObj::Int(5)));
    // A function's parameters are gone after the call.
    let mut session = Whisp::new();
    assert!(run(&mut session, "def id(p) { return p; } id(3);").is_ok());
    assert_eq!(session.eval.env.stack.len(), 1);
    assert!(session.eval.lookup("p").is_none());
}

#[test]
fn return_does_not_stop_a_block() {
    // The value of a body is the value of its last statement.
    let src = "def f() { return 1; 2; } f();";
    assert_eq!(run_fresh(src), Ok(WhispObj::Void(())));
}

#[test]
fn division_and_remainder_round_towards_zero() {
    assert_eq!(run_fresh("7 / 2;"), Ok(WhispObj::Int(3)));
    assert_eq!(run_fresh("let a = 0 - 7; a / 2;"), Ok(WhispObj::Int(-3)));
    assert_eq!(run_fresh("let a = 0 - 7; a % 2;"), Ok(WhispObj::Int(-1)));
    assert_eq!(run_fresh("let b = 0 - 2; 7 % b;"), Ok(WhispObj::Int(1)));
}

#[test]
fn evaluation_errors() {
    assert_eq!(run_fresh("1 / 0;"), Err("Division by zero".to_string()));
    assert_eq!(run_fresh("1 % 0;"), Err("Division by zero".to_string()));
    assert_eq!(run_fresh("2147483647 + 1;"), Err("Arithmetic overflow".to_string()));
    assert_eq!(run_fresh("1 + true;"), Err("Expected two integers".to_string()));
    assert_eq!(run_fresh("1 and true;"), Err("Expected two booleans".to_string()));
    assert_eq!(run_fresh("true < 1;"), Err("Expected two integers for comparison".to_string()));
    assert_eq!(run_fresh("1 == true;"), Err("Unsupported equality comparison".to_string()));
    assert_eq!(run_fresh("zz;"), Err("Undeclared identifier 'zz' referenced.".to_string()));
    assert_eq!(run_fresh("let z = array[1]; z[3];"), Err("Index 3 out of bound.".to_string()));
    assert_eq!(run_fresh("let z = 4; z[0];"), Err("Expected a valid integer index.".to_string()));
    assert_eq!(run_fresh("let c = 1; if c { 2; }"), Err("If statement condition must be a boolean expression.".to_string()));
    assert_eq!(run_fresh("let n = 1; for v in n { v; }"), Err("Expected an iterable for the for-loop.".to_string()));
    assert_eq!(run_fresh("def f(a) { return a; } f(1, 2);"), Err("Expected 1 parameters, but got 2".to_string()));
    assert_eq!(run_fresh("max(1);"), Err("Expected two paramters but got 1.".to_string()));
    assert_eq!(run_fresh("max(1, true);"), Err("Expected numeric types.".to_string()));
}

#[test]
fn evaluation_errors_on_trees() {
    let mut interpreter = Interpreter::new(Environment::new());
    let assign_undeclared = ASTNode::assign(ASTNode::identifier("w"), ASTNode::numeric(42));
    assert_eq!(
        eval(&mut interpreter, &assign_undeclared).unwrap_err().message(),
        "undeclared variable 'w' referenced."
    );
    let bad_let = ASTNode::let_binding(ASTNode::numeric(1), ASTNode::numeric(2));
    assert!(matches!(eval(&mut interpreter, &bad_let), Err(EvalError::InvalidBindingTarget)));
    let bad_target = ASTNode::assign(ASTNode::numeric(1), ASTNode::numeric(2));
    assert!(matches!(eval(&mut interpreter, &bad_target), Err(EvalError::InvalidAssignTarget)));
    let bad_fn = ASTNode::function_def(ASTNode::numeric(1), vec![], ASTNode::statements(vec![]));
    assert!(matches!(eval(&mut interpreter, &bad_fn), Err(EvalError::InvalidFunctionName)));
    let bad_params = ASTNode::function_def(ASTNode::identifier("f"), vec![ASTNode::numeric(1)], ASTNode::statements(vec![]));
    assert!(matches!(eval(&mut interpreter, &bad_params), Err(EvalError::InvalidParameters)));
    let not_callable = ASTNode::call(ASTNode::numeric(1), vec![]);
    assert!(matches!(eval(&mut interpreter, &not_callable), Err(EvalError::NotCallable)));
    let bad_loop_var = ASTNode::for_loop(ASTNode::numeric(1), ASTNode::array(vec![]), ASTNode::statements(vec![]));
    assert!(matches!(eval(&mut interpreter, &bad_loop_var), Err(EvalError::InvalidLoopVariable)));
    let import = ASTNode::import(vec![ASTNode::identifier("m")]);
    assert!(matches!(eval(&mut interpreter, &import), Err(EvalError::UnsupportedNode)));
    let mut interpreter = Interpreter::new(Environment::new());
    let not_array = ASTNode::statements(vec![
        ASTNode::let_binding(ASTNode::identifier("a"), ASTNode::numeric(1)),
        ASTNode::assign(ASTNode::array_index(ASTNode::identifier("a"), ASTNode::numeric(0)), ASTNode::numeric(2)),
    ]);
    assert!(matches!(eval(&mut interpreter, &not_array), Err(EvalError::InvalidArrayAssignment)));
    let indirect = ASTNode::assign(
        ASTNode::array_index(ASTNode::array(vec![ASTNode::numeric(1)]), ASTNode::numeric(0)),
        ASTNode::numeric(2),
    );
    assert!(matches!(eval(&mut interpreter, &indirect), Err(EvalError::ArrayAssignTarget)));
    let out_of_bounds = ASTNode::assign(
        ASTNode::array_index(ASTNode::array(vec![ASTNode::numeric(1)]), ASTNode::numeric(5)),
        ASTNode::numeric(2),
    );
    assert!(matches!(eval(&mut interpreter, &out_of_bounds), Err(EvalError::IndexOutOfBounds)));
    let mut interpreter = Interpreter::new(Environment::new());
    let store = ASTNode::statements(vec![
        ASTNode::let_binding(ASTNode::identifier("z"), ASTNode::array(vec![ASTNode::numeric(1), ASTNode::numeric(2)])),
        ASTNode::assign(ASTNode::array_index(ASTNode::identifier("z"), ASTNode::numeric(1)), ASTNode::numeric(7)),
    ]);
    assert_eq!(eval(&mut interpreter, &store).unwrap(), WhispObj::Int(7));
    assert_eq!(interpreter.lookup("z"), Some(WhispObj::Array(vec![WhispObj::Int(1), WhispObj::Int(7)])));
    let f = ASTNode::statements(vec![
        ASTNode::let_binding(
            ASTNode::identifier("f"),
            ASTNode::numeric(0),
        ),
    ]);
    assert!(eval(&mut interpreter, &f).is_ok());
    assert!(matches!(interpreter.eval_str(&ASTNode::numeric(1)), Err(EvalError::ExpectedNode(_))));
}

#[test]
fn step_limit_stops_endless_loops() {
    let mut interpreter = Interpreter::with_fuel(Environment::new(), 100);
    let endless = ASTNode::while_loop(ASTNode::boolean(true), ASTNode::statements(vec![]));
    assert!(matches!(eval(&mut interpreter, &endless), Err(EvalError::StepLimit)));
    assert_eq!(interpreter.fuel, 0);
    let mut session = Whisp::new();
    assert!(run(&mut session, "def f() { return 0; }").is_ok());
    assert!(run(&mut session, "def f() { return f(); }").is_ok());
    session.eval.fuel = 50;
    assert_eq!(run(&mut session, "f();"), Err("Step limit reached.".to_string()));
}

use whisp::runtime::evaluator::Evaluator;

#[test]
fn printed_values() {
    assert_eq!(WhispObj::Int(-42).to_string(), "-42");
    assert_eq!(WhispObj::Int(i32::MIN).to_string(), "-2147483648");
    assert_eq!(WhispObj::Bool(false).to_string(), "false");
    assert_eq!(WhispObj::Void(()).to_string(), "");
    assert_eq!(WhispObj::Array(vec![]).to_string(), "[]");
    assert_eq!(
        WhispObj::Return(Box::new(WhispObj::Array(vec![WhispObj::Str("a".to_string()), WhispObj::Int(0)]))).to_string(),
        "[a, 0]"
    );
    assert_eq!(WhispObj::BuiltInFunction { callback: BuiltinFn::Print }.to_string(), "Builtin function");
}

#[test]
fn value_equality_as_partial_eq() {
    let f = WhispObj::Function { params: vec![], body: Box::new(ASTNode::statements(vec![])) };
    assert!(f != f.clone());
    assert_eq!(WhispObj::BuiltInFunction { callback: BuiltinFn::Min }, WhispObj::BuiltInFunction { callback: BuiltinFn::Min });
    assert_ne!(WhispObj::Array(vec![WhispObj::Int(1)]), WhispObj::Array(vec![WhispObj::Int(1), WhispObj::Int(2)]));
    assert_eq!(WhispObj::Return(Box::new(WhispObj::Int(1))), WhispObj::Return(Box::new(WhispObj::Int(1))));
}

#[test]
fn operator_laws_on_values() {
    let lt = WhispObj::Int(2).apply(Operation::Lt, WhispObj::Int(5)).unwrap();
    let gt = WhispObj::Int(5).apply(Operation::Gt, WhispObj::Int(2)).unwrap();
    assert_eq!(lt, gt);
    let a = WhispObj::Int(-7).apply(Operation::Div, WhispObj::Int(2)).unwrap();
    let b = WhispObj::Int(-7).apply(Operation::Mod, WhispObj::Int(2)).unwrap();
    assert_eq!((a.clone(), b.clone()), (WhispObj::Int(-3), WhispObj::Int(-1)));
    assert!(matches!(WhispObj::Int(i32::MIN).apply(Operation::Div, WhispObj::Int(-1)), Err(EvalError::Overflow)));
    assert!(matches!(WhispObj::Int(i32::MIN).apply(Operation::Mod, WhispObj::Int(-1)), Err(EvalError::Overflow)));
    assert_eq!(
        WhispObj::Int(6).apply(Operation::Mul, WhispObj::Int(7)).unwrap(),
        WhispObj::Int(7).apply(Operation::Mul, WhispObj::Int(6)).unwrap()
    );
}

#[test]
fn environment_laws_on_values() {
    let mut env = Environment::new();
    env.put("x".to_string(), WhispObj::Int(1));
    assert_eq!(env.get("x"), Some(WhispObj::Int(1)));
    env.enter_scope();
    env.put("x".to_string(), WhispObj::Int(2));
    assert_eq!(env.get("x"), Some(WhispObj::Int(2)));
    assert!(env.update("x", WhispObj::Int(3)).is_ok());
    assert_eq!(env.get("x"), Some(WhispObj::Int(3)));
    env.exit_scope();
    assert_eq!(env.get("x"), Some(WhispObj::Int(1)));
    assert!(matches!(env.update("y", WhispObj::Int(0)), Err(EvalError::UndeclaredVariable(_))));
    env.exit_scope();
    env.exit_scope();
    assert_eq!(env.stack.len(), 0);
    env.put("z".to_string(), WhispObj::Int(0));
    assert_eq!(env.get("z"), None);
}

#[test]
fn input_completion() {
    assert!(is_input_complete("let x = 1;\n"));
    assert!(!is_input_complete("def f() {\n"));
    assert!(!is_input_complete("print(array[1,\n"));
    assert!(is_input_complete("def f() {\n return 1;\n}\n"));
    assert!(is_input_complete(")\n"));
    assert!(is_input_complete(""));
    assert_eq!(prompt(""), ">>> ");
    assert_eq!(prompt("x"), "...  ");
}

#[test]
fn commands() {
    assert_eq!(command_of("help"), Command::Help);
    assert_eq!(command_of("copyright"), Command::Copyright);
    assert_eq!(command_of("license"), Command::License);
    assert_eq!(command_of("credits"), Command::Credits);
    assert_eq!(command_of("exit"), Command::Exit);
    assert_eq!(command_of("quit"), Command::Exit);
    assert_eq!(command_of("1 + 1;"), Command::Source);
}

#[test]
fn parse_errors_of_sessions() {
    let mut session = Whisp::new();
    let err = session.parse("x = 1;").unwrap_err();
    assert_eq!(err.message(), "Undeclared variable 'x'.");
    let err = session.parse("let = 1;").unwrap_err();
    assert_eq!(err.message(), "Expected identifier, found Assign");
    let err = session.parse("foo(1);").unwrap_err();
    assert_eq!(err.message(), "Undefined function name found 'foo'");
    let err = session.parse("print(zz);").unwrap_err();
    assert_eq!(err.message(), "Undeclared variable 'zz'");
    let err = session.parse("(1;").unwrap_err();
    assert_eq!(err.message(), "expected RParen, but found Semicolon");
    let err = session.parse(";").unwrap_err();
    assert_eq!(err.message(), "Unexpected token: Semicolon");
}

#[test]
fn comparison_operators_parse_to_their_own_operation() {
    let mut session = Whisp::new();
    let ast = session.parse("1 < 2; 1 <= 2;").unwrap();
    assert_eq!(
        ast,
        ASTNode::statements(vec![
            ASTNode::binary_op(Operation::Lt, ASTNode::numeric(1), ASTNode::numeric(2)),
            ASTNode::binary_op(Operation::Le, ASTNode::numeric(1), ASTNode::numeric(2)),
        ])
    );
    assert_eq!(run_fresh("2 <= 2;"), Ok(WhispObj::Bool(true)));
    assert_eq!(run_fresh("2 < 2;"), Ok(WhispObj::Bool(false)));
}

#[test]
fn conditions_are_boolean_expressions() {
    let mut session = Whisp::new();
    let err = session.parse("if 1 + 2 { 3; }").unwrap_err();
    assert_eq!(err.message(), "Expected boolean value, found Int(1)");
    assert!(session.parse("let a = 1; while a { a = 0; }").is_ok());
    assert!(session.parse("while a + 1 { a = 0; }").is_err());
    assert!(session.parse("if a > 0 { 1; } elif 2 { 3; }").is_err());
    assert!(session.parse("if a > 0 and (a < 5 or true) { 1; } elif a == 0 { 2; } else { 3; }").is_ok());
    assert_eq!(run_fresh("let x = 3; if x > 2 and x < 5 { x = 10; } x;"), Ok(WhispObj::Int(10)));
}
