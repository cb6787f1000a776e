use whisp::environment::Environment;
use whisp::object::WhispObj;
use whisp::lexer::{Collection, Lexer, TokenIterator};
use whisp::symbol::{SymbolInfo, SymbolTable};
use whisp::token::Token;
use whisp::tree::ASTNode;
use whisp::whisp::Whisp;

fn tokens(source: &str) -> Vec<Token> {
    let mut stream = Lexer::new(source).stream();
    let mut out = Vec::new();
    loop {
        let t = stream.next().unwrap();
        if t == Token::Eof {
            return out;
        }
        out.push(t);
    }
}

#[test]
fn comments_and_whitespace_read_as_nothing() {
    assert_eq!(tokens("  # note\n\t let y = 2;"), tokens("let y = 2;"));
    assert!(tokens("   # only a comment\n   ").is_empty());
    let mut stream = Lexer::new("").stream();
    assert_eq!(stream.next(), Ok(Token::Eof));
    assert_eq!(stream.next(), Ok(Token::Eof));
}

#[test]
fn program_is_read_up_to_an_unmatched_brace() {
    let mut session = Whisp::new();
    assert_eq!(session.parse("1; } 2;"), Ok(ASTNode::statements(vec![ASTNode::numeric(1)])));
}

#[test]
fn let_and_def_declare_their_names() {
    let mut session = Whisp::new();
    assert!(session.parse("y = 1;").is_err());
    assert!(session.parse("let y = 0;").is_ok());
    assert!(session.parse("y = 1;").is_ok());
    assert!(session.parse("g();").is_err());
    assert!(session.parse("def g() { return 1; }").is_ok());
    assert!(session.parse("g();").is_ok());
    // An expression declares nothing.
    assert!(session.parse("1 + 2;").is_ok());
    assert!(session.parse("h();").is_err());
}

#[test]
fn symbol_table_scopes() {
    let mut table = SymbolTable::new();
    assert!(table.resolve("a").is_none());
    table.define("a".to_string(), SymbolInfo);
    assert!(table.resolve("a").is_some());
    table.enter_scope();
    table.define("b".to_string(), SymbolInfo);
    assert!(table.resolve("a").is_some());
    assert!(table.resolve("b").is_some());
    table.exit_scope();
    assert!(table.resolve("b").is_none());
    assert!(table.resolve("a").is_some());
}

#[test]
fn builtins_are_callable_in_a_new_session() {
    let mut session = Whisp::new();
    for name in ["print", "max", "min"] {
        assert!(session.eval.lookup(name).is_some());
        assert!(session.sym.resolve(name).is_some());
    }
}

#[test]
fn leaving_a_scope_undoes_its_bindings() {
    let mut env = Environment::new();
    env.put("x".to_string(), WhispObj::Int(1));
    env.put("y".to_string(), WhispObj::Int(2));
    let before = env.stack.len();
    env.enter_scope();
    env.put("x".to_string(), WhispObj::Int(3));
    env.put("z".to_string(), WhispObj::Int(4));
    env.put("x".to_string(), WhispObj::Int(5));
    env.enter_scope();
    env.put("y".to_string(), WhispObj::Int(6));
    env.exit_scope();
    assert_eq!(env.get("x"), Some(WhispObj::Int(5)));
    assert_eq!(env.get("y"), Some(WhispObj::Int(2)));
    env.exit_scope();
    assert_eq!(env.stack.len(), before);
    assert_eq!(env.get("x"), Some(WhispObj::Int(1)));
    assert_eq!(env.get("y"), Some(WhispObj::Int(2)));
    assert_eq!(env.get("z"), None);
}

#[test]
fn names_resolve_while_their_scope_is_open() {
    let mut table = SymbolTable::new();
    table.define("g".to_string(), SymbolInfo);
    table.enter_scope();
    table.define("a".to_string(), SymbolInfo);
    table.define("b".to_string(), SymbolInfo);
    table.enter_scope();
    table.define("c".to_string(), SymbolInfo);
    assert!(table.resolve("g").is_some() && table.resolve("a").is_some() && table.resolve("c").is_some());
    table.exit_scope();
    assert!(table.resolve("c").is_none());
    assert!(table.resolve("b").is_some());
    table.exit_scope();
    assert!(table.resolve("a").is_none());
    assert!(table.resolve("b").is_none());
    assert!(table.resolve("g").is_some());
}
