//! Source text in, values out: the lexer, the parser and the interpreter
//! put together, with the built-in functions registered.
use vstd::prelude::*;

use crate::environment::Environment;
use crate::lexer::{first_lex_error, lex_results, Collection, Lexer};
use crate::object::WhispObj;
use crate::parser::error::ParseError;
use crate::parser::grammar::{fail, p_statements, Parsed, Scopes};
use crate::parser::ll_parser::{stream_tokens, LLParser, Parser};
use crate::runtime::builtin::{declare_builtins, register_builtins, with_builtins};
use crate::runtime::error::EvalError;
use crate::runtime::evaluator;
use crate::runtime::interpreter::{evaluates, Interpreter};
use crate::runtime::semantics::run;
use crate::symbol::SymbolTable;
use crate::tree::{ASTNode, SpecAst};
use crate::parser::error::SpecParseError;

verus! {

/// The tokens of a source text, as the parser reads them.
pub open spec fn source_tokens(source: Seq<char>) -> Seq<crate::token::SpecToken> {
    stream_tokens(lex_results(source, 0))
}

/// What parsing a source text yields with the declared names `sym`: the
/// lexer's first error if the text has one; otherwise the parse of its tokens.
pub open spec fn parse_source(source: Seq<char>, sym: Scopes) -> Parsed<SpecAst> {
    match first_lex_error(lex_results(source, 0)) {
        Some(m) => fail(SpecParseError::Lexer(m), 0, sym),
        None => p_statements(source_tokens(source), 0, sym),
    }
}

/// An interpreter session: the global bindings and the declared names
/// persist from one input to the next.
pub struct Whisp {
    /// The interpreter, with the global bindings.
    pub eval: Interpreter,
    /// The names declared so far, for the parser.
    pub sym: SymbolTable,
}

impl Whisp {
    /// A session with the built-in functions registered.
    pub fn new() -> (r: Self)
        ensures
            r.eval.env@ == with_builtins(seq![seq![]]),
            r.eval.output@.len() == 0,
            r.eval.fuel == u64::MAX,
            r.sym@ == declare_builtins(seq![Set::<Seq<char>>::empty()]),
    {
        let mut sym = SymbolTable::new();
        let mut env = Environment::new();
        register_builtins(&mut env, &mut sym);
        let eval = Interpreter::new(env);
        Self { eval, sym }
    }

    /// Parses `source_code` into a syntax tree; the names it declares stay
    /// declared for later inputs. A source text that holds something that is
    /// no token fails with the lexer's error, and declares nothing.
    pub fn parse(&mut self, source_code: &str) -> (r: Result<ASTNode, ParseError>)
        ensures
            ({
                let x = parse_source(source_code@, old(self).sym@);
                &&& final(self).sym@ == x.sym
                &&& match r {
                    Ok(n) => x.res == Ok::<SpecAst, SpecParseError>(n@),
                    Err(e) => x.res == Err::<SpecAst, SpecParseError>(e@),
                }
            }),
            final(self).eval == old(self).eval,
    {
        let lexer = Lexer::new(source_code);
        if let Some(m) = lexer.first_error() {
            return Err(ParseError::Lexer(m));
        }
        let stream = lexer.stream();
        let mut symbols = SymbolTable::new();
        std::mem::swap(&mut symbols, &mut self.sym);
        let mut parser = LLParser::new(stream, symbols);
        let r = parser.parse();
        self.sym = parser.into_symbols();
        r
    }

    /// Evaluates `ast` in the session's bindings.
    pub fn eval(&mut self, ast: &ASTNode) -> (r: Result<WhispObj, EvalError>)
        ensures
            evaluates(r, old(self).eval, final(self).eval, run(ast@, old(self).eval.machine())),
            final(self).sym == old(self).sym,
    {
        evaluator::eval(&mut self.eval, ast)
    }
}

} // verus!
