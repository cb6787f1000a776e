//! Parsing statements.
use vstd::prelude::*;

use crate::lexer::TokenIterator;
use crate::parser::error::{ParseError, SpecParseError};
use crate::parser::grammar::{block_rank, p_block, p_letbinding, p_statement, p_statements, p_statements_from, tok};
use crate::parser::ll_parser::{consumed, steps, yields, LLParser, Parser};
use crate::token::{SpecToken, Token};
use crate::tree::{lemma_views_push, views, ASTNode, SpecAst};

verus! {

impl<T: TokenIterator> LLParser<T> {
    /// Stmts ::= Stmt Stmts | ε
    ///
    /// Reads statements up to a closing brace or the end of the input.
    pub fn parse_statements(&mut self) -> (r: Result<ASTNode, ParseError>)
        requires
            old(self).wf(),
        ensures
            steps(*old(self), *final(self)),
            yields(r, *final(self), p_statements(old(self).tokens(), old(self).pos(), old(self).scopes())),
        decreases old(self).tokens().len() - old(self).pos(), 89int,
    {
        let ghost ts = self.tokens();
        let ghost i0 = self.pos();
        let mut stmts: Vec<ASTNode> = Vec::new();
        proof {
            assert(views(stmts@) =~= seq![]);
        }
        loop
            invariant
                self.wf(),
                self.tokens() == ts,
                ts == old(self).tokens(),
                i0 == old(self).pos(),
                i0 <= self.pos(),
                i0 <= ts.len() ==> self.pos() <= ts.len(),
                p_statements_from(ts, self.pos(), self.scopes(), views(stmts@))
                    == p_statements(ts, i0, old(self).scopes()),
            decreases ts.len() - self.pos(),
        {
            match self.peek() {
                Token::RBrace | Token::Eof => {
                    return Ok(ASTNode::statements(stmts));
                },
                _ => {},
            }
            let ghost j = self.pos();
            let ghost s = self.scopes();
            let ghost l = views(stmts@);
            let st = match self.parse_statement() {
                Ok(st) => st,
                Err(e) => {
                    assert(p_statements_from(ts, j, s, l).res == Err::<SpecAst, SpecParseError>(e@));
                    return Err(e);
                },
            };
            proof {
                lemma_views_push(stmts@, st);
            }
            stmts.push(st);
        }
    }

    /// Stmt ::= Expr ';' | LetBinding | FunctionDef | Block | ControlFlow
    pub fn parse_statement(&mut self) -> (r: Result<ASTNode, ParseError>)
        requires
            old(self).wf(),
        ensures
            steps(*old(self), *final(self)),
            yields(r, *final(self), p_statement(old(self).tokens(), old(self).pos(), old(self).scopes())),
            r is Ok ==> consumed(*old(self), *final(self)),
        decreases old(self).tokens().len() - old(self).pos(), 87int,
    {
        match self.peek() {
            Token::If | Token::While | Token::For | Token::Return => self.parse_control_flow(),
            Token::Def => self.parse_function_def(),
            Token::Let => self.parse_letbinding(),
            Token::LBrace => self.parse_block(),
            _ => {
                let expr = self.parse_expression()?;
                let _ = self.expect(Token::Semicolon);
                Ok(expr)
            },
        }
    }

    /// LetBinding ::= 'let' Identifier '=' Expr ';'
    ///
    /// Declares the identifier once its value has been read.
    pub fn parse_letbinding(&mut self) -> (r: Result<ASTNode, ParseError>)
        requires
            old(self).wf(),
        ensures
            steps(*old(self), *final(self)),
            yields(r, *final(self), p_letbinding(old(self).tokens(), old(self).pos(), old(self).scopes())),
            r is Ok ==> consumed(*old(self), *final(self)),
        decreases old(self).tokens().len() - old(self).pos(), 85int,
    {
        let _ = self.expect(Token::Let);
        let identifier = self.parse_identifier()?;
        let name = match &identifier {
            ASTNode::Identifier { name } => name.clone(),
            _ => String::new(),
        };
        let _ = self.expect(Token::Assign);
        let body = self.parse_expression()?;
        let _ = self.expect(Token::Semicolon);
        self.declare_name(name);
        Ok(ASTNode::let_binding(identifier, body))
    }

    /// Block ::= '{' Stmts '}'
    pub fn parse_block(&mut self) -> (r: Result<ASTNode, ParseError>)
        requires
            old(self).wf(),
        ensures
            steps(*old(self), *final(self)),
            yields(r, *final(self), p_block(old(self).tokens(), old(self).pos(), old(self).scopes())),
            r is Ok && tok(old(self).tokens(), old(self).pos()) == SpecToken::LBrace ==> consumed(
                *old(self),
                *final(self),
            ),
        decreases old(self).tokens().len() - old(self).pos(), block_rank(old(self).tokens(), old(self).pos()),
    {
        let _ = self.expect(Token::LBrace);
        let stmts = self.parse_statements()?;
        let _ = self.expect(Token::RBrace);
        Ok(stmts)
    }
}

} // verus!
