//! Parsing function definitions and calls.
use vstd::prelude::*;

use crate::lexer::TokenIterator;
use crate::parser::error::{ParseError, SpecParseError};
use crate::parser::grammar::{
    p_arg_term, p_args, p_args_trail, p_call, p_function_def, p_params, p_params_trail,
};
use crate::parser::ll_parser::{consumed, steps, yields, yields_list, LLParser, Parser};
use crate::token::Token;
use crate::tree::{lemma_views_push, views, ASTNode, SpecAst};

verus! {

impl<T: TokenIterator> LLParser<T> {
    /// Function ::= 'def' Identifier '(' Params ')' Block
    ///
    /// The name is declared once the body has been read, so that later
    /// statements may call it.
    pub fn parse_function_def(&mut self) -> (r: Result<ASTNode, ParseError>)
        requires
            old(self).wf(),
        ensures
            steps(*old(self), *final(self)),
            yields(r, *final(self), p_function_def(old(self).tokens(), old(self).pos(), old(self).scopes())),
            r is Ok ==> consumed(*old(self), *final(self)),
        decreases old(self).tokens().len() - old(self).pos(), 85int,
    {
        let _ = self.expect(Token::Def);
        let identifier = self.parse_identifier()?;
        let name = match &identifier {
            ASTNode::Identifier { name } => name.clone(),
            _ => String::new(),
        };
        let _ = self.expect(Token::LParen);
        let params = self.parse_params()?;
        let _ = self.expect(Token::RParen);
        let body = self.parse_block()?;
        self.declare_name(name);
        Ok(ASTNode::function_def(identifier, params, body))
    }

    /// Call ::= Identifier '(' Args ')'
    pub fn parse_call_function(&mut self) -> (r: Result<ASTNode, ParseError>)
        requires
            old(self).wf(),
        ensures
            steps(*old(self), *final(self)),
            yields(r, *final(self), p_call(old(self).tokens(), old(self).pos(), old(self).scopes())),
            r is Ok ==> consumed(*old(self), *final(self)),
        decreases old(self).tokens().len() - old(self).pos(), 26int,
    {
        let identifier = self.parse_identifier()?;
        let name = match &identifier {
            ASTNode::Identifier { name } => name.clone(),
            _ => String::new(),
        };
        if !self.is_declared(name.as_str()) {
            return Err(ParseError::UndefinedFunction(name));
        }
        let _ = self.expect(Token::LParen);
        let args = self.parse_args()?;
        let _ = self.expect(Token::RParen);
        Ok(ASTNode::call(identifier, args))
    }

    /// Params ::= Identifier ParamsTrail | ε
    ///
    /// A ',' that is not followed by an identifier is an error.
    pub fn parse_params(&mut self) -> (r: Result<Vec<ASTNode>, ParseError>)
        requires
            old(self).wf(),
        ensures
            steps(*old(self), *final(self)),
            yields_list(r, *final(self), p_params(old(self).tokens(), old(self).pos(), old(self).scopes())),
    {
        let mut params = Vec::new();
        if matches!(self.peek(), Token::RParen) {
            proof {
                assert(views(params@) =~= seq![]);
            }
            return Ok(params);
        }
        let first = self.parse_identifier()?;
        params.push(first);
        proof {
            lemma_views_push(seq![], first);
            assert(params@ =~= seq![first]);
            assert(views(seq![]) =~= seq![]);
        }
        self.parse_params_trail(&mut params)?;
        Ok(params)
    }

    /// ParamsTrail ::= ',' Identifier ParamsTrail | ε
    pub fn parse_params_trail(&mut self, params: &mut Vec<ASTNode>) -> (r: Result<(), ParseError>)
        requires
            old(self).wf(),
        ensures
            steps(*old(self), *final(self)),
            final(self).scopes() == old(self).scopes(),
            ({
                let x = p_params_trail(
                    old(self).tokens(),
                    old(self).pos(),
                    old(self).scopes(),
                    views(old(params)@),
                );
                &&& final(self).pos() == x.pos
                &&& final(self).scopes() == x.sym
                &&& views(final(params)@) == x.items
                &&& match r {
                    Ok(()) => x.err is None,
                    Err(e) => x.err == Some(e@),
                }
            }),
    {
        let ghost ts = self.tokens();
        let ghost i0 = self.pos();
        while matches!(self.peek(), Token::Comma)
            invariant
                self.wf(),
                self.tokens() == ts,
                ts == old(self).tokens(),
                i0 == old(self).pos(),
                i0 <= self.pos(),
                i0 <= ts.len() ==> self.pos() <= ts.len(),
                self.scopes() == old(self).scopes(),
                p_params_trail(ts, self.pos(), self.scopes(), views(params@))
                    == p_params_trail(ts, i0, old(self).scopes(), views(old(params)@)),
            decreases ts.len() - self.pos(),
        {
            self.advance();
            let x = self.parse_identifier()?;
            proof {
                lemma_views_push(params@, x);
            }
            params.push(x);
        }
        Ok(())
    }

    /// Args ::= ArgTerm ArgsTail | ε
    ///
    /// A ',' that is not followed by an argument term is an error.
    pub fn parse_args(&mut self) -> (r: Result<Vec<ASTNode>, ParseError>)
        requires
            old(self).wf(),
        ensures
            steps(*old(self), *final(self)),
            yields_list(r, *final(self), p_args(old(self).tokens(), old(self).pos(), old(self).scopes())),
        decreases old(self).tokens().len() - old(self).pos(), 48int,
    {
        let mut args = Vec::new();
        if matches!(self.peek(), Token::RParen) {
            proof {
                assert(views(args@) =~= seq![]);
            }
            return Ok(args);
        }
        let first = self.parse_arg_term()?;
        args.push(first);
        proof {
            lemma_views_push(seq![], first);
            assert(args@ =~= seq![first]);
            assert(views(seq![]) =~= seq![]);
        }
        self.parse_args_trail(&mut args)?;
        Ok(args)
    }

    /// ArgTerm ::= Literal | Identifier   (the identifier must be declared)
    pub fn parse_arg_term(&mut self) -> (r: Result<ASTNode, ParseError>)
        requires
            old(self).wf(),
        ensures
            steps(*old(self), *final(self)),
            yields(r, *final(self), p_arg_term(old(self).tokens(), old(self).pos(), old(self).scopes())),
            r is Ok ==> consumed(*old(self), *final(self)),
        decreases old(self).tokens().len() - old(self).pos(), 46int,
    {
        match self.peek() {
            Token::String(_) | Token::Int(_) | Token::Bool(_) => self.parse_literal(),
            Token::Identifier(_) => {
                let identifier = self.parse_identifier()?;
                let name = match &identifier {
                    ASTNode::Identifier { name } => name.clone(),
                    _ => String::new(),
                };
                if !self.is_declared(name.as_str()) {
                    return Err(ParseError::UndeclaredArgument(name));
                }
                Ok(identifier)
            },
            _ => Err(ParseError::ExpectedArgument(self.peek().clone())),
        }
    }

    /// ArgsTail ::= ',' ArgTerm ArgsTail | ε
    pub fn parse_args_trail(&mut self, args: &mut Vec<ASTNode>) -> (r: Result<(), ParseError>)
        requires
            old(self).wf(),
        ensures
            steps(*old(self), *final(self)),
            ({
                let x = p_args_trail(old(self).tokens(), old(self).pos(), old(self).scopes(), views(old(args)@));
                &&& final(self).pos() == x.pos
                &&& final(self).scopes() == x.sym
                &&& views(final(args)@) == x.items
                &&& match r {
                    Ok(()) => x.err is None,
                    Err(e) => x.err == Some(e@),
                }
            }),
        decreases old(self).tokens().len() - old(self).pos(), 47int,
    {
        let ghost ts = self.tokens();
        let ghost i0 = self.pos();
        while matches!(self.peek(), Token::Comma)
            invariant
                self.wf(),
                self.tokens() == ts,
                ts == old(self).tokens(),
                i0 == old(self).pos(),
                i0 <= self.pos(),
                i0 <= ts.len() ==> self.pos() <= ts.len(),
                p_args_trail(ts, self.pos(), self.scopes(), views(args@))
                    == p_args_trail(ts, i0, old(self).scopes(), views(old(args)@)),
            decreases ts.len() - self.pos(),
        {
            let ghost j = self.pos();
            let ghost s = self.scopes();
            let ghost l = views(args@);
            self.advance();
            let x = match self.parse_arg_term() {
                Ok(x) => x,
                Err(e) => {
                    assert(p_args_trail(ts, j, s, l).err == Some(e@));
                    return Err(e);
                },
            };
            proof {
                lemma_views_push(args@, x);
            }
            args.push(x);
        }
        Ok(())
    }
}

} // verus!
