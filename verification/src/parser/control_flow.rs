//! Parsing control flow statements.
use vstd::prelude::*;

use crate::lexer::TokenIterator;
use crate::parser::error::ParseError;
use crate::parser::grammar::{
    p_control_flow, p_forstatement, p_ifstatement, p_ifstatement_trail, p_return, p_whilestatement,
};
use crate::parser::ll_parser::{consumed, steps, yields, LLParser, Parser};
use crate::parser::error::SpecParseError;
use crate::token::Token;
use crate::tree::{ASTNode, SpecAst};

verus! {

impl<T: TokenIterator> LLParser<T> {
    /// ControlFlow ::= IfStatement | WhileStatement | ForStatement | Return
    pub fn parse_control_flow(&mut self) -> (r: Result<ASTNode, ParseError>)
        requires
            old(self).wf(),
        ensures
            steps(*old(self), *final(self)),
            yields(r, *final(self), p_control_flow(old(self).tokens(), old(self).pos(), old(self).scopes())),
            r is Ok ==> consumed(*old(self), *final(self)),
        decreases old(self).tokens().len() - old(self).pos(), 86int,
    {
        match self.peek() {
            Token::If => self.parse_ifstatement(),
            Token::While => self.parse_whilestatement(),
            Token::For => self.parse_forstatement(),
            Token::Return => self.parse_return(),
            _ => Err(ParseError::UnexpectedToken(self.peek().clone())),
        }
    }

    /// Return ::= 'return' Expr ';'
    pub fn parse_return(&mut self) -> (r: Result<ASTNode, ParseError>)
        requires
            old(self).wf(),
        ensures
            steps(*old(self), *final(self)),
            yields(r, *final(self), p_return(old(self).tokens(), old(self).pos(), old(self).scopes())),
            r is Ok ==> consumed(*old(self), *final(self)),
        decreases old(self).tokens().len() - old(self).pos(), 85int,
    {
        let _ = self.expect(Token::Return);
        let expr = self.parse_expression()?;
        let _ = self.expect(Token::Semicolon);
        Ok(ASTNode::return_stmt(expr))
    }

    /// IfStatement ::= 'if' BoolExpr Block IfStatementTail
    pub fn parse_ifstatement(&mut self) -> (r: Result<ASTNode, ParseError>)
        requires
            old(self).wf(),
        ensures
            steps(*old(self), *final(self)),
            yields(r, *final(self), p_ifstatement(old(self).tokens(), old(self).pos(), old(self).scopes())),
            r is Ok ==> consumed(*old(self), *final(self)),
        decreases old(self).tokens().len() - old(self).pos(), 85int,
    {
        let _ = self.expect(Token::If);
        let cond = self.parse_bool_expr()?;
        let then_branch = self.parse_block()?;
        let else_branch = self.parse_ifstatement_trail()?;
        Ok(ASTNode::if_statement(cond, then_branch, else_branch))
    }

    /// IfStatementTail ::= 'elif' BoolExpr Block IfStatementTail | 'else' Block | ε
    pub fn parse_ifstatement_trail(&mut self) -> (r: Result<Option<ASTNode>, ParseError>)
        requires
            old(self).wf(),
        ensures
            steps(*old(self), *final(self)),
            ({
                let x = p_ifstatement_trail(old(self).tokens(), old(self).pos(), old(self).scopes());
                &&& final(self).pos() == x.pos
                &&& final(self).scopes() == x.sym
                &&& match r {
                    Ok(Some(n)) => x.res == Ok::<Option<SpecAst>, SpecParseError>(Some(n@)),
                    Ok(None) => x.res == Ok::<Option<SpecAst>, SpecParseError>(None),
                    Err(e) => x.res == Err::<Option<SpecAst>, SpecParseError>(e@),
                }
            }),
        decreases old(self).tokens().len() - old(self).pos(), 83int,
    {
        match self.peek() {
            Token::Elif => {
                let _ = self.expect(Token::Elif);
                let cond = self.parse_bool_expr()?;
                let then_branch = self.parse_block()?;
                let else_branch = self.parse_ifstatement_trail()?;
                Ok(Some(ASTNode::if_statement(cond, then_branch, else_branch)))
            },
            Token::Else => {
                let _ = self.expect(Token::Else);
                let else_branch = self.parse_block()?;
                Ok(Some(else_branch))
            },
            _ => Ok(None),
        }
    }

    /// WhileStatement ::= 'while' BoolExpr Block
    pub fn parse_whilestatement(&mut self) -> (r: Result<ASTNode, ParseError>)
        requires
            old(self).wf(),
        ensures
            steps(*old(self), *final(self)),
            yields(r, *final(self), p_whilestatement(old(self).tokens(), old(self).pos(), old(self).scopes())),
            r is Ok ==> consumed(*old(self), *final(self)),
        decreases old(self).tokens().len() - old(self).pos(), 85int,
    {
        let _ = self.expect(Token::While);
        let cond = self.parse_bool_expr()?;
        let body = self.parse_block()?;
        Ok(ASTNode::while_loop(cond, body))
    }

    /// ForStatement ::= 'for' Identifier 'in' Expr Block
    pub fn parse_forstatement(&mut self) -> (r: Result<ASTNode, ParseError>)
        requires
            old(self).wf(),
        ensures
            steps(*old(self), *final(self)),
            yields(r, *final(self), p_forstatement(old(self).tokens(), old(self).pos(), old(self).scopes())),
            r is Ok ==> consumed(*old(self), *final(self)),
        decreases old(self).tokens().len() - old(self).pos(), 85int,
    {
        let _ = self.expect(Token::For);
        let var = self.parse_identifier()?;
        let _ = self.expect(Token::In);
        let itr = self.parse_expression()?;
        let body = self.parse_block()?;
        Ok(ASTNode::for_loop(var, itr, body))
    }
}

} // verus!
