//! Parsing expressions.
use vstd::prelude::*;

use crate::lexer::TokenIterator;
use crate::ops::Operation;
use crate::parser::error::{ParseError, SpecParseError};
use crate::parser::grammar::{
    p_add_sub, p_add_sub_tail, p_and, p_and_tail, p_arithmetic, p_array, p_array_elements,
    p_array_elements_trail, p_array_index, p_assignment, p_bool_and, p_bool_and_tail, p_bool_expr,
    p_bool_or, p_bool_or_tail, p_bool_term, p_comp, p_comp_tail, p_comparison, p_expression,
    p_identifier, p_literal, p_mul_div, p_mul_div_tail, p_operand, p_or, p_or_tail, p_primary, tok, comparison_op, additive_op, multiplicative_op,
};
use crate::parser::ll_parser::{consumed, steps, yields, yields_list, LLParser, Parser};
use crate::token::{SpecToken, Token};
use crate::tree::{lemma_views_push, views, ASTNode, SpecAst};

verus! {

/// The operation of a comparison token.
fn comparison_operation(t: &Token) -> (r: Option<Operation>)
    ensures
        r == comparison_op(t@),
{
    match t {
        Token::Equal => Some(Operation::Eq),
        Token::GreaterEqual => Some(Operation::Ge),
        Token::GreaterThan => Some(Operation::Gt),
        Token::LessThan => Some(Operation::Lt),
        Token::LessEqual => Some(Operation::Le),
        _ => None,
    }
}

/// The operation of an additive token.
fn additive_operation(t: &Token) -> (r: Option<Operation>)
    ensures
        r == additive_op(t@),
{
    match t {
        Token::Add => Some(Operation::Add),
        Token::Sub => Some(Operation::Sub),
        _ => None,
    }
}

/// The operation of a multiplicative token.
fn multiplicative_operation(t: &Token) -> (r: Option<Operation>)
    ensures
        r == multiplicative_op(t@),
{
    match t {
        Token::Mul => Some(Operation::Mul),
        Token::Div => Some(Operation::Div),
        Token::Mod => Some(Operation::Mod),
        _ => None,
    }
}

impl<T: TokenIterator> LLParser<T> {
    /// Expr ::= AssignmentExpr
    pub fn parse_expression(&mut self) -> (r: Result<ASTNode, ParseError>)
        requires
            old(self).wf(),
        ensures
            steps(*old(self), *final(self)),
            yields(r, *final(self), p_expression(old(self).tokens(), old(self).pos(), old(self).scopes())),
            r is Ok ==> consumed(*old(self), *final(self)),
        decreases old(self).tokens().len() - old(self).pos(), 40int,
    {
        self.parse_assignment_expr()
    }

    /// AssignmentExpr ::= Identifier '=' Expr | ArithmeticExpr
    pub fn parse_assignment_expr(&mut self) -> (r: Result<ASTNode, ParseError>)
        requires
            old(self).wf(),
        ensures
            steps(*old(self), *final(self)),
            yields(r, *final(self), p_assignment(old(self).tokens(), old(self).pos(), old(self).scopes())),
            r is Ok ==> consumed(*old(self), *final(self)),
        decreases old(self).tokens().len() - old(self).pos(), 39int,
    {
        if matches!(self.peek(), Token::Identifier(_)) && matches!(self.lookahead(), Token::Assign) {
            let identifier = self.parse_identifier()?;
            let name = match &identifier {
                ASTNode::Identifier { name } => name.clone(),
                _ => String::new(),
            };
            if !self.is_declared(name.as_str()) {
                return Err(ParseError::UndeclaredVariable(name));
            }
            self.advance();
            let body = self.parse_expression()?;
            return Ok(ASTNode::assign(identifier, body));
        }
        self.parse_arithmetic_expr()
    }

    /// ArithmeticExpr ::= OrExpr
    pub fn parse_arithmetic_expr(&mut self) -> (r: Result<ASTNode, ParseError>)
        requires
            old(self).wf(),
        ensures
            steps(*old(self), *final(self)),
            yields(r, *final(self), p_arithmetic(old(self).tokens(), old(self).pos(), old(self).scopes())),
            r is Ok ==> consumed(*old(self), *final(self)),
        decreases old(self).tokens().len() - old(self).pos(), 38int,
    {
        self.parse_or_expr()
    }

    /// OrExpr ::= AndExpr OrExprTail
    pub fn parse_or_expr(&mut self) -> (r: Result<ASTNode, ParseError>)
        requires
            old(self).wf(),
        ensures
            steps(*old(self), *final(self)),
            yields(r, *final(self), p_or(old(self).tokens(), old(self).pos(), old(self).scopes())),
            r is Ok ==> consumed(*old(self), *final(self)),
        decreases old(self).tokens().len() - old(self).pos(), 37int,
    {
        let lhs = self.parse_and_expr()?;
        self.parse_or_expr_tail(lhs)
    }

    /// OrExprTail ::= 'or' AndExpr OrExprTail | ε
    pub fn parse_or_expr_tail(&mut self, lhs: ASTNode) -> (r: Result<ASTNode, ParseError>)
        requires
            old(self).wf(),
        ensures
            steps(*old(self), *final(self)),
            yields(r, *final(self), p_or_tail(old(self).tokens(), old(self).pos(), old(self).scopes(), lhs@)),
        decreases old(self).tokens().len() - old(self).pos(), 36int,
    {
        let ghost ts = self.tokens();
        let ghost i0 = self.pos();
        let mut acc = lhs;
        while matches!(self.peek(), Token::Or)
            invariant
                self.wf(),
                self.tokens() == ts,
                ts == old(self).tokens(),
                i0 == old(self).pos(),
                i0 <= self.pos(),
                i0 <= ts.len() ==> self.pos() <= ts.len(),
                p_or_tail(ts, self.pos(), self.scopes(), acc@) == p_or_tail(ts, i0, old(self).scopes(), lhs@),
            decreases ts.len() - self.pos(),
        {
            let ghost j = self.pos();
            let ghost s = self.scopes();
            let ghost l = acc@;
            self.advance();
            let rhs = match self.parse_and_expr() {
                Ok(x) => x,
                Err(e) => {
                    assert(p_or_tail(ts, j, s, l).res == Err::<SpecAst, SpecParseError>(e@));
                    return Err(e);
                },
            };
            acc = ASTNode::binary_op(Operation::Or, acc, rhs);
        }
        Ok(acc)
    }

    /// AndExpr ::= CompExpr AndExprTail
    pub fn parse_and_expr(&mut self) -> (r: Result<ASTNode, ParseError>)
        requires
            old(self).wf(),
        ensures
            steps(*old(self), *final(self)),
            yields(r, *final(self), p_and(old(self).tokens(), old(self).pos(), old(self).scopes())),
            r is Ok ==> consumed(*old(self), *final(self)),
        decreases old(self).tokens().len() - old(self).pos(), 35int,
    {
        let lhs = self.parse_comp_expr()?;
        self.parse_and_expr_tail(lhs)
    }

    /// AndExprTail ::= 'and' CompExpr AndExprTail | ε
    pub fn parse_and_expr_tail(&mut self, lhs: ASTNode) -> (r: Result<ASTNode, ParseError>)
        requires
            old(self).wf(),
        ensures
            steps(*old(self), *final(self)),
            yields(r, *final(self), p_and_tail(old(self).tokens(), old(self).pos(), old(self).scopes(), lhs@)),
        decreases old(self).tokens().len() - old(self).pos(), 34int,
    {
        let ghost ts = self.tokens();
        let ghost i0 = self.pos();
        let mut acc = lhs;
        while matches!(self.peek(), Token::And)
            invariant
                self.wf(),
                self.tokens() == ts,
                ts == old(self).tokens(),
                i0 == old(self).pos(),
                i0 <= self.pos(),
                i0 <= ts.len() ==> self.pos() <= ts.len(),
                p_and_tail(ts, self.pos(), self.scopes(), acc@) == p_and_tail(ts, i0, old(self).scopes(), lhs@),
            decreases ts.len() - self.pos(),
        {
            let ghost j = self.pos();
            let ghost s = self.scopes();
            let ghost l = acc@;
            self.advance();
            let rhs = match self.parse_comp_expr() {
                Ok(x) => x,
                Err(e) => {
                    assert(p_and_tail(ts, j, s, l).res == Err::<SpecAst, SpecParseError>(e@));
                    return Err(e);
                },
            };
            acc = ASTNode::binary_op(Operation::And, acc, rhs);
        }
        Ok(acc)
    }

    /// CompExpr ::= AddSubExpr CompExprTail
    pub fn parse_comp_expr(&mut self) -> (r: Result<ASTNode, ParseError>)
        requires
            old(self).wf(),
        ensures
            steps(*old(self), *final(self)),
            yields(r, *final(self), p_comp(old(self).tokens(), old(self).pos(), old(self).scopes())),
            r is Ok ==> consumed(*old(self), *final(self)),
        decreases old(self).tokens().len() - old(self).pos(), 33int,
    {
        let lhs = self.parse_add_sub_expr()?;
        self.parse_comp_expr_tail(lhs)
    }

    /// CompExprTail ::= ('==' | '<' | '>' | '<=' | '>=') AddSubExpr CompExprTail | ε
    pub fn parse_comp_expr_tail(&mut self, lhs: ASTNode) -> (r: Result<ASTNode, ParseError>)
        requires
            old(self).wf(),
        ensures
            steps(*old(self), *final(self)),
            yields(r, *final(self), p_comp_tail(old(self).tokens(), old(self).pos(), old(self).scopes(), lhs@)),
        decreases old(self).tokens().len() - old(self).pos(), 32int,
    {
        let ghost ts = self.tokens();
        let ghost i0 = self.pos();
        let mut acc = lhs;
        loop
            invariant
                self.wf(),
                self.tokens() == ts,
                ts == old(self).tokens(),
                i0 == old(self).pos(),
                i0 <= self.pos(),
                i0 <= ts.len() ==> self.pos() <= ts.len(),
                p_comp_tail(ts, self.pos(), self.scopes(), acc@) == p_comp_tail(ts, i0, old(self).scopes(), lhs@),
            decreases ts.len() - self.pos(),
        {
            let op = match comparison_operation(self.peek()) {
                Some(op) => op,
                None => {
                    return Ok(acc);
                },
            };
            let ghost j = self.pos();
            let ghost s = self.scopes();
            let ghost l = acc@;
            self.advance();
            let rhs = match self.parse_add_sub_expr() {
                Ok(x) => x,
                Err(e) => {
                    assert(p_comp_tail(ts, j, s, l).res == Err::<SpecAst, SpecParseError>(e@));
                    return Err(e);
                },
            };
            acc = ASTNode::binary_op(op, acc, rhs);
        }
    }

    /// AddSubExpr ::= MulDivExpr AddSubExprTail
    pub fn parse_add_sub_expr(&mut self) -> (r: Result<ASTNode, ParseError>)
        requires
            old(self).wf(),
        ensures
            steps(*old(self), *final(self)),
            yields(r, *final(self), p_add_sub(old(self).tokens(), old(self).pos(), old(self).scopes())),
            r is Ok ==> consumed(*old(self), *final(self)),
        decreases old(self).tokens().len() - old(self).pos(), 31int,
    {
        let lhs = self.parse_mul_div_expr()?;
        self.parse_add_sub_expr_tail(lhs)
    }

    /// AddSubExprTail ::= ('+' | '-') MulDivExpr AddSubExprTail | ε
    pub fn parse_add_sub_expr_tail(&mut self, lhs: ASTNode) -> (r: Result<ASTNode, ParseError>)
        requires
            old(self).wf(),
        ensures
            steps(*old(self), *final(self)),
            yields(r, *final(self), p_add_sub_tail(old(self).tokens(), old(self).pos(), old(self).scopes(), lhs@)),
        decreases old(self).tokens().len() - old(self).pos(), 30int,
    {
        let ghost ts = self.tokens();
        let ghost i0 = self.pos();
        let mut acc = lhs;
        loop
            invariant
                self.wf(),
                self.tokens() == ts,
                ts == old(self).tokens(),
                i0 == old(self).pos(),
                i0 <= self.pos(),
                i0 <= ts.len() ==> self.pos() <= ts.len(),
                p_add_sub_tail(ts, self.pos(), self.scopes(), acc@) == p_add_sub_tail(
                    ts,
                    i0,
                    old(self).scopes(),
                    lhs@,
                ),
            decreases ts.len() - self.pos(),
        {
            let op = match additive_operation(self.peek()) {
                Some(op) => op,
                None => {
                    return Ok(acc);
                },
            };
            let ghost j = self.pos();
            let ghost s = self.scopes();
            let ghost l = acc@;
            self.advance();
            let rhs = match self.parse_mul_div_expr() {
                Ok(x) => x,
                Err(e) => {
                    assert(p_add_sub_tail(ts, j, s, l).res == Err::<SpecAst, SpecParseError>(e@));
                    return Err(e);
                },
            };
            acc = ASTNode::binary_op(op, acc, rhs);
        }
    }

    /// MulDivExpr ::= PrimaryExpr MulDivExprTail
    pub fn parse_mul_div_expr(&mut self) -> (r: Result<ASTNode, ParseError>)
        requires
            old(self).wf(),
        ensures
            steps(*old(self), *final(self)),
            yields(r, *final(self), p_mul_div(old(self).tokens(), old(self).pos(), old(self).scopes())),
            r is Ok ==> consumed(*old(self), *final(self)),
        decreases old(self).tokens().len() - old(self).pos(), 29int,
    {
        let lhs = self.parse_primary_expr()?;
        self.parse_mul_div_expr_tail(lhs)
    }

    /// MulDivExprTail ::= ('*' | '/' | '%') PrimaryExpr MulDivExprTail | ε
    pub fn parse_mul_div_expr_tail(&mut self, lhs: ASTNode) -> (r: Result<ASTNode, ParseError>)
        requires
            old(self).wf(),
        ensures
            steps(*old(self), *final(self)),
            yields(r, *final(self), p_mul_div_tail(old(self).tokens(), old(self).pos(), old(self).scopes(), lhs@)),
        decreases old(self).tokens().len() - old(self).pos(), 28int,
    {
        let ghost ts = self.tokens();
        let ghost i0 = self.pos();
        let mut acc = lhs;
        loop
            invariant
                self.wf(),
                self.tokens() == ts,
                ts == old(self).tokens(),
                i0 == old(self).pos(),
                i0 <= self.pos(),
                i0 <= ts.len() ==> self.pos() <= ts.len(),
                p_mul_div_tail(ts, self.pos(), self.scopes(), acc@) == p_mul_div_tail(
                    ts,
                    i0,
                    old(self).scopes(),
                    lhs@,
                ),
            decreases ts.len() - self.pos(),
        {
            let op = match multiplicative_operation(self.peek()) {
                Some(op) => op,
                None => {
                    return Ok(acc);
                },
            };
            let ghost j = self.pos();
            let ghost s = self.scopes();
            let ghost l = acc@;
            self.advance();
            let rhs = match self.parse_primary_expr() {
                Ok(x) => x,
                Err(e) => {
                    assert(p_mul_div_tail(ts, j, s, l).res == Err::<SpecAst, SpecParseError>(e@));
                    return Err(e);
                },
            };
            acc = ASTNode::binary_op(op, acc, rhs);
        }
    }

    /// PrimaryExpr ::= Literal | Identifier | Call | ArrayIndex | '(' Expr ')'
    pub fn parse_primary_expr(&mut self) -> (r: Result<ASTNode, ParseError>)
        requires
            old(self).wf(),
        ensures
            steps(*old(self), *final(self)),
            yields(r, *final(self), p_primary(old(self).tokens(), old(self).pos(), old(self).scopes())),
            r is Ok ==> consumed(*old(self), *final(self)),
        decreases old(self).tokens().len() - old(self).pos(), 27int,
    {
        match self.peek() {
            Token::Identifier(_) => {
                match self.lookahead() {
                    Token::LParen => self.parse_call_function(),
                    Token::LBracket => self.parse_array_index(),
                    _ => self.parse_identifier(),
                }
            },
            Token::LParen => {
                self.advance();
                let expr = self.parse_expression()?;
                self.expect(Token::RParen)?;
                Ok(expr)
            },
            Token::Array | Token::String(_) | Token::Int(_) | Token::Bool(_) => self.parse_literal(),
            _ => Err(ParseError::UnexpectedToken(self.peek().clone())),
        }
    }

    /// BoolExpr ::= BoolOrExpr
    pub fn parse_bool_expr(&mut self) -> (r: Result<ASTNode, ParseError>)
        requires
            old(self).wf(),
        ensures
            steps(*old(self), *final(self)),
            yields(r, *final(self), p_bool_expr(old(self).tokens(), old(self).pos(), old(self).scopes())),
            r is Ok ==> consumed(*old(self), *final(self)),
        decreases old(self).tokens().len() - old(self).pos(), 70int,
    {
        self.parse_bool_or_expr()
    }

    /// BoolOrExpr ::= BoolAndExpr BoolOrExprTail
    pub fn parse_bool_or_expr(&mut self) -> (r: Result<ASTNode, ParseError>)
        requires
            old(self).wf(),
        ensures
            steps(*old(self), *final(self)),
            yields(r, *final(self), p_bool_or(old(self).tokens(), old(self).pos(), old(self).scopes())),
            r is Ok ==> consumed(*old(self), *final(self)),
        decreases old(self).tokens().len() - old(self).pos(), 69int,
    {
        let lhs = self.parse_bool_and_expr()?;
        self.parse_bool_or_expr_tail(lhs)
    }

    /// BoolOrExprTail ::= 'or' BoolAndExpr BoolOrExprTail | ε
    pub fn parse_bool_or_expr_tail(&mut self, lhs: ASTNode) -> (r: Result<ASTNode, ParseError>)
        requires
            old(self).wf(),
        ensures
            steps(*old(self), *final(self)),
            yields(r, *final(self), p_bool_or_tail(old(self).tokens(), old(self).pos(), old(self).scopes(), lhs@)),
        decreases old(self).tokens().len() - old(self).pos(), 68int,
    {
        let ghost ts = self.tokens();
        let ghost i0 = self.pos();
        let mut acc = lhs;
        while matches!(self.peek(), Token::Or)
            invariant
                self.wf(),
                self.tokens() == ts,
                ts == old(self).tokens(),
                i0 == old(self).pos(),
                i0 <= self.pos(),
                i0 <= ts.len() ==> self.pos() <= ts.len(),
                p_bool_or_tail(ts, self.pos(), self.scopes(), acc@) == p_bool_or_tail(
                    ts,
                    i0,
                    old(self).scopes(),
                    lhs@,
                ),
            decreases ts.len() - self.pos(),
        {
            let ghost j = self.pos();
            let ghost s = self.scopes();
            let ghost l = acc@;
            self.advance();
            let rhs = match self.parse_bool_and_expr() {
                Ok(x) => x,
                Err(e) => {
                    assert(p_bool_or_tail(ts, j, s, l).res == Err::<SpecAst, SpecParseError>(e@));
                    return Err(e);
                },
            };
            acc = ASTNode::binary_op(Operation::Or, acc, rhs);
        }
        Ok(acc)
    }

    /// BoolAndExpr ::= BoolTerm BoolAndExprTail
    pub fn parse_bool_and_expr(&mut self) -> (r: Result<ASTNode, ParseError>)
        requires
            old(self).wf(),
        ensures
            steps(*old(self), *final(self)),
            yields(r, *final(self), p_bool_and(old(self).tokens(), old(self).pos(), old(self).scopes())),
            r is Ok ==> consumed(*old(self), *final(self)),
        decreases old(self).tokens().len() - old(self).pos(), 67int,
    {
        let lhs = self.parse_bool_term()?;
        self.parse_bool_and_expr_tail(lhs)
    }

    /// BoolAndExprTail ::= 'and' BoolTerm BoolAndExprTail | ε
    pub fn parse_bool_and_expr_tail(&mut self, lhs: ASTNode) -> (r: Result<ASTNode, ParseError>)
        requires
            old(self).wf(),
        ensures
            steps(*old(self), *final(self)),
            yields(r, *final(self), p_bool_and_tail(old(self).tokens(), old(self).pos(), old(self).scopes(), lhs@)),
        decreases old(self).tokens().len() - old(self).pos(), 66int,
    {
        let ghost ts = self.tokens();
        let ghost i0 = self.pos();
        let mut acc = lhs;
        while matches!(self.peek(), Token::And)
            invariant
                self.wf(),
                self.tokens() == ts,
                ts == old(self).tokens(),
                i0 == old(self).pos(),
                i0 <= self.pos(),
                i0 <= ts.len() ==> self.pos() <= ts.len(),
                p_bool_and_tail(ts, self.pos(), self.scopes(), acc@) == p_bool_and_tail(
                    ts,
                    i0,
                    old(self).scopes(),
                    lhs@,
                ),
            decreases ts.len() - self.pos(),
        {
            let ghost j = self.pos();
            let ghost s = self.scopes();
            let ghost l = acc@;
            self.advance();
            let rhs = match self.parse_bool_term() {
                Ok(x) => x,
                Err(e) => {
                    assert(p_bool_and_tail(ts, j, s, l).res == Err::<SpecAst, SpecParseError>(e@));
                    return Err(e);
                },
            };
            acc = ASTNode::binary_op(Operation::And, acc, rhs);
        }
        Ok(acc)
    }

    /// BoolTerm ::= Bool | ComparisonExpr | Identifier | '(' BoolExpr ')'
    pub fn parse_bool_term(&mut self) -> (r: Result<ASTNode, ParseError>)
        requires
            old(self).wf(),
        ensures
            steps(*old(self), *final(self)),
            yields(r, *final(self), p_bool_term(old(self).tokens(), old(self).pos(), old(self).scopes())),
            r is Ok ==> consumed(*old(self), *final(self)),
        decreases old(self).tokens().len() - old(self).pos(), 65int,
    {
        match self.peek() {
            Token::Bool(value) => {
                let result = ASTNode::boolean(*value);
                self.advance();
                Ok(result)
            },
            Token::LParen => {
                self.advance();
                let expr = self.parse_bool_expr()?;
                self.expect(Token::RParen)?;
                Ok(expr)
            },
            Token::Identifier(_) => {
                match self.lookahead() {
                    Token::Equal
                    | Token::GreaterEqual
                    | Token::GreaterThan
                    | Token::LessThan
                    | Token::LessEqual => self.parse_comparison_expr(),
                    _ => self.parse_identifier(),
                }
            },
            _ => Err(ParseError::ExpectedBoolean(self.peek().clone())),
        }
    }

    /// ComparisonExpr ::= Operand ('==' | '>' | '<' | '>=' | '<=') Operand
    pub fn parse_comparison_expr(&mut self) -> (r: Result<ASTNode, ParseError>)
        requires
            old(self).wf(),
        ensures
            steps(*old(self), *final(self)),
            yields(r, *final(self), p_comparison(old(self).tokens(), old(self).pos(), old(self).scopes())),
            r is Ok ==> consumed(*old(self), *final(self)),
    {
        let lhs = self.parse_operand()?;
        let op = match self.peek() {
            Token::Equal => Operation::Eq,
            Token::GreaterEqual => Operation::Ge,
            Token::GreaterThan => Operation::Gt,
            Token::LessThan => Operation::Lt,
            Token::LessEqual => Operation::Le,
            _ => {
                return Err(ParseError::ExpectedComparison(self.peek().clone()));
            },
        };
        self.advance();
        let rhs = self.parse_operand()?;
        Ok(ASTNode::binary_op(op, lhs, rhs))
    }

    /// Operand ::= Int | Identifier | ArrayIndex
    pub fn parse_operand(&mut self) -> (r: Result<ASTNode, ParseError>)
        requires
            old(self).wf(),
        ensures
            steps(*old(self), *final(self)),
            yields(r, *final(self), p_operand(old(self).tokens(), old(self).pos(), old(self).scopes())),
            r is Ok ==> consumed(*old(self), *final(self)),
    {
        match self.peek() {
            Token::Identifier(_) => {
                match self.lookahead() {
                    Token::LBracket => self.parse_array_index(),
                    _ => self.parse_identifier(),
                }
            },
            Token::Int(value) => {
                let result = ASTNode::numeric(*value);
                self.advance();
                Ok(result)
            },
            _ => Err(ParseError::ExpectedOperand(self.peek().clone())),
        }
    }

    /// ArrayIndex ::= Identifier '[' (Int | Identifier) ']'
    pub fn parse_array_index(&mut self) -> (r: Result<ASTNode, ParseError>)
        requires
            old(self).wf(),
        ensures
            steps(*old(self), *final(self)),
            yields(r, *final(self), p_array_index(old(self).tokens(), old(self).pos(), old(self).scopes())),
            r is Ok ==> consumed(*old(self), *final(self)),
    {
        let identifier = self.parse_identifier()?;
        self.expect(Token::LBracket)?;
        let result = match self.peek() {
            Token::Int(index) => Ok(ASTNode::array_index(identifier, ASTNode::numeric(*index))),
            Token::Identifier(name) => Ok(ASTNode::array_index(identifier, ASTNode::identifier(name.as_str()))),
            _ => Err(ParseError::ExpectedArrayIndex(self.peek().clone())),
        };
        if result.is_ok() {
            self.advance();
            let _ = self.expect(Token::RBracket);
        }
        result
    }

    /// Array ::= 'array' '[' ArrayElements ']'
    pub fn parse_array(&mut self) -> (r: Result<ASTNode, ParseError>)
        requires
            old(self).wf(),
        ensures
            steps(*old(self), *final(self)),
            yields(r, *final(self), p_array(old(self).tokens(), old(self).pos(), old(self).scopes())),
            r is Ok ==> consumed(*old(self), *final(self)),
        decreases old(self).tokens().len() - old(self).pos(), 21int,
    {
        self.expect(Token::Array)?;
        self.expect(Token::LBracket)?;
        let elements = self.parse_array_elements()?;
        self.expect(Token::RBracket)?;
        Ok(ASTNode::array(elements))
    }

    /// ArrayElements ::= Expr ArrayElementsTail | ε
    pub fn parse_array_elements(&mut self) -> (r: Result<Vec<ASTNode>, ParseError>)
        requires
            old(self).wf(),
        ensures
            steps(*old(self), *final(self)),
            yields_list(r, *final(self), p_array_elements(old(self).tokens(), old(self).pos(), old(self).scopes())),
        decreases old(self).tokens().len() - old(self).pos(), 50int,
    {
        let mut elements = Vec::new();
        if matches!(self.peek(), Token::RBracket) {
            proof {
                assert(views(elements@) =~= seq![]);
            }
            return Ok(elements);
        }
        let first = self.parse_expression()?;
        elements.push(first);
        proof {
            lemma_views_push(seq![], first);
            assert(elements@ =~= seq![first]);
            assert(views(seq![]) =~= seq![]);
        }
        let _ = self.parse_array_elements_trail(&mut elements)?;
        Ok(elements)
    }

    /// ArrayElementsTail ::= ',' Expr ArrayElementsTail | ε
    pub fn parse_array_elements_trail(&mut self, elements: &mut Vec<ASTNode>) -> (r: Result<(), ParseError>)
        requires
            old(self).wf(),
        ensures
            steps(*old(self), *final(self)),
            ({
                let x = p_array_elements_trail(
                    old(self).tokens(),
                    old(self).pos(),
                    old(self).scopes(),
                    views(old(elements)@),
                );
                &&& final(self).pos() == x.pos
                &&& final(self).scopes() == x.sym
                &&& views(final(elements)@) == x.items
                &&& match r {
                    Ok(()) => x.err is None,
                    Err(e) => x.err == Some(e@),
                }
            }),
        decreases old(self).tokens().len() - old(self).pos(), 49int,
    {
        let ghost ts = self.tokens();
        let ghost i0 = self.pos();
        while matches!(self.peek(), Token::Comma)
            invariant
                self.wf(),
                self.tokens() == ts,
                ts == old(self).tokens(),
                i0 == old(self).pos(),
                i0 <= self.pos(),
                i0 <= ts.len() ==> self.pos() <= ts.len(),
                p_array_elements_trail(ts, self.pos(), self.scopes(), views(elements@))
                    == p_array_elements_trail(ts, i0, old(self).scopes(), views(old(elements)@)),
            decreases ts.len() - self.pos(),
        {
            self.advance();
            let x = self.parse_expression()?;
            proof {
                lemma_views_push(elements@, x);
            }
            elements.push(x);
        }
        Ok(())
    }

    /// Literal ::= Int | String | Bool | Array
    pub fn parse_literal(&mut self) -> (r: Result<ASTNode, ParseError>)
        requires
            old(self).wf(),
        ensures
            steps(*old(self), *final(self)),
            yields(r, *final(self), p_literal(old(self).tokens(), old(self).pos(), old(self).scopes())),
            r is Ok ==> consumed(*old(self), *final(self)),
        decreases old(self).tokens().len() - old(self).pos(), 22int,
    {
        match self.peek() {
            Token::Int(value) => {
                let result = ASTNode::numeric(*value);
                self.advance();
                Ok(result)
            },
            Token::String(value) => {
                let result = ASTNode::string(value.as_str());
                self.advance();
                Ok(result)
            },
            Token::Bool(value) => {
                let result = ASTNode::boolean(*value);
                self.advance();
                Ok(result)
            },
            Token::Array => self.parse_array(),
            _ => Err(ParseError::ExpectedLiteral(self.peek().clone())),
        }
    }

    /// Identifier
    pub fn parse_identifier(&mut self) -> (r: Result<ASTNode, ParseError>)
        requires
            old(self).wf(),
        ensures
            steps(*old(self), *final(self)),
            yields(r, *final(self), p_identifier(old(self).tokens(), old(self).pos(), old(self).scopes())),
            r is Ok ==> consumed(*old(self), *final(self)),
    {
        match self.peek() {
            Token::Identifier(name) => {
                let identifier = ASTNode::identifier(name.as_str());
                self.advance();
                Ok(identifier)
            },
            _ => Err(ParseError::ExpectedIdentifier(self.peek().clone())),
        }
    }
}

} // verus!
