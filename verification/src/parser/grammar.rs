//! The specification of the parser: what each parsing function yields on a
//! sequence of tokens, from a position, with a given table of declared names.
//!
//! Tokens past the end of the sequence read as `Eof`. Each function gives the
//! result, the position after what it read, and the table afterwards.
//!
//! A few definitions continue only when a sub-parse "moved on", i.e. ended
//! strictly after where it started and within the tokens. Every successful
//! parse of an expression or a statement does so (the executable parser
//! proves it), so this condition never cuts a parse short; it makes the
//! termination of these definitions evident.
use vstd::prelude::*;

use crate::ops::Operation;
use crate::parser::error::SpecParseError;
use crate::symbol::{declare, declared};
use crate::token::SpecToken;
use crate::tree::SpecAst;

verus! {

/// A table of declared names: a stack of scopes.
pub type Scopes = Seq<Set<Seq<char>>>;

/// The outcome of a parse.
pub struct Parsed<T> {
    pub res: Result<T, SpecParseError>,
    pub pos: int,
    pub sym: Scopes,
}

/// The outcome of parsing the tail of a list: the items read so far, and the
/// error that stopped it, if one did.
pub struct ParsedList {
    pub items: Seq<SpecAst>,
    pub err: Option<SpecParseError>,
    pub pos: int,
    pub sym: Scopes,
}

pub open spec fn ok<T>(v: T, pos: int, sym: Scopes) -> Parsed<T> {
    Parsed { res: Ok(v), pos, sym }
}

pub open spec fn fail<T>(e: SpecParseError, pos: int, sym: Scopes) -> Parsed<T> {
    Parsed { res: Err(e), pos, sym }
}

/// The token at position `i`; `Eof` outside the sequence.
pub open spec fn tok(ts: Seq<SpecToken>, i: int) -> SpecToken {
    if 0 <= i < ts.len() {
        ts[i]
    } else {
        SpecToken::Eof
    }
}

/// The position after expecting `e` at `i` (unchanged when `e` is not there).
pub open spec fn expect_at(ts: Seq<SpecToken>, i: int, e: SpecToken) -> int {
    if tok(ts, i) == e {
        i + 1
    } else {
        i
    }
}

/// The result of expecting `e` at `i`.
pub open spec fn expect_result(ts: Seq<SpecToken>, i: int, e: SpecToken) -> Result<(), SpecParseError> {
    if tok(ts, i) == e {
        Ok(())
    } else {
        Err(SpecParseError::Expected { expected: e, found: tok(ts, i) })
    }
}

/// `j` lies strictly after `i`, within the tokens.
pub open spec fn moved(ts: Seq<SpecToken>, i: int, j: int) -> bool {
    i < j <= ts.len()
}

/// The outcome when a sub-parse did not move on (it never happens; see above).
pub open spec fn stuck<T>(ts: Seq<SpecToken>, i: int, sym: Scopes) -> Parsed<T> {
    fail(SpecParseError::UnexpectedToken(tok(ts, i)), i, sym)
}

pub open spec fn ident(name: Seq<char>) -> SpecAst {
    SpecAst::Identifier { name }
}

pub open spec fn bin(op: Operation, lhs: SpecAst, rhs: SpecAst) -> SpecAst {
    SpecAst::BinaryOp { op, lhs: Box::new(lhs), rhs: Box::new(rhs) }
}

/// The operation of a comparison token.
pub open spec fn comparison_op(t: SpecToken) -> Option<Operation> {
    match t {
        SpecToken::Equal => Some(Operation::Eq),
        SpecToken::GreaterEqual => Some(Operation::Ge),
        SpecToken::GreaterThan => Some(Operation::Gt),
        SpecToken::LessThan => Some(Operation::Lt),
        SpecToken::LessEqual => Some(Operation::Le),
        _ => None,
    }
}

/// The operation of an additive token.
pub open spec fn additive_op(t: SpecToken) -> Option<Operation> {
    match t {
        SpecToken::Add => Some(Operation::Add),
        SpecToken::Sub => Some(Operation::Sub),
        _ => None,
    }
}

/// The operation of a multiplicative token.
pub open spec fn multiplicative_op(t: SpecToken) -> Option<Operation> {
    match t {
        SpecToken::Mul => Some(Operation::Mul),
        SpecToken::Div => Some(Operation::Div),
        SpecToken::Mod => Some(Operation::Mod),
        _ => None,
    }
}

/// Identifier
pub open spec fn p_identifier(ts: Seq<SpecToken>, i: int, sym: Scopes) -> Parsed<SpecAst> {
    match tok(ts, i) {
        SpecToken::Identifier(name) => ok(ident(name), i + 1, sym),
        t => fail(SpecParseError::ExpectedIdentifier(t), i, sym),
    }
}

/// ArrayIndex ::= Identifier '[' (Int | Identifier) ']'
pub open spec fn p_array_index(ts: Seq<SpecToken>, i: int, sym: Scopes) -> Parsed<SpecAst> {
    let id = p_identifier(ts, i, sym);
    match id.res {
        Err(e) => fail(e, id.pos, sym),
        Ok(arr) => if tok(ts, id.pos) != SpecToken::LBracket {
            fail(
                SpecParseError::Expected { expected: SpecToken::LBracket, found: tok(ts, id.pos) },
                id.pos,
                sym,
            )
        } else {
            let k = id.pos + 1;
            match tok(ts, k) {
                SpecToken::Int(n) => ok(
                    SpecAst::ArrayIndex {
                        arr: Box::new(arr),
                        index: Box::new(SpecAst::Numeric { value: n }),
                    },
                    expect_at(ts, k + 1, SpecToken::RBracket),
                    sym,
                ),
                SpecToken::Identifier(n) => ok(
                    SpecAst::ArrayIndex { arr: Box::new(arr), index: Box::new(ident(n)) },
                    expect_at(ts, k + 1, SpecToken::RBracket),
                    sym,
                ),
                t => fail(SpecParseError::ExpectedArrayIndex(t), k, sym),
            }
        },
    }
}

/// Operand ::= Int | Identifier | ArrayIndex
pub open spec fn p_operand(ts: Seq<SpecToken>, i: int, sym: Scopes) -> Parsed<SpecAst> {
    match tok(ts, i) {
        SpecToken::Identifier(_) => if tok(ts, i + 1) == SpecToken::LBracket {
            p_array_index(ts, i, sym)
        } else {
            p_identifier(ts, i, sym)
        },
        SpecToken::Int(v) => ok(SpecAst::Numeric { value: v }, i + 1, sym),
        t => fail(SpecParseError::ExpectedOperand(t), i, sym),
    }
}

/// ComparisonExpr ::= Operand ('==' | '>' | '<' | '>=' | '<=') Operand
pub open spec fn p_comparison(ts: Seq<SpecToken>, i: int, sym: Scopes) -> Parsed<SpecAst> {
    let l = p_operand(ts, i, sym);
    match l.res {
        Err(e) => fail(e, l.pos, sym),
        Ok(lhs) => match comparison_op(tok(ts, l.pos)) {
            None => fail(SpecParseError::ExpectedComparison(tok(ts, l.pos)), l.pos, sym),
            Some(op) => {
                let r = p_operand(ts, l.pos + 1, sym);
                match r.res {
                    Err(e) => fail(e, r.pos, sym),
                    Ok(rhs) => ok(bin(op, lhs, rhs), r.pos, sym),
                }
            },
        },
    }
}

/// ParamsTrail ::= ',' Identifier ParamsTrail | ε
pub open spec fn p_params_trail(ts: Seq<SpecToken>, i: int, sym: Scopes, acc: Seq<SpecAst>) -> ParsedList
    decreases ts.len() - i,
{
    if tok(ts, i) == SpecToken::Comma {
        let id = p_identifier(ts, i + 1, sym);
        match id.res {
            Err(e) => ParsedList { items: acc, err: Some(e), pos: id.pos, sym },
            Ok(x) => p_params_trail(ts, i + 2, sym, acc.push(x)),
        }
    } else {
        ParsedList { items: acc, err: None, pos: i, sym }
    }
}

/// Params ::= Identifier ParamsTrail | ε   (every ',' is followed by an identifier)
pub open spec fn p_params(ts: Seq<SpecToken>, i: int, sym: Scopes) -> Parsed<Seq<SpecAst>> {
    if tok(ts, i) == SpecToken::RParen {
        ok(seq![], i, sym)
    } else {
        let id = p_identifier(ts, i, sym);
        match id.res {
            Err(e) => fail(e, id.pos, sym),
            Ok(x) => {
                let tr = p_params_trail(ts, i + 1, sym, seq![x]);
                match tr.err {
                    Some(e) => fail(e, tr.pos, sym),
                    None => ok(tr.items, tr.pos, sym),
                }
            },
        }
    }
}

/// Expr ::= AssignmentExpr
pub open spec fn p_expression(ts: Seq<SpecToken>, i: int, sym: Scopes) -> Parsed<SpecAst>
    decreases ts.len() - i, 40int,
{
    p_assignment(ts, i, sym)
}

/// AssignmentExpr ::= Identifier '=' Expr | ArithmeticExpr
pub open spec fn p_assignment(ts: Seq<SpecToken>, i: int, sym: Scopes) -> Parsed<SpecAst>
    decreases ts.len() - i, 39int,
{
    if tok(ts, i) is Identifier && tok(ts, i + 1) == SpecToken::Assign {
        let name = tok(ts, i)->Identifier_0;
        if !declared(sym, name) {
            fail(SpecParseError::UndeclaredVariable(name), i + 1, sym)
        } else {
            let b = p_expression(ts, i + 2, sym);
            match b.res {
                Err(e) => fail(e, b.pos, b.sym),
                Ok(body) => ok(
                    SpecAst::Assign { identifier: Box::new(ident(name)), body: Box::new(body) },
                    b.pos,
                    b.sym,
                ),
            }
        }
    } else {
        p_arithmetic(ts, i, sym)
    }
}

/// ArithmeticExpr ::= OrExpr
pub open spec fn p_arithmetic(ts: Seq<SpecToken>, i: int, sym: Scopes) -> Parsed<SpecAst>
    decreases ts.len() - i, 38int,
{
    p_or(ts, i, sym)
}

/// OrExpr ::= AndExpr OrExprTail
pub open spec fn p_or(ts: Seq<SpecToken>, i: int, sym: Scopes) -> Parsed<SpecAst>
    decreases ts.len() - i, 37int,
{
    let l = p_and(ts, i, sym);
    match l.res {
        Err(e) => fail(e, l.pos, l.sym),
        Ok(lhs) => if moved(ts, i, l.pos) { p_or_tail(ts, l.pos, l.sym, lhs) } else { stuck(ts, i, sym) },
    }
}

/// OrExprTail ::= 'or' AndExpr OrExprTail | ε
pub open spec fn p_or_tail(ts: Seq<SpecToken>, i: int, sym: Scopes, lhs: SpecAst) -> Parsed<SpecAst>
    decreases ts.len() - i, 36int,
{
    if tok(ts, i) == SpecToken::Or {
        let r = p_and(ts, i + 1, sym);
        match r.res {
            Err(e) => fail(e, r.pos, r.sym),
            Ok(rhs) => if moved(ts, i, r.pos) {
                p_or_tail(ts, r.pos, r.sym, bin(Operation::Or, lhs, rhs))
            } else {
                stuck(ts, i, sym)
            },
        }
    } else {
        ok(lhs, i, sym)
    }
}

/// AndExpr ::= CompExpr AndExprTail
pub open spec fn p_and(ts: Seq<SpecToken>, i: int, sym: Scopes) -> Parsed<SpecAst>
    decreases ts.len() - i, 35int,
{
    let l = p_comp(ts, i, sym);
    match l.res {
        Err(e) => fail(e, l.pos, l.sym),
        Ok(lhs) => if moved(ts, i, l.pos) { p_and_tail(ts, l.pos, l.sym, lhs) } else { stuck(ts, i, sym) },
    }
}

/// AndExprTail ::= 'and' CompExpr AndExprTail | ε
pub open spec fn p_and_tail(ts: Seq<SpecToken>, i: int, sym: Scopes, lhs: SpecAst) -> Parsed<SpecAst>
    decreases ts.len() - i, 34int,
{
    if tok(ts, i) == SpecToken::And {
        let r = p_comp(ts, i + 1, sym);
        match r.res {
            Err(e) => fail(e, r.pos, r.sym),
            Ok(rhs) => if moved(ts, i, r.pos) {
                p_and_tail(ts, r.pos, r.sym, bin(Operation::And, lhs, rhs))
            } else {
                stuck(ts, i, sym)
            },
        }
    } else {
        ok(lhs, i, sym)
    }
}

/// CompExpr ::= AddSubExpr CompExprTail
pub open spec fn p_comp(ts: Seq<SpecToken>, i: int, sym: Scopes) -> Parsed<SpecAst>
    decreases ts.len() - i, 33int,
{
    let l = p_add_sub(ts, i, sym);
    match l.res {
        Err(e) => fail(e, l.pos, l.sym),
        Ok(lhs) => if moved(ts, i, l.pos) { p_comp_tail(ts, l.pos, l.sym, lhs) } else { stuck(ts, i, sym) },
    }
}

/// CompExprTail ::= ('==' | '<' | '>' | '<=' | '>=') AddSubExpr CompExprTail | ε
pub open spec fn p_comp_tail(ts: Seq<SpecToken>, i: int, sym: Scopes, lhs: SpecAst) -> Parsed<SpecAst>
    decreases ts.len() - i, 32int,
{
    match comparison_op(tok(ts, i)) {
        Some(op) => {
            let r = p_add_sub(ts, i + 1, sym);
            match r.res {
                Err(e) => fail(e, r.pos, r.sym),
                Ok(rhs) => if moved(ts, i, r.pos) {
                    p_comp_tail(ts, r.pos, r.sym, bin(op, lhs, rhs))
                } else {
                    stuck(ts, i, sym)
                },
            }
        },
        None => ok(lhs, i, sym),
    }
}

/// AddSubExpr ::= MulDivExpr AddSubExprTail
pub open spec fn p_add_sub(ts: Seq<SpecToken>, i: int, sym: Scopes) -> Parsed<SpecAst>
    decreases ts.len() - i, 31int,
{
    let l = p_mul_div(ts, i, sym);
    match l.res {
        Err(e) => fail(e, l.pos, l.sym),
        Ok(lhs) => if moved(ts, i, l.pos) { p_add_sub_tail(ts, l.pos, l.sym, lhs) } else { stuck(ts, i, sym) },
    }
}

/// AddSubExprTail ::= ('+' | '-') MulDivExpr AddSubExprTail | ε
pub open spec fn p_add_sub_tail(ts: Seq<SpecToken>, i: int, sym: Scopes, lhs: SpecAst) -> Parsed<SpecAst>
    decreases ts.len() - i, 30int,
{
    match additive_op(tok(ts, i)) {
        Some(op) => {
            let r = p_mul_div(ts, i + 1, sym);
            match r.res {
                Err(e) => fail(e, r.pos, r.sym),
                Ok(rhs) => if moved(ts, i, r.pos) {
                    p_add_sub_tail(ts, r.pos, r.sym, bin(op, lhs, rhs))
                } else {
                    stuck(ts, i, sym)
                },
            }
        },
        None => ok(lhs, i, sym),
    }
}

/// MulDivExpr ::= PrimaryExpr MulDivExprTail
pub open spec fn p_mul_div(ts: Seq<SpecToken>, i: int, sym: Scopes) -> Parsed<SpecAst>
    decreases ts.len() - i, 29int,
{
    let l = p_primary(ts, i, sym);
    match l.res {
        Err(e) => fail(e, l.pos, l.sym),
        Ok(lhs) => if moved(ts, i, l.pos) { p_mul_div_tail(ts, l.pos, l.sym, lhs) } else { stuck(ts, i, sym) },
    }
}

/// MulDivExprTail ::= ('*' | '/' | '%') PrimaryExpr MulDivExprTail | ε
pub open spec fn p_mul_div_tail(ts: Seq<SpecToken>, i: int, sym: Scopes, lhs: SpecAst) -> Parsed<SpecAst>
    decreases ts.len() - i, 28int,
{
    match multiplicative_op(tok(ts, i)) {
        Some(op) => {
            let r = p_primary(ts, i + 1, sym);
            match r.res {
                Err(e) => fail(e, r.pos, r.sym),
                Ok(rhs) => if moved(ts, i, r.pos) {
                    p_mul_div_tail(ts, r.pos, r.sym, bin(op, lhs, rhs))
                } else {
                    stuck(ts, i, sym)
                },
            }
        },
        None => ok(lhs, i, sym),
    }
}

/// PrimaryExpr ::= Literal | Identifier | Call | ArrayIndex | '(' Expr ')'
pub open spec fn p_primary(ts: Seq<SpecToken>, i: int, sym: Scopes) -> Parsed<SpecAst>
    decreases ts.len() - i, 27int,
{
    match tok(ts, i) {
        SpecToken::Identifier(_) => if tok(ts, i + 1) == SpecToken::LParen {
            p_call(ts, i, sym)
        } else if tok(ts, i + 1) == SpecToken::LBracket {
            p_array_index(ts, i, sym)
        } else {
            p_identifier(ts, i, sym)
        },
        SpecToken::LParen => {
            let e = p_expression(ts, i + 1, sym);
            match e.res {
                Err(err) => fail(err, e.pos, e.sym),
                Ok(x) => if tok(ts, e.pos) == SpecToken::RParen {
                    ok(x, e.pos + 1, e.sym)
                } else {
                    fail(
                        SpecParseError::Expected { expected: SpecToken::RParen, found: tok(ts, e.pos) },
                        e.pos,
                        e.sym,
                    )
                },
            }
        },
        SpecToken::Array | SpecToken::String(_) | SpecToken::Int(_) | SpecToken::Bool(_) => p_literal(ts, i, sym),
        t => fail(SpecParseError::UnexpectedToken(t), i, sym),
    }
}

/// Call ::= Identifier '(' Args ')'
pub open spec fn p_call(ts: Seq<SpecToken>, i: int, sym: Scopes) -> Parsed<SpecAst>
    decreases ts.len() - i, 26int,
{
    match tok(ts, i) {
        SpecToken::Identifier(name) => if !declared(sym, name) {
            fail(SpecParseError::UndefinedFunction(name), i + 1, sym)
        } else {
            let j = expect_at(ts, i + 1, SpecToken::LParen);
            let a = p_args(ts, j, sym);
            match a.res {
                Err(e) => fail(e, a.pos, a.sym),
                Ok(args) => ok(
                    SpecAst::Call { name: Box::new(ident(name)), args },
                    expect_at(ts, a.pos, SpecToken::RParen),
                    a.sym,
                ),
            }
        },
        t => fail(SpecParseError::ExpectedIdentifier(t), i, sym),
    }
}

/// Args ::= ArgTerm ArgsTail | ε   (every ',' is followed by an argument term)
pub open spec fn p_args(ts: Seq<SpecToken>, i: int, sym: Scopes) -> Parsed<Seq<SpecAst>>
    decreases ts.len() - i, 48int,
{
    if tok(ts, i) == SpecToken::RParen {
        ok(seq![], i, sym)
    } else {
        let t = p_arg_term(ts, i, sym);
        match t.res {
            Err(e) => fail(e, t.pos, t.sym),
            Ok(a) => if moved(ts, i, t.pos) {
                let tr = p_args_trail(ts, t.pos, t.sym, seq![a]);
                match tr.err {
                    Some(e) => fail(e, tr.pos, tr.sym),
                    None => ok(tr.items, tr.pos, tr.sym),
                }
            } else {
                stuck(ts, i, sym)
            },
        }
    }
}

/// ArgsTail ::= ',' ArgTerm ArgsTail | ε
pub open spec fn p_args_trail(ts: Seq<SpecToken>, i: int, sym: Scopes, acc: Seq<SpecAst>) -> ParsedList
    decreases ts.len() - i, 47int,
{
    if tok(ts, i) == SpecToken::Comma {
        let t = p_arg_term(ts, i + 1, sym);
        match t.res {
            Err(e) => ParsedList { items: acc, err: Some(e), pos: t.pos, sym: t.sym },
            Ok(a) => if moved(ts, i, t.pos) {
                p_args_trail(ts, t.pos, t.sym, acc.push(a))
            } else {
                ParsedList { items: acc.push(a), err: None, pos: t.pos, sym: t.sym }
            },
        }
    } else {
        ParsedList { items: acc, err: None, pos: i, sym }
    }
}

/// ArgTerm ::= Literal | Identifier   (the identifier must be declared)
pub open spec fn p_arg_term(ts: Seq<SpecToken>, i: int, sym: Scopes) -> Parsed<SpecAst>
    decreases ts.len() - i, 46int,
{
    match tok(ts, i) {
        SpecToken::String(_) | SpecToken::Int(_) | SpecToken::Bool(_) => p_literal(ts, i, sym),
        SpecToken::Identifier(name) => if !declared(sym, name) {
            fail(SpecParseError::UndeclaredArgument(name), i + 1, sym)
        } else {
            ok(ident(name), i + 1, sym)
        },
        t => fail(SpecParseError::ExpectedArgument(t), i, sym),
    }
}

/// Literal ::= Int | String | Bool | Array
pub open spec fn p_literal(ts: Seq<SpecToken>, i: int, sym: Scopes) -> Parsed<SpecAst>
    decreases ts.len() - i, 22int,
{
    match tok(ts, i) {
        SpecToken::Int(v) => ok(SpecAst::Numeric { value: v }, i + 1, sym),
        SpecToken::String(v) => ok(SpecAst::Str { value: v }, i + 1, sym),
        SpecToken::Bool(v) => ok(SpecAst::Bool { value: v }, i + 1, sym),
        SpecToken::Array => p_array(ts, i, sym),
        t => fail(SpecParseError::ExpectedLiteral(t), i, sym),
    }
}

/// Array ::= 'array' '[' ArrayElements ']'
pub open spec fn p_array(ts: Seq<SpecToken>, i: int, sym: Scopes) -> Parsed<SpecAst>
    decreases ts.len() - i, 21int,
{
    if tok(ts, i) != SpecToken::Array {
        fail(SpecParseError::Expected { expected: SpecToken::Array, found: tok(ts, i) }, i, sym)
    } else if tok(ts, i + 1) != SpecToken::LBracket {
        fail(SpecParseError::Expected { expected: SpecToken::LBracket, found: tok(ts, i + 1) }, i + 1, sym)
    } else {
        let e = p_array_elements(ts, i + 2, sym);
        match e.res {
            Err(err) => fail(err, e.pos, e.sym),
            Ok(elements) => if tok(ts, e.pos) == SpecToken::RBracket {
                ok(SpecAst::Array { elements }, e.pos + 1, e.sym)
            } else {
                fail(
                    SpecParseError::Expected { expected: SpecToken::RBracket, found: tok(ts, e.pos) },
                    e.pos,
                    e.sym,
                )
            },
        }
    }
}

/// ArrayElements ::= Expr ArrayElementsTail | ε
pub open spec fn p_array_elements(ts: Seq<SpecToken>, i: int, sym: Scopes) -> Parsed<Seq<SpecAst>>
    decreases ts.len() - i, 50int,
{
    if tok(ts, i) == SpecToken::RBracket {
        ok(seq![], i, sym)
    } else {
        let x = p_expression(ts, i, sym);
        match x.res {
            Err(e) => fail(e, x.pos, x.sym),
            Ok(first) => if moved(ts, i, x.pos) {
                let tr = p_array_elements_trail(ts, x.pos, x.sym, seq![first]);
                match tr.err {
                    Some(e) => fail(e, tr.pos, tr.sym),
                    None => ok(tr.items, tr.pos, tr.sym),
                }
            } else {
                stuck(ts, i, sym)
            },
        }
    }
}

/// ArrayElementsTail ::= ',' Expr ArrayElementsTail | ε
pub open spec fn p_array_elements_trail(ts: Seq<SpecToken>, i: int, sym: Scopes, acc: Seq<SpecAst>) -> ParsedList
    decreases ts.len() - i, 49int,
{
    if tok(ts, i) == SpecToken::Comma {
        let x = p_expression(ts, i + 1, sym);
        match x.res {
            Err(e) => ParsedList { items: acc, err: Some(e), pos: x.pos, sym: x.sym },
            Ok(v) => if moved(ts, i, x.pos) {
                p_array_elements_trail(ts, x.pos, x.sym, acc.push(v))
            } else {
                ParsedList { items: acc.push(v), err: None, pos: x.pos, sym: x.sym }
            },
        }
    } else {
        ParsedList { items: acc, err: None, pos: i, sym }
    }
}


/// BoolExpr ::= BoolOrExpr
pub open spec fn p_bool_expr(ts: Seq<SpecToken>, i: int, sym: Scopes) -> Parsed<SpecAst>
    decreases ts.len() - i, 70int,
{
    p_bool_or(ts, i, sym)
}

/// BoolOrExpr ::= BoolAndExpr BoolOrExprTail
pub open spec fn p_bool_or(ts: Seq<SpecToken>, i: int, sym: Scopes) -> Parsed<SpecAst>
    decreases ts.len() - i, 69int,
{
    let l = p_bool_and(ts, i, sym);
    match l.res {
        Err(e) => fail(e, l.pos, l.sym),
        Ok(lhs) => if moved(ts, i, l.pos) { p_bool_or_tail(ts, l.pos, l.sym, lhs) } else { stuck(ts, i, sym) },
    }
}

/// BoolOrExprTail ::= 'or' BoolAndExpr BoolOrExprTail | ε
pub open spec fn p_bool_or_tail(ts: Seq<SpecToken>, i: int, sym: Scopes, lhs: SpecAst) -> Parsed<SpecAst>
    decreases ts.len() - i, 68int,
{
    if tok(ts, i) == SpecToken::Or {
        let r = p_bool_and(ts, i + 1, sym);
        match r.res {
            Err(e) => fail(e, r.pos, r.sym),
            Ok(rhs) => if moved(ts, i, r.pos) {
                p_bool_or_tail(ts, r.pos, r.sym, bin(Operation::Or, lhs, rhs))
            } else {
                stuck(ts, i, sym)
            },
        }
    } else {
        ok(lhs, i, sym)
    }
}

/// BoolAndExpr ::= BoolTerm BoolAndExprTail
pub open spec fn p_bool_and(ts: Seq<SpecToken>, i: int, sym: Scopes) -> Parsed<SpecAst>
    decreases ts.len() - i, 67int,
{
    let l = p_bool_term(ts, i, sym);
    match l.res {
        Err(e) => fail(e, l.pos, l.sym),
        Ok(lhs) => if moved(ts, i, l.pos) { p_bool_and_tail(ts, l.pos, l.sym, lhs) } else { stuck(ts, i, sym) },
    }
}

/// BoolAndExprTail ::= 'and' BoolTerm BoolAndExprTail | ε
pub open spec fn p_bool_and_tail(ts: Seq<SpecToken>, i: int, sym: Scopes, lhs: SpecAst) -> Parsed<SpecAst>
    decreases ts.len() - i, 66int,
{
    if tok(ts, i) == SpecToken::And {
        let r = p_bool_term(ts, i + 1, sym);
        match r.res {
            Err(e) => fail(e, r.pos, r.sym),
            Ok(rhs) => if moved(ts, i, r.pos) {
                p_bool_and_tail(ts, r.pos, r.sym, bin(Operation::And, lhs, rhs))
            } else {
                stuck(ts, i, sym)
            },
        }
    } else {
        ok(lhs, i, sym)
    }
}

/// BoolTerm ::= Bool | ComparisonExpr | Identifier | '(' BoolExpr ')'
pub open spec fn p_bool_term(ts: Seq<SpecToken>, i: int, sym: Scopes) -> Parsed<SpecAst>
    decreases ts.len() - i, 65int,
{
    match tok(ts, i) {
        SpecToken::Bool(v) => ok(SpecAst::Bool { value: v }, i + 1, sym),
        SpecToken::LParen => {
            let e = p_bool_expr(ts, i + 1, sym);
            match e.res {
                Err(err) => fail(err, e.pos, e.sym),
                Ok(x) => if tok(ts, e.pos) == SpecToken::RParen {
                    ok(x, e.pos + 1, e.sym)
                } else {
                    fail(
                        SpecParseError::Expected { expected: SpecToken::RParen, found: tok(ts, e.pos) },
                        e.pos,
                        e.sym,
                    )
                },
            }
        },
        SpecToken::Identifier(_) => if comparison_op(tok(ts, i + 1)) is Some {
            p_comparison(ts, i, sym)
        } else {
            p_identifier(ts, i, sym)
        },
        t => fail(SpecParseError::ExpectedBoolean(t), i, sym),
    }
}

/// The rank of a block in the termination argument: a block that does not
/// start with '{' reads its statements at the same position.
pub open spec fn block_rank(ts: Seq<SpecToken>, i: int) -> int {
    if tok(ts, i) == SpecToken::LBrace {
        84
    } else {
        90
    }
}

/// Stmts ::= Stmt Stmts | ε   (ends before '}' or at the end of the tokens)
pub open spec fn p_statements(ts: Seq<SpecToken>, i: int, sym: Scopes) -> Parsed<SpecAst>
    decreases ts.len() - i, 89int,
{
    p_statements_from(ts, i, sym, seq![])
}

/// The statements from `i` on, after the statements `acc`.
pub open spec fn p_statements_from(ts: Seq<SpecToken>, i: int, sym: Scopes, acc: Seq<SpecAst>) -> Parsed<SpecAst>
    decreases ts.len() - i, 88int,
{
    if tok(ts, i) == SpecToken::RBrace || tok(ts, i) == SpecToken::Eof {
        ok(SpecAst::Statements { stmts: acc }, i, sym)
    } else {
        let s = p_statement(ts, i, sym);
        match s.res {
            Err(e) => fail(e, s.pos, s.sym),
            Ok(st) => if moved(ts, i, s.pos) {
                p_statements_from(ts, s.pos, s.sym, acc.push(st))
            } else {
                stuck(ts, i, sym)
            },
        }
    }
}

/// Stmt ::= Expr ';' | LetBinding | Function | Block | ControlFlow
pub open spec fn p_statement(ts: Seq<SpecToken>, i: int, sym: Scopes) -> Parsed<SpecAst>
    decreases ts.len() - i, 87int,
{
    match tok(ts, i) {
        SpecToken::If | SpecToken::While | SpecToken::For | SpecToken::Return => p_control_flow(ts, i, sym),
        SpecToken::Def => p_function_def(ts, i, sym),
        SpecToken::Let => p_letbinding(ts, i, sym),
        SpecToken::LBrace => p_block(ts, i, sym),
        _ => {
            let e = p_expression(ts, i, sym);
            match e.res {
                Err(err) => fail(err, e.pos, e.sym),
                Ok(x) => ok(x, expect_at(ts, e.pos, SpecToken::Semicolon), e.sym),
            }
        },
    }
}

/// LetBinding ::= 'let' Identifier '=' Expr ';'   (declares the identifier)
pub open spec fn p_letbinding(ts: Seq<SpecToken>, i: int, sym: Scopes) -> Parsed<SpecAst>
    decreases ts.len() - i, 85int,
{
    let j = expect_at(ts, i, SpecToken::Let);
    match tok(ts, j) {
        SpecToken::Identifier(name) => {
            let k = expect_at(ts, j + 1, SpecToken::Assign);
            let e = p_expression(ts, k, sym);
            match e.res {
                Err(err) => fail(err, e.pos, e.sym),
                Ok(body) => ok(
                    SpecAst::LetBinding { identifier: Box::new(ident(name)), body: Box::new(body) },
                    expect_at(ts, e.pos, SpecToken::Semicolon),
                    declare(e.sym, name),
                ),
            }
        },
        t => fail(SpecParseError::ExpectedIdentifier(t), j, sym),
    }
}

/// Block ::= '{' Stmts '}'
pub open spec fn p_block(ts: Seq<SpecToken>, i: int, sym: Scopes) -> Parsed<SpecAst>
    decreases ts.len() - i, block_rank(ts, i),
{
    let j = expect_at(ts, i, SpecToken::LBrace);
    let s = p_statements(ts, j, sym);
    match s.res {
        Err(e) => fail(e, s.pos, s.sym),
        Ok(stmts) => ok(stmts, expect_at(ts, s.pos, SpecToken::RBrace), s.sym),
    }
}

/// ControlFlow ::= IfStatement | WhileStatement | ForStatement | Return
pub open spec fn p_control_flow(ts: Seq<SpecToken>, i: int, sym: Scopes) -> Parsed<SpecAst>
    decreases ts.len() - i, 86int,
{
    match tok(ts, i) {
        SpecToken::If => p_ifstatement(ts, i, sym),
        SpecToken::While => p_whilestatement(ts, i, sym),
        SpecToken::For => p_forstatement(ts, i, sym),
        SpecToken::Return => p_return(ts, i, sym),
        t => fail(SpecParseError::UnexpectedToken(t), i, sym),
    }
}

/// Return ::= 'return' Expr ';'
pub open spec fn p_return(ts: Seq<SpecToken>, i: int, sym: Scopes) -> Parsed<SpecAst>
    decreases ts.len() - i, 85int,
{
    let e = p_expression(ts, expect_at(ts, i, SpecToken::Return), sym);
    match e.res {
        Err(err) => fail(err, e.pos, e.sym),
        Ok(x) => ok(SpecAst::Return { value: Box::new(x) }, expect_at(ts, e.pos, SpecToken::Semicolon), e.sym),
    }
}

/// IfStatement ::= 'if' BoolExpr Block IfStatementTail
pub open spec fn p_ifstatement(ts: Seq<SpecToken>, i: int, sym: Scopes) -> Parsed<SpecAst>
    decreases ts.len() - i, 85int,
{
    let c = p_bool_expr(ts, expect_at(ts, i, SpecToken::If), sym);
    match c.res {
        Err(e) => fail(e, c.pos, c.sym),
        Ok(cond) => if !moved(ts, i, c.pos) {
            stuck(ts, i, sym)
        } else {
            let b = p_block(ts, c.pos, c.sym);
            match b.res {
                Err(e) => fail(e, b.pos, b.sym),
                Ok(then_branch) => if !moved(ts, i, b.pos) {
                    stuck(ts, i, sym)
                } else {
                    let t = p_ifstatement_trail(ts, b.pos, b.sym);
                    match t.res {
                        Err(e) => fail(e, t.pos, t.sym),
                        Ok(else_branch) => ok(
                            SpecAst::IfStatement {
                                cond: Box::new(cond),
                                then_branch: Box::new(then_branch),
                                else_branch: match else_branch {
                                    Some(e) => Some(Box::new(e)),
                                    None => None,
                                },
                            },
                            t.pos,
                            t.sym,
                        ),
                    }
                },
            }
        },
    }
}

/// IfStatementTail ::= 'elif' BoolExpr Block IfStatementTail | 'else' Block | ε
pub open spec fn p_ifstatement_trail(ts: Seq<SpecToken>, i: int, sym: Scopes) -> Parsed<Option<SpecAst>>
    decreases ts.len() - i, 83int,
{
    match tok(ts, i) {
        SpecToken::Elif => {
            let c = p_bool_expr(ts, i + 1, sym);
            match c.res {
                Err(e) => fail(e, c.pos, c.sym),
                Ok(cond) => if !moved(ts, i, c.pos) {
                    stuck(ts, i, sym)
                } else {
                    let b = p_block(ts, c.pos, c.sym);
                    match b.res {
                        Err(e) => fail(e, b.pos, b.sym),
                        Ok(then_branch) => if !moved(ts, i, b.pos) {
                            stuck(ts, i, sym)
                        } else {
                            let t = p_ifstatement_trail(ts, b.pos, b.sym);
                            match t.res {
                                Err(e) => fail(e, t.pos, t.sym),
                                Ok(else_branch) => ok(
                                    Some(
                                        SpecAst::IfStatement {
                                            cond: Box::new(cond),
                                            then_branch: Box::new(then_branch),
                                            else_branch: match else_branch {
                                                Some(e) => Some(Box::new(e)),
                                                None => None,
                                            },
                                        },
                                    ),
                                    t.pos,
                                    t.sym,
                                ),
                            }
                        },
                    }
                },
            }
        },
        SpecToken::Else => {
            let b = p_block(ts, i + 1, sym);
            match b.res {
                Err(e) => fail(e, b.pos, b.sym),
                Ok(else_branch) => ok(Some(else_branch), b.pos, b.sym),
            }
        },
        _ => ok(None, i, sym),
    }
}

/// WhileStatement ::= 'while' BoolExpr Block
pub open spec fn p_whilestatement(ts: Seq<SpecToken>, i: int, sym: Scopes) -> Parsed<SpecAst>
    decreases ts.len() - i, 85int,
{
    let c = p_bool_expr(ts, expect_at(ts, i, SpecToken::While), sym);
    match c.res {
        Err(e) => fail(e, c.pos, c.sym),
        Ok(cond) => if !moved(ts, i, c.pos) {
            stuck(ts, i, sym)
        } else {
            let b = p_block(ts, c.pos, c.sym);
            match b.res {
                Err(e) => fail(e, b.pos, b.sym),
                Ok(body) => ok(SpecAst::WhileLoop { cond: Box::new(cond), body: Box::new(body) }, b.pos, b.sym),
            }
        },
    }
}

/// ForStatement ::= 'for' Identifier 'in' Expr Block
pub open spec fn p_forstatement(ts: Seq<SpecToken>, i: int, sym: Scopes) -> Parsed<SpecAst>
    decreases ts.len() - i, 85int,
{
    let j = expect_at(ts, i, SpecToken::For);
    match tok(ts, j) {
        SpecToken::Identifier(name) => {
            let it = p_expression(ts, expect_at(ts, j + 1, SpecToken::In), sym);
            match it.res {
                Err(e) => fail(e, it.pos, it.sym),
                Ok(itr) => if !moved(ts, i, it.pos) {
                    stuck(ts, i, sym)
                } else {
                    let b = p_block(ts, it.pos, it.sym);
                    match b.res {
                        Err(e) => fail(e, b.pos, b.sym),
                        Ok(body) => ok(
                            SpecAst::ForLoop {
                                itr: Box::new(itr),
                                var: Box::new(ident(name)),
                                body: Box::new(body),
                            },
                            b.pos,
                            b.sym,
                        ),
                    }
                },
            }
        },
        t => fail(SpecParseError::ExpectedIdentifier(t), j, sym),
    }
}

/// Function ::= 'def' Identifier '(' Params ')' Block   (declares the name,
/// once the body is read)
pub open spec fn p_function_def(ts: Seq<SpecToken>, i: int, sym: Scopes) -> Parsed<SpecAst>
    decreases ts.len() - i, 85int,
{
    let j = expect_at(ts, i, SpecToken::Def);
    match tok(ts, j) {
        SpecToken::Identifier(name) => {
            let ps = p_params(ts, expect_at(ts, j + 1, SpecToken::LParen), sym);
            match ps.res {
                Err(e) => fail(e, ps.pos, ps.sym),
                Ok(params) => {
                    let m = expect_at(ts, ps.pos, SpecToken::RParen);
                    if !moved(ts, i, m) {
                        stuck(ts, i, sym)
                    } else {
                        let b = p_block(ts, m, sym);
                        match b.res {
                            Err(e) => fail(e, b.pos, b.sym),
                            Ok(body) => ok(
                                SpecAst::FunctionDef { name: Box::new(ident(name)), params, body: Box::new(body) },
                                b.pos,
                                declare(b.sym, name),
                            ),
                        }
                    }
                },
            }
        },
        t => fail(SpecParseError::ExpectedIdentifier(t), j, sym),
    }
}

} // verus!
