//! What every parse of a program keeps.
use vstd::prelude::*;

use crate::parser::grammar::{
    expect_at, moved, p_add_sub, p_add_sub_tail, p_and, p_and_tail, p_arg_term, p_args, p_args_trail,
    p_arithmetic, p_array, p_array_elements, p_array_elements_trail, p_assignment, p_bool_and,
    p_bool_and_tail, p_bool_expr, p_bool_or, p_bool_or_tail, p_bool_term, p_call, p_comp, p_comp_tail,
    p_expression, p_letbinding, p_literal, p_mul_div, p_mul_div_tail, p_or, p_or_tail, p_primary,
    p_statements, p_statements_from, tok, Scopes, p_statement, p_block, p_control_flow, p_return,
    p_ifstatement, p_ifstatement_trail, p_whilestatement, p_forstatement, p_function_def,
};
use crate::symbol::{declare, declared, lemma_declared_after_declare};
use crate::token::SpecToken;
use crate::tree::SpecAst;

verus! {

proof fn lemma_statements_from_stop(ts: Seq<SpecToken>, i: int, sym: Scopes, acc: Seq<SpecAst>)
    ensures
        ({
            let x = p_statements_from(ts, i, sym, acc);
            x.res is Ok ==> tok(ts, x.pos) == SpecToken::RBrace || tok(ts, x.pos) == SpecToken::Eof
        }),
    decreases ts.len() - i,
{
    if !(tok(ts, i) == SpecToken::RBrace || tok(ts, i) == SpecToken::Eof) {
        let s = crate::parser::grammar::p_statement(ts, i, sym);
        if let Ok(st) = s.res {
            if crate::parser::grammar::moved(ts, i, s.pos) {
                lemma_statements_from_stop(ts, s.pos, s.sym, acc.push(st));
            }
        }
    }
}

/// A list of statements that parses ends just before a closing brace or at
/// the end of the input: a program is read up to its end, unless a `}` has
/// nothing to close.
pub proof fn lemma_statements_stop(ts: Seq<SpecToken>, i: int, sym: Scopes)
    ensures
        ({
            let x = p_statements(ts, i, sym);
            x.res is Ok ==> tok(ts, x.pos) == SpecToken::RBrace || tok(ts, x.pos) == SpecToken::Eof
        }),
{
    lemma_statements_from_stop(ts, i, sym, seq![]);
}

/// Parsing an expression never declares a name: only `let` statements and
/// function definitions do.
pub proof fn lemma_expression_keeps_names(ts: Seq<SpecToken>, i: int, sym: Scopes)
    ensures
        p_expression(ts, i, sym).sym == sym,
    decreases ts.len() - i, 40int,
{
    lemma_assignment_keeps(ts, i, sym);
}

proof fn lemma_assignment_keeps(ts: Seq<SpecToken>, i: int, sym: Scopes)
    ensures
        p_assignment(ts, i, sym).sym == sym,
    decreases ts.len() - i, 39int,
{
    if tok(ts, i) is Identifier && tok(ts, i + 1) == SpecToken::Assign {
        lemma_expression_keeps_names(ts, i + 2, sym);
    } else {
        lemma_arithmetic_keeps(ts, i, sym);
    }
}

proof fn lemma_arithmetic_keeps(ts: Seq<SpecToken>, i: int, sym: Scopes)
    ensures
        p_arithmetic(ts, i, sym).sym == sym,
    decreases ts.len() - i, 38int,
{
    lemma_or_keeps(ts, i, sym);
}

proof fn lemma_or_keeps(ts: Seq<SpecToken>, i: int, sym: Scopes)
    ensures
        p_or(ts, i, sym).sym == sym,
    decreases ts.len() - i, 37int,
{
    lemma_and_keeps(ts, i, sym);
    let l = p_and(ts, i, sym);
    if let Ok(lhs) = l.res {
        if moved(ts, i, l.pos) {
            lemma_or_tail_keeps(ts, l.pos, l.sym, lhs);
        }
    }
}

proof fn lemma_or_tail_keeps(ts: Seq<SpecToken>, i: int, sym: Scopes, lhs: SpecAst)
    ensures
        p_or_tail(ts, i, sym, lhs).sym == sym,
    decreases ts.len() - i, 36int,
{
    if tok(ts, i) == SpecToken::Or {
        lemma_and_keeps(ts, i + 1, sym);
        let r = p_and(ts, i + 1, sym);
        if let Ok(rhs) = r.res {
            if moved(ts, i, r.pos) {
                lemma_or_tail_keeps(ts, r.pos, r.sym, crate::parser::grammar::bin(crate::ops::Operation::Or, lhs, rhs));
            }
        }
    }
}

proof fn lemma_and_keeps(ts: Seq<SpecToken>, i: int, sym: Scopes)
    ensures
        p_and(ts, i, sym).sym == sym,
    decreases ts.len() - i, 35int,
{
    lemma_comp_keeps(ts, i, sym);
    let l = p_comp(ts, i, sym);
    if let Ok(lhs) = l.res {
        if moved(ts, i, l.pos) {
            lemma_and_tail_keeps(ts, l.pos, l.sym, lhs);
        }
    }
}

proof fn lemma_and_tail_keeps(ts: Seq<SpecToken>, i: int, sym: Scopes, lhs: SpecAst)
    ensures
        p_and_tail(ts, i, sym, lhs).sym == sym,
    decreases ts.len() - i, 34int,
{
    if tok(ts, i) == SpecToken::And {
        lemma_comp_keeps(ts, i + 1, sym);
        let r = p_comp(ts, i + 1, sym);
        if let Ok(rhs) = r.res {
            if moved(ts, i, r.pos) {
                lemma_and_tail_keeps(ts, r.pos, r.sym, crate::parser::grammar::bin(crate::ops::Operation::And, lhs, rhs));
            }
        }
    }
}

proof fn lemma_comp_keeps(ts: Seq<SpecToken>, i: int, sym: Scopes)
    ensures
        p_comp(ts, i, sym).sym == sym,
    decreases ts.len() - i, 33int,
{
    lemma_add_sub_keeps(ts, i, sym);
    let l = p_add_sub(ts, i, sym);
    if let Ok(lhs) = l.res {
        if moved(ts, i, l.pos) {
            lemma_comp_tail_keeps(ts, l.pos, l.sym, lhs);
        }
    }
}

proof fn lemma_comp_tail_keeps(ts: Seq<SpecToken>, i: int, sym: Scopes, lhs: SpecAst)
    ensures
        p_comp_tail(ts, i, sym, lhs).sym == sym,
    decreases ts.len() - i, 32int,
{
    if let Some(op) = crate::parser::grammar::comparison_op(tok(ts, i)) {
        lemma_add_sub_keeps(ts, i + 1, sym);
        let r = p_add_sub(ts, i + 1, sym);
        if let Ok(rhs) = r.res {
            if moved(ts, i, r.pos) {
                lemma_comp_tail_keeps(ts, r.pos, r.sym, crate::parser::grammar::bin(op, lhs, rhs));
            }
        }
    }
}

proof fn lemma_add_sub_keeps(ts: Seq<SpecToken>, i: int, sym: Scopes)
    ensures
        p_add_sub(ts, i, sym).sym == sym,
    decreases ts.len() - i, 31int,
{
    lemma_mul_div_keeps(ts, i, sym);
    let l = p_mul_div(ts, i, sym);
    if let Ok(lhs) = l.res {
        if moved(ts, i, l.pos) {
            lemma_add_sub_tail_keeps(ts, l.pos, l.sym, lhs);
        }
    }
}

proof fn lemma_add_sub_tail_keeps(ts: Seq<SpecToken>, i: int, sym: Scopes, lhs: SpecAst)
    ensures
        p_add_sub_tail(ts, i, sym, lhs).sym == sym,
    decreases ts.len() - i, 30int,
{
    if let Some(op) = crate::parser::grammar::additive_op(tok(ts, i)) {
        lemma_mul_div_keeps(ts, i + 1, sym);
        let r = p_mul_div(ts, i + 1, sym);
        if let Ok(rhs) = r.res {
            if moved(ts, i, r.pos) {
                lemma_add_sub_tail_keeps(ts, r.pos, r.sym, crate::parser::grammar::bin(op, lhs, rhs));
            }
        }
    }
}

proof fn lemma_mul_div_keeps(ts: Seq<SpecToken>, i: int, sym: Scopes)
    ensures
        p_mul_div(ts, i, sym).sym == sym,
    decreases ts.len() - i, 29int,
{
    lemma_primary_keeps(ts, i, sym);
    let l = p_primary(ts, i, sym);
    if let Ok(lhs) = l.res {
        if moved(ts, i, l.pos) {
            lemma_mul_div_tail_keeps(ts, l.pos, l.sym, lhs);
        }
    }
}

proof fn lemma_mul_div_tail_keeps(ts: Seq<SpecToken>, i: int, sym: Scopes, lhs: SpecAst)
    ensures
        p_mul_div_tail(ts, i, sym, lhs).sym == sym,
    decreases ts.len() - i, 28int,
{
    if let Some(op) = crate::parser::grammar::multiplicative_op(tok(ts, i)) {
        lemma_primary_keeps(ts, i + 1, sym);
        let r = p_primary(ts, i + 1, sym);
        if let Ok(rhs) = r.res {
            if moved(ts, i, r.pos) {
                lemma_mul_div_tail_keeps(ts, r.pos, r.sym, crate::parser::grammar::bin(op, lhs, rhs));
            }
        }
    }
}

proof fn lemma_primary_keeps(ts: Seq<SpecToken>, i: int, sym: Scopes)
    ensures
        p_primary(ts, i, sym).sym == sym,
    decreases ts.len() - i, 27int,
{
    match tok(ts, i) {
        SpecToken::Identifier(_) => {
            if tok(ts, i + 1) == SpecToken::LParen {
                lemma_call_keeps(ts, i, sym);
            }
        },
        SpecToken::LParen => {
            lemma_expression_keeps_names(ts, i + 1, sym);
        },
        SpecToken::Array | SpecToken::String(_) | SpecToken::Int(_) | SpecToken::Bool(_) => {
            lemma_literal_keeps(ts, i, sym);
        },
        _ => {},
    }
}

proof fn lemma_call_keeps(ts: Seq<SpecToken>, i: int, sym: Scopes)
    ensures
        p_call(ts, i, sym).sym == sym,
    decreases ts.len() - i, 26int,
{
    if let SpecToken::Identifier(name) = tok(ts, i) {
        lemma_args_keeps(ts, expect_at(ts, i + 1, SpecToken::LParen), sym);
    }
}

proof fn lemma_args_keeps(ts: Seq<SpecToken>, i: int, sym: Scopes)
    ensures
        p_args(ts, i, sym).sym == sym,
    decreases ts.len() - i, 48int,
{
    if tok(ts, i) != SpecToken::RParen {
        lemma_arg_term_keeps(ts, i, sym);
        let t = p_arg_term(ts, i, sym);
        if let Ok(a) = t.res {
            if moved(ts, i, t.pos) {
                lemma_args_trail_keeps(ts, t.pos, t.sym, seq![a]);
            }
        }
    }
}

proof fn lemma_args_trail_keeps(ts: Seq<SpecToken>, i: int, sym: Scopes, acc: Seq<SpecAst>)
    ensures
        p_args_trail(ts, i, sym, acc).sym == sym,
    decreases ts.len() - i, 47int,
{
    if tok(ts, i) == SpecToken::Comma {
        lemma_arg_term_keeps(ts, i + 1, sym);
        let t = p_arg_term(ts, i + 1, sym);
        if let Ok(a) = t.res {
            if moved(ts, i, t.pos) {
                lemma_args_trail_keeps(ts, t.pos, t.sym, acc.push(a));
            }
        }
    }
}

proof fn lemma_arg_term_keeps(ts: Seq<SpecToken>, i: int, sym: Scopes)
    ensures
        p_arg_term(ts, i, sym).sym == sym,
    decreases ts.len() - i, 46int,
{
    match tok(ts, i) {
        SpecToken::String(_) | SpecToken::Int(_) | SpecToken::Bool(_) => lemma_literal_keeps(ts, i, sym),
        _ => {},
    }
}

proof fn lemma_literal_keeps(ts: Seq<SpecToken>, i: int, sym: Scopes)
    ensures
        p_literal(ts, i, sym).sym == sym,
    decreases ts.len() - i, 22int,
{
    if tok(ts, i) == SpecToken::Array {
        lemma_array_keeps(ts, i, sym);
    }
}

proof fn lemma_array_keeps(ts: Seq<SpecToken>, i: int, sym: Scopes)
    ensures
        p_array(ts, i, sym).sym == sym,
    decreases ts.len() - i, 21int,
{
    if tok(ts, i) == SpecToken::Array && tok(ts, i + 1) == SpecToken::LBracket {
        lemma_array_elements_keeps(ts, i + 2, sym);
    }
}

proof fn lemma_array_elements_keeps(ts: Seq<SpecToken>, i: int, sym: Scopes)
    ensures
        p_array_elements(ts, i, sym).sym == sym,
    decreases ts.len() - i, 50int,
{
    if tok(ts, i) != SpecToken::RBracket {
        lemma_expression_keeps_names(ts, i, sym);
        let x = p_expression(ts, i, sym);
        if let Ok(first) = x.res {
            if moved(ts, i, x.pos) {
                lemma_array_elements_trail_keeps(ts, x.pos, x.sym, seq![first]);
            }
        }
    }
}

proof fn lemma_array_elements_trail_keeps(ts: Seq<SpecToken>, i: int, sym: Scopes, acc: Seq<SpecAst>)
    ensures
        p_array_elements_trail(ts, i, sym, acc).sym == sym,
    decreases ts.len() - i, 49int,
{
    if tok(ts, i) == SpecToken::Comma {
        lemma_expression_keeps_names(ts, i + 1, sym);
        let x = p_expression(ts, i + 1, sym);
        if let Ok(v) = x.res {
            if moved(ts, i, x.pos) {
                lemma_array_elements_trail_keeps(ts, x.pos, x.sym, acc.push(v));
            }
        }
    }
}

/// Parsing a boolean expression never declares a name either.
pub proof fn lemma_bool_expression_keeps_names(ts: Seq<SpecToken>, i: int, sym: Scopes)
    ensures
        p_bool_expr(ts, i, sym).sym == sym,
    decreases ts.len() - i, 70int,
{
    lemma_bool_or_keeps(ts, i, sym);
}

proof fn lemma_bool_or_keeps(ts: Seq<SpecToken>, i: int, sym: Scopes)
    ensures
        p_bool_or(ts, i, sym).sym == sym,
    decreases ts.len() - i, 69int,
{
    lemma_bool_and_keeps(ts, i, sym);
    let l = p_bool_and(ts, i, sym);
    if let Ok(lhs) = l.res {
        if moved(ts, i, l.pos) {
            lemma_bool_or_tail_keeps(ts, l.pos, l.sym, lhs);
        }
    }
}

proof fn lemma_bool_or_tail_keeps(ts: Seq<SpecToken>, i: int, sym: Scopes, lhs: SpecAst)
    ensures
        p_bool_or_tail(ts, i, sym, lhs).sym == sym,
    decreases ts.len() - i, 68int,
{
    if tok(ts, i) == SpecToken::Or {
        lemma_bool_and_keeps(ts, i + 1, sym);
        let r = p_bool_and(ts, i + 1, sym);
        if let Ok(rhs) = r.res {
            if moved(ts, i, r.pos) {
                lemma_bool_or_tail_keeps(ts, r.pos, r.sym, crate::parser::grammar::bin(crate::ops::Operation::Or, lhs, rhs));
            }
        }
    }
}

proof fn lemma_bool_and_keeps(ts: Seq<SpecToken>, i: int, sym: Scopes)
    ensures
        p_bool_and(ts, i, sym).sym == sym,
    decreases ts.len() - i, 67int,
{
    lemma_bool_term_keeps(ts, i, sym);
    let l = p_bool_term(ts, i, sym);
    if let Ok(lhs) = l.res {
        if moved(ts, i, l.pos) {
            lemma_bool_and_tail_keeps(ts, l.pos, l.sym, lhs);
        }
    }
}

proof fn lemma_bool_and_tail_keeps(ts: Seq<SpecToken>, i: int, sym: Scopes, lhs: SpecAst)
    ensures
        p_bool_and_tail(ts, i, sym, lhs).sym == sym,
    decreases ts.len() - i, 66int,
{
    if tok(ts, i) == SpecToken::And {
        lemma_bool_term_keeps(ts, i + 1, sym);
        let r = p_bool_term(ts, i + 1, sym);
        if let Ok(rhs) = r.res {
            if moved(ts, i, r.pos) {
                lemma_bool_and_tail_keeps(ts, r.pos, r.sym, crate::parser::grammar::bin(crate::ops::Operation::And, lhs, rhs));
            }
        }
    }
}

proof fn lemma_bool_term_keeps(ts: Seq<SpecToken>, i: int, sym: Scopes)
    ensures
        p_bool_term(ts, i, sym).sym == sym,
    decreases ts.len() - i, 65int,
{
    if tok(ts, i) == SpecToken::LParen {
        lemma_bool_expression_keeps_names(ts, i + 1, sym);
    }
}

/// A `let` statement declares exactly the name it binds, in the innermost
/// scope, once its value has been read.
pub proof fn lemma_let_declares(ts: Seq<SpecToken>, i: int, sym: Scopes)
    ensures
        ({
            let x = p_letbinding(ts, i, sym);
            match tok(ts, expect_at(ts, i, SpecToken::Let)) {
                SpecToken::Identifier(name) => x.res is Ok ==> x.sym == declare(sym, name),
                _ => x.res is Err && x.sym == sym,
            }
        }),
{
    let j = expect_at(ts, i, SpecToken::Let);
    if let SpecToken::Identifier(name) = tok(ts, j) {
        lemma_expression_keeps_names(ts, expect_at(ts, j + 1, SpecToken::Assign), sym);
    }
}

/// Parsing statements never adds or removes scopes of declared names.
pub proof fn lemma_statements_keep_scopes(ts: Seq<SpecToken>, i: int, sym: Scopes)
    ensures
        p_statements(ts, i, sym).sym.len() == sym.len(),
    decreases ts.len() - i, 89int,
{
    lemma_statements_from_scopes(ts, i, sym, seq![]);
}

proof fn lemma_statements_from_scopes(ts: Seq<SpecToken>, i: int, sym: Scopes, acc: Seq<SpecAst>)
    ensures
        p_statements_from(ts, i, sym, acc).sym.len() == sym.len(),
    decreases ts.len() - i, 88int,
{
    if !(tok(ts, i) == SpecToken::RBrace || tok(ts, i) == SpecToken::Eof) {
        lemma_statement_scopes(ts, i, sym);
        let s = p_statement(ts, i, sym);
        if let Ok(st) = s.res {
            if moved(ts, i, s.pos) {
                lemma_statements_from_scopes(ts, s.pos, s.sym, acc.push(st));
            }
        }
    }
}

proof fn lemma_statement_scopes(ts: Seq<SpecToken>, i: int, sym: Scopes)
    ensures
        p_statement(ts, i, sym).sym.len() == sym.len(),
    decreases ts.len() - i, 87int,
{
    match tok(ts, i) {
        SpecToken::If | SpecToken::While | SpecToken::For | SpecToken::Return => lemma_control_flow_scopes(ts, i, sym),
        SpecToken::Def => lemma_function_def_scopes(ts, i, sym),
        SpecToken::Let => {
            let j = expect_at(ts, i, SpecToken::Let);
            if let SpecToken::Identifier(name) = tok(ts, j) {
                lemma_expression_keeps_names(ts, expect_at(ts, j + 1, SpecToken::Assign), sym);
            }
        },
        SpecToken::LBrace => lemma_block_scopes(ts, i, sym),
        _ => lemma_expression_keeps_names(ts, i, sym),
    }
}

proof fn lemma_block_scopes(ts: Seq<SpecToken>, i: int, sym: Scopes)
    ensures
        p_block(ts, i, sym).sym.len() == sym.len(),
    decreases ts.len() - i, crate::parser::grammar::block_rank(ts, i),
{
    lemma_statements_keep_scopes(ts, expect_at(ts, i, SpecToken::LBrace), sym);
}

proof fn lemma_control_flow_scopes(ts: Seq<SpecToken>, i: int, sym: Scopes)
    ensures
        p_control_flow(ts, i, sym).sym.len() == sym.len(),
    decreases ts.len() - i, 86int,
{
    match tok(ts, i) {
        SpecToken::If => lemma_if_scopes(ts, i, sym),
        SpecToken::While => lemma_while_scopes(ts, i, sym),
        SpecToken::For => lemma_for_scopes(ts, i, sym),
        SpecToken::Return => lemma_expression_keeps_names(ts, expect_at(ts, i, SpecToken::Return), sym),
        _ => {},
    }
}

proof fn lemma_if_scopes(ts: Seq<SpecToken>, i: int, sym: Scopes)
    ensures
        p_ifstatement(ts, i, sym).sym.len() == sym.len(),
    decreases ts.len() - i, 85int,
{
    let c = p_bool_expr(ts, expect_at(ts, i, SpecToken::If), sym);
    lemma_bool_expression_keeps_names(ts, expect_at(ts, i, SpecToken::If), sym);
    if c.res is Ok && moved(ts, i, c.pos) {
        lemma_block_scopes(ts, c.pos, c.sym);
        let b = p_block(ts, c.pos, c.sym);
        if b.res is Ok && moved(ts, i, b.pos) {
            lemma_if_trail_scopes(ts, b.pos, b.sym);
        }
    }
}

proof fn lemma_if_trail_scopes(ts: Seq<SpecToken>, i: int, sym: Scopes)
    ensures
        p_ifstatement_trail(ts, i, sym).sym.len() == sym.len(),
    decreases ts.len() - i, 83int,
{
    match tok(ts, i) {
        SpecToken::Elif => {
            let c = p_bool_expr(ts, i + 1, sym);
            lemma_bool_expression_keeps_names(ts, i + 1, sym);
            if c.res is Ok && moved(ts, i, c.pos) {
                lemma_block_scopes(ts, c.pos, c.sym);
                let b = p_block(ts, c.pos, c.sym);
                if b.res is Ok && moved(ts, i, b.pos) {
                    lemma_if_trail_scopes(ts, b.pos, b.sym);
                }
            }
        },
        SpecToken::Else => lemma_block_scopes(ts, i + 1, sym),
        _ => {},
    }
}

proof fn lemma_while_scopes(ts: Seq<SpecToken>, i: int, sym: Scopes)
    ensures
        p_whilestatement(ts, i, sym).sym.len() == sym.len(),
    decreases ts.len() - i, 85int,
{
    let c = p_bool_expr(ts, expect_at(ts, i, SpecToken::While), sym);
    lemma_bool_expression_keeps_names(ts, expect_at(ts, i, SpecToken::While), sym);
    if c.res is Ok && moved(ts, i, c.pos) {
        lemma_block_scopes(ts, c.pos, c.sym);
    }
}

proof fn lemma_for_scopes(ts: Seq<SpecToken>, i: int, sym: Scopes)
    ensures
        p_forstatement(ts, i, sym).sym.len() == sym.len(),
    decreases ts.len() - i, 85int,
{
    let j = expect_at(ts, i, SpecToken::For);
    if let SpecToken::Identifier(name) = tok(ts, j) {
        let k = expect_at(ts, j + 1, SpecToken::In);
        let it = p_expression(ts, k, sym);
        lemma_expression_keeps_names(ts, k, sym);
        if it.res is Ok && moved(ts, i, it.pos) {
            lemma_block_scopes(ts, it.pos, it.sym);
        }
    }
}

proof fn lemma_function_def_scopes(ts: Seq<SpecToken>, i: int, sym: Scopes)
    ensures
        p_function_def(ts, i, sym).sym.len() == sym.len(),
    decreases ts.len() - i, 85int,
{
    let j = expect_at(ts, i, SpecToken::Def);
    if let SpecToken::Identifier(name) = tok(ts, j) {
        let ps = crate::parser::grammar::p_params(ts, expect_at(ts, j + 1, SpecToken::LParen), sym);
        if ps.res is Ok {
            let m = expect_at(ts, ps.pos, SpecToken::RParen);
            if moved(ts, i, m) {
                lemma_block_scopes(ts, m, sym);
            }
        }
    }
}

/// A function definition declares its name once its body has been read, so
/// the statements after it can call it.
pub proof fn lemma_def_declares(ts: Seq<SpecToken>, i: int, sym: Scopes)
    requires
        sym.len() > 0,
    ensures
        ({
            let x = p_function_def(ts, i, sym);
            x.res is Ok ==> match tok(ts, expect_at(ts, i, SpecToken::Def)) {
                SpecToken::Identifier(name) => declared(x.sym, name),
                _ => false,
            }
        }),
{
    lemma_function_def_scopes(ts, i, sym);
    let j = expect_at(ts, i, SpecToken::Def);
    if let SpecToken::Identifier(name) = tok(ts, j) {
        let ps = crate::parser::grammar::p_params(ts, expect_at(ts, j + 1, SpecToken::LParen), sym);
        if ps.res is Ok {
            let m = expect_at(ts, ps.pos, SpecToken::RParen);
            if moved(ts, i, m) {
                lemma_block_scopes(ts, m, sym);
                let b = p_block(ts, m, sym);
                if b.res is Ok {
                    lemma_declared_after_declare(b.sym, name);
                }
            }
        }
    }
}

/// The tail of an `if` chain as an optional else branch of the tree.
pub open spec fn boxed(tail: Option<SpecAst>) -> Option<Box<SpecAst>> {
    match tail {
        Some(e) => Some(Box::new(e)),
        None => None,
    }
}

/// Nothing of an `if` chain is dropped. After `if c { .. }` or `elif c { .. }`,
/// whatever the rest of the chain parses to (further `elif`s, an `else`
/// block, or nothing) becomes the else branch of that condition's node, and
/// parsing goes on where the rest of the chain ended; `else { .. }` parses
/// to its block.
pub proof fn lemma_if_chain_kept(ts: Seq<SpecToken>, i: int, sym: Scopes)
    ensures
        tok(ts, i) == SpecToken::If ==> ({
            let x = p_ifstatement(ts, i, sym);
            let c = p_bool_expr(ts, i + 1, sym);
            let b = p_block(ts, c.pos, c.sym);
            let t = p_ifstatement_trail(ts, b.pos, b.sym);
            c.res is Ok && moved(ts, i, c.pos) && b.res is Ok && moved(ts, i, b.pos) && t.res is Ok ==> {
                &&& x.res == Ok::<SpecAst, crate::parser::error::SpecParseError>(
                    SpecAst::IfStatement {
                        cond: Box::new(c.res->Ok_0),
                        then_branch: Box::new(b.res->Ok_0),
                        else_branch: boxed(t.res->Ok_0),
                    },
                )
                &&& x.pos == t.pos
            }
        }),
        tok(ts, i) == SpecToken::Elif ==> ({
            let x = p_ifstatement_trail(ts, i, sym);
            let c = p_bool_expr(ts, i + 1, sym);
            let b = p_block(ts, c.pos, c.sym);
            let t = p_ifstatement_trail(ts, b.pos, b.sym);
            c.res is Ok && moved(ts, i, c.pos) && b.res is Ok && moved(ts, i, b.pos) && t.res is Ok ==> {
                &&& x.res == Ok::<Option<SpecAst>, crate::parser::error::SpecParseError>(
                    Some(
                        SpecAst::IfStatement {
                            cond: Box::new(c.res->Ok_0),
                            then_branch: Box::new(b.res->Ok_0),
                            else_branch: boxed(t.res->Ok_0),
                        },
                    ),
                )
                &&& x.pos == t.pos
            }
        }),
        tok(ts, i) == SpecToken::Else ==> ({
            let x = p_ifstatement_trail(ts, i, sym);
            let b = p_block(ts, i + 1, sym);
            b.res is Ok ==> x.res == Ok::<Option<SpecAst>, crate::parser::error::SpecParseError>(
                Some(b.res->Ok_0),
            ) && x.pos == b.pos
        }),
        !(tok(ts, i) == SpecToken::Elif || tok(ts, i) == SpecToken::Else) ==> p_ifstatement_trail(ts, i, sym).res
            == Ok::<Option<SpecAst>, crate::parser::error::SpecParseError>(None),
{
}

/// The tree of an integer literal.
pub open spec fn num(v: i32) -> SpecAst {
    SpecAst::Numeric { value: v }
}

/// Neither an operator nor a `(` or `[`: a token that ends an expression.
pub open spec fn ends_expression(t: SpecToken) -> bool {
    crate::parser::grammar::additive_op(t) is None && crate::parser::grammar::multiplicative_op(t) is None
        && crate::parser::grammar::comparison_op(t) is None && t != SpecToken::And && t != SpecToken::Or
}

/// An integer literal at `i` is a primary expression and a factor.
proof fn lemma_int_operand(ts: Seq<SpecToken>, i: int, sym: Scopes, v: i32)
    requires
        0 <= i,
        i + 1 <= ts.len(),
        tok(ts, i) == SpecToken::Int(v),
        crate::parser::grammar::multiplicative_op(tok(ts, i + 1)) is None,
    ensures
        p_mul_div(ts, i, sym) == crate::parser::grammar::ok(num(v), i + 1, sym),
{
    assert(p_literal(ts, i, sym) == crate::parser::grammar::ok(num(v), i + 1, sym));
    assert(p_primary(ts, i, sym) == crate::parser::grammar::ok(num(v), i + 1, sym));
    assert(p_mul_div_tail(ts, i + 1, sym, num(v)) == crate::parser::grammar::ok(num(v), i + 1, sym));
}

/// A sum or difference that is a whole expression: it is the whole
/// expression's tree.
proof fn lemma_sum_is_expression(ts: Seq<SpecToken>, i: int, j: int, sym: Scopes, e: SpecAst)
    requires
        0 <= i < j <= ts.len(),
        p_add_sub(ts, i, sym) == crate::parser::grammar::ok(e, j, sym),
        !(tok(ts, i) is Identifier),
        ends_expression(tok(ts, j)),
    ensures
        p_expression(ts, i, sym) == crate::parser::grammar::ok(e, j, sym),
{
    assert(p_comp_tail(ts, j, sym, e) == crate::parser::grammar::ok(e, j, sym));
    assert(p_comp(ts, i, sym) == crate::parser::grammar::ok(e, j, sym));
    assert(p_and_tail(ts, j, sym, e) == crate::parser::grammar::ok(e, j, sym));
    assert(p_and(ts, i, sym) == crate::parser::grammar::ok(e, j, sym));
    assert(p_or_tail(ts, j, sym, e) == crate::parser::grammar::ok(e, j, sym));
    assert(p_or(ts, i, sym) == crate::parser::grammar::ok(e, j, sym));
    assert(p_arithmetic(ts, i, sym) == crate::parser::grammar::ok(e, j, sym));
    assert(p_assignment(ts, i, sym) == crate::parser::grammar::ok(e, j, sym));
}

/// Additive operators group to the left: `x - y - z` (and any mix of `+`
/// and `-`) is `(x - y) - z`, wherever it stands and whatever ends it.
pub proof fn lemma_additive_groups_left(ts: Seq<SpecToken>, i: int, sym: Scopes, x: i32, y: i32, z: i32)
    requires
        0 <= i,
        i + 5 <= ts.len(),
        tok(ts, i) == SpecToken::Int(x),
        crate::parser::grammar::additive_op(tok(ts, i + 1)) is Some,
        tok(ts, i + 2) == SpecToken::Int(y),
        crate::parser::grammar::additive_op(tok(ts, i + 3)) is Some,
        tok(ts, i + 4) == SpecToken::Int(z),
        ends_expression(tok(ts, i + 5)),
    ensures
        p_expression(ts, i, sym) == crate::parser::grammar::ok(
            crate::parser::grammar::bin(
                crate::parser::grammar::additive_op(tok(ts, i + 3))->Some_0,
                crate::parser::grammar::bin(crate::parser::grammar::additive_op(tok(ts, i + 1))->Some_0, num(x), num(y)),
                num(z),
            ),
            i + 5,
            sym,
        ),
{
    let o1 = crate::parser::grammar::additive_op(tok(ts, i + 1))->Some_0;
    let o2 = crate::parser::grammar::additive_op(tok(ts, i + 3))->Some_0;
    lemma_int_operand(ts, i, sym, x);
    lemma_int_operand(ts, i + 2, sym, y);
    lemma_int_operand(ts, i + 4, sym, z);
    let e1 = crate::parser::grammar::bin(o1, num(x), num(y));
    let e2 = crate::parser::grammar::bin(o2, e1, num(z));
    assert(p_add_sub_tail(ts, i + 5, sym, e2) == crate::parser::grammar::ok(e2, i + 5, sym));
    assert(p_add_sub_tail(ts, i + 3, sym, e1) == crate::parser::grammar::ok(e2, i + 5, sym));
    assert(p_add_sub_tail(ts, i + 1, sym, num(x)) == crate::parser::grammar::ok(e2, i + 5, sym));
    assert(p_add_sub(ts, i, sym) == crate::parser::grammar::ok(e2, i + 5, sym));
    lemma_sum_is_expression(ts, i, i + 5, sym, e2);
}

/// Multiplicative operators bind tighter than additive ones: `x + y * z`
/// (any of `+ -` with any of `* / %`) is `x + (y * z)`.
pub proof fn lemma_product_binds_tighter(ts: Seq<SpecToken>, i: int, sym: Scopes, x: i32, y: i32, z: i32)
    requires
        0 <= i,
        i + 5 <= ts.len(),
        tok(ts, i) == SpecToken::Int(x),
        crate::parser::grammar::additive_op(tok(ts, i + 1)) is Some,
        tok(ts, i + 2) == SpecToken::Int(y),
        crate::parser::grammar::multiplicative_op(tok(ts, i + 3)) is Some,
        tok(ts, i + 4) == SpecToken::Int(z),
        ends_expression(tok(ts, i + 5)),
    ensures
        p_expression(ts, i, sym) == crate::parser::grammar::ok(
            crate::parser::grammar::bin(
                crate::parser::grammar::additive_op(tok(ts, i + 1))->Some_0,
                num(x),
                crate::parser::grammar::bin(
                    crate::parser::grammar::multiplicative_op(tok(ts, i + 3))->Some_0,
                    num(y),
                    num(z),
                ),
            ),
            i + 5,
            sym,
        ),
{
    let o1 = crate::parser::grammar::additive_op(tok(ts, i + 1))->Some_0;
    let o2 = crate::parser::grammar::multiplicative_op(tok(ts, i + 3))->Some_0;
    lemma_int_operand(ts, i, sym, x);
    lemma_int_operand(ts, i + 4, sym, z);
    let m = crate::parser::grammar::bin(o2, num(y), num(z));
    let e = crate::parser::grammar::bin(o1, num(x), m);
    assert(p_literal(ts, i + 2, sym) == crate::parser::grammar::ok(num(y), i + 3, sym));
    assert(p_primary(ts, i + 2, sym) == crate::parser::grammar::ok(num(y), i + 3, sym));
    assert(p_primary(ts, i + 4, sym) == crate::parser::grammar::ok(num(z), i + 5, sym));
    assert(p_mul_div_tail(ts, i + 5, sym, m) == crate::parser::grammar::ok(m, i + 5, sym));
    assert(p_mul_div_tail(ts, i + 3, sym, num(y)) == crate::parser::grammar::ok(m, i + 5, sym));
    assert(p_mul_div(ts, i + 2, sym) == crate::parser::grammar::ok(m, i + 5, sym));
    assert(p_add_sub_tail(ts, i + 5, sym, e) == crate::parser::grammar::ok(e, i + 5, sym));
    assert(p_add_sub_tail(ts, i + 1, sym, num(x)) == crate::parser::grammar::ok(e, i + 5, sym));
    assert(p_add_sub(ts, i, sym) == crate::parser::grammar::ok(e, i + 5, sym));
    lemma_sum_is_expression(ts, i, i + 5, sym, e);
}

/// A comparison of two integers parses to the operation of its comparison
/// token, with the operands in their order: `x < y` is `Lt(x, y)`, `x <= y`
/// is `Le(x, y)`, and so on.
pub proof fn lemma_comparison_tree(ts: Seq<SpecToken>, i: int, sym: Scopes, x: i32, y: i32)
    requires
        0 <= i,
        i + 3 <= ts.len(),
        tok(ts, i) == SpecToken::Int(x),
        crate::parser::grammar::comparison_op(tok(ts, i + 1)) is Some,
        tok(ts, i + 2) == SpecToken::Int(y),
        ends_expression(tok(ts, i + 3)),
    ensures
        p_expression(ts, i, sym) == crate::parser::grammar::ok(
            crate::parser::grammar::bin(
                crate::parser::grammar::comparison_op(tok(ts, i + 1))->Some_0,
                num(x),
                num(y),
            ),
            i + 3,
            sym,
        ),
        tok(ts, i + 1) == SpecToken::LessThan ==> crate::parser::grammar::comparison_op(tok(ts, i + 1)) == Some(
            crate::ops::Operation::Lt,
        ),
        tok(ts, i + 1) == SpecToken::LessEqual ==> crate::parser::grammar::comparison_op(tok(ts, i + 1)) == Some(
            crate::ops::Operation::Le,
        ),
        tok(ts, i + 1) == SpecToken::GreaterThan ==> crate::parser::grammar::comparison_op(tok(ts, i + 1)) == Some(
            crate::ops::Operation::Gt,
        ),
        tok(ts, i + 1) == SpecToken::GreaterEqual ==> crate::parser::grammar::comparison_op(tok(ts, i + 1))
            == Some(crate::ops::Operation::Ge),
        tok(ts, i + 1) == SpecToken::Equal ==> crate::parser::grammar::comparison_op(tok(ts, i + 1)) == Some(
            crate::ops::Operation::Eq,
        ),
{
    let op = crate::parser::grammar::comparison_op(tok(ts, i + 1))->Some_0;
    lemma_int_operand(ts, i, sym, x);
    lemma_int_operand(ts, i + 2, sym, y);
    let e = crate::parser::grammar::bin(op, num(x), num(y));
    assert(p_add_sub_tail(ts, i + 1, sym, num(x)) == crate::parser::grammar::ok(num(x), i + 1, sym));
    assert(p_add_sub(ts, i, sym) == crate::parser::grammar::ok(num(x), i + 1, sym));
    assert(p_add_sub_tail(ts, i + 3, sym, num(y)) == crate::parser::grammar::ok(num(y), i + 3, sym));
    assert(p_add_sub(ts, i + 2, sym) == crate::parser::grammar::ok(num(y), i + 3, sym));
    assert(p_comp_tail(ts, i + 3, sym, e) == crate::parser::grammar::ok(e, i + 3, sym));
    assert(p_comp_tail(ts, i + 1, sym, num(x)) == crate::parser::grammar::ok(e, i + 3, sym));
    assert(p_comp(ts, i, sym) == crate::parser::grammar::ok(e, i + 3, sym));
    assert(p_and_tail(ts, i + 3, sym, e) == crate::parser::grammar::ok(e, i + 3, sym));
    assert(p_and(ts, i, sym) == crate::parser::grammar::ok(e, i + 3, sym));
    assert(p_or_tail(ts, i + 3, sym, e) == crate::parser::grammar::ok(e, i + 3, sym));
    assert(p_or(ts, i, sym) == crate::parser::grammar::ok(e, i + 3, sym));
    assert(p_arithmetic(ts, i, sym) == crate::parser::grammar::ok(e, i + 3, sym));
}

/// An integer literal that ends an expression is that expression.
proof fn lemma_int_expression(ts: Seq<SpecToken>, i: int, sym: Scopes, v: i32)
    requires
        0 <= i,
        i + 1 <= ts.len(),
        tok(ts, i) == SpecToken::Int(v),
        ends_expression(tok(ts, i + 1)),
    ensures
        p_expression(ts, i, sym) == crate::parser::grammar::ok(num(v), i + 1, sym),
{
    lemma_int_operand(ts, i, sym, v);
    assert(p_add_sub_tail(ts, i + 1, sym, num(v)) == crate::parser::grammar::ok(num(v), i + 1, sym));
    assert(p_add_sub(ts, i, sym) == crate::parser::grammar::ok(num(v), i + 1, sym));
    lemma_sum_is_expression(ts, i, i + 1, sym, num(v));
}

/// Statements, array elements and call arguments keep their order: `x; y;`
/// is the statements `[x, y]`, `array[x, y]` the array `[x, y]`, and the
/// arguments `x, y)` the list `[x, y]`.
pub proof fn lemma_lists_keep_order(ts: Seq<SpecToken>, i: int, sym: Scopes, x: i32, y: i32)
    requires
        0 <= i,
        i + 4 <= ts.len(),
    ensures
        (tok(ts, i) == SpecToken::Int(x) && tok(ts, i + 1) == SpecToken::Semicolon && tok(ts, i + 2)
            == SpecToken::Int(y) && tok(ts, i + 3) == SpecToken::Semicolon && (tok(ts, i + 4) == SpecToken::Eof
            || tok(ts, i + 4) == SpecToken::RBrace)) ==> p_statements(ts, i, sym) == crate::parser::grammar::ok(
            SpecAst::Statements { stmts: seq![num(x), num(y)] },
            i + 4,
            sym,
        ),
        (tok(ts, i) == SpecToken::Int(x) && tok(ts, i + 1) == SpecToken::Comma && tok(ts, i + 2) == SpecToken::Int(y)
            && tok(ts, i + 3) == SpecToken::RBracket) ==> p_array_elements(ts, i, sym) == crate::parser::grammar::ok(
            seq![num(x), num(y)],
            i + 3,
            sym,
        ),
        (tok(ts, i) == SpecToken::Int(x) && tok(ts, i + 1) == SpecToken::Comma && tok(ts, i + 2) == SpecToken::Int(y)
            && tok(ts, i + 3) == SpecToken::RParen) ==> p_args(ts, i, sym) == crate::parser::grammar::ok(
            seq![num(x), num(y)],
            i + 3,
            sym,
        ),
{
    if tok(ts, i) == SpecToken::Int(x) && tok(ts, i + 2) == SpecToken::Int(y) {
        if tok(ts, i + 1) == SpecToken::Semicolon && tok(ts, i + 3) == SpecToken::Semicolon && (tok(ts, i + 4)
            == SpecToken::Eof || tok(ts, i + 4) == SpecToken::RBrace) {
            lemma_int_expression(ts, i, sym, x);
            lemma_int_expression(ts, i + 2, sym, y);
            assert(p_statement(ts, i, sym) == crate::parser::grammar::ok(num(x), i + 2, sym));
            assert(p_statement(ts, i + 2, sym) == crate::parser::grammar::ok(num(y), i + 4, sym));
            assert(seq![num(x)] =~= Seq::<SpecAst>::empty().push(num(x)));
            assert(seq![num(x), num(y)] =~= seq![num(x)].push(num(y)));
            assert(p_statements_from(ts, i + 4, sym, seq![num(x), num(y)]) == crate::parser::grammar::ok(
                SpecAst::Statements { stmts: seq![num(x), num(y)] },
                i + 4,
                sym,
            ));
            assert(p_statements_from(ts, i + 2, sym, seq![num(x)]) == crate::parser::grammar::ok(
                SpecAst::Statements { stmts: seq![num(x), num(y)] },
                i + 4,
                sym,
            ));
            assert(p_statements_from(ts, i, sym, seq![]) == crate::parser::grammar::ok(
                SpecAst::Statements { stmts: seq![num(x), num(y)] },
                i + 4,
                sym,
            ));
        }
        if tok(ts, i + 1) == SpecToken::Comma && tok(ts, i + 3) == SpecToken::RBracket {
            lemma_int_expression(ts, i, sym, x);
            lemma_int_expression(ts, i + 2, sym, y);
            assert(seq![num(x), num(y)] =~= seq![num(x)].push(num(y)));
            assert(p_array_elements_trail(ts, i + 3, sym, seq![num(x), num(y)]).items == seq![num(x), num(y)]);
            assert(p_array_elements_trail(ts, i + 1, sym, seq![num(x)]).items == seq![num(x), num(y)]);
        }
        if tok(ts, i + 1) == SpecToken::Comma && tok(ts, i + 3) == SpecToken::RParen {
            assert(p_literal(ts, i, sym) == crate::parser::grammar::ok(num(x), i + 1, sym));
            assert(p_literal(ts, i + 2, sym) == crate::parser::grammar::ok(num(y), i + 3, sym));
            assert(p_arg_term(ts, i, sym) == crate::parser::grammar::ok(num(x), i + 1, sym));
            assert(p_arg_term(ts, i + 2, sym) == crate::parser::grammar::ok(num(y), i + 3, sym));
            assert(seq![num(x), num(y)] =~= seq![num(x)].push(num(y)));
            assert(p_args_trail(ts, i + 3, sym, seq![num(x), num(y)]).items == seq![num(x), num(y)]);
            assert(p_args_trail(ts, i + 1, sym, seq![num(x)]).items == seq![num(x), num(y)]);
        }
    }
}

/// In a condition, a comparison of a name with an integer parses to the
/// operation of its comparison token, with the operands in their order.
pub proof fn lemma_condition_tree(ts: Seq<SpecToken>, i: int, sym: Scopes, a: Seq<char>, y: i32)
    requires
        0 <= i,
        i + 3 <= ts.len(),
        tok(ts, i) == SpecToken::Identifier(a),
        crate::parser::grammar::comparison_op(tok(ts, i + 1)) is Some,
        tok(ts, i + 2) == SpecToken::Int(y),
        tok(ts, i + 3) != SpecToken::And && tok(ts, i + 3) != SpecToken::Or,
    ensures
        p_bool_expr(ts, i, sym) == crate::parser::grammar::ok(
            crate::parser::grammar::bin(
                crate::parser::grammar::comparison_op(tok(ts, i + 1))->Some_0,
                crate::parser::grammar::ident(a),
                num(y),
            ),
            i + 3,
            sym,
        ),
{
    let e = crate::parser::grammar::bin(
        crate::parser::grammar::comparison_op(tok(ts, i + 1))->Some_0,
        crate::parser::grammar::ident(a),
        num(y),
    );
    assert(crate::parser::grammar::p_identifier(ts, i, sym) == crate::parser::grammar::ok(
        crate::parser::grammar::ident(a),
        i + 1,
        sym,
    ));
    assert(crate::parser::grammar::p_operand(ts, i, sym) == crate::parser::grammar::ok(
        crate::parser::grammar::ident(a),
        i + 1,
        sym,
    ));
    assert(crate::parser::grammar::p_operand(ts, i + 2, sym) == crate::parser::grammar::ok(num(y), i + 3, sym));
    assert(crate::parser::grammar::p_comparison(ts, i, sym) == crate::parser::grammar::ok(e, i + 3, sym));
    assert(p_bool_term(ts, i, sym) == crate::parser::grammar::ok(e, i + 3, sym));
    assert(p_bool_and_tail(ts, i + 3, sym, e) == crate::parser::grammar::ok(e, i + 3, sym));
    assert(p_bool_and(ts, i, sym) == crate::parser::grammar::ok(e, i + 3, sym));
    assert(p_bool_or_tail(ts, i + 3, sym, e) == crate::parser::grammar::ok(e, i + 3, sym));
    assert(p_bool_or(ts, i, sym) == crate::parser::grammar::ok(e, i + 3, sym));
}

/// `and` binds tighter than `or` in conditions: `p or q and r` is
/// `p or (q and r)`, for boolean literals `p`, `q`, `r`.
pub proof fn lemma_and_binds_tighter(ts: Seq<SpecToken>, i: int, sym: Scopes, p: bool, q: bool, r: bool)
    requires
        0 <= i,
        i + 5 <= ts.len(),
        tok(ts, i) == SpecToken::Bool(p),
        tok(ts, i + 1) == SpecToken::Or,
        tok(ts, i + 2) == SpecToken::Bool(q),
        tok(ts, i + 3) == SpecToken::And,
        tok(ts, i + 4) == SpecToken::Bool(r),
        tok(ts, i + 5) != SpecToken::And && tok(ts, i + 5) != SpecToken::Or,
    ensures
        p_bool_expr(ts, i, sym) == crate::parser::grammar::ok(
            crate::parser::grammar::bin(
                crate::ops::Operation::Or,
                SpecAst::Bool { value: p },
                crate::parser::grammar::bin(
                    crate::ops::Operation::And,
                    SpecAst::Bool { value: q },
                    SpecAst::Bool { value: r },
                ),
            ),
            i + 5,
            sym,
        ),
{
    let bp = SpecAst::Bool { value: p };
    let bq = SpecAst::Bool { value: q };
    let br = SpecAst::Bool { value: r };
    let qr = crate::parser::grammar::bin(crate::ops::Operation::And, bq, br);
    let e = crate::parser::grammar::bin(crate::ops::Operation::Or, bp, qr);
    assert(p_bool_term(ts, i, sym) == crate::parser::grammar::ok(bp, i + 1, sym));
    assert(p_bool_and_tail(ts, i + 1, sym, bp) == crate::parser::grammar::ok(bp, i + 1, sym));
    assert(p_bool_and(ts, i, sym) == crate::parser::grammar::ok(bp, i + 1, sym));
    assert(p_bool_term(ts, i + 2, sym) == crate::parser::grammar::ok(bq, i + 3, sym));
    assert(p_bool_term(ts, i + 4, sym) == crate::parser::grammar::ok(br, i + 5, sym));
    assert(p_bool_and_tail(ts, i + 5, sym, qr) == crate::parser::grammar::ok(qr, i + 5, sym));
    assert(p_bool_and_tail(ts, i + 3, sym, bq) == crate::parser::grammar::ok(qr, i + 5, sym));
    assert(p_bool_and(ts, i + 2, sym) == crate::parser::grammar::ok(qr, i + 5, sym));
    assert(p_bool_or_tail(ts, i + 5, sym, e) == crate::parser::grammar::ok(e, i + 5, sym));
    assert(p_bool_or_tail(ts, i + 1, sym, bp) == crate::parser::grammar::ok(e, i + 5, sym));
    assert(p_bool_or(ts, i, sym) == crate::parser::grammar::ok(e, i + 5, sym));
}

} // verus!
