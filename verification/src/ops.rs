//! Binary operations of the Whisp language.
use vstd::prelude::*;

verus! {

/// A binary operation in an expression.
#[derive(Clone, Copy, Debug, PartialEq, Eq, Structural)]
pub enum Operation {
    Add,
    Sub,
    Mul,
    Div,
    Mod,
    Eq,
    Lt,
    Gt,
    Le,
    Ge,
    And,
    Or,
}

} // verus!
