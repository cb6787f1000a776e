//! The first form of the interpreter: evaluates the literals and binary
//! operations of the first syntax tree to [`Value`]s.
use vstd::prelude::*;

use crate::ast::ASTNode;
use crate::environment::Environment;
use crate::object::{abs, div_trunc, fits_i32, lemma_div_rem, lemma_operator_values, trunc_div};
use crate::ops::Operation;
use crate::runtime::error::{EvalErrV, EvalError, NodeKind};
use crate::value::Value;

verus! {

/// The value of an integer result, or the overflow it would be.
pub open spec fn int_value(x: int) -> Result<Value, EvalErrV> {
    if fits_i32(x) {
        Ok(Value::Int(x as i32))
    } else {
        Err(EvalErrV::Overflow)
    }
}

/// The value of `a op b`, or the error it raises.
pub open spec fn value_binary(op: Operation, a: Value, b: Value) -> Result<Value, EvalErrV> {
    match op {
        Operation::Add | Operation::Sub | Operation::Mul | Operation::Div => match (a, b) {
            (Value::Int(x), Value::Int(y)) => match op {
                Operation::Add => int_value(x + y),
                Operation::Sub => int_value(x - y),
                Operation::Mul => int_value(x * y),
                _ => if y == 0 {
                    Err(EvalErrV::DivisionByZero)
                } else {
                    int_value(trunc_div(x as int, y as int))
                },
            },
            _ => Err(EvalErrV::ExpectedIntegers),
        },
        Operation::Mod => Err(EvalErrV::UnsupportedOperation),
        Operation::And | Operation::Or => match (a, b) {
            (Value::Bool(x), Value::Bool(y)) => Ok(
                Value::Bool(
                    if op == Operation::And {
                        x && y
                    } else {
                        x || y
                    },
                ),
            ),
            _ => Err(EvalErrV::ExpectedBooleans),
        },
        Operation::Eq => match (a, b) {
            (Value::Int(x), Value::Int(y)) => Ok(Value::Bool(x == y)),
            (Value::Bool(x), Value::Bool(y)) => Ok(Value::Bool(x == y)),
            (Value::Str(x), Value::Str(y)) => Ok(Value::Bool(x@ == y@)),
            _ => Err(EvalErrV::UnsupportedEquality),
        },
        _ => match (a, b) {
            (Value::Int(x), Value::Int(y)) => Ok(
                Value::Bool(
                    match op {
                        Operation::Lt => x < y,
                        Operation::Gt => x > y,
                        Operation::Le => x <= y,
                        _ => x >= y,
                    },
                ),
            ),
            _ => Err(EvalErrV::ExpectedComparable),
        },
    }
}

/// What the operators of the first form compute. On integers, `+ - *` give
/// the mathematical result when it fits in an `i32` and an overflow error
/// otherwise; `/` gives the quotient rounded towards zero (whose product with
/// the divisor is at most the dividend in size and of its sign, short of the
/// divisor) and fails on a zero divisor; `%` is not supported; comparisons
/// give their truth. On booleans, `and`, `or` and `==` give the logical values.
pub proof fn lemma_value_operator_values(x: i32, y: i32, p: bool, q: bool)
    ensures
        value_binary(Operation::Add, Value::Int(x), Value::Int(y)) == if fits_i32(x + y) {
            Ok::<Value, EvalErrV>(Value::Int((x + y) as i32))
        } else {
            Err(EvalErrV::Overflow)
        },
        value_binary(Operation::Sub, Value::Int(x), Value::Int(y)) == if fits_i32(x - y) {
            Ok::<Value, EvalErrV>(Value::Int((x - y) as i32))
        } else {
            Err(EvalErrV::Overflow)
        },
        value_binary(Operation::Mul, Value::Int(x), Value::Int(y)) == if fits_i32(x * y) {
            Ok::<Value, EvalErrV>(Value::Int((x * y) as i32))
        } else {
            Err(EvalErrV::Overflow)
        },
        y == 0 ==> value_binary(Operation::Div, Value::Int(x), Value::Int(y)) == Err::<Value, EvalErrV>(
            EvalErrV::DivisionByZero,
        ),
        y != 0 && !(x == i32::MIN && y == -1) ==> {
            &&& value_binary(Operation::Div, Value::Int(x), Value::Int(y)) matches Ok(Value::Int(d))
            &&& abs(x - d * y) < abs(y as int)
            &&& (x - d * y == 0 || (x - d * y < 0) == (x < 0))
        },
        value_binary(Operation::Mod, Value::Int(x), Value::Int(y)) == Err::<Value, EvalErrV>(
            EvalErrV::UnsupportedOperation,
        ),
        value_binary(Operation::Eq, Value::Int(x), Value::Int(y)) == Ok::<Value, EvalErrV>(Value::Bool(x == y)),
        value_binary(Operation::Lt, Value::Int(x), Value::Int(y)) == Ok::<Value, EvalErrV>(Value::Bool(x < y)),
        value_binary(Operation::Gt, Value::Int(x), Value::Int(y)) == Ok::<Value, EvalErrV>(Value::Bool(x > y)),
        value_binary(Operation::Le, Value::Int(x), Value::Int(y)) == Ok::<Value, EvalErrV>(Value::Bool(x <= y)),
        value_binary(Operation::Ge, Value::Int(x), Value::Int(y)) == Ok::<Value, EvalErrV>(Value::Bool(x >= y)),
        value_binary(Operation::And, Value::Bool(p), Value::Bool(q)) == Ok::<Value, EvalErrV>(Value::Bool(p && q)),
        value_binary(Operation::Or, Value::Bool(p), Value::Bool(q)) == Ok::<Value, EvalErrV>(Value::Bool(p || q)),
        value_binary(Operation::Eq, Value::Bool(p), Value::Bool(q)) == Ok::<Value, EvalErrV>(Value::Bool(p == q)),
        value_binary(Operation::Add, Value::Int(x), Value::Bool(p)) == Err::<Value, EvalErrV>(
            EvalErrV::ExpectedIntegers,
        ),
        value_binary(Operation::Or, Value::Int(x), Value::Bool(p)) == Err::<Value, EvalErrV>(
            EvalErrV::ExpectedBooleans,
        ),
        value_binary(Operation::Lt, Value::Bool(p), Value::Int(x)) == Err::<Value, EvalErrV>(
            EvalErrV::ExpectedComparable,
        ),
{
    if y != 0 {
        lemma_div_rem(x as int, y as int);
        lemma_operator_values(x, y, p, q);
    }
}

/// The value of a node of the first syntax tree: literals and binary
/// operations have one; other nodes are not evaluated.
pub open spec fn value_of(node: ASTNode) -> Result<Value, EvalErrV>
    decreases node,
{
    match node {
        ASTNode::Str { value } => Ok(Value::Str(value)),
        ASTNode::Numeric { value } => Ok(Value::Int(value)),
        ASTNode::Bool { value } => Ok(Value::Bool(value)),
        ASTNode::BinaryOp { op, lhs, rhs } => match value_of(*lhs) {
            Err(e) => Err(e),
            Ok(l) => match value_of(*rhs) {
                Err(e) => Err(e),
                Ok(r) => value_binary(op, l, r),
            },
        },
        _ => Err(EvalErrV::UnsupportedNode),
    }
}

/// The number of nodes in the tree of binary operations at `node`.
pub open spec fn op_size(node: ASTNode) -> nat
    decreases node,
{
    match node {
        ASTNode::BinaryOp { lhs, rhs, .. } => 1 + op_size(*lhs) + op_size(*rhs),
        _ => 1,
    }
}

/// `r` is the result `x`.
pub open spec fn gives(r: Result<Value, EvalError>, x: Result<Value, EvalErrV>) -> bool {
    match r {
        Ok(v) => x == Ok::<Value, EvalErrV>(v),
        Err(e) => x == Err::<Value, EvalErrV>(e@),
    }
}

/// Walks the first syntax tree and evaluates it to values.
pub struct Interpreter<'a> {
    env: &'a Environment,
}

impl<'a> Interpreter<'a> {
    /// An interpreter over `env`.
    pub fn new(env: &'a mut Environment) -> (r: Self)
        ensures
            *r.environment() == *old(env),
    {
        Interpreter { env }
    }

    /// The bindings the interpreter reads.
    pub closed spec fn environment(&self) -> &'a Environment {
        self.env
    }

    pub fn eval_str(&self, node: &ASTNode) -> (r: Result<Value, EvalError>)
        ensures
            gives(r, if node is Str { value_of(*node) } else { Err(EvalErrV::ExpectedNode(NodeKind::Str)) }),
    {
        match node {
            ASTNode::Str { value } => Ok(Value::Str(value.clone())),
            _ => Err(EvalError::ExpectedNode(NodeKind::Str)),
        }
    }

    pub fn eval_numeric(&self, node: &ASTNode) -> (r: Result<Value, EvalError>)
        ensures
            gives(r, if node is Numeric { value_of(*node) } else { Err(EvalErrV::ExpectedNode(NodeKind::Numeric)) }),
    {
        match node {
            ASTNode::Numeric { value } => Ok(Value::Int(*value)),
            _ => Err(EvalError::ExpectedNode(NodeKind::Numeric)),
        }
    }

    pub fn eval_boolean(&self, node: &ASTNode) -> (r: Result<Value, EvalError>)
        ensures
            gives(r, if node is Bool { value_of(*node) } else { Err(EvalErrV::ExpectedNode(NodeKind::Bool)) }),
    {
        match node {
            ASTNode::Bool { value } => Ok(Value::Bool(*value)),
            _ => Err(EvalError::ExpectedNode(NodeKind::Bool)),
        }
    }

    pub fn eval_binary_op(&self, op: &Operation, lhs: &ASTNode, rhs: &ASTNode) -> (r: Result<Value, EvalError>)
        ensures
            gives(r, value_of(ASTNode::BinaryOp { op: *op, lhs: Box::new(*lhs), rhs: Box::new(*rhs) })),
        decreases op_size(*lhs) + op_size(*rhs) + 1, 0int,
    {
        let lhs_val = self.eval(lhs)?;
        let rhs_val = self.eval(rhs)?;
        apply_value(*op, lhs_val, rhs_val)
    }

    /// The value of `node`, or the error it raises.
    pub fn eval(&self, node: &ASTNode) -> (r: Result<Value, EvalError>)
        ensures
            gives(r, value_of(*node)),
        decreases op_size(*node), 1int,
    {
        match node {
            ASTNode::Str { .. } => self.eval_str(node),
            ASTNode::Numeric { .. } => self.eval_numeric(node),
            ASTNode::Bool { .. } => self.eval_boolean(node),
            ASTNode::BinaryOp { op, lhs, rhs } => self.eval_binary_op(op, lhs, rhs),
            _ => Err(EvalError::UnsupportedNode),
        }
    }
}

/// `a op b` on values, or the error it raises.
fn apply_value(op: Operation, a: Value, b: Value) -> (r: Result<Value, EvalError>)
    ensures
        gives(r, value_binary(op, a, b)),
{
    match op {
        Operation::Add | Operation::Sub | Operation::Mul | Operation::Div => {
            let (x, y) = match (&a, &b) {
                (Value::Int(x), Value::Int(y)) => (*x, *y),
                _ => {
                    return Err(EvalError::ExpectedIntegers);
                },
            };
            let wide: i64 = match op {
                Operation::Add => x as i64 + y as i64,
                Operation::Sub => x as i64 - y as i64,
                Operation::Mul => {
                    assert(-0x8000_0000 * 0x8000_0000 <= (x as int) * (y as int) <= 0x8000_0000 * 0x8000_0000)
                        by (nonlinear_arith)
                        requires
                            -0x8000_0000 <= x < 0x8000_0000,
                            -0x8000_0000 <= y < 0x8000_0000,
                    ;
                    x as i64 * y as i64
                },
                _ => {
                    if y == 0 {
                        return Err(EvalError::DivisionByZero);
                    }
                    div_trunc(x, y)
                },
            };
            if wide < i32::MIN as i64 || wide > i32::MAX as i64 {
                return Err(EvalError::Overflow);
            }
            Ok(
                match op {
                    Operation::Add => a.add(b),
                    Operation::Sub => a.sub(b),
                    Operation::Mul => a.mul(b),
                    _ => a.div(b),
                },
            )
        },
        Operation::Mod => Err(EvalError::UnsupportedOperation),
        Operation::And | Operation::Or => {
            match (&a, &b) {
                (Value::Bool(_), Value::Bool(_)) => {},
                _ => {
                    return Err(EvalError::ExpectedBooleans);
                },
            }
            Ok(
                match op {
                    Operation::And => a.and(b),
                    _ => a.or(b),
                },
            )
        },
        Operation::Eq => {
            let comparable = match (&a, &b) {
                (Value::Int(_), Value::Int(_)) => true,
                (Value::Bool(_), Value::Bool(_)) => true,
                (Value::Str(_), Value::Str(_)) => true,
                _ => false,
            };
            if !comparable {
                return Err(EvalError::UnsupportedEquality);
            }
            Ok(a.eq(b))
        },
        _ => {
            match (&a, &b) {
                (Value::Int(_), Value::Int(_)) => {},
                _ => {
                    return Err(EvalError::ExpectedComparable);
                },
            }
            Ok(
                match op {
                    Operation::Lt => a.lt(b),
                    Operation::Gt => a.gt(b),
                    Operation::Le => a.le(b),
                    _ => a.ge(b),
                },
            )
        },
    }
}

} // verus!
