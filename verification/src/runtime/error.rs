//! Errors that evaluation reports.
use vstd::prelude::*;

use crate::text::{decimal, push_count, push_decimal, push_str};

verus! {

/// The kind of node an evaluation step was given the wrong node for.
#[derive(Clone, Copy, Debug, PartialEq, Eq, Structural)]
pub enum NodeKind {
    Str,
    Numeric,
    Bool,
    Array,
    ArrayIndex,
    Identifier,
    LetBinding,
    Assign,
    Statements,
    WhileLoop,
    ForLoop,
    IfStatement,
    FunctionDef,
    Return,
    Call,
}

/// An error raised while evaluating a program.
#[derive(Debug)]
pub enum EvalError {
    /// An evaluation step was handed a node of another kind.
    ExpectedNode(NodeKind),
    /// A node that this interpreter does not evaluate (an import).
    UnsupportedNode,
    /// An operation that is not defined on these values.
    UnsupportedOperation,
    /// An arithmetic operation on something else than two integers.
    ExpectedIntegers,
    /// A logical operation on something else than two booleans.
    ExpectedBooleans,
    /// An ordering comparison on something else than two integers.
    ExpectedComparable,
    /// `==` between values that cannot be compared.
    UnsupportedEquality,
    /// An arithmetic result outside the range of `i32`.
    Overflow,
    /// A division or remainder by zero.
    DivisionByZero,
    /// Reading an array at an index it does not have.
    IndexOutOfBound(i32),
    /// Indexing something else than an array with an integer.
    InvalidIndex,
    /// Reading a name that no scope binds.
    UndeclaredIdentifier(String),
    /// Assigning to a name that no scope binds.
    UndeclaredVariable(String),
    /// A `let` whose target is not an identifier.
    InvalidBindingTarget,
    /// Assigning to an array element at an index it does not have.
    IndexOutOfBounds,
    /// Assigning to an element of an array that is not held by a variable.
    ArrayAssignTarget,
    /// Assigning to an element of something else than an array.
    InvalidArrayAssignment,
    /// An assignment whose target is neither an identifier nor an element.
    InvalidAssignTarget,
    /// A `for` loop over something else than an array.
    ExpectedIterable,
    /// A `for` loop whose variable is not an identifier.
    InvalidLoopVariable,
    /// An `if` whose condition is not a boolean.
    NonBooleanCondition,
    /// A function definition whose name is not an identifier.
    InvalidFunctionName,
    /// A function definition with a parameter that is not an identifier.
    InvalidParameters,
    /// A call of a function value with a parameter that is not an identifier.
    InvalidParameter,
    /// A call with another number of arguments than the function has parameters.
    ArityMismatch { expected: usize, found: usize },
    /// A call of something that is not a function.
    NotCallable,
    /// A built-in function of two arguments called with another number.
    BuiltinArity(usize),
    /// A built-in function of two integers called with something else.
    BuiltinTypes,
    /// The interpreter ran out of steps (loop iterations and calls).
    StepLimit,
}

/// The model of an [`EvalError`].
pub enum EvalErrV {
    ExpectedNode(NodeKind),
    UnsupportedNode,
    UnsupportedOperation,
    ExpectedIntegers,
    ExpectedBooleans,
    ExpectedComparable,
    UnsupportedEquality,
    Overflow,
    DivisionByZero,
    IndexOutOfBound(i32),
    InvalidIndex,
    UndeclaredIdentifier(Seq<char>),
    UndeclaredVariable(Seq<char>),
    InvalidBindingTarget,
    IndexOutOfBounds,
    ArrayAssignTarget,
    InvalidArrayAssignment,
    InvalidAssignTarget,
    ExpectedIterable,
    InvalidLoopVariable,
    NonBooleanCondition,
    InvalidFunctionName,
    InvalidParameters,
    InvalidParameter,
    ArityMismatch { expected: nat, found: nat },
    NotCallable,
    BuiltinArity(nat),
    BuiltinTypes,
    StepLimit,
}

impl View for EvalError {
    type V = EvalErrV;

    open spec fn view(&self) -> EvalErrV {
        match self {
            EvalError::ExpectedNode(k) => EvalErrV::ExpectedNode(*k),
            EvalError::UnsupportedNode => EvalErrV::UnsupportedNode,
            EvalError::UnsupportedOperation => EvalErrV::UnsupportedOperation,
            EvalError::ExpectedIntegers => EvalErrV::ExpectedIntegers,
            EvalError::ExpectedBooleans => EvalErrV::ExpectedBooleans,
            EvalError::ExpectedComparable => EvalErrV::ExpectedComparable,
            EvalError::UnsupportedEquality => EvalErrV::UnsupportedEquality,
            EvalError::Overflow => EvalErrV::Overflow,
            EvalError::DivisionByZero => EvalErrV::DivisionByZero,
            EvalError::IndexOutOfBound(i) => EvalErrV::IndexOutOfBound(*i),
            EvalError::InvalidIndex => EvalErrV::InvalidIndex,
            EvalError::UndeclaredIdentifier(n) => EvalErrV::UndeclaredIdentifier(n@),
            EvalError::UndeclaredVariable(n) => EvalErrV::UndeclaredVariable(n@),
            EvalError::InvalidBindingTarget => EvalErrV::InvalidBindingTarget,
            EvalError::IndexOutOfBounds => EvalErrV::IndexOutOfBounds,
            EvalError::ArrayAssignTarget => EvalErrV::ArrayAssignTarget,
            EvalError::InvalidArrayAssignment => EvalErrV::InvalidArrayAssignment,
            EvalError::InvalidAssignTarget => EvalErrV::InvalidAssignTarget,
            EvalError::ExpectedIterable => EvalErrV::ExpectedIterable,
            EvalError::InvalidLoopVariable => EvalErrV::InvalidLoopVariable,
            EvalError::NonBooleanCondition => EvalErrV::NonBooleanCondition,
            EvalError::InvalidFunctionName => EvalErrV::InvalidFunctionName,
            EvalError::InvalidParameters => EvalErrV::InvalidParameters,
            EvalError::InvalidParameter => EvalErrV::InvalidParameter,
            EvalError::ArityMismatch { expected, found } => EvalErrV::ArityMismatch {
                expected: *expected as nat,
                found: *found as nat,
            },
            EvalError::NotCallable => EvalErrV::NotCallable,
            EvalError::BuiltinArity(n) => EvalErrV::BuiltinArity(*n as nat),
            EvalError::BuiltinTypes => EvalErrV::BuiltinTypes,
            EvalError::StepLimit => EvalErrV::StepLimit,
        }
    }
}

/// The words that name a kind of node in messages.
pub open spec fn node_kind_text(k: NodeKind) -> Seq<char> {
    match k {
        NodeKind::Str => "Expected a valid string."@,
        NodeKind::Numeric => "Expected a valid numeric."@,
        NodeKind::Bool => "Expected a valid boolean."@,
        NodeKind::Array => "Expected a valid array."@,
        NodeKind::ArrayIndex => "Expected a valid array index operation."@,
        NodeKind::Identifier => "Expected an identifier."@,
        NodeKind::LetBinding => "Expected a valid variable binding operation."@,
        NodeKind::Assign => "Expected a valid assignment operation."@,
        NodeKind::Statements => "Expected a valid sequence of statements."@,
        NodeKind::WhileLoop => "Expected a valid while loop."@,
        NodeKind::ForLoop => "Expected a valid for-loop."@,
        NodeKind::IfStatement => "Expected a valid if statement."@,
        NodeKind::FunctionDef => "Expected a valid function definition."@,
        NodeKind::Return => "Expected a valid return statement."@,
        NodeKind::Call => "Expected a valid function call."@,
    }
}

/// The message text of an evaluation error.
pub open spec fn eval_error_message(e: EvalErrV) -> Seq<char> {
    match e {
        EvalErrV::ExpectedNode(k) => node_kind_text(k),
        EvalErrV::UnsupportedNode => "This node cannot be evaluated."@,
        EvalErrV::UnsupportedOperation => "Unsupported operation"@,
        EvalErrV::ExpectedIntegers => "Expected two integers"@,
        EvalErrV::ExpectedBooleans => "Expected two booleans"@,
        EvalErrV::ExpectedComparable => "Expected two integers for comparison"@,
        EvalErrV::UnsupportedEquality => "Unsupported equality comparison"@,
        EvalErrV::Overflow => "Arithmetic overflow"@,
        EvalErrV::DivisionByZero => "Division by zero"@,
        EvalErrV::IndexOutOfBound(i) => "Index "@ + decimal(i as int) + " out of bound."@,
        EvalErrV::InvalidIndex => "Expected a valid integer index."@,
        EvalErrV::UndeclaredIdentifier(n) => "Undeclared identifier '"@ + n + "' referenced."@,
        EvalErrV::UndeclaredVariable(n) => "undeclared variable '"@ + n + "' referenced."@,
        EvalErrV::InvalidBindingTarget => "Expected a valid identifier for variable binding."@,
        EvalErrV::IndexOutOfBounds => "Index out of bounds"@,
        EvalErrV::ArrayAssignTarget => "Only assignment to direct array variables is supported"@,
        EvalErrV::InvalidArrayAssignment => "Invalid array assignment"@,
        EvalErrV::InvalidAssignTarget => "Expected a valid identifier for assignment."@,
        EvalErrV::ExpectedIterable => "Expected an iterable for the for-loop."@,
        EvalErrV::InvalidLoopVariable => "Expected a valid identifier for the for-loop."@,
        EvalErrV::NonBooleanCondition => "If statement condition must be a boolean expression."@,
        EvalErrV::InvalidFunctionName => "Expected a valid identifier as function name."@,
        EvalErrV::InvalidParameters => "All function parameters must be identifiers."@,
        EvalErrV::InvalidParameter => "Function parameters must be identifiers."@,
        EvalErrV::ArityMismatch { expected, found } => "Expected "@ + decimal(expected as int)
            + " parameters, but got "@ + decimal(found as int),
        EvalErrV::NotCallable => "Error encountred while evaluating function call."@,
        EvalErrV::BuiltinArity(n) => "Expected two paramters but got "@ + decimal(n as int) + "."@,
        EvalErrV::BuiltinTypes => "Expected numeric types."@,
        EvalErrV::StepLimit => "Step limit reached."@,
    }
}

fn push_node_kind_text(s: &mut String, k: NodeKind)
    ensures
        final(s)@ == old(s)@ + node_kind_text(k),
{
    match k {
        NodeKind::Str => push_str(s, "Expected a valid string."),
        NodeKind::Numeric => push_str(s, "Expected a valid numeric."),
        NodeKind::Bool => push_str(s, "Expected a valid boolean."),
        NodeKind::Array => push_str(s, "Expected a valid array."),
        NodeKind::ArrayIndex => push_str(s, "Expected a valid array index operation."),
        NodeKind::Identifier => push_str(s, "Expected an identifier."),
        NodeKind::LetBinding => push_str(s, "Expected a valid variable binding operation."),
        NodeKind::Assign => push_str(s, "Expected a valid assignment operation."),
        NodeKind::Statements => push_str(s, "Expected a valid sequence of statements."),
        NodeKind::WhileLoop => push_str(s, "Expected a valid while loop."),
        NodeKind::ForLoop => push_str(s, "Expected a valid for-loop."),
        NodeKind::IfStatement => push_str(s, "Expected a valid if statement."),
        NodeKind::FunctionDef => push_str(s, "Expected a valid function definition."),
        NodeKind::Return => push_str(s, "Expected a valid return statement."),
        NodeKind::Call => push_str(s, "Expected a valid function call."),
    }
}

impl EvalError {
    /// The human-readable message of this error.
    pub fn message(&self) -> (r: String)
        ensures
            r@ == eval_error_message(self@),
    {
        let mut s = String::new();
        match self {
            EvalError::ExpectedNode(k) => push_node_kind_text(&mut s, *k),
            EvalError::UnsupportedNode => push_str(&mut s, "This node cannot be evaluated."),
            EvalError::UnsupportedOperation => push_str(&mut s, "Unsupported operation"),
            EvalError::ExpectedIntegers => push_str(&mut s, "Expected two integers"),
            EvalError::ExpectedBooleans => push_str(&mut s, "Expected two booleans"),
            EvalError::ExpectedComparable => push_str(&mut s, "Expected two integers for comparison"),
            EvalError::UnsupportedEquality => push_str(&mut s, "Unsupported equality comparison"),
            EvalError::Overflow => push_str(&mut s, "Arithmetic overflow"),
            EvalError::DivisionByZero => push_str(&mut s, "Division by zero"),
            EvalError::IndexOutOfBound(i) => {
                push_str(&mut s, "Index ");
                push_decimal(&mut s, *i as i64);
                push_str(&mut s, " out of bound.");
                assert(s@ =~= eval_error_message(self@));
            },
            EvalError::InvalidIndex => push_str(&mut s, "Expected a valid integer index."),
            EvalError::UndeclaredIdentifier(n) => {
                push_str(&mut s, "Undeclared identifier '");
                push_str(&mut s, n.as_str());
                push_str(&mut s, "' referenced.");
                assert(s@ =~= eval_error_message(self@));
            },
            EvalError::UndeclaredVariable(n) => {
                push_str(&mut s, "undeclared variable '");
                push_str(&mut s, n.as_str());
                push_str(&mut s, "' referenced.");
                assert(s@ =~= eval_error_message(self@));
            },
            EvalError::InvalidBindingTarget => push_str(&mut s, "Expected a valid identifier for variable binding."),
            EvalError::IndexOutOfBounds => push_str(&mut s, "Index out of bounds"),
            EvalError::ArrayAssignTarget => push_str(&mut s, "Only assignment to direct array variables is supported"),
            EvalError::InvalidArrayAssignment => push_str(&mut s, "Invalid array assignment"),
            EvalError::InvalidAssignTarget => push_str(&mut s, "Expected a valid identifier for assignment."),
            EvalError::ExpectedIterable => push_str(&mut s, "Expected an iterable for the for-loop."),
            EvalError::InvalidLoopVariable => push_str(&mut s, "Expected a valid identifier for the for-loop."),
            EvalError::NonBooleanCondition => push_str(&mut s, "If statement condition must be a boolean expression."),
            EvalError::InvalidFunctionName => push_str(&mut s, "Expected a valid identifier as function name."),
            EvalError::InvalidParameters => push_str(&mut s, "All function parameters must be identifiers."),
            EvalError::InvalidParameter => push_str(&mut s, "Function parameters must be identifiers."),
            EvalError::ArityMismatch { expected, found } => {
                push_str(&mut s, "Expected ");
                push_count(&mut s, *expected);
                push_str(&mut s, " parameters, but got ");
                push_count(&mut s, *found);
                assert(s@ =~= eval_error_message(self@));
            },
            EvalError::NotCallable => push_str(&mut s, "Error encountred while evaluating function call."),
            EvalError::BuiltinArity(n) => {
                push_str(&mut s, "Expected two paramters but got ");
                push_count(&mut s, *n);
                push_str(&mut s, ".");
                assert(s@ =~= eval_error_message(self@));
            },
            EvalError::BuiltinTypes => push_str(&mut s, "Expected numeric types."),
            EvalError::StepLimit => push_str(&mut s, "Step limit reached."),
        }
        s
    }
}

} // verus!
