//! The values that Whisp programs compute.
use vstd::prelude::*;

use crate::ops::Operation;
use crate::runtime::error::{EvalErrV, EvalError};
use crate::text::{decimal, push_decimal, push_str};
use crate::tree::{clone_nodes, views, ASTNode, SpecAst};

verus! {

/// The functions that every program can call without defining them.
#[derive(Clone, Copy, Debug, PartialEq, Eq, Structural)]
pub enum BuiltinFn {
    /// Prints each argument on a line of its own.
    Print,
    /// The greater of two integers.
    Max,
    /// The smaller of two integers.
    Min,
}

/// A value of the Whisp language.
#[derive(Debug)]
pub enum WhispObj {
    Bool(bool),
    Int(i32),
    Str(String),
    Array(Vec<WhispObj>),
    Void(()),
    /// A user-defined function: its parameters and its body.
    Function { params: Vec<ASTNode>, body: Box<ASTNode> },
    /// A built-in function.
    BuiltInFunction { callback: BuiltinFn },
    /// The value of a `return` statement, until the call unwraps it.
    Return(Box<WhispObj>),
}

/// The mathematical model of a [`WhispObj`].
pub enum ObjV {
    Bool(bool),
    Int(i32),
    Str(Seq<char>),
    Array(Seq<ObjV>),
    Void,
    Function { params: Seq<SpecAst>, body: SpecAst },
    BuiltIn(BuiltinFn),
    Return(Box<ObjV>),
}

/// The models of a list of values.
pub open spec fn obj_views(s: Seq<WhispObj>) -> Seq<ObjV>
    decreases s,
{
    if s.len() == 0 {
        seq![]
    } else {
        seq![s[0].model()] + obj_views(s.drop_first())
    }
}

impl WhispObj {
    /// The model of this value (see [`ObjV`]).
    pub open spec fn model(&self) -> ObjV
        decreases self,
    {
        match self {
            WhispObj::Bool(b) => ObjV::Bool(*b),
            WhispObj::Int(n) => ObjV::Int(*n),
            WhispObj::Str(s) => ObjV::Str(s@),
            WhispObj::Array(a) => ObjV::Array(obj_views(a@)),
            WhispObj::Void(_) => ObjV::Void,
            WhispObj::Function { params, body } => ObjV::Function { params: views(params@), body: body@ },
            WhispObj::BuiltInFunction { callback } => ObjV::BuiltIn(*callback),
            WhispObj::Return(inner) => ObjV::Return(Box::new(inner.model())),
        }
    }
}

impl View for WhispObj {
    type V = ObjV;

    open spec fn view(&self) -> ObjV {
        self.model()
    }
}

/// `obj_views` is the element-wise model of a list of values.
pub proof fn lemma_obj_views(s: Seq<WhispObj>)
    ensures
        obj_views(s).len() == s.len(),
        forall|i: int| 0 <= i < s.len() ==> #[trigger] obj_views(s)[i] == s[i].model(),
    decreases s.len(),
{
    if s.len() > 0 {
        lemma_obj_views(s.drop_first());
        assert forall|i: int| 0 <= i < s.len() implies #[trigger] obj_views(s)[i] == s[i].model() by {
            if i > 0 {
                assert(obj_views(s)[i] == obj_views(s.drop_first())[i - 1]);
            }
        }
    }
}

/// Two lists of values with element-wise equal models have equal models.
pub proof fn lemma_obj_views_ext(a: Seq<WhispObj>, b: Seq<ObjV>)
    requires
        a.len() == b.len(),
        forall|i: int| 0 <= i < a.len() ==> #[trigger] a[i].model() == b[i],
    ensures
        obj_views(a) == b,
{
    lemma_obj_views(a);
    assert(obj_views(a) =~= b);
}

/// The models of a list with one more value.
pub proof fn lemma_obj_views_push(s: Seq<WhispObj>, x: WhispObj)
    ensures
        obj_views(s.push(x)) == obj_views(s).push(x.model()),
{
    lemma_obj_views(s);
    lemma_obj_views(s.push(x));
    assert(obj_views(s.push(x)) =~= obj_views(s).push(x.model()));
}

/// `x` lies in the range of `i32`.
pub open spec fn fits_i32(x: int) -> bool {
    i32::MIN <= x <= i32::MAX
}

/// The absolute value of an integer.
pub open spec fn abs(x: int) -> nat {
    if x < 0 {
        (-x) as nat
    } else {
        x as nat
    }
}

/// Division rounding towards zero, as Rust's `/` on integers.
pub open spec fn trunc_div(x: int, y: int) -> int {
    let q = (abs(x) / abs(y)) as int;
    if (x < 0) != (y < 0) {
        -q
    } else {
        q
    }
}

/// The remainder of [`trunc_div`], with the sign of `x`, as Rust's `%`.
pub open spec fn trunc_rem(x: int, y: int) -> int {
    let r = (abs(x) % abs(y)) as int;
    if x < 0 {
        -r
    } else {
        r
    }
}

/// An integer result, or the overflow it would be.
pub open spec fn int_result(x: int) -> Result<ObjV, EvalErrV> {
    if fits_i32(x) {
        Ok(ObjV::Int(x as i32))
    } else {
        Err(EvalErrV::Overflow)
    }
}

/// An arithmetic operation (`+ - * / %`) on two values.
pub open spec fn arith(op: Operation, a: ObjV, b: ObjV) -> Result<ObjV, EvalErrV> {
    match (a, b) {
        (ObjV::Int(x), ObjV::Int(y)) => match op {
            Operation::Add => int_result(x + y),
            Operation::Sub => int_result(x - y),
            Operation::Mul => int_result(x * y),
            Operation::Div => if y == 0 {
                Err(EvalErrV::DivisionByZero)
            } else {
                int_result(trunc_div(x as int, y as int))
            },
            _ => if y == 0 {
                Err(EvalErrV::DivisionByZero)
            } else if x == i32::MIN && y == -1 {
                Err(EvalErrV::Overflow)
            } else {
                int_result(trunc_rem(x as int, y as int))
            },
        },
        _ => Err(EvalErrV::ExpectedIntegers),
    }
}

/// A logical operation (`and`, `or`) on two values.
pub open spec fn logic(op: Operation, a: ObjV, b: ObjV) -> Result<ObjV, EvalErrV> {
    match (a, b) {
        (ObjV::Bool(x), ObjV::Bool(y)) => Ok(
            ObjV::Bool(
                if op == Operation::And {
                    x && y
                } else {
                    x || y
                },
            ),
        ),
        _ => Err(EvalErrV::ExpectedBooleans),
    }
}

/// An ordering comparison (`< > <= >=`) on two values.
pub open spec fn compare(op: Operation, a: ObjV, b: ObjV) -> Result<ObjV, EvalErrV> {
    match (a, b) {
        (ObjV::Int(x), ObjV::Int(y)) => Ok(
            ObjV::Bool(
                match op {
                    Operation::Lt => x < y,
                    Operation::Gt => x > y,
                    Operation::Le => x <= y,
                    _ => x >= y,
                },
            ),
        ),
        _ => Err(EvalErrV::ExpectedComparable),
    }
}

/// `==` on two values: integers, booleans and strings compare with their own kind.
pub open spec fn equals(a: ObjV, b: ObjV) -> Result<ObjV, EvalErrV> {
    match (a, b) {
        (ObjV::Int(x), ObjV::Int(y)) => Ok(ObjV::Bool(x == y)),
        (ObjV::Bool(x), ObjV::Bool(y)) => Ok(ObjV::Bool(x == y)),
        (ObjV::Str(x), ObjV::Str(y)) => Ok(ObjV::Bool(x == y)),
        _ => Err(EvalErrV::UnsupportedEquality),
    }
}

/// The value of `a op b`, or the error it raises.
pub open spec fn binary(op: Operation, a: ObjV, b: ObjV) -> Result<ObjV, EvalErrV> {
    match op {
        Operation::Add | Operation::Sub | Operation::Mul | Operation::Div | Operation::Mod => arith(op, a, b),
        Operation::And | Operation::Or => logic(op, a, b),
        Operation::Eq => equals(a, b),
        _ => compare(op, a, b),
    }
}

/// `a < b` is `b > a`, and `a <= b` is `b >= a`.
pub proof fn lemma_compare_flip(a: ObjV, b: ObjV)
    ensures
        compare(Operation::Lt, a, b) == compare(Operation::Gt, b, a),
        compare(Operation::Le, a, b) == compare(Operation::Ge, b, a),
{
}

/// `==` is symmetric.
pub proof fn lemma_equals_symmetric(a: ObjV, b: ObjV)
    ensures
        equals(a, b) == equals(b, a),
{
}

/// `+`, `*`, `and` and `or` do not depend on the order of their operands.
pub proof fn lemma_commutative(op: Operation, a: ObjV, b: ObjV)
    requires
        op == Operation::Add || op == Operation::Mul || op == Operation::And || op == Operation::Or,
    ensures
        binary(op, a, b) == binary(op, b, a),
{
    if op == Operation::Mul {
        if let (ObjV::Int(x), ObjV::Int(y)) = (a, b) {
            assert(x * y == y * x) by (nonlinear_arith);
        }
    }
}

/// Rust's division identity: the quotient times the divisor, plus the
/// remainder, gives back the dividend; the remainder is smaller than the
/// divisor and has the sign of the dividend.
pub proof fn lemma_div_rem(x: int, y: int)
    requires
        y != 0,
    ensures
        trunc_div(x, y) * y + trunc_rem(x, y) == x,
        abs(trunc_rem(x, y)) < abs(y),
        trunc_rem(x, y) == 0 || (trunc_rem(x, y) < 0) == (x < 0),
{
    let ax = abs(x) as int;
    let ay = abs(y) as int;
    let q = ax / ay;
    let r = ax % ay;
    assert(ax == q * ay + r && 0 <= r < ay) by {
        vstd::arithmetic::div_mod::lemma_fundamental_div_mod(ax, ay);
    }
    if x < 0 && y < 0 {
        assert(q * y + -r == x) by (nonlinear_arith)
            requires ax == q * ay + r, ax == -x, ay == -y;
    } else if x < 0 {
        assert(-q * y + -r == x) by (nonlinear_arith)
            requires ax == q * ay + r, ax == -x, ay == y;
    } else if y < 0 {
        assert(-q * y + r == x) by (nonlinear_arith)
            requires ax == q * ay + r, ax == x, ay == -y;
    } else {
        assert(q * y + r == x) by (nonlinear_arith)
            requires ax == q * ay + r, ax == x, ay == y;
    }
}

/// Quotient and remainder of `x` by `y != 0`, as Rust computes them, fit in
/// an `i32` unless the quotient is that of `i32::MIN` by `-1`.
proof fn lemma_div_rem_fit(x: i32, y: i32)
    requires
        y != 0,
    ensures
        fits_i32(trunc_rem(x as int, y as int)),
        !(x == i32::MIN && y == -1) ==> fits_i32(trunc_div(x as int, y as int)),
{
    let ax = abs(x as int) as int;
    let ay = abs(y as int) as int;
    let q = ax / ay;
    let r = ax % ay;
    assert(ax == q * ay + r && 0 <= r < ay) by {
        vstd::arithmetic::div_mod::lemma_fundamental_div_mod(ax, ay);
    }
    assert(0 <= q <= ax) by (nonlinear_arith)
        requires ax == q * ay + r, 0 <= r < ay, ay >= 1, ax >= 0;
    if q == 0x8000_0000 {
        assert(ay == 1) by (nonlinear_arith)
            requires ax == q * ay + r, 0 <= r, ay >= 1, ax <= 0x8000_0000, q == 0x8000_0000;
    }
}

/// What the operators compute on values. On integers, `+ - *` give the
/// mathematical result when it fits in an `i32` and an overflow error
/// otherwise; `/` and `%` give the quotient and remainder that satisfy the
/// division identity, with the remainder smaller than the divisor and of the
/// dividend's sign, and fail on a zero divisor; comparisons give their truth.
/// On booleans, `and`, `or` and `==` give the logical values. Operands of the
/// wrong kinds are errors.
pub proof fn lemma_operator_values(x: i32, y: i32, p: bool, q: bool)
    ensures
        binary(Operation::Add, ObjV::Int(x), ObjV::Int(y)) == if fits_i32(x + y) {
            Ok::<ObjV, EvalErrV>(ObjV::Int((x + y) as i32))
        } else {
            Err(EvalErrV::Overflow)
        },
        binary(Operation::Sub, ObjV::Int(x), ObjV::Int(y)) == if fits_i32(x - y) {
            Ok::<ObjV, EvalErrV>(ObjV::Int((x - y) as i32))
        } else {
            Err(EvalErrV::Overflow)
        },
        binary(Operation::Mul, ObjV::Int(x), ObjV::Int(y)) == if fits_i32(x * y) {
            Ok::<ObjV, EvalErrV>(ObjV::Int((x * y) as i32))
        } else {
            Err(EvalErrV::Overflow)
        },
        y == 0 ==> binary(Operation::Div, ObjV::Int(x), ObjV::Int(y)) == Err::<ObjV, EvalErrV>(
            EvalErrV::DivisionByZero,
        ),
        y == 0 ==> binary(Operation::Mod, ObjV::Int(x), ObjV::Int(y)) == Err::<ObjV, EvalErrV>(
            EvalErrV::DivisionByZero,
        ),
        x == i32::MIN && y == -1 ==> binary(Operation::Div, ObjV::Int(x), ObjV::Int(y)) == Err::<ObjV, EvalErrV>(
            EvalErrV::Overflow,
        ),
        y != 0 && !(x == i32::MIN && y == -1) ==> {
            &&& binary(Operation::Div, ObjV::Int(x), ObjV::Int(y)) matches Ok(ObjV::Int(d))
            &&& binary(Operation::Mod, ObjV::Int(x), ObjV::Int(y)) matches Ok(ObjV::Int(m))
            &&& d * y + m == x
            &&& abs(m as int) < abs(y as int)
            &&& (m == 0 || (m < 0) == (x < 0))
        },
        binary(Operation::Eq, ObjV::Int(x), ObjV::Int(y)) == Ok::<ObjV, EvalErrV>(ObjV::Bool(x == y)),
        binary(Operation::Lt, ObjV::Int(x), ObjV::Int(y)) == Ok::<ObjV, EvalErrV>(ObjV::Bool(x < y)),
        binary(Operation::Gt, ObjV::Int(x), ObjV::Int(y)) == Ok::<ObjV, EvalErrV>(ObjV::Bool(x > y)),
        binary(Operation::Le, ObjV::Int(x), ObjV::Int(y)) == Ok::<ObjV, EvalErrV>(ObjV::Bool(x <= y)),
        binary(Operation::Ge, ObjV::Int(x), ObjV::Int(y)) == Ok::<ObjV, EvalErrV>(ObjV::Bool(x >= y)),
        binary(Operation::And, ObjV::Bool(p), ObjV::Bool(q)) == Ok::<ObjV, EvalErrV>(ObjV::Bool(p && q)),
        binary(Operation::Or, ObjV::Bool(p), ObjV::Bool(q)) == Ok::<ObjV, EvalErrV>(ObjV::Bool(p || q)),
        binary(Operation::Eq, ObjV::Bool(p), ObjV::Bool(q)) == Ok::<ObjV, EvalErrV>(ObjV::Bool(p == q)),
        binary(Operation::Add, ObjV::Int(x), ObjV::Bool(p)) == Err::<ObjV, EvalErrV>(EvalErrV::ExpectedIntegers),
        binary(Operation::Or, ObjV::Int(x), ObjV::Bool(p)) == Err::<ObjV, EvalErrV>(EvalErrV::ExpectedBooleans),
        binary(Operation::And, ObjV::Bool(p), ObjV::Int(x)) == Err::<ObjV, EvalErrV>(EvalErrV::ExpectedBooleans),
        binary(Operation::Lt, ObjV::Bool(p), ObjV::Int(x)) == Err::<ObjV, EvalErrV>(EvalErrV::ExpectedComparable),
        binary(Operation::Eq, ObjV::Int(x), ObjV::Bool(p)) == Err::<ObjV, EvalErrV>(
            EvalErrV::UnsupportedEquality,
        ),
{
    if y != 0 {
        lemma_div_rem(x as int, y as int);
        lemma_div_rem_fit(x, y);
        if x == i32::MIN && y == -1 {
            assert(trunc_div(x as int, y as int) == 0x8000_0000);
        }
    }
}

/// How a value is printed.
pub open spec fn display(o: ObjV) -> Seq<char>
    decreases o,
{
    match o {
        ObjV::Bool(b) => if b {
            "true"@
        } else {
            "false"@
        },
        ObjV::Int(n) => decimal(n as int),
        ObjV::Str(s) => s,
        ObjV::Array(items) => "["@ + display_list(items) + "]"@,
        ObjV::Void => seq![],
        ObjV::Function { .. } => "Function"@,
        ObjV::BuiltIn(_) => "Builtin function"@,
        ObjV::Return(inner) => display(*inner),
    }
}

/// The printed values of a list, separated by `", "`.
pub open spec fn display_list(items: Seq<ObjV>) -> Seq<char>
    decreases items,
{
    if items.len() == 0 {
        seq![]
    } else if items.len() == 1 {
        display(items[0])
    } else {
        display(items[0]) + ", "@ + display_list(items.drop_first())
    }
}

/// Printing a list with one more value appends it after a separator.
pub proof fn lemma_display_list_push(s: Seq<ObjV>, x: ObjV)
    ensures
        display_list(s.push(x)) == if s.len() == 0 {
            display(x)
        } else {
            display_list(s) + ", "@ + display(x)
        },
    decreases s.len(),
{
    let t = s.push(x);
    if s.len() == 0 {
        assert(t =~= seq![x]);
    } else if s.len() == 1 {
        assert(t.drop_first() =~= seq![x]);
        assert(display_list(t.drop_first()) == display(x));
        assert(display_list(s) == display(s[0]));
        assert(display_list(t) == display(t[0]) + ", "@ + display_list(t.drop_first()));
    } else {
        lemma_display_list_push(s.drop_first(), x);
        assert(t.drop_first() =~= s.drop_first().push(x));
        assert(display_list(t) == display(t[0]) + ", "@ + display_list(t.drop_first()));
        assert(display_list(s) == display(s[0]) + ", "@ + display_list(s.drop_first()));
        assert(display_list(t) =~= display_list(s) + ", "@ + display(x));
    }
}

/// Structural equality of values, as `PartialEq` compares them: functions
/// are never equal, built-ins are equal to themselves.
pub open spec fn same_value(a: ObjV, b: ObjV) -> bool
    decreases a,
{
    match (a, b) {
        (ObjV::Bool(x), ObjV::Bool(y)) => x == y,
        (ObjV::Int(x), ObjV::Int(y)) => x == y,
        (ObjV::Str(x), ObjV::Str(y)) => x == y,
        (ObjV::Array(x), ObjV::Array(y)) => x.len() == y.len() && same_values(x, y),
        (ObjV::Void, ObjV::Void) => true,
        (ObjV::Return(x), ObjV::Return(y)) => same_value(*x, *y),
        (ObjV::BuiltIn(x), ObjV::BuiltIn(y)) => x == y,
        _ => false,
    }
}

/// Element-wise [`same_value`] of two lists of the same length.
pub open spec fn same_values(a: Seq<ObjV>, b: Seq<ObjV>) -> bool
    decreases a,
{
    if a.len() == 0 || b.len() == 0 {
        true
    } else {
        same_value(a[0], b[0]) && same_values(a.drop_first(), b.drop_first())
    }
}

fn int_pair(a: &WhispObj, b: &WhispObj) -> (r: Option<(i32, i32)>)
    ensures
        match (a@, b@) {
            (ObjV::Int(x), ObjV::Int(y)) => r == Some((x, y)),
            _ => r is None,
        },
{
    match (a, b) {
        (WhispObj::Int(x), WhispObj::Int(y)) => Some((*x, *y)),
        _ => None,
    }
}

fn bool_pair(a: &WhispObj, b: &WhispObj) -> (r: Option<(bool, bool)>)
    ensures
        match (a@, b@) {
            (ObjV::Bool(x), ObjV::Bool(y)) => r == Some((x, y)),
            _ => r is None,
        },
{
    match (a, b) {
        (WhispObj::Bool(x), WhispObj::Bool(y)) => Some((*x, *y)),
        _ => None,
    }
}

/// `x / y` rounding towards zero, computed on magnitudes.
pub(crate) fn div_trunc(x: i32, y: i32) -> (r: i64)
    requires
        y != 0,
    ensures
        r == trunc_div(x as int, y as int),
{
    let ax: u64 = if x < 0 { (-(x as i64)) as u64 } else { x as u64 };
    let ay: u64 = if y < 0 { (-(y as i64)) as u64 } else { y as u64 };
    assert(ax == abs(x as int) && ay == abs(y as int));
    let q: u64 = ax / ay;
    assert(q <= ax) by (nonlinear_arith)
        requires
            ay >= 1,
            q == ax / ay,
    ;
    if (x < 0) != (y < 0) {
        -(q as i64)
    } else {
        q as i64
    }
}

/// `x % y` with the sign of `x`, computed on magnitudes.
fn rem_trunc(x: i32, y: i32) -> (r: i64)
    requires
        y != 0,
    ensures
        r == trunc_rem(x as int, y as int),
{
    let ax: u64 = if x < 0 { (-(x as i64)) as u64 } else { x as u64 };
    let ay: u64 = if y < 0 { (-(y as i64)) as u64 } else { y as u64 };
    assert(ax == abs(x as int) && ay == abs(y as int));
    let m: u64 = ax % ay;
    assert(m < ay);
    if x < 0 {
        -(m as i64)
    } else {
        m as i64
    }
}

impl WhispObj {
    /// The sum of two integers.
    pub fn add(self, other: WhispObj) -> (r: WhispObj)
        requires
            arith(Operation::Add, self@, other@) is Ok,
        ensures
            Ok::<ObjV, EvalErrV>(r@) == arith(Operation::Add, self@, other@),
    {
        match (self, other) {
            (WhispObj::Int(a), WhispObj::Int(b)) => WhispObj::Int(a + b),
            _ => WhispObj::Void(()),
        }
    }

    /// The difference of two integers.
    pub fn sub(self, other: WhispObj) -> (r: WhispObj)
        requires
            arith(Operation::Sub, self@, other@) is Ok,
        ensures
            Ok::<ObjV, EvalErrV>(r@) == arith(Operation::Sub, self@, other@),
    {
        match (self, other) {
            (WhispObj::Int(a), WhispObj::Int(b)) => WhispObj::Int(a - b),
            _ => WhispObj::Void(()),
        }
    }

    /// The product of two integers.
    pub fn mul(self, other: WhispObj) -> (r: WhispObj)
        requires
            arith(Operation::Mul, self@, other@) is Ok,
        ensures
            Ok::<ObjV, EvalErrV>(r@) == arith(Operation::Mul, self@, other@),
    {
        match (self, other) {
            (WhispObj::Int(a), WhispObj::Int(b)) => WhispObj::Int(a * b),
            _ => WhispObj::Void(()),
        }
    }

    /// The quotient of two integers, rounded towards zero.
    pub fn div(self, other: WhispObj) -> (r: WhispObj)
        requires
            arith(Operation::Div, self@, other@) is Ok,
        ensures
            Ok::<ObjV, EvalErrV>(r@) == arith(Operation::Div, self@, other@),
    {
        match (self, other) {
            (WhispObj::Int(a), WhispObj::Int(b)) => WhispObj::Int(div_trunc(a, b) as i32),
            _ => WhispObj::Void(()),
        }
    }

    /// The remainder of two integers, with the sign of the dividend.
    pub fn modulo(self, other: WhispObj) -> (r: WhispObj)
        requires
            arith(Operation::Mod, self@, other@) is Ok,
        ensures
            Ok::<ObjV, EvalErrV>(r@) == arith(Operation::Mod, self@, other@),
    {
        match (self, other) {
            (WhispObj::Int(a), WhispObj::Int(b)) => WhispObj::Int(rem_trunc(a, b) as i32),
            _ => WhispObj::Void(()),
        }
    }

    /// The conjunction of two booleans.
    pub fn and(self, other: WhispObj) -> (r: WhispObj)
        requires
            logic(Operation::And, self@, other@) is Ok,
        ensures
            Ok::<ObjV, EvalErrV>(r@) == logic(Operation::And, self@, other@),
    {
        match (self, other) {
            (WhispObj::Bool(a), WhispObj::Bool(b)) => WhispObj::Bool(a && b),
            _ => WhispObj::Void(()),
        }
    }

    /// The disjunction of two booleans.
    pub fn or(self, other: WhispObj) -> (r: WhispObj)
        requires
            logic(Operation::Or, self@, other@) is Ok,
        ensures
            Ok::<ObjV, EvalErrV>(r@) == logic(Operation::Or, self@, other@),
    {
        match (self, other) {
            (WhispObj::Bool(a), WhispObj::Bool(b)) => WhispObj::Bool(a || b),
            _ => WhispObj::Void(()),
        }
    }

    /// Whether one integer is less than another.
    pub fn lt(self, other: WhispObj) -> (r: WhispObj)
        requires
            compare(Operation::Lt, self@, other@) is Ok,
        ensures
            Ok::<ObjV, EvalErrV>(r@) == compare(Operation::Lt, self@, other@),
    {
        match (self, other) {
            (WhispObj::Int(a), WhispObj::Int(b)) => WhispObj::Bool(a < b),
            _ => WhispObj::Void(()),
        }
    }

    /// Whether one integer is greater than another.
    pub fn gt(self, other: WhispObj) -> (r: WhispObj)
        requires
            compare(Operation::Gt, self@, other@) is Ok,
        ensures
            Ok::<ObjV, EvalErrV>(r@) == compare(Operation::Gt, self@, other@),
    {
        match (self, other) {
            (WhispObj::Int(a), WhispObj::Int(b)) => WhispObj::Bool(a > b),
            _ => WhispObj::Void(()),
        }
    }

    /// Whether one integer is at most another.
    pub fn le(self, other: WhispObj) -> (r: WhispObj)
        requires
            compare(Operation::Le, self@, other@) is Ok,
        ensures
            Ok::<ObjV, EvalErrV>(r@) == compare(Operation::Le, self@, other@),
    {
        match (self, other) {
            (WhispObj::Int(a), WhispObj::Int(b)) => WhispObj::Bool(a <= b),
            _ => WhispObj::Void(()),
        }
    }

    /// Whether one integer is at least another.
    pub fn ge(self, other: WhispObj) -> (r: WhispObj)
        requires
            compare(Operation::Ge, self@, other@) is Ok,
        ensures
            Ok::<ObjV, EvalErrV>(r@) == compare(Operation::Ge, self@, other@),
    {
        match (self, other) {
            (WhispObj::Int(a), WhispObj::Int(b)) => WhispObj::Bool(a >= b),
            _ => WhispObj::Void(()),
        }
    }

    /// Whether two integers, booleans or strings are equal.
    pub fn eq(self, other: WhispObj) -> (r: WhispObj)
        requires
            equals(self@, other@) is Ok,
        ensures
            Ok::<ObjV, EvalErrV>(r@) == equals(self@, other@),
    {
        WhispObj::Bool(
            match (self, other) {
                (WhispObj::Int(a), WhispObj::Int(b)) => a == b,
                (WhispObj::Bool(a), WhispObj::Bool(b)) => a == b,
                (WhispObj::Str(a), WhispObj::Str(b)) => a == b,
                _ => false,
            },
        )
    }

    /// `self op other`, or the error it raises (a wrong kind of operand,
    /// an overflow, a division by zero).
    pub fn apply(self, op: Operation, other: WhispObj) -> (r: Result<WhispObj, EvalError>)
        ensures
            match r {
                Ok(v) => binary(op, self@, other@) == Ok::<ObjV, EvalErrV>(v@),
                Err(e) => binary(op, self@, other@) == Err::<ObjV, EvalErrV>(e@),
            },
    {
        match op {
            Operation::Add | Operation::Sub | Operation::Mul | Operation::Div | Operation::Mod => {
                let (x, y) = match int_pair(&self, &other) {
                    Some(p) => p,
                    None => {
                        return Err(EvalError::ExpectedIntegers);
                    },
                };
                let wide: i64 = match op {
                    Operation::Add => x as i64 + y as i64,
                    Operation::Sub => x as i64 - y as i64,
                    Operation::Mul => {
                        assert(-0x8000_0000 * 0x8000_0000 <= (x as int) * (y as int) <= 0x8000_0000
                            * 0x8000_0000) by (nonlinear_arith)
                            requires
                                -0x8000_0000 <= x < 0x8000_0000,
                                -0x8000_0000 <= y < 0x8000_0000,
                        ;
                        x as i64 * y as i64
                    },
                    Operation::Div => {
                        if y == 0 {
                            return Err(EvalError::DivisionByZero);
                        }
                        div_trunc(x, y)
                    },
                    _ => {
                        if y == 0 {
                            return Err(EvalError::DivisionByZero);
                        }
                        if x == i32::MIN && y == -1 {
                            return Err(EvalError::Overflow);
                        }
                        rem_trunc(x, y)
                    },
                };
                if wide < i32::MIN as i64 || wide > i32::MAX as i64 {
                    return Err(EvalError::Overflow);
                }
                Ok(
                    match op {
                        Operation::Add => self.add(other),
                        Operation::Sub => self.sub(other),
                        Operation::Mul => self.mul(other),
                        Operation::Div => self.div(other),
                        _ => self.modulo(other),
                    },
                )
            },
            Operation::And | Operation::Or => {
                if bool_pair(&self, &other).is_none() {
                    return Err(EvalError::ExpectedBooleans);
                }
                Ok(
                    match op {
                        Operation::And => self.and(other),
                        _ => self.or(other),
                    },
                )
            },
            Operation::Eq => {
                let comparable = match (&self, &other) {
                    (WhispObj::Int(_), WhispObj::Int(_)) => true,
                    (WhispObj::Bool(_), WhispObj::Bool(_)) => true,
                    (WhispObj::Str(_), WhispObj::Str(_)) => true,
                    _ => false,
                };
                if !comparable {
                    return Err(EvalError::UnsupportedEquality);
                }
                Ok(self.eq(other))
            },
            _ => {
                if int_pair(&self, &other).is_none() {
                    return Err(EvalError::ExpectedComparable);
                }
                Ok(
                    match op {
                        Operation::Lt => self.lt(other),
                        Operation::Gt => self.gt(other),
                        Operation::Le => self.le(other),
                        _ => self.ge(other),
                    },
                )
            },
        }
    }

    /// A copy of this value with the same model.
    pub fn deep_copy(&self) -> (r: WhispObj)
        ensures
            r@ == self@,
        decreases self,
    {
        match self {
            WhispObj::Bool(b) => WhispObj::Bool(*b),
            WhispObj::Int(n) => WhispObj::Int(*n),
            WhispObj::Str(s) => WhispObj::Str(s.clone()),
            WhispObj::Array(a) => WhispObj::Array(copy_objs(a)),
            WhispObj::Void(_) => WhispObj::Void(()),
            WhispObj::Function { params, body } => WhispObj::Function {
                params: clone_nodes(params),
                body: Box::new(body.deep_clone()),
            },
            WhispObj::BuiltInFunction { callback } => WhispObj::BuiltInFunction { callback: *callback },
            WhispObj::Return(inner) => WhispObj::Return(Box::new(inner.deep_copy())),
        }
    }

    /// Whether two values are equal as `PartialEq` compares them.
    pub fn same_as(&self, other: &WhispObj) -> (r: bool)
        ensures
            r == same_value(self@, other@),
        decreases self,
    {
        match (self, other) {
            (WhispObj::Bool(a), WhispObj::Bool(b)) => *a == *b,
            (WhispObj::Int(a), WhispObj::Int(b)) => *a == *b,
            (WhispObj::Str(a), WhispObj::Str(b)) => *a == *b,
            (WhispObj::Array(a), WhispObj::Array(b)) => same_items(a, b),
            (WhispObj::Void(_), WhispObj::Void(_)) => true,
            (WhispObj::Return(a), WhispObj::Return(b)) => a.same_as(b),
            (WhispObj::BuiltInFunction { callback: a }, WhispObj::BuiltInFunction { callback: b }) => *a == *b,
            _ => false,
        }
    }

    /// How this value is printed.
    pub fn to_string(&self) -> (r: String)
        ensures
            r@ == display(self@),
    {
        let mut s = String::new();
        push_display(&mut s, self);
        s
    }
}

/// Whether two lists of values are element-wise equal as `PartialEq` compares them.
fn same_items(a: &Vec<WhispObj>, b: &Vec<WhispObj>) -> (r: bool)
    ensures
        r == (obj_views(a@).len() == obj_views(b@).len() && same_values(obj_views(a@), obj_views(b@))),
    decreases a,
{
    let ghost va = obj_views(a@);
    let ghost vb = obj_views(b@);
    proof {
        lemma_obj_views(a@);
        lemma_obj_views(b@);
    }
    if a.len() != b.len() {
        return false;
    }
    proof {
        assert(va.skip(0) =~= va);
        assert(vb.skip(0) =~= vb);
    }
    let mut i: usize = 0;
    while i < a.len()
        invariant
            i <= a.len(),
            a.len() == b.len(),
            va == obj_views(a@),
            vb == obj_views(b@),
            va.len() == a.len(),
            vb.len() == b.len(),
            forall|j: int| 0 <= j < a.len() ==> #[trigger] va[j] == a@[j]@,
            forall|j: int| 0 <= j < b.len() ==> #[trigger] vb[j] == b@[j]@,
            same_values(va, vb) == same_values(va.skip(i as int), vb.skip(i as int)),
        decreases a.len() - i,
    {
        proof {
            assert(decreases_to!(a => a@[i as int]));
            let sa = va.skip(i as int);
            let sb = vb.skip(i as int);
            assert(sa[0] == va[i as int]);
            assert(sb[0] == vb[i as int]);
            assert(sa.drop_first() =~= va.skip(i as int + 1));
            assert(sb.drop_first() =~= vb.skip(i as int + 1));
        }
        if !a[i].same_as(&b[i]) {
            return false;
        }
        i += 1;
    }
    proof {
        assert(va.skip(i as int).len() == 0);
    }
    true
}

/// Appends the printed values of a list, separated by `", "`.
fn push_display_items(s: &mut String, items: &Vec<WhispObj>)
    ensures
        final(s)@ == old(s)@ + display_list(obj_views(items@)),
    decreases items,
{
    let ghost mid = s@;
    let ghost vs = obj_views(items@);
    proof {
        lemma_obj_views(items@);
        assert(vs.take(0) =~= seq![]);
        assert(mid + display_list(vs.take(0)) =~= mid);
    }
    let mut i: usize = 0;
    while i < items.len()
        invariant
            i <= items.len(),
            vs == obj_views(items@),
            vs.len() == items.len(),
            forall|j: int| 0 <= j < items.len() ==> #[trigger] vs[j] == items@[j]@,
            s@ == mid + display_list(vs.take(i as int)),
            mid == old(s)@,
        decreases items.len() - i,
    {
        proof {
            assert(decreases_to!(items => items@[i as int]));
            lemma_display_list_push(vs.take(i as int), vs[i as int]);
            assert(vs.take(i as int).push(vs[i as int]) =~= vs.take(i as int + 1));
        }
        if i > 0 {
            push_str(s, ", ");
        }
        push_display(s, &items[i]);
        i += 1;
        proof {
            assert(s@ =~= mid + display_list(vs.take(i as int)));
        }
    }
    proof {
        assert(vs.take(i as int) =~= vs);
    }
}

/// A copy of a list of values with the same models.
pub fn copy_objs(v: &Vec<WhispObj>) -> (r: Vec<WhispObj>)
    ensures
        obj_views(r@) == obj_views(v@),
        r@.len() == v@.len(),
    decreases v,
{
    let mut r: Vec<WhispObj> = Vec::new();
    let mut i: usize = 0;
    while i < v.len()
        invariant
            i <= v.len(),
            r@.len() == i,
            forall|j: int| 0 <= j < i ==> #[trigger] r@[j].model() == v@[j].model(),
        decreases v.len() - i,
    {
        proof {
            assert(decreases_to!(v => v[i as int]));
        }
        let c = v[i].deep_copy();
        r.push(c);
        i += 1;
    }
    proof {
        lemma_obj_views(v@);
        lemma_obj_views_ext(r@, obj_views(v@));
    }
    r
}

/// Appends how `o` is printed to `s`.
pub fn push_display(s: &mut String, o: &WhispObj)
    ensures
        final(s)@ == old(s)@ + display(o@),
    decreases o,
{
    match o {
        WhispObj::Bool(b) => {
            if *b {
                push_str(s, "true");
            } else {
                push_str(s, "false");
            }
        },
        WhispObj::Int(n) => push_decimal(s, *n as i64),
        WhispObj::Str(t) => push_str(s, t.as_str()),
        WhispObj::Array(items) => {
            push_str(s, "[");
            push_display_items(s, items);
            push_str(s, "]");
            assert(final(s)@ =~= old(s)@ + display(o@));
        },
        WhispObj::Void(_) => {
            assert(display(o@) =~= seq![]);
            assert(old(s)@ + display(o@) =~= old(s)@);
        },
        WhispObj::Function { .. } => push_str(s, "Function"),
        WhispObj::BuiltInFunction { .. } => push_str(s, "Builtin function"),
        WhispObj::Return(inner) => push_display(s, inner),
    }
}

impl Clone for WhispObj {
    fn clone(&self) -> (r: Self)
        ensures
            r@ == self@,
    {
        self.deep_copy()
    }
}

impl PartialEq for WhispObj {
    fn eq(&self, other: &Self) -> (r: bool) {
        self.same_as(other)
    }
}

impl vstd::std_specs::cmp::PartialEqSpecImpl for WhispObj {
    open spec fn obeys_eq_spec() -> bool {
        true
    }

    open spec fn eq_spec(&self, other: &WhispObj) -> bool {
        same_value(self@, other@)
    }
}

} // verus!
