//! The first form of runtime values, with the operations on them.
use vstd::prelude::*;

use crate::object::{fits_i32, trunc_div, div_trunc};
use crate::text::{decimal, push_decimal, push_str};
use crate::tree::{ASTNode, SpecAst};

verus! {

/// The arguments of a function value.
pub type FunctionArgs = Vec<Value>;

/// The elements of an array value.
pub type List = Vec<Value>;

/// A value of the first form of the runtime.
#[derive(Debug)]
pub enum Value {
    Bool(bool),
    Int(i32),
    Str(String),
    Array(List),
    Void(()),
    Function { params: FunctionArgs, body: Box<ASTNode> },
    Return(Box<Value>),
}

/// The mathematical model of a [`Value`].
pub enum ValV {
    Bool(bool),
    Int(i32),
    Str(Seq<char>),
    Array(Seq<ValV>),
    Void,
    Function { params: Seq<ValV>, body: SpecAst },
    Return(Box<ValV>),
}

/// The models of a list of values.
pub open spec fn value_models(s: Seq<Value>) -> Seq<ValV>
    decreases s,
{
    if s.len() == 0 {
        seq![]
    } else {
        seq![s[0].model()] + value_models(s.drop_first())
    }
}

impl Value {
    /// The model of this value (see [`ValV`]).
    pub open spec fn model(&self) -> ValV
        decreases self,
    {
        match self {
            Value::Bool(b) => ValV::Bool(*b),
            Value::Int(n) => ValV::Int(*n),
            Value::Str(s) => ValV::Str(s@),
            Value::Array(a) => ValV::Array(value_models(a@)),
            Value::Void(_) => ValV::Void,
            Value::Function { params, body } => ValV::Function { params: value_models(params@), body: body@ },
            Value::Return(inner) => ValV::Return(Box::new(inner.model())),
        }
    }
}

impl View for Value {
    type V = ValV;

    open spec fn view(&self) -> ValV {
        self.model()
    }
}

/// `value_models` is the element-wise model of a list of values.
pub proof fn lemma_value_models(s: Seq<Value>)
    ensures
        value_models(s).len() == s.len(),
        forall|i: int| 0 <= i < s.len() ==> #[trigger] value_models(s)[i] == s[i].model(),
    decreases s.len(),
{
    if s.len() > 0 {
        lemma_value_models(s.drop_first());
        assert forall|i: int| 0 <= i < s.len() implies #[trigger] value_models(s)[i] == s[i].model() by {
            if i > 0 {
                assert(value_models(s)[i] == value_models(s.drop_first())[i - 1]);
            }
        }
    }
}

/// Two lists of values with element-wise equal models have equal models.
pub proof fn lemma_value_models_ext(a: Seq<Value>, b: Seq<ValV>)
    requires
        a.len() == b.len(),
        forall|i: int| 0 <= i < a.len() ==> #[trigger] a[i].model() == b[i],
    ensures
        value_models(a) == b,
{
    lemma_value_models(a);
    assert(value_models(a) =~= b);
}

/// Both values are integers.
pub open spec fn both_int(a: Value, b: Value) -> bool {
    a is Int && b is Int
}

/// Both values are booleans.
pub open spec fn both_bool(a: Value, b: Value) -> bool {
    a is Bool && b is Bool
}

impl Value {
    /// The sum of two integers.
    pub fn add(self, other: Value) -> (r: Value)
        requires
            both_int(self, other),
            fits_i32(self->Int_0 + other->Int_0),
        ensures
            r == Value::Int((self->Int_0 + other->Int_0) as i32),
    {
        match (self, other) {
            (Value::Int(a), Value::Int(b)) => Value::Int(a + b),
            _ => Value::Void(()),
        }
    }

    /// The difference of two integers.
    pub fn sub(self, other: Value) -> (r: Value)
        requires
            both_int(self, other),
            fits_i32(self->Int_0 - other->Int_0),
        ensures
            r == Value::Int((self->Int_0 - other->Int_0) as i32),
    {
        match (self, other) {
            (Value::Int(a), Value::Int(b)) => Value::Int(a - b),
            _ => Value::Void(()),
        }
    }

    /// The product of two integers.
    pub fn mul(self, other: Value) -> (r: Value)
        requires
            both_int(self, other),
            fits_i32(self->Int_0 * other->Int_0),
        ensures
            r == Value::Int((self->Int_0 * other->Int_0) as i32),
    {
        match (self, other) {
            (Value::Int(a), Value::Int(b)) => Value::Int(a * b),
            _ => Value::Void(()),
        }
    }

    /// The quotient of two integers, rounded towards zero.
    pub fn div(self, other: Value) -> (r: Value)
        requires
            both_int(self, other),
            other->Int_0 != 0,
            fits_i32(trunc_div(self->Int_0 as int, other->Int_0 as int)),
        ensures
            r == Value::Int(trunc_div(self->Int_0 as int, other->Int_0 as int) as i32),
    {
        match (self, other) {
            (Value::Int(a), Value::Int(b)) => Value::Int(div_trunc(a, b) as i32),
            _ => Value::Void(()),
        }
    }

    /// The conjunction of two booleans.
    pub fn and(self, other: Value) -> (r: Value)
        requires
            both_bool(self, other),
        ensures
            r == Value::Bool(self->Bool_0 && other->Bool_0),
    {
        match (self, other) {
            (Value::Bool(a), Value::Bool(b)) => Value::Bool(a && b),
            _ => Value::Void(()),
        }
    }

    /// The disjunction of two booleans.
    pub fn or(self, other: Value) -> (r: Value)
        requires
            both_bool(self, other),
        ensures
            r == Value::Bool(self->Bool_0 || other->Bool_0),
    {
        match (self, other) {
            (Value::Bool(a), Value::Bool(b)) => Value::Bool(a || b),
            _ => Value::Void(()),
        }
    }

    /// Whether one integer is less than another.
    pub fn lt(self, other: Value) -> (r: Value)
        requires
            both_int(self, other),
        ensures
            r == Value::Bool(self->Int_0 < other->Int_0),
    {
        match (self, other) {
            (Value::Int(a), Value::Int(b)) => Value::Bool(a < b),
            _ => Value::Void(()),
        }
    }

    /// Whether one integer is greater than another.
    pub fn gt(self, other: Value) -> (r: Value)
        requires
            both_int(self, other),
        ensures
            r == Value::Bool(self->Int_0 > other->Int_0),
    {
        match (self, other) {
            (Value::Int(a), Value::Int(b)) => Value::Bool(a > b),
            _ => Value::Void(()),
        }
    }

    /// Whether one integer is at most another.
    pub fn le(self, other: Value) -> (r: Value)
        requires
            both_int(self, other),
        ensures
            r == Value::Bool(self->Int_0 <= other->Int_0),
    {
        match (self, other) {
            (Value::Int(a), Value::Int(b)) => Value::Bool(a <= b),
            _ => Value::Void(()),
        }
    }

    /// Whether one integer is at least another.
    pub fn ge(self, other: Value) -> (r: Value)
        requires
            both_int(self, other),
        ensures
            r == Value::Bool(self->Int_0 >= other->Int_0),
    {
        match (self, other) {
            (Value::Int(a), Value::Int(b)) => Value::Bool(a >= b),
            _ => Value::Void(()),
        }
    }

    /// Whether two integers, booleans or strings are equal.
    pub fn eq(self, other: Value) -> (r: Value)
        requires
            both_int(self, other) || both_bool(self, other) || (self is Str && other is Str),
        ensures
            r == Value::Bool(
                match (self, other) {
                    (Value::Int(a), Value::Int(b)) => a == b,
                    (Value::Bool(a), Value::Bool(b)) => a == b,
                    (Value::Str(a), Value::Str(b)) => a@ == b@,
                    _ => false,
                },
            ),
    {
        Value::Bool(
            match (self, other) {
                (Value::Int(a), Value::Int(b)) => a == b,
                (Value::Bool(a), Value::Bool(b)) => a == b,
                (Value::Str(a), Value::Str(b)) => a == b,
                _ => false,
            },
        )
    }
}

impl Value {
    /// A copy of this value.
    fn copy(&self) -> (r: Value)
        ensures
            r@ == self@,
        decreases self,
    {
        match self {
            Value::Bool(b) => Value::Bool(*b),
            Value::Int(n) => Value::Int(*n),
            Value::Str(s) => Value::Str(s.clone()),
            Value::Array(a) => Value::Array(copy_values(a)),
            Value::Void(_) => Value::Void(()),
            Value::Function { params, body } => Value::Function {
                params: copy_values(params),
                body: Box::new(body.deep_clone()),
            },
            Value::Return(inner) => Value::Return(Box::new(inner.copy())),
        }
    }
}

/// A copy of a list of values.
fn copy_values(v: &Vec<Value>) -> (r: Vec<Value>)
    ensures
        value_models(r@) == value_models(v@),
        r@.len() == v@.len(),
    decreases v,
{
    let mut r: Vec<Value> = Vec::new();
    let mut i: usize = 0;
    while i < v.len()
        invariant
            i <= v.len(),
            r@.len() == i,
            forall|j: int| 0 <= j < i ==> #[trigger] r@[j].model() == v@[j].model(),
        decreases v.len() - i,
    {
        proof {
            assert(decreases_to!(v => v[i as int]));
        }
        r.push(v[i].copy());
        i += 1;
    }
    proof {
        lemma_value_models(v@);
        lemma_value_models_ext(r@, value_models(v@));
    }
    r
}

/// How a value is printed.
pub open spec fn value_display(v: Value) -> Seq<char>
    decreases v,
{
    match v {
        Value::Bool(b) => if b {
            "true"@
        } else {
            "false"@
        },
        Value::Int(n) => decimal(n as int),
        Value::Str(s) => s@,
        Value::Array(items) => "["@ + value_display_list(items@) + "]"@,
        Value::Void(_) => seq![],
        Value::Return(inner) => value_display(*inner),
        Value::Function { .. } => "Function"@,
    }
}

/// The printed values of a list, separated by `", "`.
pub open spec fn value_display_list(items: Seq<Value>) -> Seq<char>
    decreases items,
{
    if items.len() == 0 {
        seq![]
    } else if items.len() == 1 {
        value_display(items[0])
    } else {
        value_display(items[0]) + ", "@ + value_display_list(items.drop_first())
    }
}

proof fn lemma_value_display_list_push(s: Seq<Value>, x: Value)
    ensures
        value_display_list(s.push(x)) == if s.len() == 0 {
            value_display(x)
        } else {
            value_display_list(s) + ", "@ + value_display(x)
        },
    decreases s.len(),
{
    let t = s.push(x);
    if s.len() == 0 {
        assert(t =~= seq![x]);
    } else if s.len() == 1 {
        assert(t.drop_first() =~= seq![x]);
        assert(value_display_list(t.drop_first()) == value_display(x));
        assert(value_display_list(t) == value_display(t[0]) + ", "@ + value_display_list(t.drop_first()));
    } else {
        lemma_value_display_list_push(s.drop_first(), x);
        assert(t.drop_first() =~= s.drop_first().push(x));
        assert(value_display_list(t) == value_display(t[0]) + ", "@ + value_display_list(t.drop_first()));
        assert(value_display_list(s) == value_display(s[0]) + ", "@ + value_display_list(s.drop_first()));
        assert(value_display_list(t) =~= value_display_list(s) + ", "@ + value_display(x));
    }
}

/// Appends how `v` is printed to `s`.
fn push_value(s: &mut String, v: &Value)
    ensures
        final(s)@ == old(s)@ + value_display(*v),
    decreases v,
{
    match v {
        Value::Bool(b) => {
            if *b {
                push_str(s, "true");
            } else {
                push_str(s, "false");
            }
        },
        Value::Int(n) => push_decimal(s, *n as i64),
        Value::Str(t) => push_str(s, t.as_str()),
        Value::Array(items) => {
            push_str(s, "[");
            push_value_items(s, items);
            push_str(s, "]");
            assert(final(s)@ =~= old(s)@ + value_display(*v));
        },
        Value::Void(_) => {
            assert(old(s)@ + value_display(*v) =~= old(s)@);
        },
        Value::Return(inner) => push_value(s, inner),
        Value::Function { .. } => push_str(s, "Function"),
    }
}

/// Appends the printed values of a list, separated by `", "`.
fn push_value_items(s: &mut String, items: &Vec<Value>)
    ensures
        final(s)@ == old(s)@ + value_display_list(items@),
    decreases items,
{
    let ghost mid = s@;
    proof {
        assert(items@.take(0) =~= seq![]);
        assert(mid + value_display_list(items@.take(0)) =~= mid);
    }
    let mut i: usize = 0;
    while i < items.len()
        invariant
            i <= items.len(),
            s@ == mid + value_display_list(items@.take(i as int)),
            mid == old(s)@,
        decreases items.len() - i,
    {
        proof {
            assert(decreases_to!(items => items@[i as int]));
            lemma_value_display_list_push(items@.take(i as int), items@[i as int]);
            assert(items@.take(i as int).push(items@[i as int]) =~= items@.take(i as int + 1));
        }
        if i > 0 {
            push_str(s, ", ");
        }
        push_value(s, &items[i]);
        i += 1;
        proof {
            assert(s@ =~= mid + value_display_list(items@.take(i as int)));
        }
    }
    proof {
        assert(items@.take(i as int) =~= items@);
    }
}

impl Value {
    /// How this value is printed.
    pub fn to_string(&self) -> (r: String)
        ensures
            r@ == value_display(*self),
    {
        let mut s = String::new();
        push_value(&mut s, self);
        s
    }
}

impl Clone for Value {
    fn clone(&self) -> (r: Self)
        ensures
            r@ == self@,
    {
        self.copy()
    }
}

} // verus!
