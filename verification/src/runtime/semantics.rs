//! What evaluating a syntax tree does: its value or error, the bindings
//! afterwards, the lines printed, and the steps left.
//!
//! Loop iterations and calls of user-defined functions each take a step from
//! a budget; when the budget is spent, evaluation stops with
//! [`EvalErrV::StepLimit`]. Every other construct works on a smaller part of
//! the tree, so evaluation always ends.
use vstd::prelude::*;

use crate::environment::{frames_enter, frames_exit, frames_get, frames_put, frames_update, Frames};
use crate::object::{binary, ObjV};
use crate::runtime::builtin::{builtin_accepts, builtin_printed, builtin_result};
use crate::runtime::error::{EvalErrV, NodeKind};
use crate::object::BuiltinFn;
use crate::tree::SpecAst;

verus! {

/// The state evaluation works on.
pub struct Machine {
    /// The scopes of bindings, innermost last.
    pub frames: Frames,
    /// The lines printed so far.
    pub out: Seq<Seq<char>>,
    /// The steps left.
    pub fuel: nat,
}

/// The outcome of evaluating one node.
pub struct Outcome {
    pub res: Result<ObjV, EvalErrV>,
    pub st: Machine,
}

/// The outcome of evaluating a list of nodes, in order.
pub struct ListOutcome {
    pub res: Result<Seq<ObjV>, EvalErrV>,
    pub st: Machine,
}

pub open spec fn done(v: ObjV, st: Machine) -> Outcome {
    Outcome { res: Ok(v), st }
}

pub open spec fn failed(e: EvalErrV, st: Machine) -> Outcome {
    Outcome { res: Err(e), st }
}

/// The state with other bindings.
pub open spec fn with_frames(st: Machine, frames: Frames) -> Machine {
    Machine { frames, out: st.out, fuel: st.fuel }
}

/// The state with at most `fuel` steps left. Evaluation never adds steps,
/// so this changes nothing on the states that evaluation reaches; it makes
/// the termination of these definitions evident.
pub open spec fn within(st: Machine, fuel: nat) -> Machine {
    Machine {
        frames: st.frames,
        out: st.out,
        fuel: if st.fuel <= fuel {
            st.fuel
        } else {
            fuel
        },
    }
}

/// The size of a tree: its number of nodes and lists.
pub open spec fn size(n: SpecAst) -> nat
    decreases n,
{
    match n {
        SpecAst::Bool { .. } | SpecAst::Numeric { .. } | SpecAst::Str { .. } | SpecAst::Identifier { .. } => 1,
        SpecAst::Statements { stmts } => 1 + size_list(stmts),
        SpecAst::Array { elements } => 1 + size_list(elements),
        SpecAst::ArrayIndex { arr, index } => 1 + size(*arr) + size(*index),
        SpecAst::BinaryOp { lhs, rhs, .. } => 1 + size(*lhs) + size(*rhs),
        SpecAst::Import { path } => 1 + size_list(path),
        SpecAst::Assign { identifier, body } => 1 + size(*identifier) + size(*body),
        SpecAst::LetBinding { identifier, body } => 1 + size(*identifier) + size(*body),
        SpecAst::WhileLoop { cond, body } => 1 + size(*cond) + size(*body),
        SpecAst::ForLoop { itr, var, body } => 1 + size(*itr) + size(*var) + size(*body),
        SpecAst::IfStatement { cond, then_branch, else_branch } => 1 + size(*cond) + size(*then_branch) + match else_branch {
            Some(e) => size(*e),
            None => 0,
        },
        SpecAst::FunctionDef { name, params, body } => 1 + size(*name) + size_list(params) + size(*body),
        SpecAst::Return { value } => 1 + size(*value),
        SpecAst::Call { name, args } => 1 + size(*name) + size_list(args),
    }
}

/// The size of a list of trees.
pub open spec fn size_list(s: Seq<SpecAst>) -> nat
    decreases s,
{
    if s.len() == 0 {
        1
    } else {
        1 + size(s[0]) + size_list(s.drop_first())
    }
}

/// Each tree of a list is smaller than the list.
pub proof fn lemma_size_list(s: Seq<SpecAst>, i: int)
    requires
        0 <= i < s.len(),
    ensures
        size(s[i]) < size_list(s),
        size_list(s.skip(i + 1)) < size_list(s),
    decreases i,
{
    if i > 0 {
        lemma_size_list(s.drop_first(), i - 1);
        assert(s.drop_first()[i - 1] == s[i]);
        assert(s.drop_first().skip(i) =~= s.skip(i + 1));
    } else {
        assert(s.skip(1) =~= s.drop_first());
    }
}

/// Limiting the steps to at least what is left changes nothing.
pub proof fn lemma_within(st: Machine, fuel: nat)
    requires
        st.fuel <= fuel,
    ensures
        within(st, fuel) == st,
{
}

/// Every node of the list is an identifier.
pub open spec fn all_identifiers(s: Seq<SpecAst>) -> bool {
    forall|i: int| 0 <= i < s.len() ==> #[trigger] s[i] is Identifier
}

/// The scopes after binding each parameter to its argument, in order; the
/// scopes reached when a parameter is not an identifier, as an error.
pub open spec fn bind_params(params: Seq<SpecAst>, vals: Seq<ObjV>, fs: Frames) -> Result<Frames, Frames>
    decreases params.len(),
{
    if params.len() == 0 || vals.len() == 0 {
        Ok(fs)
    } else {
        match params[0] {
            SpecAst::Identifier { name } => bind_params(
                params.drop_first(),
                vals.drop_first(),
                frames_put(fs, name, vals[0]),
            ),
            _ => Err(fs),
        }
    }
}

/// What a call of a user-defined function returns: the value of a `return`,
/// or nothing.
pub open spec fn unwrap_return(v: ObjV) -> ObjV {
    match v {
        ObjV::Return(inner) => *inner,
        _ => ObjV::Void,
    }
}

/// The error of calling a built-in function with arguments it does not accept.
pub open spec fn builtin_error(args: Seq<ObjV>) -> EvalErrV {
    if args.len() != 2 {
        EvalErrV::BuiltinArity(args.len())
    } else {
        EvalErrV::BuiltinTypes
    }
}

/// The outcome of calling a built-in function on evaluated arguments.
pub open spec fn call_builtin(f: BuiltinFn, args: Seq<ObjV>, st: Machine) -> Outcome {
    if builtin_accepts(f, args) {
        done(
            builtin_result(f, args),
            Machine { frames: st.frames, out: st.out + builtin_printed(f, args), fuel: st.fuel },
        )
    } else {
        failed(builtin_error(args), st)
    }
}

pub open spec fn sem_str(node: SpecAst, st: Machine) -> Outcome {
    match node {
        SpecAst::Str { value } => done(ObjV::Str(value), st),
        _ => failed(EvalErrV::ExpectedNode(NodeKind::Str), st),
    }
}

pub open spec fn sem_numeric(node: SpecAst, st: Machine) -> Outcome {
    match node {
        SpecAst::Numeric { value } => done(ObjV::Int(value), st),
        _ => failed(EvalErrV::ExpectedNode(NodeKind::Numeric), st),
    }
}

pub open spec fn sem_boolean(node: SpecAst, st: Machine) -> Outcome {
    match node {
        SpecAst::Bool { value } => done(ObjV::Bool(value), st),
        _ => failed(EvalErrV::ExpectedNode(NodeKind::Bool), st),
    }
}

pub open spec fn sem_identifier(node: SpecAst, st: Machine) -> Outcome {
    match node {
        SpecAst::Identifier { name } => match frames_get(st.frames, name) {
            Some(v) => done(v, st),
            None => failed(EvalErrV::UndeclaredIdentifier(name), st),
        },
        _ => failed(EvalErrV::ExpectedNode(NodeKind::Identifier), st),
    }
}

pub open spec fn sem_function_def(node: SpecAst, st: Machine) -> Outcome {
    match node {
        SpecAst::FunctionDef { name, params, body } => match *name {
            SpecAst::Identifier { name: n } => if all_identifiers(params) {
                done(
                    ObjV::Void,
                    with_frames(st, frames_put(st.frames, n, ObjV::Function { params, body: *body })),
                )
            } else {
                failed(EvalErrV::InvalidParameters, st)
            },
            _ => failed(EvalErrV::InvalidFunctionName, st),
        },
        _ => failed(EvalErrV::ExpectedNode(NodeKind::FunctionDef), st),
    }
}

/// The outcome of evaluating `node` in the state `st`.
pub open spec fn run(node: SpecAst, st: Machine) -> Outcome
    decreases st.fuel, size(node), 1int,
{
    match node {
        SpecAst::Str { .. } => sem_str(node, st),
        SpecAst::Bool { .. } => sem_boolean(node, st),
        SpecAst::Numeric { .. } => sem_numeric(node, st),
        SpecAst::Array { .. } => sem_array(node, st),
        SpecAst::ArrayIndex { .. } => sem_array_index(node, st),
        SpecAst::Identifier { .. } => sem_identifier(node, st),
        SpecAst::BinaryOp { op, lhs, rhs } => sem_binary_op(op, *lhs, *rhs, st),
        SpecAst::LetBinding { .. } => sem_letbinding(node, st),
        SpecAst::Assign { .. } => sem_assign(node, st),
        SpecAst::Statements { .. } => sem_statements(node, st),
        SpecAst::WhileLoop { .. } => sem_whileloop(node, st),
        SpecAst::ForLoop { .. } => sem_forloop(node, st),
        SpecAst::IfStatement { .. } => sem_ifstatement(node, st),
        SpecAst::FunctionDef { .. } => sem_function_def(node, st),
        SpecAst::Return { .. } => sem_return(node, st),
        SpecAst::Call { .. } => sem_call(node, st),
        SpecAst::Import { .. } => failed(EvalErrV::UnsupportedNode, st),
    }
}

/// The outcome of evaluating `nodes` in order, collecting their values.
pub open spec fn run_list(nodes: Seq<SpecAst>, st: Machine) -> ListOutcome
    decreases st.fuel, size_list(nodes), 2int,
{
    if nodes.len() == 0 {
        ListOutcome { res: Ok(seq![]), st }
    } else {
        let h = run(nodes[0], st);
        match h.res {
            Err(e) => ListOutcome { res: Err(e), st: h.st },
            Ok(v) => {
                let t = run_list(nodes.drop_first(), within(h.st, st.fuel));
                match t.res {
                    Ok(vs) => ListOutcome { res: Ok(seq![v] + vs), st: t.st },
                    Err(e) => ListOutcome { res: Err(e), st: t.st },
                }
            },
        }
    }
}

/// The outcome of evaluating `stmts` in order after a statement valued `last`:
/// the value of the last statement.
pub open spec fn run_stmts(stmts: Seq<SpecAst>, st: Machine, last: ObjV) -> Outcome
    decreases st.fuel, size_list(stmts), 2int,
{
    if stmts.len() == 0 {
        done(last, st)
    } else {
        let r = run(stmts[0], st);
        match r.res {
            Err(e) => failed(e, r.st),
            Ok(v) => run_stmts(stmts.drop_first(), within(r.st, st.fuel), v),
        }
    }
}

/// The outcome of a `while` loop from a new iteration on: each iteration
/// takes a step, evaluates the condition, and runs the body while the
/// condition is `true`.
pub open spec fn run_while(cond: SpecAst, body: SpecAst, st: Machine) -> Outcome
    decreases st.fuel, size(cond) + size(body), 2int,
{
    if st.fuel == 0 {
        failed(EvalErrV::StepLimit, st)
    } else {
        let f = (st.fuel - 1) as nat;
        let c = run(cond, Machine { frames: st.frames, out: st.out, fuel: f });
        match c.res {
            Err(e) => failed(e, c.st),
            Ok(ObjV::Bool(true)) => {
                let b = run(body, within(c.st, f));
                match b.res {
                    Err(e) => failed(e, b.st),
                    Ok(_) => run_while(cond, body, within(b.st, f)),
                }
            },
            Ok(_) => done(ObjV::Void, c.st),
        }
    }
}

/// The outcome of a `for` loop over the `items` still to come.
pub open spec fn run_for(name: Seq<char>, items: Seq<ObjV>, body: SpecAst, st: Machine) -> Outcome
    decreases st.fuel, size(body), items.len() + 2,
{
    if items.len() == 0 {
        done(ObjV::Void, st)
    } else {
        let b = run(body, with_frames(st, frames_put(st.frames, name, items[0])));
        match b.res {
            Err(e) => failed(e, b.st),
            Ok(_) => run_for(name, items.drop_first(), body, within(b.st, st.fuel)),
        }
    }
}

pub open spec fn sem_array(node: SpecAst, st: Machine) -> Outcome
    decreases st.fuel, size(node), 0int,
{
    match node {
        SpecAst::Array { elements } => {
            let l = run_list(elements, st);
            match l.res {
                Ok(vs) => done(ObjV::Array(vs), l.st),
                Err(e) => failed(e, l.st),
            }
        },
        _ => failed(EvalErrV::ExpectedNode(NodeKind::Array), st),
    }
}

pub open spec fn sem_array_index(node: SpecAst, st: Machine) -> Outcome
    decreases st.fuel, size(node), 0int,
{
    match node {
        SpecAst::ArrayIndex { arr, index } => {
            let a = run(*arr, st);
            match a.res {
                Err(e) => failed(e, a.st),
                Ok(av) => {
                    let i = run(*index, within(a.st, st.fuel));
                    match i.res {
                        Err(e) => failed(e, i.st),
                        Ok(iv) => match (av, iv) {
                            (ObjV::Array(items), ObjV::Int(k)) => if 0 <= k < items.len() {
                                done(items[k as int], i.st)
                            } else {
                                failed(EvalErrV::IndexOutOfBound(k), i.st)
                            },
                            _ => failed(EvalErrV::InvalidIndex, i.st),
                        },
                    }
                },
            }
        },
        _ => failed(EvalErrV::ExpectedNode(NodeKind::ArrayIndex), st),
    }
}

pub open spec fn sem_binary_op(op: crate::ops::Operation, lhs: SpecAst, rhs: SpecAst, st: Machine) -> Outcome
    decreases st.fuel, size(lhs) + size(rhs) + 1, 0int,
{
    let l = run(lhs, st);
    match l.res {
        Err(e) => failed(e, l.st),
        Ok(lv) => {
            let r = run(rhs, within(l.st, st.fuel));
            match r.res {
                Err(e) => failed(e, r.st),
                Ok(rv) => match binary(op, lv, rv) {
                    Ok(v) => done(v, r.st),
                    Err(e) => failed(e, r.st),
                },
            }
        },
    }
}

pub open spec fn sem_letbinding(node: SpecAst, st: Machine) -> Outcome
    decreases st.fuel, size(node), 0int,
{
    match node {
        SpecAst::LetBinding { identifier, body } => match *identifier {
            SpecAst::Identifier { name } => {
                let b = run(*body, st);
                match b.res {
                    Err(e) => failed(e, b.st),
                    Ok(v) => done(ObjV::Void, with_frames(b.st, frames_put(b.st.frames, name, v))),
                }
            },
            _ => failed(EvalErrV::InvalidBindingTarget, st),
        },
        _ => failed(EvalErrV::ExpectedNode(NodeKind::LetBinding), st),
    }
}

/// Assigning `v` to the element `k` of the array bound to the target `arr`.
pub open spec fn store_element(arr: SpecAst, items: Seq<ObjV>, k: i32, v: ObjV, st: Machine) -> Outcome {
    if k < 0 || k >= items.len() {
        failed(EvalErrV::IndexOutOfBounds, st)
    } else {
        match arr {
            SpecAst::Identifier { name } => match frames_update(
                st.frames,
                name,
                ObjV::Array(items.update(k as int, v)),
            ) {
                Some(fs) => done(v, with_frames(st, fs)),
                None => failed(EvalErrV::UndeclaredVariable(name), st),
            },
            _ => failed(EvalErrV::ArrayAssignTarget, st),
        }
    }
}

pub open spec fn sem_assign(node: SpecAst, st: Machine) -> Outcome
    decreases st.fuel, size(node), 0int,
{
    match node {
        SpecAst::Assign { identifier, body } => {
            let b = run(*body, st);
            match b.res {
                Err(e) => failed(e, b.st),
                Ok(v) => {
                    let s1 = within(b.st, st.fuel);
                    match *identifier {
                        SpecAst::Identifier { name } => match frames_update(s1.frames, name, v) {
                            Some(fs) => done(v, with_frames(s1, fs)),
                            None => failed(EvalErrV::UndeclaredVariable(name), s1),
                        },
                        SpecAst::ArrayIndex { arr, index } => {
                            proof {
                                assert(size(*identifier) == 1 + size(*arr) + size(*index));
                            }
                            let a = run(*arr, s1);
                            match a.res {
                                Err(e) => failed(e, a.st),
                                Ok(av) => {
                                    let i = run(*index, within(a.st, st.fuel));
                                    match i.res {
                                        Err(e) => failed(e, i.st),
                                        Ok(iv) => match (av, iv) {
                                            (ObjV::Array(items), ObjV::Int(k)) => store_element(*arr, items, k, v, i.st),
                                            _ => failed(EvalErrV::InvalidArrayAssignment, i.st),
                                        },
                                    }
                                },
                            }
                        },
                        _ => failed(EvalErrV::InvalidAssignTarget, s1),
                    }
                },
            }
        },
        _ => failed(EvalErrV::ExpectedNode(NodeKind::Assign), st),
    }
}

pub open spec fn sem_statements(node: SpecAst, st: Machine) -> Outcome
    decreases st.fuel, size(node), 0int,
{
    match node {
        SpecAst::Statements { stmts } => run_stmts(stmts, st, ObjV::Void),
        _ => failed(EvalErrV::ExpectedNode(NodeKind::Statements), st),
    }
}

pub open spec fn sem_whileloop(node: SpecAst, st: Machine) -> Outcome
    decreases st.fuel, size(node), 0int,
{
    match node {
        SpecAst::WhileLoop { cond, body } => {
            let w = run_while(*cond, *body, with_frames(st, frames_enter(st.frames)));
            match w.res {
                Ok(_) => done(ObjV::Void, with_frames(w.st, frames_exit(w.st.frames))),
                Err(e) => failed(e, w.st),
            }
        },
        _ => failed(EvalErrV::ExpectedNode(NodeKind::WhileLoop), st),
    }
}

pub open spec fn sem_forloop(node: SpecAst, st: Machine) -> Outcome
    decreases st.fuel, size(node), 0int,
{
    match node {
        SpecAst::ForLoop { itr, var, body } => {
            let i = run(*itr, st);
            match i.res {
                Err(e) => failed(e, i.st),
                Ok(ObjV::Array(items)) => match *var {
                    SpecAst::Identifier { name } => {
                        let s1 = within(i.st, st.fuel);
                        let f = run_for(name, items, *body, with_frames(s1, frames_enter(s1.frames)));
                        match f.res {
                            Ok(_) => done(ObjV::Void, with_frames(f.st, frames_exit(f.st.frames))),
                            Err(e) => failed(e, f.st),
                        }
                    },
                    _ => failed(EvalErrV::InvalidLoopVariable, i.st),
                },
                Ok(_) => failed(EvalErrV::ExpectedIterable, i.st),
            }
        },
        _ => failed(EvalErrV::ExpectedNode(NodeKind::ForLoop), st),
    }
}

pub open spec fn sem_ifstatement(node: SpecAst, st: Machine) -> Outcome
    decreases st.fuel, size(node), 0int,
{
    match node {
        SpecAst::IfStatement { cond, then_branch, else_branch } => {
            let c = run(*cond, st);
            match c.res {
                Err(e) => failed(e, c.st),
                Ok(ObjV::Bool(true)) => {
                    let s1 = within(c.st, st.fuel);
                    let t = run(*then_branch, with_frames(s1, frames_enter(s1.frames)));
                    Outcome { res: t.res, st: with_frames(t.st, frames_exit(t.st.frames)) }
                },
                Ok(ObjV::Bool(false)) => match else_branch {
                    Some(e) => {
                        let s1 = within(c.st, st.fuel);
                        let t = run(*e, with_frames(s1, frames_enter(s1.frames)));
                        Outcome { res: t.res, st: with_frames(t.st, frames_exit(t.st.frames)) }
                    },
                    None => done(ObjV::Void, c.st),
                },
                Ok(_) => failed(EvalErrV::NonBooleanCondition, c.st),
            }
        },
        _ => failed(EvalErrV::ExpectedNode(NodeKind::IfStatement), st),
    }
}

pub open spec fn sem_return(node: SpecAst, st: Machine) -> Outcome
    decreases st.fuel, size(node), 0int,
{
    match node {
        SpecAst::Return { value } => {
            let v = run(*value, st);
            match v.res {
                Err(e) => failed(e, v.st),
                Ok(x) => done(ObjV::Return(Box::new(x)), v.st),
            }
        },
        _ => failed(EvalErrV::ExpectedNode(NodeKind::Return), st),
    }
}

pub open spec fn sem_call(node: SpecAst, st: Machine) -> Outcome
    decreases st.fuel, size(node), 0int,
{
    match node {
        SpecAst::Call { name, args } => {
            let f = run(*name, st);
            match f.res {
                Err(e) => failed(e, f.st),
                Ok(fv) => {
                    let a = run_list(args, within(f.st, st.fuel));
                    match a.res {
                        Err(e) => failed(e, a.st),
                        Ok(avs) => match fv {
                            ObjV::Function { params, body } => if avs.len() != params.len() {
                                failed(EvalErrV::ArityMismatch { expected: params.len(), found: avs.len() }, a.st)
                            } else {
                                let s1 = within(a.st, st.fuel);
                                if s1.fuel == 0 {
                                    failed(EvalErrV::StepLimit, s1)
                                } else {
                                    let s2 = Machine {
                                        frames: frames_enter(s1.frames),
                                        out: s1.out,
                                        fuel: (s1.fuel - 1) as nat,
                                    };
                                    match bind_params(params, avs, s2.frames) {
                                        Err(fs) => failed(EvalErrV::InvalidParameter, with_frames(s2, fs)),
                                        Ok(fs) => {
                                            let b = run(body, with_frames(s2, fs));
                                            match b.res {
                                                Err(e) => failed(e, b.st),
                                                Ok(r) => done(
                                                    unwrap_return(r),
                                                    with_frames(b.st, frames_exit(b.st.frames)),
                                                ),
                                            }
                                        },
                                    }
                                }
                            },
                            ObjV::BuiltIn(b) => call_builtin(b, avs, a.st),
                            _ => failed(EvalErrV::NotCallable, a.st),
                        },
                    }
                },
            }
        },
        _ => failed(EvalErrV::ExpectedNode(NodeKind::Call), st),
    }
}

} // verus!
