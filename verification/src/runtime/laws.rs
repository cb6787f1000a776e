//! What every evaluation keeps: the steps left never grow, printed lines are
//! never taken back, and a successful evaluation leaves as many scopes as it
//! found (blocks, loops and calls close the scopes they open).
use vstd::prelude::*;

use crate::environment::{
    frames_enter, frames_exit, frames_get, frames_put, frames_update, innermost, lemma_get_after_put,
    lemma_enter_keeps_bindings, lemma_put_keeps_others, Frames,
};
use crate::object::ObjV;
use crate::runtime::builtin::builtin_printed;
use crate::runtime::semantics::{
    all_identifiers, bind_params, call_builtin, done, failed, unwrap_return, with_frames, lemma_within, run, run_for, run_list, run_stmts, run_while, sem_array,
    sem_array_index, sem_assign, sem_binary_op, sem_call, sem_forloop, sem_ifstatement, sem_letbinding,
    sem_return, sem_statements, sem_whileloop, size, size_list, store_element, within, ListOutcome, Machine,
    Outcome,
};
use crate::tree::SpecAst;

verus! {

/// `b` starts with `a`.
pub open spec fn extends(a: Seq<Seq<char>>, b: Seq<Seq<char>>) -> bool {
    a.len() <= b.len() && b.subrange(0, a.len() as int) == a
}

/// From `before` to `after`, no step was added and no printed line was
/// taken back.
pub open spec fn progresses(before: Machine, after: Machine) -> bool {
    after.fuel <= before.fuel && extends(before.out, after.out)
}

/// The outcome `o` of an evaluation that started in `st` keeps what
/// evaluation keeps.
pub open spec fn steady(st: Machine, o: Outcome) -> bool {
    &&& progresses(st, o.st)
    &&& o.res is Ok ==> o.st.frames.len() == st.frames.len()
}

/// The same, for the evaluation of a list.
pub open spec fn steady_list(st: Machine, o: ListOutcome) -> bool {
    &&& progresses(st, o.st)
    &&& o.res is Ok ==> o.st.frames.len() == st.frames.len()
}

proof fn lemma_extends_trans(a: Seq<Seq<char>>, b: Seq<Seq<char>>, c: Seq<Seq<char>>)
    requires
        extends(a, b),
        extends(b, c),
    ensures
        extends(a, c),
{
    assert(c.subrange(0, a.len() as int) =~= c.subrange(0, b.len() as int).subrange(0, a.len() as int));
}

proof fn lemma_progresses_trans(a: Machine, b: Machine, c: Machine)
    requires
        progresses(a, b),
        progresses(b, c),
    ensures
        progresses(a, c),
{
    lemma_extends_trans(a.out, b.out, c.out);
}

proof fn lemma_progresses_refl(a: Machine)
    ensures
        progresses(a, a),
{
    assert(a.out.subrange(0, a.out.len() as int) =~= a.out);
}

/// Binding parameters keeps the number of scopes.
proof fn lemma_bind_params_len(params: Seq<SpecAst>, vals: Seq<ObjV>, fs: Frames)
    ensures
        bind_params(params, vals, fs) matches Ok(r) ==> r.len() == fs.len(),
    decreases params.len(),
{
    if params.len() > 0 && vals.len() > 0 {
        match params[0] {
            SpecAst::Identifier { name } => {
                lemma_bind_params_len(params.drop_first(), vals.drop_first(), frames_put(fs, name, vals[0]));
            },
            _ => {},
        }
    }
}

/// Rebinding keeps the number of scopes.
proof fn lemma_update_len(fs: Frames, name: Seq<char>, v: ObjV)
    ensures
        frames_update(fs, name, v) matches Some(r) ==> r.len() == fs.len(),
{
    crate::environment::lemma_innermost(fs, name);
}

/// Every evaluation keeps the steps from growing and the printed lines, and
/// a successful one leaves as many scopes as it found.
pub proof fn lemma_run_steady(node: SpecAst, st: Machine)
    ensures
        steady(st, run(node, st)),
    decreases st.fuel, size(node), 1int,
{
    lemma_progresses_refl(st);
    match node {
        SpecAst::Array { .. } => lemma_sem_array(node, st),
        SpecAst::ArrayIndex { .. } => lemma_sem_array_index(node, st),
        SpecAst::BinaryOp { op, lhs, rhs } => lemma_sem_binary_op(op, *lhs, *rhs, st),
        SpecAst::LetBinding { .. } => lemma_sem_letbinding(node, st),
        SpecAst::Assign { .. } => lemma_sem_assign(node, st),
        SpecAst::Statements { .. } => lemma_sem_statements(node, st),
        SpecAst::WhileLoop { .. } => lemma_sem_whileloop(node, st),
        SpecAst::ForLoop { .. } => lemma_sem_forloop(node, st),
        SpecAst::IfStatement { .. } => lemma_sem_ifstatement(node, st),
        SpecAst::Return { .. } => lemma_sem_return(node, st),
        SpecAst::Call { .. } => lemma_sem_call(node, st),
        _ => {},
    }
}

/// [`lemma_run_steady`] for a list of nodes.
pub proof fn lemma_run_list_steady(nodes: Seq<SpecAst>, st: Machine)
    ensures
        steady_list(st, run_list(nodes, st)),
    decreases st.fuel, size_list(nodes), 2int,
{
    lemma_progresses_refl(st);
    if nodes.len() > 0 {
        let h = run(nodes[0], st);
        lemma_run_steady(nodes[0], st);
        if h.res is Ok {
            lemma_within(h.st, st.fuel);
            lemma_run_list_steady(nodes.drop_first(), h.st);
            let t = run_list(nodes.drop_first(), h.st);
            lemma_progresses_trans(st, h.st, t.st);
        }
    }
}

proof fn lemma_run_stmts_steady(stmts: Seq<SpecAst>, st: Machine, last: ObjV)
    ensures
        steady(st, run_stmts(stmts, st, last)),
    decreases st.fuel, size_list(stmts), 2int,
{
    lemma_progresses_refl(st);
    if stmts.len() > 0 {
        let r = run(stmts[0], st);
        lemma_run_steady(stmts[0], st);
        if r.res is Ok {
            lemma_within(r.st, st.fuel);
            lemma_run_stmts_steady(stmts.drop_first(), r.st, r.res->Ok_0);
            lemma_progresses_trans(st, r.st, run_stmts(stmts.drop_first(), r.st, r.res->Ok_0).st);
        }
    }
}

proof fn lemma_run_while_steady(cond: SpecAst, body: SpecAst, st: Machine)
    ensures
        steady(st, run_while(cond, body, st)),
    decreases st.fuel, size(cond) + size(body), 2int,
{
    lemma_progresses_refl(st);
    if st.fuel > 0 {
        let f = (st.fuel - 1) as nat;
        let s0 = Machine { frames: st.frames, out: st.out, fuel: f };
        lemma_progresses_refl(s0);
        let c = run(cond, s0);
        lemma_run_steady(cond, s0);
        lemma_progresses_trans(st, s0, c.st);
        if c.res == Ok::<ObjV, crate::runtime::error::EvalErrV>(ObjV::Bool(true)) {
            lemma_within(c.st, f);
            let b = run(body, c.st);
            lemma_run_steady(body, c.st);
            lemma_progresses_trans(st, c.st, b.st);
            if b.res is Ok {
                lemma_within(b.st, f);
                lemma_run_while_steady(cond, body, b.st);
                lemma_progresses_trans(st, b.st, run_while(cond, body, b.st).st);
            }
        }
    }
}

proof fn lemma_run_for_steady(name: Seq<char>, items: Seq<ObjV>, body: SpecAst, st: Machine)
    ensures
        steady(st, run_for(name, items, body, st)),
    decreases st.fuel, size(body), items.len() + 2,
{
    lemma_progresses_refl(st);
    if items.len() > 0 {
        let s1 = Machine { frames: frames_put(st.frames, name, items[0]), out: st.out, fuel: st.fuel };
        lemma_progresses_refl(s1);
        let b = run(body, s1);
        lemma_run_steady(body, s1);
        if b.res is Ok {
            lemma_within(b.st, st.fuel);
            lemma_run_for_steady(name, items.drop_first(), body, b.st);
            lemma_progresses_trans(st, b.st, run_for(name, items.drop_first(), body, b.st).st);
        }
    }
}

proof fn lemma_sem_array(node: SpecAst, st: Machine)
    ensures
        steady(st, sem_array(node, st)),
    decreases st.fuel, size(node), 0int,
{
    lemma_progresses_refl(st);
    if let SpecAst::Array { elements } = node {
        lemma_run_list_steady(elements, st);
    }
}

proof fn lemma_sem_array_index(node: SpecAst, st: Machine)
    ensures
        steady(st, sem_array_index(node, st)),
    decreases st.fuel, size(node), 0int,
{
    lemma_progresses_refl(st);
    if let SpecAst::ArrayIndex { arr, index } = node {
        let a = run(*arr, st);
        lemma_run_steady(*arr, st);
        if a.res is Ok {
            lemma_within(a.st, st.fuel);
            lemma_run_steady(*index, a.st);
            lemma_progresses_trans(st, a.st, run(*index, a.st).st);
        }
    }
}

proof fn lemma_sem_binary_op(op: crate::ops::Operation, lhs: SpecAst, rhs: SpecAst, st: Machine)
    ensures
        steady(st, sem_binary_op(op, lhs, rhs, st)),
    decreases st.fuel, size(lhs) + size(rhs) + 1, 0int,
{
    let l = run(lhs, st);
    lemma_run_steady(lhs, st);
    if l.res is Ok {
        lemma_within(l.st, st.fuel);
        lemma_run_steady(rhs, l.st);
        lemma_progresses_trans(st, l.st, run(rhs, l.st).st);
    }
}

proof fn lemma_sem_letbinding(node: SpecAst, st: Machine)
    ensures
        steady(st, sem_letbinding(node, st)),
    decreases st.fuel, size(node), 0int,
{
    lemma_progresses_refl(st);
    if let SpecAst::LetBinding { identifier, body } = node {
        if let SpecAst::Identifier { name } = *identifier {
            lemma_run_steady(*body, st);
        }
    }
}

proof fn lemma_sem_assign(node: SpecAst, st: Machine)
    ensures
        steady(st, sem_assign(node, st)),
    decreases st.fuel, size(node), 0int,
{
    lemma_progresses_refl(st);
    if let SpecAst::Assign { identifier, body } = node {
        let b = run(*body, st);
        lemma_run_steady(*body, st);
        if let Ok(v) = b.res {
            lemma_within(b.st, st.fuel);
            match *identifier {
                SpecAst::Identifier { name } => {
                    lemma_update_len(b.st.frames, name, v);
                },
                SpecAst::ArrayIndex { arr, index } => {
                    assert(size(*identifier) == 1 + size(*arr) + size(*index));
                    let a = run(*arr, b.st);
                    lemma_run_steady(*arr, b.st);
                    lemma_progresses_trans(st, b.st, a.st);
                    if a.res is Ok {
                        lemma_within(a.st, st.fuel);
                        let i = run(*index, a.st);
                        lemma_run_steady(*index, a.st);
                        lemma_progresses_trans(st, a.st, i.st);
                        if let (Ok(ObjV::Array(items)), Ok(ObjV::Int(k))) = (a.res, i.res) {
                            if let SpecAst::Identifier { name } = *arr {
                                lemma_update_len(i.st.frames, name, ObjV::Array(items.update(k as int, v)));
                            }
                        }
                    }
                },
                _ => {},
            }
        }
    }
}

proof fn lemma_sem_statements(node: SpecAst, st: Machine)
    ensures
        steady(st, sem_statements(node, st)),
    decreases st.fuel, size(node), 0int,
{
    lemma_progresses_refl(st);
    if let SpecAst::Statements { stmts } = node {
        lemma_run_stmts_steady(stmts, st, ObjV::Void);
    }
}

proof fn lemma_sem_whileloop(node: SpecAst, st: Machine)
    ensures
        steady(st, sem_whileloop(node, st)),
    decreases st.fuel, size(node), 0int,
{
    lemma_progresses_refl(st);
    if let SpecAst::WhileLoop { cond, body } = node {
        let s1 = Machine { frames: frames_enter(st.frames), out: st.out, fuel: st.fuel };
        lemma_progresses_refl(s1);
        lemma_run_while_steady(*cond, *body, s1);
    }
}

proof fn lemma_sem_forloop(node: SpecAst, st: Machine)
    ensures
        steady(st, sem_forloop(node, st)),
    decreases st.fuel, size(node), 0int,
{
    lemma_progresses_refl(st);
    if let SpecAst::ForLoop { itr, var, body } = node {
        let i = run(*itr, st);
        lemma_run_steady(*itr, st);
        if let Ok(ObjV::Array(items)) = i.res {
            if let SpecAst::Identifier { name } = *var {
                lemma_within(i.st, st.fuel);
                let s1 = Machine { frames: frames_enter(i.st.frames), out: i.st.out, fuel: i.st.fuel };
                lemma_run_for_steady(name, items, *body, s1);
                lemma_progresses_trans(st, s1, run_for(name, items, *body, s1).st);
            }
        }
    }
}

proof fn lemma_sem_ifstatement(node: SpecAst, st: Machine)
    ensures
        steady(st, sem_ifstatement(node, st)),
    decreases st.fuel, size(node), 0int,
{
    lemma_progresses_refl(st);
    if let SpecAst::IfStatement { cond, then_branch, else_branch } = node {
        let c = run(*cond, st);
        lemma_run_steady(*cond, st);
        lemma_within(c.st, st.fuel);
        let s1 = Machine { frames: frames_enter(c.st.frames), out: c.st.out, fuel: c.st.fuel };
        if c.res == Ok::<ObjV, crate::runtime::error::EvalErrV>(ObjV::Bool(true)) {
            lemma_run_steady(*then_branch, s1);
            lemma_progresses_trans(st, s1, run(*then_branch, s1).st);
        } else if c.res == Ok::<ObjV, crate::runtime::error::EvalErrV>(ObjV::Bool(false)) {
            if let Some(e) = else_branch {
                lemma_run_steady(*e, s1);
                lemma_progresses_trans(st, s1, run(*e, s1).st);
            }
        }
    }
}

proof fn lemma_sem_return(node: SpecAst, st: Machine)
    ensures
        steady(st, sem_return(node, st)),
    decreases st.fuel, size(node), 0int,
{
    lemma_progresses_refl(st);
    if let SpecAst::Return { value } = node {
        lemma_run_steady(*value, st);
    }
}

proof fn lemma_sem_call(node: SpecAst, st: Machine)
    ensures
        steady(st, sem_call(node, st)),
    decreases st.fuel, size(node), 0int,
{
    lemma_progresses_refl(st);
    if let SpecAst::Call { name, args } = node {
        let f = run(*name, st);
        lemma_run_steady(*name, st);
        if let Ok(fv) = f.res {
            lemma_within(f.st, st.fuel);
            let a = run_list(args, f.st);
            lemma_run_list_steady(args, f.st);
            lemma_progresses_trans(st, f.st, a.st);
            if let Ok(avs) = a.res {
                lemma_within(a.st, st.fuel);
                match fv {
                    ObjV::Function { params, body } => {
                        if avs.len() == params.len() && a.st.fuel > 0 {
                            let s2 = Machine {
                                frames: frames_enter(a.st.frames),
                                out: a.st.out,
                                fuel: (a.st.fuel - 1) as nat,
                            };
                            lemma_progresses_refl(s2);
                            lemma_progresses_trans(st, a.st, s2);
                            lemma_bind_params_len(params, avs, s2.frames);
                            if let Ok(fs) = bind_params(params, avs, s2.frames) {
                                let s3 = Machine { frames: fs, out: s2.out, fuel: s2.fuel };
                                lemma_run_steady(body, s3);
                                lemma_progresses_trans(st, s3, run(body, s3).st);
                            }
                        }
                    },
                    ObjV::BuiltIn(b) => {
                        let o = call_builtin(b, avs, a.st);
                        assert(o.st.out.subrange(0, a.st.out.len() as int) =~= a.st.out);
                        lemma_progresses_trans(st, a.st, o.st);
                    },
                    _ => {},
                }
            }
        }
    }
}

/// Reading a variable gives back what a `let` just bound to it.
pub proof fn lemma_let_then_read(name: Seq<char>, body: SpecAst, st: Machine)
    requires
        st.frames.len() > 0,
    ensures
        ({
            let o = run(
                SpecAst::LetBinding {
                    identifier: Box::new(SpecAst::Identifier { name }),
                    body: Box::new(body),
                },
                st,
            );
            o.res is Ok ==> {
                &&& run(body, st).res is Ok
                &&& crate::environment::frames_get(o.st.frames, name) == Some(run(body, st).res->Ok_0)
                &&& run(SpecAst::Identifier { name }, o.st).res == Ok::<ObjV, crate::runtime::error::EvalErrV>(
                    run(body, st).res->Ok_0,
                )
            }
        }),
{
    lemma_run_steady(body, st);
    let b = run(body, st);
    if let Ok(v) = b.res {
        crate::environment::lemma_get_after_put(b.st.frames, name, v);
    }
}

/// Reading a variable gives back what an assignment just stored in it.
pub proof fn lemma_assign_then_read(name: Seq<char>, body: SpecAst, st: Machine)
    ensures
        ({
            let o = run(
                SpecAst::Assign { identifier: Box::new(SpecAst::Identifier { name }), body: Box::new(body) },
                st,
            );
            o.res is Ok ==> {
                &&& o.res == run(body, st).res
                &&& crate::environment::frames_get(o.st.frames, name) == Some(o.res->Ok_0)
                &&& run(SpecAst::Identifier { name }, o.st).res == o.res
            }
        }),
{
    let b = run(body, st);
    if let Ok(v) = b.res {
        lemma_run_steady(body, st);
        lemma_within(b.st, st.fuel);
        crate::environment::lemma_update_then_get(b.st.frames, name, v);
    }
}

/// The name of an identifier node.
pub open spec fn ident_name(n: SpecAst) -> Seq<char> {
    match n {
        SpecAst::Identifier { name } => name,
        _ => seq![],
    }
}

/// No two parameters have the same name.
pub open spec fn distinct_names(params: Seq<SpecAst>) -> bool {
    forall|i: int, j: int|
        0 <= i < j < params.len() ==> ident_name(#[trigger] params[i]) != ident_name(#[trigger] params[j])
}

/// Binding a call's parameters: with as many arguments as parameters, all of
/// them distinct names, the `i`-th parameter is bound to the `i`-th argument;
/// every other name, and every outer scope, stays as it was.
pub proof fn lemma_bind_params_binds(params: Seq<SpecAst>, vals: Seq<ObjV>, fs: Frames)
    requires
        all_identifiers(params),
        distinct_names(params),
        params.len() == vals.len(),
        fs.len() > 0,
    ensures
        bind_params(params, vals, fs) is Ok,
        ({
            let gs = bind_params(params, vals, fs)->Ok_0;
            &&& gs.len() == fs.len()
            &&& gs.drop_last() == fs.drop_last()
            &&& forall|i: int| 0 <= i < params.len() ==> frames_get(gs, ident_name(#[trigger] params[i])) == Some(vals[i])
            &&& forall|n: Seq<char>|
                (forall|i: int| 0 <= i < params.len() ==> ident_name(#[trigger] params[i]) != n) ==> frames_get(gs, n)
                    == frames_get(fs, n)
        }),
    decreases params.len(),
{
    if params.len() > 0 {
        assert(params[0] is Identifier);
        let n0 = ident_name(params[0]);
        let v0 = vals[0];
        let fs1 = frames_put(fs, n0, v0);
        let ps = params.drop_first();
        let vs = vals.drop_first();
        assert(all_identifiers(ps)) by {
            assert forall|i: int| 0 <= i < ps.len() implies #[trigger] ps[i] is Identifier by {
                assert(ps[i] == params[i + 1]);
            }
        }
        assert(distinct_names(ps)) by {
            assert forall|i: int, j: int| 0 <= i < j < ps.len() implies ident_name(#[trigger] ps[i]) != ident_name(
                #[trigger] ps[j],
            ) by {
                assert(ps[i] == params[i + 1]);
                assert(ps[j] == params[j + 1]);
            }
        }
        assert(fs1.len() == fs.len());
        assert(fs1.drop_last() =~= fs.drop_last());
        lemma_bind_params_binds(ps, vs, fs1);
        assert(bind_params(params, vals, fs) == bind_params(ps, vs, fs1));
        let gs = bind_params(ps, vs, fs1)->Ok_0;
        lemma_get_after_put(fs, n0, v0);
        assert(forall|i: int| 0 <= i < ps.len() ==> ident_name(#[trigger] ps[i]) != n0) by {
            assert forall|i: int| 0 <= i < ps.len() implies ident_name(#[trigger] ps[i]) != n0 by {
                assert(ps[i] == params[i + 1]);
            }
        }
        assert forall|i: int| 0 <= i < params.len() implies frames_get(gs, ident_name(#[trigger] params[i]))
            == Some(vals[i]) by {
            if i > 0 {
                assert(ps[i - 1] == params[i]);
                assert(vs[i - 1] == vals[i]);
            }
        }
        assert forall|n: Seq<char>|
            (forall|i: int| 0 <= i < params.len() ==> ident_name(#[trigger] params[i]) != n) implies frames_get(
            gs,
            n,
        ) == frames_get(fs, n) by {
            assert(ident_name(params[0]) != n);
            assert forall|i: int| 0 <= i < ps.len() implies ident_name(#[trigger] ps[i]) != n by {
                assert(ps[i] == params[i + 1]);
            }
            lemma_put_keeps_others(fs, n0, n, v0);
        }
    } else {
        assert(fs.drop_last() == fs.drop_last());
    }
}

/// One iteration of a `for` loop: the body runs with the loop variable bound
/// to the item, and its error, if any, is the loop's.
pub proof fn lemma_run_for_single(name: Seq<char>, x: ObjV, body: SpecAst, st: Machine)
    ensures
        run_for(name, seq![x], body, st) == ({
            let r = run(body, with_frames(st, frames_put(st.frames, name, x)));
            match r.res {
                Err(e) => failed(e, r.st),
                Ok(_) => done(ObjV::Void, r.st),
            }
        }),
{
    let s1 = with_frames(st, frames_put(st.frames, name, x));
    lemma_run_steady(body, s1);
    let r = run(body, s1);
    if r.res is Ok {
        lemma_within(r.st, st.fuel);
        assert(seq![x].drop_first() =~= Seq::<ObjV>::empty());
        assert(run_for(name, Seq::<ObjV>::empty(), body, r.st) == done(ObjV::Void, r.st));
        assert(run_for(name, seq![x], body, st) == run_for(name, Seq::<ObjV>::empty(), body, within(r.st, st.fuel)));
    }
}

/// A `for` loop over `a + b` runs the iterations over `a`, then, if they all
/// succeed, those over `b`, from the state that `a` left.
pub proof fn lemma_run_for_concat(name: Seq<char>, a: Seq<ObjV>, b: Seq<ObjV>, body: SpecAst, st: Machine)
    ensures
        run_for(name, a + b, body, st) == ({
            let o = run_for(name, a, body, st);
            match o.res {
                Err(_) => o,
                Ok(_) => run_for(name, b, body, o.st),
            }
        }),
    decreases a.len(),
{
    if a.len() == 0 {
        assert(a + b =~= b);
    } else {
        let ab = a + b;
        assert(ab[0] == a[0]);
        assert(ab.drop_first() =~= a.drop_first() + b);
        let s1 = with_frames(st, frames_put(st.frames, name, a[0]));
        lemma_run_steady(body, s1);
        let r = run(body, s1);
        if r.res is Ok {
            lemma_within(r.st, st.fuel);
            lemma_run_for_concat(name, a.drop_first(), b, body, r.st);
        }
    }
}

/// The `k`-th iteration of a `for` loop runs the body with the loop variable
/// bound to the `k`-th item, after the iterations over the items before it
/// and before those over the items after it: items are visited in order.
pub proof fn lemma_run_for_kth(name: Seq<char>, items: Seq<ObjV>, k: int, body: SpecAst, st: Machine)
    requires
        0 <= k < items.len(),
    ensures
        run_for(name, items, body, st) == ({
            let o = run_for(name, items.take(k), body, st);
            match o.res {
                Err(_) => o,
                Ok(_) => {
                    let r = run(body, with_frames(o.st, frames_put(o.st.frames, name, items[k])));
                    match r.res {
                        Err(e) => failed(e, r.st),
                        Ok(_) => run_for(name, items.skip(k + 1), body, r.st),
                    }
                },
            }
        }),
{
    let head = items.take(k);
    let tail = seq![items[k]] + items.skip(k + 1);
    assert(items =~= head + tail);
    lemma_run_for_concat(name, head, tail, body, st);
    let o = run_for(name, head, body, st);
    if o.res is Ok {
        lemma_run_for_concat(name, seq![items[k]], items.skip(k + 1), body, o.st);
        lemma_run_for_single(name, items[k], body, o.st);
    }
}

/// An `if` picks its branch by its condition: the `then` block when it is
/// `true`, the `else` block (if there is one) when it is `false`; the branch
/// runs in a scope of its own, closed afterwards.
pub proof fn lemma_if_picks_branch(then_branch: SpecAst, else_branch: Option<SpecAst>, st: Machine)
    ensures
        ({
            let t = run(then_branch, with_frames(st, frames_enter(st.frames)));
            run(
                SpecAst::IfStatement {
                    cond: Box::new(SpecAst::Bool { value: true }),
                    then_branch: Box::new(then_branch),
                    else_branch: crate::parser::laws::boxed(else_branch),
                },
                st,
            ) == Outcome { res: t.res, st: with_frames(t.st, frames_exit(t.st.frames)) }
        }),
        ({
            let node = SpecAst::IfStatement {
                cond: Box::new(SpecAst::Bool { value: false }),
                then_branch: Box::new(then_branch),
                else_branch: crate::parser::laws::boxed(else_branch),
            };
            match else_branch {
                Some(e) => {
                    let t = run(e, with_frames(st, frames_enter(st.frames)));
                    run(node, st) == Outcome { res: t.res, st: with_frames(t.st, frames_exit(t.st.frames)) }
                },
                None => run(node, st) == done(ObjV::Void, st),
            }
        }),
{
    lemma_within(st, st.fuel);
    let eb = crate::parser::laws::boxed(else_branch);
    let n1 = SpecAst::IfStatement {
        cond: Box::new(SpecAst::Bool { value: true }),
        then_branch: Box::new(then_branch),
        else_branch: eb,
    };
    let n0 = SpecAst::IfStatement {
        cond: Box::new(SpecAst::Bool { value: false }),
        then_branch: Box::new(then_branch),
        else_branch: eb,
    };
    assert(run(SpecAst::Bool { value: true }, st) == done(ObjV::Bool(true), st));
    assert(run(SpecAst::Bool { value: false }, st) == done(ObjV::Bool(false), st));
    assert(run(n1, st) == sem_ifstatement(n1, st));
    assert(run(n0, st) == sem_ifstatement(n0, st));
    if let Some(e) = else_branch {
        assert(eb == Some(Box::new(e)));
    }
}

/// A `while` loop whose condition is `false` never runs its body: it takes
/// one step and changes nothing else. With no step left it stops with the
/// step-limit error.
pub proof fn lemma_while_false_skips(body: SpecAst, st: Machine)
    ensures
        st.fuel > 0 ==> run(SpecAst::WhileLoop { cond: Box::new(SpecAst::Bool { value: false }), body: Box::new(body) }, st)
            == done(ObjV::Void, Machine { frames: st.frames, out: st.out, fuel: (st.fuel - 1) as nat }),
        st.fuel == 0 ==> run(SpecAst::WhileLoop { cond: Box::new(SpecAst::Bool { value: false }), body: Box::new(body) }, st).res
            == Err::<ObjV, crate::runtime::error::EvalErrV>(crate::runtime::error::EvalErrV::StepLimit),
{
    let node = SpecAst::WhileLoop { cond: Box::new(SpecAst::Bool { value: false }), body: Box::new(body) };
    let s0 = with_frames(st, frames_enter(st.frames));
    assert(run(node, st) == sem_whileloop(node, st));
    if st.fuel > 0 {
        let s1 = Machine { frames: s0.frames, out: s0.out, fuel: (s0.fuel - 1) as nat };
        assert(run(SpecAst::Bool { value: false }, s1) == done(ObjV::Bool(false), s1));
        assert(run_while(SpecAst::Bool { value: false }, body, s0) == done(ObjV::Void, s1));
    } else {
        assert(run_while(SpecAst::Bool { value: false }, body, s0) == failed(crate::runtime::error::EvalErrV::StepLimit, s0));
    }
    assert(frames_exit(frames_enter(st.frames)) =~= st.frames);
}

/// Evaluating the list `a + b` evaluates `a`, then, if that succeeds, `b`
/// from the state `a` left; the values come in the order of the nodes.
pub proof fn lemma_run_list_concat(a: Seq<SpecAst>, b: Seq<SpecAst>, st: Machine)
    ensures
        run_list(a + b, st) == ({
            let x = run_list(a, st);
            match x.res {
                Err(e) => x,
                Ok(va) => {
                    let y = run_list(b, x.st);
                    match y.res {
                        Ok(vb) => ListOutcome { res: Ok(va + vb), st: y.st },
                        Err(e) => y,
                    }
                },
            }
        }),
    decreases a.len(),
{
    if a.len() == 0 {
        assert(a + b =~= b);
        let y = run_list(b, st);
        if let Ok(vb) = y.res {
            assert(Seq::<ObjV>::empty() + vb =~= vb);
        }
    } else {
        let ab = a + b;
        assert(ab[0] == a[0]);
        assert(ab.drop_first() =~= a.drop_first() + b);
        let h = run(a[0], st);
        lemma_run_steady(a[0], st);
        if let Ok(v) = h.res {
            lemma_within(h.st, st.fuel);
            lemma_run_list_concat(a.drop_first(), b, h.st);
            let x1 = run_list(a.drop_first(), h.st);
            if let Ok(va1) = x1.res {
                let y = run_list(b, x1.st);
                if let Ok(vb) = y.res {
                    assert(seq![v] + (va1 + vb) =~= (seq![v] + va1) + vb);
                }
            }
        }
    }
}

/// The parameters of a function value.
pub open spec fn fn_params(v: ObjV) -> Seq<SpecAst> {
    match v {
        ObjV::Function { params, .. } => params,
        _ => seq![],
    }
}

/// The body of a function value.
pub open spec fn fn_body(v: ObjV) -> SpecAst {
    match v {
        ObjV::Function { body, .. } => body,
        _ => SpecAst::Statements { stmts: seq![] },
    }
}

/// A call of a user-defined function whose parameters are distinct names,
/// with as many arguments as parameters and a step left: the body runs, with
/// one step fewer, in a new innermost scope where the `i`-th parameter gives
/// the value of the `i`-th argument and every other name gives what it gave
/// before; the value of its `return` is the call's value, and the scope is
/// closed afterwards.
pub proof fn lemma_call_binds_arguments(callee: SpecAst, args: Seq<SpecAst>, st: Machine)
    ensures
        ({
            let f = run(callee, st);
            let fv = f.res->Ok_0;
            let params = fn_params(fv);
            let a = run_list(args, f.st);
            (f.res is Ok && fv is Function && all_identifiers(params) && distinct_names(params) && a.res is Ok
                && a.res->Ok_0.len() == params.len() && a.st.fuel > 0) ==> exists|gs: Frames|
                {
                    &&& gs.len() == a.st.frames.len() + 1
                    &&& gs.drop_last() == a.st.frames
                    &&& forall|i: int|
                        0 <= i < params.len() ==> frames_get(gs, ident_name(#[trigger] params[i])) == Some(
                            a.res->Ok_0[i],
                        )
                    &&& forall|n: Seq<char>|
                        (forall|i: int| 0 <= i < params.len() ==> ident_name(#[trigger] params[i]) != n) ==> frames_get(
                            gs,
                            n,
                        ) == frames_get(a.st.frames, n)
                    &&& run(SpecAst::Call { name: Box::new(callee), args }, st) == ({
                        let b = run(
                            fn_body(fv),
                            Machine { frames: gs, out: a.st.out, fuel: (a.st.fuel - 1) as nat },
                        );
                        match b.res {
                            Err(e) => failed(e, b.st),
                            Ok(r) => done(unwrap_return(r), with_frames(b.st, frames_exit(b.st.frames))),
                        }
                    })
                }
        }),
{
    let f = run(callee, st);
    lemma_run_steady(callee, st);
    if f.res is Ok {
        lemma_within(f.st, st.fuel);
        let fv = f.res->Ok_0;
        let params = fn_params(fv);
        let a = run_list(args, f.st);
        lemma_run_list_steady(args, f.st);
        if fv is Function && all_identifiers(params) && distinct_names(params) && a.res is Ok
            && a.res->Ok_0.len() == params.len() && a.st.fuel > 0 {
            lemma_within(a.st, st.fuel);
            let avs = a.res->Ok_0;
            let fs = frames_enter(a.st.frames);
            lemma_bind_params_binds(params, avs, fs);
            let gs = bind_params(params, avs, fs)->Ok_0;
            assert(fs.drop_last() =~= a.st.frames);
            assert forall|n: Seq<char>|
                (forall|i: int| 0 <= i < params.len() ==> ident_name(#[trigger] params[i]) != n) implies frames_get(
                gs,
                n,
            ) == frames_get(a.st.frames, n) by {
                lemma_enter_keeps_bindings(a.st.frames, n);
            }
            assert(fv == ObjV::Function { params, body: fn_body(fv) });
        }
    }
}

/// Statements run in order: running `a + b` runs `a`, then, if that
/// succeeds, `b` from the state `a` left, and the value is that of the last
/// statement run.
pub proof fn lemma_run_stmts_concat(a: Seq<SpecAst>, b: Seq<SpecAst>, st: Machine, last: ObjV)
    ensures
        run_stmts(a + b, st, last) == ({
            let x = run_stmts(a, st, last);
            match x.res {
                Err(_) => x,
                Ok(v) => run_stmts(b, x.st, v),
            }
        }),
    decreases a.len(),
{
    if a.len() == 0 {
        assert(a + b =~= b);
    } else {
        let ab = a + b;
        assert(ab[0] == a[0]);
        assert(ab.drop_first() =~= a.drop_first() + b);
        let r = run(a[0], st);
        lemma_run_steady(a[0], st);
        if let Ok(v) = r.res {
            lemma_within(r.st, st.fuel);
            lemma_run_stmts_concat(a.drop_first(), b, r.st, v);
        }
    }
}

/// Indexing an array bound to a name reads its element at that position,
/// and fails with the index when it lies outside the array.
pub proof fn lemma_index_reads_element(name: Seq<char>, items: Seq<ObjV>, k: i32, st: Machine)
    requires
        frames_get(st.frames, name) == Some(ObjV::Array(items)),
    ensures
        run(
            SpecAst::ArrayIndex {
                arr: Box::new(SpecAst::Identifier { name }),
                index: Box::new(SpecAst::Numeric { value: k }),
            },
            st,
        ) == if 0 <= k < items.len() {
            done(items[k as int], st)
        } else {
            failed(crate::runtime::error::EvalErrV::IndexOutOfBound(k), st)
        },
{
    lemma_within(st, st.fuel);
    let node = SpecAst::ArrayIndex {
        arr: Box::new(SpecAst::Identifier { name }),
        index: Box::new(SpecAst::Numeric { value: k }),
    };
    assert(run(node, st) == sem_array_index(node, st));
    assert(run(SpecAst::Identifier { name }, st) == done(ObjV::Array(items), st));
    assert(run(SpecAst::Numeric { value: k }, st) == done(ObjV::Int(k), st));
}

/// Assigning to an element of an array bound to a name: the assignment's
/// value is the new value, and afterwards the name gives the array with that
/// element replaced and every other element as before.
pub proof fn lemma_store_element(name: Seq<char>, items: Seq<ObjV>, k: i32, v: i32, st: Machine)
    requires
        frames_get(st.frames, name) == Some(ObjV::Array(items)),
        0 <= k < items.len(),
    ensures
        ({
            let o = run(
                SpecAst::Assign {
                    identifier: Box::new(
                        SpecAst::ArrayIndex {
                            arr: Box::new(SpecAst::Identifier { name }),
                            index: Box::new(SpecAst::Numeric { value: k }),
                        },
                    ),
                    body: Box::new(SpecAst::Numeric { value: v }),
                },
                st,
            );
            &&& o.res == Ok::<ObjV, crate::runtime::error::EvalErrV>(ObjV::Int(v))
            &&& o.st.out == st.out && o.st.fuel == st.fuel
            &&& frames_get(o.st.frames, name) matches Some(ObjV::Array(after))
            &&& after.len() == items.len()
            &&& after[k as int] == ObjV::Int(v)
            &&& forall|j: int| 0 <= j < items.len() && j != k ==> after[j] == items[j]
        }),
{
    lemma_within(st, st.fuel);
    let nv = ObjV::Array(items.update(k as int, ObjV::Int(v)));
    crate::environment::lemma_update_then_get(st.frames, name, nv);
    let target = SpecAst::ArrayIndex {
        arr: Box::new(SpecAst::Identifier { name }),
        index: Box::new(SpecAst::Numeric { value: k }),
    };
    let node = SpecAst::Assign { identifier: Box::new(target), body: Box::new(SpecAst::Numeric { value: v }) };
    assert(run(node, st) == sem_assign(node, st));
    assert(run(SpecAst::Numeric { value: v }, st) == done(ObjV::Int(v), st));
    assert(run(SpecAst::Identifier { name }, st) == done(ObjV::Array(items), st));
    assert(run(SpecAst::Numeric { value: k }, st) == done(ObjV::Int(k), st));
    let fs = crate::environment::frames_update(st.frames, name, nv)->Some_0;
    assert(store_element(SpecAst::Identifier { name }, items, k, ObjV::Int(v), st) == done(
        ObjV::Int(v),
        with_frames(st, fs),
    ));
}

} // verus!
