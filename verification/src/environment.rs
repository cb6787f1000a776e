//! Variable bindings, in a stack of lexical scopes.
use vstd::prelude::*;

use crate::object::{ObjV, WhispObj};
use crate::runtime::error::EvalError;

verus! {

/// The bindings of one scope, in the order they were made.
pub type Frame = Seq<(Seq<char>, ObjV)>;

/// The model of an [`Environment`]: its scopes, the innermost last.
pub type Frames = Seq<Frame>;

/// Represents the environment for variable bindings in Whisp.
///
/// This structure implements **lexical scoping** via a stack of scopes. New
/// scopes are pushed onto the stack during function calls or blocks, and
/// popped afterward. A name is looked up from the innermost scope outwards,
/// so an inner binding shadows an outer one.
#[derive(Clone)]
pub struct Environment {
    /// The scopes, innermost last; each holds name/value pairs.
    pub stack: Vec<Vec<(String, WhispObj)>>,
}

/// The model of one scope of an environment.
pub open spec fn frame_view(scope: Seq<(String, WhispObj)>) -> Frame {
    Seq::new(scope.len(), |i: int| (scope[i].0@, scope[i].1@))
}

impl View for Environment {
    type V = Frames;

    open spec fn view(&self) -> Frames {
        Seq::new(self.stack@.len(), |i: int| frame_view(self.stack@[i]@))
    }
}

/// The first position at or after `i` where `f` binds `name`.
pub open spec fn first_key(f: Frame, name: Seq<char>, i: int) -> Option<int>
    decreases f.len() - i,
{
    if i < 0 || i >= f.len() {
        None
    } else if f[i].0 == name {
        Some(i)
    } else {
        first_key(f, name, i + 1)
    }
}

/// What [`first_key`] finds: a binding of `name` at or after `i`, the first one.
pub proof fn lemma_first_key(f: Frame, name: Seq<char>, i: int)
    requires
        0 <= i,
    ensures
        match first_key(f, name, i) {
            Some(j) => i <= j < f.len() && f[j].0 == name && forall|k: int| i <= k < j ==> f[k].0 != name,
            None => forall|k: int| i <= k < f.len() ==> f[k].0 != name,
        },
    decreases f.len() - i,
{
    if i < f.len() && f[i].0 != name {
        lemma_first_key(f, name, i + 1);
    }
}

/// The value that a scope binds to `name`.
pub open spec fn frame_get(f: Frame, name: Seq<char>) -> Option<ObjV> {
    match first_key(f, name, 0) {
        Some(j) => Some(f[j].1),
        None => None,
    }
}

/// A scope where `name` is bound to `v`: its binding replaced, or a new one added.
pub open spec fn frame_put(f: Frame, name: Seq<char>, v: ObjV) -> Frame {
    match first_key(f, name, 0) {
        Some(j) => f.update(j, (name, v)),
        None => f.push((name, v)),
    }
}

/// The value of `name` in the innermost scope that binds it.
pub open spec fn frames_get(fs: Frames, name: Seq<char>) -> Option<ObjV>
    decreases fs.len(),
{
    if fs.len() == 0 {
        None
    } else {
        match frame_get(fs.last(), name) {
            Some(v) => Some(v),
            None => frames_get(fs.drop_last(), name),
        }
    }
}

/// The scopes after binding `name` to `v` in the innermost scope (if there is one).
pub open spec fn frames_put(fs: Frames, name: Seq<char>, v: ObjV) -> Frames {
    if fs.len() == 0 {
        fs
    } else {
        fs.update(fs.len() - 1, frame_put(fs.last(), name, v))
    }
}

/// The position of the innermost scope that binds `name`.
pub open spec fn innermost(fs: Frames, name: Seq<char>) -> Option<int>
    decreases fs.len(),
{
    if fs.len() == 0 {
        None
    } else if frame_get(fs.last(), name) is Some {
        Some(fs.len() - 1)
    } else {
        innermost(fs.drop_last(), name)
    }
}

/// What [`innermost`] finds: the last scope that binds `name`.
pub proof fn lemma_innermost(fs: Frames, name: Seq<char>)
    ensures
        match innermost(fs, name) {
            Some(k) => 0 <= k < fs.len() && frame_get(fs[k], name) is Some && forall|j: int|
                k < j < fs.len() ==> frame_get(#[trigger] fs[j], name) is None,
            None => forall|j: int| 0 <= j < fs.len() ==> frame_get(#[trigger] fs[j], name) is None,
        },
    decreases fs.len(),
{
    if fs.len() > 0 && frame_get(fs.last(), name) is None {
        let d = fs.drop_last();
        lemma_innermost(d, name);
        match innermost(d, name) {
            Some(k) => {
                assert forall|j: int| k < j < fs.len() implies frame_get(#[trigger] fs[j], name) is None by {
                    if j < fs.len() - 1 {
                        assert(fs[j] == d[j]);
                    }
                }
            },
            None => {
                assert forall|j: int| 0 <= j < fs.len() implies frame_get(#[trigger] fs[j], name) is None by {
                    if j < fs.len() - 1 {
                        assert(fs[j] == d[j]);
                    }
                }
            },
        }
    }
}

/// A scope in which `name` was just bound gives back the new value for it.
pub proof fn lemma_frame_put_get(f: Frame, name: Seq<char>, v: ObjV)
    ensures
        frame_get(frame_put(f, name, v), name) == Some(v),
{
    let g = frame_put(f, name, v);
    lemma_first_key(f, name, 0);
    lemma_first_key(g, name, 0);
    match first_key(f, name, 0) {
        Some(j) => {
            assert(g[j].0 == name);
            if let Some(k) = first_key(g, name, 0) {
                if k < j {
                    assert(f[k].0 == g[k].0);
                }
            }
        },
        None => {
            assert(g[f.len() as int].0 == name);
            if let Some(k) = first_key(g, name, 0) {
                if k < f.len() {
                    assert(f[k].0 == g[k].0);
                }
            }
        },
    }
}

/// Binding `name` in a scope leaves what it gives for every other name.
pub proof fn lemma_frame_put_other(f: Frame, name: Seq<char>, other: Seq<char>, v: ObjV)
    requires
        name != other,
    ensures
        frame_get(frame_put(f, name, v), other) == frame_get(f, other),
{
    let g = frame_put(f, name, v);
    lemma_first_key(f, name, 0);
    lemma_first_key(f, other, 0);
    lemma_first_key(g, other, 0);
    assert forall|k: int| 0 <= k < f.len() implies (#[trigger] g[k]).0 == f[k].0 by {}
    match (first_key(f, other, 0), first_key(g, other, 0)) {
        (Some(a), Some(b)) => {
            if a < b {
                assert(g[a].0 == f[a].0);
            } else if b < a {
                assert(g[b].0 == f[b].0);
            }
        },
        (Some(a), None) => {
            assert(g[a].0 == f[a].0);
        },
        (None, Some(b)) => {
            if b < f.len() {
                assert(g[b].0 == f[b].0);
            }
        },
        (None, None) => {},
    }
}

/// Get after put: once `name` is bound to `v` in the innermost scope, looking
/// `name` up gives `v`.
pub proof fn lemma_get_after_put(fs: Frames, name: Seq<char>, v: ObjV)
    requires
        fs.len() > 0,
    ensures
        frames_get(frames_put(fs, name, v), name) == Some(v),
{
    lemma_frame_put_get(fs.last(), name, v);
    assert(frames_put(fs, name, v).last() == frame_put(fs.last(), name, v));
}

/// Binding one name leaves every other name as it was.
pub proof fn lemma_put_keeps_others(fs: Frames, name: Seq<char>, other: Seq<char>, v: ObjV)
    requires
        name != other,
    ensures
        frames_get(frames_put(fs, name, v), other) == frames_get(fs, other),
{
    if fs.len() > 0 {
        let gs = frames_put(fs, name, v);
        lemma_frame_put_other(fs.last(), name, other, v);
        assert(gs.last() == frame_put(fs.last(), name, v));
        assert(gs.drop_last() =~= fs.drop_last());
    }
}

/// A new scope hides nothing: every name gives what it gave before.
pub proof fn lemma_enter_keeps_bindings(fs: Frames, name: Seq<char>)
    ensures
        frames_get(frames_enter(fs), name) == frames_get(fs, name),
{
    let gs = frames_enter(fs);
    assert(gs.drop_last() =~= fs);
    assert(first_key(gs.last(), name, 0) is None);
}

/// Closing a scope just opened gives back the scopes as they were, whatever
/// was bound in it: inner bindings shadow outer ones only until the scope ends.
pub proof fn lemma_shadowing_ends_with_scope(fs: Frames, name: Seq<char>, v: ObjV)
    ensures
        frames_get(frames_put(frames_enter(fs), name, v), name) == Some(v),
        frames_exit(frames_put(frames_enter(fs), name, v)) == fs,
        frames_exit(frames_enter(fs)) == fs,
{
    lemma_get_after_put(frames_enter(fs), name, v);
    assert(frames_exit(frames_put(frames_enter(fs), name, v)) =~= fs);
    assert(frames_exit(frames_enter(fs)) =~= fs);
}

/// Looking a name up finds the innermost scope that binds it.
proof fn lemma_get_innermost(fs: Frames, name: Seq<char>)
    ensures
        match innermost(fs, name) {
            Some(k) => frames_get(fs, name) == frame_get(fs[k], name),
            None => frames_get(fs, name) is None,
        },
    decreases fs.len(),
{
    if fs.len() > 0 && frame_get(fs.last(), name) is None {
        lemma_get_innermost(fs.drop_last(), name);
        lemma_innermost(fs.drop_last(), name);
    }
}

/// Rebinding succeeds exactly for the names that are bound, and afterwards
/// looking the name up gives the new value.
pub proof fn lemma_update_then_get(fs: Frames, name: Seq<char>, v: ObjV)
    ensures
        frames_update(fs, name, v) is Some <==> frames_get(fs, name) is Some,
        frames_update(fs, name, v) matches Some(gs) ==> frames_get(gs, name) == Some(v),
{
    lemma_get_innermost(fs, name);
    lemma_innermost(fs, name);
    if let Some(k) = innermost(fs, name) {
        let gs = fs.update(k, frame_put(fs[k], name, v));
        lemma_frame_put_get(fs[k], name, v);
        lemma_innermost_after_update(fs, name, v, k);
        lemma_get_innermost(gs, name);
    }
}

proof fn lemma_innermost_after_update(fs: Frames, name: Seq<char>, v: ObjV, k: int)
    requires
        innermost(fs, name) == Some(k),
    ensures
        innermost(fs.update(k, frame_put(fs[k], name, v)), name) == Some(k),
    decreases fs.len(),
{
    lemma_innermost(fs, name);
    let gs = fs.update(k, frame_put(fs[k], name, v));
    lemma_frame_put_get(fs[k], name, v);
    if k < fs.len() - 1 {
        assert(gs.last() == fs.last());
        assert(gs.drop_last() =~= fs.drop_last().update(k, frame_put(fs[k], name, v)));
        assert(fs.drop_last()[k] == fs[k]);
        lemma_innermost_after_update(fs.drop_last(), name, v, k);
    }
}

/// The scopes after rebinding `name` to `v` where it is bound innermost;
/// `None` when no scope binds it.
pub open spec fn frames_update(fs: Frames, name: Seq<char>, v: ObjV) -> Option<Frames> {
    match innermost(fs, name) {
        Some(k) => Some(fs.update(k, frame_put(fs[k], name, v))),
        None => None,
    }
}

/// The scopes with a new, empty innermost scope.
pub open spec fn frames_enter(fs: Frames) -> Frames {
    fs.push(seq![])
}

/// The scopes without their innermost scope (unchanged when there is none).
pub open spec fn frames_exit(fs: Frames) -> Frames {
    if fs.len() == 0 {
        fs
    } else {
        fs.drop_last()
    }
}

/// The first position in `scope` that binds `name`.
pub(crate) fn find_key(scope: &Vec<(String, WhispObj)>, name: &String) -> (r: Option<usize>)
    ensures
        r is Some ==> first_key(frame_view(scope@), name@, 0) == Some(r->Some_0 as int),
        r is None ==> first_key(frame_view(scope@), name@, 0) is None,
{
    let ghost f = frame_view(scope@);
    let mut i: usize = 0;
    while i < scope.len()
        invariant
            i <= scope.len(),
            f == frame_view(scope@),
            first_key(f, name@, 0) == first_key(f, name@, i as int),
        decreases scope.len() - i,
    {
        if scope[i].0 == *name {
            return Some(i);
        }
        i += 1;
    }
    None
}

/// Binds `name` to `value` in `scope`, replacing an earlier binding.
pub(crate) fn scope_put(scope: &mut Vec<(String, WhispObj)>, name: String, value: WhispObj)
    ensures
        frame_view(final(scope)@) == frame_put(frame_view(old(scope)@), name@, value@),
{
    proof {
        lemma_first_key(frame_view(scope@), name@, 0);
    }
    match find_key(scope, &name) {
        Some(j) => {
            scope.set(j, (name, value));
        },
        None => {
            scope.push((name, value));
        },
    }
    assert(frame_view(scope@) =~= frame_put(frame_view(old(scope)@), name@, value@));
}

impl Environment {
    /// An environment with one empty scope.
    pub fn new() -> (r: Self)
        ensures
            r@ == seq![Seq::<(Seq<char>, ObjV)>::empty()],
    {
        let r = Environment { stack: vec![Vec::new()] };
        assert(frame_view(r.stack@[0]@) =~= Seq::<(Seq<char>, ObjV)>::empty());
        assert(r@ =~= seq![Seq::<(Seq<char>, ObjV)>::empty()]);
        r
    }

    /// Opens a new innermost scope.
    pub fn enter_scope(&mut self)
        ensures
            final(self)@ == frames_enter(old(self)@),
    {
        self.stack.push(Vec::new());
        assert(frame_view(self.stack@.last()@) =~= seq![]);
        assert(self@ =~= frames_enter(old(self)@));
    }

    /// Closes the innermost scope and drops its bindings.
    pub fn exit_scope(&mut self)
        ensures
            final(self)@ == frames_exit(old(self)@),
    {
        let _ = self.stack.pop();
        assert(self@ =~= frames_exit(old(self)@));
    }

    /// Binds `name` to `value` in the innermost scope.
    pub fn put(&mut self, name: String, value: WhispObj)
        ensures
            final(self)@ == frames_put(old(self)@, name@, value@),
    {
        if self.stack.len() == 0 {
            return;
        }
        let k = self.stack.len() - 1;
        let mut scope: Vec<(String, WhispObj)> = Vec::new();
        self.stack.set_and_swap(k, &mut scope);
        scope_put(&mut scope, name, value);
        self.stack.set(k, scope);
        assert(self@ =~= frames_put(old(self)@, name@, value@));
    }

    /// The value of `name` in the innermost scope that binds it.
    pub fn get(&mut self, name: &str) -> (r: Option<WhispObj>)
        ensures
            *final(self) == *old(self),
            match frames_get(old(self)@, name@) {
                Some(v) => r is Some && r->Some_0@ == v,
                None => r is None,
            },
    {
        let key = name.to_owned();
        let mut k = self.stack.len();
        assert(self@.take(k as int) =~= self@);
        while k > 0
            invariant
                k <= self.stack.len(),
                *self == *old(self),
                key@ == name@,
                frames_get(self@, name@) == frames_get(self@.take(k as int), name@),
            decreases k,
        {
            let ghost fs = self@.take(k as int);
            assert(fs.drop_last() =~= self@.take(k as int - 1));
            assert(fs.last() == frame_view(self.stack@[k - 1]@));
            proof {
                lemma_first_key(frame_view(self.stack@[k - 1]@), name@, 0);
            }
            match find_key(&self.stack[k - 1], &key) {
                Some(j) => {
                    let ghost f = frame_view(self.stack@[k - 1]@);
                    assert(first_key(f, name@, 0) == Some(j as int));
                    assert(f[j as int] == (self.stack@[k - 1]@[j as int].0@, self.stack@[k - 1]@[j as int].1@));
                    assert(frame_get(f, name@) == Some(self.stack@[k - 1]@[j as int].1@));
                    assert(frames_get(fs, name@) == frame_get(fs.last(), name@));
                    return Some(self.stack[k - 1][j].1.deep_copy());
                },
                None => {},
            }
            k -= 1;
        }
        None
    }

    /// Rebinds `name` to `value` in the innermost scope that binds it; fails,
    /// changing nothing, when no scope binds it.
    pub fn update(&mut self, name: &str, value: WhispObj) -> (r: Result<(), EvalError>)
        ensures
            match frames_update(old(self)@, name@, value@) {
                Some(fs) => r is Ok && final(self)@ == fs,
                None => r matches Err(EvalError::UndeclaredVariable(n)) && n@ == name@ && *final(self) == *old(self),
            },
    {
        let key = name.to_owned();
        let mut k = self.stack.len();
        assert(self@.take(k as int) =~= self@);
        while k > 0
            invariant
                k <= self.stack.len(),
                *self == *old(self),
                key@ == name@,
                innermost(self@, name@) == innermost(self@.take(k as int), name@),
            decreases k,
        {
            let ghost fs = self@.take(k as int);
            assert(fs.drop_last() =~= self@.take(k as int - 1));
            assert(fs.last() == frame_view(self.stack@[k - 1]@));
            if find_key(&self.stack[k - 1], &key).is_some() {
                let i = k - 1;
                let mut scope: Vec<(String, WhispObj)> = Vec::new();
                self.stack.set_and_swap(i, &mut scope);
                scope_put(&mut scope, key, value);
                self.stack.set(i, scope);
                assert(self@ =~= old(self)@.update(i as int, frame_put(old(self)@[i as int], name@, value@)));
                return Ok(());
            }
            k -= 1;
        }
        Err(EvalError::UndeclaredVariable(key))
    }
}

/// A call that changes an environment's scopes: opening a scope, closing the
/// innermost one, or binding a name in the innermost one.
pub enum ScopeCall {
    Enter,
    Exit,
    Put(Seq<char>, ObjV),
}

/// The scopes after one call, as `enter_scope`, `exit_scope` and `put` leave them.
pub open spec fn frames_step(fs: Frames, c: ScopeCall) -> Frames {
    match c {
        ScopeCall::Enter => frames_enter(fs),
        ScopeCall::Exit => frames_exit(fs),
        ScopeCall::Put(name, v) => frames_put(fs, name, v),
    }
}

/// The scopes after a sequence of calls, made in order.
pub open spec fn frames_run(fs: Frames, cs: Seq<ScopeCall>) -> Frames
    decreases cs.len(),
{
    if cs.len() == 0 {
        fs
    } else {
        frames_step(frames_run(fs, cs.drop_last()), cs.last())
    }
}

/// Calls that never bring the scopes down to `l` or fewer leave the first
/// `l` scopes as they were.
proof fn lemma_run_keeps_outer(gs: Frames, cs: Seq<ScopeCall>, l: int)
    requires
        0 <= l,
        forall|j: int| 0 <= j <= cs.len() ==> #[trigger] frames_run(gs, cs.take(j)).len() > l,
    ensures
        frames_run(gs, cs).take(l) == gs.take(l),
    decreases cs.len(),
{
    assert(cs.take(cs.len() as int) =~= cs);
    if cs.len() == 0 {
        assert(cs.take(0) =~= cs);
    } else {
        let p = cs.drop_last();
        assert forall|j: int| 0 <= j <= p.len() implies #[trigger] frames_run(gs, p.take(j)).len() > l by {
            assert(p.take(j) =~= cs.take(j));
        }
        lemma_run_keeps_outer(gs, p, l);
        assert(p.take(p.len() as int) =~= p);
        assert(frames_run(gs, cs.take(p.len() as int)).len() > l);
        assert(cs.take(p.len() as int) =~= p);
        let a = frames_run(gs, p);
        let b = frames_run(gs, cs);
        assert(b.len() > l);
        assert(b.take(l) =~= a.take(l));
    }
}

/// Lexical scoping: open a scope, make any number of calls that do not close
/// it (bindings, and scopes opened and closed inside it), then close it. The
/// scopes are back as they were: what was bound inside is gone, and every
/// outer binding, shadowed or not, is seen again.
pub proof fn lemma_scope_exit_restores(fs: Frames, cs: Seq<ScopeCall>)
    requires
        forall|j: int| 0 <= j <= cs.len() ==> #[trigger] frames_run(frames_enter(fs), cs.take(j)).len() > fs.len(),
        frames_run(frames_enter(fs), cs).len() == fs.len() + 1,
    ensures
        frames_exit(frames_run(frames_enter(fs), cs)) == fs,
        forall|name: Seq<char>|
            #[trigger] frames_get(frames_exit(frames_run(frames_enter(fs), cs)), name) == frames_get(fs, name),
{
    lemma_run_keeps_outer(frames_enter(fs), cs, fs.len() as int);
    assert(frames_enter(fs).take(fs.len() as int) =~= fs);
    assert(frames_exit(frames_run(frames_enter(fs), cs)) =~= fs);
}

/// The calls that bind each name of `ps` to its value, in order.
pub open spec fn puts(ps: Seq<(Seq<char>, ObjV)>) -> Seq<ScopeCall> {
    ps.map_values(|p: (Seq<char>, ObjV)| ScopeCall::Put(p.0, p.1))
}

/// Bindings keep the number of scopes.
proof fn lemma_puts_keep_depth(gs: Frames, ps: Seq<(Seq<char>, ObjV)>)
    ensures
        frames_run(gs, puts(ps)).len() == gs.len(),
    decreases ps.len(),
{
    if ps.len() > 0 {
        assert(puts(ps).drop_last() =~= puts(ps.drop_last()));
        lemma_puts_keep_depth(gs, ps.drop_last());
    }
}

/// Leaving a scope after any number of bindings made in it gives back the
/// scopes as they were before the scope was entered.
pub proof fn lemma_bindings_end_with_scope(fs: Frames, ps: Seq<(Seq<char>, ObjV)>)
    ensures
        frames_exit(frames_run(frames_enter(fs), puts(ps))) == fs,
{
    let cs = puts(ps);
    assert forall|j: int| 0 <= j <= cs.len() implies #[trigger] frames_run(frames_enter(fs), cs.take(j)).len()
        > fs.len() by {
        assert(cs.take(j) =~= puts(ps.take(j)));
        lemma_puts_keep_depth(frames_enter(fs), ps.take(j));
    }
    lemma_puts_keep_depth(frames_enter(fs), ps);
    lemma_scope_exit_restores(fs, cs);
}

} // verus!
