//! The interpreter: walks the syntax tree and evaluates each node in an
//! environment of bindings.
use vstd::prelude::*;

use crate::environment::{frames_enter, frames_exit, frames_put, Environment};
use crate::object::{lemma_obj_views, lemma_obj_views_push, obj_views, ObjV, WhispObj};
use crate::ops::Operation;
use crate::runtime::builtin::{builtin_accepts, BuiltInFunction};
use crate::runtime::error::{EvalErrV, EvalError, NodeKind};
use crate::runtime::evaluator::{eval, Evaluator};
use crate::runtime::semantics::{
    all_identifiers, bind_params, lemma_size_list, lemma_within, run_for, run_list, run_stmts, run_while, sem_array, sem_array_index,
    sem_assign, sem_binary_op, sem_boolean, sem_call, sem_forloop, sem_function_def, sem_identifier, sem_ifstatement,
    sem_letbinding, sem_numeric, sem_return, sem_statements, sem_str, sem_whileloop, size, size_list, with_frames,
    ListOutcome, Machine, Outcome,
};
use crate::tree::{clone_nodes, lemma_views, views, ASTNode, SpecAst};

verus! {

/// Walks the syntax tree and evaluates it: each node is evaluated according
/// to its kind, in an environment that maps variable names to values.
pub struct Interpreter {
    /// The bindings.
    pub env: Environment,
    /// The steps (loop iterations and calls) left.
    pub fuel: u64,
    /// The lines printed so far.
    pub output: Vec<String>,
}

/// `r` and the state `after` are the outcome `o` of an evaluation that
/// started in `before`, and no steps were added.
pub open spec fn evaluates(r: Result<WhispObj, EvalError>, before: Interpreter, after: Interpreter, o: Outcome) -> bool {
    &&& after.fuel <= before.fuel
    &&& after.machine() == o.st
    &&& match r {
        Ok(v) => o.res == Ok::<ObjV, EvalErrV>(v@),
        Err(e) => o.res == Err::<ObjV, EvalErrV>(e@),
    }
}

/// The values of a list outcome prefixed with `acc`.
pub open spec fn prefixed(acc: Seq<ObjV>, lo: ListOutcome) -> ListOutcome {
    ListOutcome {
        res: match lo.res {
            Ok(vs) => Ok(acc + vs),
            Err(e) => Err(e),
        },
        st: lo.st,
    }
}

impl Interpreter {
    /// The state of evaluation that this interpreter holds.
    pub open spec fn machine(&self) -> Machine {
        Machine { frames: self.env@, out: self.output@.map_values(|s: String| s@), fuel: self.fuel as nat }
    }

    /// An interpreter over `env`, with the largest budget of steps.
    pub fn new(env: Environment) -> (r: Self)
        ensures
            r.env@ == env@,
            r.fuel == u64::MAX,
            r.output@.len() == 0,
    {
        Interpreter { env, fuel: u64::MAX, output: Vec::new() }
    }

    /// An interpreter over `env` that stops after `fuel` steps.
    pub fn with_fuel(env: Environment, fuel: u64) -> (r: Self)
        ensures
            r.env@ == env@,
            r.fuel == fuel,
            r.output@.len() == 0,
    {
        Interpreter { env, fuel, output: Vec::new() }
    }

    /// The value bound to `name`, looked up from the innermost scope out.
    pub fn lookup(&mut self, name: &str) -> (r: Option<WhispObj>)
        ensures
            *final(self) == *old(self),
            match crate::environment::frames_get(old(self).env@, name@) {
                Some(v) => r is Some && r->Some_0@ == v,
                None => r is None,
            },
    {
        self.env.get(name)
    }

    /// Binds `key` to `value` in the innermost scope.
    pub fn register(&mut self, key: String, value: WhispObj)
        ensures
            final(self).machine() == with_frames(old(self).machine(), frames_put(old(self).env@, key@, value@)),
            final(self).fuel == old(self).fuel,
            final(self).output == old(self).output,
    {
        self.env.put(key, value)
    }

    /// Rebinds `key` to `value` where it is bound innermost.
    pub fn update(&mut self, key: &str, value: WhispObj) -> (r: Result<(), EvalError>)
        ensures
            final(self).fuel == old(self).fuel,
            final(self).output == old(self).output,
            match crate::environment::frames_update(old(self).env@, key@, value@) {
                Some(fs) => r is Ok && final(self).env@ == fs,
                None => r matches Err(EvalError::UndeclaredVariable(n)) && n@ == key@ && final(self).env == old(self).env,
            },
    {
        self.env.update(key, value)
    }

    fn enter_scope(&mut self)
        ensures
            final(self).machine() == with_frames(old(self).machine(), frames_enter(old(self).env@)),
            final(self).fuel == old(self).fuel,
            final(self).output == old(self).output,
    {
        self.env.enter_scope()
    }

    fn exit_scope(&mut self)
        ensures
            final(self).machine() == with_frames(old(self).machine(), frames_exit(old(self).env@)),
            final(self).fuel == old(self).fuel,
            final(self).output == old(self).output,
    {
        self.env.exit_scope()
    }

    /// Hands out the lines printed so far, and forgets them.
    pub fn take_output(&mut self) -> (r: Vec<String>)
        ensures
            r@ == old(self).output@,
            final(self).output@.len() == 0,
            final(self).env == old(self).env,
            final(self).fuel == old(self).fuel,
    {
        let mut out: Vec<String> = Vec::new();
        std::mem::swap(&mut out, &mut self.output);
        out
    }

    /// Evaluates `nodes` in order and collects their values.
    fn eval_list(&mut self, nodes: &Vec<ASTNode>) -> (r: Result<Vec<WhispObj>, EvalError>)
        ensures
            final(self).fuel <= old(self).fuel,
            ({
                let o = run_list(views(nodes@), old(self).machine());
                &&& final(self).machine() == o.st
                &&& match r {
                    Ok(vs) => o.res == Ok::<Seq<ObjV>, EvalErrV>(obj_views(vs@)),
                    Err(e) => o.res == Err::<Seq<ObjV>, EvalErrV>(e@),
                }
            }),
        decreases old(self).fuel, size_list(views(nodes@)), 2int,
    {
        let ghost ns = views(nodes@);
        let ghost m0 = self.machine();
        let mut values: Vec<WhispObj> = Vec::new();
        proof {
            lemma_views(nodes@);
            assert(ns.skip(0) =~= ns);
            assert(obj_views(values@) =~= seq![]);
            assert(prefixed(seq![], run_list(ns, m0)) == run_list(ns, m0)) by {
                let lo = run_list(ns, m0);
                match lo.res {
                    Ok(vs) => {
                        assert(Seq::<ObjV>::empty() + vs =~= vs);
                    },
                    Err(_) => {},
                }
            }
        }
        let mut i: usize = 0;
        while i < nodes.len()
            invariant
                i <= nodes.len(),
                ns == views(nodes@),
                ns.len() == nodes.len(),
                forall|j: int| 0 <= j < nodes.len() ==> #[trigger] ns[j] == nodes@[j]@,
                self.fuel <= old(self).fuel,
                m0 == old(self).machine(),
                run_list(ns, m0) == prefixed(obj_views(values@), run_list(ns.skip(i as int), self.machine())),
            decreases nodes.len() - i,
        {
            let ghost m = self.machine();
            let ghost rest = ns.skip(i as int);
            proof {
                lemma_size_list(ns, i as int);
                assert(rest[0] == ns[i as int]);
                assert(rest.drop_first() =~= ns.skip(i as int + 1));
            }
            let v = match eval(self, &nodes[i]) {
                Ok(v) => v,
                Err(e) => {
                    return Err(e);
                },
            };
            proof {
                lemma_within(self.machine(), m.fuel);
                lemma_obj_views_push(values@, v);
                let t = run_list(ns.skip(i as int + 1), self.machine());
                match t.res {
                    Ok(vs) => {
                        assert(obj_views(values@) + (seq![v@] + vs) =~= obj_views(values@).push(v@) + vs);
                    },
                    Err(_) => {},
                }
            }
            values.push(v);
            i += 1;
        }
        proof {
            assert(ns.skip(i as int) =~= Seq::<SpecAst>::empty());
            assert(obj_views(values@) + Seq::<ObjV>::empty() =~= obj_views(values@));
        }
        Ok(values)
    }
}

impl Evaluator for Interpreter {
    fn eval_str(&mut self, node: &ASTNode) -> (r: Result<WhispObj, EvalError>)
        ensures
            evaluates(r, *old(self), *final(self), sem_str(node@, old(self).machine())),
    {
        match node {
            ASTNode::Str { value } => Ok(WhispObj::Str(value.clone())),
            _ => Err(EvalError::ExpectedNode(NodeKind::Str)),
        }
    }

    fn eval_numeric(&mut self, node: &ASTNode) -> (r: Result<WhispObj, EvalError>)
        ensures
            evaluates(r, *old(self), *final(self), sem_numeric(node@, old(self).machine())),
    {
        match node {
            ASTNode::Numeric { value } => Ok(WhispObj::Int(*value)),
            _ => Err(EvalError::ExpectedNode(NodeKind::Numeric)),
        }
    }

    fn eval_boolean(&mut self, node: &ASTNode) -> (r: Result<WhispObj, EvalError>)
        ensures
            evaluates(r, *old(self), *final(self), sem_boolean(node@, old(self).machine())),
    {
        match node {
            ASTNode::Bool { value } => Ok(WhispObj::Bool(*value)),
            _ => Err(EvalError::ExpectedNode(NodeKind::Bool)),
        }
    }

    fn eval_array(&mut self, node: &ASTNode) -> (r: Result<WhispObj, EvalError>)
        ensures
            evaluates(r, *old(self), *final(self), sem_array(node@, old(self).machine())),
        decreases old(self).fuel, size(node@), 0int,
    {
        match node {
            ASTNode::Array { elements } => {
                let values = self.eval_list(elements)?;
                Ok(WhispObj::Array(values))
            },
            _ => Err(EvalError::ExpectedNode(NodeKind::Array)),
        }
    }

    fn eval_array_index(&mut self, node: &ASTNode) -> (r: Result<WhispObj, EvalError>)
        ensures
            evaluates(r, *old(self), *final(self), sem_array_index(node@, old(self).machine())),
        decreases old(self).fuel, size(node@), 0int,
    {
        match node {
            ASTNode::ArrayIndex { arr, index } => {
                let arr_eval = eval(self, arr)?;
                let ghost m1 = self.machine();
                proof {
                    lemma_within(m1, old(self).fuel as nat);
                }
                let index_eval = eval(self, index)?;
                match (arr_eval, index_eval) {
                    (WhispObj::Array(items), WhispObj::Int(idx)) => {
                        proof {
                            lemma_obj_views(items@);
                        }
                        if idx < 0 || idx as usize >= items.len() {
                            return Err(EvalError::IndexOutOfBound(idx));
                        }
                        Ok(items[idx as usize].deep_copy())
                    },
                    _ => Err(EvalError::InvalidIndex),
                }
            },
            _ => Err(EvalError::ExpectedNode(NodeKind::ArrayIndex)),
        }
    }

    fn eval_identifier(&mut self, node: &ASTNode) -> (r: Result<WhispObj, EvalError>)
        ensures
            evaluates(r, *old(self), *final(self), sem_identifier(node@, old(self).machine())),
    {
        match node {
            ASTNode::Identifier { name } => match self.lookup(name.as_str()) {
                Some(v) => Ok(v),
                None => Err(EvalError::UndeclaredIdentifier(name.clone())),
            },
            _ => Err(EvalError::ExpectedNode(NodeKind::Identifier)),
        }
    }

    fn eval_binary_op(&mut self, op: &Operation, lhs: &ASTNode, rhs: &ASTNode) -> (r: Result<WhispObj, EvalError>)
        ensures
            evaluates(r, *old(self), *final(self), sem_binary_op(*op, lhs@, rhs@, old(self).machine())),
        decreases old(self).fuel, size(lhs@) + size(rhs@) + 1, 0int,
    {
        let lhs_val = eval(self, lhs)?;
        proof {
            lemma_within(self.machine(), old(self).fuel as nat);
        }
        let rhs_val = eval(self, rhs)?;
        lhs_val.apply(*op, rhs_val)
    }

    fn eval_letbinding(&mut self, node: &ASTNode) -> (r: Result<WhispObj, EvalError>)
        ensures
            evaluates(r, *old(self), *final(self), sem_letbinding(node@, old(self).machine())),
        decreases old(self).fuel, size(node@), 0int,
    {
        match node {
            ASTNode::LetBinding { identifier, body } => match &**identifier {
                ASTNode::Identifier { name } => {
                    assert(identifier@ == (SpecAst::Identifier { name: name@ }));
                    assert(node@ == (SpecAst::LetBinding { identifier: Box::new(SpecAst::Identifier { name: name@ }), body: Box::new(body@) }));
                    let eval_value = eval(self, body)?;
                    self.register(name.clone(), eval_value);
                    Ok(WhispObj::Void(()))
                },
                _ => {
                    assert(!(identifier@ is Identifier));
                    Err(EvalError::InvalidBindingTarget)
                },
            },
            _ => Err(EvalError::ExpectedNode(NodeKind::LetBinding)),
        }
    }

    fn eval_assgin(&mut self, node: &ASTNode) -> (r: Result<WhispObj, EvalError>)
        ensures
            evaluates(r, *old(self), *final(self), sem_assign(node@, old(self).machine())),
        decreases old(self).fuel, size(node@), 0int,
    {
        match node {
            ASTNode::Assign { identifier, body } => {
                let eval_value = eval(self, body)?;
                proof {
                    lemma_within(self.machine(), old(self).fuel as nat);
                }
                match &**identifier {
                    ASTNode::Identifier { name } => {
                        assert(identifier@ == (SpecAst::Identifier { name: name@ }));
                        self.update(name.as_str(), eval_value.deep_copy())?;
                        Ok(eval_value)
                    },
                    ASTNode::ArrayIndex { arr, index } => {
                        assert(identifier@ == (SpecAst::ArrayIndex { arr: Box::new(arr@), index: Box::new(index@) }));
                        proof {
                            assert(size(identifier@) == 1 + size(arr@) + size(index@));
                        }
                        let array_val = eval(self, arr)?;
                        proof {
                            lemma_within(self.machine(), old(self).fuel as nat);
                        }
                        let index_val = eval(self, index)?;
                        match (array_val, index_val) {
                            (WhispObj::Array(vec), WhispObj::Int(i)) => {
                                let mut vec = vec;
                                proof {
                                    lemma_obj_views(vec@);
                                }
                                if i < 0 || i as usize >= vec.len() {
                                    return Err(EvalError::IndexOutOfBounds);
                                }
                                let ghost before = vec@;
                                vec.set(i as usize, eval_value.deep_copy());
                                proof {
                                    lemma_obj_views(vec@);
                                    assert(obj_views(vec@) =~= obj_views(before).update(i as int, eval_value@));
                                }
                                match &**arr {
                                    ASTNode::Identifier { name } => {
                                        assert(arr@ == (SpecAst::Identifier { name: name@ }));
                                        self.update(name.as_str(), WhispObj::Array(vec))?;
                                    },
                                    _ => {
                                        assert(!(arr@ is Identifier));
                                        return Err(EvalError::ArrayAssignTarget);
                                    },
                                }
                                Ok(eval_value)
                            },
                            _ => Err(EvalError::InvalidArrayAssignment),
                        }
                    },
                    _ => {
                        assert(!(identifier@ is Identifier) && !(identifier@ is ArrayIndex));
                        Err(EvalError::InvalidAssignTarget)
                    },
                }
            },
            _ => Err(EvalError::ExpectedNode(NodeKind::Assign)),
        }
    }

    fn eval_statements(&mut self, node: &ASTNode) -> (r: Result<WhispObj, EvalError>)
        ensures
            evaluates(r, *old(self), *final(self), sem_statements(node@, old(self).machine())),
        decreases old(self).fuel, size(node@), 0int,
    {
        match node {
            ASTNode::Statements { stmts } => {
                let ghost ns = views(stmts@);
                let ghost m0 = self.machine();
                proof {
                    lemma_views(stmts@);
                    assert(ns.skip(0) =~= ns);
                }
                let mut last_value = WhispObj::Void(());
                let mut i: usize = 0;
                while i < stmts.len()
                    invariant
                        i <= stmts.len(),
                        ns == views(stmts@),
                        node@ == (SpecAst::Statements { stmts: ns }),
                        ns.len() == stmts.len(),
                        forall|j: int| 0 <= j < stmts.len() ==> #[trigger] ns[j] == stmts@[j]@,
                        self.fuel <= old(self).fuel,
                        m0 == old(self).machine(),
                        run_stmts(ns, m0, ObjV::Void) == run_stmts(ns.skip(i as int), self.machine(), last_value@),
                    decreases stmts.len() - i,
                {
                    let ghost m = self.machine();
                    let ghost rest = ns.skip(i as int);
                    proof {
                        lemma_size_list(ns, i as int);
                        assert(rest[0] == ns[i as int]);
                        assert(rest.drop_first() =~= ns.skip(i as int + 1));
                    }
                    last_value = eval(self, &stmts[i])?;
                    proof {
                        lemma_within(self.machine(), m.fuel);
                    }
                    i += 1;
                }
                proof {
                    assert(ns.skip(i as int) =~= Seq::<SpecAst>::empty());
                }
                Ok(last_value)
            },
            _ => Err(EvalError::ExpectedNode(NodeKind::Statements)),
        }
    }

    fn eval_whileloop(&mut self, node: &ASTNode) -> (r: Result<WhispObj, EvalError>)
        ensures
            evaluates(r, *old(self), *final(self), sem_whileloop(node@, old(self).machine())),
        decreases old(self).fuel, size(node@), 0int,
    {
        match node {
            ASTNode::WhileLoop { cond, body } => {
                self.enter_scope();
                let ghost m0 = self.machine();
                loop
                    invariant
                        self.fuel <= old(self).fuel,
                        node@ == (SpecAst::WhileLoop { cond: Box::new(cond@), body: Box::new(body@) }),
                        m0 == with_frames(old(self).machine(), frames_enter(old(self).env@)),
                        run_while(cond@, body@, self.machine()) == run_while(cond@, body@, m0),
                    decreases self.fuel,
                {
                    if self.fuel == 0 {
                        return Err(EvalError::StepLimit);
                    }
                    let ghost m = self.machine();
                    self.fuel = self.fuel - 1;
                    let ghost f = self.fuel as nat;
                    assert(self.machine() == (Machine { frames: m.frames, out: m.out, fuel: f }));
                    let c = eval(self, cond)?;
                    proof {
                        lemma_within(self.machine(), f);
                    }
                    match c {
                        WhispObj::Bool(true) => {
                            eval(self, body)?;
                            proof {
                                lemma_within(self.machine(), f);
                            }
                        },
                        _ => {
                            self.exit_scope();
                            return Ok(WhispObj::Void(()));
                        },
                    }
                }
            },
            _ => Err(EvalError::ExpectedNode(NodeKind::WhileLoop)),
        }
    }

    #[verifier::loop_isolation(false)]
    fn eval_forloop(&mut self, node: &ASTNode) -> (r: Result<WhispObj, EvalError>)
        ensures
            evaluates(r, *old(self), *final(self), sem_forloop(node@, old(self).machine())),
        decreases old(self).fuel, size(node@), 0int,
    {
        match node {
            ASTNode::ForLoop { itr, var, body } => {
                let iterable = eval(self, itr)?;
                proof {
                    lemma_within(self.machine(), old(self).fuel as nat);
                }
                let elements = match iterable {
                    WhispObj::Array(elements) => elements,
                    _ => {
                        return Err(EvalError::ExpectedIterable);
                    },
                };
                let name = match &**var {
                    ASTNode::Identifier { name } => name,
                    _ => {
                        assert(!(var@ is Identifier));
                        return Err(EvalError::InvalidLoopVariable);
                    },
                };
                assert(var@ == (SpecAst::Identifier { name: name@ }));
                assert(node@ == (SpecAst::ForLoop {
                    itr: Box::new(itr@),
                    var: Box::new(SpecAst::Identifier { name: name@ }),
                    body: Box::new(body@),
                }));
                self.enter_scope();
                let ghost m0 = self.machine();
                let ghost items = obj_views(elements@);
                proof {
                    lemma_obj_views(elements@);
                    assert(items.skip(0) =~= items);
                }
                let mut i: usize = 0;
                while i < elements.len()
                    invariant
                        i <= elements.len(),
                        items == obj_views(elements@),
                        items.len() == elements.len(),
                        forall|j: int| 0 <= j < elements.len() ==> #[trigger] items[j] == elements@[j]@,
                        self.fuel <= old(self).fuel,
                        size(body@) < size(node@),
                        run_for(name@, items.skip(i as int), body@, self.machine()) == run_for(
                            name@,
                            items,
                            body@,
                            m0,
                        ),
                    decreases elements.len() - i,
                {
                    let ghost m = self.machine();
                    proof {
                        assert(items.skip(i as int)[0] == items[i as int]);
                        assert(items.skip(i as int).drop_first() =~= items.skip(i as int + 1));
                    }
                    self.register(name.clone(), elements[i].deep_copy());
                    eval(self, body)?;
                    proof {
                        lemma_within(self.machine(), m.fuel);
                    }
                    i += 1;
                }
                proof {
                    assert(items.skip(i as int) =~= Seq::<ObjV>::empty());
                }
                self.exit_scope();
                Ok(WhispObj::Void(()))
            },
            _ => Err(EvalError::ExpectedNode(NodeKind::ForLoop)),
        }
    }

    fn eval_ifstatement(&mut self, node: &ASTNode) -> (r: Result<WhispObj, EvalError>)
        ensures
            evaluates(r, *old(self), *final(self), sem_ifstatement(node@, old(self).machine())),
        decreases old(self).fuel, size(node@), 0int,
    {
        match node {
            ASTNode::IfStatement { cond, then_branch, else_branch } => {
                let c = eval(self, cond)?;
                proof {
                    lemma_within(self.machine(), old(self).fuel as nat);
                }
                match c {
                    WhispObj::Bool(true) => {
                        self.enter_scope();
                        let result = eval(self, then_branch);
                        self.exit_scope();
                        result
                    },
                    WhispObj::Bool(false) => match else_branch {
                        Some(e) => {
                            self.enter_scope();
                            let result = eval(self, e);
                            self.exit_scope();
                            result
                        },
                        None => Ok(WhispObj::Void(())),
                    },
                    _ => Err(EvalError::NonBooleanCondition),
                }
            },
            _ => Err(EvalError::ExpectedNode(NodeKind::IfStatement)),
        }
    }

    #[verifier::loop_isolation(false)]
    fn eval_function_def(&mut self, node: &ASTNode) -> (r: Result<WhispObj, EvalError>)
        ensures
            evaluates(r, *old(self), *final(self), sem_function_def(node@, old(self).machine())),
    {
        match node {
            ASTNode::FunctionDef { name, params, body } => {
                let fname = match &**name {
                    ASTNode::Identifier { name } => name,
                    _ => {
                        assert(!(name@ is Identifier));
                        return Err(EvalError::InvalidFunctionName);
                    },
                };
                assert(name@ == (SpecAst::Identifier { name: fname@ }));
                assert(node@ == (SpecAst::FunctionDef {
                    name: Box::new(SpecAst::Identifier { name: fname@ }),
                    params: views(params@),
                    body: Box::new(body@),
                }));
                proof {
                    lemma_views(params@);
                }
                let mut i: usize = 0;
                while i < params.len()
                    invariant
                        i <= params.len(),
                        views(params@).len() == params.len(),
                        forall|j: int| 0 <= j < params.len() ==> #[trigger] views(params@)[j] == params@[j]@,
                        forall|j: int| 0 <= j < i ==> (#[trigger] views(params@)[j]) is Identifier,
                    decreases params.len() - i,
                {
                    match &params[i] {
                        ASTNode::Identifier { .. } => {},
                        _ => {
                            assert(!(views(params@)[i as int] is Identifier));
                            assert(!all_identifiers(views(params@)));
                            return Err(EvalError::InvalidParameters);
                        },
                    }
                    i += 1;
                }
                assert(all_identifiers(views(params@)));
                let fun_definition = WhispObj::Function { params: clone_nodes(params), body: Box::new(body.deep_clone()) };
                self.register(fname.clone(), fun_definition);
                Ok(WhispObj::Void(()))
            },
            _ => Err(EvalError::ExpectedNode(NodeKind::FunctionDef)),
        }
    }

    fn eval_return(&mut self, node: &ASTNode) -> (r: Result<WhispObj, EvalError>)
        ensures
            evaluates(r, *old(self), *final(self), sem_return(node@, old(self).machine())),
        decreases old(self).fuel, size(node@), 0int,
    {
        match node {
            ASTNode::Return { value } => {
                let eval_value = eval(self, value)?;
                Ok(WhispObj::Return(Box::new(eval_value)))
            },
            _ => Err(EvalError::ExpectedNode(NodeKind::Return)),
        }
    }

    #[verifier::loop_isolation(false)]
    fn eval_function_call(&mut self, node: &ASTNode) -> (r: Result<WhispObj, EvalError>)
        ensures
            evaluates(r, *old(self), *final(self), sem_call(node@, old(self).machine())),
        decreases old(self).fuel, size(node@), 0int,
    {
        match node {
            ASTNode::Call { name, args } => {
                let eval_fun = eval(self, name)?;
                proof {
                    lemma_within(self.machine(), old(self).fuel as nat);
                }
                let eval_args = self.eval_list(args)?;
                proof {
                    lemma_within(self.machine(), old(self).fuel as nat);
                    lemma_obj_views(eval_args@);
                }
                match eval_fun {
                    WhispObj::Function { params, body } => {
                        proof {
                            lemma_views(params@);
                        }
                        if eval_args.len() != params.len() {
                            return Err(EvalError::ArityMismatch { expected: params.len(), found: eval_args.len() });
                        }
                        if self.fuel == 0 {
                            return Err(EvalError::StepLimit);
                        }
                        self.fuel = self.fuel - 1;
                        self.enter_scope();
                        let ghost ps = views(params@);
                        let ghost vs = obj_views(eval_args@);
                        let ghost target = bind_params(ps, vs, self.env@);
                        let ghost m2 = self.machine();
                        let ghost out2 = self.output;
                        proof {
                            assert(ps.skip(0) =~= ps);
                            assert(vs.skip(0) =~= vs);
                        }
                        let mut i: usize = 0;
                        while i < params.len()
                            invariant
                                i <= params.len(),
                                params.len() == eval_args.len(),
                                ps == views(params@),
                                vs == obj_views(eval_args@),
                                ps.len() == params.len(),
                                vs.len() == eval_args.len(),
                                forall|j: int| 0 <= j < params.len() ==> #[trigger] ps[j] == params@[j]@,
                                forall|j: int| 0 <= j < eval_args.len() ==> #[trigger] vs[j] == eval_args@[j]@,
                                bind_params(ps.skip(i as int), vs.skip(i as int), self.env@) == target,
                                self.fuel == m2.fuel,
                                self.output == out2,
                                m2.out == self.machine().out,
                                self.machine() == with_frames(m2, self.env@),
                            decreases params.len() - i,
                        {
                            proof {
                                assert(ps.skip(i as int)[0] == ps[i as int]);
                                assert(vs.skip(i as int)[0] == vs[i as int]);
                                assert(ps.skip(i as int).drop_first() =~= ps.skip(i as int + 1));
                                assert(vs.skip(i as int).drop_first() =~= vs.skip(i as int + 1));
                            }
                            match &params[i] {
                                ASTNode::Identifier { name } => {
                                    self.register(name.clone(), eval_args[i].deep_copy());
                                },
                                _ => {
                                    return Err(EvalError::InvalidParameter);
                                },
                            }
                            i += 1;
                        }
                        proof {
                            assert(ps.skip(i as int) =~= Seq::<SpecAst>::empty());
                        }
                        let result = eval(self, &body)?;
                        self.exit_scope();
                        match result {
                            WhispObj::Return(inner) => Ok(*inner),
                            _ => Ok(WhispObj::Void(())),
                        }
                    },
                    WhispObj::BuiltInFunction { callback } => {
                        let accepted = match callback {
                            crate::object::BuiltinFn::Print => true,
                            _ => eval_args.len() == 2 && match (&eval_args[0], &eval_args[1]) {
                                (WhispObj::Int(_), WhispObj::Int(_)) => true,
                                _ => false,
                            },
                        };
                        if !accepted {
                            if eval_args.len() != 2 {
                                return Err(EvalError::BuiltinArity(eval_args.len()));
                            }
                            return Err(EvalError::BuiltinTypes);
                        }
                        let lines = callback.output(&eval_args);
                        let ghost out0 = self.output@;
                        let mut lines = lines;
                        self.output.append(&mut lines);
                        proof {
                            assert(self.output@.map_values(|s: String| s@) =~= out0.map_values(|s: String| s@)
                                + crate::runtime::builtin::builtin_printed(callback, obj_views(eval_args@)));
                        }
                        Ok(callback.call(eval_args))
                    },
                    _ => Err(EvalError::NotCallable),
                }
            },
            _ => Err(EvalError::ExpectedNode(NodeKind::Call)),
        }
    }
}

} // verus!
