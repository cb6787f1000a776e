//! The built-in loader: runs a module's code in a fresh session and keeps
//! every binding the code made as the module's scope.
use vstd::prelude::*;

use crate::environment::{frame_put, frame_view, scope_put, Frame, Frames};
use crate::module::loader::ModuleLoader;
use crate::module::object::{ModuleError, ModuleObject};
use crate::module::spec::ModuleSpec;
use crate::runtime::builtin::{declare_builtins, with_builtins};
use crate::runtime::semantics::run;
use crate::tree::ASTNode;
use crate::whisp::{parse_source, Whisp};

verus! {

/// A scope after binding, in order, every pair of `frame`.
pub open spec fn put_all(scope: Frame, frame: Frame) -> Frame
    decreases frame.len(),
{
    if frame.len() == 0 {
        scope
    } else {
        put_all(frame_put(scope, frame[0].0, frame[0].1), frame.drop_first())
    }
}

/// A scope after taking in the bindings of `fs`, innermost scope first, so
/// that on a name bound twice the outer binding is the one kept.
pub open spec fn absorb(scope: Frame, fs: Frames) -> Frame
    decreases fs.len(),
{
    if fs.len() == 0 {
        scope
    } else {
        absorb(put_all(scope, fs.last()), fs.drop_last())
    }
}

/// Loads modules with a session of its own.
pub struct BuiltinImporter {
    pub whisp: Whisp,
}

impl BuiltinImporter {
    /// A loader with a fresh session, built-in functions registered.
    pub fn new() -> (r: Self)
        ensures
            r.whisp.eval.env@ == with_builtins(seq![seq![]]),
            r.whisp.eval.output@.len() == 0,
            r.whisp.eval.fuel == u64::MAX,
            r.whisp.sym@ == declare_builtins(seq![Set::<Seq<char>>::empty()]),
    {
        let whisp = Whisp::new();
        Self { whisp }
    }

    /// Evaluates `ast`, then moves every binding of the session into the
    /// module's scope, leaving the session without scopes.
    pub fn exec(&mut self, ast: &ASTNode, module: &mut ModuleObject) -> (r: Result<(), ModuleError>)
        ensures
            ({
                let o = run(ast@, old(self).whisp.eval.machine());
                &&& final(self).whisp.eval.fuel as nat == o.st.fuel
                &&& final(self).whisp.eval.output@.map_values(|s: String| s@) == o.st.out
                &&& final(self).whisp.sym == old(self).whisp.sym
                &&& match o.res {
                    Ok(_) => {
                        &&& r is Ok
                        &&& final(self).whisp.eval.env@.len() == 0
                        &&& frame_view(final(module).scope@) == absorb(frame_view(old(module).scope@), o.st.frames)
                    },
                    Err(e) => {
                        &&& r matches Err(ModuleError::Exec(x)) && x@ == e
                        &&& final(self).whisp.eval.env@ == o.st.frames
                        &&& final(module).scope == old(module).scope
                    },
                }
            }),
    {
        match self.whisp.eval(ast) {
            Ok(_) => {},
            Err(e) => {
                return Err(ModuleError::Exec(e));
            },
        }
        let ghost fs0 = self.whisp.eval.env@;
        let ghost sc0 = frame_view(module.scope@);
        let ghost f1 = self.whisp.eval.fuel;
        let ghost out1 = self.whisp.eval.output;
        while self.whisp.eval.env.stack.len() > 0
            invariant
                absorb(sc0, fs0) == absorb(frame_view(module.scope@), self.whisp.eval.env@),
                self.whisp.eval.fuel == f1,
                self.whisp.eval.output == out1,
                self.whisp.sym == old(self).whisp.sym,
            decreases self.whisp.eval.env.stack.len(),
        {
            let ghost before = self.whisp.eval.env@;
            let frame = match self.whisp.eval.env.stack.pop() {
                Some(f) => f,
                None => Vec::new(),
            };
            let ghost fv = frame_view(frame@);
            proof {
                assert(self.whisp.eval.env@ =~= before.drop_last());
                assert(fv == before.last());
                assert(fv.skip(0) =~= fv);
            }
            let ghost start = frame_view(module.scope@);
            let mut i: usize = 0;
            while i < frame.len()
                invariant
                    i <= frame.len(),
                    fv == frame_view(frame@),
                    put_all(start, fv) == put_all(frame_view(module.scope@), fv.skip(i as int)),
                decreases frame.len() - i,
            {
                proof {
                    assert(fv.skip(i as int)[0] == fv[i as int]);
                    assert(fv.skip(i as int).drop_first() =~= fv.skip(i as int + 1));
                }
                scope_put(&mut module.scope, frame[i].0.clone(), frame[i].1.deep_copy());
                i += 1;
            }
            proof {
                assert(fv.skip(i as int) =~= Seq::<(Seq<char>, crate::object::ObjV)>::empty());
            }
        }
        Ok(())
    }
}

impl ModuleLoader for BuiltinImporter {
    fn create_module(&self, spec: ModuleSpec) -> (r: ModuleObject)
        ensures
            r.name@ == spec.name@,
            r.spec == spec,
            r.scope@.len() == 0,
    {
        ModuleObject { name: spec.name.clone(), spec, scope: Vec::new() }
    }

    fn exec_module(&mut self, module: &mut ModuleObject, code: &str) -> (r: Result<(), ModuleError>)
        ensures
            ({
                let x = parse_source(code@, old(self).whisp.sym@);
                &&& final(self).whisp.sym@ == x.sym
                &&& match x.res {
                    Err(e) => {
                        &&& r matches Err(ModuleError::Parse(pe)) && pe@ == e
                        &&& final(self).whisp.eval == old(self).whisp.eval
                        &&& final(module).scope == old(module).scope
                    },
                    Ok(ast) => {
                        let o = run(ast, old(self).whisp.eval.machine());
                        &&& final(self).whisp.eval.fuel as nat == o.st.fuel
                        &&& final(self).whisp.eval.output@.map_values(|s: String| s@) == o.st.out
                        &&& match o.res {
                            Ok(_) => {
                                &&& r is Ok
                                &&& final(self).whisp.eval.env@.len() == 0
                                &&& frame_view(final(module).scope@) == absorb(
                                    frame_view(old(module).scope@),
                                    o.st.frames,
                                )
                            },
                            Err(e) => {
                                &&& r matches Err(ModuleError::Exec(x)) && x@ == e
                                &&& final(self).whisp.eval.env@ == o.st.frames
                                &&& final(module).scope == old(module).scope
                            },
                        }
                    },
                }
            }),
    {
        let ast = match self.whisp.parse(code) {
            Ok(ast) => ast,
            Err(e) => {
                return Err(ModuleError::Parse(e));
            },
        };
        self.exec(&ast, module)
    }
}

} // verus!
