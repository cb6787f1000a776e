//! The built-in functions (`print`, `max`, `min`) and their registration.
use vstd::prelude::*;

use crate::environment::{frames_put, lemma_get_after_put, lemma_put_keeps_others, Environment, Frames};
use crate::object::{display, lemma_obj_views, obj_views, BuiltinFn, ObjV, WhispObj};
use crate::symbol::{declare, lemma_declare_keeps_others, lemma_declared_after_declare, SymbolInfo, SymbolTable};

verus! {

/// A function that the runtime provides to every program.
pub trait BuiltInFunction {
    /// The name programs call it by.
    spec fn name_text(&self) -> Seq<char>;

    /// It can be called with these arguments.
    spec fn accepts(&self, args: Seq<ObjV>) -> bool;

    /// What a call with these arguments returns.
    spec fn result(&self, args: Seq<ObjV>) -> ObjV;

    /// The lines a call with these arguments prints.
    spec fn printed(&self, args: Seq<ObjV>) -> Seq<Seq<char>>;

    fn name(&self) -> (r: &'static str)
        ensures
            r@ == self.name_text(),
    ;

    fn call(&self, args: Vec<WhispObj>) -> (r: WhispObj)
        requires
            self.accepts(obj_views(args@)),
        ensures
            r@ == self.result(obj_views(args@)),
    ;

    /// The lines that calling it with `args` prints, in order.
    fn output(&self, args: &Vec<WhispObj>) -> (r: Vec<String>)
        ensures
            r@.map_values(|s: String| s@) == self.printed(obj_views(args@)),
    ;
}

/// The name of a built-in function.
pub open spec fn builtin_name(f: BuiltinFn) -> Seq<char> {
    match f {
        BuiltinFn::Print => "print"@,
        BuiltinFn::Max => "max"@,
        BuiltinFn::Min => "min"@,
    }
}

/// `max` and `min` take two integers; `print` takes anything.
pub open spec fn builtin_accepts(f: BuiltinFn, args: Seq<ObjV>) -> bool {
    match f {
        BuiltinFn::Print => true,
        _ => args.len() == 2 && args[0] is Int && args[1] is Int,
    }
}

/// What a built-in function returns: `print` nothing, `max` the greater
/// argument (the second on a tie), `min` the smaller (the second on a tie).
pub open spec fn builtin_result(f: BuiltinFn, args: Seq<ObjV>) -> ObjV {
    match f {
        BuiltinFn::Print => ObjV::Void,
        BuiltinFn::Max => if args[0]->Int_0 > args[1]->Int_0 {
            args[0]
        } else {
            args[1]
        },
        BuiltinFn::Min => if args[0]->Int_0 < args[1]->Int_0 {
            args[0]
        } else {
            args[1]
        },
    }
}

/// The lines a built-in function prints: `print` one per argument.
pub open spec fn builtin_printed(f: BuiltinFn, args: Seq<ObjV>) -> Seq<Seq<char>> {
    match f {
        BuiltinFn::Print => args.map_values(|a: ObjV| display(a)),
        _ => seq![],
    }
}

impl BuiltInFunction for BuiltinFn {
    open spec fn name_text(&self) -> Seq<char> {
        builtin_name(*self)
    }

    open spec fn accepts(&self, args: Seq<ObjV>) -> bool {
        builtin_accepts(*self, args)
    }

    open spec fn result(&self, args: Seq<ObjV>) -> ObjV {
        builtin_result(*self, args)
    }

    open spec fn printed(&self, args: Seq<ObjV>) -> Seq<Seq<char>> {
        builtin_printed(*self, args)
    }

    fn name(&self) -> (r: &'static str) {
        proof {
            reveal_strlit("print");
            reveal_strlit("max");
            reveal_strlit("min");
        }
        match self {
            BuiltinFn::Print => "print",
            BuiltinFn::Max => "max",
            BuiltinFn::Min => "min",
        }
    }

    fn call(&self, args: Vec<WhispObj>) -> (r: WhispObj) {
        proof {
            lemma_obj_views(args@);
        }
        match self {
            BuiltinFn::Print => WhispObj::Void(()),
            BuiltinFn::Max => {
                let lhs = &args[0];
                let rhs = &args[1];
                match (lhs, rhs) {
                    (WhispObj::Int(a), WhispObj::Int(b)) => {
                        if *a > *b {
                            lhs.deep_copy()
                        } else {
                            rhs.deep_copy()
                        }
                    },
                    _ => WhispObj::Void(()),
                }
            },
            BuiltinFn::Min => {
                let lhs = &args[0];
                let rhs = &args[1];
                match (lhs, rhs) {
                    (WhispObj::Int(a), WhispObj::Int(b)) => {
                        if *a < *b {
                            lhs.deep_copy()
                        } else {
                            rhs.deep_copy()
                        }
                    },
                    _ => WhispObj::Void(()),
                }
            },
        }
    }

    fn output(&self, args: &Vec<WhispObj>) -> (r: Vec<String>) {
        let mut lines: Vec<String> = Vec::new();
        proof {
            lemma_obj_views(args@);
        }
        match self {
            BuiltinFn::Print => {
                let mut i: usize = 0;
                while i < args.len()
                    invariant
                        i <= args.len(),
                        obj_views(args@).len() == args.len(),
                        forall|j: int| 0 <= j < args.len() ==> #[trigger] obj_views(args@)[j] == args@[j]@,
                        lines@.map_values(|s: String| s@) == obj_views(args@).take(i as int).map_values(
                            |a: ObjV| display(a),
                        ),
                    decreases args.len() - i,
                {
                    let line = args[i].to_string();
                    let ghost prev = lines@;
                    lines.push(line);
                    i += 1;
                    proof {
                        let a = lines@.map_values(|s: String| s@);
                        let b = obj_views(args@).take(i as int).map_values(|a: ObjV| display(a));
                        let pa = prev.map_values(|s: String| s@);
                        let pb = obj_views(args@).take(i as int - 1).map_values(|a: ObjV| display(a));
                        assert(pa == pb);
                        assert forall|j: int| 0 <= j < a.len() implies a[j] == b[j] by {
                            if j < i - 1 {
                                assert(pa[j] == pb[j]);
                            }
                        }
                        assert(a =~= b);
                    }
                }
                proof {
                    assert(obj_views(args@).take(i as int) =~= obj_views(args@));
                }
            },
            _ => {
                assert(lines@.map_values(|s: String| s@) =~= seq![]);
            },
        }
        lines
    }
}

/// `max` gives one of its two integers, at least as great as both; `min` one
/// of them, at most as great as both.
pub proof fn lemma_max_min(a: i32, b: i32)
    ensures
        ({
            let args = seq![ObjV::Int(a), ObjV::Int(b)];
            let mx = builtin_result(BuiltinFn::Max, args)->Int_0;
            let mn = builtin_result(BuiltinFn::Min, args)->Int_0;
            &&& builtin_accepts(BuiltinFn::Max, args) && builtin_accepts(BuiltinFn::Min, args)
            &&& (mx == a || mx == b) && mx >= a && mx >= b
            &&& (mn == a || mn == b) && mn <= a && mn <= b
        }),
{
}

/// `print` accepts any arguments, returns nothing, and prints one line per
/// argument, in order: the `i`-th line is how the `i`-th argument is
/// printed. `max` and `min` print nothing.
pub proof fn lemma_print_lines(args: Seq<ObjV>)
    ensures
        builtin_accepts(BuiltinFn::Print, args),
        builtin_result(BuiltinFn::Print, args) == ObjV::Void,
        builtin_printed(BuiltinFn::Print, args).len() == args.len(),
        forall|i: int| 0 <= i < args.len() ==> #[trigger] builtin_printed(BuiltinFn::Print, args)[i] == display(args[i]),
        builtin_printed(BuiltinFn::Max, args).len() == 0,
        builtin_printed(BuiltinFn::Min, args).len() == 0,
{
}

/// Makes `fun` callable: binds its name in the innermost scope of `env` and
/// declares it in the innermost scope of `symb`.
pub fn register_builtin(fun: BuiltinFn, env: &mut Environment, symb: &mut SymbolTable)
    ensures
        final(env)@ == frames_put(old(env)@, builtin_name(fun), ObjV::BuiltIn(fun)),
        final(symb)@ == declare(old(symb)@, builtin_name(fun)),
{
    let name = fun.name();
    env.put(name.to_owned(), WhispObj::BuiltInFunction { callback: fun });
    symb.define(name.to_owned(), SymbolInfo);
}

/// The scopes after registering `print`, `max` and `min`, in that order.
pub open spec fn with_builtins(fs: Frames) -> Frames {
    frames_put(
        frames_put(
            frames_put(fs, builtin_name(BuiltinFn::Print), ObjV::BuiltIn(BuiltinFn::Print)),
            builtin_name(BuiltinFn::Max),
            ObjV::BuiltIn(BuiltinFn::Max),
        ),
        builtin_name(BuiltinFn::Min),
        ObjV::BuiltIn(BuiltinFn::Min),
    )
}

/// The declared names after registering `print`, `max` and `min`.
pub open spec fn declare_builtins(s: Seq<Set<Seq<char>>>) -> Seq<Set<Seq<char>>> {
    declare(
        declare(declare(s, builtin_name(BuiltinFn::Print)), builtin_name(BuiltinFn::Max)),
        builtin_name(BuiltinFn::Min),
    )
}

/// Registers `print`, `max` and `min`.
pub fn register_builtins(env: &mut Environment, symb: &mut SymbolTable)
    ensures
        final(env)@ == with_builtins(old(env)@),
        final(symb)@ == declare_builtins(old(symb)@),
{
    let builtins: Vec<BuiltinFn> = vec![BuiltinFn::Print, BuiltinFn::Max, BuiltinFn::Min];
    let mut i: usize = 0;
    while i < builtins.len()
        invariant
            builtins@ == seq![BuiltinFn::Print, BuiltinFn::Max, BuiltinFn::Min],
            i <= 3,
            i == 0 ==> env@ == old(env)@ && symb@ == old(symb)@,
            i == 1 ==> env@ == frames_put(old(env)@, builtin_name(BuiltinFn::Print), ObjV::BuiltIn(BuiltinFn::Print))
                && symb@ == declare(old(symb)@, builtin_name(BuiltinFn::Print)),
            i == 2 ==> env@ == frames_put(
                frames_put(old(env)@, builtin_name(BuiltinFn::Print), ObjV::BuiltIn(BuiltinFn::Print)),
                builtin_name(BuiltinFn::Max),
                ObjV::BuiltIn(BuiltinFn::Max),
            ) && symb@ == declare(
                declare(old(symb)@, builtin_name(BuiltinFn::Print)),
                builtin_name(BuiltinFn::Max),
            ),
            i == 3 ==> env@ == with_builtins(old(env)@) && symb@ == declare_builtins(old(symb)@),
        decreases 3 - i,
    {
        register_builtin(builtins[i], env, symb);
        i += 1;
    }
}

/// The three built-in functions have three different names.
proof fn lemma_builtin_names_differ()
    ensures
        builtin_name(BuiltinFn::Print) != builtin_name(BuiltinFn::Max),
        builtin_name(BuiltinFn::Print) != builtin_name(BuiltinFn::Min),
        builtin_name(BuiltinFn::Max) != builtin_name(BuiltinFn::Min),
{
    reveal_strlit("print");
    reveal_strlit("max");
    reveal_strlit("min");
    assert("print"@.len() != "max"@.len());
    assert("print"@.len() != "min"@.len());
    assert("max"@[1] != "min"@[1]);
}

/// In a fresh environment and table, registering the built-ins makes each
/// of them callable by its name.
pub proof fn lemma_builtins_available(f: BuiltinFn)
    ensures
        crate::environment::frames_get(with_builtins(seq![seq![]]), builtin_name(f)) == Some(ObjV::BuiltIn(f)),
        crate::symbol::declared(declare_builtins(seq![Set::<Seq<char>>::empty()]), builtin_name(f)),
{
    lemma_builtin_names_differ();
    let f0: Frames = seq![seq![]];
    let f1 = frames_put(f0, builtin_name(BuiltinFn::Print), ObjV::BuiltIn(BuiltinFn::Print));
    let f2 = frames_put(f1, builtin_name(BuiltinFn::Max), ObjV::BuiltIn(BuiltinFn::Max));
    let s0: Seq<Set<Seq<char>>> = seq![Set::empty()];
    let s1 = declare(s0, builtin_name(BuiltinFn::Print));
    let s2 = declare(s1, builtin_name(BuiltinFn::Max));
    lemma_get_after_put(f0, builtin_name(BuiltinFn::Print), ObjV::BuiltIn(BuiltinFn::Print));
    lemma_get_after_put(f1, builtin_name(BuiltinFn::Max), ObjV::BuiltIn(BuiltinFn::Max));
    lemma_get_after_put(f2, builtin_name(BuiltinFn::Min), ObjV::BuiltIn(BuiltinFn::Min));
    lemma_declared_after_declare(s0, builtin_name(BuiltinFn::Print));
    lemma_declared_after_declare(s1, builtin_name(BuiltinFn::Max));
    lemma_declared_after_declare(s2, builtin_name(BuiltinFn::Min));
    match f {
        BuiltinFn::Print => {
            lemma_put_keeps_others(f1, builtin_name(BuiltinFn::Max), builtin_name(f), ObjV::BuiltIn(BuiltinFn::Max));
            lemma_put_keeps_others(f2, builtin_name(BuiltinFn::Min), builtin_name(f), ObjV::BuiltIn(BuiltinFn::Min));
            lemma_declare_keeps_others(s1, builtin_name(BuiltinFn::Max), builtin_name(f));
            lemma_declare_keeps_others(s2, builtin_name(BuiltinFn::Min), builtin_name(f));
        },
        BuiltinFn::Max => {
            lemma_put_keeps_others(f2, builtin_name(BuiltinFn::Min), builtin_name(f), ObjV::BuiltIn(BuiltinFn::Min));
            lemma_declare_keeps_others(s2, builtin_name(BuiltinFn::Min), builtin_name(f));
        },
        BuiltinFn::Min => {},
    }
}

} // verus!
