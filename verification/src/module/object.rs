//! A loaded module.
use vstd::prelude::*;

use crate::environment::{frame_get, frame_view, Frame, find_key};
use crate::module::spec::ModuleSpec;
use crate::object::WhispObj;
use crate::parser::error::ParseError;
use crate::runtime::error::EvalError;
use crate::text::push_str;

verus! {

/// A module: its name, its description, and the bindings its code made.
pub struct ModuleObject {
    pub name: String,
    pub spec: ModuleSpec,
    /// The bindings of the module, by name.
    pub scope: Vec<(String, WhispObj)>,
}

impl ModuleObject {
    /// The value the module binds to `name`.
    pub fn lookup(&self, name: &str) -> (r: Option<WhispObj>)
        ensures
            match frame_get(frame_view(self.scope@), name@) {
                Some(v) => r is Some && r->Some_0@ == v,
                None => r is None,
            },
    {
        let key = name.to_owned();
        proof {
            crate::environment::lemma_first_key(frame_view(self.scope@), name@, 0);
        }
        match find_key(&self.scope, &key) {
            Some(j) => {
                let ghost f = frame_view(self.scope@);
                assert(f[j as int] == (self.scope@[j as int].0@, self.scope@[j as int].1@));
                Some(self.scope[j].1.deep_copy())
            },
            None => None,
        }
    }
}

/// Why running a module failed.
#[derive(Debug)]
pub enum ModuleError {
    /// Its code does not parse.
    Parse(ParseError),
    /// Its code failed while running.
    Exec(EvalError),
}

impl ModuleError {
    /// The human-readable message of this error.
    pub fn message(&self) -> (r: String)
        ensures
            r@ == "ModuleExecError: "@ + match self {
                ModuleError::Parse(e) => crate::parser::error::parse_error_message(e@),
                ModuleError::Exec(e) => crate::runtime::error::eval_error_message(e@),
            },
    {
        let mut s = String::new();
        push_str(&mut s, "ModuleExecError: ");
        let m = match self {
            ModuleError::Parse(e) => e.message(),
            ModuleError::Exec(e) => e.message(),
        };
        push_str(&mut s, m.as_str());
        s
    }
}

} // verus!
