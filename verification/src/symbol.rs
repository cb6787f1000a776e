//! The parser's table of declared names, a stack of scopes.
use vstd::prelude::*;

verus! {

/// What the table records about a name (nothing yet but its presence).
#[derive(Debug)]
pub struct SymbolInfo;

/// A stack of scopes of declared names; the last scope is the innermost.
#[derive(Debug)]
pub struct SymbolTable {
    stack: Vec<Vec<(String, SymbolInfo)>>,
}

/// The names of one scope.
pub open spec fn scope_names(scope: Seq<(String, SymbolInfo)>) -> Set<Seq<char>> {
    Set::new(|n: Seq<char>| exists|j: int| 0 <= j < scope.len() && (#[trigger] scope[j]).0@ == n)
}

/// `name` is declared in some scope of `scopes`.
pub open spec fn declared(scopes: Seq<Set<Seq<char>>>, name: Seq<char>) -> bool {
    exists|i: int| 0 <= i < scopes.len() && (#[trigger] scopes[i]).contains(name)
}

/// The scopes after declaring `name` in the innermost one (if there is one).
pub open spec fn declare(scopes: Seq<Set<Seq<char>>>, name: Seq<char>) -> Seq<Set<Seq<char>>> {
    if scopes.len() == 0 {
        scopes
    } else {
        scopes.update(scopes.len() - 1, scopes.last().insert(name))
    }
}

/// A name declared in the innermost scope resolves.
pub proof fn lemma_declared_after_declare(scopes: Seq<Set<Seq<char>>>, name: Seq<char>)
    requires
        scopes.len() > 0,
    ensures
        declared(declare(scopes, name), name),
{
    let d = declare(scopes, name);
    assert(d[d.len() - 1].contains(name));
}

/// Declaring a name leaves every other name as declared (or not) as before.
pub proof fn lemma_declare_keeps_others(scopes: Seq<Set<Seq<char>>>, name: Seq<char>, other: Seq<char>)
    requires
        name != other,
    ensures
        declared(declare(scopes, name), other) == declared(scopes, other),
{
    let d = declare(scopes, name);
    if declared(scopes, other) {
        let i = choose|i: int| 0 <= i < scopes.len() && (#[trigger] scopes[i]).contains(other);
        assert(d[i].contains(other));
    }
    if declared(d, other) {
        let i = choose|i: int| 0 <= i < d.len() && (#[trigger] d[i]).contains(other);
        assert(scopes[i].contains(other));
    }
}

/// Names declared in a scope are forgotten when the scope is left: leaving a
/// scope just entered gives back the table as it was.
pub proof fn lemma_scope_declarations_end(scopes: Seq<Set<Seq<char>>>, name: Seq<char>)
    ensures
        declare(scopes.push(Set::empty()), name).drop_last() == scopes,
        scopes.push(Set::<Seq<char>>::empty()).drop_last() == scopes,
{
    assert(declare(scopes.push(Set::empty()), name).drop_last() =~= scopes);
    assert(scopes.push(Set::<Seq<char>>::empty()).drop_last() =~= scopes);
}

impl View for SymbolTable {
    type V = Seq<Set<Seq<char>>>;

    closed spec fn view(&self) -> Seq<Set<Seq<char>>> {
        Seq::new(self.stack@.len(), |i: int| scope_names(self.stack@[i]@))
    }
}

impl SymbolTable {
    /// A table with one empty scope.
    pub fn new() -> (r: Self)
        ensures
            r@ == seq![Set::<Seq<char>>::empty()],
    {
        let r = SymbolTable { stack: vec![Vec::new()] };
        assert(scope_names(r.stack@[0]@) =~= Set::<Seq<char>>::empty());
        assert(r@ =~= seq![Set::<Seq<char>>::empty()]);
        r
    }

    pub fn enter_scope(&mut self)
        ensures
            final(self)@ == old(self)@.push(Set::empty()),
    {
        self.stack.push(Vec::new());
        assert(scope_names(self.stack@.last()@) =~= Set::<Seq<char>>::empty());
        assert(self@ =~= old(self)@.push(Set::empty()));
    }

    pub fn exit_scope(&mut self)
        ensures
            final(self)@ == if old(self)@.len() == 0 { old(self)@ } else { old(self)@.drop_last() },
    {
        let _ = self.stack.pop();
        assert(self@ =~= if old(self)@.len() == 0 { old(self)@ } else { old(self)@.drop_last() });
    }

    /// Declares `name` in the innermost scope.
    pub fn define(&mut self, name: String, info: SymbolInfo)
        ensures
            final(self)@ == declare(old(self)@, name@),
    {
        let n = self.stack.len();
        if n == 0 {
            return;
        }
        let ghost before = self.stack@;
        let mut scope = self.stack.pop().unwrap();
        let ghost old_scope = scope@;
        let mut j: usize = 0;
        let mut present = false;
        while j < scope.len()
            invariant
                j <= scope.len(),
                scope@ == old_scope,
                present ==> scope_names(scope@).contains(name@),
            decreases scope.len() - j,
        {
            if scope[j].0 == name {
                present = true;
                assert(scope@[j as int].0@ == name@);
            }
            j += 1;
        }
        if !present {
            let ghost n2 = name@;
            scope.push((name, info));
            assert(scope_names(scope@) =~= scope_names(old_scope).insert(n2)) by {
                assert forall|x: Seq<char>| scope_names(scope@).contains(x) implies scope_names(
                    old_scope,
                ).insert(n2).contains(x) by {
                    let k = choose|k: int| 0 <= k < scope@.len() && (#[trigger] scope@[k]).0@ == x;
                    if k < old_scope.len() {
                        assert(old_scope[k] == scope@[k]);
                    }
                }
                assert forall|x: Seq<char>| scope_names(old_scope).insert(n2).contains(x) implies scope_names(
                    scope@,
                ).contains(x) by {
                    if x == n2 {
                        assert(scope@[old_scope.len() as int].0@ == x);
                    } else {
                        let k = choose|k: int| 0 <= k < old_scope.len() && (#[trigger] old_scope[k]).0@ == x;
                        assert(scope@[k] == old_scope[k]);
                    }
                }
            }
        } else {
            assert(scope_names(old_scope).insert(name@) =~= scope_names(old_scope));
        }
        self.stack.push(scope);
        assert(self@ =~= declare(old(self)@, name@)) by {
            assert(before.drop_last() == self.stack@.drop_last());
        }
    }

    /// Looks `name` up in every scope, innermost first.
    pub fn resolve(&self, name: &str) -> (r: Option<&SymbolInfo>)
        ensures
            r is Some <==> declared(self@, name@),
    {
        let key = String::from_str(name);
        let mut i = self.stack.len();
        while i > 0
            invariant
                i <= self.stack@.len(),
                key@ == name@,
                forall|k: int| i <= k < self.stack@.len() ==> !(#[trigger] self@[k]).contains(name@),
            decreases i,
        {
            i = i - 1;
            let scope = &self.stack[i];
            let mut j: usize = 0;
            while j < scope.len()
                invariant
                    j <= scope.len(),
                    i < self.stack@.len(),
                    *scope == self.stack@[i as int],
                    key@ == name@,
                    forall|k: int| 0 <= k < j ==> (#[trigger] scope@[k]).0@ != name@,
                decreases scope.len() - j,
            {
                if scope[j].0 == key {
                    assert(self@[i as int].contains(name@)) by {
                        assert(scope@[j as int].0@ == name@);
                    }
                    return Some(&scope[j].1);
                }
                j += 1;
            }
            assert(!self@[i as int].contains(name@));
        }
        None
    }
}

/// A call that changes a table: opening a scope, closing the innermost one,
/// or declaring a name in the innermost one.
pub enum TableCall {
    Enter,
    Exit,
    Define(Seq<char>),
}

/// The scopes after one call, as `enter_scope`, `exit_scope` and `define` leave them.
pub open spec fn table_step(scopes: Seq<Set<Seq<char>>>, c: TableCall) -> Seq<Set<Seq<char>>> {
    match c {
        TableCall::Enter => scopes.push(Set::empty()),
        TableCall::Exit => if scopes.len() == 0 {
            scopes
        } else {
            scopes.drop_last()
        },
        TableCall::Define(name) => declare(scopes, name),
    }
}

/// The scopes after a sequence of calls, made in order.
pub open spec fn table_run(scopes: Seq<Set<Seq<char>>>, cs: Seq<TableCall>) -> Seq<Set<Seq<char>>>
    decreases cs.len(),
{
    if cs.len() == 0 {
        scopes
    } else {
        table_step(table_run(scopes, cs.drop_last()), cs.last())
    }
}

/// The first `k` calls of `cs` followed by the next one.
proof fn lemma_table_run_take(scopes: Seq<Set<Seq<char>>>, cs: Seq<TableCall>, k: int)
    requires
        0 <= k < cs.len(),
    ensures
        table_run(scopes, cs.take(k + 1)) == table_step(table_run(scopes, cs.take(k)), cs[k]),
{
    assert(cs.take(k + 1).drop_last() =~= cs.take(k));
}

/// Calls that never bring the table down to `l` scopes or fewer leave the
/// first `l` scopes as they were.
proof fn lemma_table_keeps_outer(scopes: Seq<Set<Seq<char>>>, cs: Seq<TableCall>, l: int)
    requires
        0 <= l,
        forall|j: int| 0 <= j <= cs.len() ==> #[trigger] table_run(scopes, cs.take(j)).len() > l,
    ensures
        table_run(scopes, cs).take(l) == scopes.take(l),
    decreases cs.len(),
{
    assert(cs.take(cs.len() as int) =~= cs);
    if cs.len() == 0 {
        assert(cs.take(0) =~= cs);
    } else {
        let p = cs.drop_last();
        assert forall|j: int| 0 <= j <= p.len() implies #[trigger] table_run(scopes, p.take(j)).len() > l by {
            assert(p.take(j) =~= cs.take(j));
        }
        lemma_table_keeps_outer(scopes, p, l);
        assert(p.take(p.len() as int) =~= p);
        assert(table_run(scopes, cs.take(p.len() as int)).len() > l);
        assert(cs.take(p.len() as int) =~= p);
        let a = table_run(scopes, p);
        let b = table_run(scopes, cs);
        assert(b.take(l) =~= a.take(l));
    }
}

/// Open a scope, make any number of calls that do not close it (declarations,
/// and scopes opened and closed inside it), then close it: the table is back
/// as it was, so the names declared inside are forgotten and the outer ones kept.
pub proof fn lemma_table_scope_exit_restores(scopes: Seq<Set<Seq<char>>>, cs: Seq<TableCall>)
    requires
        forall|j: int|
            0 <= j <= cs.len() ==> #[trigger] table_run(scopes.push(Set::empty()), cs.take(j)).len() > scopes.len(),
        table_run(scopes.push(Set::empty()), cs).len() == scopes.len() + 1,
    ensures
        table_run(scopes.push(Set::empty()), cs).drop_last() == scopes,
        forall|name: Seq<char>|
            #[trigger] declared(table_run(scopes.push(Set::empty()), cs).drop_last(), name) == declared(scopes, name),
{
    lemma_table_keeps_outer(scopes.push(Set::empty()), cs, scopes.len() as int);
    assert(scopes.push(Set::<Seq<char>>::empty()).take(scopes.len() as int) =~= scopes);
    assert(table_run(scopes.push(Set::empty()), cs).drop_last() =~= scopes);
}

/// The calls that declare each name of `names`, in order.
pub open spec fn defines(names: Seq<Seq<char>>) -> Seq<TableCall> {
    names.map_values(|n: Seq<char>| TableCall::Define(n))
}

/// Declarations keep the number of scopes.
proof fn lemma_defines_keep_depth(scopes: Seq<Set<Seq<char>>>, names: Seq<Seq<char>>)
    ensures
        table_run(scopes, defines(names)).len() == scopes.len(),
    decreases names.len(),
{
    if names.len() > 0 {
        assert(defines(names).drop_last() =~= defines(names.drop_last()));
        lemma_defines_keep_depth(scopes, names.drop_last());
    }
}

/// Leaving a scope after any number of declarations made in it gives back
/// the table as it was before the scope was entered.
pub proof fn lemma_declarations_end_with_scope(scopes: Seq<Set<Seq<char>>>, names: Seq<Seq<char>>)
    ensures
        table_run(scopes.push(Set::empty()), defines(names)).drop_last() == scopes,
{
    let cs = defines(names);
    assert forall|j: int| 0 <= j <= cs.len() implies #[trigger] table_run(scopes.push(Set::empty()), cs.take(j)).len()
        > scopes.len() by {
        assert(cs.take(j) =~= defines(names.take(j)));
        lemma_defines_keep_depth(scopes.push(Set::empty()), names.take(j));
    }
    lemma_defines_keep_depth(scopes.push(Set::empty()), names);
    lemma_table_scope_exit_restores(scopes, cs);
}

/// The number of scopes after the first `k` calls of `cs`, from a new table.
pub open spec fn depth_after(cs: Seq<TableCall>, k: int) -> int {
    table_run(seq![Set::empty()], cs.take(k)).len() as int
}

/// The scope that was innermost when call `k` was made is still open after
/// the first `n` calls.
pub open spec fn still_open(cs: Seq<TableCall>, k: int, n: int) -> bool {
    forall|j: int| k < j <= n ==> #[trigger] depth_after(cs, j) >= depth_after(cs, k)
}

/// Call `k` declared `name` in the scope at position `i`, and that scope is
/// still open after the first `n` calls.
pub open spec fn declared_by(cs: Seq<TableCall>, n: int, i: int, name: Seq<char>) -> bool {
    exists|k: int|
        0 <= k < n && cs[k] == TableCall::Define(name) && depth_after(cs, k) == i + 1 && #[trigger] still_open(
            cs,
            k,
            n,
        )
}

/// What the scope at position `i` holds after the first `n` calls: the names
/// declared in it while it was open.
proof fn lemma_scope_contents(cs: Seq<TableCall>, n: int, i: int, name: Seq<char>)
    requires
        0 <= n <= cs.len(),
        forall|j: int| 0 <= j <= cs.len() ==> #[trigger] depth_after(cs, j) >= 1,
        0 <= i < depth_after(cs, n),
    ensures
        table_run(seq![Set::empty()], cs.take(n))[i].contains(name) <==> declared_by(cs, n, i, name),
    decreases n,
{
    let init = seq![Set::<Seq<char>>::empty()];
    if n == 0 {
        assert(cs.take(0) =~= Seq::<TableCall>::empty());
        assert(table_run(init, cs.take(0)) == init);
    } else {
        let m = n - 1;
        lemma_table_run_take(init, cs, m);
        let a = table_run(init, cs.take(m));
        let b = table_run(init, cs.take(n));
        assert(depth_after(cs, m) == a.len());
        assert(depth_after(cs, n) == b.len());
        assert(depth_after(cs, m) >= 1);
        // Extending the still-open scopes from `m` calls to `n` calls.
        assert forall|k: int| 0 <= k < m && #[trigger] still_open(cs, k, m) && depth_after(cs, k) <= b.len()
            implies still_open(cs, k, n) by {}
        assert forall|k: int| 0 <= k < m && #[trigger] still_open(cs, k, n) implies still_open(cs, k, m) by {}
        if i < a.len() {
            lemma_scope_contents(cs, m, i, name);
        }
        match cs[m] {
            TableCall::Enter => {
                if i < a.len() {
                    assert(b[i] == a[i]);
                    if declared_by(cs, m, i, name) {
                        let k = choose|k: int|
                            0 <= k < m && cs[k] == TableCall::Define(name) && depth_after(cs, k) == i + 1
                                && #[trigger] still_open(cs, k, m);
                        assert(still_open(cs, k, n));
                    }
                    if declared_by(cs, n, i, name) {
                        let k = choose|k: int|
                            0 <= k < n && cs[k] == TableCall::Define(name) && depth_after(cs, k) == i + 1
                                && #[trigger] still_open(cs, k, n);
                        assert(k != m);
                        assert(still_open(cs, k, m));
                    }
                } else {
                    assert(b[i] == Set::<Seq<char>>::empty());
                    if declared_by(cs, n, i, name) {
                        let k = choose|k: int|
                            0 <= k < n && cs[k] == TableCall::Define(name) && depth_after(cs, k) == i + 1
                                && #[trigger] still_open(cs, k, n);
                        assert(k != m);
                        assert(depth_after(cs, m) >= depth_after(cs, k));
                    }
                }
            },
            TableCall::Exit => {
                assert(a.len() >= 2);
                assert(b[i] == a[i]);
                if declared_by(cs, m, i, name) {
                    let k = choose|k: int|
                        0 <= k < m && cs[k] == TableCall::Define(name) && depth_after(cs, k) == i + 1
                            && #[trigger] still_open(cs, k, m);
                    assert(still_open(cs, k, n));
                }
                if declared_by(cs, n, i, name) {
                    let k = choose|k: int|
                        0 <= k < n && cs[k] == TableCall::Define(name) && depth_after(cs, k) == i + 1
                            && #[trigger] still_open(cs, k, n);
                    assert(k != m);
                    assert(still_open(cs, k, m));
                }
            },
            TableCall::Define(x) => {
                assert(b.len() == a.len());
                if declared_by(cs, m, i, name) {
                    let k = choose|k: int|
                        0 <= k < m && cs[k] == TableCall::Define(name) && depth_after(cs, k) == i + 1
                            && #[trigger] still_open(cs, k, m);
                    assert(still_open(cs, k, n));
                    assert(b[i].contains(name));
                }
                if x == name && i == a.len() - 1 {
                    assert(still_open(cs, m, n));
                    assert(declared_by(cs, n, i, name));
                    assert(b[i].contains(name));
                }
                if declared_by(cs, n, i, name) {
                    let k = choose|k: int|
                        0 <= k < n && cs[k] == TableCall::Define(name) && depth_after(cs, k) == i + 1
                            && #[trigger] still_open(cs, k, n);
                    if k < m {
                        assert(still_open(cs, k, m));
                        assert(declared_by(cs, m, i, name));
                    }
                    assert(b[i].contains(name));
                }
                if b[i].contains(name) && !(x == name && i == a.len() - 1) {
                    assert(a[i].contains(name));
                    let k = choose|k: int|
                        0 <= k < m && cs[k] == TableCall::Define(name) && depth_after(cs, k) == i + 1
                            && #[trigger] still_open(cs, k, m);
                    assert(still_open(cs, k, n));
                }
            },
        }
    }
}

/// Starting from a new table, with never more scopes closed than opened: a
/// name resolves exactly when it was declared while a scope that is still
/// open was innermost. Inner scopes see the outer declarations, and the
/// declarations of scopes that were left are gone.
pub proof fn lemma_resolve_sees_open_declarations(cs: Seq<TableCall>, name: Seq<char>)
    requires
        forall|j: int| 0 <= j <= cs.len() ==> #[trigger] depth_after(cs, j) >= 1,
    ensures
        declared(table_run(seq![Set::empty()], cs), name) <==> exists|k: int|
            0 <= k < cs.len() && cs[k] == TableCall::Define(name) && #[trigger] still_open(cs, k, cs.len() as int),
{
    let n = cs.len() as int;
    let init = seq![Set::<Seq<char>>::empty()];
    assert(cs.take(n) =~= cs);
    let b = table_run(init, cs);
    assert(depth_after(cs, n) == b.len());
    if declared(b, name) {
        let i = choose|i: int| 0 <= i < b.len() && (#[trigger] b[i]).contains(name);
        lemma_scope_contents(cs, n, i, name);
        let k = choose|k: int|
            0 <= k < n && cs[k] == TableCall::Define(name) && depth_after(cs, k) == i + 1 && #[trigger] still_open(
                cs,
                k,
                n,
            );
    }
    if exists|k: int| 0 <= k < n && cs[k] == TableCall::Define(name) && #[trigger] still_open(cs, k, n) {
        let k = choose|k: int| 0 <= k < n && cs[k] == TableCall::Define(name) && #[trigger] still_open(cs, k, n);
        let i = depth_after(cs, k) - 1;
        assert(depth_after(cs, n) >= depth_after(cs, k));
        lemma_scope_contents(cs, n, i, name);
        assert(declared_by(cs, n, i, name));
        assert(b[i].contains(name));
    }
}

} // verus!
