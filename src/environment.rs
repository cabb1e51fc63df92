//! Chained scopes that map names to values, innermost scope last.
use vstd::prelude::*;
use crate::errors::RuntimeError;
use crate::token::Token;
use crate::value::{Value, ValueModel};

verus! {

/// One scope: a map from names to values.
pub type ScopeModel = Map<Seq<char>, ValueModel>;

/// A name bound in a scope.
pub struct Binding {
    pub name: String,
    pub value: Value,
}

/// What a scope's bindings map each name to; a later binding of a name hides
/// an earlier one.
pub open spec fn scope_view(bs: Seq<Binding>) -> ScopeModel
    decreases bs.len(),
{
    if bs.len() == 0 {
        Map::empty()
    } else {
        scope_view(bs.drop_last()).insert(bs.last().name@, bs.last().value@)
    }
}

/// The value of `name` in the innermost scope that defines it.
pub open spec fn lookup(env: Seq<ScopeModel>, name: Seq<char>) -> Option<ValueModel>
    decreases env.len(),
{
    if env.len() == 0 {
        None
    } else if env.last().contains_key(name) {
        Some(env.last()[name])
    } else {
        lookup(env.drop_last(), name)
    }
}

/// The scopes after `name` is set to `v` in the innermost scope that defines
/// it; `None` when no scope defines it.
pub open spec fn assigned(env: Seq<ScopeModel>, name: Seq<char>, v: ValueModel) -> Option<
    Seq<ScopeModel>,
>
    decreases env.len(),
{
    if env.len() == 0 {
        None
    } else if env.last().contains_key(name) {
        Some(env.update(env.len() - 1, env.last().insert(name, v)))
    } else {
        match assigned(env.drop_last(), name, v) {
            Some(outer) => Some(outer.push(env.last())),
            None => None,
        }
    }
}

/// The scopes after `name` is bound to `v` in the innermost scope.
pub open spec fn defined(env: Seq<ScopeModel>, name: Seq<char>, v: ValueModel) -> Seq<
    ScopeModel,
> {
    env.update(env.len() - 1, env.last().insert(name, v))
}

/// An assignment succeeds exactly where a lookup does, and leaves the number of
/// scopes as it was.
pub proof fn lemma_assigned_shape(env: Seq<ScopeModel>, name: Seq<char>, v: ValueModel)
    ensures
        assigned(env, name, v) is Some <==> lookup(env, name) is Some,
        assigned(env, name, v) matches Some(e) ==> e.len() == env.len(),
    decreases env.len(),
{
    if env.len() > 0 && !env.last().contains_key(name) {
        lemma_assigned_shape(env.drop_last(), name, v);
    }
}

/// After an assignment succeeds, a lookup of the name gives the assigned value.
pub proof fn lemma_lookup_assigned(env: Seq<ScopeModel>, name: Seq<char>, v: ValueModel)
    requires
        lookup(env, name) is Some,
    ensures
        assigned(env, name, v) matches Some(e) && lookup(e, name) == Some(v),
    decreases env.len(),
{
    if !env.last().contains_key(name) {
        lemma_lookup_assigned(env.drop_last(), name, v);
        let outer = assigned(env.drop_last(), name, v)->0;
        assert(outer.push(env.last()).drop_last() =~= outer);
    } else {
        let e = env.update(env.len() - 1, env.last().insert(name, v));
        assert(e.last() == env.last().insert(name, v));
    }
}

/// A name bound in a nested scope is gone once that scope is left: the
/// enclosing scopes are as they were, whatever they bind.
pub proof fn lemma_inner_definition_discarded(env: Seq<ScopeModel>, name: Seq<char>, v: ValueModel)
    ensures
        defined(env.push(ScopeModel::empty()), name, v).drop_last() == env,
{
    assert(defined(env.push(ScopeModel::empty()), name, v).drop_last() =~= env);
}

/// An assignment made in a nested scope to a name that an enclosing scope
/// binds changes that enclosing scope, and the change outlasts the nested
/// scope.
pub proof fn lemma_assignment_reaches_enclosing(env: Seq<ScopeModel>, name: Seq<char>, v: ValueModel)
    requires
        lookup(env, name) is Some,
    ensures
        assigned(env.push(ScopeModel::empty()), name, v) matches Some(e) && e.drop_last()
            == assigned(env, name, v)->0 && lookup(e.drop_last(), name) == Some(v),
{
    let inner = env.push(ScopeModel::empty());
    assert(inner.drop_last() =~= env);
    assert(!inner.last().contains_key(name));
    lemma_lookup_assigned(env, name, v);
    let outer = assigned(env, name, v)->0;
    assert(outer.push(ScopeModel::empty()).drop_last() =~= outer);
}

proof fn lemma_scope_view_last(bs: Seq<Binding>, i: int, n: Seq<char>)
    requires
        0 <= i < bs.len(),
        bs[i].name@ == n,
        forall|j: int| i < j < bs.len() ==> bs[j].name@ != n,
    ensures
        scope_view(bs).contains_key(n),
        scope_view(bs)[n] == bs[i].value@,
    decreases bs.len(),
{
    if i < bs.len() - 1 {
        lemma_scope_view_last(bs.drop_last(), i, n);
    }
}

proof fn lemma_scope_view_absent(bs: Seq<Binding>, n: Seq<char>)
    requires
        forall|j: int| 0 <= j < bs.len() ==> bs[j].name@ != n,
    ensures
        !scope_view(bs).contains_key(n),
    decreases bs.len(),
{
    if bs.len() > 0 {
        lemma_scope_view_absent(bs.drop_last(), n);
    }
}

proof fn lemma_scope_view_update(bs: Seq<Binding>, i: int, b: Binding)
    requires
        0 <= i < bs.len(),
        b.name@ == bs[i].name@,
        forall|j: int| i < j < bs.len() ==> bs[j].name@ != b.name@,
    ensures
        scope_view(bs.update(i, b)) == scope_view(bs).insert(b.name@, b.value@),
    decreases bs.len(),
{
    let nb = bs.update(i, b);
    if i == bs.len() - 1 {
        assert(nb.drop_last() == bs.drop_last());
        assert(scope_view(nb) =~= scope_view(bs).insert(b.name@, b.value@));
    } else {
        lemma_scope_view_update(bs.drop_last(), i, b);
        assert(nb.drop_last() == bs.drop_last().update(i, b));
        assert(scope_view(nb) =~= scope_view(bs).insert(b.name@, b.value@));
    }
}

/// The scopes of a run, from the global scope (first) to the innermost (last).
pub struct Environment {
    scopes: Vec<Vec<Binding>>,
}

impl View for Environment {
    type V = Seq<ScopeModel>;

    closed spec fn view(&self) -> Seq<ScopeModel> {
        self.scopes@.map_values(|s: Vec<Binding>| scope_view(s@))
    }
}

/// Where a name is bound in a scope: the last binding of it.
fn find_in_scope(bs: &Vec<Binding>, name: &String) -> (r: Option<usize>)
    ensures
        match r {
            Some(i) => i < bs@.len() && bs@[i as int].name@ == name@ && forall|j: int|
                i < j < bs@.len() ==> bs@[j].name@ != name@,
            None => forall|j: int| 0 <= j < bs@.len() ==> bs@[j].name@ != name@,
        },
{
    let mut i: usize = bs.len();
    while i > 0
        invariant
            i <= bs@.len(),
            forall|j: int| i <= j < bs@.len() ==> bs@[j].name@ != name@,
        decreases i,
    {
        i = i - 1;
        if bs[i].name == *name {
            return Some(i);
        }
    }
    None
}

impl Environment {
    /// The environment holds at least the global scope.
    pub open spec fn wf(&self) -> bool {
        self@.len() >= 1
    }

    /// An environment with an empty global scope.
    pub fn new() -> (r: Environment)
        ensures
            r.wf(),
            r@ == seq![ScopeModel::empty()],
    {
        let mut scopes: Vec<Vec<Binding>> = Vec::new();
        scopes.push(Vec::new());
        let r = Environment { scopes };
        assert(r@ =~= seq![ScopeModel::empty()]);
        r
    }

    /// `enclosing` with a new, empty innermost scope.
    pub fn new_enclosed(enclosing: Environment) -> (r: Environment)
        requires
            enclosing.wf(),
        ensures
            r.wf(),
            r@ == enclosing@.push(ScopeModel::empty()),
    {
        let mut r = enclosing;
        r.push_scope();
        r
    }

    /// Enters a new, empty innermost scope.
    pub fn push_scope(&mut self)
        requires
            old(self).wf(),
        ensures
            final(self).wf(),
            final(self)@ == old(self)@.push(ScopeModel::empty()),
    {
        self.scopes.push(Vec::new());
        assert(self@ =~= old(self)@.push(ScopeModel::empty()));
    }

    /// Leaves the innermost scope, dropping its bindings.
    pub fn pop_scope(&mut self)
        requires
            old(self).wf(),
            old(self)@.len() >= 2,
        ensures
            final(self).wf(),
            final(self)@ == old(self)@.drop_last(),
    {
        self.scopes.pop();
        assert(self@ =~= old(self)@.drop_last());
    }

    /// The number of scopes.
    pub fn depth(&self) -> (r: usize)
        ensures
            r == self@.len(),
    {
        self.scopes.len()
    }

    /// Binds `name` to `value` in the innermost scope, replacing a binding of
    /// the same name there.
    pub fn define_inner(&mut self, name: String, value: Value)
        requires
            old(self).wf(),
        ensures
            final(self).wf(),
            final(self)@ == defined(old(self)@, name@, value@),
    {
        let k = self.scopes.len() - 1;
        let ghost n = name@;
        let ghost v = value@;
        let ghost old_scope = self.scopes@[k as int]@;
        match find_in_scope(&self.scopes[k], &name) {
            Some(i) => {
                let b = Binding { name, value };
                proof {
                    lemma_scope_view_update(old_scope, i as int, b);
                }
                self.scopes[k][i] = b;
            },
            None => {
                proof {
                    lemma_scope_view_absent(old_scope, n);
                }
                self.scopes[k].push(Binding { name, value });
                assert(self.scopes@[k as int]@.drop_last() == old_scope);
            },
        }
        assert(self@ =~= defined(old(self)@, n, v));
    }

    /// The value of the name in the innermost scope that defines it.
    pub fn get(&self, name: &Token) -> (r: Result<Value, RuntimeError>)
        requires
            self.wf(),
        ensures
            match lookup(self@, name.lexeme@) {
                Some(v) => r matches Ok(w) && w@ == v,
                None => r == Err::<Value, RuntimeError>(RuntimeError::UndefinedVariable),
            },
    {
        let mut k: usize = self.scopes.len();
        assert(self@.subrange(0, k as int) =~= self@);
        while k > 0
            invariant
                k <= self.scopes@.len(),
                lookup(self@, name.lexeme@) == lookup(self@.subrange(0, k as int), name.lexeme@),
            decreases k,
        {
            let ghost pre = self@.subrange(0, k as int);
            k = k - 1;
            assert(pre.drop_last() =~= self@.subrange(0, k as int));
            match find_in_scope(&self.scopes[k], &name.lexeme) {
                Some(i) => {
                    proof {
                        lemma_scope_view_last(self.scopes@[k as int]@, i as int, name.lexeme@);
                    }
                    return Ok(self.scopes[k][i].value.duplicate());
                },
                None => {
                    proof {
                        lemma_scope_view_absent(self.scopes@[k as int]@, name.lexeme@);
                    }
                },
            }
        }
        Err(RuntimeError::UndefinedVariable)
    }

    /// Sets the name in the innermost scope that defines it; fails, changing
    /// nothing, where none does.
    pub fn assign(&mut self, name: &Token, value: Value) -> (r: Result<(), RuntimeError>)
        requires
            old(self).wf(),
        ensures
            final(self).wf(),
            match assigned(old(self)@, name.lexeme@, value@) {
                Some(e) => r is Ok && final(self)@ == e,
                None => r == Err::<(), RuntimeError>(RuntimeError::UndefinedVariable)
                    && final(self)@ == old(self)@,
            },
    {
        let ghost n = name.lexeme@;
        let ghost v = value@;
        let ghost env0 = self@;
        let mut k: usize = self.scopes.len();
        assert(self@.subrange(0, k as int) =~= self@);
        assert(self@.subrange(k as int, self@.len() as int) =~= Seq::<ScopeModel>::empty());
        assert forall|e: Seq<ScopeModel>| e + Seq::<ScopeModel>::empty() == e by {
            assert(e + Seq::<ScopeModel>::empty() =~= e);
        }
        while k > 0
            invariant
                self.scopes == old(self).scopes,
                env0 == self@,
                n == name.lexeme@,
                v == value@,
                k <= self.scopes@.len(),
                forall|e: Seq<ScopeModel>|
                    assigned(self@.subrange(0, k as int), n, v) == Some(e) ==> assigned(self@, n, v)
                        == Some(e + self@.subrange(k as int, self@.len() as int)),
                assigned(self@.subrange(0, k as int), n, v) is None ==> assigned(self@, n, v) is None,
            decreases k,
        {
            let ghost pre = self@.subrange(0, k as int);
            k = k - 1;
            assert(pre.drop_last() =~= self@.subrange(0, k as int));
            let found = find_in_scope(&self.scopes[k], &name.lexeme);
            match found {
                Some(i) => {
                    let ghost old_scope = self.scopes@[k as int]@;
                    let b = Binding { name: name.lexeme.clone(), value };
                    proof {
                        lemma_scope_view_last(old_scope, i as int, n);
                        lemma_scope_view_update(old_scope, i as int, b);
                    }
                    self.scopes[k][i] = b;
                    proof {
                        let e = pre.update(k as int, pre.last().insert(n, v));
                        assert(assigned(pre, n, v) == Some(e));
                        assert(self@ =~= e + env0.subrange(k + 1, env0.len() as int));
                    }
                    return Ok(());
                },
                None => {
                    proof {
                        lemma_scope_view_absent(self.scopes@[k as int]@, n);
                        assert forall|e: Seq<ScopeModel>|
                            assigned(self@.subrange(0, k as int), n, v) == Some(e) implies
                            assigned(self@, n, v) == Some(
                                e + self@.subrange(k as int, self@.len() as int),
                            ) by {
                            assert(assigned(pre, n, v) == Some(e.push(pre.last())));
                            assert(e.push(pre.last()) + self@.subrange(k + 1, self@.len() as int)
                                =~= e + self@.subrange(k as int, self@.len() as int));
                        }
                    }
                },
            }
        }
        proof {
            assert(assigned(self@.subrange(0, 0), n, v) is None);
        }
        Err(RuntimeError::UndefinedVariable)
    }
}

} // verus!
