//! The lexical environment: a stack of scopes, each mapping names to values.
//! The innermost scope is the top of the stack; lookup walks outward.
use crate::errors::{RuntimeError, RuntimeErrorKind};
use crate::token::{chars_eq, clone_chars, LitV, Literal};
use vstd::prelude::*;

verus! {

/// One binding: a name and its value.
pub type Binding = (Vec<char>, Literal);

/// The mapping that a sequence of bindings denotes; a later binding for the
/// same name wins.
pub open spec fn scope_map(s: Seq<Binding>) -> Map<Seq<char>, LitV>
    decreases s.len(),
{
    if s.len() == 0 {
        Map::empty()
    } else {
        scope_map(s.drop_last()).insert(s.last().0@, s.last().1@)
    }
}

/// No two bindings of the sequence share a name.
pub open spec fn unique_keys(s: Seq<Binding>) -> bool {
    forall|i: int, j: int| 0 <= i < j < s.len() ==> s[i].0@ != s[j].0@
}

/// The model of an environment: the stack of scope mappings, outermost first.
pub type EnvModel = Seq<Map<Seq<char>, LitV>>;

/// The nearest binding of a name, walking from the innermost scope outward.
pub open spec fn env_lookup(m: EnvModel, n: Seq<char>) -> Option<LitV>
    decreases m.len(),
{
    if m.len() == 0 {
        Option::None
    } else if m.last().contains_key(n) {
        Option::Some(m.last()[n])
    } else {
        env_lookup(m.drop_last(), n)
    }
}

pub open spec fn env_contains(m: EnvModel, n: Seq<char>) -> bool {
    env_lookup(m, n) is Some
}

/// The environment after a definition: the innermost scope gains the binding.
pub open spec fn env_define(m: EnvModel, n: Seq<char>, v: LitV) -> EnvModel
    recommends
        m.len() >= 1,
{
    m.update(m.len() - 1, m.last().insert(n, v))
}

/// The environment after an assignment: the nearest scope that binds the name
/// is updated; nothing changes if none does.
pub open spec fn env_assign(m: EnvModel, n: Seq<char>, v: LitV) -> EnvModel
    decreases m.len(),
{
    if m.len() == 0 {
        m
    } else if m.last().contains_key(n) {
        m.update(m.len() - 1, m.last().insert(n, v))
    } else {
        env_assign(m.drop_last(), n, v).push(m.last())
    }
}

proof fn lemma_scope_map_found(s: Seq<Binding>, n: Seq<char>, j: int)
    requires
        0 <= j < s.len(),
        s[j].0@ == n,
        forall|k: int| j < k < s.len() ==> s[k].0@ != n,
    ensures
        scope_map(s).contains_key(n),
        scope_map(s)[n] == s[j].1@,
    decreases s.len(),
{
    if j == s.len() - 1 {
    } else {
        lemma_scope_map_found(s.drop_last(), n, j);
    }
}

proof fn lemma_scope_map_absent(s: Seq<Binding>, n: Seq<char>)
    requires
        forall|k: int| 0 <= k < s.len() ==> s[k].0@ != n,
    ensures
        !scope_map(s).contains_key(n),
    decreases s.len(),
{
    if s.len() > 0 {
        lemma_scope_map_absent(s.drop_last(), n);
    }
}

proof fn lemma_scope_map_update(s: Seq<Binding>, i: int, e: Binding)
    requires
        unique_keys(s),
        0 <= i < s.len(),
        s[i].0@ == e.0@,
    ensures
        scope_map(s.update(i, e)) =~= scope_map(s).insert(e.0@, e.1@),
        unique_keys(s.update(i, e)),
    decreases s.len(),
{
    let su = s.update(i, e);
    if i == s.len() - 1 {
        assert(su.drop_last() =~= s.drop_last());
    } else {
        lemma_scope_map_update(s.drop_last(), i, e);
        assert(su.drop_last() =~= s.drop_last().update(i, e));
        assert(s.last().0@ != e.0@);
    }
}

/// Where the nearest scope at or below `j` binds `n`, assignment updates that
/// scope and no other.
proof fn lemma_env_assign_at(m: EnvModel, n: Seq<char>, v: LitV, j: int)
    requires
        0 <= j < m.len(),
        m[j].contains_key(n),
        forall|k: int| j < k < m.len() ==> !(#[trigger] m[k]).contains_key(n),
    ensures
        env_assign(m, n, v) =~= m.update(j, m[j].insert(n, v)),
    decreases m.len(),
{
    if j == m.len() - 1 {
    } else {
        lemma_env_assign_at(m.drop_last(), n, v, j);
        assert(env_assign(m, n, v) =~= m.update(j, m[j].insert(n, v)));
    }
}

proof fn lemma_env_assign_absent(m: EnvModel, n: Seq<char>, v: LitV)
    requires
        forall|k: int| 0 <= k < m.len() ==> !(#[trigger] m[k]).contains_key(n),
    ensures
        env_assign(m, n, v) =~= m,
    decreases m.len(),
{
    if m.len() > 0 {
        lemma_env_assign_absent(m.drop_last(), n, v);
        assert(env_assign(m, n, v) =~= m);
    }
}

/// Finds the binding of a name inside one scope, if any.
fn scope_find(s: &Vec<Binding>, n: &Vec<char>) -> (r: Option<usize>)
    ensures
        match r {
            Option::Some(i) => i < s@.len() && s@[i as int].0@ == n@ && (forall|k: int|
                i < k < s@.len() ==> s@[k].0@ != n@),
            Option::None => forall|k: int| 0 <= k < s@.len() ==> s@[k].0@ != n@,
        },
{
    let mut i: usize = s.len();
    while i > 0
        invariant
            i <= s@.len(),
            forall|k: int| i <= k < s@.len() ==> s@[k].0@ != n@,
        decreases i,
    {
        i -= 1;
        if chars_eq(&s[i].0, n) {
            return Option::Some(i);
        }
    }
    Option::None
}

/// A stack of scopes. The outermost (global) scope is created with the
/// environment and is never popped.
pub struct Environment {
    scopes: Vec<Vec<Binding>>,
}

impl View for Environment {
    type V = EnvModel;

    closed spec fn view(&self) -> EnvModel {
        self.scopes@.map(|i: int, s: Vec<Binding>| scope_map(s@))
    }
}

impl Environment {
    /// Structural soundness: at least the global scope, no name bound twice
    /// within one scope.
    pub closed spec fn wf(&self) -> bool {
        &&& self.scopes@.len() >= 1
        &&& forall|i: int| 0 <= i < self.scopes@.len() ==> unique_keys(#[trigger] self.scopes@[i]@)
    }

    /// A fresh environment: one empty global scope.
    pub fn new() -> (e: Environment)
        ensures
            e.wf(),
            e@ =~= seq![Map::<Seq<char>, LitV>::empty()],
    {
        let mut scopes: Vec<Vec<Binding>> = Vec::new();
        scopes.push(Vec::new());
        Environment { scopes }
    }

    /// How many scopes are on the stack.
    pub fn depth(&self) -> (n: usize)
        ensures
            n == self@.len(),
    {
        self.scopes.len()
    }

    /// Enters a block scope.
    pub fn push_scope(&mut self)
        requires
            old(self).wf(),
        ensures
            final(self).wf(),
            final(self)@ =~= old(self)@.push(Map::empty()),
    {
        self.scopes.push(Vec::new());
    }

    /// Leaves a block scope, discarding its bindings. The global scope stays.
    pub fn pop_scope(&mut self)
        requires
            old(self).wf(),
            old(self)@.len() > 1,
        ensures
            final(self).wf(),
            final(self)@ =~= old(self)@.drop_last(),
    {
        let _ = self.scopes.pop();
    }

    /// Binds a name in the innermost scope, shadowing any outer binding and
    /// replacing any earlier binding of the same name in this scope.
    pub fn define(&mut self, k: Vec<char>, v: Literal) -> (r: Result<(), RuntimeError>)
        requires
            old(self).wf(),
        ensures
            final(self).wf(),
            r is Ok,
            final(self)@ =~= env_define(old(self)@, k@, v@),
    {
        let top = self.scopes.len() - 1;
        let found = scope_find(&self.scopes[top], &k);
        let ghost old_scope = self.scopes@[top as int]@;
        let mut scope = self.scopes.remove(top);
        match found {
            Option::Some(i) => {
                scope.set(i, (k, v));
                proof {
                    lemma_scope_map_update(old_scope, i as int, scope@[i as int]);
                }
            },
            Option::None => {
                scope.push((k, v));
                proof {
                    assert(scope@.drop_last() =~= old_scope);
                }
            },
        }
        self.scopes.push(scope);
        proof {
            assert(self.scopes@ =~= old(self).scopes@.update(top as int, self.scopes@.last()));
            assert(self@ =~= env_define(old(self)@, k@, v@));
        }
        Ok(())
    }

    /// The value of the nearest binding of the name, or an undefined-variable
    /// error if no scope binds it.
    pub fn get(&self, k: &Vec<char>) -> (r: Result<Literal, RuntimeError>)
        ensures
            match r {
                Ok(v) => env_lookup(self@, k@) == Option::Some(v@),
                Err(e) => env_lookup(self@, k@) is None && (match e.cause {
                    RuntimeErrorKind::UndefinedVariable(name) => name@ == k@,
                    _ => false,
                }),
            },
    {
        proof {
            assert(self@.take(self@.len() as int) =~= self@);
        }
        let mut j: usize = self.scopes.len();
        while j > 0
            invariant
                j <= self@.len(),
                self@.len() == self.scopes@.len(),
                env_lookup(self@, k@) == env_lookup(self@.take(j as int), k@),
            decreases j,
        {
            j -= 1;
            proof {
                assert(self@[j as int] == scope_map(self.scopes@[j as int]@));
                assert(self@.take(j + 1 as int).last() == self@[j as int]);
                assert(self@.take(j + 1 as int).drop_last() =~= self@.take(j as int));
            }
            match scope_find(&self.scopes[j], k) {
                Option::Some(i) => {
                    proof {
                        lemma_scope_map_found(self.scopes@[j as int]@, k@, i as int);
                    }
                    let scope = &self.scopes[j];
                    return Ok(scope[i].1.dup());
                },
                Option::None => {
                    proof {
                        lemma_scope_map_absent(self.scopes@[j as int]@, k@);
                    }
                },
            }
        }
        proof {
            assert(self@.take(0) =~= Seq::<Map<Seq<char>, LitV>>::empty());
        }
        Err(
            RuntimeError {
                cause: RuntimeErrorKind::UndefinedVariable(clone_chars(k)),
                location: crate::LocationInfo { column: 0, line: 0, len: 0 },
            },
        )
    }

    /// Updates the nearest binding of the name, or reports an
    /// undefined-variable error and changes nothing if no scope binds it.
    pub fn assign(&mut self, k: &Vec<char>, v: Literal) -> (r: Result<(), RuntimeError>)
        requires
            old(self).wf(),
        ensures
            final(self).wf(),
            match r {
                Ok(_) => env_contains(old(self)@, k@) && final(self)@ =~= env_assign(
                    old(self)@,
                    k@,
                    v@,
                ),
                Err(e) => !env_contains(old(self)@, k@) && final(self)@ == old(self)@ && (match e.cause {
                    RuntimeErrorKind::UndefinedVariable(name) => name@ == k@,
                    _ => false,
                }),
            },
    {
        proof {
            assert(self@.take(self@.len() as int) =~= self@);
        }
        let mut j: usize = self.scopes.len();
        while j > 0
            invariant
                self.wf(),
                self == old(self),
                j <= self@.len(),
                self@.len() == self.scopes@.len(),
                env_lookup(self@, k@) == env_lookup(self@.take(j as int), k@),
                forall|jj: int| j <= jj < self@.len() ==> !(#[trigger] self@[jj]).contains_key(k@),
            decreases j,
        {
            j -= 1;
            proof {
                assert(self@[j as int] == scope_map(self.scopes@[j as int]@));
                assert(self@.take(j + 1 as int).last() == self@[j as int]);
                assert(self@.take(j + 1 as int).drop_last() =~= self@.take(j as int));
            }
            match scope_find(&self.scopes[j], k) {
                Option::Some(i) => {
                    proof {
                        lemma_scope_map_found(self.scopes@[j as int]@, k@, i as int);
                        lemma_env_assign_at(self@, k@, v@, j as int);
                    }
                    let ghost old_model = self@;
                    let ghost old_scope = self.scopes@[j as int]@;
                    let mut scope = self.scopes.remove(j);
                    scope.set(i, (clone_chars(k), v));
                    proof {
                        lemma_scope_map_update(
                            old_scope,
                            i as int,
                            (scope@[i as int].0, scope@[i as int].1),
                        );
                        assert(scope@[i as int].0@ == k@);
                    }
                    self.scopes.insert(j, scope);
                    proof {
                        assert(self.scopes@ =~= old(self).scopes@.update(
                            j as int,
                            self.scopes@[j as int],
                        ));
                        assert(self@ =~= old_model.update(j as int, scope_map(scope@)));
                        assert(self@ =~= env_assign(old_model, k@, v@));
                    }
                    return Ok(());
                },
                Option::None => {
                    proof {
                        lemma_scope_map_absent(self.scopes@[j as int]@, k@);
                    }
                },
            }
        }
        proof {
            assert(self@.take(0) =~= Seq::<Map<Seq<char>, LitV>>::empty());
        }
        Err(
            RuntimeError {
                cause: RuntimeErrorKind::UndefinedVariable(clone_chars(k)),
                location: crate::LocationInfo { column: 0, line: 0, len: 0 },
            },
        )
    }
}

/// A sound environment always holds at least its global scope.
pub proof fn lemma_wf_depth(e: &Environment)
    requires
        e.wf(),
    ensures
        e@.len() >= 1,
{
}

/// Assigning never changes how many scopes are on the stack.
pub proof fn lemma_env_assign_len(m: EnvModel, n: Seq<char>, v: LitV)
    ensures
        env_assign(m, n, v).len() == m.len(),
    decreases m.len(),
{
    if m.len() > 0 && !m.last().contains_key(n) {
        lemma_env_assign_len(m.drop_last(), n, v);
    }
}

/// Reading a name just defined in the innermost scope yields the value that
/// was defined.
pub proof fn lemma_define_then_get(m: EnvModel, n: Seq<char>, v: LitV)
    requires
        m.len() >= 1,
    ensures
        env_lookup(env_define(m, n, v), n) == Option::Some(v),
{
}

/// An inner scope that does not bind a name sees the outer binding of that
/// name, if any.
pub proof fn lemma_inner_sees_outer(m: EnvModel, t: Map<Seq<char>, LitV>, n: Seq<char>)
    requires
        !t.contains_key(n),
    ensures
        env_lookup(m.push(t), n) == env_lookup(m, n),
{
    assert(m.push(t).drop_last() =~= m);
}

/// Entering a scope and leaving it again, however the entered scope was
/// filled in between, leaves every outer scope exactly as it was.
pub proof fn lemma_push_then_pop(m: EnvModel, t: Map<Seq<char>, LitV>)
    ensures
        m.push(t).drop_last() =~= m,
{
}

} // verus!
