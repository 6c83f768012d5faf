//! The chained variable store: a stack of lexical scopes, innermost last.
//! A lookup or assignment walks outward from the innermost scope; `define`
//! always writes into the innermost scope, shadowing outer bindings.
//!
//! Each scope is an association list with unique names, modelled as a
//! `Map` from the name's characters to the value's model.
use vstd::prelude::*;

use crate::error::RuntimeError;
use crate::token::{Literal, Token, is_name_token, name_of_token};
use crate::value::{Value, ValueModel};

verus! {

/// The model of an environment: one map per scope, innermost last.
pub type EnvModel = Seq<Map<Seq<char>, ValueModel>>;

/// The map a scope's association list denotes; a later entry for the same
/// name wins (the store never keeps two).
pub open spec fn scope_map(s: Seq<(String, Value)>) -> Map<Seq<char>, ValueModel>
    decreases s.len(),
{
    if s.len() == 0 {
        Map::empty()
    } else {
        scope_map(s.drop_last()).insert(s.last().0@, s.last().1@)
    }
}

/// The value a name resolves to: the innermost scope that binds it wins.
pub open spec fn env_lookup(env: EnvModel, name: Seq<char>) -> Option<ValueModel>
    decreases env.len(),
{
    if env.len() == 0 {
        None
    } else if env.last().contains_key(name) {
        Some(env.last()[name])
    } else {
        env_lookup(env.drop_last(), name)
    }
}

/// The environment after assigning to a name: the innermost scope that
/// binds it is updated in place; `None` where no scope binds it.
pub open spec fn env_assign_model(env: EnvModel, name: Seq<char>, v: ValueModel)
    -> Option<EnvModel>
    decreases env.len(),
{
    if env.len() == 0 {
        None
    } else if env.last().contains_key(name) {
        Some(env.drop_last().push(env.last().insert(name, v)))
    } else {
        match env_assign_model(env.drop_last(), name, v) {
            Some(outer) => Some(outer.push(env.last())),
            None => None,
        }
    }
}

/// The environment after defining a name in the innermost scope.
pub open spec fn env_define_model(env: EnvModel, name: Seq<char>, v: ValueModel) -> EnvModel {
    env.update(env.len() - 1, env.last().insert(name, v))
}

/// The chained variable store.
pub struct Environment {
    scopes: Vec<Vec<(String, Value)>>,
}

/// A scope's names are pairwise distinct.
pub open spec fn unique_names(s: Seq<(String, Value)>) -> bool {
    forall|i: int, j: int| 0 <= i < j < s.len() ==> (#[trigger] s[i]).0@ != (#[trigger] s[j]).0@
}

impl Environment {
    /// The model of the environment.
    pub closed spec fn view(&self) -> EnvModel {
        self.scopes@.map_values(|s: Vec<(String, Value)>| scope_map(s@))
    }

    /// Well-formed: at least one scope, and no scope binds a name twice.
    pub closed spec fn wf(&self) -> bool {
        self.scopes@.len() > 0 && forall|i: int| 0 <= i < self.scopes@.len()
            ==> unique_names((#[trigger] self.scopes@[i])@)
    }

    /// A store holding one empty scope.
    pub fn new() -> (r: Environment)
        ensures
            r.wf(),
            r@ =~= seq![Map::<Seq<char>, ValueModel>::empty()],
    {
        let mut scopes: Vec<Vec<(String, Value)>> = Vec::new();
        scopes.push(Vec::new());
        let r = Environment { scopes };
        proof {
            assert(r@ =~= seq![Map::<Seq<char>, ValueModel>::empty()]);
        }
        r
    }

    /// A store whose outer scopes are the given environment's and whose
    /// innermost scope is new and empty.
    pub fn new_with_enclosing(enclosing: Environment) -> (r: Environment)
        requires
            enclosing.wf(),
        ensures
            r.wf(),
            r@ =~= enclosing@ + seq![Map::<Seq<char>, ValueModel>::empty()],
    {
        let ghost pre = enclosing@;
        let mut env = enclosing;
        env.scopes.push(Vec::new());
        proof {
            assert(env@ =~= pre + seq![Map::<Seq<char>, ValueModel>::empty()]);
        }
        env
    }

    /// Define the name in the innermost scope, inserting or overwriting.
    pub fn define(&mut self, name: &Token, value: Value)
        requires
            old(self).wf(),
            is_name_token(name@),
        ensures
            final(self).wf(),
            final(self)@ =~= env_define_model(old(self)@, name_of_token(name@), value@),
    {
        let key = unwrap_identifier(name);
        let mut scope = match self.scopes.pop() {
            Some(s) => s,
            None => Vec::new(),
        };
        let ghost old_scope = scope@;
        match find_name(&scope, key) {
            Some(i) => {
                let pair = scope.remove(i);
                scope.insert(i, (pair.0, value));
                proof {
                    assert(scope@ =~= old_scope.update(i as int, scope@[i as int]));
                    lemma_scope_map_update(old_scope, i as int, scope@[i as int]);
                }
            },
            None => {
                scope.push((key.to_owned(), value));
                proof {
                    assert(scope@.drop_last() =~= old_scope);
                    assert(unique_names(scope@));
                }
            },
        }
        self.scopes.push(scope);
        proof {
            assert(self.scopes@ =~= old(self).scopes@.update(
                old(self).scopes@.len() - 1, scope));
            assert(self@ =~= env_define_model(old(self)@, name_of_token(name@), value@));
        }
    }

    /// Look the name up, innermost scope outward.
    pub fn get(&self, name: &Token) -> (r: Result<Value, RuntimeError>)
        requires
            self.wf(),
            is_name_token(name@),
        ensures
            (match r {
                Ok(v) => env_lookup(self@, name_of_token(name@)) == Some(v@),
                Err(e) => env_lookup(self@, name_of_token(name@)) is None
                    && e@ == crate::error::RuntimeErrorModel::UndefinedVariable {
                        token: name@,
                    },
            }),
    {
        let key = unwrap_identifier(name);
        let mut d = self.scopes.len();
        proof {
            assert(self@.subrange(0, d as int) =~= self@);
        }
        while d > 0
            invariant
                d <= self.scopes@.len(),
                self.wf(),
                key@ == name_of_token(name@),
                env_lookup(self@, key@) == env_lookup(self@.subrange(0, d as int), key@),
            decreases d,
        {
            d = d - 1;
            let scope = &self.scopes[d];
            proof {
                assert(self@.subrange(0, d as int + 1).drop_last()
                    =~= self@.subrange(0, d as int));
                assert(self@.subrange(0, d as int + 1).last() == scope_map(scope@));
                lemma_scope_map_find(scope@);
            }
            match find_name(scope, key) {
                Some(i) => {
                    let v = scope[i].1.duplicate();
                    proof {
                        lemma_scope_map_index(scope@, i as int);
                    }
                    return Ok(v);
                },
                None => {},
            }
        }
        proof {
            assert(self@.subrange(0, 0) =~= Seq::<Map<Seq<char>, ValueModel>>::empty());
        }
        Err(RuntimeError::UndefinedVariable { token: name.duplicate() })
    }

    /// Assign to the name in the innermost scope that binds it; an
    /// assignment to a name no scope binds fails and changes nothing.
    pub fn assign(&mut self, token: &Token, value: Value) -> (r: Result<(), RuntimeError>)
        requires
            old(self).wf(),
            is_name_token(token@),
        ensures
            final(self).wf(),
            (match r {
                Ok(_) => env_assign_model(old(self)@, name_of_token(token@), value@)
                    == Some(final(self)@),
                Err(e) => env_assign_model(old(self)@, name_of_token(token@), value@) is None
                    && final(self)@ == old(self)@
                    && e@ == crate::error::RuntimeErrorModel::UndefinedVariable {
                        token: token@,
                    },
            }),
    {
        let key = unwrap_identifier(token);
        let mut d = self.scopes.len();
        proof {
            assert(self@.subrange(0, d as int) =~= self@);
            assert forall|e2: EnvModel| env_assign_model(
                self@.subrange(0, d as int), key@, value@) == Some(e2)
                implies env_assign_model(self@, key@, value@)
                == Some(e2 + self@.subrange(d as int, self@.len() as int)) by {
                assert(e2 + self@.subrange(d as int, self@.len() as int) =~= e2);
            }
        }
        while d > 0
            invariant
                d <= self.scopes@.len(),
                self.wf(),
                self@ == old(self)@,
                self.scopes@ == old(self).scopes@,
                key@ == name_of_token(token@),
                (env_assign_model(self@, key@, value@) is Some <==> env_assign_model(
                    self@.subrange(0, d as int), key@, value@) is Some),
                (forall|e2: EnvModel| env_assign_model(
                    self@.subrange(0, d as int), key@, value@) == Some(e2)
                    ==> env_assign_model(self@, key@, value@)
                        == Some(e2 + self@.subrange(d as int, self@.len() as int))),
            decreases d,
        {
            d = d - 1;
            proof {
                assert(self@.subrange(0, d as int + 1).drop_last()
                    =~= self@.subrange(0, d as int));
                assert(self@.subrange(0, d as int + 1).last()
                    == scope_map(self.scopes@[d as int]@));
                lemma_scope_map_find(self.scopes@[d as int]@);
            }
            let found = find_name(&self.scopes[d], key);
            match found {
                Some(i) => {
                    let mut scope = self.scopes.remove(d);
                    let ghost old_scope = scope@;
                    let pair = scope.remove(i);
                    scope.insert(i, (pair.0, value));
                    proof {
                        assert(scope@ =~= old_scope.update(i as int, scope@[i as int]));
                        lemma_scope_map_update(old_scope, i as int, scope@[i as int]);
                    }
                    self.scopes.insert(d, scope);
                    proof {
                        assert(self.scopes@ =~= old(self).scopes@.update(d as int, scope));
                        assert(self@ =~= old(self)@.update(
                            d as int, scope_map(scope@)));
                        let k = key@;
                        let oldm = old(self)@;
                        assert(oldm.subrange(0, d as int + 1).last() == oldm[d as int]);
                        assert(env_assign_model(oldm.subrange(0, d as int + 1), k, value@)
                            == Some(oldm.subrange(0, d as int).push(
                                oldm[d as int].insert(k, value@))));
                        assert(oldm.subrange(0, d as int).push(oldm[d as int].insert(k, value@))
                            + oldm.subrange(d as int + 1, oldm.len() as int)
                            =~= oldm.update(d as int, oldm[d as int].insert(k, value@)));
                        assert(self@ =~= oldm.update(d as int, oldm[d as int].insert(k, value@)));
                    }
                    return Ok(());
                },
                None => {
                    proof {
                        let k = key@;
                        let m = self@;
                        let sub1 = m.subrange(0, d as int + 1);
                        let sub0 = m.subrange(0, d as int);
                        assert(!sub1.last().contains_key(k));
                        assert forall|e2: EnvModel| env_assign_model(sub0, k, value@)
                            == Some(e2) implies env_assign_model(m, k, value@)
                            == Some(e2 + m.subrange(d as int, m.len() as int)) by {
                            assert(env_assign_model(sub1, k, value@)
                                == Some(e2.push(sub1.last())));
                            assert(e2.push(sub1.last())
                                + m.subrange(d as int + 1, m.len() as int)
                                =~= e2 + m.subrange(d as int, m.len() as int));
                        }
                    }
                },
            }
        }
        proof {
            assert(self@.subrange(0, 0) =~= Seq::<Map<Seq<char>, ValueModel>>::empty());
        }
        Err(RuntimeError::UndefinedVariable { token: token.duplicate() })
    }
}

/// The name a name token carries.
fn unwrap_identifier<'a>(t: &'a Token) -> (r: &'a str)
    requires
        is_name_token(t@),
    ensures
        r@ == name_of_token(t@),
{
    match &t.literal {
        Some(Literal::Identifier(s)) => s.as_str(),
        _ => "",
    }
}

/// The index of the entry binding the name, if any.
fn find_name(scope: &Vec<(String, Value)>, key: &str) -> (r: Option<usize>)
    ensures
        (match r {
            Some(i) => i < scope@.len() && scope@[i as int].0@ == key@,
            None => forall|j: int| 0 <= j < scope@.len() ==> (#[trigger] scope@[j]).0@ != key@,
        }),
{
    let n = scope.len();
    let mut i: usize = 0;
    while i < n
        invariant
            i <= n,
            n == scope@.len(),
            forall|j: int| 0 <= j < i ==> (#[trigger] scope@[j]).0@ != key@,
        decreases n - i,
    {
        if crate::text::str_eq(scope[i].0.as_str(), key) {
            return Some(i);
        }
        i = i + 1;
    }
    None
}

/// A scope's map binds a name exactly when some entry holds it.
proof fn lemma_scope_map_find(s: Seq<(String, Value)>)
    ensures
        forall|k: Seq<char>| scope_map(s).contains_key(k)
            <==> exists|j: int| 0 <= j < s.len() && (#[trigger] s[j]).0@ == k,
    decreases s.len(),
{
    if s.len() > 0 {
        lemma_scope_map_find(s.drop_last());
        assert forall|k: Seq<char>| scope_map(s).contains_key(k)
            implies exists|j: int| 0 <= j < s.len() && (#[trigger] s[j]).0@ == k by {
            if k == s.last().0@ {
                assert(s[s.len() - 1].0@ == k);
            } else {
                assert(scope_map(s.drop_last()).contains_key(k));
                let j = choose|j: int| 0 <= j < s.drop_last().len()
                    && (#[trigger] s.drop_last()[j]).0@ == k;
                assert(s[j].0@ == k);
            }
        }
        assert forall|k: Seq<char>|
            (exists|j: int| 0 <= j < s.len() && (#[trigger] s[j]).0@ == k)
            implies scope_map(s).contains_key(k) by {
            let j = choose|j: int| 0 <= j < s.len() && (#[trigger] s[j]).0@ == k;
            if j < s.len() - 1 {
                assert(s.drop_last()[j].0@ == k);
                assert(scope_map(s.drop_last()).contains_key(k));
            } else {
                assert(k == s.last().0@);
            }
        }
    }
}

/// With unique names, the map sends each entry's name to its value.
proof fn lemma_scope_map_index(s: Seq<(String, Value)>, i: int)
    requires
        unique_names(s),
        0 <= i < s.len(),
    ensures
        scope_map(s).contains_key(s[i].0@),
        scope_map(s)[s[i].0@] == s[i].1@,
    decreases s.len(),
{
    if i == s.len() - 1 {
    } else {
        lemma_scope_map_index(s.drop_last(), i);
        assert(s[i].0@ != s.last().0@);
    }
}

/// Replacing the entry that binds a name updates the map at that name,
/// provided names are unique and the replacement keeps the name.
proof fn lemma_scope_map_update(s: Seq<(String, Value)>, i: int, p: (String, Value))
    requires
        unique_names(s),
        0 <= i < s.len(),
        p.0@ == s[i].0@,
    ensures
        scope_map(s.update(i, p)) =~= scope_map(s).insert(p.0@, p.1@),
        unique_names(s.update(i, p)),
    decreases s.len(),
{
    let s2 = s.update(i, p);
    if i == s.len() - 1 {
        assert(s2.drop_last() =~= s.drop_last());
        assert(scope_map(s2) =~= scope_map(s).insert(p.0@, p.1@));
    } else {
        lemma_scope_map_update(s.drop_last(), i, p);
        assert(s2.drop_last() =~= s.drop_last().update(i, p));
        assert(s2.last() == s.last());
        assert(s.last().0@ != p.0@);
        assert(scope_map(s2) =~= scope_map(s).insert(p.0@, p.1@)) by {
            assert(scope_map(s2) == scope_map(s2.drop_last()).insert(s.last().0@, s.last().1@));
            assert(scope_map(s2.drop_last()) =~= scope_map(s.drop_last()).insert(p.0@, p.1@));
        }
    }
}

} // verus!
