//! Environment: a chain of name-to-value scopes.
//!
//! The chain is held as an arena: a vector of scope records, each with its
//! parent's index. A child's index is always greater than its parent's, so
//! the chain is acyclic by construction and every lookup terminates.
//! Multiple function values and call frames may name the same scope index;
//! a mutation through one is seen by all, which is what closures over
//! shared mutable state require.

use vstd::prelude::*;
use crate::object::{Object, ObjV, obj_v, obj_wf, opt_obj_v};
use crate::lexer::str_eq;

verus! {

/// One scope record: local bindings in insertion order, plus the index of
/// the enclosing scope, if any.
#[derive(PartialEq, Debug)]
pub struct Scope {
    pub bindings: Vec<(String, Object)>,
    pub parent: Option<usize>,
}

/// Ghost mirror of a scope: its bindings as a map.
pub struct ScopeV {
    pub map: Map<Seq<char>, ObjV>,
    pub parent: Option<int>,
}

/// The binding map of an association list; a later entry would win, though
/// well-formed scopes never bind one name twice.
pub open spec fn assoc_map(s: Seq<(String, Object)>) -> Map<Seq<char>, ObjV>
    decreases s.len(),
{
    if s.len() == 0 {
        Map::empty()
    } else {
        assoc_map(s.subrange(0, s.len() - 1)).insert(
            s[s.len() - 1].0@,
            obj_v(s[s.len() - 1].1),
        )
    }
}

/// No name is bound twice.
pub open spec fn uniq_names(s: Seq<(String, Object)>) -> bool {
    forall|i: int, j: int| 0 <= i < j < s.len() ==> s[i].0@ != s[j].0@
}

/// View of a scope record.
pub open spec fn scope_v(s: Scope) -> ScopeV {
    ScopeV {
        map: assoc_map(s.bindings@),
        parent: match s.parent {
            Some(p) => Some(p as int),
            None => None,
        },
    }
}

/// A name bound by no entry is not in the map.
proof fn lemma_assoc_miss(s: Seq<(String, Object)>, name: Seq<char>)
    requires
        forall|j: int| 0 <= j < s.len() ==> s[j].0@ != name,
    ensures
        !assoc_map(s).dom().contains(name),
    decreases s.len(),
{
    if s.len() > 0 {
        lemma_assoc_miss(s.subrange(0, s.len() - 1), name);
    }
}

/// In a scope without duplicate names, the map agrees with the entry.
proof fn lemma_assoc_hit(s: Seq<(String, Object)>, j: int)
    requires
        uniq_names(s),
        0 <= j < s.len(),
    ensures
        assoc_map(s).dom().contains(s[j].0@),
        assoc_map(s)[s[j].0@] == obj_v(s[j].1),
    decreases s.len(),
{
    if j < s.len() - 1 {
        let sub = s.subrange(0, s.len() - 1);
        lemma_assoc_hit(sub, j);
    }
}

/// Overwriting the entry that binds a name updates the map at that name.
proof fn lemma_assoc_overwrite(s: Seq<(String, Object)>, j: int, e: (String, Object))
    requires
        uniq_names(s),
        0 <= j < s.len(),
        e.0@ == s[j].0@,
    ensures
        assoc_map(s.update(j, e)) == assoc_map(s).insert(e.0@, obj_v(e.1)),
    decreases s.len(),
{
    let su = s.update(j, e);
    assert(su.subrange(0, s.len() - 1) =~= (if j < s.len() - 1 {
        s.subrange(0, s.len() - 1).update(j, e)
    } else {
        s.subrange(0, s.len() - 1)
    }));
    if j == s.len() - 1 {
        assert(assoc_map(su) =~= assoc_map(s).insert(e.0@, obj_v(e.1)));
    } else {
        lemma_assoc_overwrite(s.subrange(0, s.len() - 1), j, e);
        assert(assoc_map(su) =~= assoc_map(s).insert(e.0@, obj_v(e.1)));
    }
}

/// The value a chain lookup finds, starting at scope `id`: the nearest
/// binding of `name`, walking parents outward; `None` when no scope in the
/// chain binds it.
pub open spec fn lookup_in(sc: Seq<ScopeV>, id: int, name: Seq<char>) -> Option<ObjV>
    decreases id,
{
    if !(0 <= id < sc.len()) {
        None
    } else if sc[id].map.dom().contains(name) {
        Some(sc[id].map[name])
    } else {
        match sc[id].parent {
            Some(p) => if 0 <= p < id {
                lookup_in(sc, p, name)
            } else {
                None
            },
            None => None,
        }
    }
}

/// The nearest scope in the chain that already binds `name`, if any.
pub open spec fn owner_of(sc: Seq<ScopeV>, id: int, name: Seq<char>) -> Option<int>
    decreases id,
{
    if !(0 <= id < sc.len()) {
        None
    } else if sc[id].map.dom().contains(name) {
        Some(id)
    } else {
        match sc[id].parent {
            Some(p) => if 0 <= p < id {
                owner_of(sc, p, name)
            } else {
                None
            },
            None => None,
        }
    }
}

/// The scope arena. Scope `0` is the program's root scope.
#[derive(PartialEq, Debug)]
pub struct Env {
    pub scopes: Vec<Scope>,
}

/// View of the whole arena.
pub open spec fn env_v(e: Env) -> Seq<ScopeV> {
    Seq::new(e.scopes@.len(), |i: int| scope_v(e.scopes@[i]))
}

impl Env {
    /// Well-formedness: at least the root scope exists, no scope binds a
    /// name twice, every parent comes before its child, and every stored
    /// value only captures scopes inside the arena.
    pub open spec fn wf(&self) -> bool {
        &&& self.scopes@.len() >= 1
        &&& forall|i: int| 0 <= i < self.scopes@.len() ==> uniq_names(
            #[trigger] self.scopes@[i].bindings@,
        )
        &&& forall|i: int|
            0 <= i < self.scopes@.len() ==> (match #[trigger] self.scopes@[i].parent {
                Some(p) => p < i,
                None => true,
            })
        &&& forall|i: int, j: int|
            0 <= i < self.scopes@.len() && 0 <= j < self.scopes@[i].bindings@.len() ==> obj_wf(
                obj_v(#[trigger] self.scopes@[i].bindings@[j].1),
                self.scopes@.len() as int,
            )
    }

    /// The number of scopes in the arena.
    pub open spec fn len(&self) -> int {
        self.scopes@.len() as int
    }

    /// An empty root scope with no parent: the program's global scope.
    pub fn new() -> (e: Env)
        ensures
            e.wf(),
            e.len() == 1,
            env_v(e) =~= seq![ScopeV { map: Map::empty(), parent: None }],
    {
        let mut scopes: Vec<Scope> = Vec::new();
        scopes.push(Scope { bindings: Vec::new(), parent: None });
        let e = Env { scopes };
        proof {
            assert(e.scopes@[0].bindings@.len() == 0);
            assert(assoc_map(e.scopes@[0].bindings@) =~= Map::<Seq<char>, ObjV>::empty());
        }
        e
    }

    /// A root scope already holding `store`. A later entry for the same
    /// name overwrites an earlier one. The values must not capture any
    /// scope other than the root.
    pub fn from(store: Vec<(String, Object)>) -> (e: Env)
        requires
            forall|j: int| 0 <= j < store@.len() ==> obj_wf(obj_v(#[trigger] store@[j].1), 1),
        ensures
            e.wf(),
            e.len() == 1,
            env_v(e) =~= seq![
                ScopeV { map: assoc_map(store@), parent: None },
            ],
    {
        let mut e = Env::new();
        let mut i: usize = 0;
        while i < store.len()
            invariant
                e.wf(),
                e.len() == 1,
                i <= store@.len(),
                forall|j: int| 0 <= j < store@.len() ==> obj_wf(obj_v(#[trigger] store@[j].1), 1),
                env_v(e)[0].parent is None,
                env_v(e)[0].map == assoc_map(store@.subrange(0, i as int)),
            decreases store@.len() - i,
        {
            let name = store[i].0.clone();
            let val = store[i].1.clone();
            proof {
                assert(obj_wf(obj_v(val), 1));
            }
            let prev = e.set(0, name, val);
            proof {
                let sub1 = store@.subrange(0, i + 1);
                assert(sub1.subrange(0, i as int) =~= store@.subrange(0, i as int));
                assert(assoc_map(sub1) == assoc_map(store@.subrange(0, i as int)).insert(
                    store@[i as int].0@,
                    obj_v(store@[i as int].1),
                ));
            }
            i += 1;
        }
        proof {
            assert(store@.subrange(0, store@.len() as int) =~= store@);
            assert(env_v(e) =~= seq![ScopeV { map: assoc_map(store@), parent: None }]);
        }
        e
    }

    /// A fresh empty scope whose parent is `outer`; returns its index.
    /// Used once per function call.
    pub fn new_enclosed(&mut self, outer: usize) -> (id: usize)
        requires
            old(self).wf(),
            outer < old(self).len(),
        ensures
            final(self).wf(),
            id == old(self).len(),
            final(self).len() == old(self).len() + 1,
            env_v(*final(self)) =~= env_v(*old(self)).push(
                ScopeV { map: Map::empty(), parent: Some(outer as int) },
            ),
    {
        let id = self.scopes.len();
        self.scopes.push(Scope { bindings: Vec::new(), parent: Some(outer) });
        proof {
            assert(self.scopes@[id as int].bindings@.len() == 0);
            assert(assoc_map(self.scopes@[id as int].bindings@) =~= Map::<Seq<char>, ObjV>::empty());
            assert(forall|i: int|
                0 <= i < id ==> self.scopes@[i] == #[trigger] old(self).scopes@[i]);
            assert forall|i: int, j: int|
                0 <= i < self.scopes@.len() && 0 <= j < self.scopes@[i].bindings@.len()
                    implies obj_wf(
                obj_v(#[trigger] self.scopes@[i].bindings@[j].1),
                self.scopes@.len() as int,
            ) by {
                assert(i < id);
                assert(obj_wf(obj_v(self.scopes@[i].bindings@[j].1), id as int));
                crate::object::lemma_obj_wf_mono(
                    obj_v(self.scopes@[i].bindings@[j].1),
                    id as int,
                    id + 1,
                );
            }
            lemma_env_grow(*old(self), *self);
        }
        id
    }


    /// A fresh empty scope with no parent: an isolated root, used by the
    /// host's library loader to evaluate a library apart from user code
    /// before copying chosen bindings out of it.
    pub fn new_detached(&mut self) -> (id: usize)
        requires
            old(self).wf(),
        ensures
            final(self).wf(),
            id == old(self).len(),
            final(self).len() == old(self).len() + 1,
            env_v(*final(self)) =~~= env_v(*old(self)).push(
                ScopeV { map: Map::empty(), parent: None },
            ),
    {
        let id = self.scopes.len();
        self.scopes.push(Scope { bindings: Vec::new(), parent: None });
        proof {
            assert(self.scopes@[id as int].bindings@.len() == 0);
            assert(assoc_map(self.scopes@[id as int].bindings@) =~= Map::<Seq<char>, ObjV>::empty());
            assert(forall|i: int|
                0 <= i < id ==> self.scopes@[i] == #[trigger] old(self).scopes@[i]);
            assert forall|i: int, j: int|
                0 <= i < self.scopes@.len() && 0 <= j < self.scopes@[i].bindings@.len()
                    implies obj_wf(
                obj_v(#[trigger] self.scopes@[i].bindings@[j].1),
                self.scopes@.len() as int,
            ) by {
                assert(i < id);
                assert(obj_wf(obj_v(self.scopes@[i].bindings@[j].1), id as int));
                crate::object::lemma_obj_wf_mono(
                    obj_v(self.scopes@[i].bindings@[j].1),
                    id as int,
                    id + 1,
                );
            }
            lemma_env_grow(*old(self), *self);
        }
        id
    }

    /// Looks `name` up in scope `id`; on a miss, delegates to the parent
    /// scope, recursing outward. `None` when no scope in the chain binds
    /// the name.
    pub fn get(&self, id: usize, name: &str) -> (r: Option<Object>)
        requires
            self.wf(),
            id < self.len(),
        ensures
            opt_obj_v(r) == lookup_in(env_v(*self), id as int, name@),
            r matches Some(o) ==> obj_wf(obj_v(o), self.len()),
        decreases id,
    {
        let bindings_len = self.scopes[id].bindings.len();
        let mut j: usize = 0;
        while j < bindings_len
            invariant
                self.wf(),
                id < self.len(),
                bindings_len == self.scopes@[id as int].bindings@.len(),
                j <= bindings_len,
                forall|k: int|
                    0 <= k < j ==> #[trigger] self.scopes@[id as int].bindings@[k].0@ != name@,
            decreases bindings_len - j,
        {
            if str_eq(self.scopes[id].bindings[j].0.as_str(), name) {
                let found = self.scopes[id].bindings[j].1.clone();
                proof {
                    lemma_assoc_hit(self.scopes@[id as int].bindings@, j as int);
                }
                return Some(found);
            }
            j += 1;
        }
        proof {
            lemma_assoc_miss(self.scopes@[id as int].bindings@, name@);
        }
        match self.scopes[id].parent {
            Some(p) => self.get(p, name),
            None => None,
        }
    }

    /// Inserts or overwrites the binding for `name` in the local scope
    /// `id` only, shadowing any outer binding; returns the value the local
    /// scope previously bound, if any. This is `let`'s and parameter
    /// binding's semantics.
    pub fn set(&mut self, id: usize, name: String, val: Object) -> (r: Option<Object>)
        requires
            old(self).wf(),
            id < old(self).len(),
            obj_wf(obj_v(val), old(self).len()),
        ensures
            final(self).wf(),
            final(self).len() == old(self).len(),
            env_v(*final(self)) =~= env_v(*old(self)).update(
                id as int,
                ScopeV {
                    map: env_v(*old(self))[id as int].map.insert(name@, obj_v(val)),
                    parent: env_v(*old(self))[id as int].parent,
                },
            ),
            opt_obj_v(r) == (if env_v(*old(self))[id as int].map.dom().contains(name@) {
                Some(env_v(*old(self))[id as int].map[name@])
            } else {
                None::<ObjV>
            }),
    {
        let bindings_len = self.scopes[id].bindings.len();
        let mut j: usize = 0;
        while j < bindings_len
            invariant
                self.wf(),
                id < self.len(),
                *self == *old(self),
                obj_wf(obj_v(val), self.len()),
                bindings_len == self.scopes@[id as int].bindings@.len(),
                j <= bindings_len,
                forall|k: int|
                    0 <= k < j ==> #[trigger] self.scopes@[id as int].bindings@[k].0@ != name@,
            decreases bindings_len - j,
        {
            if str_eq(self.scopes[id].bindings[j].0.as_str(), name.as_str()) {
                let prev = self.scopes[id].bindings[j].1.clone();
                proof {
                    lemma_assoc_hit(self.scopes@[id as int].bindings@, j as int);
                }
                self.scopes[id].bindings[j] = (name, val);
                proof {
                    assert(self.scopes@[id as int].bindings@ =~= old(
                        self,
                    ).scopes@[id as int].bindings@.update(j as int, (name, val)));
                    lemma_assoc_overwrite(
                        old(self).scopes@[id as int].bindings@,
                        j as int,
                        self.scopes@[id as int].bindings@[j as int],
                    );
                    assert(env_v(*self)[id as int].map == env_v(*old(self))[id as int].map.insert(
                        name@,
                        obj_v(val),
                    ));
                    let n = self.scopes@.len() as int;
                    assert forall|i: int| 0 <= i < n implies uniq_names(
                        #[trigger] self.scopes@[i].bindings@,
                    ) by {
                        if i == id {
                            let ob = old(self).scopes@[i].bindings@;
                            let nb = self.scopes@[i].bindings@;
                            assert(forall|k: int|
                                0 <= k < nb.len() ==> #[trigger] nb[k].0@ == ob[k].0@);
                        }
                    }
                    assert forall|i: int, jj: int|
                        0 <= i < n && 0 <= jj < self.scopes@[i].bindings@.len() implies obj_wf(
                        obj_v(#[trigger] self.scopes@[i].bindings@[jj].1),
                        n,
                    ) by {
                        if i == id && jj == j {
                            assert(obj_wf(obj_v(val), n));
                        } else {
                            assert(self.scopes@[i].bindings@[jj]
                                == old(self).scopes@[i].bindings@[jj]);
                        }
                    }
                    assert(env_v(*self) =~~= env_v(*old(self)).update(
                        id as int,
                        ScopeV {
                            map: env_v(*old(self))[id as int].map.insert(name@, obj_v(val)),
                            parent: env_v(*old(self))[id as int].parent,
                        },
                    ));
                }
                return Some(prev);
            }
            j += 1;
        }
        proof {
            lemma_assoc_miss(self.scopes@[id as int].bindings@, name@);
        }
        self.scopes[id].bindings.push((name, val));
        proof {
            let nb = self.scopes@[id as int].bindings@;
            assert(nb.subrange(0, nb.len() - 1) =~= old(self).scopes@[id as int].bindings@);
            assert(env_v(*self) =~~= env_v(*old(self)).update(
                id as int,
                ScopeV {
                    map: env_v(*old(self))[id as int].map.insert(name@, obj_v(val)),
                    parent: env_v(*old(self))[id as int].parent,
                },
            ));
        }
        None
    }

    /// Overwrites `name` in the nearest scope, from `id` outward, that
    /// already binds it, and returns that scope's previous value; when no
    /// scope in the chain binds the name, does nothing and returns `None`.
    pub fn update(&mut self, id: usize, name: String, val: Object) -> (r: Option<Object>)
        requires
            old(self).wf(),
            id < old(self).len(),
            obj_wf(obj_v(val), old(self).len()),
        ensures
            final(self).wf(),
            final(self).len() == old(self).len(),
            ({
                match owner_of(env_v(*old(self)), id as int, name@) {
                    Some(k) => env_v(*final(self)) =~= env_v(*old(self)).update(
                        k,
                        ScopeV {
                            map: env_v(*old(self))[k].map.insert(name@, obj_v(val)),
                            parent: env_v(*old(self))[k].parent,
                        },
                    ) && opt_obj_v(r) == Some(env_v(*old(self))[k].map[name@]),
                    None => env_v(*final(self)) =~= env_v(*old(self)) && r is None,
                }
            }),
        decreases id,
    {
        let bindings_len = self.scopes[id].bindings.len();
        let mut j: usize = 0;
        while j < bindings_len
            invariant
                self.wf(),
                id < self.len(),
                *self == *old(self),
                obj_wf(obj_v(val), self.len()),
                bindings_len == self.scopes@[id as int].bindings@.len(),
                j <= bindings_len,
                forall|k: int|
                    0 <= k < j ==> #[trigger] self.scopes@[id as int].bindings@[k].0@ != name@,
            decreases bindings_len - j,
        {
            if str_eq(self.scopes[id].bindings[j].0.as_str(), name.as_str()) {
                let prev = self.scopes[id].bindings[j].1.clone();
                proof {
                    lemma_assoc_hit(self.scopes@[id as int].bindings@, j as int);
                }
                self.scopes[id].bindings[j] = (name, val);
                proof {
                    lemma_assoc_overwrite(
                        old(self).scopes@[id as int].bindings@,
                        j as int,
                        self.scopes@[id as int].bindings@[j as int],
                    );
                    assert(env_v(*self) =~~= env_v(*old(self)).update(
                        id as int,
                        ScopeV {
                            map: env_v(*old(self))[id as int].map.insert(name@, obj_v(val)),
                            parent: env_v(*old(self))[id as int].parent,
                        },
                    ));
                }
                return Some(prev);
            }
            j += 1;
        }
        proof {
            lemma_assoc_miss(self.scopes@[id as int].bindings@, name@);
        }
        match self.scopes[id].parent {
            Some(p) => self.update(p, name, val),
            None => None,
        }
    }
}

/// Growing the arena by appending scopes keeps every earlier scope's view.
proof fn lemma_env_grow(before: Env, after: Env)
    requires
        after.scopes@.len() == before.scopes@.len() + 1,
        forall|i: int|
            0 <= i < before.scopes@.len() ==> after.scopes@[i] == #[trigger] before.scopes@[i],
    ensures
        forall|i: int|
            0 <= i < before.scopes@.len() ==> env_v(after)[i] == #[trigger] env_v(before)[i],
{
}

} // verus!
