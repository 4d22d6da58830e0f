//! The heterogeneous preference store.
//!
//! An ordered mapping from effective type identifier to one owned value,
//! kept sorted by key so that serialized output is deterministic. All
//! lookups go through the registry's effective-identifier resolution, so
//! the same type always maps to the same entry within one registry
//! configuration.

use vstd::prelude::*;

use crate::entries::entries_sorted;
use crate::entries::entry_views;
use crate::entries::has_key;
use crate::entries::key_index;
use crate::entries::spec_get;
use crate::registry::PreferencesRegistry;
use crate::registry::TypePath;
use crate::registry::spec_effective_path;
use crate::value::Value;
use crate::value::ValueView;

verus! {

/// The in-memory store: one value per effective type identifier, ordered by
/// identifier.
pub struct PreferencesMap {
    entries: Vec<(Vec<u8>, Value)>,
}

impl View for PreferencesMap {
    type V = Seq<(Seq<u8>, ValueView)>;

    closed spec fn view(&self) -> Seq<(Seq<u8>, ValueView)> {
        entry_views(self.entries@)
    }
}

impl PreferencesMap {
    /// Entries are sorted strictly by key: deterministic order, no
    /// duplicate identifiers.
    pub open spec fn wf(self) -> bool {
        entries_sorted(self@)
    }

    /// The key a type resolves to under this registry.
    pub open spec fn spec_key(registry: PreferencesRegistry, path: TypePath) -> Seq<u8> {
        spec_effective_path(registry@, path@)->Some_0
    }

    /// An empty store.
    pub fn empty() -> (r: PreferencesMap)
        ensures
            r@ =~= Seq::<(Seq<u8>, ValueView)>::empty(),
            r.wf(),
    {
        PreferencesMap { entries: Vec::new() }
    }

    /// How many entries the store holds.
    pub fn len(&self) -> (n: usize)
        ensures
            n == self@.len(),
    {
        self.entries.len()
    }

    /// Whether the store holds no entry.
    pub fn is_empty(&self) -> (r: bool)
        ensures
            r == (self@.len() == 0),
    {
        self.entries.is_empty()
    }

    /// The entry at an index, in identifier order.
    pub fn entry_at(&self, i: usize) -> (r: &(Vec<u8>, Value))
        requires
            i < self@.len(),
        ensures
            r.0@ == self@[i as int].0,
            r.1@ == self@[i as int].1,
    {
        &self.entries[i]
    }

    /// The entries in identifier order; the iteration surface of the store.
    pub fn iter_entries(&self) -> (r: &Vec<(Vec<u8>, Value)>)
        ensures
            entry_views(r@) == self@,
    {
        &self.entries
    }

    /// Sets the entry for this type, overwriting any previous one. The type
    /// must be registered; looking up an unregistered type is a wiring bug,
    /// not a data error.
    pub fn set(&mut self, registry: &PreferencesRegistry, path: &TypePath, value: Value)
        requires
            old(self).wf(),
            spec_effective_path(registry@, path@) is Some,
        ensures
            final(self).wf(),
            spec_get(final(self)@, Self::spec_key(*registry, *path)) == Option::Some(value@),
            forall|k2: Seq<u8>|
                k2 != Self::spec_key(*registry, *path) ==> spec_get(final(self)@, k2) == spec_get(
                    old(self)@,
                    k2,
                ),
            has_key(old(self)@, Self::spec_key(*registry, *path)) ==> final(self)@.len() == old(
                self,
            )@.len(),
            !has_key(old(self)@, Self::spec_key(*registry, *path)) ==> final(self)@.len() == old(
                self,
            )@.len() + 1,
    {
        let key = match registry.effective_type_path(path) {
            Option::Some(k) => k,
            Option::None => {
                proof {
                    assert(false);
                }
                vstd::pervasive::unreached()
            },
        };
        crate::entries::insert_entry(&mut self.entries, key, value);
    }

    /// Sets the entry for this type from a value of unknown provenance: the
    /// value is first coerced against the type's registered default, so a
    /// drifted shape degrades gracefully instead of corrupting the store.
    pub fn set_dyn(&mut self, registry: &PreferencesRegistry, path: &TypePath, value: Value)
        requires
            old(self).wf(),
            registry.wf(),
            spec_effective_path(registry@, path@) is Some,
        ensures
            final(self).wf(),
            spec_get(final(self)@, Self::spec_key(*registry, *path)) == Option::Some(
                crate::coerce::spec_coerce(
                    registry@[crate::registry::index_of_full(registry@, path@.full)].default,
                    value@,
                ),
            ),
            forall|k2: Seq<u8>|
                k2 != Self::spec_key(*registry, *path) ==> spec_get(final(self)@, k2) == spec_get(
                    old(self)@,
                    k2,
                ),
    {
        proof {
            crate::registry::lemma_effective_implies_registered(registry@, path@);
        }
        let idx = match registry.find_full(&path.full) {
            Option::Some(i) => i,
            Option::None => {
                proof {
                    assert(false);
                }
                vstd::pervasive::unreached()
            },
        };
        proof {
            let w = crate::registry::index_of_full(registry@, path@.full);
            assert(0 <= w < registry@.len() && registry@[w].full == path@.full);
            assert(w == idx as int);
        }
        let coerced = crate::coerce::coerce(&registry.entry_at(idx).default, &value);
        self.set(registry, path, coerced);
    }

    /// The entry stored for this type, if any.
    pub fn get<'a>(&'a self, registry: &PreferencesRegistry, path: &TypePath) -> (r: Option<
        &'a Value,
    >)
        requires
            self.wf(),
            spec_effective_path(registry@, path@) is Some,
        ensures
            match r {
                Option::Some(v) => spec_get(self@, Self::spec_key(*registry, *path))
                    == Option::Some(v@),
                Option::None => spec_get(self@, Self::spec_key(*registry, *path)) is None,
            },
    {
        let key = match registry.effective_type_path(path) {
            Option::Some(k) => k,
            Option::None => {
                proof {
                    assert(false);
                }
                vstd::pervasive::unreached()
            },
        };
        match crate::entries::find_entry(&self.entries, &key) {
            Option::Some(i) => Option::Some(&self.entries[i].1),
            Option::None => Option::None,
        }
    }

    /// A mutable borrow of the entry stored for this type, if any. The new
    /// store holds whatever the caller leaves behind the borrow, under the
    /// same key.
    pub fn get_mut<'a>(&'a mut self, registry: &PreferencesRegistry, path: &TypePath) -> (r: Option<
        &'a mut Value,
    >)
        requires
            old(self).wf(),
            spec_effective_path(registry@, path@) is Some,
        ensures
            match r {
                Option::Some(v) => {
                    &&& spec_get(old(self)@, Self::spec_key(*registry, *path)) == Option::Some(
                        (*v)@,
                    )
                    &&& final(self)@ =~= old(self)@.update(
                        key_index(old(self)@, Self::spec_key(*registry, *path)),
                        (Self::spec_key(*registry, *path), (*final(v))@),
                    )
                    &&& final(self).wf()
                },
                Option::None => final(self)@ == old(self)@ && final(self).wf() && spec_get(
                    old(self)@,
                    Self::spec_key(*registry, *path),
                ) is None,
            },
    {
        let ghost s0 = self@;
        let key = match registry.effective_type_path(path) {
            Option::Some(k) => k,
            Option::None => {
                proof {
                    assert(false);
                }
                vstd::pervasive::unreached()
            },
        };
        match crate::entries::find_entry(&self.entries, &key) {
            Option::Some(i) => {
                proof {
                    crate::entries::lemma_sorted_key_unique(s0);
                    assert(s0[i as int].0 == key@);
                    assert(has_key(s0, key@));
                    let w = key_index(s0, key@);
                    assert(0 <= w < s0.len() && s0[w].0 == key@);
                    assert(w == i as int);
                    assert forall|vv: ValueView| entries_sorted(
                        s0.update(i as int, (key@, vv)),
                    ) by {
                        let t = s0.update(i as int, (key@, vv));
                        assert(forall|p: int| 0 <= p < t.len() ==> t[p].0 == s0[p].0);
                    }
                }
                let e = &mut self.entries[i];
                let r = &mut e.1;
                Option::Some(r)
            },
            Option::None => Option::None,
        }
    }

    /// A mutable borrow of the entry stored for this type, inserting the
    /// type's registered default first when the store has no entry yet.
    pub fn get_mut_or_default<'a>(
        &'a mut self,
        registry: &PreferencesRegistry,
        path: &TypePath,
    ) -> (r: &'a mut Value)
        requires
            old(self).wf(),
            registry.wf(),
            spec_effective_path(registry@, path@) is Some,
        ensures
            (*r)@ == (match spec_get(old(self)@, Self::spec_key(*registry, *path)) {
                Option::Some(v) => v,
                Option::None => registry@[crate::registry::index_of_full(
                    registry@,
                    path@.full,
                )].default,
            }),
            final(self).wf(),
            spec_get(final(self)@, Self::spec_key(*registry, *path)) == Option::Some(
                (*final(r))@,
            ),
            forall|k2: Seq<u8>|
                k2 != Self::spec_key(*registry, *path) ==> spec_get(final(self)@, k2) == spec_get(
                    old(self)@,
                    k2,
                ),
    {
        let ghost k = Self::spec_key(*registry, *path);
        let present = match self.get(registry, path) {
            Option::Some(_) => true,
            Option::None => false,
        };
        if !present {
            proof {
                crate::registry::lemma_effective_implies_registered(registry@, path@);
            }
            let idx = match registry.find_full(&path.full) {
                Option::Some(i) => i,
                Option::None => {
                    proof {
                        assert(false);
                    }
                    vstd::pervasive::unreached()
                },
            };
            proof {
                let w = crate::registry::index_of_full(registry@, path@.full);
                assert(0 <= w < registry@.len() && registry@[w].full == path@.full);
                assert(w == idx as int);
            }
            let d = registry.entry_at(idx).default.deep_clone();
            self.set(registry, path, d);
        }
        proof {
            assert(has_key(self@, k));
            crate::entries::lemma_sorted_key_unique(self@);
            let w = key_index(self@, k);
            assert(0 <= w < self@.len() && self@[w].0 == k);
            assert forall|vv: ValueView|
                {
                    &&& entries_sorted(self@.update(w, (k, vv)))
                    &&& spec_get(self@.update(w, (k, vv)), k) == Option::Some(vv)
                    &&& forall|k2: Seq<u8>|
                        k2 != k ==> spec_get(self@.update(w, (k, vv)), k2) == spec_get(self@, k2)
                } by {
                crate::entries::lemma_replace_at(self@, w, vv);
            }
        }
        match self.get_mut(registry, path) {
            Option::Some(r) => r,
            Option::None => {
                proof {
                    assert(false);
                }
                vstd::pervasive::unreached()
            },
        }
    }

    /// Removes and returns the entry stored for this type, if any.
    pub fn take(&mut self, registry: &PreferencesRegistry, path: &TypePath) -> (r: Option<Value>)
        requires
            old(self).wf(),
            spec_effective_path(registry@, path@) is Some,
        ensures
            final(self).wf(),
            spec_get(final(self)@, Self::spec_key(*registry, *path)) is None,
            forall|k2: Seq<u8>|
                k2 != Self::spec_key(*registry, *path) ==> spec_get(final(self)@, k2) == spec_get(
                    old(self)@,
                    k2,
                ),
            match r {
                Option::Some(v) => spec_get(old(self)@, Self::spec_key(*registry, *path))
                    == Option::Some(v@) && final(self)@.len() + 1 == old(self)@.len(),
                Option::None => spec_get(old(self)@, Self::spec_key(*registry, *path)) is None
                    && final(self)@ == old(self)@,
            },
    {
        let key = match registry.effective_type_path(path) {
            Option::Some(k) => k,
            Option::None => {
                proof {
                    assert(false);
                }
                vstd::pervasive::unreached()
            },
        };
        crate::entries::remove_entry(&mut self.entries, &key)
    }

    /// Structural equality: same identifiers bound to structurally equal
    /// values.
    pub fn deep_eq(&self, other: &PreferencesMap) -> (r: bool)
        ensures
            r == (self@ == other@),
    {
        if self.entries.len() != other.entries.len() {
            proof {
                assert(self@.len() == self.entries@.len());
                assert(other@.len() == other.entries@.len());
            }
            return false;
        }
        let n = self.entries.len();
        let mut i: usize = 0;
        while i < n
            invariant
                n == self.entries@.len(),
                n == other.entries@.len(),
                i <= n,
                forall|j: int| 0 <= j < i ==> self@[j] == other@[j],
            decreases n - i,
        {
            if !crate::order::bytes_eq(&self.entries[i].0, &other.entries[i].0) {
                proof {
                    assert(self@[i as int].0 != other@[i as int].0);
                }
                return false;
            }
            if !self.entries[i].1.deep_eq(&other.entries[i].1) {
                proof {
                    assert(self@[i as int].1 != other@[i as int].1);
                }
                return false;
            }
            proof {
                assert(self@[i as int] == other@[i as int]);
            }
            i = i + 1;
        }
        proof {
            assert(self@ =~= other@);
        }
        true
    }

    /// An owned copy with the same contents.
    pub fn deep_clone(&self) -> (r: PreferencesMap)
        ensures
            r@ == self@,
            self.wf() ==> r.wf(),
    {
        let mut out: Vec<(Vec<u8>, Value)> = Vec::new();
        let n = self.entries.len();
        let mut i: usize = 0;
        while i < n
            invariant
                n == self.entries@.len(),
                i <= n,
                out@.len() == i,
                forall|j: int| 0 <= j < i ==> entry_views(out@)[j] == self@[j],
            decreases n - i,
        {
            let k = crate::value::clone_bytes(&self.entries[i].0);
            let v = self.entries[i].1.deep_clone();
            out.push((k, v));
            i = i + 1;
        }
        let r = PreferencesMap { entries: out };
        proof {
            assert(r@ =~= self@);
        }
        r
    }
}

} // verus!
