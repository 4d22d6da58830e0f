//! The shared preferences resource and the mutation guard.
//!
//! The store is a process-wide singleton mutated only through typed
//! accessors. Every mutation advances a monotonic change marker, which the
//! save scheduler compares against the marker at the last save. A mutation
//! scope is explicit: begin a mutation to get a guard over a copy of the
//! value, edit the copy, and commit the guard, which writes the copy back
//! and advances the marker exactly once.

use vstd::prelude::*;

use crate::entries::has_key;
use crate::entries::spec_get;
use crate::map::PreferencesMap;
use crate::registry::PreferencesRegistry;
use crate::registry::TypePath;
use crate::registry::spec_effective_path;
use crate::value::Value;

verus! {

/// The process-wide store together with its change marker.
pub struct PreferencesResource {
    map: PreferencesMap,
    change_counter: u64,
}

impl PreferencesResource {
    /// The store is well-formed.
    pub open spec fn wf(self) -> bool {
        self.spec_map().wf()
    }

    /// The store inside the resource.
    pub closed spec fn spec_map(self) -> PreferencesMap {
        self.map
    }

    /// The change marker: advanced by every mutation.
    pub closed spec fn spec_counter(self) -> u64 {
        self.change_counter
    }

    /// Wraps a loaded store; the marker starts at zero, so nothing is
    /// dirty until the first real mutation.
    pub fn new(map: PreferencesMap) -> (r: PreferencesResource)
        ensures
            r.spec_map() == map,
            r.spec_counter() == 0,
    {
        PreferencesResource { map, change_counter: 0 }
    }

    /// A read-only view of the store.
    pub fn map(&self) -> (r: &PreferencesMap)
        ensures
            *r == self.spec_map(),
    {
        &self.map
    }

    /// The current change marker.
    pub fn change_counter(&self) -> (r: u64)
        ensures
            r == self.spec_counter(),
    {
        self.change_counter
    }

    /// Sets the entry for a type and advances the change marker.
    pub fn set(&mut self, registry: &PreferencesRegistry, path: &TypePath, value: Value)
        requires
            old(self).wf(),
            old(self).spec_counter() < u64::MAX,
            spec_effective_path(registry@, path@) is Some,
        ensures
            final(self).wf(),
            final(self).spec_counter() == old(self).spec_counter() + 1,
            spec_get(final(self).spec_map()@, PreferencesMap::spec_key(*registry, *path))
                == Option::Some(value@),
            forall|k2: Seq<u8>|
                k2 != PreferencesMap::spec_key(*registry, *path) ==> spec_get(
                    final(self).spec_map()@,
                    k2,
                ) == spec_get(old(self).spec_map()@, k2),
    {
        self.map.set(registry, path, value);
        self.change_counter = self.change_counter + 1;
    }

    /// Removes and returns the entry for a type; removing an entry is a
    /// mutation, so it advances the change marker. Taking an absent entry
    /// changes nothing.
    pub fn take(&mut self, registry: &PreferencesRegistry, path: &TypePath) -> (r: Option<Value>)
        requires
            old(self).wf(),
            old(self).spec_counter() < u64::MAX,
            spec_effective_path(registry@, path@) is Some,
        ensures
            final(self).wf(),
            spec_get(final(self).spec_map()@, PreferencesMap::spec_key(*registry, *path)) is None,
            forall|k2: Seq<u8>|
                k2 != PreferencesMap::spec_key(*registry, *path) ==> spec_get(
                    final(self).spec_map()@,
                    k2,
                ) == spec_get(old(self).spec_map()@, k2),
            match r {
                Option::Some(v) => spec_get(
                    old(self).spec_map()@,
                    PreferencesMap::spec_key(*registry, *path),
                ) == Option::Some(v@) && final(self).spec_counter() == old(self).spec_counter()
                    + 1,
                Option::None => spec_get(
                    old(self).spec_map()@,
                    PreferencesMap::spec_key(*registry, *path),
                ) is None && final(self).spec_counter() == old(self).spec_counter()
                    && final(self).spec_map()@ == old(self).spec_map()@,
            },
    {
        let r = self.map.take(registry, path);
        match &r {
            Option::Some(_) => {
                self.change_counter = self.change_counter + 1;
            },
            Option::None => {},
        }
        r
    }

    /// A mutable borrow of the entry for a type, if any. Handing out the
    /// borrow is a mutation, so it advances the change marker; the new
    /// store holds whatever the caller leaves behind the borrow.
    pub fn get_mut<'a>(&'a mut self, registry: &PreferencesRegistry, path: &TypePath) -> (r: Option<
        &'a mut Value,
    >)
        requires
            old(self).wf(),
            old(self).spec_counter() < u64::MAX,
            spec_effective_path(registry@, path@) is Some,
        ensures
            match r {
                Option::Some(v) => {
                    &&& spec_get(
                        old(self).spec_map()@,
                        PreferencesMap::spec_key(*registry, *path),
                    ) == Option::Some((*v)@)
                    &&& final(self).spec_map()@ =~= old(self).spec_map()@.update(
                        crate::entries::key_index(
                            old(self).spec_map()@,
                            PreferencesMap::spec_key(*registry, *path),
                        ),
                        (PreferencesMap::spec_key(*registry, *path), (*final(v))@),
                    )
                    &&& final(self).wf()
                    &&& final(self).spec_counter() == old(self).spec_counter() + 1
                },
                Option::None => *final(self) == *old(self) && spec_get(
                    old(self).spec_map()@,
                    PreferencesMap::spec_key(*registry, *path),
                ) is None,
            },
    {
        let present = match self.map.get(registry, path) {
            Option::Some(_) => true,
            Option::None => false,
        };
        if !present {
            return Option::None;
        }
        self.change_counter = self.change_counter + 1;
        match self.map.get_mut(registry, path) {
            Option::Some(v) => Option::Some(v),
            Option::None => {
                proof {
                    assert(false);
                }
                vstd::pervasive::unreached()
            },
        }
    }

    /// A mutable borrow of the entry for a type, inserting the registered
    /// default first when the store has no entry yet; advances the change
    /// marker.
    pub fn get_mut_or_default<'a>(
        &'a mut self,
        registry: &PreferencesRegistry,
        path: &TypePath,
    ) -> (r: &'a mut Value)
        requires
            old(self).wf(),
            old(self).spec_counter() < u64::MAX,
            registry.wf(),
            spec_effective_path(registry@, path@) is Some,
        ensures
            (*r)@ == (match spec_get(
                old(self).spec_map()@,
                PreferencesMap::spec_key(*registry, *path),
            ) {
                Option::Some(v) => v,
                Option::None => registry@[crate::registry::index_of_full(
                    registry@,
                    path@.full,
                )].default,
            }),
            final(self).wf(),
            final(self).spec_counter() == old(self).spec_counter() + 1,
            spec_get(final(self).spec_map()@, PreferencesMap::spec_key(*registry, *path))
                == Option::Some((*final(r))@),
            forall|k2: Seq<u8>|
                k2 != PreferencesMap::spec_key(*registry, *path) ==> spec_get(
                    final(self).spec_map()@,
                    k2,
                ) == spec_get(old(self).spec_map()@, k2),
    {
        self.change_counter = self.change_counter + 1;
        self.map.get_mut_or_default(registry, path)
    }

    /// Begins a mutation scope for a type: hands out a guard over a copy
    /// of the stored value (or of the registered default when the store
    /// has no entry yet). Nothing changes until the guard is committed.
    pub fn mutate(&self, registry: &PreferencesRegistry, path: &TypePath) -> (g:
        MutatePreferencesGuard)
        requires
            self.wf(),
            registry.wf(),
            spec_effective_path(registry@, path@) is Some,
        ensures
            g.path@ == path@,
            match spec_get(self.spec_map()@, PreferencesMap::spec_key(*registry, *path)) {
                Option::Some(v) => g.value@ == v,
                Option::None => g.value@ == registry@[crate::registry::index_of_full(
                    registry@,
                    path@.full,
                )].default,
            },
    {
        let value = match self.map.get(registry, path) {
            Option::Some(v) => v.deep_clone(),
            Option::None => {
                proof {
                    crate::registry::lemma_effective_implies_registered(registry@, path@);
                }
                let idx = match registry.find_full(&path.full) {
                    Option::Some(i) => i,
                    Option::None => {
                        proof {
                            assert(false);
                        }
                        vstd::pervasive::unreached()
                    },
                };
                proof {
                    let w = crate::registry::index_of_full(registry@, path@.full);
                    assert(0 <= w < registry@.len() && registry@[w].full == path@.full);
                    assert(w == idx as int);
                }
                registry.entry_at(idx).default.deep_clone()
            },
        };
        MutatePreferencesGuard { path: path.deep_clone(), value }
    }
}

/// A mutation scope over one type's value: a copy to edit, committed back
/// into the resource exactly once. Committing consumes the guard, so a
/// scope cannot commit twice.
pub struct MutatePreferencesGuard {
    /// The identifier of the type under mutation.
    pub path: TypePath,
    /// The working copy being edited.
    pub value: Value,
}

impl MutatePreferencesGuard {
    /// The working copy, read-only.
    pub fn value(&self) -> (r: &Value)
        ensures
            r == &self.value,
    {
        &self.value
    }

    /// The working copy, for editing in place.
    pub fn value_mut(&mut self) -> (r: &mut Value)
        ensures
            *r == old(self).value,
            final(self).value == *final(r),
            final(self).path == old(self).path,
    {
        &mut self.value
    }

    /// Ends the mutation scope: writes the edited copy back into the
    /// resource and advances the change marker.
    pub fn commit(self, resource: &mut PreferencesResource, registry: &PreferencesRegistry)
        requires
            old(resource).wf(),
            old(resource).spec_counter() < u64::MAX,
            spec_effective_path(registry@, self.path@) is Some,
        ensures
            final(resource).wf(),
            final(resource).spec_counter() == old(resource).spec_counter() + 1,
            spec_get(final(resource).spec_map()@, PreferencesMap::spec_key(*registry, self.path))
                == Option::Some(self.value@),
            forall|k2: Seq<u8>|
                k2 != PreferencesMap::spec_key(*registry, self.path) ==> spec_get(
                    final(resource).spec_map()@,
                    k2,
                ) == spec_get(old(resource).spec_map()@, k2),
    {
        resource.set(registry, &self.path, self.value);
    }
}

} // verus!
