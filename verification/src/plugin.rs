//! The load and save flow.
//!
//! At startup the backend's outcome is folded into a store: a loaded
//! document is deserialized, a missing document loads as empty, and every
//! registered type missing from the result is populated from its
//! registered default. Each tick thereafter the save decision is made by
//! the debounced scheduler, and a triggered save serializes the store into
//! the document handed to the backend.

use vstd::prelude::*;

use crate::codec::Document;
use crate::codec::reg_effective_key;
use crate::codec::spec_deserialize_get;
use crate::entries::spec_get;
use crate::error::PreferencesError;
use crate::map::PreferencesMap;
use crate::registry::PreferencesRegistry;
use crate::registry::RegistrationView;
use crate::resource::PreferencesResource;
use crate::scheduler::SaveScheduler;
use crate::value::ValueView;

verus! {

/// Some registration's effective key is this key.
pub open spec fn is_effective_key(regs: Seq<RegistrationView>, k: Seq<u8>) -> bool {
    exists|i: int| 0 <= i < regs.len() && reg_effective_key(regs, i) == k
}

/// The registration whose effective key is this key.
pub open spec fn effective_key_reg(regs: Seq<RegistrationView>, k: Seq<u8>) -> int {
    choose|i: int| 0 <= i < regs.len() && reg_effective_key(regs, i) == k
}

/// No two registrations share an effective document key. Short paths never
/// collide with full paths in practice; a configuration where they do is
/// the order-dependent ambiguity the design treats as a wiring error.
pub open spec fn distinct_effective_keys(regs: Seq<RegistrationView>) -> bool {
    forall|i: int, j: int|
        0 <= i < regs.len() && 0 <= j < regs.len() && i != j ==> reg_effective_key(regs, i)
            != reg_effective_key(regs, j)
}

/// What the store holds for a key after a load: the deserialized document
/// entry when there is one, else the registered default when the key is
/// some registration's effective key, else nothing.
pub open spec fn spec_loaded_get(
    regs: Seq<RegistrationView>,
    doc: Seq<(Seq<u8>, ValueView)>,
    k: Seq<u8>,
) -> Option<ValueView> {
    match spec_deserialize_get(regs, doc, k) {
        Option::Some(v) => Option::Some(v),
        Option::None => {
            if is_effective_key(regs, k) {
                Option::Some(regs[effective_key_reg(regs, k)].default)
            } else {
                Option::None
            }
        },
    }
}

/// The document a load works from: the loaded one, or an empty document
/// when the backend reported that none exists or failed.
pub open spec fn spec_loaded_doc(loaded: Result<Document, PreferencesError>) -> Seq<
    (Seq<u8>, ValueView),
> {
    match loaded {
        Result::Ok(doc) => doc@,
        Result::Err(_) => Seq::empty(),
    }
}

/// Builds the startup store from the backend's outcome. A missing or
/// unreadable document degrades to an empty one; every registered type
/// absent from the deserialized result is populated from its registered
/// default; reported issues never abort the load. A backend that merely
/// found no document (first run) is not an issue.
pub fn load_preferences(
    registry: &PreferencesRegistry,
    loaded: Result<Document, PreferencesError>,
) -> (r: (PreferencesMap, Vec<PreferencesError>))
    requires
        registry.wf(),
        distinct_effective_keys(registry@),
        loaded matches Result::Ok(doc) ==> doc.wf(),
    ensures
        r.0.wf(),
        forall|k: Seq<u8>|
            spec_get(r.0@, k) == spec_loaded_get(registry@, spec_loaded_doc(loaded), k),
        loaded matches Result::Err(e) ==> (if e is NotFound {
            r.1@.len() == 0
        } else {
            r.1@ =~= seq![e]
        }),
{
    let ghost base = spec_loaded_doc(loaded);
    let (mut map, issues) = match loaded {
        Result::Ok(doc) => crate::codec::deserialize(registry, &doc),
        Result::Err(e) => {
            let m = PreferencesMap::empty();
            let mut is: Vec<PreferencesError> = Vec::new();
            if !e.is_not_found() {
                is.push(e);
            }
            proof {
                assert(forall|k: Seq<u8>| spec_get(m@, k) is None);
                assert(forall|k: Seq<u8>| spec_deserialize_get(registry@, base, k) is None);
            }
            (m, is)
        },
    };
    let n = registry.len();
    let mut i: usize = 0;
    while i < n
        invariant
            registry.wf(),
            distinct_effective_keys(registry@),
            n == registry@.len(),
            i <= n,
            map.wf(),
            forall|k: Seq<u8>|
                (forall|j: int| 0 <= j < i ==> reg_effective_key(registry@, j) != k) ==> spec_get(
                    map@,
                    k,
                ) == spec_deserialize_get(registry@, base, k),
            forall|j: int|
                0 <= j < i ==> spec_get(map@, #[trigger] reg_effective_key(registry@, j)) == (
                match spec_deserialize_get(registry@, base, reg_effective_key(registry@, j)) {
                    Option::Some(v) => Option::Some(v),
                    Option::None => Option::Some(registry@[j].default),
                }),
        decreases n - i,
    {
        let tp = registry.entry_at(i).type_path.deep_clone();
        proof {
            crate::codec::lemma_reg_path_resolves(registry@, i as int);
            assert(tp@ == crate::codec::reg_path(registry@, i as int));
            assert(PreferencesMap::spec_key(*registry, tp) == reg_effective_key(
                registry@,
                i as int,
            ));
        }
        let present = match map.get(registry, &tp) {
            Option::Some(_) => true,
            Option::None => false,
        };
        if !present {
            let d = registry.entry_at(i).default.deep_clone();
            map.set(registry, &tp, d);
        }
        i = i + 1;
    }
    proof {
        assert forall|k: Seq<u8>|
            spec_get(map@, k) == spec_loaded_get(registry@, base, k) by {
            if is_effective_key(registry@, k) {
                let w = effective_key_reg(registry@, k);
                assert(0 <= w < registry@.len() && reg_effective_key(registry@, w) == k);
            } else {
                assert(forall|j: int|
                    0 <= j < registry@.len() ==> reg_effective_key(registry@, j) != k);
            }
        }
    }
    (map, issues)
}

/// One scheduling step at the end of a tick: consults the debounced
/// scheduler and, when a save is due, serializes the store into the
/// document to hand to the backend. Nothing changes here: the caller runs
/// the backend's save and acknowledges success through
/// [`SaveScheduler::confirm_saved`] — only that moves the markers, so a
/// failed save leaves the store dirty and this function orders the same
/// save again on the next tick.
pub fn save_preferences(
    scheduler: &SaveScheduler,
    resource: &PreferencesResource,
    now: u64,
    shutting_down: bool,
) -> (d: Option<Document>)
    requires
        now >= scheduler.last_save_time,
        resource.wf(),
    ensures
        (d is Some) == scheduler.spec_should_save(resource.spec_counter(), now, shutting_down),
        d matches Option::Some(doc) ==> doc@ == resource.spec_map()@ && doc.wf(),
{
    let counter = resource.change_counter();
    if scheduler.should_save(counter, now, shutting_down) {
        Option::Some(crate::codec::serialize(resource.map()))
    } else {
        Option::None
    }
}

} // verus!
