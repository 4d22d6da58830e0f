//! The registry-driven codec.
//!
//! Serialization turns the store into a document: an ordered mapping from
//! effective type identifier to that type's value. Deserialization walks a
//! document, resolves each key through the registry (short path first, then
//! full path), coerces each value against the registered default, and drops
//! only the entries whose identifier no registration recognizes — one bad
//! entry never aborts the rest of the load.

use vstd::prelude::*;

use crate::entries::entries_sorted;
use crate::entries::entry_views;
use crate::entries::spec_get;
use crate::error::PreferencesError;
use crate::map::PreferencesMap;
use crate::registry::PreferencesRegistry;
use crate::registry::RegistrationView;
use crate::registry::TypePathView;
use crate::registry::spec_effective_path;
use crate::registry::spec_resolve_key;
use crate::value::Value;
use crate::value::ValueView;

verus! {

/// The on-the-wire form of the store: an ordered mapping from type
/// identifier to serialized value, sorted by identifier so output is
/// diff-stable.
pub struct Document {
    entries: Vec<(Vec<u8>, Value)>,
}

impl View for Document {
    type V = Seq<(Seq<u8>, ValueView)>;

    closed spec fn view(&self) -> Seq<(Seq<u8>, ValueView)> {
        entry_views(self.entries@)
    }
}

impl Document {
    /// Entries are sorted strictly by key.
    pub open spec fn wf(self) -> bool {
        entries_sorted(self@)
    }

    /// An empty document.
    pub fn empty() -> (r: Document)
        ensures
            r@ =~= Seq::<(Seq<u8>, ValueView)>::empty(),
            r.wf(),
    {
        Document { entries: Vec::new() }
    }

    /// How many entries the document holds.
    pub fn len(&self) -> (n: usize)
        ensures
            n == self@.len(),
    {
        self.entries.len()
    }

    /// The entry at an index, in identifier order.
    pub fn entry_at(&self, i: usize) -> (r: &(Vec<u8>, Value))
        requires
            i < self@.len(),
        ensures
            r.0@ == self@[i as int].0,
            r.1@ == self@[i as int].1,
    {
        &self.entries[i]
    }

    /// Sets the entry for a key, overwriting any previous one and keeping
    /// the document ordered.
    pub fn insert(&mut self, key: Vec<u8>, value: Value)
        requires
            old(self).wf(),
        ensures
            final(self).wf(),
            spec_get(final(self)@, key@) == Option::Some(value@),
            forall|k2: Seq<u8>|
                k2 != key@ ==> spec_get(final(self)@, k2) == spec_get(old(self)@, k2),
    {
        crate::entries::insert_entry(&mut self.entries, key, value);
    }

    /// The value stored under a key, if any.
    pub fn get<'a>(&'a self, key: &Vec<u8>) -> (r: Option<&'a Value>)
        requires
            self.wf(),
        ensures
            match r {
                Option::Some(v) => spec_get(self@, key@) == Option::Some(v@),
                Option::None => spec_get(self@, key@) is None,
            },
    {
        match crate::entries::find_entry(&self.entries, key) {
            Option::Some(i) => Option::Some(&self.entries[i].1),
            Option::None => Option::None,
        }
    }

    /// Structural equality: same identifiers bound to structurally equal
    /// values, in the same order.
    pub fn deep_eq(&self, other: &Document) -> (r: bool)
        ensures
            r == (self@ == other@),
    {
        if self.entries.len() != other.entries.len() {
            proof {
                assert(self@.len() == self.entries@.len());
                assert(other@.len() == other.entries@.len());
            }
            return false;
        }
        let n = self.entries.len();
        let mut i: usize = 0;
        while i < n
            invariant
                n == self.entries@.len(),
                n == other.entries@.len(),
                i <= n,
                forall|j: int| 0 <= j < i ==> self@[j] == other@[j],
            decreases n - i,
        {
            if !crate::order::bytes_eq(&self.entries[i].0, &other.entries[i].0) {
                proof {
                    assert(self@[i as int].0 != other@[i as int].0);
                }
                return false;
            }
            if !self.entries[i].1.deep_eq(&other.entries[i].1) {
                proof {
                    assert(self@[i as int].1 != other@[i as int].1);
                }
                return false;
            }
            proof {
                assert(self@[i as int] == other@[i as int]);
            }
            i = i + 1;
        }
        proof {
            assert(self@ =~= other@);
        }
        true
    }
}

/// The identifier of registration `i` as stored in a type path view.
pub open spec fn reg_path(regs: Seq<RegistrationView>, i: int) -> TypePathView {
    TypePathView { full: regs[i].full, short: regs[i].short }
}

/// The effective document key of registration `i`.
pub open spec fn reg_effective_key(regs: Seq<RegistrationView>, i: int) -> Seq<u8> {
    spec_effective_path(regs, reg_path(regs, i))->Some_0
}

/// A registered type's own identifier always resolves to an effective key.
pub proof fn lemma_reg_path_resolves(regs: Seq<RegistrationView>, i: int)
    requires
        0 <= i < regs.len(),
    ensures
        spec_effective_path(regs, reg_path(regs, i)) is Some,
{
    if !crate::registry::unique_short_match(regs, regs[i].full, regs[i].short) {
        assert(regs[i].full == reg_path(regs, i).full);
        assert(crate::registry::contains_full(regs, reg_path(regs, i).full));
    }
}

/// What deserializing a document yields for one key: walking the document
/// from its last entry back, the first entry whose identifier resolves to a
/// registration with this effective key wins, coerced against that
/// registration's default.
pub open spec fn spec_deserialize_get(
    regs: Seq<RegistrationView>,
    doc: Seq<(Seq<u8>, ValueView)>,
    k: Seq<u8>,
) -> Option<ValueView>
    decreases doc.len(),
{
    if doc.len() == 0 {
        Option::None
    } else {
        match spec_resolve_key(regs, doc.last().0) {
            Option::Some(i) => {
                if reg_effective_key(regs, i) == k {
                    Option::Some(crate::coerce::spec_coerce(regs[i].default, doc.last().1))
                } else {
                    spec_deserialize_get(regs, doc.drop_last(), k)
                }
            },
            Option::None => spec_deserialize_get(regs, doc.drop_last(), k),
        }
    }
}

/// The document keys, in order, that no registration recognizes.
pub open spec fn spec_unresolved_keys(
    regs: Seq<RegistrationView>,
    doc: Seq<(Seq<u8>, ValueView)>,
) -> Seq<Seq<u8>>
    decreases doc.len(),
{
    if doc.len() == 0 {
        Seq::empty()
    } else {
        spec_unresolved_keys(regs, doc.drop_last()) + (
        if spec_resolve_key(regs, doc.last().0) is None {
            seq![doc.last().0]
        } else {
            Seq::empty()
        })
    }
}

/// Serializes the store into a document. Entries are already keyed by their
/// effective identifier and held in identifier order, so the document is
/// the store's contents, entry for entry.
pub fn serialize(map: &PreferencesMap) -> (d: Document)
    ensures
        d@ == map@,
        map.wf() ==> d.wf(),
{
    let src = map.iter_entries();
    let mut out: Vec<(Vec<u8>, Value)> = Vec::new();
    let n = src.len();
    let mut i: usize = 0;
    while i < n
        invariant
            n == src@.len(),
            entry_views(src@) == map@,
            i <= n,
            out@.len() == i,
            forall|j: int| 0 <= j < i ==> entry_views(out@)[j] == map@[j],
        decreases n - i,
    {
        let k = crate::value::clone_bytes(&src[i].0);
        let v = src[i].1.deep_clone();
        out.push((k, v));
        i = i + 1;
    }
    let d = Document { entries: out };
    proof {
        assert(d@ =~= map@);
    }
    d
}

/// Deserializes a document into a store. Each key is resolved through the
/// registry, short path first, then full path; the value is coerced against
/// the registered default; an unrecognized key fails only its own entry,
/// which is dropped and reported, never the rest of the document.
pub fn deserialize(registry: &PreferencesRegistry, doc: &Document) -> (r: (
    PreferencesMap,
    Vec<PreferencesError>,
))
    requires
        registry.wf(),
    ensures
        r.0.wf(),
        forall|k: Seq<u8>| spec_get(r.0@, k) == spec_deserialize_get(registry@, doc@, k),
        r.1@.len() == spec_unresolved_keys(registry@, doc@).len(),
        forall|j: int|
            0 <= j < r.1@.len() ==> ((#[trigger] r.1@[j]) matches PreferencesError::UnregisteredType(b) && b@
                == spec_unresolved_keys(registry@, doc@)[j]),
{
    let mut map = PreferencesMap::empty();
    let mut issues: Vec<PreferencesError> = Vec::new();
    let n = doc.len();
    let mut i: usize = 0;
    while i < n
        invariant
            registry.wf(),
            n == doc@.len(),
            i <= n,
            map.wf(),
            forall|k: Seq<u8>|
                spec_get(map@, k) == spec_deserialize_get(registry@, doc@.take(i as int), k),
            issues@.len() == spec_unresolved_keys(registry@, doc@.take(i as int)).len(),
            forall|j: int|
                0 <= j < issues@.len() ==> ((#[trigger] issues@[j]) matches PreferencesError::UnregisteredType(
                    b,
                ) && b@ == spec_unresolved_keys(registry@, doc@.take(i as int))[j]),
        decreases n - i,
    {
        let ghost prefix = doc@.take(i as int);
        let ghost stepped = doc@.take(i as int + 1);
        proof {
            assert(stepped.drop_last() =~= prefix);
            assert(stepped.last() == doc@[i as int]);
        }
        let entry = doc.entry_at(i);
        match registry.resolve_key(&entry.0) {
            Option::Some(idx) => {
                let tp = registry.entry_at(idx).type_path.deep_clone();
                proof {
                    lemma_reg_path_resolves(registry@, idx as int);
                    assert(tp@ == reg_path(registry@, idx as int));
                }
                let coerced = crate::coerce::coerce(&registry.entry_at(idx).default, &entry.1);
                map.set(registry, &tp, coerced);
                proof {
                    assert(spec_unresolved_keys(registry@, stepped) =~= spec_unresolved_keys(
                        registry@,
                        prefix,
                    ));
                }
            },
            Option::None => {
                issues.push(
                    PreferencesError::UnregisteredType(crate::value::clone_bytes(&entry.0)),
                );
                proof {
                    assert(spec_unresolved_keys(registry@, stepped) =~= spec_unresolved_keys(
                        registry@,
                        prefix,
                    ).push(doc@[i as int].0));
                }
            },
        }
        i = i + 1;
        proof {
            assert(doc@.take(i as int) == stepped);
        }
    }
    proof {
        assert(doc@.take(n as int) =~= doc@);
        assert(doc@.take(n as int) == doc@);
    }
    (map, issues)
}

} // verus!
