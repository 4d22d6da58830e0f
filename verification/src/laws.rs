//! The library's global laws.
//!
//! These proof functions state, over the same specifications the public
//! contracts use, the properties that hold across several operations:
//! round-tripping a store through the codec, how ambiguous short paths pick
//! document keys, and how partial application repairs a drifted table.

use vstd::prelude::*;

use crate::codec::reg_effective_key;
use crate::codec::spec_deserialize_get;
use crate::coerce::spec_coerce;
use crate::coerce::spec_shape_matches;
use crate::coerce::table_field;
use crate::entries::entries_sorted;
use crate::entries::spec_get;
use crate::registry::RegistrationView;
use crate::registry::no_short_shadows_full;
use crate::registry::short_witness;
use crate::registry::spec_resolve_key;
use crate::value::ValueView;

verus! {

/// Every store entry sits under the effective key of a registration that
/// recognizes it: the key resolves back to that registration, and the value
/// has the registered shape. A store built through typed `set` calls on
/// registered types is in this relation whenever short paths do not
/// masquerade as full paths.
pub open spec fn store_matches_registry(
    regs: Seq<RegistrationView>,
    s: Seq<(Seq<u8>, ValueView)>,
) -> bool {
    forall|j: int|
        0 <= j < s.len() ==> exists|i: int|
            {
                &&& 0 <= i < regs.len()
                &&& spec_resolve_key(regs, (#[trigger] s[j]).0) == Option::Some(i)
                &&& reg_effective_key(regs, i) == s[j].0
                &&& spec_shape_matches(s[j].1, regs[i].default)
            }
}

/// Round trip: deserializing a serialized store yields the store back,
/// entry for entry. Serialization hands the store's entries over unchanged,
/// so this says that deserializing the store's own entry list reproduces
/// exactly the store's lookup function.
pub proof fn lemma_round_trip(regs: Seq<RegistrationView>, s: Seq<(Seq<u8>, ValueView)>)
    requires
        entries_sorted(s),
        store_matches_registry(regs, s),
    ensures
        forall|k: Seq<u8>| spec_deserialize_get(regs, s, k) == spec_get(s, k),
    decreases s.len(),
{
    if s.len() == 0 {
        assert forall|k: Seq<u8>| spec_deserialize_get(regs, s, k) == spec_get(s, k) by {
            assert(!crate::entries::has_key(s, k));
        }
    } else {
        let last = s.len() - 1;
        let e = s[last];
        let i = choose|i: int|
            {
                &&& 0 <= i < regs.len()
                &&& spec_resolve_key(regs, e.0) == Option::Some(i)
                &&& reg_effective_key(regs, i) == e.0
                &&& spec_shape_matches(e.1, regs[i].default)
            };
        assert(spec_resolve_key(regs, e.0) == Option::Some(i));
        let rest = s.drop_last();
        assert(forall|j: int| 0 <= j < rest.len() ==> rest[j] == s[j]);
        lemma_round_trip(regs, rest);
        assert(rest =~= s.remove(last));
        crate::entries::lemma_remove_at(s, last);
        assert forall|k: Seq<u8>| spec_deserialize_get(regs, s, k) == spec_get(s, k) by {
            if k == e.0 {
                assert(spec_deserialize_get(regs, s, k) == Option::Some(
                    spec_coerce(regs[i].default, e.1),
                ));
                assert(spec_coerce(regs[i].default, e.1) == e.1);
                crate::entries::lemma_get_by_witness(s, last);
            } else {
                assert(spec_deserialize_get(regs, s, k) == spec_deserialize_get(regs, rest, k));
                assert(spec_get(s.remove(last), k) == spec_get(s, k));
            }
        }
    }
}

/// In a registry without shadowed names, every registration's effective
/// document key resolves back to that very registration.
pub proof fn lemma_effective_key_resolves_back(regs: Seq<RegistrationView>, i: int)
    requires
        crate::registry::full_paths_unique(regs),
        no_short_shadows_full(regs),
        0 <= i < regs.len(),
    ensures
        spec_resolve_key(regs, reg_effective_key(regs, i)) == Option::Some(i),
{
    crate::codec::lemma_reg_path_resolves(regs, i);
    let path = crate::codec::reg_path(regs, i);
    if crate::registry::unique_short_match(regs, path.full, path.short) {
        let w = crate::registry::unique_short_index(regs, path.short);
        assert(short_witness(regs, path.short, w));
        assert(w == i);
        assert(reg_effective_key(regs, i) == path.short);
    } else {
        assert(reg_effective_key(regs, i) == path.full);
        if crate::registry::has_unique_short(regs, path.full) {
            let w = crate::registry::unique_short_index(regs, path.full);
            assert(short_witness(regs, path.full, w));
            assert(regs[w].short == regs[i].full);
            assert(false);
        }
        assert(crate::registry::contains_full(regs, path.full));
        let w = crate::registry::index_of_full(regs, path.full);
        assert(0 <= w < regs.len() && regs[w].full == path.full);
        assert(w == i);
    }
}

/// In a registry without shadowed names, no two registrations share an
/// effective document key: each type owns its own document entry.
pub proof fn lemma_effective_keys_distinct(regs: Seq<RegistrationView>)
    requires
        crate::registry::full_paths_unique(regs),
        no_short_shadows_full(regs),
    ensures
        crate::plugin::distinct_effective_keys(regs),
{
    assert forall|i: int, j: int|
        0 <= i < regs.len() && 0 <= j < regs.len() && i != j implies reg_effective_key(regs, i)
        != reg_effective_key(regs, j) by {
        lemma_effective_key_resolves_back(regs, i);
        lemma_effective_key_resolves_back(regs, j);
    }
}

/// Round trip under the natural hypotheses: a sorted store whose entries
/// sit under effective keys of registrations their values shape-match, in
/// a registry without shadowed names, deserializes from its own serialized
/// form back to exactly itself.
pub proof fn lemma_round_trip_for_registered_store(
    regs: Seq<RegistrationView>,
    s: Seq<(Seq<u8>, ValueView)>,
)
    requires
        entries_sorted(s),
        crate::registry::full_paths_unique(regs),
        no_short_shadows_full(regs),
        forall|j: int|
            0 <= j < s.len() ==> exists|i: int|
                0 <= i < regs.len() && (#[trigger] s[j]).0 == reg_effective_key(regs, i)
                    && spec_shape_matches(s[j].1, regs[i].default),
    ensures
        forall|k: Seq<u8>| spec_deserialize_get(regs, s, k) == spec_get(s, k),
{
    assert forall|j: int| 0 <= j < s.len() implies exists|i: int|
        {
            &&& 0 <= i < regs.len()
            &&& spec_resolve_key(regs, (#[trigger] s[j]).0) == Option::Some(i)
            &&& reg_effective_key(regs, i) == s[j].0
            &&& spec_shape_matches(s[j].1, regs[i].default)
        } by {
        let i = choose|i: int|
            0 <= i < regs.len() && s[j].0 == reg_effective_key(regs, i) && spec_shape_matches(
                s[j].1,
                regs[i].default,
            );
        lemma_effective_key_resolves_back(regs, i);
    }
    lemma_round_trip(regs, s);
}

/// Ambiguity resolution, collision case: when two registered types share a
/// short path, each serializes under its own full path, so the two document
/// keys stay distinct.
pub proof fn lemma_shared_short_uses_full_paths(regs: Seq<RegistrationView>, i: int, j: int)
    requires
        0 <= i < regs.len(),
        0 <= j < regs.len(),
        i != j,
        regs[i].short == regs[j].short,
        regs[i].full != regs[j].full,
    ensures
        reg_effective_key(regs, i) == regs[i].full,
        reg_effective_key(regs, j) == regs[j].full,
        reg_effective_key(regs, i) != reg_effective_key(regs, j),
{
    lemma_shared_short_one_side(regs, i, j);
    lemma_shared_short_one_side(regs, j, i);
}

/// One side of the collision case: a type whose short path some other
/// registration also bears keys under its full path.
proof fn lemma_shared_short_one_side(regs: Seq<RegistrationView>, i: int, j: int)
    requires
        0 <= i < regs.len(),
        0 <= j < regs.len(),
        i != j,
        regs[i].short == regs[j].short,
    ensures
        reg_effective_key(regs, i) == regs[i].full,
{
    let short = regs[i].short;
    if crate::registry::has_unique_short(regs, short) {
        let w = crate::registry::unique_short_index(regs, short);
        assert(short_witness(regs, short, w));
        assert(i == w && j == w);
        assert(false);
    }
    assert(crate::registry::contains_full(regs, regs[i].full));
}

/// Ambiguity resolution, singleton case: a type whose short path no other
/// registration bears serializes under the short path, keeping the common
/// case human-readable.
pub proof fn lemma_unshared_short_uses_short_path(regs: Seq<RegistrationView>, i: int)
    requires
        0 <= i < regs.len(),
        forall|j: int| 0 <= j < regs.len() && j != i ==> regs[j].short != regs[i].short,
    ensures
        reg_effective_key(regs, i) == regs[i].short,
{
    assert(short_witness(regs, regs[i].short, i));
    assert(crate::registry::has_unique_short(regs, regs[i].short));
    let w = crate::registry::unique_short_index(regs, regs[i].short);
    assert(short_witness(regs, regs[i].short, w));
    assert(w == i);
    assert(crate::registry::unique_short_match(regs, regs[i].full, regs[i].short));
}

/// Schema drift: a table whose shape drifted from the registration — extra
/// unknown fields, missing recognized ones, in any order — coerces to the
/// default with exactly the recognized fields overwritten. Unknown incoming
/// fields are dropped, missing recognized fields keep the default, and the
/// result keeps the default's field layout.
pub proof fn lemma_partial_apply(
    dfs: Seq<(Seq<u8>, ValueView)>,
    vfs: Seq<(Seq<u8>, ValueView)>,
)
    requires
        !spec_shape_matches(ValueView::Table(vfs), ValueView::Table(dfs)),
    ensures
        spec_coerce(ValueView::Table(dfs), ValueView::Table(vfs)) is Table,
        spec_coerce(ValueView::Table(dfs), ValueView::Table(vfs))->Table_0.len() == dfs.len(),
        forall|i: int|
            0 <= i < dfs.len() ==> (#[trigger] spec_coerce(
                ValueView::Table(dfs),
                ValueView::Table(vfs),
            )->Table_0[i]) == (
            dfs[i].0,
            match table_field(vfs, dfs[i].0) {
                Option::Some(fv) => spec_coerce(dfs[i].1, fv),
                Option::None => dfs[i].1,
            },
            ),
{
}

} // verus!
