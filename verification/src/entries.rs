//! Sorted key/value entry lists.
//!
//! Both the in-memory store and the on-the-wire document are ordered
//! mappings from a byte-string key to a [`Value`], kept sorted by the
//! lexicographic key order with no duplicate keys. This module holds the
//! shared insert, lookup and remove machinery and its specification.

use vstd::prelude::*;
use vstd::seq_lib::group_seq_properties;

use crate::order::KeyOrder;
use crate::order::lex_lt;
use crate::value::Value;
use crate::value::ValueView;
use crate::value::value_view;

verus! {

/// The abstraction of an entry list: each entry as (key, value view).
pub open spec fn entry_views(s: Seq<(Vec<u8>, Value)>) -> Seq<(Seq<u8>, ValueView)> {
    Seq::new(
        s.len(),
        |i: int|
            if 0 <= i < s.len() {
                (s[i].0@, value_view(s[i].1))
            } else {
                (Seq::<u8>::empty(), ValueView::Bool(false))
            },
    )
}

/// Keys appear in strictly increasing lexicographic order.
pub open spec fn entries_sorted(s: Seq<(Seq<u8>, ValueView)>) -> bool {
    forall|i: int, j: int| 0 <= i < j < s.len() ==> lex_lt(s[i].0, s[j].0)
}

/// Some entry has this key.
pub open spec fn has_key(s: Seq<(Seq<u8>, ValueView)>, k: Seq<u8>) -> bool {
    exists|i: int| 0 <= i < s.len() && s[i].0 == k
}

/// The index of the entry with this key.
pub open spec fn key_index(s: Seq<(Seq<u8>, ValueView)>, k: Seq<u8>) -> int {
    choose|i: int| 0 <= i < s.len() && s[i].0 == k
}

/// The value stored under this key, if any.
pub open spec fn spec_get(s: Seq<(Seq<u8>, ValueView)>, k: Seq<u8>) -> Option<ValueView> {
    if has_key(s, k) {
        Option::Some(s[key_index(s, k)].1)
    } else {
        Option::None
    }
}

/// In a sorted entry list no key appears twice.
pub proof fn lemma_sorted_key_unique(s: Seq<(Seq<u8>, ValueView)>)
    requires
        entries_sorted(s),
    ensures
        forall|i: int, j: int|
            0 <= i < s.len() && 0 <= j < s.len() && s[i].0 == s[j].0 ==> i == j,
{
    assert forall|i: int, j: int|
        0 <= i < s.len() && 0 <= j < s.len() && s[i].0 == s[j].0 implies i == j by {
        if i < j {
            assert(lex_lt(s[i].0, s[j].0));
            crate::order::lemma_lex_trichotomy(s[i].0, s[j].0);
        } else if j < i {
            assert(lex_lt(s[j].0, s[i].0));
            crate::order::lemma_lex_trichotomy(s[j].0, s[i].0);
        }
    }
}

/// In a sorted entry list, the entry at a valid index is exactly what lookup
/// by its key returns.
pub proof fn lemma_get_by_witness(s: Seq<(Seq<u8>, ValueView)>, i: int)
    requires
        entries_sorted(s),
        0 <= i < s.len(),
    ensures
        spec_get(s, s[i].0) == Option::Some(s[i].1),
{
    lemma_sorted_key_unique(s);
    assert(has_key(s, s[i].0));
    let w = key_index(s, s[i].0);
    assert(0 <= w < s.len() && s[w].0 == s[i].0);
    assert(w == i);
}

/// The index of the entry with this key, if any. The list is scanned in
/// order, so the scan also witnesses where an absent key would go.
pub fn find_entry(list: &Vec<(Vec<u8>, Value)>, key: &Vec<u8>) -> (r: Option<usize>)
    requires
        entries_sorted(entry_views(list@)),
    ensures
        match r {
            Option::Some(i) => i < list@.len() && list@[i as int].0@ == key@ && spec_get(
                entry_views(list@),
                key@,
            ) == Option::Some(value_view(list@[i as int].1)),
            Option::None => !has_key(entry_views(list@), key@) && spec_get(
                entry_views(list@),
                key@,
            ) is None,
        },
{
    let ghost s = entry_views(list@);
    let n = list.len();
    let mut i: usize = 0;
    while i < n
        invariant
            n == list@.len(),
            i <= n,
            s == entry_views(list@),
            entries_sorted(s),
            forall|j: int| 0 <= j < i ==> s[j].0 != key@,
        decreases n - i,
    {
        if crate::order::bytes_eq(&list[i].0, key) {
            proof {
                assert(s[i as int].0 == key@);
                lemma_get_by_witness(s, i as int);
            }
            return Option::Some(i);
        }
        i = i + 1;
    }
    Option::None
}

/// Inserts or overwrites the entry for this key, keeping the list sorted.
pub fn insert_entry(list: &mut Vec<(Vec<u8>, Value)>, key: Vec<u8>, value: Value)
    requires
        entries_sorted(entry_views(old(list)@)),
    ensures
        entries_sorted(entry_views(final(list)@)),
        spec_get(entry_views(final(list)@), key@) == Option::Some(value_view(value)),
        forall|k2: Seq<u8>|
            k2 != key@ ==> spec_get(entry_views(final(list)@), k2) == spec_get(
                entry_views(old(list)@),
                k2,
            ),
        has_key(entry_views(old(list)@), key@) ==> final(list)@.len() == old(list)@.len(),
        !has_key(entry_views(old(list)@), key@) ==> final(list)@.len() == old(list)@.len() + 1,
{
    broadcast use group_seq_properties;

    let ghost s0 = entry_views(old(list)@);
    let n = list.len();
    let mut i: usize = 0;
    while i < n
        invariant
            n == list@.len(),
            i <= n,
            list@ == old(list)@,
            s0 == entry_views(list@),
            entries_sorted(s0),
            forall|j: int| 0 <= j < i ==> lex_lt(s0[j].0, key@),
        decreases n - i,
    {
        proof {
            lemma_sorted_key_unique(s0);
        }
        match crate::order::bytes_cmp(&list[i].0, &key) {
            KeyOrder::Less => {
                i = i + 1;
            },
            KeyOrder::Equal => {
                let ghost ii = i as int;
                list[i] = (key, value);
                proof {
                    let s1 = entry_views(list@);
                    assert(s1 =~= s0.update(ii, (s0[ii].0, value_view(value))));
                    lemma_replace_at(s0, ii, value_view(value));
                    assert(has_key(s0, key@));
                }
                return ;
            },
            KeyOrder::Greater => {
                let ghost ii = i as int;
                proof {
                    assert forall|j: int| ii <= j < s0.len() implies lex_lt(key@, s0[j].0) by {
                        if j > ii {
                            assert(lex_lt(s0[ii].0, s0[j].0));
                            crate::order::lemma_lex_transitive(key@, s0[ii].0, s0[j].0);
                        }
                    }
                }
                list.insert(i, (key, value));
                proof {
                    let s1 = entry_views(list@);
                    assert(s1 =~= s0.insert(ii, (key@, value_view(value))));
                    lemma_insert_at(s0, ii, (key@, value_view(value)));
                    assert forall|p: int| 0 <= p < s0.len() implies s0[p].0 != key@ by {
                        if p < ii {
                            crate::order::lemma_lex_trichotomy(s0[p].0, key@);
                        } else {
                            crate::order::lemma_lex_trichotomy(key@, s0[p].0);
                        }
                    }
                    assert(!has_key(s0, key@));
                }
                return ;
            },
        }
    }
    let ghost ii = i as int;
    list.push((key, value));
    proof {
        let s1 = entry_views(list@);
        assert(s1 =~= s0.insert(ii, (key@, value_view(value))));
        lemma_insert_at(s0, ii, (key@, value_view(value)));
        assert forall|p: int| 0 <= p < s0.len() implies s0[p].0 != key@ by {
            crate::order::lemma_lex_trichotomy(s0[p].0, key@);
        }
        assert(!has_key(s0, key@));
    }
}

/// Replacing the value at a valid index keeps the list sorted and changes
/// lookup only for that entry's key.
pub proof fn lemma_replace_at(s: Seq<(Seq<u8>, ValueView)>, i: int, v: ValueView)
    requires
        entries_sorted(s),
        0 <= i < s.len(),
    ensures
        entries_sorted(s.update(i, (s[i].0, v))),
        spec_get(s.update(i, (s[i].0, v)), s[i].0) == Option::Some(v),
        forall|k2: Seq<u8>|
            k2 != s[i].0 ==> spec_get(s.update(i, (s[i].0, v)), k2) == spec_get(s, k2),
{
    let t = s.update(i, (s[i].0, v));
    assert(forall|p: int| 0 <= p < t.len() ==> t[p].0 == s[p].0);
    assert(entries_sorted(t));
    lemma_get_by_witness(t, i);
    assert forall|k2: Seq<u8>| k2 != s[i].0 implies spec_get(t, k2) == spec_get(s, k2) by {
        lemma_sorted_key_unique(s);
        if has_key(s, k2) {
            let w = key_index(s, k2);
            assert(0 <= w < s.len() && s[w].0 == k2);
            assert(w != i);
            assert(t[w] == s[w]);
            lemma_get_by_witness(t, w);
            lemma_get_by_witness(s, w);
        } else {
            assert(forall|p: int| 0 <= p < s.len() ==> s[p].0 != k2);
            assert(forall|p: int| 0 <= p < t.len() ==> t[p].0 != k2);
        }
    }
}

/// Inserting an entry whose key fits strictly between its neighbours keeps
/// the list sorted and changes lookup only for that key.
proof fn lemma_insert_at(s: Seq<(Seq<u8>, ValueView)>, i: int, e: (Seq<u8>, ValueView))
    requires
        entries_sorted(s),
        0 <= i <= s.len(),
        forall|j: int| 0 <= j < i ==> lex_lt(s[j].0, e.0),
        forall|j: int| i <= j < s.len() ==> lex_lt(e.0, s[j].0),
    ensures
        entries_sorted(s.insert(i, e)),
        spec_get(s.insert(i, e), e.0) == Option::Some(e.1),
        forall|k2: Seq<u8>| k2 != e.0 ==> spec_get(s.insert(i, e), k2) == spec_get(s, k2),
{
    let t = s.insert(i, e);
    s.insert_ensures(i, e);
    assert forall|p: int, q: int| 0 <= p < q < t.len() implies lex_lt(t[p].0, t[q].0) by {
        if p < i && q < i {
            assert(t[p] == s[p] && t[q] == s[q]);
        } else if p < i && q == i {
            assert(t[p] == s[p]);
        } else if p < i && q > i {
            assert(t[p] == s[p] && t[q] == s[q - 1]);
            assert(i <= q - 1 < s.len());
        } else if p == i {
            assert(t[q] == s[q - 1]);
            assert(i <= q - 1 < s.len());
        } else {
            assert(t[p] == s[p - 1] && t[q] == s[q - 1]);
        }
    }
    assert(entries_sorted(t));
    assert(t[i] == e);
    lemma_get_by_witness(t, i);
    assert forall|k2: Seq<u8>| k2 != e.0 implies spec_get(t, k2) == spec_get(s, k2) by {
        lemma_sorted_key_unique(s);
        if has_key(s, k2) {
            let w = key_index(s, k2);
            assert(0 <= w < s.len() && s[w].0 == k2);
            if w < i {
                assert(t[w] == s[w]);
                lemma_get_by_witness(t, w);
            } else {
                assert(t[w + 1] == s[w]);
                lemma_get_by_witness(t, w + 1);
            }
            lemma_get_by_witness(s, w);
        } else {
            assert(forall|p: int| 0 <= p < s.len() ==> s[p].0 != k2);
            assert forall|p: int| 0 <= p < t.len() implies t[p].0 != k2 by {
                if p < i {
                    assert(t[p] == s[p]);
                } else if p == i {
                } else {
                    assert(t[p] == s[p - 1]);
                }
            }
        }
    }
}

/// Removes the entry for this key, if present, keeping the list sorted.
pub fn remove_entry(list: &mut Vec<(Vec<u8>, Value)>, key: &Vec<u8>) -> (r: Option<Value>)
    requires
        entries_sorted(entry_views(old(list)@)),
    ensures
        entries_sorted(entry_views(final(list)@)),
        spec_get(entry_views(final(list)@), key@) is None,
        forall|k2: Seq<u8>|
            k2 != key@ ==> spec_get(entry_views(final(list)@), k2) == spec_get(
                entry_views(old(list)@),
                k2,
            ),
        match r {
            Option::Some(v) => spec_get(entry_views(old(list)@), key@) == Option::Some(
                value_view(v),
            ) && final(list)@.len() + 1 == old(list)@.len(),
            Option::None => spec_get(entry_views(old(list)@), key@) is None && final(list)@
                == old(list)@,
        },
{
    broadcast use group_seq_properties;

    let ghost s0 = entry_views(old(list)@);
    match find_entry(list, key) {
        Option::Some(i) => {
            let ghost ii = i as int;
            let (_, v) = list.remove(i);
            proof {
                let s1 = entry_views(list@);
                assert(s1 =~= s0.remove(ii));
                lemma_remove_at(s0, ii);
            }
            Option::Some(v)
        },
        Option::None => Option::None,
    }
}

/// Removing an entry keeps the list sorted and changes lookup only for the
/// removed key.
pub proof fn lemma_remove_at(s: Seq<(Seq<u8>, ValueView)>, i: int)
    requires
        entries_sorted(s),
        0 <= i < s.len(),
    ensures
        entries_sorted(s.remove(i)),
        spec_get(s.remove(i), s[i].0) is None,
        forall|k2: Seq<u8>| k2 != s[i].0 ==> spec_get(s.remove(i), k2) == spec_get(s, k2),
{
    let t = s.remove(i);
    s.remove_ensures(i);
    lemma_sorted_key_unique(s);
    assert forall|p: int, q: int| 0 <= p < q < t.len() implies lex_lt(t[p].0, t[q].0) by {
        if q < i {
            assert(t[p] == s[p] && t[q] == s[q]);
        } else if p < i {
            assert(t[p] == s[p] && t[q] == s[q + 1]);
        } else {
            assert(t[p] == s[p + 1] && t[q] == s[q + 1]);
        }
    }
    assert(entries_sorted(t));
    assert forall|p: int| 0 <= p < t.len() implies t[p].0 != s[i].0 by {
        if p < i {
            assert(t[p] == s[p]);
        } else {
            assert(t[p] == s[p + 1]);
        }
    }
    assert forall|k2: Seq<u8>| k2 != s[i].0 implies spec_get(t, k2) == spec_get(s, k2) by {
        if has_key(s, k2) {
            let w = key_index(s, k2);
            assert(0 <= w < s.len() && s[w].0 == k2);
            assert(w != i);
            if w < i {
                assert(t[w] == s[w]);
                lemma_get_by_witness(t, w);
            } else {
                assert(t[w - 1] == s[w]);
                lemma_get_by_witness(t, w - 1);
            }
            lemma_get_by_witness(s, w);
        } else {
            assert(forall|p: int| 0 <= p < s.len() ==> s[p].0 != k2);
            assert forall|p: int| 0 <= p < t.len() implies t[p].0 != k2 by {
                if p < i {
                    assert(t[p] == s[p]);
                } else {
                    assert(t[p] == s[p + 1]);
                }
            }
        }
    }
}

} // verus!
