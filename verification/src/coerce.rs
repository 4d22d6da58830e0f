//! Shape checking and progressive-fallback coercion.
//!
//! A value loaded from a document may no longer have the shape that its
//! type's current registration expects. Coercion repairs it against the
//! registered default: a value of the expected shape is kept unchanged, a
//! table is applied field by field onto the default (recognized fields
//! overwrite, unknown fields are dropped, missing fields keep the default),
//! and anything else falls back to the default as it is.

use vstd::prelude::*;

use crate::value::Value;
use crate::value::ValueView;
use crate::value::value_view;

verus! {

/// Whether a value already has the shape of the reference value: the same
/// variant, and for tables exactly the same field names, recursively
/// shape-matching field values. Lists match as a whole: their elements are
/// data, not schema.
pub open spec fn spec_shape_matches(v: ValueView, d: ValueView) -> bool
    decreases d,
{
    match d {
        ValueView::Bool(_) => v is Bool,
        ValueView::Int(_) => v is Int,
        ValueView::Text(_) => v is Text,
        ValueView::List(_) => v is List,
        ValueView::Table(dfs) => match v {
            ValueView::Table(vfs) => {
                &&& vfs.len() == dfs.len()
                &&& forall|i: int|
                    0 <= i < dfs.len() ==> vfs[i].0 == dfs[i].0 && spec_shape_matches(
                        vfs[i].1,
                        dfs[i].1,
                    )
            },
            _ => false,
        },
    }
}

/// The coerced value: `v` itself when it matches the expected shape;
/// otherwise, when both are tables, the default with each recognized,
/// shape-compatible field overwritten by the incoming one; otherwise the
/// default unchanged.
pub open spec fn spec_coerce(d: ValueView, v: ValueView) -> ValueView
    decreases d,
{
    if spec_shape_matches(v, d) {
        v
    } else {
        match d {
            ValueView::Table(dfs) => match v {
                ValueView::Table(vfs) => ValueView::Table(
                    Seq::new(
                        dfs.len(),
                        |i: int|
                            if 0 <= i < dfs.len() {
                                (
                                    dfs[i].0,
                                    match table_field(vfs, dfs[i].0) {
                                        Option::Some(fv) => spec_coerce(dfs[i].1, fv),
                                        Option::None => dfs[i].1,
                                    },
                                )
                            } else {
                                (Seq::<u8>::empty(), ValueView::Bool(false))
                            },
                    ),
                ),
                _ => d,
            },
            _ => d,
        }
    }
}

/// The value of the first field with this name, if any. A loaded table may
/// hold the same name twice; the first occurrence wins.
pub open spec fn table_field(fs: Seq<(Seq<u8>, ValueView)>, name: Seq<u8>) -> Option<ValueView>
    decreases fs.len(),
{
    if fs.len() == 0 {
        Option::None
    } else if fs[0].0 == name {
        Option::Some(fs[0].1)
    } else {
        table_field(fs.drop_first(), name)
    }
}

/// Whether `v` already has the shape of `d`.
pub fn shape_matches(v: &Value, d: &Value) -> (r: bool)
    ensures
        r == spec_shape_matches(v@, d@),
    decreases *d,
{
    match (v, d) {
        (Value::Bool(_), Value::Bool(_)) => true,
        (Value::Int(_), Value::Int(_)) => true,
        (Value::Text(_), Value::Text(_)) => true,
        (Value::List(_), Value::List(_)) => true,
        (Value::Table(vfs), Value::Table(dfs)) => {
            if vfs.len() != dfs.len() {
                return false;
            }
            let n = dfs.len();
            let mut i: usize = 0;
            loop
                invariant
                    *v == Value::Table(*vfs),
                    *d == Value::Table(*dfs),
                    vfs.len() == n,
                    dfs.len() == n,
                    i <= n,
                    forall|j: int|
                        0 <= j < i ==> vfs@[j].0@ == dfs@[j].0@ && spec_shape_matches(
                            value_view(vfs@[j].1),
                            value_view(dfs@[j].1),
                        ),
                decreases n - i,
            {
                if i == n {
                    return true;
                }
                proof {
                    assert(v@->Table_0[i as int] == (vfs@[i as int].0@, value_view(
                        vfs@[i as int].1,
                    )));
                    assert(d@->Table_0[i as int] == (dfs@[i as int].0@, value_view(
                        dfs@[i as int].1,
                    )));
                }
                if !crate::order::bytes_eq(&vfs[i].0, &dfs[i].0) {
                    proof {
                        assert(!(v@->Table_0[i as int].0 == d@->Table_0[i as int].0));
                    }
                    return false;
                }
                if !shape_matches(&vfs[i].1, &dfs[i].1) {
                    proof {
                        assert(!spec_shape_matches(
                            v@->Table_0[i as int].1,
                            d@->Table_0[i as int].1,
                        ));
                    }
                    return false;
                }
                i = i + 1;
            }
        },
        _ => false,
    }
}

/// Looks up the first field with this name, starting the scan at `i`.
fn find_field_from<'a>(fs: &'a Vec<(Vec<u8>, Value)>, name: &Vec<u8>, i: usize) -> (r: Option<
    &'a Value,
>)
    requires
        i <= fs@.len(),
    ensures
        match r {
            Option::Some(fv) => table_field(
                crate::entries::entry_views(fs@).skip(i as int),
                name@,
            ) == Option::Some(fv@),
            Option::None => table_field(
                crate::entries::entry_views(fs@).skip(i as int),
                name@,
            ) is None,
        },
    decreases fs@.len() - i,
{
    let ghost s = crate::entries::entry_views(fs@);
    if i == fs.len() {
        proof {
            assert(s.skip(i as int).len() == 0);
        }
        return Option::None;
    }
    proof {
        assert(s.skip(i as int)[0] == s[i as int]);
        assert(s.skip(i as int).drop_first() =~= s.skip(i as int + 1));
    }
    if crate::order::bytes_eq(&fs[i].0, name) {
        Option::Some(&fs[i].1)
    } else {
        find_field_from(fs, name, i + 1)
    }
}

/// Looks up the first field with this name in a table's field list.
fn find_field<'a>(fs: &'a Vec<(Vec<u8>, Value)>, name: &Vec<u8>) -> (r: Option<&'a Value>)
    ensures
        match r {
            Option::Some(fv) => table_field(crate::entries::entry_views(fs@), name@)
                == Option::Some(fv@),
            Option::None => table_field(crate::entries::entry_views(fs@), name@) is None,
        },
{
    proof {
        assert(crate::entries::entry_views(fs@).skip(0) =~= crate::entries::entry_views(fs@));
    }
    find_field_from(fs, name, 0)
}

/// Coerces a loaded value against the registered default, with progressive
/// fallback: keep it when the shape matches, partial-apply tables field by
/// field, and fall back to the default otherwise.
pub fn coerce(default: &Value, incoming: &Value) -> (r: Value)
    ensures
        r@ == spec_coerce(default@, incoming@),
    decreases *default,
{
    if shape_matches(incoming, default) {
        return incoming.deep_clone();
    }
    match (default, incoming) {
        (Value::Table(dfs), Value::Table(vfs)) => {
            proof {
                assert(crate::entries::entry_views(vfs@) =~= incoming@->Table_0);
            }
            let n = dfs.len();
            let mut out: Vec<(Vec<u8>, Value)> = Vec::new();
            let mut i: usize = 0;
            loop
                invariant
                    *default == Value::Table(*dfs),
                    *incoming == Value::Table(*vfs),
                    crate::entries::entry_views(vfs@) == incoming@->Table_0,
                    dfs.len() == n,
                    i <= n,
                    out@.len() == i,
                    !spec_shape_matches(value_view(*incoming), value_view(*default)),
                    forall|j: int|
                        0 <= j < i ==> out@[j].0@ == dfs@[j].0@ && value_view(out@[j].1) == (
                        match table_field(
                            crate::entries::entry_views(vfs@),
                            dfs@[j].0@,
                        ) {
                            Option::Some(fv) => spec_coerce(value_view(dfs@[j].1), fv),
                            Option::None => value_view(dfs@[j].1),
                        }),
                decreases n - i,
            {
                if i == n {
                    let r = Value::Table(out);
                    proof {
                        assert(r@->Table_0 =~= spec_coerce(default@, incoming@)->Table_0);
                    }
                    return r;
                }
                let name = crate::value::clone_bytes(&dfs[i].0);
                let fv = match find_field(vfs, &dfs[i].0) {
                    Option::Some(f) => coerce(&dfs[i].1, f),
                    Option::None => dfs[i].1.deep_clone(),
                };
                out.push((name, fv));
                i = i + 1;
            }
        },
        _ => default.deep_clone(),
    }
}

} // verus!
