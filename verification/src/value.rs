//! The dynamic value model.
//!
//! A store entry is an owned value whose shape mirrors what a settings struct
//! serializes to: a scalar, a piece of text, a list, or a table of named
//! fields. The same representation serves as the entry of the on-the-wire
//! document, so a value that was read back from storage may have any shape,
//! including one that has drifted from the current registration.

use vstd::prelude::*;

verus! {

/// A dynamically shaped preference value.
pub enum Value {
    /// A boolean scalar.
    Bool(bool),
    /// An integer scalar.
    Int(i64),
    /// A piece of text, as UTF-8 bytes.
    Text(Vec<u8>),
    /// An ordered list of values.
    List(Vec<Value>),
    /// Named fields in declaration order.
    Table(Vec<(Vec<u8>, Value)>),
}

/// The mathematical shape of a [`Value`].
pub ghost enum ValueView {
    Bool(bool),
    Int(int),
    Text(Seq<u8>),
    List(Seq<ValueView>),
    Table(Seq<(Seq<u8>, ValueView)>),
}

/// The abstraction of a value: sequences in place of vectors, all the way
/// down.
pub open spec fn value_view(v: Value) -> ValueView
    decreases v,
{
    match v {
        Value::Bool(b) => ValueView::Bool(b),
        Value::Int(i) => ValueView::Int(i as int),
        Value::Text(t) => ValueView::Text(t@),
        Value::List(items) => ValueView::List(
            Seq::new(
                items@.len(),
                |i: int|
                    if 0 <= i < items@.len() {
                        value_view(items@[i])
                    } else {
                        ValueView::Bool(false)
                    },
            ),
        ),
        Value::Table(fields) => ValueView::Table(
            Seq::new(
                fields@.len(),
                |i: int|
                    if 0 <= i < fields@.len() {
                        (fields@[i].0@, value_view(fields@[i].1))
                    } else {
                        (Seq::<u8>::empty(), ValueView::Bool(false))
                    },
            ),
        ),
    }
}

impl View for Value {
    type V = ValueView;

    open spec fn view(&self) -> ValueView {
        value_view(*self)
    }
}

impl Value {
    /// Structural equality: the views are the same shape with the same
    /// contents.
    pub fn deep_eq(&self, other: &Value) -> (r: bool)
        ensures
            r == (self@ == other@),
        decreases *self,
    {
        match (self, other) {
            (Value::Bool(a), Value::Bool(b)) => a == b,
            (Value::Int(a), Value::Int(b)) => a == b,
            (Value::Text(a), Value::Text(b)) => crate::order::bytes_eq(a, b),
            (Value::List(xs), Value::List(ys)) => {
                if xs.len() != ys.len() {
                    proof {
                        lemma_list_view_len(*self);
                        lemma_list_view_len(*other);
                    }
                    false
                } else {
                    let n = xs.len();
                    let mut i: usize = 0;
                    loop
                        invariant
                            *self == Value::List(*xs),
                            *other == Value::List(*ys),
                            xs.len() == n,
                            ys.len() == n,
                            i <= n,
                            forall|j: int| 0 <= j < i ==> value_view(xs@[j]) == value_view(ys@[j]),
                        decreases n - i,
                    {
                        if i == n {
                            proof {
                                assert(self@->List_0 =~= other@->List_0);
                            }
                            return true;
                        }
                        if !xs[i].deep_eq(&ys[i]) {
                            proof {
                                assert(self@->List_0[i as int] != other@->List_0[i as int]);
                            }
                            return false;
                        }
                        i = i + 1;
                    }
                }
            },
            (Value::Table(xs), Value::Table(ys)) => {
                if xs.len() != ys.len() {
                    proof {
                        lemma_table_view_len(*self);
                        lemma_table_view_len(*other);
                    }
                    false
                } else {
                    let n = xs.len();
                    let mut i: usize = 0;
                    loop
                        invariant
                            *self == Value::Table(*xs),
                            *other == Value::Table(*ys),
                            xs.len() == n,
                            ys.len() == n,
                            i <= n,
                            forall|j: int|
                                0 <= j < i ==> xs@[j].0@ == ys@[j].0@ && value_view(xs@[j].1)
                                    == value_view(ys@[j].1),
                        decreases n - i,
                    {
                        if i == n {
                            proof {
                                assert(self@->Table_0 =~= other@->Table_0);
                            }
                            return true;
                        }
                        if !crate::order::bytes_eq(&xs[i].0, &ys[i].0) {
                            proof {
                                assert(self@->Table_0[i as int] != other@->Table_0[i as int]);
                            }
                            return false;
                        }
                        if !xs[i].1.deep_eq(&ys[i].1) {
                            proof {
                                assert(self@->Table_0[i as int] != other@->Table_0[i as int]);
                            }
                            return false;
                        }
                        i = i + 1;
                    }
                }
            },
            _ => {
                proof {
                    lemma_view_same_variant(*self, *other);
                }
                false
            },
        }
    }

    /// An owned copy with the same view.
    pub fn deep_clone(&self) -> (r: Value)
        ensures
            r@ == self@,
        decreases *self,
    {
        match self {
            Value::Bool(b) => Value::Bool(*b),
            Value::Int(i) => Value::Int(*i),
            Value::Text(t) => {
                let mut out: Vec<u8> = Vec::new();
                let mut i: usize = 0;
                while i < t.len()
                    invariant
                        i <= t.len(),
                        out@ =~= t@.take(i as int),
                    decreases t.len() - i,
                {
                    out.push(t[i]);
                    i = i + 1;
                }
                proof {
                    assert(out@ =~= t@);
                }
                Value::Text(out)
            },
            Value::List(items) => {
                let mut out: Vec<Value> = Vec::new();
                let mut i: usize = 0;
                loop
                    invariant
                        *self == Value::List(*items),
                        i <= items.len(),
                        out@.len() == i,
                        forall|j: int| 0 <= j < i ==> value_view(out@[j]) == value_view(items@[j]),
                    decreases items.len() - i,
                {
                    if i == items.len() {
                        proof {
                            assert(value_view(Value::List(out))->List_0 =~= self@->List_0);
                        }
                        return Value::List(out);
                    }
                    let c = items[i].deep_clone();
                    out.push(c);
                    i = i + 1;
                }
            },
            Value::Table(fields) => {
                let mut out: Vec<(Vec<u8>, Value)> = Vec::new();
                let mut i: usize = 0;
                loop
                    invariant
                        *self == Value::Table(*fields),
                        i <= fields.len(),
                        out@.len() == i,
                        forall|j: int|
                            0 <= j < i ==> out@[j].0@ == fields@[j].0@ && value_view(out@[j].1)
                                == value_view(fields@[j].1),
                    decreases fields.len() - i,
                {
                    if i == fields.len() {
                        proof {
                            assert(value_view(Value::Table(out))->Table_0 =~= self@->Table_0);
                        }
                        return Value::Table(out);
                    }
                    let name = clone_bytes(&fields[i].0);
                    let val = fields[i].1.deep_clone();
                    out.push((name, val));
                    i = i + 1;
                }
            },
        }
    }
}

/// An owned copy of a byte string with the same view.
pub fn clone_bytes(b: &Vec<u8>) -> (r: Vec<u8>)
    ensures
        r@ == b@,
{
    let mut out: Vec<u8> = Vec::new();
    let mut i: usize = 0;
    while i < b.len()
        invariant
            i <= b.len(),
            out@ =~= b@.take(i as int),
        decreases b.len() - i,
    {
        out.push(b[i]);
        i = i + 1;
    }
    proof {
        assert(out@ =~= b@);
    }
    out
}

/// Views of distinct variants are never equal.
proof fn lemma_view_same_variant(a: Value, b: Value)
    ensures
        a@ == b@ ==> (a is Bool <==> b is Bool) && (a is Int <==> b is Int) && (a is Text <==> b
            is Text) && (a is List <==> b is List) && (a is Table <==> b is Table),
{
}

/// The view of a list has the list's length.
proof fn lemma_list_view_len(v: Value)
    requires
        v is List,
    ensures
        v@->List_0.len() == v->List_0@.len(),
{
}

/// The view of a table has the table's length.
proof fn lemma_table_view_len(v: Value)
    requires
        v is Table,
    ensures
        v@->Table_0.len() == v->Table_0@.len(),
{
}

} // verus!
