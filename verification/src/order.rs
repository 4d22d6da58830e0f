//! Lexicographic order on byte strings.
//!
//! Type identifiers are byte strings, and the store and the document keep
//! their entries sorted by this order so that serialized output is
//! deterministic and diff-stable.

use vstd::prelude::*;

verus! {

/// Lexicographic "strictly less" on byte strings: the order a `BTreeMap`
/// keyed by UTF-8 strings would use.
pub open spec fn lex_lt(a: Seq<u8>, b: Seq<u8>) -> bool
    decreases a.len(),
{
    if b.len() == 0 {
        false
    } else if a.len() == 0 {
        true
    } else if a[0] < b[0] {
        true
    } else if a[0] > b[0] {
        false
    } else {
        lex_lt(a.drop_first(), b.drop_first())
    }
}

/// Result of comparing two byte strings.
pub enum KeyOrder {
    Less,
    Equal,
    Greater,
}

/// Exactly one of `lex_lt(a, b)`, `a == b`, `lex_lt(b, a)` holds.
pub proof fn lemma_lex_trichotomy(a: Seq<u8>, b: Seq<u8>)
    ensures
        lex_lt(a, b) ==> !lex_lt(b, a) && a != b,
        lex_lt(b, a) ==> !lex_lt(a, b) && a != b,
        !lex_lt(a, b) && !lex_lt(b, a) ==> a == b,
    decreases a.len(),
{
    if a.len() == 0 || b.len() == 0 {
        if a.len() == 0 && b.len() == 0 {
            assert(a =~= b);
        }
    } else {
        lemma_lex_trichotomy(a.drop_first(), b.drop_first());
        if !lex_lt(a, b) && !lex_lt(b, a) {
            assert(a[0] == b[0]);
            assert(a.drop_first() == b.drop_first());
            assert forall|i: int| 0 <= i < a.len() implies a[i] == b[i] by {
                if i > 0 {
                    assert(a[i] == a.drop_first()[i - 1]);
                    assert(b[i] == b.drop_first()[i - 1]);
                }
            }
            assert(a =~= b);
        }
    }
}

/// The order is transitive.
pub proof fn lemma_lex_transitive(a: Seq<u8>, b: Seq<u8>, c: Seq<u8>)
    requires
        lex_lt(a, b),
        lex_lt(b, c),
    ensures
        lex_lt(a, c),
    decreases a.len(),
{
    if a.len() == 0 {
        assert(b.len() > 0);
        assert(c.len() > 0);
    } else {
        assert(b.len() > 0);
        assert(c.len() > 0);
        if a[0] == b[0] && b[0] == c[0] {
            lemma_lex_transitive(a.drop_first(), b.drop_first(), c.drop_first());
        }
    }
}

/// Compare two byte strings; the result mirrors `lex_lt` and equality of the
/// views.
pub fn bytes_cmp(a: &Vec<u8>, b: &Vec<u8>) -> (r: KeyOrder)
    ensures
        r is Less <==> lex_lt(a@, b@),
        r is Greater <==> lex_lt(b@, a@),
        r is Equal <==> a@ == b@,
{
    let mut i: usize = 0;
    loop
        invariant
            i <= a.len(),
            i <= b.len(),
            forall|j: int| 0 <= j < i ==> a@[j] == b@[j],
        decreases a.len() - i,
    {
        proof {
            lemma_lex_trichotomy(a@, b@);
        }
        if i == a.len() || i == b.len() {
            proof {
                lemma_lex_common_prefix_exhausted(a@, b@, i as int);
            }
            if a.len() == b.len() {
                assert(a@ =~= b@);
                return KeyOrder::Equal;
            } else if a.len() < b.len() {
                return KeyOrder::Less;
            } else {
                return KeyOrder::Greater;
            }
        }
        if a[i] < b[i] {
            proof {
                lemma_lex_first_difference(a@, b@, i as int);
            }
            return KeyOrder::Less;
        }
        if a[i] > b[i] {
            proof {
                lemma_lex_first_difference(b@, a@, i as int);
            }
            return KeyOrder::Greater;
        }
        i = i + 1;
    }
}

/// If `a` and `b` agree up to `i` and one of them ends there, the shorter is
/// the smaller.
proof fn lemma_lex_common_prefix_exhausted(a: Seq<u8>, b: Seq<u8>, i: int)
    requires
        0 <= i,
        i == a.len() || i == b.len(),
        i <= a.len(),
        i <= b.len(),
        forall|j: int| 0 <= j < i ==> a[j] == b[j],
    ensures
        a.len() < b.len() ==> lex_lt(a, b),
        b.len() < a.len() ==> lex_lt(b, a),
    decreases i,
{
    if i > 0 {
        assert(a.len() > 0 && b.len() > 0);
        assert(a[0] == b[0]);
        assert(forall|j: int|
            0 <= j < i - 1 ==> a.drop_first()[j] == a[j + 1] && b.drop_first()[j] == b[j + 1]);
        lemma_lex_common_prefix_exhausted(a.drop_first(), b.drop_first(), i - 1);
    }
}

/// If `a` and `b` agree up to `i` and differ there with `a[i] < b[i]`, then
/// `a` comes first.
proof fn lemma_lex_first_difference(a: Seq<u8>, b: Seq<u8>, i: int)
    requires
        0 <= i < a.len(),
        i < b.len(),
        forall|j: int| 0 <= j < i ==> a[j] == b[j],
        a[i] < b[i],
    ensures
        lex_lt(a, b),
    decreases i,
{
    if i > 0 {
        assert(a[0] == b[0]);
        assert(forall|j: int|
            0 <= j < i - 1 ==> a.drop_first()[j] == a[j + 1] && b.drop_first()[j] == b[j + 1]);
        assert(a.drop_first()[i - 1] == a[i]);
        assert(b.drop_first()[i - 1] == b[i]);
        lemma_lex_first_difference(a.drop_first(), b.drop_first(), i - 1);
    }
}

/// Equality test on byte strings.
pub fn bytes_eq(a: &Vec<u8>, b: &Vec<u8>) -> (r: bool)
    ensures
        r == (a@ == b@),
{
    match bytes_cmp(a, b) {
        KeyOrder::Equal => true,
        _ => false,
    }
}

} // verus!
