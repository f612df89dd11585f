//! The order of byte keys: lexicographic, byte by byte, a proper prefix first.

use vstd::prelude::*;
use std::cmp::Ordering;
use super::{be_bytes, is_proper_prefix, suffix};

verus! {

/// Compares two byte strings lexicographically, as `[u8]::cmp` does.
pub open spec fn bytes_order(a: Seq<u8>, b: Seq<u8>) -> Ordering
    decreases a.len(),
{
    if a.len() == 0 {
        if b.len() == 0 {
            Ordering::Equal
        } else {
            Ordering::Less
        }
    } else if b.len() == 0 {
        Ordering::Greater
    } else if a[0] < b[0] {
        Ordering::Less
    } else if b[0] < a[0] {
        Ordering::Greater
    } else {
        bytes_order(a.drop_first(), b.drop_first())
    }
}

/// The order of two integers.
pub open spec fn int_order(x: u64, y: u64) -> Ordering {
    if x < y {
        Ordering::Less
    } else if x == y {
        Ordering::Equal
    } else {
        Ordering::Greater
    }
}

/// The reverse of an order.
pub open spec fn reversed(o: Ordering) -> Ordering {
    match o {
        Ordering::Less => Ordering::Greater,
        Ordering::Equal => Ordering::Equal,
        Ordering::Greater => Ordering::Less,
    }
}

/// Compares `a` with `b` lexicographically.
pub fn compare_bytes(a: &[u8], b: &[u8]) -> (r: Ordering)
    ensures
        r == bytes_order(a@, b@),
{
    let mut i: usize = 0;
    assert(suffix(a@, i) =~= a@ && suffix(b@, i) =~= b@);
    while i < a.len() && i < b.len()
        invariant
            0 <= i <= a@.len(),
            i <= b@.len(),
            bytes_order(a@, b@) == bytes_order(suffix(a@, i), suffix(b@, i)),
        decreases a@.len() - i,
    {
        let x = a[i];
        let y = b[i];
        if x < y {
            return Ordering::Less;
        }
        if y < x {
            return Ordering::Greater;
        }
        proof {
            assert(suffix(a@, i).drop_first() =~= a@.skip(i + 1));
            assert(suffix(b@, i).drop_first() =~= b@.skip(i + 1));
        }
        i += 1;
    }
    if i < a.len() {
        Ordering::Greater
    } else if i < b.len() {
        Ordering::Less
    } else {
        Ordering::Equal
    }
}

/// Every byte string is equal to itself.
pub proof fn lemma_order_reflexive(a: Seq<u8>)
    ensures
        bytes_order(a, a) == Ordering::Equal,
    decreases a.len(),
{
    if a.len() > 0 {
        lemma_order_reflexive(a.drop_first());
    }
}

/// Byte strings that compare equal are the same.
pub proof fn lemma_order_equal(a: Seq<u8>, b: Seq<u8>)
    requires
        bytes_order(a, b) == Ordering::Equal,
    ensures
        a == b,
    decreases a.len(),
{
    if a.len() > 0 {
        lemma_order_equal(a.drop_first(), b.drop_first());
        assert(a =~= seq![a[0]] + a.drop_first());
        assert(b =~= seq![b[0]] + b.drop_first());
    } else {
        assert(a =~= b);
    }
}

/// Comparing the other way round gives the reverse order.
pub proof fn lemma_order_antisymmetric(a: Seq<u8>, b: Seq<u8>)
    ensures
        bytes_order(b, a) == reversed(bytes_order(a, b)),
    decreases a.len(),
{
    if a.len() > 0 && b.len() > 0 {
        lemma_order_antisymmetric(a.drop_first(), b.drop_first());
    }
}

/// The order is transitive.
pub proof fn lemma_order_transitive(a: Seq<u8>, b: Seq<u8>, c: Seq<u8>)
    requires
        bytes_order(a, b) == Ordering::Less,
        bytes_order(b, c) == Ordering::Less,
    ensures
        bytes_order(a, c) == Ordering::Less,
    decreases a.len(),
{
    if a.len() > 0 && b.len() > 0 && c.len() > 0 && a[0] == b[0] && b[0] == c[0] {
        lemma_order_transitive(a.drop_first(), b.drop_first(), c.drop_first());
    }
}

/// `a` and `b` have the same bytes before index `i`.
pub open spec fn agree_before(a: Seq<u8>, b: Seq<u8>, i: int) -> bool {
    forall|j: int| 0 <= j < i ==> a[j] == b[j]
}

/// Where two byte strings first differ at an index inside both, that byte
/// decides, whatever their lengths.
pub proof fn lemma_order_first_difference(a: Seq<u8>, b: Seq<u8>, i: int)
    requires
        0 <= i < a.len(),
        i < b.len(),
        agree_before(a, b, i),
        a[i] != b[i],
    ensures
        bytes_order(a, b) == if a[i] < b[i] {
            Ordering::Less
        } else {
            Ordering::Greater
        },
    decreases i,
{
    if i > 0 {
        assert(a[0] == b[0]);
        let a1 = a.drop_first();
        let b1 = b.drop_first();
        assert forall|j: int| 0 <= j < i - 1 implies a1[j] == b1[j] by {
            assert(a[j + 1] == b[j + 1]);
        }
        lemma_order_first_difference(a1, b1, i - 1);
    }
}

/// A proper prefix comes before the longer string.
pub proof fn lemma_order_proper_prefix(a: Seq<u8>, b: Seq<u8>)
    requires
        is_proper_prefix(a, b),
    ensures
        bytes_order(a, b) == Ordering::Less,
        bytes_order(b, a) == Ordering::Greater,
    decreases a.len(),
{
    if a.len() > 0 {
        assert(a[0] == b[0]);
        let a1 = a.drop_first();
        let b1 = b.drop_first();
        assert forall|j: int| 0 <= j < a1.len() implies a1[j] == b1[j] by {
            assert(a[j + 1] == b[j + 1]);
        }
        lemma_order_proper_prefix(a1, b1);
    }
}

/// Keys made of integers in big-endian order sort as the integers do.
pub proof fn lemma_be_bytes_order(x: u64, y: u64)
    ensures
        bytes_order(be_bytes(x), be_bytes(y)) == int_order(x, y),
{
    super::lemma_be_bytes_compare(x, y);
    let a = be_bytes(x);
    let b = be_bytes(y);
    reveal_with_fuel(bytes_order, 9);
    assert(a.skip(8).len() == 0 && b.skip(8).len() == 0);
    assert(a.drop_first() =~= a.skip(1));
    assert(b.drop_first() =~= b.skip(1));
    assert(a.skip(1).drop_first() =~= a.skip(2));
    assert(b.skip(1).drop_first() =~= b.skip(2));
    assert(a.skip(2).drop_first() =~= a.skip(3));
    assert(b.skip(2).drop_first() =~= b.skip(3));
    assert(a.skip(3).drop_first() =~= a.skip(4));
    assert(b.skip(3).drop_first() =~= b.skip(4));
    assert(a.skip(4).drop_first() =~= a.skip(5));
    assert(b.skip(4).drop_first() =~= b.skip(5));
    assert(a.skip(5).drop_first() =~= a.skip(6));
    assert(b.skip(5).drop_first() =~= b.skip(6));
    assert(a.skip(6).drop_first() =~= a.skip(7));
    assert(b.skip(6).drop_first() =~= b.skip(7));
    assert(a.skip(7).drop_first() =~= a.skip(8));
    assert(b.skip(7).drop_first() =~= b.skip(8));
}

} // verus!
