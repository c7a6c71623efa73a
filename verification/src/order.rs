//! The order of byte strings, and lists put in that order.
//!
//! Signatures reach a coordinator in the order in which the workers happen
//! to answer. Before they are added up they are put in the order of their
//! bytes, so that what comes out depends on which signatures came and not on
//! when each of them came.

use vstd::prelude::*;
use vstd::relations::{sorted_by, total_ordering};
use vstd::seq_lib::{lemma_multiset_commutative, lemma_sorted_unique};
use crate::bytes::{byte_strings, copy_bytes};

verus! {

/// Whether `a` comes before `b` or is `b`: at the first position where the
/// two differ `a` has the smaller byte, or `a` ends there.
pub open spec fn bytes_le(a: Seq<u8>, b: Seq<u8>) -> bool
    decreases a.len(),
{
    if a.len() == 0 {
        true
    } else if b.len() == 0 {
        false
    } else if a.first() != b.first() {
        a.first() < b.first()
    } else {
        bytes_le(a.drop_first(), b.drop_first())
    }
}

/// The order of byte strings as a relation.
pub open spec fn by_bytes() -> spec_fn(Seq<u8>, Seq<u8>) -> bool {
    |a: Seq<u8>, b: Seq<u8>| bytes_le(a, b)
}

/// A list in the order of its items' bytes.
pub open spec fn in_order(items: Seq<Seq<u8>>) -> Seq<Seq<u8>> {
    items.sort_by(by_bytes())
}

/// Every string comes before itself or is itself.
proof fn lemma_le_reflexive(a: Seq<u8>)
    ensures
        bytes_le(a, a),
    decreases a.len(),
{
    if a.len() > 0 {
        lemma_le_reflexive(a.drop_first());
    }
}

/// Two strings of which each comes before the other or is the other are
/// one string.
proof fn lemma_le_antisymmetric(a: Seq<u8>, b: Seq<u8>)
    requires
        bytes_le(a, b),
        bytes_le(b, a),
    ensures
        a == b,
    decreases a.len(),
{
    if a.len() == 0 || b.len() == 0 {
        assert(a =~= b);
    } else {
        lemma_le_antisymmetric(a.drop_first(), b.drop_first());
        assert(a =~= seq![a.first()] + a.drop_first());
        assert(b =~= seq![b.first()] + b.drop_first());
    }
}

/// What comes before a string comes before whatever that string comes
/// before.
proof fn lemma_le_transitive(a: Seq<u8>, b: Seq<u8>, c: Seq<u8>)
    requires
        bytes_le(a, b),
        bytes_le(b, c),
    ensures
        bytes_le(a, c),
    decreases a.len(),
{
    if a.len() > 0 && b.len() > 0 && c.len() > 0 {
        if a.first() == b.first() && b.first() == c.first() {
            lemma_le_transitive(a.drop_first(), b.drop_first(), c.drop_first());
        }
    }
}

/// Of two strings one comes before the other or is the other.
proof fn lemma_le_total(a: Seq<u8>, b: Seq<u8>)
    ensures
        bytes_le(a, b) || bytes_le(b, a),
    decreases a.len(),
{
    if a.len() > 0 && b.len() > 0 && a.first() == b.first() {
        lemma_le_total(a.drop_first(), b.drop_first());
    }
}

/// The order of byte strings is total: any two strings compare, and two
/// that compare both ways are the same string.
pub proof fn lemma_bytes_total_order()
    ensures
        total_ordering(by_bytes()),
{
    let leq = by_bytes();
    assert forall|x: Seq<u8>| #[trigger] leq(x, x) by {
        lemma_le_reflexive(x);
    }
    assert forall|x: Seq<u8>, y: Seq<u8>| #[trigger] leq(x, y) && #[trigger] leq(y, x) implies x
        == y by {
        lemma_le_antisymmetric(x, y);
    }
    assert forall|x: Seq<u8>, y: Seq<u8>, z: Seq<u8>| #[trigger]
        leq(x, y) && #[trigger] leq(y, z) implies leq(x, z) by {
        lemma_le_transitive(x, y, z);
    }
    assert forall|x: Seq<u8>, y: Seq<u8>| #[trigger] leq(x, y) || #[trigger] leq(y, x) by {
        lemma_le_total(x, y);
    }
}

/// A list in order holds the items of the list, each as often as the list
/// does, and no item of it comes after a greater one.
pub proof fn lemma_in_order(items: Seq<Seq<u8>>)
    ensures
        in_order(items).to_multiset() == items.to_multiset(),
        in_order(items).len() == items.len(),
        sorted_by(in_order(items), by_bytes()),
        forall|x: Seq<u8>| items.contains(x) <==> in_order(items).contains(x),
{
    lemma_bytes_total_order();
    items.lemma_sort_by_ensures(by_bytes());
    items.to_multiset_ensures();
    in_order(items).to_multiset_ensures();
    assert forall|x: Seq<u8>| items.contains(x) <==> in_order(items).contains(x) by {
        assert(items.contains(x) <==> items.to_multiset().count(x) > 0);
        assert(in_order(items).contains(x) <==> in_order(items).to_multiset().count(x) > 0);
    }
}

/// Two lists that hold the same items, each as often in one as in the
/// other, are the same list once they are put in order.
pub proof fn lemma_order_forgets_arrival(a: Seq<Seq<u8>>, b: Seq<Seq<u8>>)
    requires
        a.to_multiset() == b.to_multiset(),
    ensures
        in_order(a) == in_order(b),
{
    lemma_in_order(a);
    lemma_in_order(b);
    lemma_bytes_total_order();
    lemma_sorted_unique(in_order(a), in_order(b), by_bytes());
}

/// Whether `a` comes before `b` or is `b`.
pub fn le(a: &[u8], b: &[u8]) -> (r: bool)
    ensures
        r == bytes_le(a@, b@),
{
    let mut i: usize = 0;
    proof {
        assert(a@.skip(0) =~= a@);
        assert(b@.skip(0) =~= b@);
    }
    while i < a.len() && i < b.len()
        invariant
            i <= a@.len(),
            i <= b@.len(),
            bytes_le(a@, b@) == bytes_le(a@.skip(i as int), b@.skip(i as int)),
        decreases a@.len() - i,
    {
        if a[i] != b[i] {
            return a[i] < b[i];
        }
        proof {
            assert(a@.skip(i as int).drop_first() == a@.skip(i + 1));
            assert(b@.skip(i as int).drop_first() == b@.skip(i + 1));
        }
        i = i + 1;
    }
    i == a.len()
}

/// Putting one more item into a list at `at` adds that item to what the
/// list holds.
proof fn lemma_insert_adds(items: Seq<Seq<u8>>, at: int, item: Seq<u8>)
    requires
        0 <= at <= items.len(),
    ensures
        items.insert(at, item).to_multiset() == items.to_multiset().insert(item),
{
    let head = items.take(at);
    let tail = items.skip(at);
    assert(items =~= head + tail);
    assert(items.insert(at, item) =~= head.push(item) + tail);
    lemma_multiset_commutative(head, tail);
    lemma_multiset_commutative(head.push(item), tail);
    head.to_multiset_ensures();
    assert(head.push(item).to_multiset().add(tail.to_multiset()) =~= head.to_multiset().add(
        tail.to_multiset(),
    ).insert(item));
}

/// A copy of a list in the order of its items' bytes: it holds the items
/// of the list, each as often as the list does, and none of them after a
/// greater one.
pub fn sorted_copy(items: &Vec<Vec<u8>>) -> (out: Vec<Vec<u8>>)
    ensures
        byte_strings(out@) == in_order(byte_strings(items@)),
        out@.len() == items@.len(),
        sorted_by(byte_strings(out@), by_bytes()),
        byte_strings(out@).to_multiset() == byte_strings(items@).to_multiset(),
{
    let ghost all = byte_strings(items@);
    let mut out: Vec<Vec<u8>> = Vec::new();
    let mut i: usize = 0;
    proof {
        assert(all.take(0) =~= byte_strings(out@));
    }
    while i < items.len()
        invariant
            i <= items@.len(),
            all == byte_strings(items@),
            out@.len() == i,
            sorted_by(byte_strings(out@), by_bytes()),
            byte_strings(out@).to_multiset() == all.take(i as int).to_multiset(),
        decreases items@.len() - i,
    {
        let item = copy_bytes(items[i].as_slice());
        let mut at: usize = 0;
        let mut found = false;
        while at < out.len() && !found
            invariant
                at <= out@.len(),
                forall|j: int| 0 <= j < at ==> bytes_le(#[trigger] out@[j]@, item@),
                found ==> at < out@.len() && !bytes_le(out@[at as int]@, item@),
            decreases out@.len() - at + if found { 0int } else { 1int },
        {
            if le(out[at].as_slice(), item.as_slice()) {
                at = at + 1;
            } else {
                found = true;
            }
        }
        let ghost before = byte_strings(out@);
        out.insert(at, item);
        proof {
            let after = byte_strings(out@);
            assert(after =~= before.insert(at as int, item@));
            lemma_insert_adds(before, at as int, item@);
            assert(all.take(i + 1) =~= all.take(i as int).push(item@));
            all.take(i as int).to_multiset_ensures();
            assert forall|j: int, k: int| 0 <= j < k < after.len() implies #[trigger] by_bytes()(
                after[j],
                after[k],
            ) by {
                if k == at {
                    assert(after[j] == before[j]);
                } else if j == at {
                    lemma_le_total(before[at as int], item@);
                    assert(after[k] == before[k - 1]);
                    if k - 1 > at {
                        assert(by_bytes()(before[at as int], before[k - 1]));
                        lemma_le_transitive(item@, before[at as int], before[k - 1]);
                    }
                } else if j < at && k < at {
                    assert(by_bytes()(before[j], before[k]));
                } else if j < at && k > at {
                    assert(by_bytes()(before[j], before[k - 1]));
                } else {
                    assert(by_bytes()(before[j - 1], before[k - 1]));
                }
            }
        }
        i = i + 1;
    }
    proof {
        assert(all.take(i as int) =~= all);
        lemma_in_order(all);
        lemma_bytes_total_order();
        lemma_sorted_unique(byte_strings(out@), in_order(all), by_bytes());
    }
    out
}

} // verus!
