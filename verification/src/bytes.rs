//! Byte strings and how the contracts read them.

use vstd::prelude::*;

verus! {

/// What an optional byte string holds.
pub open spec fn opt_bytes(o: Option<Vec<u8>>) -> Option<Seq<u8>> {
    match o {
        Some(v) => Some(v@),
        None => None,
    }
}

/// What a running sum holds: `None` where a term could not be read,
/// `Some(None)` for the identity, `Some(Some(..))` for an encoded point.
pub open spec fn sum_bytes(o: Option<Option<Vec<u8>>>) -> Option<Option<Seq<u8>>> {
    match o {
        Some(inner) => Some(opt_bytes(inner)),
        None => None,
    }
}

/// What a list of byte strings holds, item by item.
pub open spec fn byte_strings(items: Seq<Vec<u8>>) -> Seq<Seq<u8>> {
    Seq::new(items.len(), |i: int| items[i]@)
}

/// The number that a byte string writes with its low byte first.
pub open spec fn little_endian(bytes: Seq<u8>) -> nat
    decreases bytes.len(),
{
    if bytes.len() == 0 {
        0
    } else {
        bytes.first() as nat + 256 * little_endian(bytes.drop_first())
    }
}

/// The `width` bytes that write a number with its high byte first; a
/// number that does not fit loses its high part.
pub open spec fn big_endian(value: nat, width: nat) -> Seq<u8>
    decreases width,
{
    if width == 0 {
        Seq::empty()
    } else {
        big_endian(value / 256, (width - 1) as nat).push((value % 256) as u8)
    }
}

/// A copy of a byte string.
pub(crate) fn copy_bytes(bytes: &[u8]) -> (copy: Vec<u8>)
    ensures
        copy@ == bytes@,
{
    vstd::slice::slice_to_vec(bytes)
}

/// The bytes of `head` followed by those of `tail`.
pub(crate) fn concat_bytes(head: &[u8], tail: &[u8]) -> (joined: Vec<u8>)
    ensures
        joined@ == head@ + tail@,
{
    let mut joined: Vec<u8> = Vec::new();
    let mut i: usize = 0;
    while i < head.len()
        invariant
            i <= head.len(),
            joined@ == head@.subrange(0, i as int),
        decreases head.len() - i,
    {
        joined.push(head[i]);
        i = i + 1;
    }
    let mut j: usize = 0;
    while j < tail.len()
        invariant
            j <= tail.len(),
            joined@ == head@ + tail@.subrange(0, j as int),
        decreases tail.len() - j,
    {
        joined.push(tail[j]);
        j = j + 1;
    }
    joined
}

} // verus!
