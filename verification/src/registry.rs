//! The key registry: the public keys that were published, in the order in
//! which they came.
//!
//! The registry only appends. It does not tell two equal keys apart, does
//! not remove one, and does not know which node a key belongs to.

use vstd::prelude::*;
use crate::bytes::{byte_strings, copy_bytes};
use crate::encoding::{
    hex_bytes, hex_decode, hex_encode, hex_text, is_hex_text, lemma_hex_round_trip,
};

verus! {

/// The keys published so far.
pub struct KeyRegistry {
    keys: Vec<Vec<u8>>,
}

/// The registry after one more key was published.
pub open spec fn after_publish(keys: Seq<Seq<u8>>, key: Seq<u8>) -> Seq<Seq<u8>> {
    keys.push(key)
}

/// The registry after a batch of keys was published one by one, first to
/// last.
pub open spec fn after_publishing(keys: Seq<Seq<u8>>, batch: Seq<Seq<u8>>) -> Seq<Seq<u8>>
    decreases batch.len(),
{
    if batch.len() == 0 {
        keys
    } else {
        after_publishing(after_publish(keys, batch.first()), batch.drop_first())
    }
}

impl View for KeyRegistry {
    type V = Seq<Seq<u8>>;

    closed spec fn view(&self) -> Seq<Seq<u8>> {
        byte_strings(self.keys@)
    }
}

impl KeyRegistry {
    /// A registry that holds no key.
    pub fn new() -> (registry: KeyRegistry)
        ensures
            registry@ == Seq::<Seq<u8>>::empty(),
    {
        let registry = KeyRegistry { keys: Vec::new() };
        assert(registry@ =~= Seq::<Seq<u8>>::empty());
        registry
    }

    /// Appends a key. A key that is already there is appended again.
    pub fn publish(&mut self, key: Vec<u8>)
        ensures
            final(self)@ == after_publish(old(self)@, key@),
    {
        self.keys.push(key);
        assert(self@ =~= old(self)@.push(key@));
    }

    /// Appends the key that a hexadecimal text stands for, and tells whether
    /// it did: text that is not hexadecimal is refused and changes nothing.
    pub fn publish_text(&mut self, text: &str) -> (taken: bool)
        ensures
            taken == is_hex_text(text@),
            taken ==> final(self)@ == after_publish(old(self)@, hex_bytes(text@)),
            !taken ==> final(self)@ == old(self)@,
    {
        match hex_decode(text) {
            Some(key) => {
                self.publish(key);
                true
            },
            None => false,
        }
    }

    /// The number of keys published so far.
    pub fn len(&self) -> (n: usize)
        ensures
            n == self@.len(),
    {
        self.keys.len()
    }

    /// The key published as the `index`-th, counting from zero.
    pub fn get(&self, index: usize) -> (key: Option<&Vec<u8>>)
        ensures
            match key {
                Some(k) => index < self@.len() && k@ == self@[index as int],
                None => index >= self@.len(),
            },
    {
        if index < self.keys.len() {
            Some(&self.keys[index])
        } else {
            None
        }
    }

    /// All keys published so far, in the order of publication.
    pub fn list(&self) -> (keys: Vec<Vec<u8>>)
        ensures
            byte_strings(keys@) == self@,
            keys@.len() == self@.len(),
            forall|i: int| 0 <= i < keys@.len() ==> (#[trigger] keys@[i])@ == self@[i],
    {
        let mut keys: Vec<Vec<u8>> = Vec::new();
        let mut i: usize = 0;
        while i < self.keys.len()
            invariant
                i <= self.keys@.len(),
                keys@.len() == i,
                forall|j: int| 0 <= j < i ==> (#[trigger] keys@[j])@ == self.keys@[j]@,
            decreases self.keys@.len() - i,
        {
            keys.push(copy_bytes(self.keys[i].as_slice()));
            i = i + 1;
        }
        assert(byte_strings(keys@) =~= self@);
        keys
    }
}

impl KeyRegistry {
    /// All keys published so far as hexadecimal text, in the order of
    /// publication. Each text reads back as the key it was written for.
    pub fn list_texts(&self) -> (listed: Vec<String>)
        ensures
            listed@.len() == self@.len(),
            forall|i: int|
                0 <= i < listed@.len() ==> {
                    &&& (#[trigger] listed@[i])@ == hex_text(self@[i])
                    &&& is_hex_text(listed@[i]@)
                    &&& hex_bytes(listed@[i]@) == self@[i]
                },
    {
        let mut listed: Vec<String> = Vec::new();
        let mut i: usize = 0;
        while i < self.keys.len()
            invariant
                i <= self.keys@.len(),
                listed@.len() == i,
                forall|j: int|
                    0 <= j < i ==> (#[trigger] listed@[j])@ == hex_text(self.keys@[j]@),
            decreases self.keys@.len() - i,
        {
            listed.push(hex_encode(self.keys[i].as_slice()));
            i = i + 1;
        }
        proof {
            assert forall|i: int| 0 <= i < listed@.len() implies is_hex_text(
                (#[trigger] listed@[i])@,
            ) && hex_bytes(listed@[i]@) == self@[i] by {
                lemma_hex_round_trip(self@[i]);
            }
        }
        listed
    }
}

/// Publishing a batch to a registry appends the batch as it stands.
proof fn lemma_publishing_appends(keys: Seq<Seq<u8>>, batch: Seq<Seq<u8>>)
    ensures
        after_publishing(keys, batch) == keys + batch,
    decreases batch.len(),
{
    if batch.len() == 0 {
        assert(keys + batch =~= keys);
    } else {
        lemma_publishing_appends(after_publish(keys, batch.first()), batch.drop_first());
        assert(keys.push(batch.first()) + batch.drop_first() =~= keys + batch);
    }
}

/// Keys are listed in the order in which they were published: a registry
/// that started empty and took a batch of keys one by one lists exactly
/// that batch, with nothing moved and nothing dropped, whether or not a key
/// occurs in it twice.
pub proof fn lemma_registry_keeps_order(batch: Seq<Seq<u8>>)
    ensures
        after_publishing(Seq::<Seq<u8>>::empty(), batch) == batch,
{
    lemma_publishing_appends(Seq::<Seq<u8>>::empty(), batch);
    assert(Seq::<Seq<u8>>::empty() + batch =~= batch);
}

/// Publishing never touches what is already listed: every key stays at the
/// position it had.
pub proof fn lemma_registry_appends_only(keys: Seq<Seq<u8>>, batch: Seq<Seq<u8>>, i: int)
    requires
        0 <= i < keys.len(),
    ensures
        after_publishing(keys, batch).len() == keys.len() + batch.len(),
        after_publishing(keys, batch)[i] == keys[i],
{
    lemma_publishing_appends(keys, batch);
}

} // verus!
