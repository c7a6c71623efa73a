//! The signature schemes: signing, aggregation and verification.
//!
//! Two ways of checking an aggregate exist, and a deployment picks one.
//!
//! * [`Scheme::Augmented`]: every signer signs its own public key followed
//!   by the message, and the aggregate is checked against one payload per
//!   key. A signer cannot choose its key to cancel the others out. The
//!   check costs one pairing for each signer.
//! * [`Scheme::AggregateKey`]: every signer signs the bare message, the
//!   public keys are added up, and the aggregate is checked against that
//!   one key. The check costs the same for any number of signers, and is
//!   only as good as the provenance of the keys: nothing here defends
//!   against a key chosen to cancel the others out.
//!
//! Keys, payloads and signatures are byte strings in the canonical
//! encoding of the scheme. A list of signatures or keys stands for what it
//! holds, not for the order in which it holds it: every list is put in the
//! order of its items' bytes before anything is computed from it.

use vstd::prelude::*;
use crate::bls_backend::{
    bls_aggregate, bls_aggregate_of, bls_is_private_key, bls_is_public_key, bls_is_signature,
    bls_private_key_ok, bls_public_key, bls_public_key_of, bls_public_key_ok,
    bls_random_private_key, bls_sign, bls_signature_of, bls_signature_ok, bls_verifies,
    bls_verify,
};
use crate::bn_backend::{
    bn_add_public_key, bn_add_signature, bn_is_public_key, bn_is_signature, bn_private_key_ok,
    bn_public_key, bn_public_key_of, bn_public_key_ok, bn_public_key_sum,
    bn_random_private_key, bn_sign, bn_signature_of, bn_signature_ok, bn_signature_sum,
    bn_verifies, bn_verify,
};
use crate::bytes::{byte_strings, concat_bytes, copy_bytes, opt_bytes, sum_bytes};
use crate::order::{in_order, lemma_in_order, lemma_order_forgets_arrival, sorted_copy};

verus! {

/// How an aggregate is checked, and so what each signer signs.
#[derive(Clone, Copy, Debug, PartialEq, Eq, Structural)]
pub enum Scheme {
    /// Each signer signs its public key followed by the message.
    Augmented,
    /// Each signer signs the message; the check adds the public keys up.
    AggregateKey,
}

/// Why a key or a signature could not be produced.
#[derive(Clone, Copy, Debug, PartialEq, Eq, Structural)]
pub enum SchemeError {
    /// The private key is not a scalar of the scheme.
    InvalidKey,
    /// Nothing was given to add up.
    EmptyInput,
    /// One of the signatures is not the encoding of a point.
    MalformedSignature,
    /// One of the public keys is not the encoding of a point.
    MalformedKey,
    /// The result is the identity of its group, or no point could be
    /// derived from the payload: there is nothing to encode.
    Degenerate,
}

/// What a result holds.
pub open spec fn result_bytes(r: Result<Vec<u8>, SchemeError>) -> Result<Seq<u8>, SchemeError> {
    match r {
        Ok(v) => Ok(v@),
        Err(e) => Err(e),
    }
}

/// Bytes that are a private key of the scheme.
pub open spec fn is_private_key(scheme: Scheme, private: Seq<u8>) -> bool {
    match scheme {
        Scheme::Augmented => bls_is_private_key(private),
        Scheme::AggregateKey => private.len() == 32,
    }
}

/// Bytes that are the encoding of a public key of the scheme.
pub open spec fn is_public_key(scheme: Scheme, public: Seq<u8>) -> bool {
    match scheme {
        Scheme::Augmented => bls_is_public_key(public),
        Scheme::AggregateKey => bn_is_public_key(public),
    }
}

/// Bytes that are the encoding of a signature of the scheme.
pub open spec fn is_signature(scheme: Scheme, signature: Seq<u8>) -> bool {
    match scheme {
        Scheme::Augmented => bls_is_signature(signature),
        Scheme::AggregateKey => bn_is_signature(signature),
    }
}

/// The public key of a private key, where it has an encoding.
pub open spec fn public_key_of(scheme: Scheme, private: Seq<u8>) -> Option<Seq<u8>> {
    match scheme {
        Scheme::Augmented => if bls_is_private_key(private) {
            Some(bls_public_key_of(private))
        } else {
            None
        },
        Scheme::AggregateKey => bn_public_key_of(private),
    }
}

/// The signature of a payload under a private key, where it has an encoding.
pub open spec fn signature_of(scheme: Scheme, private: Seq<u8>, payload: Seq<u8>) -> Option<
    Seq<u8>,
> {
    match scheme {
        Scheme::Augmented => if bls_is_private_key(private) {
            Some(bls_signature_of(private, payload))
        } else {
            None
        },
        Scheme::AggregateKey => bn_signature_of(private, payload),
    }
}

/// What is returned for a private key that did or did not pass its check,
/// and for what the arithmetic made of it.
pub open spec fn keyed_outcome(key_ok: bool, made: Option<Seq<u8>>) -> Result<
    Seq<u8>,
    SchemeError,
> {
    if !key_ok {
        Err(SchemeError::InvalidKey)
    } else {
        match made {
            Some(bytes) => Ok(bytes),
            None => Err(SchemeError::Degenerate),
        }
    }
}

/// The result of deriving or signing, from the outcome of the key check and
/// of the arithmetic.
pub fn keyed_result(key_ok: bool, made: Option<Vec<u8>>) -> (r: Result<Vec<u8>, SchemeError>)
    ensures
        result_bytes(r) == keyed_outcome(key_ok, opt_bytes(made)),
{
    if !key_ok {
        Err(SchemeError::InvalidKey)
    } else {
        match made {
            Some(bytes) => Ok(bytes),
            None => Err(SchemeError::Degenerate),
        }
    }
}

/// What [`derive_public_key`] returns.
pub open spec fn derive_spec(scheme: Scheme, private: Seq<u8>) -> Result<Seq<u8>, SchemeError> {
    keyed_outcome(is_private_key(scheme, private), public_key_of(scheme, private))
}

/// The public key that belongs to a private key.
///
/// Fails with `InvalidKey` exactly where the bytes are no private key of the
/// scheme, and with `Degenerate` where the public key has no encoding.
pub fn derive_public_key(scheme: Scheme, private: &[u8]) -> (r: Result<Vec<u8>, SchemeError>)
    ensures
        result_bytes(r) == derive_spec(scheme, private@),
        r == Err::<Vec<u8>, SchemeError>(SchemeError::InvalidKey) <==> !is_private_key(
            scheme,
            private@,
        ),
{
    match scheme {
        Scheme::Augmented => {
            let ok = bls_private_key_ok(private);
            let made = bls_public_key(private);
            keyed_result(ok, made)
        },
        Scheme::AggregateKey => {
            let ok = bn_private_key_ok(private);
            let made = bn_public_key(private);
            keyed_result(ok, made)
        },
    }
}

/// What [`sign`] returns.
pub open spec fn sign_spec(scheme: Scheme, private: Seq<u8>, payload: Seq<u8>) -> Result<
    Seq<u8>,
    SchemeError,
> {
    keyed_outcome(is_private_key(scheme, private), signature_of(scheme, private, payload))
}

/// Signs a payload as it stands.
///
/// Fails with `InvalidKey` exactly where the bytes are no private key of the
/// scheme, and with `Degenerate` where the signature has no encoding.
pub fn sign(scheme: Scheme, private: &[u8], payload: &[u8]) -> (r: Result<Vec<u8>, SchemeError>)
    ensures
        result_bytes(r) == sign_spec(scheme, private@, payload@),
        r == Err::<Vec<u8>, SchemeError>(SchemeError::InvalidKey) <==> !is_private_key(
            scheme,
            private@,
        ),
{
    match scheme {
        Scheme::Augmented => {
            let ok = bls_private_key_ok(private);
            let made = bls_sign(private, payload);
            keyed_result(ok, made)
        },
        Scheme::AggregateKey => {
            let ok = bn_private_key_ok(private);
            let made = bn_sign(private, payload);
            keyed_result(ok, made)
        },
    }
}

/// A public key followed by a message: what a signer signs in place of the
/// bare message, so that no two signers sign the same bytes.
pub open spec fn augmented(public: Seq<u8>, message: Seq<u8>) -> Seq<u8> {
    public + message
}

/// The bytes that the holder of `public` signs to endorse `message`.
pub open spec fn payload_for(scheme: Scheme, public: Seq<u8>, message: Seq<u8>) -> Seq<u8> {
    match scheme {
        Scheme::Augmented => augmented(public, message),
        Scheme::AggregateKey => message,
    }
}

/// The payloads of a list of signers, in the order of their keys.
pub open spec fn payloads_for(scheme: Scheme, publics: Seq<Seq<u8>>, message: Seq<u8>) -> Seq<
    Seq<u8>,
> {
    Seq::new(publics.len(), |i: int| payload_for(scheme, publics[i], message))
}

/// Puts a public key in front of a message.
pub fn augment(public: &[u8], message: &[u8]) -> (payload: Vec<u8>)
    ensures
        payload@ == augmented(public@, message@),
{
    concat_bytes(public, message)
}

/// The bytes that the holder of `public` signs to endorse `message`.
pub fn payload(scheme: Scheme, public: &[u8], message: &[u8]) -> (bytes: Vec<u8>)
    ensures
        bytes@ == payload_for(scheme, public@, message@),
{
    match scheme {
        Scheme::Augmented => augment(public, message),
        Scheme::AggregateKey => copy_bytes(message),
    }
}

/// Under [`Scheme::Augmented`] two signers with different public keys never
/// sign the same bytes, whatever messages they endorse: the payload begins
/// with the key, and all keys are of one length.
pub proof fn lemma_payloads_of_different_keys_differ(
    first: Seq<u8>,
    second: Seq<u8>,
    message: Seq<u8>,
    other: Seq<u8>,
)
    requires
        is_public_key(Scheme::Augmented, first),
        is_public_key(Scheme::Augmented, second),
        first != second,
    ensures
        payload_for(Scheme::Augmented, first, message) != payload_for(
            Scheme::Augmented,
            second,
            other,
        ),
{
    let one = augmented(first, message);
    let two = augmented(second, other);
    assert(one.subrange(0, 48) =~= first);
    assert(two.subrange(0, 48) =~= second);
}

/// A payload under [`Scheme::Augmented`] tells which key and which message
/// it was put together from, once the length of the key is known.
pub proof fn lemma_payload_splits(public: Seq<u8>, message: Seq<u8>)
    ensures
        augmented(public, message).subrange(0, public.len() as int) == public,
        augmented(public, message).subrange(
            public.len() as int,
            augmented(public, message).len() as int,
        ) == message,
        augmented(public, message).len() == public.len() + message.len(),
{
    let all = augmented(public, message);
    assert(all.subrange(0, public.len() as int) =~= public);
    assert(all.subrange(public.len() as int, all.len() as int) =~= message);
}

/// A running sum over a list: `None` once a term could not be read,
/// `Some(None)` for the identity.
pub open spec fn bn_fold_signatures(signatures: Seq<Seq<u8>>) -> Option<Option<Seq<u8>>>
    decreases signatures.len(),
{
    if signatures.len() == 0 {
        Some(None)
    } else {
        match bn_fold_signatures(signatures.drop_last()) {
            Some(sum) => bn_signature_sum(sum, signatures.last()),
            None => None,
        }
    }
}

/// A running sum over a list of public keys, as [`bn_fold_signatures`].
pub open spec fn bn_fold_public_keys(publics: Seq<Seq<u8>>) -> Option<Option<Seq<u8>>>
    decreases publics.len(),
{
    if publics.len() == 0 {
        Some(None)
    } else {
        match bn_fold_public_keys(publics.drop_last()) {
            Some(sum) => bn_public_key_sum(sum, publics.last()),
            None => None,
        }
    }
}

/// The sum of a list of signatures: `None` where one of them could not be
/// read, `Some(None)` for the identity.
pub open spec fn signature_sum(scheme: Scheme, signatures: Seq<Seq<u8>>) -> Option<
    Option<Seq<u8>>,
> {
    match scheme {
        Scheme::Augmented => if forall|i: int|
            0 <= i < signatures.len() ==> bls_is_signature(#[trigger] signatures[i]) {
            Some(Some(bls_aggregate_of(signatures)))
        } else {
            None
        },
        Scheme::AggregateKey => bn_fold_signatures(signatures),
    }
}

/// What adding up `count` terms returns, from what their sum came to.
/// `unread` is the error for a term that could not be read.
pub open spec fn sum_outcome(count: nat, sum: Option<Option<Seq<u8>>>, unread: SchemeError) -> Result<
    Seq<u8>,
    SchemeError,
> {
    if count == 0 {
        Err(SchemeError::EmptyInput)
    } else {
        match sum {
            None => Err(unread),
            Some(None) => Err(SchemeError::Degenerate),
            Some(Some(bytes)) => Ok(bytes),
        }
    }
}

/// The result of adding up `count` terms, from what their sum came to.
pub fn sum_result(count: usize, sum: Option<Option<Vec<u8>>>, unread: SchemeError) -> (r: Result<
    Vec<u8>,
    SchemeError,
>)
    ensures
        result_bytes(r) == sum_outcome(count as nat, sum_bytes(sum), unread),
{
    if count == 0 {
        Err(SchemeError::EmptyInput)
    } else {
        match sum {
            None => Err(unread),
            Some(None) => Err(SchemeError::Degenerate),
            Some(Some(bytes)) => Ok(bytes),
        }
    }
}

/// What [`aggregate`] returns: the outcome of adding up the signatures in
/// the order of their bytes.
pub open spec fn aggregate_spec(scheme: Scheme, signatures: Seq<Seq<u8>>) -> Result<
    Seq<u8>,
    SchemeError,
> {
    sum_outcome(
        signatures.len(),
        signature_sum(scheme, in_order(signatures)),
        SchemeError::MalformedSignature,
    )
}

/// What [`aggregate_public_keys`] returns: the outcome of adding up the
/// keys in the order of their bytes.
pub open spec fn aggregate_key_spec(publics: Seq<Seq<u8>>) -> Result<Seq<u8>, SchemeError> {
    sum_outcome(publics.len(), bn_fold_public_keys(in_order(publics)), SchemeError::MalformedKey)
}

/// A sum that failed on a prefix of a list fails on the list.
proof fn lemma_signature_failure_stays(signatures: Seq<Seq<u8>>, k: int)
    requires
        0 <= k <= signatures.len(),
        bn_fold_signatures(signatures.take(k)) is None,
    ensures
        bn_fold_signatures(signatures) is None,
    decreases signatures.len() - k,
{
    if k < signatures.len() {
        assert(signatures.take(k + 1).drop_last() == signatures.take(k));
        lemma_signature_failure_stays(signatures, k + 1);
    } else {
        assert(signatures.take(k) == signatures);
    }
}

/// A sum of keys that failed on a prefix of a list fails on the list.
proof fn lemma_key_failure_stays(publics: Seq<Seq<u8>>, k: int)
    requires
        0 <= k <= publics.len(),
        bn_fold_public_keys(publics.take(k)) is None,
    ensures
        bn_fold_public_keys(publics) is None,
    decreases publics.len() - k,
{
    if k < publics.len() {
        assert(publics.take(k + 1).drop_last() == publics.take(k));
        lemma_key_failure_stays(publics, k + 1);
    } else {
        assert(publics.take(k) == publics);
    }
}

/// Adds up signatures term by term.
fn bn_sum_signatures(signatures: &Vec<Vec<u8>>) -> (sum: Option<Option<Vec<u8>>>)
    ensures
        sum_bytes(sum) == bn_fold_signatures(byte_strings(signatures@)),
        sum is None <==> exists|i: int|
            0 <= i < signatures@.len() && !bn_is_signature(#[trigger] signatures@[i]@),
{
    let ghost all = byte_strings(signatures@);
    let mut sum: Option<Vec<u8>> = None;
    let mut i: usize = 0;
    while i < signatures.len()
        invariant
            i <= signatures@.len(),
            all == byte_strings(signatures@),
            bn_fold_signatures(all.take(i as int)) == Some(opt_bytes(sum)),
            sum matches Some(b) ==> bn_is_signature(b@),
            forall|j: int| 0 <= j < i ==> bn_is_signature(#[trigger] signatures@[j]@),
        decreases signatures@.len() - i,
    {
        let next = bn_add_signature(&sum, signatures[i].as_slice());
        proof {
            assert(all.take(i + 1).drop_last() == all.take(i as int));
            assert(all.take(i + 1).last() == signatures@[i as int]@);
        }
        match next {
            None => {
                proof {
                    lemma_signature_failure_stays(all, i + 1);
                    assert(!bn_is_signature(signatures@[i as int]@));
                }
                return None;
            },
            Some(value) => {
                sum = value;
            },
        }
        i = i + 1;
    }
    proof {
        assert(all.take(i as int) == all);
    }
    Some(sum)
}

/// Adds up public keys term by term.
fn bn_sum_public_keys(publics: &Vec<Vec<u8>>) -> (sum: Option<Option<Vec<u8>>>)
    ensures
        sum_bytes(sum) == bn_fold_public_keys(byte_strings(publics@)),
        sum is None <==> exists|i: int|
            0 <= i < publics@.len() && !bn_is_public_key(#[trigger] publics@[i]@),
        sum matches Some(Some(b)) ==> bn_is_public_key(b@),
{
    let ghost all = byte_strings(publics@);
    let mut sum: Option<Vec<u8>> = None;
    let mut i: usize = 0;
    while i < publics.len()
        invariant
            i <= publics@.len(),
            all == byte_strings(publics@),
            bn_fold_public_keys(all.take(i as int)) == Some(opt_bytes(sum)),
            sum matches Some(b) ==> bn_is_public_key(b@),
            forall|j: int| 0 <= j < i ==> bn_is_public_key(#[trigger] publics@[j]@),
        decreases publics@.len() - i,
    {
        let next = bn_add_public_key(&sum, publics[i].as_slice());
        proof {
            assert(all.take(i + 1).drop_last() == all.take(i as int));
            assert(all.take(i + 1).last() == publics@[i as int]@);
        }
        match next {
            None => {
                proof {
                    lemma_key_failure_stays(all, i + 1);
                    assert(!bn_is_public_key(publics@[i as int]@));
                }
                return None;
            },
            Some(value) => {
                sum = value;
            },
        }
        i = i + 1;
    }
    proof {
        assert(all.take(i as int) == all);
    }
    Some(sum)
}

/// Whether bytes decode as a signature of the scheme.
pub fn signature_decodes(scheme: Scheme, signature: &[u8]) -> (ok: bool)
    ensures
        ok == is_signature(scheme, signature@),
{
    match scheme {
        Scheme::Augmented => bls_signature_ok(signature),
        Scheme::AggregateKey => bn_signature_ok(signature),
    }
}

/// Whether bytes decode as a public key of the scheme.
pub fn public_key_decodes(scheme: Scheme, public: &[u8]) -> (ok: bool)
    ensures
        ok == is_public_key(scheme, public@),
{
    match scheme {
        Scheme::Augmented => bls_public_key_ok(public),
        Scheme::AggregateKey => bn_public_key_ok(public),
    }
}

/// Whether some signature of a list fails to decode.
pub open spec fn some_signature_unread(scheme: Scheme, signatures: Seq<Seq<u8>>) -> bool {
    exists|i: int| 0 <= i < signatures.len() && !is_signature(scheme, #[trigger] signatures[i])
}

/// Whether some public key of a list fails to decode.
pub open spec fn some_key_unread(scheme: Scheme, publics: Seq<Seq<u8>>) -> bool {
    exists|i: int| 0 <= i < publics.len() && !is_public_key(scheme, #[trigger] publics[i])
}

/// Whether the signatures of a list all decode and cancel each other out,
/// so that their sum is the identity and the scheme cannot write it.
pub open spec fn sum_vanishes(scheme: Scheme, signatures: Seq<Seq<u8>>) -> bool {
    signature_sum(scheme, in_order(signatures)) == Some(None::<Seq<u8>>)
}

/// A list of byte strings has an item that does not decode exactly where
/// the strings it was read from have one.
proof fn lemma_unread_items(scheme: Scheme, items: Seq<Vec<u8>>)
    ensures
        some_signature_unread(scheme, byte_strings(items)) <==> exists|i: int|
            0 <= i < items.len() && !is_signature(scheme, #[trigger] items[i]@),
        some_key_unread(scheme, byte_strings(items)) <==> exists|i: int|
            0 <= i < items.len() && !is_public_key(scheme, #[trigger] items[i]@),
{
    let all = byte_strings(items);
    if some_signature_unread(scheme, all) {
        let i = choose|i: int| 0 <= i < all.len() && !is_signature(scheme, #[trigger] all[i]);
        assert(!is_signature(scheme, items[i]@));
    }
    if exists|i: int| 0 <= i < items.len() && !is_signature(scheme, #[trigger] items[i]@) {
        let i = choose|i: int| 0 <= i < items.len() && !is_signature(scheme, #[trigger] items[i]@);
        assert(!is_signature(scheme, all[i]));
    }
    if some_key_unread(scheme, all) {
        let i = choose|i: int| 0 <= i < all.len() && !is_public_key(scheme, #[trigger] all[i]);
        assert(!is_public_key(scheme, items[i]@));
    }
    if exists|i: int| 0 <= i < items.len() && !is_public_key(scheme, #[trigger] items[i]@) {
        let i = choose|i: int| 0 <= i < items.len() && !is_public_key(scheme, #[trigger] items[i]@);
        assert(!is_public_key(scheme, all[i]));
    }
}

/// A list in order has an item that does not decode exactly where the list
/// has one.
proof fn lemma_unread_in_any_order(scheme: Scheme, signatures: Seq<Seq<u8>>)
    ensures
        some_signature_unread(scheme, in_order(signatures)) == some_signature_unread(
            scheme,
            signatures,
        ),
        some_key_unread(scheme, in_order(signatures)) == some_key_unread(scheme, signatures),
{
    let ordered = in_order(signatures);
    lemma_in_order(signatures);
    if some_signature_unread(scheme, signatures) {
        let i = choose|i: int|
            0 <= i < signatures.len() && !is_signature(scheme, #[trigger] signatures[i]);
        assert(signatures.contains(signatures[i]));
        assert(ordered.contains(signatures[i]));
        let j = choose|j: int| 0 <= j < ordered.len() && ordered[j] == signatures[i];
        assert(!is_signature(scheme, ordered[j]));
    }
    if some_signature_unread(scheme, ordered) {
        let i = choose|i: int| 0 <= i < ordered.len() && !is_signature(scheme, #[trigger] ordered[i]);
        assert(ordered.contains(ordered[i]));
        assert(signatures.contains(ordered[i]));
        let j = choose|j: int| 0 <= j < signatures.len() && signatures[j] == ordered[i];
        assert(!is_signature(scheme, signatures[j]));
    }
    if some_key_unread(scheme, signatures) {
        let i = choose|i: int|
            0 <= i < signatures.len() && !is_public_key(scheme, #[trigger] signatures[i]);
        assert(signatures.contains(signatures[i]));
        assert(ordered.contains(signatures[i]));
        let j = choose|j: int| 0 <= j < ordered.len() && ordered[j] == signatures[i];
        assert(!is_public_key(scheme, ordered[j]));
    }
    if some_key_unread(scheme, ordered) {
        let i = choose|i: int| 0 <= i < ordered.len() && !is_public_key(scheme, #[trigger] ordered[i]);
        assert(ordered.contains(ordered[i]));
        assert(signatures.contains(ordered[i]));
        let j = choose|j: int| 0 <= j < signatures.len() && signatures[j] == ordered[i];
        assert(!is_public_key(scheme, signatures[j]));
    }
}

/// Combines signatures into one of the same form, by adding up the points
/// that they encode. The signatures are added in the order of their bytes,
/// whatever order they are given in.
///
/// Fails with `EmptyInput` exactly on an empty list, with
/// `MalformedSignature` exactly where the list is not empty and one of its
/// signatures does not decode, and with `Degenerate` exactly where the list
/// is not empty, every signature decodes, and their sum is the identity,
/// for which [`Scheme::AggregateKey`] has no encoding. On every other list
/// it succeeds.
pub fn aggregate(scheme: Scheme, signatures: &Vec<Vec<u8>>) -> (r: Result<Vec<u8>, SchemeError>)
    ensures
        result_bytes(r) == aggregate_spec(scheme, byte_strings(signatures@)),
        r == Err::<Vec<u8>, SchemeError>(SchemeError::EmptyInput) <==> signatures@.len() == 0,
        r == Err::<Vec<u8>, SchemeError>(SchemeError::MalformedSignature) <==> signatures@.len()
            > 0 && exists|i: int|
            0 <= i < signatures@.len() && !is_signature(scheme, #[trigger] signatures@[i]@),
        some_signature_unread(scheme, byte_strings(signatures@)) <==> exists|i: int|
            0 <= i < signatures@.len() && !is_signature(scheme, #[trigger] signatures@[i]@),
        r == Err::<Vec<u8>, SchemeError>(SchemeError::Degenerate) <==> signatures@.len() > 0
            && sum_vanishes(scheme, byte_strings(signatures@)),
        scheme == Scheme::Augmented ==> !sum_vanishes(scheme, byte_strings(signatures@)),
{
    let ghost all = byte_strings(signatures@);
    let ordered = sorted_copy(signatures);
    let sum = match scheme {
        Scheme::Augmented => match bls_aggregate(&ordered) {
            Some(total) => Some(Some(total)),
            None => None,
        },
        Scheme::AggregateKey => bn_sum_signatures(&ordered),
    };
    proof {
        lemma_unread_in_any_order(scheme, all);
        lemma_unread_items(scheme, signatures@);
        lemma_unread_items(scheme, ordered@);
    }
    sum_result(signatures.len(), sum, SchemeError::MalformedSignature)
}

/// The aggregate of a list of signatures is the same in whatever order the
/// signatures stand: two lists that hold the same signatures, each as often
/// in one as in the other, have the same aggregate or fail alike.
pub proof fn lemma_aggregate_any_order(scheme: Scheme, a: Seq<Seq<u8>>, b: Seq<Seq<u8>>)
    requires
        a.to_multiset() == b.to_multiset(),
    ensures
        aggregate_spec(scheme, a) == aggregate_spec(scheme, b),
{
    lemma_order_forgets_arrival(a, b);
    a.to_multiset_ensures();
    b.to_multiset_ensures();
}

/// Adds up the public keys of [`Scheme::AggregateKey`] into the one key
/// that an aggregate of their signatures is checked against. The keys are
/// added in the order of their bytes, whatever order they are given in.
///
/// Fails with `EmptyInput` exactly on an empty list, with `MalformedKey`
/// exactly where the list is not empty and one of its keys does not decode,
/// and with `Degenerate` where the sum is the identity.
pub fn aggregate_public_keys(publics: &Vec<Vec<u8>>) -> (r: Result<Vec<u8>, SchemeError>)
    ensures
        result_bytes(r) == aggregate_key_spec(byte_strings(publics@)),
        r == Err::<Vec<u8>, SchemeError>(SchemeError::EmptyInput) <==> publics@.len() == 0,
        r == Err::<Vec<u8>, SchemeError>(SchemeError::MalformedKey) <==> publics@.len() > 0
            && exists|i: int|
            0 <= i < publics@.len() && !bn_is_public_key(#[trigger] publics@[i]@),
        r matches Ok(sum) ==> bn_is_public_key(sum@),
{
    let ghost all = byte_strings(publics@);
    let ordered = sorted_copy(publics);
    let total = bn_sum_public_keys(&ordered);
    proof {
        lemma_unread_in_any_order(Scheme::AggregateKey, all);
        lemma_unread_items(Scheme::AggregateKey, publics@);
        lemma_unread_items(Scheme::AggregateKey, ordered@);
    }
    sum_result(publics.len(), total, SchemeError::MalformedKey)
}

/// Whether an aggregate stands for the endorsement of `message` by the
/// holders of `publics`.
///
/// Under [`Scheme::Augmented`] the aggregate is checked against one payload
/// for each key, the key followed by the message. Under
/// [`Scheme::AggregateKey`] the keys are added up and the aggregate is
/// checked against the message and that one key. Either way the keys are
/// taken in the order of their bytes.
pub open spec fn verifies(
    scheme: Scheme,
    signature: Seq<u8>,
    message: Seq<u8>,
    publics: Seq<Seq<u8>>,
) -> bool {
    match scheme {
        Scheme::Augmented => bls_verifies(
            signature,
            payloads_for(scheme, in_order(publics), message),
            in_order(publics),
        ),
        Scheme::AggregateKey => match bn_fold_public_keys(in_order(publics)) {
            Some(Some(key)) => bn_verifies(message, signature, key),
            _ => false,
        },
    }
}

/// The payloads that the holders of `publics` sign under
/// [`Scheme::Augmented`], in the order of the keys.
pub fn augmented_payloads(publics: &Vec<Vec<u8>>, message: &[u8]) -> (payloads: Vec<Vec<u8>>)
    ensures
        byte_strings(payloads@) == payloads_for(
            Scheme::Augmented,
            byte_strings(publics@),
            message@,
        ),
{
    let mut payloads: Vec<Vec<u8>> = Vec::new();
    let mut i: usize = 0;
    while i < publics.len()
        invariant
            i <= publics@.len(),
            payloads@.len() == i,
            forall|j: int|
                0 <= j < i ==> (#[trigger] payloads@[j])@ == augmented(publics@[j]@, message@),
        decreases publics@.len() - i,
    {
        payloads.push(augment(publics[i].as_slice(), message));
        i = i + 1;
    }
    assert(byte_strings(payloads@) =~= payloads_for(
        Scheme::Augmented,
        byte_strings(publics@),
        message@,
    ));
    payloads
}

/// Checks an aggregate against a message and the public keys of those who
/// are said to have signed it.
///
/// Never fails: where the signature or a key does not decode, or no key is
/// given, the answer is `false`.
pub fn verify(scheme: Scheme, signature: &[u8], message: &[u8], publics: &Vec<Vec<u8>>) -> (ok:
    bool)
    ensures
        ok == verifies(scheme, signature@, message@, byte_strings(publics@)),
        ok ==> is_signature(scheme, signature@),
        ok ==> publics@.len() > 0,
        ok ==> forall|i: int|
            0 <= i < publics@.len() ==> is_public_key(scheme, #[trigger] publics@[i]@),
{
    let ghost all = byte_strings(publics@);
    let ordered = sorted_copy(publics);
    proof {
        lemma_unread_in_any_order(scheme, all);
        lemma_unread_items(scheme, publics@);
        lemma_unread_items(scheme, ordered@);
    }
    match scheme {
        Scheme::Augmented => {
            let payloads = augmented_payloads(&ordered, message);
            bls_verify(signature, &payloads, &ordered)
        },
        Scheme::AggregateKey => {
            match bn_sum_public_keys(&ordered) {
                Some(Some(key)) => bn_verify(message, signature, key.as_slice()),
                _ => false,
            }
        },
    }
}

/// Whether an aggregate verifies does not depend on the order in which the
/// keys are given: two lists that hold the same keys, each as often in one
/// as in the other, give the same answer.
pub proof fn lemma_verify_any_order(
    scheme: Scheme,
    signature: Seq<u8>,
    message: Seq<u8>,
    a: Seq<Seq<u8>>,
    b: Seq<Seq<u8>>,
)
    requires
        a.to_multiset() == b.to_multiset(),
    ensures
        verifies(scheme, signature, message, a) == verifies(scheme, signature, message, b),
{
    lemma_order_forgets_arrival(a, b);
}

/// Under [`Scheme::AggregateKey`] an aggregate verifies against a list of
/// keys exactly where the keys add up to one key and the aggregate passes
/// the pairing check against it: nothing but the sum of the keys enters.
pub proof fn lemma_verify_by_the_aggregate_key(
    signature: Seq<u8>,
    message: Seq<u8>,
    publics: Seq<Seq<u8>>,
)
    ensures
        verifies(Scheme::AggregateKey, signature, message, publics) <==> (
        aggregate_key_spec(publics) matches Ok(key) && bn_verifies(message, signature, key)),
{
    lemma_in_order(publics);
    if publics.len() == 0 {
        assert(in_order(publics) =~= Seq::<Seq<u8>>::empty());
    }
}

/// A private key with the public key that belongs to it.
pub struct KeyPair {
    scheme: Scheme,
    private: Vec<u8>,
    public: Vec<u8>,
}

impl KeyPair {
    #[verifier::type_invariant]
    spec fn well_formed(self) -> bool {
        &&& is_private_key(self.scheme, self.private@)
        &&& public_key_of(self.scheme, self.private@) == Some(self.public@)
    }

    /// The scheme that the keys belong to.
    pub closed spec fn scheme_of(self) -> Scheme {
        self.scheme
    }

    /// The private key. No executable function hands it out.
    pub closed spec fn private_of(self) -> Seq<u8> {
        self.private@
    }

    /// The public key.
    pub closed spec fn public_of(self) -> Seq<u8> {
        self.public@
    }

    /// The pair of a private key and the public key derived from it.
    ///
    /// Fails as [`derive_public_key`] does.
    pub fn from_private(scheme: Scheme, private: Vec<u8>) -> (r: Result<KeyPair, SchemeError>)
        ensures
            match r {
                Ok(pair) => {
                    &&& pair.scheme_of() == scheme
                    &&& pair.private_of() == private@
                    &&& derive_spec(scheme, private@) == Ok::<Seq<u8>, SchemeError>(
                        pair.public_of(),
                    )
                },
                Err(e) => derive_spec(scheme, private@) == Err::<Seq<u8>, SchemeError>(e),
            },
    {
        match derive_public_key(scheme, private.as_slice()) {
            Ok(public) => Ok(KeyPair { scheme, private, public }),
            Err(e) => Err(e),
        }
    }

    /// A pair with a private key drawn from the system's random generator.
    ///
    /// Whatever is drawn is a private key of the scheme and goes through
    /// [`KeyPair::from_private`]. Under [`Scheme::Augmented`] every key that
    /// is drawn gives a pair. Under [`Scheme::AggregateKey`] the one way to
    /// fail is `Degenerate`, for a key whose public key has no encoding.
    pub fn generate(scheme: Scheme) -> (r: Result<KeyPair, SchemeError>)
        ensures
            match r {
                Ok(pair) => {
                    &&& pair.scheme_of() == scheme
                    &&& pair.private_of().len() == 32
                    &&& is_private_key(scheme, pair.private_of())
                    &&& public_key_of(scheme, pair.private_of()) == Some(pair.public_of())
                },
                Err(e) => scheme == Scheme::AggregateKey && e == SchemeError::Degenerate,
            },
            scheme == Scheme::Augmented ==> r is Ok,
    {
        let drawn = match scheme {
            Scheme::Augmented => Some(bls_random_private_key()),
            Scheme::AggregateKey => bn_random_private_key(),
        };
        match drawn {
            Some(private) => KeyPair::from_private(scheme, private),
            None => Err(SchemeError::InvalidKey),
        }
    }

    /// The scheme that the keys belong to.
    pub fn scheme(&self) -> (scheme: Scheme)
        ensures
            scheme == self.scheme_of(),
    {
        self.scheme
    }

    /// The public key in its canonical encoding: the one derived from the
    /// private key of the pair.
    pub fn public_key(&self) -> (public: &Vec<u8>)
        ensures
            public@ == self.public_of(),
            is_private_key(self.scheme_of(), self.private_of()),
            public_key_of(self.scheme_of(), self.private_of()) == Some(public@),
    {
        proof {
            use_type_invariant(self);
        }
        &self.public
    }

    /// Signs the payload by which this pair endorses `message`: the public
    /// key followed by the message under [`Scheme::Augmented`], the message
    /// alone under [`Scheme::AggregateKey`].
    ///
    /// Fails with `Degenerate` where the signature has no encoding, and in
    /// no other way.
    pub fn endorse(&self, message: &[u8]) -> (r: Result<Vec<u8>, SchemeError>)
        ensures
            result_bytes(r) == sign_spec(
                self.scheme_of(),
                self.private_of(),
                payload_for(self.scheme_of(), self.public_of(), message@),
            ),
            r is Err ==> r == Err::<Vec<u8>, SchemeError>(SchemeError::Degenerate),
    {
        proof {
            use_type_invariant(self);
        }
        let bytes = payload(self.scheme, self.public.as_slice(), message);
        sign(self.scheme, self.private.as_slice(), bytes.as_slice())
    }
}

} // verus!
