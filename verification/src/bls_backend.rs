//! The pairing arithmetic of the `bls-signatures` crate, reached through
//! byte strings.
//!
//! Signatures are compressed points of 96 bytes, public keys compressed
//! points of 48 bytes, private keys scalars of 32 bytes with the low byte
//! first.
//!
//! Nothing in this file is proved. Each function makes the call that its
//! comment names, and its contract says what that call is taken to do.

use bls_signatures::Serialize;
use vstd::prelude::*;
use crate::bytes::{byte_strings, little_endian};

verus! {

/// The order of the scalar field: private keys are the numbers below it.
pub open spec fn bls_scalar_modulus() -> nat {
    0x73eda753299d7d483339d80809a1d80553bda402fffe5bfeffffffff00000001nat
}

/// Bytes that are a private key: 32 of them, writing a number below the
/// order of the scalar field.
pub open spec fn bls_is_private_key(private: Seq<u8>) -> bool {
    private.len() == 32 && little_endian(private) < bls_scalar_modulus()
}

/// The compressed public key that belongs to a private key.
pub uninterp spec fn bls_public_key_of(private: Seq<u8>) -> Seq<u8>;

/// The compressed signature of a payload under a private key.
pub uninterp spec fn bls_signature_of(private: Seq<u8>, payload: Seq<u8>) -> Seq<u8>;

/// Whether `bls_signatures::Signature::from_bytes` takes the bytes.
pub uninterp spec fn bls_signature_point(signature: Seq<u8>) -> bool;

/// Whether `bls_signatures::PublicKey::from_bytes` takes the bytes.
pub uninterp spec fn bls_public_key_point(public: Seq<u8>) -> bool;

/// Bytes that are the compressed form of a signature: 96 of them, which
/// decode to a point.
pub open spec fn bls_is_signature(signature: Seq<u8>) -> bool {
    signature.len() == 96 && bls_signature_point(signature)
}

/// Bytes that are the compressed form of a public key: 48 of them, which
/// decode to a point.
pub open spec fn bls_is_public_key(public: Seq<u8>) -> bool {
    public.len() == 48 && bls_public_key_point(public)
}

/// The compressed sum of a list of signatures that all decode.
pub uninterp spec fn bls_aggregate_of(signatures: Seq<Seq<u8>>) -> Seq<u8>;

/// Whether an aggregate passes the pairing check for a list of payloads and
/// the public keys they were signed under, one payload for each key.
pub uninterp spec fn bls_verifies(
    signature: Seq<u8>,
    payloads: Seq<Seq<u8>>,
    publics: Seq<Seq<u8>>,
) -> bool;

/// Calls `bls_signatures::PrivateKey::from_bytes`, which takes 32 bytes
/// that write a number below the field's order and refuses the rest.
#[verifier::external_body]
pub(crate) fn bls_private_key_ok(private: &[u8]) -> (ok: bool)
    ensures
        ok == bls_is_private_key(private@),
{
    bls_signatures::PrivateKey::from_bytes(private).is_ok()
}

/// Calls `bls_signatures::PrivateKey::generate` on the system's generator
/// and `as_bytes` on the key, which writes the scalar as the 32 bytes of a
/// number below the field's order.
#[verifier::external_body]
pub(crate) fn bls_random_private_key() -> (private: Vec<u8>)
    ensures
        bls_is_private_key(private@),
{
    bls_signatures::PrivateKey::generate(&mut rand_core::OsRng).as_bytes()
}

/// Calls `bls_signatures::PrivateKey::public_key` and `as_bytes` on the
/// key; `None` where the private key does not decode.
#[verifier::external_body]
pub(crate) fn bls_public_key(private: &[u8]) -> (public: Option<Vec<u8>>)
    ensures
        public is Some <==> bls_is_private_key(private@),
        public matches Some(p) ==> p@ == bls_public_key_of(private@),
{
    let secret = bls_signatures::PrivateKey::from_bytes(private).ok()?;
    Some(secret.public_key().as_bytes())
}

/// Calls `bls_signatures::PrivateKey::sign` and `as_bytes` on the
/// signature; `None` where the private key does not decode.
#[verifier::external_body]
pub(crate) fn bls_sign(private: &[u8], payload: &[u8]) -> (signature: Option<Vec<u8>>)
    ensures
        signature is Some <==> bls_is_private_key(private@),
        signature matches Some(s) ==> s@ == bls_signature_of(private@, payload@),
{
    let secret = bls_signatures::PrivateKey::from_bytes(private).ok()?;
    Some(secret.sign(payload).as_bytes())
}

/// Calls `bls_signatures::Signature::from_bytes`, which refuses anything
/// but 96 bytes.
#[verifier::external_body]
pub(crate) fn bls_signature_ok(signature: &[u8]) -> (ok: bool)
    ensures
        ok == bls_signature_point(signature@),
        ok ==> signature@.len() == 96,
{
    bls_signatures::Signature::from_bytes(signature).is_ok()
}

/// Calls `bls_signatures::PublicKey::from_bytes`, which refuses anything
/// but 48 bytes.
#[verifier::external_body]
pub(crate) fn bls_public_key_ok(public: &[u8]) -> (ok: bool)
    ensures
        ok == bls_public_key_point(public@),
        ok ==> public@.len() == 48,
{
    bls_signatures::PublicKey::from_bytes(public).is_ok()
}

/// Calls `bls_signatures::aggregate` on the decoded signatures and
/// `as_bytes` on the sum. It fails on an empty list, and here also where a
/// signature does not decode.
#[verifier::external_body]
pub(crate) fn bls_aggregate(signatures: &Vec<Vec<u8>>) -> (sum: Option<Vec<u8>>)
    ensures
        sum is Some <==> signatures@.len() > 0 && forall|i: int|
            0 <= i < signatures@.len() ==> bls_is_signature(#[trigger] signatures@[i]@),
        sum matches Some(s) ==> s@ == bls_aggregate_of(byte_strings(signatures@)),
{
    let mut decoded = Vec::new();
    for bytes in signatures {
        decoded.push(bls_signatures::Signature::from_bytes(bytes).ok()?);
    }
    bls_signatures::aggregate(&decoded).ok().map(|sum| sum.as_bytes())
}

/// Calls `bls_signatures::verify_messages` on the decoded signature and
/// keys; `false` where one of them does not decode. The call itself refuses
/// an empty list and lists of different lengths.
#[verifier::external_body]
pub(crate) fn bls_verify(signature: &[u8], payloads: &Vec<Vec<u8>>, publics: &Vec<Vec<u8>>) -> (ok:
    bool)
    ensures
        ok == bls_verifies(signature@, byte_strings(payloads@), byte_strings(publics@)),
        ok ==> bls_is_signature(signature@),
        ok ==> forall|i: int|
            0 <= i < publics@.len() ==> bls_is_public_key(#[trigger] publics@[i]@),
        ok ==> payloads@.len() == publics@.len() && publics@.len() > 0,
{
    let Ok(sig) = bls_signatures::Signature::from_bytes(signature) else { return false };
    let mut keys = Vec::new();
    for bytes in publics {
        let Ok(key) = bls_signatures::PublicKey::from_bytes(bytes) else { return false };
        keys.push(key);
    }
    let messages: Vec<&[u8]> = payloads.iter().map(|p| p.as_slice()).collect();
    bls_signatures::verify_messages(&sig, &messages, &keys)
}

} // verus!
