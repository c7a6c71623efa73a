//! The pairing arithmetic of the `bn254` crate, reached through byte
//! strings.
//!
//! Signatures are points of the first group in the crate's compressed form
//! (33 bytes), public keys points of the second (65 bytes), private keys
//! scalars of 32 bytes. Neither group's identity has a compressed form there,
//! so a running sum is an `Option`: `None` is the identity.
//!
//! Nothing in this file is proved. Each function makes the call that its
//! comment names, and its contract says what that call is taken to do.

use substrate_bn::Group;
use vstd::prelude::*;
use crate::bytes::{opt_bytes, sum_bytes};

verus! {

/// The compressed public key that belongs to a private key, `None` where the
/// key is not 32 bytes long or its public key is the identity.
pub uninterp spec fn bn_public_key_of(private: Seq<u8>) -> Option<Seq<u8>>;

/// The compressed signature of a payload under a private key, `None` where
/// the key is not 32 bytes long, no point could be derived from the payload,
/// or the signature is the identity.
pub uninterp spec fn bn_signature_of(private: Seq<u8>, payload: Seq<u8>) -> Option<Seq<u8>>;

/// Whether `bn254::Signature::from_compressed` takes the bytes.
pub uninterp spec fn bn_signature_point(signature: Seq<u8>) -> bool;

/// Whether `bn254::PublicKey::from_compressed` takes the bytes.
pub uninterp spec fn bn_public_key_point(public: Seq<u8>) -> bool;

/// Bytes that are the compressed form of a signature: the byte 2 or 3 for
/// the sign, then the 32 bytes of a coordinate that lies on the curve.
pub open spec fn bn_is_signature(signature: Seq<u8>) -> bool {
    &&& signature.len() == 33
    &&& (signature[0] == 2 || signature[0] == 3)
    &&& bn_signature_point(signature)
}

/// Bytes that are the compressed form of a public key: the byte 10 or 11
/// for the sign, then the 64 bytes of a coordinate that lies on the curve.
pub open spec fn bn_is_public_key(public: Seq<u8>) -> bool {
    &&& public.len() == 65
    &&& (public[0] == 10 || public[0] == 11)
    &&& bn_public_key_point(public)
}

/// A running sum of signatures with one more signature added. The outer
/// `None`: the sum or the signature is not the compressed form of a point.
pub uninterp spec fn bn_signature_sum(sum: Option<Seq<u8>>, signature: Seq<u8>) -> Option<
    Option<Seq<u8>>,
>;

/// A running sum of public keys with one more key added. The outer `None`:
/// the sum or the key is not the compressed form of a point.
pub uninterp spec fn bn_public_key_sum(sum: Option<Seq<u8>>, public: Seq<u8>) -> Option<
    Option<Seq<u8>>,
>;

/// Whether a signature passes the pairing check for a payload and a public
/// key.
pub uninterp spec fn bn_verifies(payload: Seq<u8>, signature: Seq<u8>, public: Seq<u8>) -> bool;

/// Calls `bn254::PrivateKey::try_from`, which takes any 32 bytes as a scalar
/// and refuses every other length.
#[verifier::external_body]
pub(crate) fn bn_private_key_ok(private: &[u8]) -> (ok: bool)
    ensures
        ok == (private@.len() == 32),
{
    bn254::PrivateKey::try_from(private).is_ok()
}

/// Calls `bn254::PrivateKey::random` on the system's generator and
/// `to_bytes` on the key, which writes the scalar into a buffer of 32 bytes
/// and fails on no scalar.
#[verifier::external_body]
pub(crate) fn bn_random_private_key() -> (private: Option<Vec<u8>>)
    ensures
        private is Some,
        private matches Some(k) ==> k@.len() == 32,
{
    bn254::PrivateKey::random(&mut rand_core::OsRng).to_bytes().ok()
}

/// Calls `bn254::PublicKey::from_private_key` and `to_compressed`.
#[verifier::external_body]
pub(crate) fn bn_public_key(private: &[u8]) -> (public: Option<Vec<u8>>)
    ensures
        opt_bytes(public) == bn_public_key_of(private@),
        private@.len() != 32 ==> public is None,
{
    let secret = bn254::PrivateKey::try_from(private).ok()?;
    bn254::PublicKey::from_private_key(&secret).to_compressed().ok()
}

/// Calls `bn254::ECDSA::sign` and `to_compressed` on the signature.
#[verifier::external_body]
pub(crate) fn bn_sign(private: &[u8], payload: &[u8]) -> (signature: Option<Vec<u8>>)
    ensures
        opt_bytes(signature) == bn_signature_of(private@, payload@),
        private@.len() != 32 ==> signature is None,
{
    let secret = bn254::PrivateKey::try_from(private).ok()?;
    bn254::ECDSA::sign(payload, &secret).ok()?.to_compressed().ok()
}

/// Calls `bn254::Signature::from_compressed`, which refuses anything but 33
/// bytes that begin with 2 or 3.
#[verifier::external_body]
pub(crate) fn bn_signature_ok(signature: &[u8]) -> (ok: bool)
    ensures
        ok == bn_signature_point(signature@),
        ok ==> signature@.len() == 33 && (signature@[0] == 2 || signature@[0] == 3),
{
    bn254::Signature::from_compressed(signature).is_ok()
}

/// Calls `bn254::PublicKey::from_compressed`, which refuses anything but 65
/// bytes that begin with 10 or 11.
#[verifier::external_body]
pub(crate) fn bn_public_key_ok(public: &[u8]) -> (ok: bool)
    ensures
        ok == bn_public_key_point(public@),
        ok ==> public@.len() == 65 && (public@[0] == 10 || public@[0] == 11),
{
    bn254::PublicKey::from_compressed(public).is_ok()
}

/// Calls the `+` of `bn254::Signature` on the decoded sum and signature, and
/// `to_compressed` on the result, which fails on the identity alone. The
/// call fails where the sum or the signature does not decode, and what
/// `to_compressed` writes, `from_compressed` reads.
#[verifier::external_body]
pub(crate) fn bn_add_signature(sum: &Option<Vec<u8>>, signature: &[u8]) -> (next: Option<
    Option<Vec<u8>>,
>)
    ensures
        sum_bytes(next) == bn_signature_sum(opt_bytes(*sum), signature@),
        next is None <==> !bn_is_signature(signature@) || (*sum matches Some(b)
            && !bn_is_signature(b@)),
        next matches Some(Some(b)) ==> bn_is_signature(b@),
{
    let before = match sum {
        Some(bytes) => bn254::Signature::from_compressed(bytes).ok()?,
        None => bn254::Signature(substrate_bn::G1::zero()),
    };
    let term = bn254::Signature::from_compressed(signature).ok()?;
    Some((before + term).to_compressed().ok())
}

/// Calls the `+` of `bn254::PublicKey` on the decoded sum and key, and
/// `to_compressed` on the result, which fails on the identity alone. The
/// call fails where the sum or the key does not decode, and what
/// `to_compressed` writes, `from_compressed` reads.
#[verifier::external_body]
pub(crate) fn bn_add_public_key(sum: &Option<Vec<u8>>, public: &[u8]) -> (next: Option<
    Option<Vec<u8>>,
>)
    ensures
        sum_bytes(next) == bn_public_key_sum(opt_bytes(*sum), public@),
        next is None <==> !bn_is_public_key(public@) || (*sum matches Some(b)
            && !bn_is_public_key(b@)),
        next matches Some(Some(b)) ==> bn_is_public_key(b@),
{
    let before = match sum {
        Some(bytes) => bn254::PublicKey::from_compressed(bytes).ok()?,
        None => bn254::PublicKey(substrate_bn::G2::zero()),
    };
    let term = bn254::PublicKey::from_compressed(public).ok()?;
    Some((before + term).to_compressed().ok())
}

/// Calls `bn254::ECDSA::verify` on the decoded signature and key; `false`
/// where either does not decode.
#[verifier::external_body]
pub(crate) fn bn_verify(payload: &[u8], signature: &[u8], public: &[u8]) -> (ok: bool)
    ensures
        ok == bn_verifies(payload@, signature@, public@),
        ok ==> bn_is_signature(signature@) && bn_is_public_key(public@),
{
    match (
        bn254::Signature::from_compressed(signature),
        bn254::PublicKey::from_compressed(public),
    ) {
        (Ok(sig), Ok(key)) => bn254::ECDSA::verify(payload, &sig, &key).is_ok(),
        _ => false,
    }
}

} // verus!
