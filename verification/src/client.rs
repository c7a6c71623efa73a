//! The verifying client: what it makes of the texts it was given, and how
//! long it waits between two polls.
//!
//! Signatures and keys reach a client as hexadecimal text. Text that cannot
//! be read is reported as such and never passed off as a signature that
//! does not hold.

use vstd::prelude::*;
use crate::bytes::byte_strings;
use crate::coordinator::Status;
use crate::encoding::{hex_bytes, hex_decode, is_hex_text};
use crate::scheme::{
    is_public_key, is_signature, public_key_decodes, signature_decodes, verifies, verify, Scheme,
};

verus! {

/// Why an aggregate could not be checked at all.
#[derive(Clone, Copy, Debug, PartialEq, Eq, Structural)]
pub enum ReadError {
    /// The signature is not hexadecimal text.
    SignatureText,
    /// The signature's bytes are not the encoding of a signature.
    SignatureEncoding,
    /// The key at this position is not hexadecimal text.
    KeyText(usize),
    /// The bytes of the key at this position are not the encoding of a
    /// public key.
    KeyEncoding(usize),
}

/// What a list of texts holds, item by item.
pub open spec fn texts(items: Seq<String>) -> Seq<Seq<char>> {
    Seq::new(items.len(), |i: int| items[i]@)
}

/// Whether a text is the hexadecimal form of a public key.
pub open spec fn is_key_text(scheme: Scheme, text: Seq<char>) -> bool {
    is_hex_text(text) && is_public_key(scheme, hex_bytes(text))
}

/// Whether a text is the hexadecimal form of a signature.
pub open spec fn is_signature_text(scheme: Scheme, text: Seq<char>) -> bool {
    is_hex_text(text) && is_signature(scheme, hex_bytes(text))
}

/// The keys that a list of texts stands for.
pub open spec fn keys_of_texts(key_texts: Seq<Seq<char>>) -> Seq<Seq<u8>> {
    Seq::new(key_texts.len(), |i: int| hex_bytes(key_texts[i]))
}

/// Reads a list of public keys from their hexadecimal texts.
///
/// Fails at the first text that is no key, with its position: `KeyText`
/// where it is not hexadecimal, `KeyEncoding` where its bytes do not decode.
pub fn read_keys(scheme: Scheme, key_texts: &Vec<String>) -> (r: Result<Vec<Vec<u8>>, ReadError>)
    ensures
        match r {
            Ok(keys) => {
                &&& byte_strings(keys@) == keys_of_texts(texts(key_texts@))
                &&& keys@.len() == key_texts@.len()
                &&& forall|i: int|
                    0 <= i < key_texts@.len() ==> is_key_text(scheme, #[trigger] key_texts@[i]@)
            },
            Err(ReadError::KeyText(at)) => {
                &&& at < key_texts@.len()
                &&& forall|i: int| 0 <= i < at ==> is_key_text(scheme, #[trigger] key_texts@[i]@)
                &&& !is_hex_text(key_texts@[at as int]@)
            },
            Err(ReadError::KeyEncoding(at)) => {
                &&& at < key_texts@.len()
                &&& forall|i: int| 0 <= i < at ==> is_key_text(scheme, #[trigger] key_texts@[i]@)
                &&& is_hex_text(key_texts@[at as int]@)
                &&& !is_public_key(scheme, hex_bytes(key_texts@[at as int]@))
            },
            Err(_) => false,
        },
{
    let mut keys: Vec<Vec<u8>> = Vec::new();
    let mut i: usize = 0;
    while i < key_texts.len()
        invariant
            i <= key_texts@.len(),
            keys@.len() == i,
            forall|j: int| 0 <= j < i ==> is_key_text(scheme, #[trigger] key_texts@[j]@),
            forall|j: int| 0 <= j < i ==> (#[trigger] keys@[j])@ == hex_bytes(key_texts@[j]@),
        decreases key_texts@.len() - i,
    {
        match hex_decode(key_texts[i].as_str()) {
            None => {
                return Err(ReadError::KeyText(i));
            },
            Some(key) => {
                if !public_key_decodes(scheme, key.as_slice()) {
                    return Err(ReadError::KeyEncoding(i));
                }
                keys.push(key);
            },
        }
        i = i + 1;
    }
    assert(byte_strings(keys@) =~= keys_of_texts(texts(key_texts@)));
    Ok(keys)
}

/// Reads an aggregate signature from its hexadecimal text.
///
/// Fails with `SignatureText` exactly where the text is not hexadecimal,
/// and with `SignatureEncoding` where it is and its bytes do not decode.
pub fn read_signature(scheme: Scheme, signature_text: &str) -> (r: Result<Vec<u8>, ReadError>)
    ensures
        match r {
            Ok(signature) => is_signature_text(scheme, signature_text@) && signature@
                == hex_bytes(signature_text@),
            Err(ReadError::SignatureText) => !is_hex_text(signature_text@),
            Err(ReadError::SignatureEncoding) => is_hex_text(signature_text@) && !is_signature(
                scheme,
                hex_bytes(signature_text@),
            ),
            Err(_) => false,
        },
{
    match hex_decode(signature_text) {
        None => Err(ReadError::SignatureText),
        Some(signature) => {
            if signature_decodes(scheme, signature.as_slice()) {
                Ok(signature)
            } else {
                Err(ReadError::SignatureEncoding)
            }
        },
    }
}

/// Checks the aggregate of a request against the message and the keys of
/// those who are said to have signed it, all but the message given as
/// hexadecimal text.
///
/// `Ok` tells whether the signature holds. `Err` tells that there was
/// nothing to check: first the signature is read, then the keys in their
/// order, and the first text that cannot be read is reported.
pub fn check_aggregate(
    scheme: Scheme,
    signature_text: &str,
    message: &[u8],
    key_texts: &Vec<String>,
) -> (r: Result<bool, ReadError>)
    ensures
        match r {
            Ok(holds) => {
                &&& is_signature_text(scheme, signature_text@)
                &&& forall|i: int|
                    0 <= i < key_texts@.len() ==> is_key_text(scheme, #[trigger] key_texts@[i]@)
                &&& holds == verifies(
                    scheme,
                    hex_bytes(signature_text@),
                    message@,
                    keys_of_texts(texts(key_texts@)),
                )
            },
            Err(ReadError::SignatureText) => !is_hex_text(signature_text@),
            Err(ReadError::SignatureEncoding) => is_hex_text(signature_text@) && !is_signature(
                scheme,
                hex_bytes(signature_text@),
            ),
            Err(ReadError::KeyText(at)) => {
                &&& is_signature_text(scheme, signature_text@)
                &&& at < key_texts@.len()
                &&& forall|i: int| 0 <= i < at ==> is_key_text(scheme, #[trigger] key_texts@[i]@)
                &&& !is_hex_text(key_texts@[at as int]@)
            },
            Err(ReadError::KeyEncoding(at)) => {
                &&& is_signature_text(scheme, signature_text@)
                &&& at < key_texts@.len()
                &&& forall|i: int| 0 <= i < at ==> is_key_text(scheme, #[trigger] key_texts@[i]@)
                &&& is_hex_text(key_texts@[at as int]@)
                &&& !is_public_key(scheme, hex_bytes(key_texts@[at as int]@))
            },
        },
{
    let signature = match read_signature(scheme, signature_text) {
        Err(e) => {
            return Err(e);
        },
        Ok(bytes) => bytes,
    };
    match read_keys(scheme, key_texts) {
        Err(e) => Err(e),
        Ok(keys) => Ok(verify(scheme, signature.as_slice(), message, &keys)),
    }
}

/// The texts of a list from position `skip` on: the keys of the signers,
/// where the first `skip` keys of a registry belong to others.
pub fn keys_after(listed: &Vec<String>, skip: usize) -> (rest: Vec<String>)
    requires
        skip <= listed@.len(),
    ensures
        texts(rest@) == texts(listed@).subrange(skip as int, listed@.len() as int),
{
    let mut rest: Vec<String> = Vec::new();
    let mut i: usize = skip;
    while i < listed.len()
        invariant
            skip <= i <= listed@.len(),
            rest@.len() == i - skip,
            forall|j: int| 0 <= j < i - skip ==> (#[trigger] rest@[j])@ == listed@[skip + j]@,
        decreases listed@.len() - i,
    {
        rest.push(listed[i].clone());
        i = i + 1;
    }
    assert(texts(rest@) =~= texts(listed@).subrange(skip as int, listed@.len() as int));
    rest
}

/// What a client does after a poll.
#[derive(Clone, Copy, Debug, PartialEq, Eq, Structural)]
pub enum PollStep {
    /// Ask again after this many seconds.
    Wait(u64),
    /// Stop asking: the request is complete or unknown.
    Stop,
}

/// The seconds between two polls of a pending request.
pub const POLL_INTERVAL: u64 = 5;

/// What a client does after a poll: it waits and asks again while the
/// request is pending, and stops once it is complete or found unknown.
pub fn after_poll(status: &Status) -> (step: PollStep)
    ensures
        step == match *status {
            Status::Pending => PollStep::Wait(POLL_INTERVAL),
            _ => PollStep::Stop,
        },
{
    match status {
        Status::Pending => PollStep::Wait(POLL_INTERVAL),
        _ => PollStep::Stop,
    }
}

} // verus!
