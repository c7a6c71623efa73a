//! Aggregate signatures collected from a set of signing nodes.
//!
//! A coordinator hands a message to its workers, each worker signs it with
//! its own key, and the coordinator adds the signatures that came back up
//! into one aggregate, which anyone can check against the workers' public
//! keys. The curve arithmetic is done by the `bn254` and `bls-signatures`
//! crates; what is built around it is verified here.
//!
//! * [`scheme`]: keys, signing, aggregation and verification under either
//!   of two schemes.
//! * [`worker`]: a signing node.
//! * [`coordinator`]: the requests of a coordinator and the collection of
//!   signatures for each.
//! * [`registry`]: the public keys that were published.
//! * [`client`]: what a verifying client makes of what it was sent.
//! * [`order`], [`encoding`], [`bytes`], [`request_id`]: the order of byte
//!   strings, hexadecimal text, byte strings, and identifiers.
//! * [`bn_backend`], [`bls_backend`]: the calls into the two crates.
//! * [`curve`]: point doubling over the integers.

pub mod bytes;
pub mod encoding;
pub mod order;
pub mod bn_backend;
pub mod bls_backend;
pub mod scheme;
pub mod request_id;
pub mod registry;
pub mod worker;
pub mod coordinator;
pub mod client;
pub mod curve;
