//! A worker: one key pair, announced once, then used to sign whatever
//! arrives.
//!
//! A worker is `Starting` until its public key has been handed over for
//! publication, and `Ready` from then on. Signing does not change it, so
//! any number of requests can be served at once from a shared reference.

use vstd::prelude::*;
use crate::encoding::{hex_bytes, hex_encode, hex_text, is_hex_text, lemma_hex_round_trip};
use crate::scheme::{
    is_private_key, payload_for, public_key_of, sign_spec, KeyPair, Scheme, SchemeError,
};

verus! {

/// Where a worker stands.
#[derive(Clone, Copy, Debug, PartialEq, Eq, Structural)]
pub enum WorkerState {
    /// The public key has not been announced; nothing is signed yet.
    Starting,
    /// The public key has been announced; requests are signed.
    Ready,
}

/// What goes back on a connection.
#[derive(Debug, PartialEq, Eq)]
pub enum Reply {
    /// The signature over the request, in its canonical encoding.
    Signature(Vec<u8>),
    /// Nothing: the connection is closed without an answer.
    Dropped,
}

/// A signing node.
pub struct Worker {
    keys: KeyPair,
    state: WorkerState,
}

impl Worker {
    /// The key pair of the worker.
    pub closed spec fn keys_of(self) -> KeyPair {
        self.keys
    }

    /// Where the worker stands.
    pub closed spec fn state_of(self) -> WorkerState {
        self.state
    }

    /// The signature that the worker gives for a message, or why it gives
    /// none.
    pub open spec fn endorsement(self, message: Seq<u8>) -> Result<Seq<u8>, SchemeError> {
        sign_spec(
            self.keys_of().scheme_of(),
            self.keys_of().private_of(),
            payload_for(self.keys_of().scheme_of(), self.keys_of().public_of(), message),
        )
    }

    /// A worker with the given keys, which has yet to announce itself.
    pub fn new(keys: KeyPair) -> (worker: Worker)
        ensures
            worker.keys_of() == keys,
            worker.state_of() == WorkerState::Starting,
    {
        Worker { keys, state: WorkerState::Starting }
    }

    /// A worker with a key pair drawn at random, which has yet to announce
    /// itself.
    ///
    /// Under [`Scheme::Augmented`] every key that is drawn gives a pair, and
    /// the worker is there. Under [`Scheme::AggregateKey`] the one way to
    /// fail is `Degenerate`, for a key whose public key has no encoding.
    pub fn launch(scheme: Scheme) -> (r: Result<Worker, SchemeError>)
        ensures
            match r {
                Ok(worker) => {
                    &&& worker.state_of() == WorkerState::Starting
                    &&& worker.keys_of().scheme_of() == scheme
                    &&& is_private_key(scheme, worker.keys_of().private_of())
                    &&& public_key_of(scheme, worker.keys_of().private_of()) == Some(
                        worker.keys_of().public_of(),
                    )
                },
                Err(e) => scheme == Scheme::AggregateKey && e == SchemeError::Degenerate,
            },
            scheme == Scheme::Augmented ==> r is Ok,
    {
        match KeyPair::generate(scheme) {
            Ok(keys) => Ok(Worker::new(keys)),
            Err(e) => Err(e),
        }
    }

    /// Where the worker stands.
    pub fn state(&self) -> (state: WorkerState)
        ensures
            state == self.state_of(),
    {
        self.state
    }

    /// The public key of the worker in its canonical encoding.
    pub fn public_key(&self) -> (public: &Vec<u8>)
        ensures
            public@ == self.keys_of().public_of(),
    {
        self.keys.public_key()
    }

    /// Makes the worker ready. The first call returns the announcement to
    /// publish, the public key as hexadecimal text, which reads back as the
    /// key; every later call returns `None`, so that the key is published
    /// once.
    pub fn start(&mut self) -> (announcement: Option<String>)
        ensures
            final(self).keys_of() == old(self).keys_of(),
            final(self).state_of() == WorkerState::Ready,
            match announcement {
                Some(text) => {
                    &&& old(self).state_of() == WorkerState::Starting
                    &&& text@ == hex_text(old(self).keys_of().public_of())
                    &&& is_hex_text(text@)
                    &&& hex_bytes(text@) == old(self).keys_of().public_of()
                },
                None => old(self).state_of() == WorkerState::Ready,
            },
    {
        match self.state {
            WorkerState::Starting => {
                self.state = WorkerState::Ready;
                proof {
                    lemma_hex_round_trip(self.keys.public_of());
                }
                Some(hex_encode(self.keys.public_key().as_slice()))
            },
            WorkerState::Ready => None,
        }
    }

    /// Answers one signing request.
    ///
    /// A worker that is ready signs any request that is not empty, and
    /// answers with the signature. A worker that has not started, an empty
    /// request and a signature that has no encoding give no answer.
    pub fn handle(&self, request: &[u8]) -> (reply: Reply)
        ensures
            match reply {
                Reply::Signature(signature) => {
                    &&& self.state_of() == WorkerState::Ready
                    &&& request@.len() > 0
                    &&& self.endorsement(request@) == Ok::<Seq<u8>, SchemeError>(signature@)
                },
                Reply::Dropped => {
                    ||| self.state_of() == WorkerState::Starting
                    ||| request@.len() == 0
                    ||| self.endorsement(request@) is Err
                },
            },
    {
        match self.state {
            WorkerState::Starting => Reply::Dropped,
            WorkerState::Ready => {
                if request.len() == 0 {
                    Reply::Dropped
                } else {
                    match self.keys.endorse(request) {
                        Ok(signature) => Reply::Signature(signature),
                        Err(_) => Reply::Dropped,
                    }
                }
            },
        }
    }
}

} // verus!
