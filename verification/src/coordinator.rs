//! The coordinator: the requests it has accepted, and the collection of
//! signatures for each of them.
//!
//! The coordinator does no input or output. A caller hands it a message and
//! gets a [`FanOut`] back, sends the message to every worker in whatever way
//! and order it likes, records in the `FanOut` what each worker answered or
//! that it did not answer, and hands the `FanOut` back once every worker is
//! accounted for. Only then is the aggregate computed and stored. A `FanOut`
//! is owned by whoever collects for it, so nothing that waits on a worker
//! ever holds the coordinator.

use std::collections::HashMap;
use vstd::prelude::*;
use crate::bytes::{byte_strings, copy_bytes, opt_bytes};
use crate::encoding::{hex_bytes, hex_encode, hex_text, is_hex_text, lemma_hex_round_trip};
use crate::request_id::{draw_uuid, token_text, token_value, uuid_from_text, uuid_to_text};
use crate::scheme::{
    aggregate, aggregate_spec, is_signature, lemma_aggregate_any_order, result_bytes,
    signature_decodes, some_signature_unread, Scheme, SchemeError,
};

verus! {

broadcast use vstd::std_specs::hash::group_hash_axioms;

/// A request as the contracts see it.
pub struct RequestView {
    /// What was submitted.
    pub message: Seq<u8>,
    /// The aggregate once it is stored; `None` while the request is pending.
    pub aggregate: Option<Seq<u8>>,
}

/// A request: its message, and its aggregate once there is one.
pub struct Request {
    message: Vec<u8>,
    aggregate: Option<Vec<u8>>,
}

impl View for Request {
    type V = RequestView;

    closed spec fn view(&self) -> RequestView {
        RequestView {
            message: self.message@,
            aggregate: match self.aggregate {
                Some(sum) => Some(sum@),
                None => None,
            },
        }
    }
}

/// What a poll finds.
#[derive(Debug, PartialEq, Eq)]
pub enum Status {
    /// The request is known and has no aggregate yet.
    Pending,
    /// The request is done; this is its aggregate signature.
    Complete(Vec<u8>),
    /// No request has this identifier.
    NotFound,
}

impl Status {
    /// The aggregate signature of a complete request as hexadecimal text,
    /// which reads back as the signature; `None` for any other status.
    pub fn aggregate_text(&self) -> (text: Option<String>)
        ensures
            match *self {
                Status::Complete(sum) => {
                    &&& text matches Some(t)
                    &&& t@ == hex_text(sum@)
                    &&& is_hex_text(t@)
                    &&& hex_bytes(t@) == sum@
                },
                _ => text is None,
            },
    {
        match self {
            Status::Complete(sum) => {
                proof {
                    lemma_hex_round_trip(sum@);
                }
                Some(hex_encode(sum.as_slice()))
            },
            _ => None,
        }
    }
}

/// Why a submission was not accepted.
#[derive(Clone, Copy, Debug, PartialEq, Eq, Structural)]
pub enum SubmitError {
    /// The identifier already names a request.
    IdentifierInUse,
}

/// How a recorded answer was taken.
#[derive(Clone, Copy, Debug, PartialEq, Eq, Structural)]
pub enum Recorded {
    /// The worker answered with a signature, which was kept.
    Signature,
    /// The worker is accounted for and contributes nothing.
    Nothing,
    /// The worker is not one of this collection's, or was accounted for
    /// before: nothing changed.
    Ignored,
}

/// What became of a collection that was handed back.
#[derive(Clone, Copy, Debug, PartialEq, Eq, Structural)]
pub enum Settled {
    /// The aggregate was stored and the request is complete.
    Stored,
    /// Some worker is not accounted for yet: nothing changed.
    Unfinished,
    /// The signatures gave no aggregate: the request stays as it was.
    Failed(SchemeError),
    /// The request is unknown or complete already: nothing changed.
    Closed,
}

/// The number of workers that are accounted for.
pub open spec fn settled_count(settled: Seq<bool>) -> nat
    decreases settled.len(),
{
    if settled.len() == 0 {
        0
    } else {
        settled_count(settled.drop_last()) + if settled.last() {
            1nat
        } else {
            0nat
        }
    }
}

/// Whether every worker is accounted for.
pub open spec fn all_settled(settled: Seq<bool>) -> bool {
    forall|i: int| 0 <= i < settled.len() ==> #[trigger] settled[i]
}

/// Accounting for one more worker raises the count by one.
proof fn lemma_settle_one(settled: Seq<bool>, worker: int)
    requires
        0 <= worker < settled.len(),
        !settled[worker],
    ensures
        settled_count(settled.update(worker, true)) == settled_count(settled) + 1,
    decreases settled.len(),
{
    let after = settled.update(worker, true);
    if worker == settled.len() - 1 {
        assert(after.drop_last() == settled.drop_last());
    } else {
        lemma_settle_one(settled.drop_last(), worker);
        assert(after.drop_last() == settled.drop_last().update(worker, true));
    }
}

/// A signature that was kept, with the worker that gave it.
pub struct Partial {
    worker: usize,
    signature: Vec<u8>,
}

impl Partial {
    /// The position of the worker in the coordinator's list.
    pub closed spec fn worker_of(self) -> usize {
        self.worker
    }

    /// The signature.
    pub closed spec fn signature_of(self) -> Seq<u8> {
        self.signature@
    }

    /// The position of the worker in the coordinator's list.
    pub fn worker(&self) -> (worker: usize)
        ensures
            worker == self.worker_of(),
    {
        self.worker
    }

    /// The signature in its canonical encoding.
    pub fn signature(&self) -> (signature: &Vec<u8>)
        ensures
            signature@ == self.signature_of(),
    {
        &self.signature
    }
}

/// The collection of signatures for one request.
pub struct FanOut {
    scheme: Scheme,
    id: u128,
    token: String,
    message: Vec<u8>,
    settled: Vec<bool>,
    kept: Vec<Partial>,
}

/// Whether no worker occurs twice in a list of workers.
pub open spec fn no_worker_twice(givers: Seq<usize>) -> bool {
    forall|i: int, j: int| 0 <= i < j < givers.len() ==> givers[i] != givers[j]
}

impl FanOut {
    /// What holds of every collection: its token is the text of its
    /// identifier, every signature that was kept decodes and came from a
    /// worker that is accounted for, and no worker gave more than one.
    #[verifier::type_invariant]
    spec fn well_formed(self) -> bool {
        &&& self.token@ == token_text(self.id)
        &&& token_value(self.token@) == Some(self.id)
        &&& self.kept@.len() <= settled_count(self.settled@)
        &&& forall|i: int|
            0 <= i < self.kept@.len() ==> {
                &&& is_signature(self.scheme, (#[trigger] self.kept@[i]).signature@)
                &&& self.kept@[i].worker < self.settled@.len()
                &&& self.settled@[self.kept@[i].worker as int]
            }
        &&& forall|i: int, j: int|
            0 <= i < j < self.kept@.len() ==> (#[trigger] self.kept@[i]).worker != (
            #[trigger] self.kept@[j]).worker
    }

    /// The scheme that the signatures belong to.
    pub closed spec fn scheme_of(self) -> Scheme {
        self.scheme
    }

    /// The identifier of the request.
    pub closed spec fn id_of(self) -> u128 {
        self.id
    }

    /// The message of the request.
    pub closed spec fn message_of(self) -> Seq<u8> {
        self.message@
    }

    /// For each worker, by its position in the coordinator's list, whether
    /// it is accounted for.
    pub closed spec fn settled_of(self) -> Seq<bool> {
        self.settled@
    }

    /// The signatures kept so far, in the order in which they were recorded.
    pub closed spec fn collected(self) -> Seq<Seq<u8>> {
        Seq::new(self.kept@.len(), |i: int| self.kept@[i].signature@)
    }

    /// The workers that gave the signatures kept so far, one for each
    /// signature of [`FanOut::collected`] and in its order.
    pub closed spec fn givers(self) -> Seq<usize> {
        Seq::new(self.kept@.len(), |i: int| self.kept@[i].worker)
    }

    /// A collection for `workers` workers, none of them accounted for.
    fn new(scheme: Scheme, id: u128, message: Vec<u8>, workers: usize) -> (fanout: FanOut)
        ensures
            fanout.scheme_of() == scheme,
            fanout.id_of() == id,
            fanout.message_of() == message@,
            fanout.settled_of() == Seq::new(workers as nat, |i: int| false),
            fanout.collected() == Seq::<Seq<u8>>::empty(),
            fanout.givers() == Seq::<usize>::empty(),
    {
        let mut settled: Vec<bool> = Vec::new();
        let mut i: usize = 0;
        while i < workers
            invariant
                i <= workers,
                settled@ == Seq::new(i as nat, |j: int| false),
            decreases workers - i,
        {
            settled.push(false);
            assert(settled@ =~= Seq::new((i + 1) as nat, |j: int| false));
            i = i + 1;
        }
        let token = uuid_to_text(id);
        let fanout = FanOut { scheme, id, token, message, settled, kept: Vec::new() };
        assert(fanout.collected() =~= Seq::<Seq<u8>>::empty());
        assert(fanout.givers() =~= Seq::<usize>::empty());
        fanout
    }

    /// The identifier of the request.
    pub fn id(&self) -> (id: u128)
        ensures
            id == self.id_of(),
    {
        self.id
    }

    /// The text of the identifier, by which the submitter asks for the
    /// request: 32 hexadecimal digits in five groups. The coordinator reads
    /// it back as this request's identifier.
    pub fn token(&self) -> (token: &String)
        ensures
            token@ == token_text(self.id_of()),
            token_value(token@) == Some(self.id_of()),
    {
        proof {
            use_type_invariant(self);
        }
        &self.token
    }

    /// The message to send to every worker.
    pub fn message(&self) -> (message: &Vec<u8>)
        ensures
            message@ == self.message_of(),
    {
        &self.message
    }

    /// The number of workers that this collection waits for in all.
    pub fn workers(&self) -> (n: usize)
        ensures
            n == self.settled_of().len(),
    {
        self.settled.len()
    }

    /// The signatures kept so far with the workers that gave them, in the
    /// order in which they were recorded. Each signature decodes, each
    /// worker is accounted for, and no worker occurs twice.
    pub fn partials(&self) -> (partials: &Vec<Partial>)
        ensures
            partials@.len() == self.collected().len(),
            self.givers().len() == self.collected().len(),
            forall|i: int|
                0 <= i < partials@.len() ==> {
                    &&& (#[trigger] partials@[i]).signature_of() == self.collected()[i]
                    &&& partials@[i].worker_of() == self.givers()[i]
                    &&& is_signature(self.scheme_of(), self.collected()[i])
                    &&& self.givers()[i] < self.settled_of().len()
                    &&& self.settled_of()[self.givers()[i] as int]
                },
            no_worker_twice(self.givers()),
            self.collected().len() <= settled_count(self.settled_of()),
    {
        proof {
            use_type_invariant(self);
        }
        &self.kept
    }

    /// A copy of the signatures kept so far, in the order in which they
    /// were recorded. Each of them decodes.
    pub fn signatures(&self) -> (signatures: Vec<Vec<u8>>)
        ensures
            byte_strings(signatures@) == self.collected(),
            signatures@.len() == self.collected().len(),
            !some_signature_unread(self.scheme_of(), self.collected()),
    {
        proof {
            use_type_invariant(self);
        }
        let mut signatures: Vec<Vec<u8>> = Vec::new();
        let mut i: usize = 0;
        while i < self.kept.len()
            invariant
                i <= self.kept@.len(),
                signatures@.len() == i,
                forall|j: int|
                    0 <= j < i ==> (#[trigger] signatures@[j])@ == self.kept@[j].signature@,
            decreases self.kept@.len() - i,
        {
            signatures.push(copy_bytes(self.kept[i].signature.as_slice()));
            i = i + 1;
        }
        proof {
            assert(byte_strings(signatures@) =~= self.collected());
            if some_signature_unread(self.scheme, self.collected()) {
                let i = choose|i: int|
                    0 <= i < self.collected().len() && !is_signature(
                        self.scheme,
                        #[trigger] self.collected()[i],
                    );
                assert(is_signature(self.scheme, self.kept@[i].signature@));
            }
        }
        signatures
    }

    /// Marks a worker that is not accounted for as accounted for, and keeps
    /// its signature if it has one.
    fn settle_worker(&mut self, worker: usize, signature: Option<Vec<u8>>)
        requires
            worker < old(self).settled_of().len(),
            !old(self).settled_of()[worker as int],
            signature matches Some(bytes) ==> is_signature(old(self).scheme_of(), bytes@),
        ensures
            final(self).scheme_of() == old(self).scheme_of(),
            final(self).id_of() == old(self).id_of(),
            final(self).message_of() == old(self).message_of(),
            final(self).settled_of() == old(self).settled_of().update(worker as int, true),
            match signature {
                Some(bytes) => {
                    &&& final(self).collected() == old(self).collected().push(bytes@)
                    &&& final(self).givers() == old(self).givers().push(worker)
                },
                None => {
                    &&& final(self).collected() == old(self).collected()
                    &&& final(self).givers() == old(self).givers()
                },
            },
    {
        proof {
            use_type_invariant(&*self);
            lemma_settle_one(self.settled@, worker as int);
        }
        // Both lists are taken out, changed and put back, the signatures
        // last, so that at no time a signature is held whose worker is not
        // accounted for.
        let ghost added = opt_bytes(signature);
        let mut kept: Vec<Partial> = Vec::new();
        let mut settled: Vec<bool> = Vec::new();
        core::mem::swap(&mut self.kept, &mut kept);
        core::mem::swap(&mut self.settled, &mut settled);
        settled.set(worker, true);
        core::mem::swap(&mut self.settled, &mut settled);
        match signature {
            Some(bytes) => {
                kept.push(Partial { worker, signature: bytes });
            },
            None => {},
        }
        core::mem::swap(&mut self.kept, &mut kept);
        proof {
            match added {
                Some(bytes) => {
                    assert(self.collected() =~= old(self).collected().push(bytes));
                    assert(self.givers() =~= old(self).givers().push(worker));
                },
                None => {
                    assert(self.collected() =~= old(self).collected());
                    assert(self.givers() =~= old(self).givers());
                },
            }
        }
    }

    /// Records what a worker answered.
    ///
    /// An answer that decodes as a signature is kept. Any other answer
    /// counts as no answer: the worker is accounted for and contributes
    /// nothing. A worker outside the list, or one that is accounted for
    /// already, changes nothing.
    pub fn record_reply(&mut self, worker: usize, reply: Vec<u8>) -> (outcome: Recorded)
        ensures
            final(self).scheme_of() == old(self).scheme_of(),
            final(self).id_of() == old(self).id_of(),
            final(self).message_of() == old(self).message_of(),
            match outcome {
                Recorded::Ignored => {
                    &&& worker >= old(self).settled_of().len() || old(self).settled_of()[worker as int]
                    &&& final(self).settled_of() == old(self).settled_of()
                    &&& final(self).collected() == old(self).collected()
                    &&& final(self).givers() == old(self).givers()
                },
                Recorded::Nothing => {
                    &&& worker < old(self).settled_of().len()
                    &&& !old(self).settled_of()[worker as int]
                    &&& !is_signature(old(self).scheme_of(), reply@)
                    &&& final(self).settled_of() == old(self).settled_of().update(
                        worker as int,
                        true,
                    )
                    &&& final(self).collected() == old(self).collected()
                    &&& final(self).givers() == old(self).givers()
                },
                Recorded::Signature => {
                    &&& worker < old(self).settled_of().len()
                    &&& !old(self).settled_of()[worker as int]
                    &&& is_signature(old(self).scheme_of(), reply@)
                    &&& final(self).settled_of() == old(self).settled_of().update(
                        worker as int,
                        true,
                    )
                    &&& final(self).collected() == old(self).collected().push(reply@)
                    &&& final(self).givers() == old(self).givers().push(worker)
                },
            },
    {
        if worker >= self.settled.len() || self.settled[worker] {
            return Recorded::Ignored;
        }
        if signature_decodes(self.scheme, reply.as_slice()) {
            self.settle_worker(worker, Some(reply));
            Recorded::Signature
        } else {
            self.settle_worker(worker, None);
            Recorded::Nothing
        }
    }

    /// Records that a worker could not be reached or did not answer: it is
    /// accounted for and contributes nothing. Returns whether anything
    /// changed, which is not so for a worker outside the list or one that
    /// was accounted for before.
    pub fn record_failure(&mut self, worker: usize) -> (changed: bool)
        ensures
            final(self).scheme_of() == old(self).scheme_of(),
            final(self).id_of() == old(self).id_of(),
            final(self).message_of() == old(self).message_of(),
            final(self).collected() == old(self).collected(),
            final(self).givers() == old(self).givers(),
            changed == (worker < old(self).settled_of().len() && !old(self).settled_of()[worker as int]),
            changed ==> final(self).settled_of() == old(self).settled_of().update(
                worker as int,
                true,
            ),
            !changed ==> final(self).settled_of() == old(self).settled_of(),
    {
        if worker >= self.settled.len() || self.settled[worker] {
            return false;
        }
        self.settle_worker(worker, None);
        true
    }

    /// Whether every worker is accounted for, by an answer or by a failure.
    pub fn is_finished(&self) -> (finished: bool)
        ensures
            finished == all_settled(self.settled_of()),
    {
        let mut i: usize = 0;
        while i < self.settled.len()
            invariant
                i <= self.settled@.len(),
                forall|j: int| 0 <= j < i ==> #[trigger] self.settled@[j],
            decreases self.settled@.len() - i,
        {
            if !self.settled[i] {
                return false;
            }
            i = i + 1;
        }
        true
    }
}

/// The requests after an aggregation for the request `id` came to `sum`:
/// a pending request becomes complete with that aggregate, and nothing
/// else changes. A failed aggregation, an unknown identifier and a request
/// that is complete already change nothing.
pub open spec fn after_completion(
    requests: Map<u128, RequestView>,
    id: u128,
    sum: Result<Seq<u8>, SchemeError>,
) -> Map<u128, RequestView> {
    if requests.contains_key(id) && requests[id].aggregate is None && sum is Ok {
        requests.insert(
            id,
            RequestView { message: requests[id].message, aggregate: Some(sum->Ok_0) },
        )
    } else {
        requests
    }
}

/// What [`Coordinator::complete`] answers.
pub open spec fn completion_answer(
    requests: Map<u128, RequestView>,
    id: u128,
    sum: Result<Seq<u8>, SchemeError>,
) -> Settled {
    if !requests.contains_key(id) || requests[id].aggregate is Some {
        Settled::Closed
    } else {
        match sum {
            Ok(_) => Settled::Stored,
            Err(e) => Settled::Failed(e),
        }
    }
}

/// The requests after a collection was handed back.
pub open spec fn after_settling(
    requests: Map<u128, RequestView>,
    scheme: Scheme,
    id: u128,
    settled: Seq<bool>,
    collected: Seq<Seq<u8>>,
) -> Map<u128, RequestView> {
    if all_settled(settled) {
        after_completion(requests, id, aggregate_spec(scheme, collected))
    } else {
        requests
    }
}

/// A request is never removed and its message never changes, whatever
/// aggregation is stored for whatever request.
pub proof fn lemma_requests_are_kept(
    requests: Map<u128, RequestView>,
    id: u128,
    sum: Result<Seq<u8>, SchemeError>,
    other: u128,
)
    ensures
        after_completion(requests, id, sum).contains_key(other) == requests.contains_key(other),
        requests.contains_key(other) ==> after_completion(requests, id, sum)[other].message
            == requests[other].message,
{
}

/// A request that is complete stays complete with the aggregate it has: no
/// later aggregation, for this request or another, changes it or makes it
/// pending again.
pub proof fn lemma_complete_is_final(
    requests: Map<u128, RequestView>,
    id: u128,
    sum: Result<Seq<u8>, SchemeError>,
    done: u128,
)
    requires
        requests.contains_key(done),
        requests[done].aggregate is Some,
    ensures
        after_completion(requests, id, sum)[done] == requests[done],
{
}

/// A request becomes complete only by an aggregation that succeeded for
/// it: a pending request stays pending under a failed aggregation and
/// under any aggregation for another request.
pub proof fn lemma_pending_until_aggregated(
    requests: Map<u128, RequestView>,
    id: u128,
    sum: Result<Seq<u8>, SchemeError>,
    waiting: u128,
)
    requires
        requests.contains_key(waiting),
        requests[waiting].aggregate is None,
    ensures
        after_completion(requests, id, sum)[waiting].aggregate is Some <==> id == waiting
            && sum is Ok,
        id == waiting && sum is Ok ==> after_completion(requests, id, sum)[waiting].aggregate
            == Some(sum->Ok_0),
{
}

/// A collection in which no signature was kept never completes its
/// request, however many workers are accounted for.
pub proof fn lemma_no_signature_no_result(
    requests: Map<u128, RequestView>,
    scheme: Scheme,
    id: u128,
    settled: Seq<bool>,
)
    ensures
        after_settling(requests, scheme, id, settled, Seq::<Seq<u8>>::empty()) == requests,
{
}

/// What is stored for a request does not depend on the order in which the
/// workers answered: two collections that kept the same signatures, each
/// as often in one as in the other, settle alike.
pub proof fn lemma_settling_any_order(
    requests: Map<u128, RequestView>,
    scheme: Scheme,
    id: u128,
    settled: Seq<bool>,
    a: Seq<Seq<u8>>,
    b: Seq<Seq<u8>>,
)
    requires
        a.to_multiset() == b.to_multiset(),
    ensures
        after_settling(requests, scheme, id, settled, a) == after_settling(
            requests,
            scheme,
            id,
            settled,
            b,
        ),
{
    lemma_aggregate_any_order(scheme, a, b);
}

/// The coordinator: its workers, and every request it has accepted.
pub struct Coordinator {
    scheme: Scheme,
    workers: Vec<String>,
    requests: HashMap<u128, Request>,
}

impl Coordinator {
    /// The requests by their identifiers. A request is never removed.
    pub closed spec fn view(&self) -> Map<u128, RequestView> {
        Map::new(|id: u128| self.requests@.contains_key(id), |id: u128| self.requests@[id]@)
    }

    /// The scheme of this deployment.
    pub closed spec fn scheme_of(&self) -> Scheme {
        self.scheme
    }

    /// The addresses of the workers that every message goes to.
    pub closed spec fn addresses(&self) -> Seq<String> {
        self.workers@
    }

    /// The number of workers that every message goes to.
    pub open spec fn worker_count(&self) -> nat {
        self.addresses().len()
    }

    /// A coordinator for the given workers, with no request yet.
    pub fn new(scheme: Scheme, workers: Vec<String>) -> (coordinator: Coordinator)
        ensures
            coordinator@ == Map::<u128, RequestView>::empty(),
            coordinator.scheme_of() == scheme,
            coordinator.addresses() == workers@,
    {
        let coordinator = Coordinator { scheme, workers, requests: HashMap::new() };
        assert(coordinator@ =~= Map::<u128, RequestView>::empty());
        coordinator
    }

    /// The scheme of this deployment.
    pub fn scheme(&self) -> (scheme: Scheme)
        ensures
            scheme == self.scheme_of(),
    {
        self.scheme
    }

    /// The addresses of the workers, in the order by which a [`FanOut`]
    /// numbers them.
    pub fn workers(&self) -> (workers: &Vec<String>)
        ensures
            workers@ == self.addresses(),
    {
        &self.workers
    }

    /// Accepts a message under a given identifier: the request is pending
    /// from now on.
    ///
    /// Fails exactly where the identifier already names a request, and then
    /// changes nothing.
    pub fn register(&mut self, id: u128, message: Vec<u8>) -> (r: Result<FanOut, SubmitError>)
        ensures
            final(self).scheme_of() == old(self).scheme_of(),
            final(self).addresses() == old(self).addresses(),
            match r {
                Ok(fanout) => {
                    &&& !old(self)@.contains_key(id)
                    &&& final(self)@ == old(self)@.insert(
                        id,
                        RequestView { message: message@, aggregate: None },
                    )
                    &&& fanout.scheme_of() == old(self).scheme_of()
                    &&& fanout.id_of() == id
                    &&& fanout.message_of() == message@
                    &&& fanout.settled_of() == Seq::new(old(self).worker_count(), |i: int| false)
                    &&& fanout.collected() == Seq::<Seq<u8>>::empty()
                    &&& fanout.givers() == Seq::<usize>::empty()
                },
                Err(_) => old(self)@.contains_key(id) && final(self)@ == old(self)@,
            },
    {
        if self.requests.contains_key(&id) {
            return Err(SubmitError::IdentifierInUse);
        }
        let fanout = FanOut::new(
            self.scheme,
            id,
            copy_bytes(message.as_slice()),
            self.workers.len(),
        );
        self.requests.insert(id, Request { message, aggregate: None });
        assert(self@ =~= old(self)@.insert(
            id,
            RequestView { message: message@, aggregate: None },
        ));
        Ok(fanout)
    }

    /// Accepts a message under a freshly drawn random identifier, and
    /// returns at once with the collection to fill.
    ///
    /// Whatever number is drawn, the request is registered only if that
    /// number names no request yet; otherwise nothing changes and the
    /// submission fails. So a submission fails only where the number drawn
    /// is in use, and never on a coordinator that holds no request.
    pub fn submit(&mut self, message: Vec<u8>) -> (r: Result<FanOut, SubmitError>)
        ensures
            final(self).scheme_of() == old(self).scheme_of(),
            final(self).addresses() == old(self).addresses(),
            match r {
                Ok(fanout) => {
                    &&& !old(self)@.contains_key(fanout.id_of())
                    &&& final(self)@ == old(self)@.insert(
                        fanout.id_of(),
                        RequestView { message: message@, aggregate: None },
                    )
                    &&& fanout.scheme_of() == old(self).scheme_of()
                    &&& fanout.message_of() == message@
                    &&& fanout.settled_of() == Seq::new(old(self).worker_count(), |i: int| false)
                    &&& fanout.collected() == Seq::<Seq<u8>>::empty()
                    &&& fanout.givers() == Seq::<usize>::empty()
                },
                Err(e) => {
                    &&& e == SubmitError::IdentifierInUse
                    &&& final(self)@ == old(self)@
                    &&& exists|id: u128| #[trigger] old(self)@.contains_key(id)
                },
            },
            old(self)@.dom().is_empty() ==> r is Ok,
    {
        let id = draw_uuid();
        self.register(id, message)
    }

    /// Looks a request up. Never waits and never changes anything.
    pub fn poll(&self, id: u128) -> (status: Status)
        ensures
            match status {
                Status::NotFound => !self@.contains_key(id),
                Status::Pending => self@.contains_key(id) && self@[id].aggregate is None,
                Status::Complete(sum) => self@.contains_key(id) && self@[id].aggregate == Some(
                    sum@,
                ),
            },
    {
        match self.requests.get(&id) {
            None => Status::NotFound,
            Some(request) => match &request.aggregate {
                None => Status::Pending,
                Some(sum) => Status::Complete(copy_bytes(sum.as_slice())),
            },
        }
    }

    /// Looks a request up by the text of its identifier. Text that is no
    /// identifier names no request.
    pub fn poll_token(&self, token: &str) -> (status: Status)
        ensures
            match status {
                Status::NotFound => token_value(token@) matches Some(id) ==> !self@.contains_key(
                    id,
                ),
                Status::Pending => token_value(token@) matches Some(id) && self@.contains_key(id)
                    && self@[id].aggregate is None,
                Status::Complete(sum) => token_value(token@) matches Some(id)
                    && self@.contains_key(id) && self@[id].aggregate == Some(sum@),
            },
    {
        match uuid_from_text(token) {
            Some(id) => self.poll(id),
            None => Status::NotFound,
        }
    }

    /// Stores the outcome of an aggregation for the request `id`.
    ///
    /// A pending request becomes complete with the aggregate, once and for
    /// all. A failed aggregation leaves the request pending. An unknown
    /// request, and one that is complete already, stay as they are.
    pub fn complete(&mut self, id: u128, sum: Result<Vec<u8>, SchemeError>) -> (answer: Settled)
        ensures
            final(self).scheme_of() == old(self).scheme_of(),
            final(self).addresses() == old(self).addresses(),
            final(self)@ == after_completion(old(self)@, id, result_bytes(sum)),
            answer == completion_answer(old(self)@, id, result_bytes(sum)),
    {
        let message = match self.requests.get(&id) {
            None => {
                return Settled::Closed;
            },
            Some(request) => {
                if request.aggregate.is_some() {
                    return Settled::Closed;
                }
                copy_bytes(request.message.as_slice())
            },
        };
        match sum {
            Err(e) => Settled::Failed(e),
            Ok(bytes) => {
                self.requests.insert(id, Request { message, aggregate: Some(bytes) });
                assert(self@ =~= after_completion(old(self)@, id, result_bytes(sum)));
                Settled::Stored
            },
        }
    }

    /// Takes a collection back. Once every worker is accounted for, the
    /// signatures that were kept are aggregated and the aggregate is stored
    /// with the request.
    ///
    /// Where no signature was kept, or their sum has no encoding, nothing is
    /// stored and the request stays pending. Where some worker is not
    /// accounted for yet, nothing happens at all.
    pub fn settle(&mut self, fanout: &FanOut) -> (answer: Settled)
        ensures
            final(self).scheme_of() == old(self).scheme_of(),
            final(self).addresses() == old(self).addresses(),
            final(self)@ == after_settling(
                old(self)@,
                fanout.scheme_of(),
                fanout.id_of(),
                fanout.settled_of(),
                fanout.collected(),
            ),
            answer == if all_settled(fanout.settled_of()) {
                completion_answer(
                    old(self)@,
                    fanout.id_of(),
                    aggregate_spec(fanout.scheme_of(), fanout.collected()),
                )
            } else {
                Settled::Unfinished
            },
            answer != Settled::Failed(SchemeError::MalformedSignature),
    {
        if !fanout.is_finished() {
            return Settled::Unfinished;
        }
        let signatures = fanout.signatures();
        let sum = aggregate(fanout.scheme, &signatures);
        self.complete(fanout.id, sum)
    }
}

} // verus!
