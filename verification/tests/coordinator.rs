use aggsig::coordinator::{Coordinator, FanOut, Recorded, Settled, Status, SubmitError};
use aggsig::scheme::{aggregate, verify, KeyPair, Scheme, SchemeError};
use aggsig::worker::{Reply, Worker};

fn fixed_key(scheme: Scheme, n: u8) -> Vec<u8> {
    let mut bytes = vec![0u8; 32];
    match scheme {
        Scheme::Augmented => bytes[0] = n,
        Scheme::AggregateKey => bytes[31] = n,
    }
    bytes
}

fn ready_workers(scheme: Scheme, count: u8) -> Vec<Worker> {
    (1..=count)
        .map(|n| {
            let mut worker = Worker::new(KeyPair::from_private(scheme, fixed_key(scheme, n)).unwrap());
            assert!(worker.start().is_some());
            worker
        })
        .collect()
}

fn addresses(count: usize) -> Vec<String> {
    (0..count).map(|i| format!("127.0.0.1:{}", 9000 + i)).collect()
}

fn signature_of(worker: &Worker, message: &[u8]) -> Vec<u8> {
    match worker.handle(message) {
        Reply::Signature(bytes) => bytes,
        Reply::Dropped => panic!("the worker gave no signature"),
    }
}

fn submit_hello(coordinator: &mut Coordinator) -> FanOut {
    coordinator.submit(b"hello".to_vec()).unwrap()
}

const SCHEMES: [Scheme; 2] = [Scheme::Augmented, Scheme::AggregateKey];

#[test]
fn three_workers_answer_and_the_aggregate_verifies() {
    for scheme in SCHEMES {
        let workers = ready_workers(scheme, 3);
        let publics: Vec<Vec<u8>> = workers.iter().map(|w| w.public_key().clone()).collect();
        let mut coordinator = Coordinator::new(scheme, addresses(3));
        let mut fanout = submit_hello(&mut coordinator);
        let id = fanout.id();
        assert_eq!(fanout.workers(), 3);
        assert_eq!(fanout.message(), &b"hello".to_vec());
        assert_eq!(coordinator.poll(id), Status::Pending);
        // The answers arrive in another order than the workers are listed.
        for i in [2usize, 0, 1] {
            assert!(!fanout.is_finished());
            assert_eq!(coordinator.settle(&fanout), Settled::Unfinished);
            assert_eq!(coordinator.poll(id), Status::Pending);
            let answer = signature_of(&workers[i], fanout.message());
            assert_eq!(fanout.record_reply(i, answer), Recorded::Signature);
        }
        assert!(fanout.is_finished());
        assert_eq!(fanout.signatures().len(), 3);
        let givers: Vec<usize> = fanout.partials().iter().map(|p| p.worker()).collect();
        assert_eq!(givers, vec![2, 0, 1]);
        for partial in fanout.partials() {
            assert_eq!(
                partial.signature(),
                &signature_of(&workers[partial.worker()], b"hello")
            );
        }
        assert_eq!(
            fanout.signatures(),
            fanout.partials().iter().map(|p| p.signature().clone()).collect::<Vec<_>>()
        );
        assert_eq!(coordinator.settle(&fanout), Settled::Stored);
        let Status::Complete(sum) = coordinator.poll(id) else { panic!("not complete") };
        assert!(verify(scheme, &sum, b"hello", &publics));
        assert!(!verify(scheme, &sum, b"hello", &publics[..2].to_vec()));
        assert_eq!(coordinator.settle(&fanout), Settled::Closed);
        assert_eq!(coordinator.poll(id), Status::Complete(sum));
    }
}

#[test]
fn an_unreachable_worker_is_left_out() {
    for scheme in SCHEMES {
        let workers = ready_workers(scheme, 3);
        let publics: Vec<Vec<u8>> = workers.iter().map(|w| w.public_key().clone()).collect();
        let mut coordinator = Coordinator::new(scheme, addresses(3));
        let mut fanout = submit_hello(&mut coordinator);
        let id = fanout.id();
        assert_eq!(
            fanout.record_reply(0, signature_of(&workers[0], b"hello")),
            Recorded::Signature
        );
        assert!(fanout.record_failure(1));
        assert_eq!(coordinator.settle(&fanout), Settled::Unfinished);
        assert_eq!(
            fanout.record_reply(2, signature_of(&workers[2], b"hello")),
            Recorded::Signature
        );
        assert!(fanout.is_finished());
        assert_eq!(fanout.signatures().len(), 2);
        let givers: Vec<usize> = fanout.partials().iter().map(|p| p.worker()).collect();
        assert_eq!(givers, vec![0, 2]);
        assert_eq!(coordinator.settle(&fanout), Settled::Stored);
        let Status::Complete(sum) = coordinator.poll(id) else { panic!("not complete") };
        assert!(!verify(scheme, &sum, b"hello", &publics));
        let responding = vec![publics[0].clone(), publics[2].clone()];
        assert!(verify(scheme, &sum, b"hello", &responding));
        let expected = aggregate(
            scheme,
            &vec![signature_of(&workers[0], b"hello"), signature_of(&workers[2], b"hello")],
        );
        assert_eq!(expected, Ok(sum));
    }
}

#[test]
fn no_answer_at_all_leaves_the_request_pending() {
    for scheme in SCHEMES {
        let mut coordinator = Coordinator::new(scheme, addresses(2));
        let mut fanout = submit_hello(&mut coordinator);
        assert!(fanout.record_failure(0));
        assert!(fanout.record_failure(1));
        assert!(fanout.is_finished());
        assert_eq!(coordinator.settle(&fanout), Settled::Failed(SchemeError::EmptyInput));
        assert_eq!(coordinator.poll(fanout.id()), Status::Pending);
    }
}

#[test]
fn a_coordinator_without_workers_never_completes() {
    let mut coordinator = Coordinator::new(Scheme::AggregateKey, vec![]);
    let fanout = submit_hello(&mut coordinator);
    assert_eq!(fanout.workers(), 0);
    assert!(fanout.is_finished());
    assert_eq!(coordinator.settle(&fanout), Settled::Failed(SchemeError::EmptyInput));
    assert_eq!(coordinator.poll(fanout.id()), Status::Pending);
}

#[test]
fn an_answer_that_does_not_decode_counts_as_no_answer() {
    for scheme in SCHEMES {
        let workers = ready_workers(scheme, 2);
        let mut coordinator = Coordinator::new(scheme, addresses(2));
        let mut fanout = submit_hello(&mut coordinator);
        assert_eq!(fanout.record_reply(0, b"not a signature".to_vec()), Recorded::Nothing);
        assert_eq!(fanout.signatures().len(), 0);
        // The worker is accounted for: a second answer changes nothing.
        let late = signature_of(&workers[0], b"hello");
        assert_eq!(fanout.record_reply(0, late), Recorded::Ignored);
        assert!(!fanout.record_failure(0));
        assert_eq!(fanout.signatures().len(), 0);
        let answer = signature_of(&workers[1], b"hello");
        assert_eq!(fanout.record_reply(1, answer.clone()), Recorded::Signature);
        assert_eq!(coordinator.settle(&fanout), Settled::Stored);
        assert_eq!(coordinator.poll(fanout.id()), Status::Complete(answer));
    }
}

#[test]
fn a_worker_outside_the_list_is_ignored() {
    let workers = ready_workers(Scheme::AggregateKey, 1);
    let mut coordinator = Coordinator::new(Scheme::AggregateKey, addresses(1));
    let mut fanout = submit_hello(&mut coordinator);
    let answer = signature_of(&workers[0], b"hello");
    assert_eq!(fanout.record_reply(1, answer.clone()), Recorded::Ignored);
    assert_eq!(fanout.record_reply(usize::MAX, answer.clone()), Recorded::Ignored);
    assert!(!fanout.record_failure(1));
    assert!(!fanout.is_finished());
    assert_eq!(fanout.record_reply(0, answer.clone()), Recorded::Signature);
    assert_eq!(fanout.record_reply(0, answer), Recorded::Ignored);
    assert_eq!(fanout.signatures().len(), 1);
}

#[test]
fn a_sum_that_cancels_out_leaves_the_request_pending() {
    let key = bn254::PrivateKey::try_from(fixed_key(Scheme::AggregateKey, 8).as_slice()).unwrap();
    let signature = bn254::ECDSA::sign(b"hello", &key).unwrap();
    let mut coordinator = Coordinator::new(Scheme::AggregateKey, addresses(2));
    let mut fanout = submit_hello(&mut coordinator);
    assert_eq!(
        fanout.record_reply(0, signature.to_compressed().unwrap()),
        Recorded::Signature
    );
    assert_eq!(
        fanout.record_reply(1, (-signature).to_compressed().unwrap()),
        Recorded::Signature
    );
    assert_eq!(coordinator.settle(&fanout), Settled::Failed(SchemeError::Degenerate));
    assert_eq!(coordinator.poll(fanout.id()), Status::Pending);
}

#[test]
fn identifiers_are_not_given_twice() {
    let mut coordinator = Coordinator::new(Scheme::AggregateKey, addresses(1));
    let first = coordinator.register(7, b"one".to_vec()).unwrap();
    assert_eq!(first.id(), 7);
    assert!(matches!(
        coordinator.register(7, b"two".to_vec()),
        Err(SubmitError::IdentifierInUse)
    ));
    assert_eq!(coordinator.poll(7), Status::Pending);
    let second = coordinator.register(8, b"two".to_vec()).unwrap();
    assert_eq!(second.message(), &b"two".to_vec());
    let mut seen = std::collections::HashSet::new();
    for _ in 0..200 {
        let fanout = coordinator.submit(b"m".to_vec()).unwrap();
        assert!(seen.insert(fanout.id()));
        assert_eq!(coordinator.poll(fanout.id()), Status::Pending);
    }
}

#[test]
fn poll_of_an_unknown_identifier_finds_nothing() {
    let mut coordinator = Coordinator::new(Scheme::Augmented, addresses(1));
    assert_eq!(coordinator.poll(0), Status::NotFound);
    let fanout = submit_hello(&mut coordinator);
    assert_eq!(coordinator.poll(fanout.id().wrapping_add(1)), Status::NotFound);
    assert_eq!(coordinator.poll_token("no identifier"), Status::NotFound);
    assert_eq!(coordinator.poll_token(""), Status::NotFound);
    assert_eq!(
        coordinator.poll_token("00000000-0000-0000-0000-000000000000"),
        Status::NotFound
    );
    assert_eq!(coordinator.poll_token(fanout.token()), Status::Pending);
    assert_eq!(coordinator.poll_token(&fanout.token().to_uppercase()), Status::Pending);
}

#[test]
fn complete_stores_once() {
    let mut coordinator = Coordinator::new(Scheme::AggregateKey, addresses(1));
    coordinator.register(1, b"m".to_vec()).unwrap();
    assert_eq!(coordinator.complete(2, Ok(vec![9])), Settled::Closed);
    assert_eq!(coordinator.poll(2), Status::NotFound);
    assert_eq!(
        coordinator.complete(1, Err(SchemeError::MalformedSignature)),
        Settled::Failed(SchemeError::MalformedSignature)
    );
    assert_eq!(coordinator.poll(1), Status::Pending);
    assert_eq!(coordinator.complete(1, Ok(vec![9, 9])), Settled::Stored);
    assert_eq!(coordinator.poll(1), Status::Complete(vec![9, 9]));
    assert_eq!(coordinator.complete(1, Ok(vec![1])), Settled::Closed);
    assert_eq!(coordinator.complete(1, Err(SchemeError::EmptyInput)), Settled::Closed);
    assert_eq!(coordinator.poll(1), Status::Complete(vec![9, 9]));
}

#[test]
fn requests_do_not_disturb_each_other() {
    let scheme = Scheme::AggregateKey;
    let workers = ready_workers(scheme, 2);
    let mut coordinator = Coordinator::new(scheme, addresses(2));
    assert_eq!(coordinator.scheme(), scheme);
    assert_eq!(coordinator.workers(), &addresses(2));
    let mut one = coordinator.submit(b"one".to_vec()).unwrap();
    let mut two = coordinator.submit(b"two".to_vec()).unwrap();
    assert_ne!(one.id(), two.id());
    for (i, worker) in workers.iter().enumerate() {
        assert_eq!(two.record_reply(i, signature_of(worker, b"two")), Recorded::Signature);
    }
    assert_eq!(coordinator.settle(&two), Settled::Stored);
    assert_eq!(coordinator.poll(one.id()), Status::Pending);
    for (i, worker) in workers.iter().enumerate() {
        assert_eq!(one.record_reply(i, signature_of(worker, b"one")), Recorded::Signature);
    }
    assert_eq!(coordinator.settle(&one), Settled::Stored);
    let publics: Vec<Vec<u8>> = workers.iter().map(|w| w.public_key().clone()).collect();
    let Status::Complete(first) = coordinator.poll(one.id()) else { panic!("not complete") };
    let Status::Complete(second) = coordinator.poll(two.id()) else { panic!("not complete") };
    assert!(verify(scheme, &first, b"one", &publics));
    assert!(verify(scheme, &second, b"two", &publics));
    assert!(!verify(scheme, &first, b"two", &publics));
}

#[test]
fn tokens_are_hyphenated_lower_case_hex() {
    let mut coordinator = Coordinator::new(Scheme::AggregateKey, addresses(1));
    let cases = [
        (0xa1a2a3a4b1b2c1c2d1d2d3d4d5d6d7d8, "a1a2a3a4-b1b2-c1c2-d1d2-d3d4d5d6d7d8"),
        (0, "00000000-0000-0000-0000-000000000000"),
        (255, "00000000-0000-0000-0000-0000000000ff"),
        (256, "00000000-0000-0000-0000-000000000100"),
        (u128::MAX, "ffffffff-ffff-ffff-ffff-ffffffffffff"),
    ];
    for (id, token) in cases {
        let fanout = coordinator.register(id, b"m".to_vec()).unwrap();
        assert_eq!(fanout.id(), id);
        assert_eq!(fanout.token(), token);
    }
}

#[test]
fn tokens_read_back() {
    let mut coordinator = Coordinator::new(Scheme::AggregateKey, addresses(1));
    coordinator.register(0xa1a2a3a4b1b2c1c2d1d2d3d4d5d6d7d8, b"m".to_vec()).unwrap();
    let mut drawn = Vec::new();
    for _ in 0..20 {
        let fanout = coordinator.submit(b"m".to_vec()).unwrap();
        assert_eq!(fanout.token().len(), 36);
        drawn.push(fanout);
    }
    for fanout in &drawn {
        assert_eq!(coordinator.poll_token(fanout.token()), Status::Pending);
        assert_eq!(coordinator.complete(fanout.id(), Ok(vec![1])), Settled::Stored);
        assert_eq!(coordinator.poll_token(fanout.token()), Status::Complete(vec![1]));
    }
    for token in [
        "a1a2a3a4-b1b2-c1c2-d1d2-d3d4d5d6d7d8",
        "A1A2A3A4-B1B2-C1C2-D1D2-D3D4D5D6D7D8",
        "a1a2a3a4b1b2c1c2d1d2d3d4d5d6d7d8",
    ] {
        assert_eq!(coordinator.poll_token(token), Status::Pending);
    }
    for token in ["", "processing", "a1a2a3a4-b1b2-c1c2-d1d2-d3d4d5d6d7", "a1a2a3a4-b1b2-c1c2-d1d2-d3d4d5d6d7d9"] {
        assert_eq!(coordinator.poll_token(token), Status::NotFound);
    }
}
