use bls_signatures::Serialize;
use aggsig::scheme::{
    aggregate, aggregate_public_keys, augment, derive_public_key, keyed_result, payload,
    public_key_decodes, sign, signature_decodes, sum_result, verify, KeyPair, Scheme, SchemeError,
};

fn unhex(text: &str) -> Vec<u8> {
    hex::decode(text).unwrap()
}

/// A 32-byte scalar with the high byte first, as the pairing over bn254 reads it.
fn bn_scalar(n: u64) -> Vec<u8> {
    let mut bytes = vec![0u8; 24];
    bytes.extend_from_slice(&n.to_be_bytes());
    bytes
}

/// A 32-byte scalar with the low byte first, as the pairing over bls12-381 reads it.
fn bls_scalar(n: u64) -> Vec<u8> {
    let mut bytes = n.to_le_bytes().to_vec();
    bytes.extend_from_slice(&[0u8; 24]);
    bytes
}

fn scalar(scheme: Scheme, n: u64) -> Vec<u8> {
    match scheme {
        Scheme::Augmented => bls_scalar(n),
        Scheme::AggregateKey => bn_scalar(n),
    }
}

const BOTH: [Scheme; 2] = [Scheme::Augmented, Scheme::AggregateKey];

#[test]
fn bn_signature_of_a_known_key_and_message() {
    let key = unhex("2009da7287c158b126123c113d1c85241b6e3294dd75c643588630a8bc0f934c");
    let signature = sign(Scheme::AggregateKey, &key, b"sample").unwrap();
    assert_eq!(
        hex::encode(&signature),
        "020f047a153e94b5f109e4013d1bd078112817cf0d58cdf6ba8891f9849852ba5b"
    );
    let public = derive_public_key(Scheme::AggregateKey, &key).unwrap();
    assert_eq!(public.len(), 65);
    assert!(verify(Scheme::AggregateKey, &signature, b"sample", &vec![public]));
}

#[test]
fn encodings_have_their_lengths() {
    let bn = KeyPair::from_private(Scheme::AggregateKey, bn_scalar(5)).unwrap();
    assert_eq!(bn.public_key().len(), 65);
    assert_eq!(bn.endorse(b"m").unwrap().len(), 33);
    let bls = KeyPair::from_private(Scheme::Augmented, bls_scalar(5)).unwrap();
    assert_eq!(bls.public_key().len(), 48);
    assert_eq!(bls.endorse(b"m").unwrap().len(), 96);
}

#[test]
fn a_signature_verifies_under_its_own_key() {
    for scheme in BOTH {
        for n in [1u64, 2, 3, 77, 123_456_789] {
            let keys = KeyPair::from_private(scheme, scalar(scheme, n)).unwrap();
            let message = b"hello";
            let to_sign = payload(scheme, keys.public_key(), message);
            let signature = sign(scheme, &scalar(scheme, n), &to_sign).unwrap();
            let sum = aggregate(scheme, &vec![signature.clone()]).unwrap();
            assert_eq!(sum, signature);
            assert!(verify(scheme, &sum, message, &vec![keys.public_key().clone()]));
        }
    }
}

#[test]
fn endorse_signs_the_payload_of_the_scheme() {
    for scheme in BOTH {
        let keys = KeyPair::from_private(scheme, scalar(scheme, 9)).unwrap();
        let by_hand = sign(
            scheme,
            &scalar(scheme, 9),
            &payload(scheme, keys.public_key(), b"abc"),
        );
        assert_eq!(keys.endorse(b"abc"), by_hand);
    }
    let keys = KeyPair::from_private(Scheme::Augmented, bls_scalar(9)).unwrap();
    let bare = sign(Scheme::Augmented, &bls_scalar(9), b"abc");
    assert_ne!(keys.endorse(b"abc"), bare);
}

#[test]
fn augment_puts_the_key_first() {
    assert_eq!(augment(&[1, 2], &[3, 4, 5]), vec![1, 2, 3, 4, 5]);
    assert_eq!(augment(&[], &[3]), vec![3]);
    assert_eq!(augment(&[7], &[]), vec![7]);
    assert_eq!(payload(Scheme::Augmented, &[1, 2], &[3]), vec![1, 2, 3]);
    assert_eq!(payload(Scheme::AggregateKey, &[1, 2], &[3]), vec![3]);
}

#[test]
fn aggregate_does_not_depend_on_the_order() {
    for scheme in BOTH {
        let signatures: Vec<Vec<u8>> = [4u64, 5, 6]
            .iter()
            .map(|n| {
                KeyPair::from_private(scheme, scalar(scheme, *n)).unwrap().endorse(b"hello").unwrap()
            })
            .collect();
        let orders = [[0, 1, 2], [0, 2, 1], [1, 0, 2], [1, 2, 0], [2, 0, 1], [2, 1, 0]];
        let first = aggregate(scheme, &signatures).unwrap();
        for order in orders {
            let shuffled: Vec<Vec<u8>> = order.iter().map(|i| signatures[*i].clone()).collect();
            assert_eq!(aggregate(scheme, &shuffled).unwrap(), first);
        }
    }
}

#[test]
fn aggregate_of_three_verifies_against_the_three_keys() {
    for scheme in BOTH {
        let pairs: Vec<KeyPair> = [1u64, 2, 3]
            .iter()
            .map(|n| KeyPair::from_private(scheme, scalar(scheme, *n)).unwrap())
            .collect();
        let message = b"123";
        let signatures: Vec<Vec<u8>> = pairs.iter().map(|p| p.endorse(message).unwrap()).collect();
        let publics: Vec<Vec<u8>> = pairs.iter().map(|p| p.public_key().clone()).collect();
        let sum = aggregate(scheme, &signatures).unwrap();
        assert!(verify(scheme, &sum, message, &publics));
        assert!(!verify(scheme, &sum, message, &publics[..2].to_vec()));
        assert!(!verify(scheme, &sum, b"124", &publics));
        assert!(!verify(scheme, &signatures[0], message, &publics));
    }
}

#[test]
fn aggregate_key_of_three_is_the_key_of_the_sum() {
    let publics: Vec<Vec<u8>> = [1u64, 2, 3]
        .iter()
        .map(|n| derive_public_key(Scheme::AggregateKey, &bn_scalar(*n)).unwrap())
        .collect();
    let sum = aggregate_public_keys(&publics).unwrap();
    assert_eq!(sum, derive_public_key(Scheme::AggregateKey, &bn_scalar(6)).unwrap());
    let signatures: Vec<Vec<u8>> = [1u64, 2, 3]
        .iter()
        .map(|n| sign(Scheme::AggregateKey, &bn_scalar(*n), b"123").unwrap())
        .collect();
    let total = aggregate(Scheme::AggregateKey, &signatures).unwrap();
    assert_eq!(total, sign(Scheme::AggregateKey, &bn_scalar(6), b"123").unwrap());
    assert!(verify(Scheme::AggregateKey, &total, b"123", &vec![sum]));
}

/// Two signers, their aggregate over "hello", and their public keys.
fn two_signers(scheme: Scheme) -> (Vec<u8>, Vec<u8>, Vec<Vec<u8>>) {
    let pairs: Vec<KeyPair> = [11u64, 12]
        .iter()
        .map(|n| KeyPair::from_private(scheme, scalar(scheme, *n)).unwrap())
        .collect();
    let message = b"hello".to_vec();
    let signatures: Vec<Vec<u8>> = pairs.iter().map(|p| p.endorse(&message).unwrap()).collect();
    let publics: Vec<Vec<u8>> = pairs.iter().map(|p| p.public_key().clone()).collect();
    let sum = aggregate(scheme, &signatures).unwrap();
    assert!(verify(scheme, &sum, &message, &publics));
    (message, sum, publics)
}

fn flip(bytes: &[u8], bit: usize) -> Vec<u8> {
    let mut other = bytes.to_vec();
    other[bit / 8] ^= 1 << (bit % 8);
    other
}

/// The `part`-th of `parts` equal stretches of the bits of `bytes`.
fn stretch(bytes: &[u8], part: usize, parts: usize) -> std::ops::Range<usize> {
    let bits = bytes.len() * 8;
    (bits * part / parts)..(bits * (part + 1) / parts)
}

fn no_flipped_message_verifies(scheme: Scheme) {
    let (message, sum, publics) = two_signers(scheme);
    for bit in 0..message.len() * 8 {
        assert!(!verify(scheme, &sum, &flip(&message, bit), &publics));
    }
}

fn no_flipped_signature_verifies(scheme: Scheme, part: usize, parts: usize) {
    let (message, sum, publics) = two_signers(scheme);
    for bit in stretch(&sum, part, parts) {
        assert!(!verify(scheme, &flip(&sum, bit), &message, &publics));
    }
}

fn no_flipped_key_verifies(scheme: Scheme, which: usize, part: usize, parts: usize) {
    let (message, sum, publics) = two_signers(scheme);
    for bit in stretch(&publics[which], part, parts) {
        let mut others = publics.clone();
        others[which] = flip(&publics[which], bit);
        assert!(!verify(scheme, &sum, &message, &others));
    }
}

#[test]
fn flipping_a_bit_of_the_message_fails_augmented() {
    no_flipped_message_verifies(Scheme::Augmented);
}

#[test]
fn flipping_a_bit_of_the_message_fails_aggregate_key() {
    no_flipped_message_verifies(Scheme::AggregateKey);
}

#[test]
fn flipping_a_bit_of_the_signature_fails_augmented_first_half() {
    no_flipped_signature_verifies(Scheme::Augmented, 0, 2);
}

#[test]
fn flipping_a_bit_of_the_signature_fails_augmented_second_half() {
    no_flipped_signature_verifies(Scheme::Augmented, 1, 2);
}

#[test]
fn flipping_a_bit_of_the_signature_fails_aggregate_key_first_fifth() {
    no_flipped_signature_verifies(Scheme::AggregateKey, 0, 5);
}

#[test]
fn flipping_a_bit_of_the_signature_fails_aggregate_key_second_fifth() {
    no_flipped_signature_verifies(Scheme::AggregateKey, 1, 5);
}

#[test]
fn flipping_a_bit_of_the_signature_fails_aggregate_key_third_fifth() {
    no_flipped_signature_verifies(Scheme::AggregateKey, 2, 5);
}

#[test]
fn flipping_a_bit_of_the_signature_fails_aggregate_key_fourth_fifth() {
    no_flipped_signature_verifies(Scheme::AggregateKey, 3, 5);
}

#[test]
fn flipping_a_bit_of_the_signature_fails_aggregate_key_fifth_fifth() {
    no_flipped_signature_verifies(Scheme::AggregateKey, 4, 5);
}

#[test]
fn flipping_a_bit_of_the_first_key_fails_augmented() {
    no_flipped_key_verifies(Scheme::Augmented, 0, 0, 1);
}

#[test]
fn flipping_a_bit_of_the_second_key_fails_augmented() {
    no_flipped_key_verifies(Scheme::Augmented, 1, 0, 1);
}

#[test]
fn flipping_a_bit_of_the_first_key_fails_aggregate_key_first_fifth() {
    no_flipped_key_verifies(Scheme::AggregateKey, 0, 0, 5);
}

#[test]
fn flipping_a_bit_of_the_first_key_fails_aggregate_key_second_fifth() {
    no_flipped_key_verifies(Scheme::AggregateKey, 0, 1, 5);
}

#[test]
fn flipping_a_bit_of_the_first_key_fails_aggregate_key_third_fifth() {
    no_flipped_key_verifies(Scheme::AggregateKey, 0, 2, 5);
}

#[test]
fn flipping_a_bit_of_the_first_key_fails_aggregate_key_fourth_fifth() {
    no_flipped_key_verifies(Scheme::AggregateKey, 0, 3, 5);
}

#[test]
fn flipping_a_bit_of_the_first_key_fails_aggregate_key_fifth_fifth() {
    no_flipped_key_verifies(Scheme::AggregateKey, 0, 4, 5);
}

#[test]
fn flipping_a_bit_of_the_second_key_fails_aggregate_key_first_fifth() {
    no_flipped_key_verifies(Scheme::AggregateKey, 1, 0, 5);
}

#[test]
fn flipping_a_bit_of_the_second_key_fails_aggregate_key_second_fifth() {
    no_flipped_key_verifies(Scheme::AggregateKey, 1, 1, 5);
}

#[test]
fn flipping_a_bit_of_the_second_key_fails_aggregate_key_third_fifth() {
    no_flipped_key_verifies(Scheme::AggregateKey, 1, 2, 5);
}

#[test]
fn flipping_a_bit_of_the_second_key_fails_aggregate_key_fourth_fifth() {
    no_flipped_key_verifies(Scheme::AggregateKey, 1, 3, 5);
}

#[test]
fn flipping_a_bit_of_the_second_key_fails_aggregate_key_fifth_fifth() {
    no_flipped_key_verifies(Scheme::AggregateKey, 1, 4, 5);
}

#[test]
fn a_malformed_private_key_is_refused() {
    for scheme in BOTH {
        assert_eq!(sign(scheme, &[7u8; 31], b"m"), Err(SchemeError::InvalidKey));
        assert_eq!(sign(scheme, &[7u8; 33], b"m"), Err(SchemeError::InvalidKey));
        assert_eq!(sign(scheme, &[], b"m"), Err(SchemeError::InvalidKey));
        assert_eq!(derive_public_key(scheme, &[7u8; 31]), Err(SchemeError::InvalidKey));
        assert!(KeyPair::from_private(scheme, vec![1, 2, 3]).is_err());
    }
    // The order of the scalar field of bls12-381 and the number before it, low byte first.
    let mut order = unhex("73eda753299d7d483339d80809a1d80553bda402fffe5bfeffffffff00000001");
    order.reverse();
    assert_eq!(sign(Scheme::Augmented, &order, b"m"), Err(SchemeError::InvalidKey));
    assert_eq!(sign(Scheme::Augmented, &[0xff; 32], b"m"), Err(SchemeError::InvalidKey));
    let mut below = order.clone();
    below[0] = 0;
    assert!(sign(Scheme::Augmented, &below, b"m").is_ok());
    // Any 32 bytes are a scalar of bn254.
    assert!(sign(Scheme::AggregateKey, &[0xff; 32], b"m").is_ok());
}

#[test]
fn the_zero_key_of_bn_has_no_public_key() {
    assert_eq!(
        derive_public_key(Scheme::AggregateKey, &[0u8; 32]),
        Err(SchemeError::Degenerate)
    );
    assert_eq!(sign(Scheme::AggregateKey, &[0u8; 32], b"m"), Err(SchemeError::Degenerate));
}

#[test]
fn aggregate_of_nothing_is_refused() {
    for scheme in BOTH {
        assert_eq!(aggregate(scheme, &vec![]), Err(SchemeError::EmptyInput));
    }
    assert_eq!(aggregate_public_keys(&vec![]), Err(SchemeError::EmptyInput));
}

#[test]
fn aggregate_refuses_a_signature_that_does_not_decode() {
    for scheme in BOTH {
        let good = KeyPair::from_private(scheme, scalar(scheme, 3)).unwrap().endorse(b"m").unwrap();
        let mut short = good.clone();
        short.pop();
        let mut off_curve = good.clone();
        let last = off_curve.len() - 1;
        off_curve[0] = 0x55;
        off_curve[last] ^= 1;
        for bad in [vec![], vec![1, 2, 3], short, off_curve] {
            assert!(!signature_decodes(scheme, &bad));
            assert_eq!(
                aggregate(scheme, &vec![good.clone(), bad.clone()]),
                Err(SchemeError::MalformedSignature)
            );
            assert_eq!(
                aggregate(scheme, &vec![bad.clone(), good.clone()]),
                Err(SchemeError::MalformedSignature)
            );
            assert_eq!(aggregate(scheme, &vec![bad]), Err(SchemeError::MalformedSignature));
        }
        assert!(signature_decodes(scheme, &good));
    }
}

#[test]
fn aggregate_key_refuses_a_key_that_does_not_decode() {
    let good = derive_public_key(Scheme::AggregateKey, &bn_scalar(3)).unwrap();
    assert!(public_key_decodes(Scheme::AggregateKey, &good));
    let mut bad = good.clone();
    bad[0] = 1;
    assert!(!public_key_decodes(Scheme::AggregateKey, &bad));
    assert_eq!(
        aggregate_public_keys(&vec![good.clone(), bad.clone()]),
        Err(SchemeError::MalformedKey)
    );
    assert_eq!(aggregate_public_keys(&vec![bad, good]), Err(SchemeError::MalformedKey));
    let bls = derive_public_key(Scheme::Augmented, &bls_scalar(3)).unwrap();
    assert!(public_key_decodes(Scheme::Augmented, &bls));
    assert!(!public_key_decodes(Scheme::Augmented, &bls[1..]));
    assert!(!public_key_decodes(Scheme::AggregateKey, &bls));
}

#[test]
fn a_sum_that_cancels_out_has_no_encoding() {
    let key = bn254::PrivateKey::try_from(bn_scalar(8).as_slice()).unwrap();
    let signature = bn254::ECDSA::sign(b"m", &key).unwrap();
    let plus = signature.to_compressed().unwrap();
    let minus = (-signature).to_compressed().unwrap();
    assert_eq!(
        aggregate(Scheme::AggregateKey, &vec![plus.clone(), minus.clone()]),
        Err(SchemeError::Degenerate)
    );
    let other = sign(Scheme::AggregateKey, &bn_scalar(9), b"m").unwrap();
    assert_eq!(
        aggregate(Scheme::AggregateKey, &vec![plus.clone(), minus.clone(), other.clone()]),
        Ok(other.clone())
    );
    let public = bn254::PublicKey::from_private_key(&key);
    let there = public.to_compressed().unwrap();
    let back = (-public).to_compressed().unwrap();
    assert_eq!(
        aggregate_public_keys(&vec![there.clone(), back.clone()]),
        Err(SchemeError::Degenerate)
    );
    assert!(!verify(Scheme::AggregateKey, &other, b"m", &vec![there, back]));
}

#[test]
fn verify_is_false_on_input_that_does_not_decode() {
    for scheme in BOTH {
        let keys = KeyPair::from_private(scheme, scalar(scheme, 21)).unwrap();
        let signature = keys.endorse(b"m").unwrap();
        let public = keys.public_key().clone();
        assert!(verify(scheme, &signature, b"m", &vec![public.clone()]));
        assert!(!verify(scheme, &[], b"m", &vec![public.clone()]));
        assert!(!verify(scheme, &signature[1..], b"m", &vec![public.clone()]));
        assert!(!verify(scheme, &signature, b"m", &vec![]));
        assert!(!verify(scheme, &signature, b"m", &vec![vec![]]));
        assert!(!verify(scheme, &signature, b"m", &vec![public.clone(), vec![1, 2]]));
        assert!(!verify(scheme, &signature, b"m", &vec![public[1..].to_vec()]));
    }
}

#[test]
fn fresh_keys_sign_and_verify() {
    for scheme in BOTH {
        let one = KeyPair::generate(scheme).unwrap();
        let two = KeyPair::generate(scheme).unwrap();
        assert_eq!(one.scheme(), scheme);
        assert_ne!(one.public_key(), two.public_key());
        let signatures = vec![one.endorse(b"m").unwrap(), two.endorse(b"m").unwrap()];
        let publics = vec![one.public_key().clone(), two.public_key().clone()];
        let sum = aggregate(scheme, &signatures).unwrap();
        assert!(verify(scheme, &sum, b"m", &publics));
    }
}

#[test]
fn outcomes_follow_the_key_check_and_the_sum() {
    assert_eq!(keyed_result(false, Some(vec![1])), Err(SchemeError::InvalidKey));
    assert_eq!(keyed_result(false, None), Err(SchemeError::InvalidKey));
    assert_eq!(keyed_result(true, None), Err(SchemeError::Degenerate));
    assert_eq!(keyed_result(true, Some(vec![1, 2])), Ok(vec![1, 2]));
    let unread = SchemeError::MalformedSignature;
    assert_eq!(sum_result(0, Some(Some(vec![1])), unread), Err(SchemeError::EmptyInput));
    assert_eq!(sum_result(0, None, unread), Err(SchemeError::EmptyInput));
    assert_eq!(sum_result(2, None, unread), Err(SchemeError::MalformedSignature));
    assert_eq!(sum_result(2, None, SchemeError::MalformedKey), Err(SchemeError::MalformedKey));
    assert_eq!(sum_result(2, Some(None), unread), Err(SchemeError::Degenerate));
    assert_eq!(sum_result(2, Some(Some(vec![7])), unread), Ok(vec![7]));
}

#[test]
fn a_rogue_key_passes_with_an_aggregate_key_and_fails_with_augmented_messages() {
    // The honest party, and an adversary who knows the scalar 1234 and
    // publishes the key of 1234 minus the honest key, so that the two keys
    // add up to the key of 1234.
    let honest = bn254::PublicKey::from_private_key(
        &bn254::PrivateKey::try_from(bn_scalar(42).as_slice()).unwrap(),
    );
    let known = bn254::PrivateKey::try_from(bn_scalar(1234).as_slice()).unwrap();
    let rogue = bn254::PublicKey::from_private_key(&known) - honest;
    let publics = vec![honest.to_compressed().unwrap(), rogue.to_compressed().unwrap()];
    let forged = sign(Scheme::AggregateKey, &bn_scalar(1234), b"pay me").unwrap();
    // Nothing in the aggregate-key scheme stops this.
    assert!(verify(Scheme::AggregateKey, &forged, b"pay me", &publics));
}

#[test]
fn a_rogue_key_does_not_pass_with_augmented_messages() {
    // The honest party never signs. The adversary knows the scalar 1234 and
    // publishes the key of 1234 minus the honest key, so that the two keys
    // add up to a key whose scalar it knows.
    let scheme = Scheme::Augmented;
    let honest = KeyPair::from_private(scheme, bls_scalar(42)).unwrap();
    let honest_key = bls_signatures::PublicKey::from_bytes(honest.public_key()).unwrap();
    let honest_point: bls12_381::G1Projective = honest_key.into();
    let known = bls12_381::G1Projective::generator() * bls12_381::Scalar::from(1234u64);
    let rogue_key: bls_signatures::PublicKey = (known - honest_point).into();
    let rogue = rogue_key.as_bytes();
    assert!(public_key_decodes(scheme, &rogue));
    let publics = vec![honest.public_key().clone(), rogue.clone()];
    let message = b"pay me";
    let attempts = vec![
        sign(scheme, &bls_scalar(1234), message).unwrap(),
        sign(scheme, &bls_scalar(1234), &augment(&rogue, message)).unwrap(),
        sign(scheme, &bls_scalar(1234), &augment(honest.public_key(), message)).unwrap(),
        aggregate(
            scheme,
            &vec![
                sign(scheme, &bls_scalar(1234), &augment(&rogue, message)).unwrap(),
                sign(scheme, &bls_scalar(1234), &augment(honest.public_key(), message)).unwrap(),
            ],
        )
        .unwrap(),
    ];
    for forged in attempts {
        assert!(!verify(scheme, &forged, message, &publics));
    }
    // With the honest signature the aggregate does pass, rogue key or not:
    // the key is only useless to its owner, who does not know its scalar.
    let other = KeyPair::from_private(scheme, bls_scalar(7)).unwrap();
    let both = vec![honest.public_key().clone(), other.public_key().clone()];
    let sum = aggregate(
        scheme,
        &vec![honest.endorse(message).unwrap(), other.endorse(message).unwrap()],
    )
    .unwrap();
    assert!(verify(scheme, &sum, message, &both));
}

#[test]
fn verification_does_not_depend_on_the_order_of_the_keys() {
    for scheme in BOTH {
        let pairs: Vec<KeyPair> = [31u64, 32, 33]
            .iter()
            .map(|n| KeyPair::from_private(scheme, scalar(scheme, *n)).unwrap())
            .collect();
        let signatures: Vec<Vec<u8>> = pairs.iter().map(|p| p.endorse(b"m").unwrap()).collect();
        let publics: Vec<Vec<u8>> = pairs.iter().map(|p| p.public_key().clone()).collect();
        let sum = aggregate(scheme, &signatures).unwrap();
        for order in [[0, 1, 2], [0, 2, 1], [1, 0, 2], [1, 2, 0], [2, 0, 1], [2, 1, 0]] {
            let shuffled: Vec<Vec<u8>> = order.iter().map(|i| publics[*i].clone()).collect();
            assert!(verify(scheme, &sum, b"m", &shuffled));
            assert!(!verify(scheme, &sum, b"n", &shuffled));
        }
        // A key that is listed twice is one signer too many.
        let mut twice = publics.clone();
        twice.push(publics[0].clone());
        assert!(!verify(scheme, &sum, b"m", &twice));
    }
}

#[test]
fn the_zero_key_of_bls_signs_and_never_verifies() {
    // Zero is a scalar like any other, so it has a public key and signs;
    // the public key is the identity, which verification refuses.
    let scheme = Scheme::Augmented;
    let keys = KeyPair::from_private(scheme, vec![0u8; 32]).unwrap();
    let signature = keys.endorse(b"m").unwrap();
    assert!(public_key_decodes(scheme, keys.public_key()));
    assert!(signature_decodes(scheme, &signature));
    assert!(!verify(scheme, &signature, b"m", &vec![keys.public_key().clone()]));
}

#[test]
fn every_key_drawn_gives_a_pair() {
    for scheme in BOTH {
        for _ in 0..20 {
            let keys = KeyPair::generate(scheme).unwrap();
            assert!(public_key_decodes(scheme, keys.public_key()));
            assert!(signature_decodes(scheme, &keys.endorse(b"m").unwrap()));
        }
    }
}
