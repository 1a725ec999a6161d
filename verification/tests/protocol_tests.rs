use anonycast::crypto::{ring_generate, PrivateKey, PublicKey, Ring};
use anonycast::drand::Beacon;
use anonycast::protocol::{Message, RetrieveDocumentIds, Signed};
use anonycast::rle::{deserialize_and_read, serialize_and_write};
use anonycast::{crypto_puzzle_solve, crypto_puzzle_verify};

fn test_keypair() -> (PublicKey, PrivateKey) {
    let key = rsa::RsaPrivateKey::new(&mut rand::thread_rng(), 512).expect("keygen");
    let priv_bytes = bincode::serialize(&key).expect("serialize");
    let pub_bytes = bincode::serialize(&rsa::RsaPublicKey::from(&key)).expect("serialize");
    (PublicKey { bytes: pub_bytes }, PrivateKey { bytes: priv_bytes })
}

fn sample_beacon() -> Beacon {
    Beacon {
        round_number: 42,
        randomness: vec![1, 2, 3],
        signature: vec![9, 9, 9, 9],
        previous_signature: Vec::new(),
    }
}

fn sample_message() -> Message {
    Message::RetrieveDocumentIds(RetrieveDocumentIds {
        topic: String::from("some-topic"),
        since_round: 7,
        beacon: sample_beacon(),
        chain: String::from("some-chain"),
        nonce_solution: 11,
    })
}

#[test]
fn sign_then_verify_holds() {
    let (public_key, private_key) = test_keypair();
    let env = Signed::<Message>::sign(&private_key, sample_message()).unwrap();
    assert!(env.verify());
    assert!(env.verify_with(&public_key));
}

#[test]
fn verify_fails_on_changed_content() {
    let (_public_key, private_key) = test_keypair();
    let env = Signed::<Message>::sign(&private_key, sample_message()).unwrap();
    // move the signature onto different content
    let forged = Signed::new(Message::RetrieveKeys, env.signature);
    assert!(!forged.verify());
}

#[test]
fn verify_with_wrong_key_fails() {
    let (_pub_a, priv_a) = test_keypair();
    let env = Signed::<Message>::sign(&priv_a, sample_message()).unwrap();
    let (pub_b, _priv_b) = test_keypair();
    assert!(env.verify());
    assert!(!env.verify_with(&pub_b));
}

#[test]
fn ring_sign_then_ring_verify_holds() {
    let (pub0, priv0) = ring_generate();
    let (pub1, _p1) = ring_generate();
    let (pub2, _p2) = ring_generate();
    let ring = Ring::from_keys(vec![pub0.clone_key(), pub1.clone_key(), pub2.clone_key()]);
    let env = Signed::<Message>::ring_sign(&priv0, &ring, sample_message()).unwrap();
    assert!(env.ring_verify(&ring));
    assert!(!env.verify());
    // a ring that is not a permutation of the signing ring fails
    let (pub3, _p3) = ring_generate();
    let other = Ring::from_keys(vec![pub0.clone_key(), pub1.clone_key(), pub3.clone_key()]);
    assert!(!env.ring_verify(&other));
}

#[test]
fn envelope_roundtrip_is_bit_identical() {
    let (_public_key, private_key) = test_keypair();
    let env = Signed::<Message>::sign(&private_key, sample_message()).unwrap();
    let mut stream: Vec<u8> = Vec::new();
    assert!(serialize_and_write(&mut stream, &env));
    let (decoded, consumed) = deserialize_and_read(&stream, 0).unwrap();
    assert_eq!(consumed, stream.len());
    // bit-identical: the canonical serializations agree byte for byte
    let mut original_bytes: Vec<u8> = Vec::new();
    let mut decoded_bytes: Vec<u8> = Vec::new();
    assert!(serialize_and_write(&mut original_bytes, &env));
    assert!(serialize_and_write(&mut decoded_bytes, &decoded));
    assert_eq!(original_bytes, decoded_bytes);
    assert!(decoded.verify());
}

#[test]
fn puzzle_solve_then_verify() {
    let beacon = sample_beacon();
    let data = b"payload";
    let solution = crypto_puzzle_solve(data, &beacon, 8).unwrap();
    assert!(crypto_puzzle_verify(data, &beacon, 8, solution));
    // difficulty zero accepts the smallest nonce outright
    assert_eq!(crypto_puzzle_solve(data, &beacon, 0), Some(0));
    assert!(crypto_puzzle_verify(data, &beacon, 0, 0));
}
