use anonycast::client::{Client, Config as ClientConfig};
use anonycast::crypto::{ring_generate, PrivateKey, PublicKey, Ring, RingPrivateKey};
use anonycast::deaddrop::{Config as DeaddropConfig, Deaddrop};
use anonycast::document::{DocumentContent, DocumentDrand};
use anonycast::drand::{Beacon, ChainInfo, ChainInfoMetadata, SchemeId};
use anonycast::protocol::{Message, PublishDocument, RetrieveDocumentIds, Signed};
use anonycast::{crypto_puzzle_solve, ModeOfOperation};


// A small RSA keypair keeps these tests fast; every library operation is
// size-agnostic.
fn test_keypair() -> (PublicKey, PrivateKey) {
    let key = rsa::RsaPrivateKey::new(&mut rand::thread_rng(), 512).expect("keygen");
    let priv_bytes = bincode::serialize(&key).expect("serialize");
    let pub_bytes = bincode::serialize(&rsa::RsaPublicKey::from(&key)).expect("serialize");
    (PublicKey { bytes: pub_bytes }, PrivateKey { bytes: priv_bytes })
}

fn dehex(s: &str) -> Vec<u8> {
    let digits: Vec<u8> = s
        .bytes()
        .map(|b| match b {
            b'0'..=b'9' => b - b'0',
            b'a'..=b'f' => b - b'a' + 10,
            b'A'..=b'F' => b - b'A' + 10,
            _ => panic!("invalid hex"),
        })
        .collect();
    digits.chunks(2).map(|p| (p[0] << 4) | p[1]).collect()
}

// A publicly known beacon of the drand testnet's unchained network, used
// as a deterministic fixture.
const CHAIN_PK: &str = "8d91ae0f4e3cd277cfc46aba26680232b0d5bb4444602cdb23442d62e17f43cdffb1104909e535430c10a6a1ce680a65";
const BEACON_ROUND: u64 = 397092;
const BEACON_RANDOMNESS: &str = "7731783ab8118d7484d0e8e237f3023a4c7ef4532f35016f2e56e89a7570c796";
fn fixture_beacon() -> Beacon {
    Beacon {
        round_number: BEACON_ROUND,
        randomness: dehex(BEACON_RANDOMNESS),
        signature: dehex("94da96b5b985a22a3d99fa3051a42feb4da9218763f6c836fca3770292dbf4b01f5d378859a113960548d167eaa144250a2c8e34c51c5270152ac2bc7a52632236f746545e0fae52f69068c017745204240d19dae2b4d038cef3c6047fcd6539"),
        previous_signature: Vec::new(),
    }
}

fn chain_info() -> ChainInfo {
    ChainInfo {
        scheme_id: SchemeId::PedersenBlsUnchained,
        public_key: dehex(CHAIN_PK),
        chain_hash: Vec::new(),
        group_hash: Vec::new(),
        genesis_time: 0,
        period_seconds: 3,
        metadata: ChainInfoMetadata { beacon_id: String::from("testnet-unchained") },
    }
}

fn current_beacon(round: u64) -> Beacon {
    Beacon {
        round_number: round,
        randomness: Vec::new(),
        signature: Vec::new(),
        previous_signature: Vec::new(),
    }
}

fn drand_anchor() -> DocumentDrand {
    DocumentDrand {
        chain: String::from("testnet"),
        beacon: fixture_beacon(),
        scheme: SchemeId::PedersenBlsUnchained,
    }
}

fn open_client(private_key: PrivateKey, difficulty: u8, window: u64) -> Client {
    Client::new(
        ClientConfig {
            mode: ModeOfOperation::Open,
            private_key: Some(private_key),
            ring_private_key: None,
            ring: None,
            receivers_keys: Vec::new(),
            difficulty,
            acceptance_window: window,
            asset_owner_public_key: None,
        },
        String::from("testnet"),
    )
}

fn open_deaddrop(private_key: PrivateKey, difficulty: u8, window: u64) -> Deaddrop {
    Deaddrop::new(DeaddropConfig {
        mode: ModeOfOperation::Open,
        private_key,
        difficulty,
        acceptance_window: window,
        asset_owner_key: None,
    })
    .unwrap()
}

fn publish(dd: &mut Deaddrop, env: Signed<Message>, current_round: u64) -> bool {
    assert!(dd.verify_signature(&env));
    match env.content {
        Message::PublishDocument(pd) => {
            dd.publish_document(pd, chain_info(), current_beacon(current_round))
        },
        _ => panic!("expected a publish message"),
    }
}

fn retrieve_ids_request(client: &Client, topic: &str, since: u64) -> (Signed<Message>, RetrieveDocumentIds) {
    let beacon = fixture_beacon();
    let solution = crypto_puzzle_solve(&[], &beacon, client.config.difficulty).unwrap();
    let make = || RetrieveDocumentIds {
        topic: String::from(topic),
        since_round: since,
        beacon: fixture_beacon(),
        chain: String::from("testnet"),
        nonce_solution: solution,
    };
    let env = client.sign_message(Message::RetrieveDocumentIds(make())).unwrap();
    (env, make())
}

#[test]
fn open_publish_retrieve() {
    // Difficulty 2, acceptance 100: A publishes, B retrieves the plaintext.
    let (pub_a, priv_a) = test_keypair();
    let client_a = open_client(priv_a.clone(), 2, 100);
    let mut dd = open_deaddrop(priv_a.clone(), 2, 100);

    let env = client_a.create_message("t", b"hello", drand_anchor()).unwrap();
    assert!(publish(&mut dd, env, BEACON_ROUND));

    let (pub_b, priv_b) = test_keypair();
    let _ = pub_b;
    let client_b = open_client(priv_b, 2, 100);
    let (req_env, req) = retrieve_ids_request(&client_b, "t", 0);
    assert!(dd.verify_signature(&req_env));
    let (ids, piggyback) = dd
        .retreive_document_ids(req, current_beacon(BEACON_ROUND))
        .unwrap();
    assert!(piggyback.is_none());
    assert_eq!(ids.len(), 1);

    let fetch = anonycast::protocol::RetrieveDocuments {
        message_ids: ids,
        beacon: fixture_beacon(),
        chain: String::from("testnet"),
        nonce_solution: crypto_puzzle_solve(&[], &fixture_beacon(), 2).unwrap(),
    };
    let docs = dd.retreive_documents(&fetch, current_beacon(BEACON_ROUND)).unwrap();
    assert_eq!(docs.len(), 1);
    let doc = &docs[0];
    assert!(doc.verify());
    assert!(doc.content.is_valid(2, 100, &chain_info(), &current_beacon(BEACON_ROUND)));
    match &doc.content.content {
        DocumentContent::Plaintext(data) => assert_eq!(data.as_slice(), b"hello"),
        _ => panic!("expected plaintext content"),
    }
    let a_pub_hash = anonycast::crypto::sha256(pub_a.to_bytes().as_slice());
    assert_eq!(doc.content.id.public_key_hash, a_pub_hash);
}

fn ring_client(
    ring_private_key: RingPrivateKey,
    ring: Ring,
    owner_pub: PublicKey,
    difficulty: u8,
    window: u64,
) -> Client {
    Client::new(
        ClientConfig {
            mode: ModeOfOperation::SenderRestricted,
            private_key: None,
            ring_private_key: Some(ring_private_key),
            ring: Some(ring),
            receivers_keys: Vec::new(),
            difficulty,
            acceptance_window: window,
            asset_owner_public_key: Some(owner_pub),
        },
        String::from("testnet"),
    )
}

#[test]
fn sender_restricted_admission() {
    // 3-member ring: a member's publish is accepted; an outsider signing
    // with its own asymmetric key is rejected and nothing is stored.
    let (pub0, priv0) = ring_generate();
    let (pub1, _p1) = ring_generate();
    let (pub2, _p2) = ring_generate();
    let ring = Ring::from_keys(vec![pub0.clone_key(), pub1.clone_key(), pub2.clone_key()]);

    let (owner_pub, owner_priv) = test_keypair();
    let update = anonycast::asset_owner::create_update_message(
        &owner_priv,
        vec![pub0.clone_key(), pub1.clone_key(), pub2.clone_key()],
        Vec::new(),
        fixture_beacon(),
    )
    .unwrap();

    let mut dd = Deaddrop::new(DeaddropConfig {
        mode: ModeOfOperation::SenderRestricted,
        private_key: owner_priv.clone(),
        difficulty: 2,
        acceptance_window: 100,
        asset_owner_key: Some(owner_pub.clone_pk()),
    })
    .unwrap();
    assert!(dd.update_allowed_keys(update, BEACON_ROUND));

    let mut member = ring_client(priv0, ring, owner_pub.clone_pk(), 2, 100);
    let relayed = dd.retrieve_keys().unwrap();
    assert!(member.handle_key_update(relayed));
    let env = member.create_message("t", b"from-member", drand_anchor()).unwrap();
    assert!(publish(&mut dd, env, BEACON_ROUND));

    // an outsider signs with an asymmetric key: the matrix rejects it
    let outsider = open_client(owner_priv.clone(), 2, 100);
    let bad = outsider.create_message("t", b"from-outsider", drand_anchor()).unwrap();
    assert!(!dd.verify_signature(&bad));

    // only the member's document is stored
    let (_req_env, req) = retrieve_ids_request(&outsider, "t", 0);
    let (ids, piggyback) = dd
        .retreive_document_ids(req, current_beacon(BEACON_ROUND))
        .unwrap();
    assert_eq!(ids.len(), 1);
    assert!(piggyback.is_some());
}

#[test]
fn receiver_restricted_targeted_delivery() {
    // A publishes encrypted to {R1, R2}; R1 decrypts, a third key cannot.
    let (_pub_a, priv_a) = test_keypair();
    let (r1_pub, r1_priv) = test_keypair();
    let (r2_pub, _r2_priv) = test_keypair();

    let owner_pub = priv_a.public_key().unwrap();
    let owner_priv = priv_a.clone();
    let update = anonycast::asset_owner::create_update_message(
        &owner_priv,
        Vec::new(),
        vec![r1_pub.clone_pk(), r2_pub.clone_pk()],
        fixture_beacon(),
    )
    .unwrap();

    let mut client_a = Client::new(
        ClientConfig {
            mode: ModeOfOperation::ReceiverRestricted,
            private_key: Some(priv_a.clone()),
            ring_private_key: None,
            ring: None,
            receivers_keys: Vec::new(),
            difficulty: 2,
            acceptance_window: 100,
            asset_owner_public_key: Some(owner_pub),
        },
        String::from("testnet"),
    );
    assert!(client_a.handle_key_update(update));

    let mut dd = Deaddrop::new(DeaddropConfig {
        mode: ModeOfOperation::ReceiverRestricted,
        private_key: priv_a.clone(),
        difficulty: 2,
        acceptance_window: 100,
        asset_owner_key: None,
    })
    .unwrap();

    let env = client_a.create_message("t", b"secret", drand_anchor()).unwrap();
    assert!(publish(&mut dd, env, BEACON_ROUND));

    let fetch = anonycast::protocol::RetrieveDocuments {
        message_ids: {
            let (_e, req) = retrieve_ids_request(&client_a, "t", 0);
            dd.retreive_document_ids(req, current_beacon(BEACON_ROUND)).unwrap().0
        },
        beacon: fixture_beacon(),
        chain: String::from("testnet"),
        nonce_solution: crypto_puzzle_solve(&[], &fixture_beacon(), 2).unwrap(),
    };
    let docs = dd.retreive_documents(&fetch, current_beacon(BEACON_ROUND)).unwrap();
    assert_eq!(docs.len(), 1);

    // R1 decrypts to the plaintext
    let mut doc_for_r1 = anonycast::protocol::clone_signed_document(&docs[0]);
    assert!(doc_for_r1.verify());
    assert!(doc_for_r1.content.is_valid(2, 100, &chain_info(), &current_beacon(BEACON_ROUND)));
    assert!(doc_for_r1.content.decrypt(&r1_priv));
    match &doc_for_r1.content.content {
        DocumentContent::Plaintext(data) => assert_eq!(data.as_slice(), b"secret"),
        _ => panic!("expected decrypted plaintext"),
    }

    // a third party's key skips: envelope and admission check out, but
    // decryption reports failure and the content stays encrypted
    let mut doc_for_r3 = anonycast::protocol::clone_signed_document(&docs[0]);
    assert!(doc_for_r3.verify());
    assert!(doc_for_r3.content.is_valid(2, 100, &chain_info(), &current_beacon(BEACON_ROUND)));
    assert!(!doc_for_r3.content.decrypt(&priv_a));
    match &doc_for_r3.content.content {
        DocumentContent::Encrypted { .. } => {},
        _ => panic!("content must stay encrypted"),
    }

    // the retrieval matrix, as one call: R1 accepts and reads, a
    // non-receiver is reported false and the document stays unchanged
    let client_r1 = Client::new(
        ClientConfig {
            mode: ModeOfOperation::ReceiverRestricted,
            private_key: Some(r1_priv.clone()),
            ring_private_key: None,
            ring: None,
            receivers_keys: Vec::new(),
            difficulty: 2,
            acceptance_window: 100,
            asset_owner_public_key: None,
        },
        String::from("testnet"),
    );
    let mut doc_matrix = anonycast::protocol::clone_signed_document(&docs[0]);
    assert!(client_r1.check_fetched_document(&mut doc_matrix));
    match &doc_matrix.content.content {
        DocumentContent::Plaintext(data) => assert_eq!(data.as_slice(), b"secret"),
        _ => panic!("expected decrypted plaintext"),
    }
    let mut doc_matrix_r3 = anonycast::protocol::clone_signed_document(&docs[0]);
    assert!(!client_a.check_fetched_document(&mut doc_matrix_r3));
    match &doc_matrix_r3.content.content {
        DocumentContent::Encrypted { .. } => {},
        _ => panic!("content must stay encrypted"),
    }
}

#[test]
fn update_accepted_with_freshness_disabled() {
    // With a zero acceptance window, freshness is disabled: an arbitrarily
    // old allowed-keys update is still adopted.
    let (pub0, _p0) = ring_generate();
    let (owner_pub, owner_priv) = test_keypair();
    let update = anonycast::asset_owner::create_update_message(
        &owner_priv,
        vec![pub0.clone_key()],
        Vec::new(),
        fixture_beacon(),
    )
    .unwrap();
    let mut dd = Deaddrop::new(DeaddropConfig {
        mode: ModeOfOperation::SenderRestricted,
        private_key: owner_priv.clone(),
        difficulty: 2,
        acceptance_window: 0,
        asset_owner_key: Some(owner_pub.clone_pk()),
    })
    .unwrap();
    assert!(dd.update_allowed_keys(update, BEACON_ROUND + 1_000_000));
    assert!(dd.retrieve_keys().is_some());
}

#[test]
fn puzzle_required() {
    // With difficulty 8, a publish whose nonce solution is zeroed out is
    // rejected; the properly solved one is accepted.
    let (_pub_a, priv_a) = test_keypair();
    let client = open_client(priv_a.clone(), 8, 100);
    let mut dd = open_deaddrop(priv_a.clone(), 8, 100);

    let env = client.create_message("t", b"puzzle-bound", drand_anchor()).unwrap();
    let (good, solution) = match &env.content {
        Message::PublishDocument(pd) => (true, pd.document.content.nonce_solution),
        _ => (false, 0),
    };
    assert!(good);

    // zero out the nonce (or shift it, if zero happens to be the solution)
    let bad_nonce = if solution == 0 { 1 } else { 0 };
    let bad_doc = match &env.content {
        Message::PublishDocument(pd) => {
            let mut d = pd.document.content.clone_doc();
            d.nonce_solution = bad_nonce;
            d
        },
        _ => unreachable!(),
    };
    if !anonycast::crypto_puzzle_verify(
        bad_doc.content.data().as_slice(),
        &bad_doc.drand.beacon,
        8,
        bad_nonce,
    ) {
        assert!(!bad_doc.is_valid(8, 100, &chain_info(), &current_beacon(BEACON_ROUND)));
    }

    assert!(publish(&mut dd, env, BEACON_ROUND));
}

#[test]
fn freshness_window() {
    // With acceptance 10, a publish carrying a beacon 20 rounds stale is
    // rejected; 5 rounds stale is accepted.
    let (_pub_a, priv_a) = test_keypair();
    let client = open_client(priv_a.clone(), 2, 10);
    let mut dd = open_deaddrop(priv_a.clone(), 2, 10);

    let stale = client.create_message("t", b"stale", drand_anchor()).unwrap();
    assert!(!publish(&mut dd, stale, BEACON_ROUND + 20));

    let fresh = client.create_message("t", b"fresh", drand_anchor()).unwrap();
    assert!(publish(&mut dd, fresh, BEACON_ROUND + 5));
}

#[test]
fn fan_out_affinity() {
    // Two deaddrops, three documents: the union of advertised ids is
    // attributed so that nothing is fetched twice.
    let (_pub_a, priv_a) = test_keypair();
    let client = open_client(priv_a.clone(), 2, 0);
    let mut dd1 = open_deaddrop(priv_a.clone(), 2, 0);
    let mut dd2 = open_deaddrop(priv_a.clone(), 2, 0);

    let env1 = client.create_message("t", b"one", drand_anchor()).unwrap();
    assert!(publish(&mut dd1, env1, BEACON_ROUND));
    let env2 = client.create_message("t", b"two", drand_anchor()).unwrap();
    assert!(publish(&mut dd1, env2, BEACON_ROUND));
    let env3 = client.create_message("t", b"three", drand_anchor()).unwrap();
    assert!(publish(&mut dd2, env3, BEACON_ROUND));
    // the first document also reaches the second deaddrop: rebuilding it
    // gives the same document id, so both now advertise it
    let env1_again = client.create_message("t", b"one", drand_anchor()).unwrap();
    assert!(publish(&mut dd2, env1_again, BEACON_ROUND));

    let (_e1, req1) = retrieve_ids_request(&client, "t", 0);
    let (_e2, req2) = retrieve_ids_request(&client, "t", 0);
    let ids1 = dd1.retreive_document_ids(req1, current_beacon(BEACON_ROUND)).unwrap().0;
    let ids2 = dd2.retreive_document_ids(req2, current_beacon(BEACON_ROUND)).unwrap().0;
    assert_eq!(ids1.len(), 2);
    assert_eq!(ids2.len(), 2);

    let assigned = anonycast::client::assign_document_ids(&vec![ids1, ids2]);
    assert_eq!(assigned.len(), 2);
    assert_eq!(assigned[0].len(), 2);
    assert_eq!(assigned[1].len(), 1);

    let mut total = 0;
    for (dd, ids) in [(&dd1, &assigned[0]), (&dd2, &assigned[1])] {
        let fetch = anonycast::protocol::RetrieveDocuments {
            message_ids: ids.iter().map(|i| i.clone_id()).collect(),
            beacon: fixture_beacon(),
            chain: String::from("testnet"),
            nonce_solution: crypto_puzzle_solve(&[], &fixture_beacon(), 2).unwrap(),
        };
        let docs = dd.retreive_documents(&fetch, current_beacon(BEACON_ROUND)).unwrap();
        total += docs.len();
    }
    assert_eq!(total, 3);
    // no id was assigned twice
    for (k, ids_k) in assigned.iter().enumerate() {
        for (i, id) in ids_k.iter().enumerate() {
            for (l, ids_l) in assigned.iter().enumerate() {
                for (j, other) in ids_l.iter().enumerate() {
                    if (k, i) != (l, j) {
                        assert!(!(id == other));
                    }
                }
            }
        }
    }
}
