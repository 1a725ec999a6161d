//! The document model: the payload unit a client publishes and a deaddrop
//! stores.

use vstd::prelude::*;

use crate::bytesutil::bytes_eq;
use crate::crypto::{
    aead_decrypts, rsa_decrypts, rsa_priv_wf, rsa_pub_of, rsa_pub_wf, sha256, sha256_of, decrypt, encrypt,
    symmetric_decrypt, symmetric_encrypt, symmetric_generate, PrivateKey, PublicKey, Sha256,
    SymmetricData, SymmetricKey,
};
use crate::drand::{beacon_valid, Beacon, BeaconV, ChainInfo, SchemeId};
use crate::{crypto_puzzle_solve, crypto_puzzle_verify, puzzle_ok, ModeOfOperation};

verus! {

/// What identifies a stored document: its beacon round and the hashes of
/// its content and its author identity.
#[derive(Debug, Clone)]
pub struct DocumentId {
    pub round: u64,
    pub content_hash: Sha256,
    pub public_key_hash: Sha256,
}

/// The mathematical content of a document id.
#[verifier::ext_equal]
pub struct DocumentIdV {
    pub round: u64,
    pub content_hash: Seq<u8>,
    pub public_key_hash: Seq<u8>,
}

impl View for DocumentId {
    type V = DocumentIdV;

    open spec fn view(&self) -> DocumentIdV {
        DocumentIdV {
            round: self.round,
            content_hash: self.content_hash@,
            public_key_hash: self.public_key_hash@,
        }
    }
}

impl PartialEq for DocumentId {
    fn eq(&self, other: &Self) -> (r: bool) {
        self.round == other.round && bytes_eq(
            self.content_hash.bytes.as_slice(),
            other.content_hash.bytes.as_slice(),
        ) && bytes_eq(
            self.public_key_hash.bytes.as_slice(),
            other.public_key_hash.bytes.as_slice(),
        )
    }
}

impl vstd::std_specs::cmp::PartialEqSpecImpl for DocumentId {
    open spec fn obeys_eq_spec() -> bool {
        true
    }

    open spec fn eq_spec(&self, other: &Self) -> bool {
        self@ =~= other@
    }
}

impl Eq for DocumentId {}

impl DocumentId {
    /// Clones a document id, keeping its view.
    pub fn clone_id(&self) -> (r: DocumentId)
        ensures
            r@ == self@,
    {
        let r = DocumentId {
            round: self.round,
            content_hash: Sha256 { bytes: self.content_hash.bytes.clone() },
            public_key_hash: Sha256 { bytes: self.public_key_hash.bytes.clone() },
        };
        proof {
            assert(r@ =~= self@);
        }
        r
    }
}

/// One receiver's copy of the symmetric key, wrapped with its public key.
#[derive(Debug, Clone)]
pub struct DocumentKeyPair {
    pub public_key: PublicKey,
    pub symmetric_key: Vec<u8>,
}

impl DocumentKeyPair {
    /// Copies a wrapped-key entry, keeping its content.
    pub fn clone_pair(&self) -> (r: DocumentKeyPair)
        ensures
            r@ == self@,
    {
        let r = DocumentKeyPair {
            public_key: self.public_key.clone_pk(),
            symmetric_key: crate::bytesutil::clone_bytes(&self.symmetric_key),
        };
        proof {
            assert(r@ =~= self@);
        }
        r
    }
}

/// The mathematical content of a receiver key pair.
#[verifier::ext_equal]
pub struct DocumentKeyPairV {
    pub public_key: Seq<u8>,
    pub symmetric_key: Seq<u8>,
}

impl View for DocumentKeyPair {
    type V = DocumentKeyPairV;

    open spec fn view(&self) -> DocumentKeyPairV {
        DocumentKeyPairV { public_key: self.public_key@, symmetric_key: self.symmetric_key@ }
    }
}

/// A document's payload: plain bytes, or a ciphertext with one wrapped key
/// per authorized receiver.
#[derive(Debug, Clone)]
pub enum DocumentContent {
    Plaintext(Vec<u8>),
    Encrypted { data: SymmetricData, keys: Vec<DocumentKeyPair> },
}

/// The mathematical content of a document payload.
#[verifier::ext_equal]
pub enum DocumentContentV {
    Plaintext(Seq<u8>),
    Encrypted { nonce: Seq<u8>, data: Seq<u8>, keys: Seq<DocumentKeyPairV> },
}

impl View for DocumentContent {
    type V = DocumentContentV;

    open spec fn view(&self) -> DocumentContentV {
        match self {
            DocumentContent::Plaintext(d) => DocumentContentV::Plaintext(d@),
            DocumentContent::Encrypted { data, keys } => DocumentContentV::Encrypted {
                nonce: data.nonce@,
                data: data.data@,
                keys: keys@.map_values(|p: DocumentKeyPair| p@),
            },
        }
    }
}

/// The bytes a document's content hash and puzzle run over: the plaintext,
/// or the ciphertext body.
pub open spec fn content_data(c: DocumentContentV) -> Seq<u8> {
    match c {
        DocumentContentV::Plaintext(d) => d,
        DocumentContentV::Encrypted { data, .. } => data,
    }
}

impl DocumentContent {
    /// The bytes hashing and puzzle verification run over.
    pub fn data(&self) -> (r: &Vec<u8>)
        ensures
            r@ == content_data(self@),
    {
        match self {
            DocumentContent::Plaintext(d) => d,
            DocumentContent::Encrypted { data, .. } => &data.data,
        }
    }
}

impl DocumentContent {
    /// Copies a payload, keeping its content.
    pub fn clone_content(&self) -> (r: DocumentContent)
        ensures
            r@ == self@,
    {
        match self {
            DocumentContent::Plaintext(d) => DocumentContent::Plaintext(
                crate::bytesutil::clone_bytes(d),
            ),
            DocumentContent::Encrypted { data, keys } => {
                let mut pairs: Vec<DocumentKeyPair> = Vec::new();
                let n = keys.len();
                for i in 0..n
                    invariant
                        n == keys@.len(),
                        pairs@.len() == i,
                        forall|j: int| 0 <= j < i ==> (#[trigger] pairs@[j])@ == keys@[j]@,
                {
                    pairs.push(keys[i].clone_pair());
                }
                let r = DocumentContent::Encrypted {
                    data: SymmetricData {
                        nonce: crate::bytesutil::clone_bytes(&data.nonce),
                        data: crate::bytesutil::clone_bytes(&data.data),
                    },
                    keys: pairs,
                };
                proof {
                    assert(r@ =~= self@);
                }
                r
            },
        }
    }
}

/// The randomness anchor a document commits to: a chain, one of its
/// beacons, and the chain's scheme.
#[derive(Debug, Clone)]
pub struct DocumentDrand {
    pub chain: String,
    pub beacon: Beacon,
    pub scheme: SchemeId,
}

/// The mathematical content of a document's randomness anchor.
#[verifier::ext_equal]
pub struct DocumentDrandV {
    pub chain: Seq<char>,
    pub beacon: BeaconV,
    pub scheme: SchemeId,
}

impl View for DocumentDrand {
    type V = DocumentDrandV;

    open spec fn view(&self) -> DocumentDrandV {
        DocumentDrandV { chain: self.chain@, beacon: self.beacon@, scheme: self.scheme }
    }
}

impl DocumentDrand {
    /// Copies a randomness anchor, keeping its content.
    pub fn clone_drand(&self) -> (r: DocumentDrand)
        ensures
            r@ == self@,
    {
        let r = DocumentDrand {
            chain: self.chain.clone(),
            beacon: self.beacon.clone_beacon(),
            scheme: self.scheme,
        };
        proof {
            assert(r@ =~= self@);
        }
        r
    }
}

/// The payload unit: an identified, topic-tagged, puzzle-bound payload
/// anchored to a randomness beacon.
#[derive(Debug, Clone)]
pub struct Document {
    pub id: DocumentId,
    pub topic: String,
    pub content: DocumentContent,
    pub crypto_difficulty: u8,
    pub nonce_solution: u32,
    pub drand: DocumentDrand,
}

/// The mathematical content of a document.
#[verifier::ext_equal]
pub struct DocumentV {
    pub id: DocumentIdV,
    pub topic: Seq<char>,
    pub content: DocumentContentV,
    pub crypto_difficulty: u8,
    pub nonce_solution: u32,
    pub drand: DocumentDrandV,
}

impl View for Document {
    type V = DocumentV;

    open spec fn view(&self) -> DocumentV {
        DocumentV {
            id: self.id@,
            topic: self.topic@,
            content: self.content@,
            crypto_difficulty: self.crypto_difficulty,
            nonce_solution: self.nonce_solution,
            drand: self.drand@,
        }
    }
}

impl Document {
    /// Copies a document, keeping its content.
    pub fn clone_doc(&self) -> (r: Document)
        ensures
            r@ == self@,
    {
        let r = Document {
            id: self.id.clone_id(),
            topic: self.topic.clone(),
            content: self.content.clone_content(),
            crypto_difficulty: self.crypto_difficulty,
            nonce_solution: self.nonce_solution,
            drand: self.drand.clone_drand(),
        };
        proof {
            assert(r@ =~= self@);
        }
        r
    }
}

/// The field relations every freshly built document satisfies: its id
/// carries its beacon round, the digest of its content bytes and the
/// author identity hash, and its nonce solves the puzzle at its
/// difficulty.
pub open spec fn document_built(
    d: DocumentV,
    topic: Seq<char>,
    content: DocumentContentV,
    difficulty: u8,
    public_key_hash: Seq<u8>,
    drand: DocumentDrandV,
) -> bool {
    &&& d.id.round == drand.beacon.round_number
    &&& d.id.content_hash == sha256_of(content_data(content))
    &&& d.id.public_key_hash == public_key_hash
    &&& d.topic == topic
    &&& d.content == content
    &&& d.crypto_difficulty == difficulty
    &&& d.drand == drand
    &&& puzzle_ok(content_data(content), drand.beacon.signature, difficulty, d.nonce_solution)
    &&& forall|m: u32|
        m < d.nonce_solution ==> !puzzle_ok(content_data(content), drand.beacon.signature, difficulty, m)
}

/// `sk` is a session key binding an encrypted payload to its plaintext and
/// receivers: it is 32 bytes, decrypts the body to the plaintext, and each
/// receiver's wrapped copy unwraps to it under any private key matching
/// that receiver's public one.
pub open spec fn session_key_for(
    nonce: Seq<u8>,
    data: Seq<u8>,
    keys: Seq<DocumentKeyPairV>,
    receivers: Seq<Seq<u8>>,
    plaintext: Seq<u8>,
    sk: Seq<u8>,
) -> bool {
    &&& sk.len() == 32
    &&& nonce.len() == 12
    &&& aead_decrypts(sk, nonce, data) == Some(plaintext)
    &&& keys.len() == receivers.len()
    &&& forall|i: int| 0 <= i < keys.len() ==> (#[trigger] keys[i]).public_key == receivers[i]
    &&& forall|i: int, privk: Seq<u8>|
        0 <= i < keys.len() && rsa_priv_wf(privk) && rsa_pub_of(privk) == keys[i].public_key
            ==> #[trigger] rsa_decrypts(privk, keys[i].symmetric_key) == Some(sk)
}

/// A hybrid-encrypted payload holding `plaintext` for every receiver in
/// `receivers`: some session key binds them.
pub open spec fn hybrid_encrypted_to(
    content: DocumentContentV,
    receivers: Seq<Seq<u8>>,
    plaintext: Seq<u8>,
) -> bool {
    match content {
        DocumentContentV::Encrypted { nonce, data, keys } => exists|sk: Seq<u8>|
            #[trigger] session_key_for(nonce, data, keys, receivers, plaintext, sk),
        DocumentContentV::Plaintext(_) => false,
    }
}

/// What document admission decides: the puzzle solution checks out against
/// the document's own beacon at the document's difficulty, that difficulty
/// is the expected one, the beacon verifies under the chain's scheme and
/// key, and the beacon is within the acceptance window of the current
/// round.
pub open spec fn document_admissible(
    d: DocumentV,
    expected_difficulty: u8,
    acceptance_window: u64,
    scheme: SchemeId,
    chain_public_key: Seq<u8>,
    current: BeaconV,
) -> bool {
    &&& puzzle_ok(
        content_data(d.content),
        d.drand.beacon.signature,
        d.crypto_difficulty,
        d.nonce_solution,
    )
    &&& d.crypto_difficulty == expected_difficulty
    &&& beacon_valid(d.drand.beacon, scheme, chain_public_key)
    &&& (acceptance_window == 0 || d.drand.beacon.round_number + acceptance_window
        > current.round_number)
}

impl Document {
    /// Builds a document: hashes the content, binds it to the beacon
    /// round, and solves the admission puzzle. `None` when no 32-bit nonce
    /// solves the puzzle.
    fn new(
        topic: &str,
        content: DocumentContent,
        difficulty: u8,
        public_key_hash: Sha256,
        drand: DocumentDrand,
    ) -> (r: Option<Document>)
        ensures
            r matches Some(d) ==> document_built(
                d@,
                topic@,
                content@,
                difficulty,
                public_key_hash@,
                drand@,
            ),
            r is None ==> forall|m: u32|
                !puzzle_ok(content_data(content@), drand@.beacon.signature, difficulty, m),
    {
        let content_hash = sha256(content.data().as_slice());
        let round = drand.beacon.round_number;
        let solution = match crypto_puzzle_solve(content.data().as_slice(), &drand.beacon, difficulty) {
            Some(s) => s,
            None => {
                return None;
            },
        };
        Some(
            Document {
                id: DocumentId { round, content_hash, public_key_hash },
                topic: topic.to_owned(),
                content,
                crypto_difficulty: difficulty,
                nonce_solution: solution,
                drand,
            },
        )
    }

    /// Builds a plaintext document. `None` when no 32-bit nonce solves the
    /// puzzle.
    pub fn plaintext(
        topic: &str,
        data: &[u8],
        difficulty: u8,
        public_key_hash: Sha256,
        drand: DocumentDrand,
    ) -> (r: Option<Document>)
        ensures
            r matches Some(d) ==> document_built(
                d@,
                topic@,
                DocumentContentV::Plaintext(data@),
                difficulty,
                public_key_hash@,
                drand@,
            ),
            r is None ==> forall|m: u32| !puzzle_ok(data@, drand@.beacon.signature, difficulty, m),
    {
        let content = DocumentContent::Plaintext(vstd::slice::slice_to_vec(data));
        let ghost cv = content@;
        let r = Self::new(topic, content, difficulty, public_key_hash, drand);
        proof {
            if r is None {
                assert forall|m: u32| !puzzle_ok(
                    data@,
                    drand@.beacon.signature,
                    difficulty,
                    m,
                ) by {
                    assert(!puzzle_ok(content_data(cv), drand@.beacon.signature, difficulty, m));
                }
            }
        }
        r
    }

    /// Builds a hybrid-encrypted document toward the given receivers:
    /// a fresh session key encrypts the payload, and one wrapped copy of
    /// it is attached per receiver. `None` when a receiver key is
    /// malformed or no 32-bit nonce solves the puzzle; well-formed
    /// receiver keys never fail the wrapping step.
    pub fn encrypted(
        topic: &str,
        data: &[u8],
        difficulty: u8,
        public_key_hash: Sha256,
        receiver_keys: &Vec<PublicKey>,
        drand: DocumentDrand,
    ) -> (r: Option<Document>)
        requires
            data@.len() < 0x1000000000,
        ensures
            r matches Some(d) ==> ({
                &&& document_built(
                    d@,
                    topic@,
                    d@.content,
                    difficulty,
                    public_key_hash@,
                    drand@,
                )
                &&& hybrid_encrypted_to(
                    d@.content,
                    receiver_keys@.map_values(|k: PublicKey| k@),
                    data@,
                )
            }),
    {
        let skey = symmetric_generate();
        let mut pairs: Vec<DocumentKeyPair> = Vec::new();
        let n = receiver_keys.len();
        for i in 0..n
            invariant
                n == receiver_keys@.len(),
                skey@.len() == 32,
                pairs@.len() == i,
                forall|j: int|
                    0 <= j < i ==> (#[trigger] pairs@[j])@.public_key == receiver_keys@[j]@,
                forall|j: int, privk: Seq<u8>|
                    0 <= j < i && rsa_priv_wf(privk) && rsa_pub_of(privk) == pairs@[j]@.public_key
                        ==> #[trigger] rsa_decrypts(privk, pairs@[j]@.symmetric_key) == Some(
                        skey@,
                    ),
        {
            let wrapped = match encrypt(&receiver_keys[i], skey.as_bytes().as_slice()) {
                Some(w) => w,
                None => {
                    return None;
                },
            };
            pairs.push(
                DocumentKeyPair {
                    public_key: PublicKey { bytes: receiver_keys[i].bytes.clone() },
                    symmetric_key: wrapped,
                },
            );
        }
        let encrypted_data = symmetric_encrypt(&skey, data);
        let content = DocumentContent::Encrypted { data: encrypted_data, keys: pairs };
        proof {
            let receivers = receiver_keys@.map_values(|k: PublicKey| k@);
            match content@ {
                DocumentContentV::Encrypted { nonce, data: body, keys } => {
                    assert forall|j: int| 0 <= j < keys.len() implies (#[trigger] keys[j]).public_key
                        == receivers[j] by {
                        assert(keys[j] == pairs@[j]@);
                    }
                    assert forall|j: int, privk: Seq<u8>|
                        0 <= j < keys.len() && rsa_priv_wf(privk) && rsa_pub_of(privk)
                            == keys[j].public_key implies #[trigger] rsa_decrypts(
                        privk,
                        keys[j].symmetric_key,
                    ) == Some(skey@) by {
                        assert(keys[j] == pairs@[j]@);
                    }
                    assert(session_key_for(nonce, body, keys, receivers, data@, skey@));
                },
                DocumentContentV::Plaintext(_) => {},
            }
        }
        Self::new(topic, content, difficulty, public_key_hash, drand)
    }

    /// Finds the first wrapped-key entry whose public key matches.
    fn find_pair_index(keys: &Vec<DocumentKeyPair>, pk: &PublicKey) -> (r: Option<usize>)
        ensures
            r matches Some(i) ==> i < keys@.len() && keys@[i as int]@.public_key == pk@,
            r is None ==> forall|j: int|
                0 <= j < keys@.len() ==> (#[trigger] keys@[j])@.public_key != pk@,
    {
        let n = keys.len();
        for i in 0..n
            invariant
                n == keys@.len(),
                forall|j: int| 0 <= j < i ==> (#[trigger] keys@[j])@.public_key != pk@,
        {
            if bytes_eq(keys[i].public_key.bytes.as_slice(), pk.bytes.as_slice()) {
                return Some(i);
            }
        }
        None
    }

    /// Attempts to decrypt an encrypted document in place with the given
    /// private key. A plaintext document is already readable; an encrypted
    /// one decrypts exactly when a wrapped key matches the private key's
    /// public half and unwrapping and decryption go through, and then the
    /// content becomes the plaintext. On failure the document is left
    /// unchanged.
    pub fn decrypt(&mut self, key: &PrivateKey) -> (r: bool)
        ensures
            old(self)@.content is Plaintext ==> r && final(self)@ == old(self)@,
            !r ==> final(self)@ == old(self)@,
            r ==> final(self)@.content is Plaintext,
            final(self)@.id == old(self)@.id,
            final(self)@.topic == old(self)@.topic,
            final(self)@.crypto_difficulty == old(self)@.crypto_difficulty,
            final(self)@.nonce_solution == old(self)@.nonce_solution,
            final(self)@.drand == old(self)@.drand,
            forall|receivers: Seq<Seq<u8>>, m: Seq<u8>|
                ({
                    &&& #[trigger] hybrid_encrypted_to(old(self)@.content, receivers, m)
                    &&& rsa_priv_wf(key@)
                    &&& receivers.contains(rsa_pub_of(key@))
                }) ==> r && final(self)@.content == DocumentContentV::Plaintext(m),
            ({
                &&& rsa_priv_wf(key@)
                &&& old(self)@.content matches DocumentContentV::Encrypted { keys, .. } && (
                forall|i: int|
                    0 <= i < keys.len() ==> (#[trigger] keys[i]).public_key != rsa_pub_of(key@))
            }) ==> !r,
    {
        let plain = match &self.content {
            DocumentContent::Plaintext(_) => {
                return true;
            },
            DocumentContent::Encrypted { data, keys } => {
                let ghost nonce_g = data.nonce@;
                let ghost body_g = data.data@;
                let ghost keys_g = keys@.map_values(|p: DocumentKeyPair| p@);
                let public_key = match key.public_key() {
                    Some(p) => p,
                    None => {
                        return false;
                    },
                };
                let found = match Self::find_pair_index(keys, &public_key) {
                    Some(i) => i,
                    None => {
                        proof {
                            assert forall|receivers: Seq<Seq<u8>>, m: Seq<u8>|
                                !({
                                    &&& #[trigger] hybrid_encrypted_to(
                                        self@.content,
                                        receivers,
                                        m,
                                    )
                                    &&& rsa_priv_wf(key@)
                                    &&& receivers.contains(rsa_pub_of(key@))
                                }) by {
                                if hybrid_encrypted_to(self@.content, receivers, m)
                                    && rsa_priv_wf(key@) && receivers.contains(
                                    rsa_pub_of(key@),
                                ) {
                                    let sk = choose|sk: Seq<u8>|
                                        #[trigger] session_key_for(
                                            nonce_g,
                                            body_g,
                                            keys_g,
                                            receivers,
                                            m,
                                            sk,
                                        );
                                    let j = choose|j: int|
                                        0 <= j < receivers.len() && receivers[j] == rsa_pub_of(
                                            key@,
                                        );
                                    assert(keys_g[j].public_key == receivers[j]);
                                    assert(keys@[j]@.public_key == public_key@);
                                }
                            }
                        }
                        return false;
                    },
                };
                proof {
                    assert(keys_g[found as int] == keys@[found as int]@);
                }
                let unwrapped_opt = decrypt(key, keys[found].symmetric_key.as_slice());
                proof {
                    if unwrapped_opt is None {
                        assert forall|receivers: Seq<Seq<u8>>, m: Seq<u8>|
                            !({
                                &&& #[trigger] hybrid_encrypted_to(self@.content, receivers, m)
                                &&& rsa_priv_wf(key@)
                                &&& receivers.contains(rsa_pub_of(key@))
                            }) by {
                            if hybrid_encrypted_to(self@.content, receivers, m) && rsa_priv_wf(
                                key@,
                            ) {
                                let sk = choose|sk: Seq<u8>|
                                    #[trigger] session_key_for(
                                        nonce_g,
                                        body_g,
                                        keys_g,
                                        receivers,
                                        m,
                                        sk,
                                    );
                                assert(rsa_decrypts(key@, keys_g[found as int].symmetric_key)
                                    == Some(sk));
                            }
                        }
                    }
                }
                let unwrapped = match unwrapped_opt {
                    Some(u) => u,
                    None => {
                        return false;
                    },
                };
                proof {
                    assert(unwrapped.deep_view() =~= unwrapped@);
                    assert forall|receivers: Seq<Seq<u8>>, m: Seq<u8>|
                        ({
                            &&& #[trigger] hybrid_encrypted_to(self@.content, receivers, m)
                            &&& rsa_priv_wf(key@)
                            &&& receivers.contains(rsa_pub_of(key@))
                        }) implies unwrapped@.len() == 32 && (exists|sk: Seq<u8>|
                        #[trigger] session_key_for(nonce_g, body_g, keys_g, receivers, m, sk)
                            && unwrapped@ == sk) by {
                        let sk = choose|sk: Seq<u8>|
                            #[trigger] session_key_for(nonce_g, body_g, keys_g, receivers, m, sk);
                        assert(rsa_priv_wf(key@));
                        assert(rsa_decrypts(key@, keys_g[found as int].symmetric_key) == Some(sk));
                        assert(unwrapped@ == sk);
                    }
                }
                let skey = match SymmetricKey::try_from(unwrapped.as_slice()) {
                    Ok(k) => k,
                    Err(_) => {
                        return false;
                    },
                };
                if data.nonce.len() != 12 {
                    return false;
                }
                let plain = match symmetric_decrypt(&skey, data) {
                    Some(p) => p,
                    None => {
                        proof {
                            assert forall|receivers: Seq<Seq<u8>>, m: Seq<u8>|
                                !({
                                    &&& #[trigger] hybrid_encrypted_to(
                                        self@.content,
                                        receivers,
                                        m,
                                    )
                                    &&& rsa_priv_wf(key@)
                                    &&& receivers.contains(rsa_pub_of(key@))
                                }) by {
                                if hybrid_encrypted_to(self@.content, receivers, m)
                                    && rsa_priv_wf(key@) && receivers.contains(
                                    rsa_pub_of(key@),
                                ) {
                                    let sk = choose|sk: Seq<u8>|
                                        #[trigger] session_key_for(
                                            nonce_g,
                                            body_g,
                                            keys_g,
                                            receivers,
                                            m,
                                            sk,
                                        )
                                            && unwrapped@ == sk;
                                    assert(aead_decrypts(skey@, nonce_g, body_g) == Some(m));
                                }
                            }
                        }
                        return false;
                    },
                };
                proof {
                    assert(plain.deep_view() =~= plain@);
                    assert forall|receivers: Seq<Seq<u8>>, m: Seq<u8>|
                        ({
                            &&& #[trigger] hybrid_encrypted_to(self@.content, receivers, m)
                            &&& rsa_priv_wf(key@)
                            &&& receivers.contains(rsa_pub_of(key@))
                        }) implies plain@ == m by {
                        let sk = choose|sk: Seq<u8>|
                            #[trigger] session_key_for(nonce_g, body_g, keys_g, receivers, m, sk);
                        assert(rsa_decrypts(key@, keys_g[found as int].symmetric_key) == Some(sk));
                        assert(unwrapped@ == sk);
                        assert(aead_decrypts(sk, nonce_g, body_g) == Some(m));
                    }
                }
                plain
            },
        };
        self.content = DocumentContent::Plaintext(plain);
        true
    }

    /// Decides document admission: the puzzle, the difficulty, the
    /// beacon's own validity, and its freshness against the current
    /// beacon.
    pub fn is_valid(
        &self,
        expected_difficulty: u8,
        acceptance_window: u64,
        drand_chain: &ChainInfo,
        drand_beacon: &Beacon,
    ) -> (r: bool)
        ensures
            r == document_admissible(
                self@,
                expected_difficulty,
                acceptance_window,
                drand_chain.scheme_id,
                drand_chain.public_key@,
                drand_beacon@,
            ),
    {
        if !crypto_puzzle_verify(
            self.content.data().as_slice(),
            &self.drand.beacon,
            self.crypto_difficulty,
            self.nonce_solution,
        ) {
            return false;
        }
        if self.crypto_difficulty != expected_difficulty {
            return false;
        }
        if !self.drand.beacon.verify(drand_chain.scheme_id, drand_chain.public_key.as_slice()) {
            return false;
        }
        if acceptance_window != 0 && drand_beacon.round_number >= acceptance_window
            && self.drand.beacon.round_number <= drand_beacon.round_number - acceptance_window {
            return false;
        }
        true
    }
}

/// A document built by `plaintext` or `encrypted` at the expected
/// difficulty, whose beacon verifies under the chain's scheme and key,
/// passes admission exactly when its beacon round is within the
/// acceptance window of the current round (a window of zero disables
/// freshness).
pub proof fn lemma_document_validity(
    d: DocumentV,
    expected_difficulty: u8,
    acceptance_window: u64,
    scheme: SchemeId,
    chain_public_key: Seq<u8>,
    current: BeaconV,
)
    requires
        puzzle_ok(
            content_data(d.content),
            d.drand.beacon.signature,
            d.crypto_difficulty,
            d.nonce_solution,
        ),
        d.crypto_difficulty == expected_difficulty,
        beacon_valid(d.drand.beacon, scheme, chain_public_key),
    ensures
        document_admissible(d, expected_difficulty, acceptance_window, scheme, chain_public_key, current)
            <==> (acceptance_window == 0 || d.drand.beacon.round_number + acceptance_window
            > current.round_number),
{
}

} // verus!
