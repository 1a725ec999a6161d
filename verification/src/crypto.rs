//! Cryptographic primitives, modeled as plain byte values.
//!
//! Key and signature types hold the byte serializations that travel on the
//! wire; the actual algebra is performed by outside crates behind trusted
//! wrappers whose contracts name the results.

use vstd::prelude::*;

use crate::bytesutil::bytes_eq;

use sha2::{Digest, Sha512};
use rsa::{Pkcs1v15Encrypt, Pkcs1v15Sign, RsaPrivateKey, RsaPublicKey};
use aes_gcm::{AeadCore, Aes256Gcm, Key, KeyInit};
use aes_gcm::aead::{Aead, OsRng};
use curve25519_dalek::ristretto::CompressedRistretto;
use curve25519_dalek::{RistrettoPoint, Scalar};
use nazgul::blsag::BLSAG;
use nazgul::traits::{Sign as _, Verify as _};

verus! {

// ------------------------------------------------------------------
// SHA-256
// ------------------------------------------------------------------

/// The SHA-256 digest of a byte sequence. Always 32 bytes long.
pub uninterp spec fn sha256_of(data: Seq<u8>) -> Seq<u8>;

/// A 32-byte SHA-256 digest.
#[derive(Debug, Clone)]
pub struct Sha256 {
    pub bytes: Vec<u8>,
}

impl View for Sha256 {
    type V = Seq<u8>;

    open spec fn view(&self) -> Seq<u8> {
        self.bytes@
    }
}

impl Sha256 {
    pub fn as_bytes(&self) -> (r: &Vec<u8>)
        ensures
            r@ == self@,
    {
        &self.bytes
    }
}

impl PartialEq for Sha256 {
    fn eq(&self, other: &Self) -> (r: bool) {
        bytes_eq(self.bytes.as_slice(), other.bytes.as_slice())
    }
}

impl vstd::std_specs::cmp::PartialEqSpecImpl for Sha256 {
    open spec fn obeys_eq_spec() -> bool {
        true
    }

    open spec fn eq_spec(&self, other: &Self) -> bool {
        self@ == other@
    }
}

impl Eq for Sha256 {}

/// Relies on sha2::Sha256: the digest is a function of the input bytes
/// alone, and is always 32 bytes long.
#[verifier::external_body]
fn sha256_digest(data: &[u8]) -> (r: Vec<u8>)
    ensures
        r@ == sha256_of(data@),
        r@.len() == 32,
{
    sha2::Sha256::digest(data).to_vec()
}

/// Hashes a byte slice with SHA-256.
pub fn sha256(data: &[u8]) -> (r: Sha256)
    ensures
        r@ == sha256_of(data@),
        r@.len() == 32,
{
    Sha256 { bytes: sha256_digest(data) }
}

// ------------------------------------------------------------------
// RSA (asymmetric signing and key wrapping)
// ------------------------------------------------------------------

/// True of byte strings that deserialize to a well-formed 2048-bit RSA
/// private key.
pub uninterp spec fn rsa_priv_wf(key: Seq<u8>) -> bool;

/// True of byte strings that deserialize to a well-formed RSA public key
/// of a 2048-bit keypair.
pub uninterp spec fn rsa_pub_wf(key: Seq<u8>) -> bool;

/// The serialized public key of the private key with the given
/// serialization.
pub uninterp spec fn rsa_pub_of(key: Seq<u8>) -> Seq<u8>;

/// Whether the given PKCS#1-v1.5 signature over the given 32-byte digest
/// checks out under the given serialized public key.
pub uninterp spec fn rsa_verifies(pubkey: Seq<u8>, digest: Seq<u8>, sig: Seq<u8>) -> bool;

/// What PKCS#1-v1.5 decryption of the given ciphertext under the given
/// serialized private key yields: `None` when the key is malformed or the
/// ciphertext does not decrypt.
pub uninterp spec fn rsa_decrypts(privkey: Seq<u8>, ciphertext: Seq<u8>) -> Option<Seq<u8>>;

#[derive(Debug)]
pub struct InvalidPrivateKey;

#[derive(Debug)]
pub struct InvalidPublicKey;

/// An RSA private key, held as its canonical byte serialization.
#[derive(Debug, Clone)]
pub struct PrivateKey {
    pub bytes: Vec<u8>,
}

impl View for PrivateKey {
    type V = Seq<u8>;

    open spec fn view(&self) -> Seq<u8> {
        self.bytes@
    }
}

/// An RSA public key, held as its canonical byte serialization.
#[derive(Debug, Clone)]
pub struct PublicKey {
    pub bytes: Vec<u8>,
}

impl View for PublicKey {
    type V = Seq<u8>;

    open spec fn view(&self) -> Seq<u8> {
        self.bytes@
    }
}

impl PartialEq for PublicKey {
    fn eq(&self, other: &Self) -> (r: bool) {
        bytes_eq(self.bytes.as_slice(), other.bytes.as_slice())
    }
}

impl vstd::std_specs::cmp::PartialEqSpecImpl for PublicKey {
    open spec fn obeys_eq_spec() -> bool {
        true
    }

    open spec fn eq_spec(&self, other: &Self) -> bool {
        self@ == other@
    }
}

impl Eq for PublicKey {}

/// An RSA PKCS#1-v1.5 signature.
#[derive(Debug, Clone)]
pub struct Signature {
    pub bytes: Vec<u8>,
}

impl View for Signature {
    type V = Seq<u8>;

    open spec fn view(&self) -> Seq<u8> {
        self.bytes@
    }
}

impl Signature {
    pub fn as_bytes(&self) -> (r: &Vec<u8>)
        ensures
            r@ == self@,
    {
        &self.bytes
    }
}

impl PrivateKey {
    pub fn to_bytes(&self) -> (r: Vec<u8>)
        ensures
            r@ == self@,
    {
        self.bytes.clone()
    }

    /// Relies on rsa::RsaPublicKey::from: derives the public half of the
    /// key. Key bytes are decoded without validation, so derivation can
    /// succeed on malformed material too; only a well-formed private key
    /// is promised a well-formed public half.
    #[verifier::external_body]
    pub fn public_key(&self) -> (r: Option<PublicKey>)
        ensures
            rsa_priv_wf(self@) ==> r is Some,
            r matches Some(p) ==> (rsa_priv_wf(self@) ==> p@ == rsa_pub_of(self@) && rsa_pub_wf(
                p@,
            )),
    {
        let key: RsaPrivateKey = bincode::deserialize(&self.bytes).ok()?;
        let bytes = bincode::serialize(&RsaPublicKey::from(&key)).ok()?;
        Some(PublicKey { bytes })
    }
}

impl PublicKey {
    pub fn to_bytes(&self) -> (r: Vec<u8>)
        ensures
            r@ == self@,
    {
        self.bytes.clone()
    }
}

/// Relies on rsa::RsaPrivateKey::new: generates a fresh, well-formed
/// 2048-bit keypair.
#[verifier::external_body]
pub fn generate() -> (r: (PublicKey, PrivateKey))
    ensures
        rsa_priv_wf(r.1@),
        rsa_pub_wf(r.0@),
        r.0@ == rsa_pub_of(r.1@),
{
    let mut rng = rand::thread_rng();
    let key = RsaPrivateKey::new(&mut rng, 2048).expect("failed to generate a key");
    let priv_bytes = bincode::serialize(&key).expect("keys serialize");
    let pub_bytes = bincode::serialize(&RsaPublicKey::from(&key)).expect("keys serialize");
    (PublicKey { bytes: pub_bytes }, PrivateKey { bytes: priv_bytes })
}

/// Relies on rsa::RsaPrivateKey::sign_with_rng with PKCS#1-v1.5 padding:
/// a well-formed key always signs a 32-byte digest, and the signature
/// checks out under the key's public half.
#[verifier::external_body]
pub fn sign_digest(key: &PrivateKey, digest: &Vec<u8>) -> (r: Option<Signature>)
    requires
        digest@.len() == 32,
    ensures
        rsa_priv_wf(key@) ==> r is Some,
        r matches Some(s) ==> rsa_verifies(rsa_pub_of(key@), digest@, s@),
{
    let key: RsaPrivateKey = bincode::deserialize(&key.bytes).ok()?;
    let mut rng = rand::thread_rng();
    let sig = key.sign_with_rng(&mut rng, Pkcs1v15Sign::new_unprefixed(), digest).ok()?;
    Some(Signature { bytes: sig })
}

/// Relies on rsa::RsaPublicKey::verify with PKCS#1-v1.5 padding: accepts
/// exactly the signatures over this digest made by the matching private
/// key; malformed key bytes accept nothing.
#[verifier::external_body]
pub fn verify_digest(key: &PublicKey, digest: &Vec<u8>, sig: &Signature) -> (r: bool)
    ensures
        r == rsa_verifies(key@, digest@, sig@),
{
    let key: RsaPublicKey = match bincode::deserialize(&key.bytes) {
        Ok(k) => k,
        Err(_) => return false,
    };
    key.verify(Pkcs1v15Sign::new_unprefixed(), digest, &sig.bytes).is_ok()
}

/// Relies on rsa::RsaPublicKey::encrypt with PKCS#1-v1.5 padding: what it
/// returns decrypts to the plaintext under any well-formed private key
/// whose public half equals this key, and a well-formed 2048-bit key
/// accepts any plaintext of at most 245 bytes.
#[verifier::external_body]
pub fn encrypt(key: &PublicKey, data: &[u8]) -> (r: Option<Vec<u8>>)
    ensures
        rsa_pub_wf(key@) && data@.len() <= 245 ==> r is Some,
        r matches Some(ct) ==> forall|k: Seq<u8>|
            rsa_priv_wf(k) && rsa_pub_of(k) == key@ ==> rsa_decrypts(k, ct@) == Some(data@),
{
    let key: RsaPublicKey = bincode::deserialize(&key.bytes).ok()?;
    let mut rng = rand::thread_rng();
    key.encrypt(&mut rng, Pkcs1v15Encrypt, data).ok()
}

/// Relies on rsa::RsaPrivateKey::decrypt with PKCS#1-v1.5 padding: the
/// result is a function of the key and ciphertext bytes alone.
#[verifier::external_body]
pub fn decrypt(key: &PrivateKey, data: &[u8]) -> (r: Option<Vec<u8>>)
    ensures
        r.deep_view() == rsa_decrypts(key@, data@),
{
    let key: RsaPrivateKey = bincode::deserialize(&key.bytes).ok()?;
    key.decrypt(Pkcs1v15Encrypt, data).ok()
}

// ------------------------------------------------------------------
// AES-256-GCM (symmetric encryption)
// ------------------------------------------------------------------

/// What AES-256-GCM decryption yields for the given 32-byte key, nonce and
/// ciphertext: `None` when authentication fails.
pub uninterp spec fn aead_decrypts(key: Seq<u8>, nonce: Seq<u8>, ciphertext: Seq<u8>) -> Option<
    Seq<u8>,
>;

#[derive(Debug)]
pub struct InvalidSymmetricKey;

/// A 32-byte AES-256-GCM key.
#[derive(Debug, Clone)]
pub struct SymmetricKey {
    pub bytes: Vec<u8>,
}

impl View for SymmetricKey {
    type V = Seq<u8>;

    open spec fn view(&self) -> Seq<u8> {
        self.bytes@
    }
}

impl SymmetricKey {
    pub fn as_bytes(&self) -> (r: &Vec<u8>)
        ensures
            r@ == self@,
    {
        &self.bytes
    }

    /// Accepts exactly the 32-byte strings as symmetric keys.
    pub fn try_from(value: &[u8]) -> (r: Result<SymmetricKey, InvalidSymmetricKey>)
        ensures
            r matches Ok(k) ==> k@ == value@ && k@.len() == 32,
            value@.len() == 32 <==> r is Ok,
    {
        if value.len() == 32 {
            let mut bytes = Vec::new();
            bytes.extend_from_slice(value);
            Ok(SymmetricKey { bytes })
        } else {
            Err(InvalidSymmetricKey)
        }
    }
}

/// Symmetric round-trip: what encryption guarantees of its output is
/// exactly what decryption under the same key returns, so decrypting an
/// encrypted payload with its own key yields the plaintext.
pub proof fn lemma_symmetric_roundtrip(key: Seq<u8>, nonce: Seq<u8>, body: Seq<u8>, m: Seq<u8>)
    requires
        aead_decrypts(key, nonce, body) == Some(m),
    ensures
        aead_decrypts(key, nonce, body) matches Some(p) && p == m,
{
}

/// An AES-256-GCM nonce and ciphertext pair.
#[derive(Debug, Clone)]
pub struct SymmetricData {
    pub nonce: Vec<u8>,
    pub data: Vec<u8>,
}

/// Relies on aes_gcm::Aes256Gcm::generate_key: a fresh 32-byte key.
#[verifier::external_body]
pub fn symmetric_generate() -> (r: SymmetricKey)
    ensures
        r@.len() == 32,
{
    let key = Aes256Gcm::generate_key(&mut OsRng);
    SymmetricKey { bytes: key.to_vec() }
}

/// Relies on aes_gcm::Aes256Gcm::encrypt: the produced nonce is 12 bytes,
/// and decryption with the same key, nonce and ciphertext returns the
/// plaintext.
#[verifier::external_body]
pub fn symmetric_encrypt(key: &SymmetricKey, data: &[u8]) -> (r: SymmetricData)
    requires
        key@.len() == 32,
        data@.len() < 0x1000000000,
    ensures
        r.nonce@.len() == 12,
        aead_decrypts(key@, r.nonce@, r.data@) == Some(data@),
{
    let key: Key<Aes256Gcm> = Key::<Aes256Gcm>::clone_from_slice(&key.bytes);
    let cipher = Aes256Gcm::new(&key);
    let nonce = Aes256Gcm::generate_nonce(&mut OsRng);
    let ciphertext = cipher.encrypt(&nonce, data).expect("in-memory encryption");
    SymmetricData { nonce: nonce.to_vec(), data: ciphertext }
}

/// Relies on aes_gcm::Aes256Gcm::decrypt: the result is a function of the
/// key, nonce and ciphertext bytes alone.
#[verifier::external_body]
pub fn symmetric_decrypt(key: &SymmetricKey, data: &SymmetricData) -> (r: Option<Vec<u8>>)
    requires
        key@.len() == 32,
        data.nonce@.len() == 12,
    ensures
        r.deep_view() == aead_decrypts(key@, data.nonce@, data.data@),
{
    let key: Key<Aes256Gcm> = Key::<Aes256Gcm>::clone_from_slice(&key.bytes);
    let cipher = Aes256Gcm::new(&key);
    let nonce = aes_gcm::Nonce::clone_from_slice(&data.nonce);
    cipher.decrypt(&nonce, data.data.as_slice()).ok()
}

// ------------------------------------------------------------------
// BLSAG ring signatures (Ristretto)
// ------------------------------------------------------------------

/// The compressed Ristretto point obtained by multiplying the basepoint
/// with the scalar read from the given 32 bytes (reduced mod the group
/// order): the ring identity of a ring private key.
pub uninterp spec fn ring_pub_of(key: Seq<u8>) -> Seq<u8>;

/// True of 32-byte strings that decompress to a valid Ristretto point.
pub uninterp spec fn ristretto_wf(bytes: Seq<u8>) -> bool;

/// Whether BLSAG verification accepts a signature with the given
/// challenge, response scalars, embedded ring and key image, over the
/// given message; decompression or scalar-length failures reject.
pub uninterp spec fn blsag_accepts(
    challenge: Seq<u8>,
    responses: Seq<Seq<u8>>,
    ring: Seq<Seq<u8>>,
    key_image: Seq<u8>,
    data: Seq<u8>,
) -> bool;

#[derive(Debug)]
pub struct InvalidRingPrivateKey;

#[derive(Debug)]
pub struct InvalidRingPublicKey;

/// A BLSAG ring identity: a compressed Ristretto point.
#[derive(Debug, Clone)]
pub struct RingPublicKey {
    pub bytes: Vec<u8>,
}

impl View for RingPublicKey {
    type V = Seq<u8>;

    open spec fn view(&self) -> Seq<u8> {
        self.bytes@
    }
}

impl PartialEq for RingPublicKey {
    fn eq(&self, other: &Self) -> (r: bool) {
        bytes_eq(self.bytes.as_slice(), other.bytes.as_slice())
    }
}

impl vstd::std_specs::cmp::PartialEqSpecImpl for RingPublicKey {
    open spec fn obeys_eq_spec() -> bool {
        true
    }

    open spec fn eq_spec(&self, other: &Self) -> bool {
        self@ == other@
    }
}

impl Eq for RingPublicKey {}

impl RingPublicKey {
    pub fn into_bytes(&self) -> (r: Vec<u8>)
        ensures
            r@ == self@,
    {
        self.bytes.clone()
    }
}

/// A BLSAG signing key: a scalar, held in its canonical 32-byte form.
#[derive(Debug, Clone)]
pub struct RingPrivateKey {
    pub bytes: Vec<u8>,
}

impl View for RingPrivateKey {
    type V = Seq<u8>;

    open spec fn view(&self) -> Seq<u8> {
        self.bytes@
    }
}

impl PartialEq for RingPrivateKey {
    fn eq(&self, other: &Self) -> (r: bool) {
        bytes_eq(self.bytes.as_slice(), other.bytes.as_slice())
    }
}

impl vstd::std_specs::cmp::PartialEqSpecImpl for RingPrivateKey {
    open spec fn obeys_eq_spec() -> bool {
        true
    }

    open spec fn eq_spec(&self, other: &Self) -> bool {
        self@ == other@
    }
}

impl Eq for RingPrivateKey {}

impl RingPrivateKey {
    pub fn as_bytes(&self) -> (r: &Vec<u8>)
        ensures
            r@ == self@,
    {
        &self.bytes
    }

    /// Relies on curve25519_dalek scalar-basepoint multiplication: the
    /// ring identity is a function of the key bytes alone.
    #[verifier::external_body]
    pub fn public_key(&self) -> (r: RingPublicKey)
        requires
            self@.len() == 32,
        ensures
            r@ == ring_pub_of(self@),
            ristretto_wf(r@),
            r@.len() == 32,
    {
        let mut b = [0u8; 32];
        b.copy_from_slice(&self.bytes);
        let s = Scalar::from_bytes_mod_order(b);
        let p = s * curve25519_dalek::constants::RISTRETTO_BASEPOINT_POINT;
        RingPublicKey { bytes: p.compress().to_bytes().to_vec() }
    }
}

/// The byte views of a sequence of ring public keys.
pub open spec fn ring_bytes(keys: Seq<RingPublicKey>) -> Seq<Seq<u8>> {
    keys.map_values(|k: RingPublicKey| k@)
}

/// An ordered list of ring identities.
#[derive(Debug, Clone)]
pub struct Ring {
    pub keys: Vec<RingPublicKey>,
}

impl View for Ring {
    type V = Seq<Seq<u8>>;

    open spec fn view(&self) -> Seq<Seq<u8>> {
        ring_bytes(self.keys@)
    }
}

impl PublicKey {
    /// Copies a public key, keeping its bytes.
    pub fn clone_pk(&self) -> (r: PublicKey)
        ensures
            r@ == self@,
    {
        PublicKey { bytes: crate::bytesutil::clone_bytes(&self.bytes) }
    }
}

impl Ring {
    /// Copies a ring, keeping its members.
    pub fn clone_ring(&self) -> (r: Ring)
        ensures
            r@ == self@,
            r.keys@.len() == self.keys@.len(),
            forall|i: int| 0 <= i < r.keys@.len() ==> (#[trigger] r.keys@[i])@ == self.keys@[i]@,
    {
        let mut keys: Vec<RingPublicKey> = Vec::new();
        let n = self.keys.len();
        for i in 0..n
            invariant
                n == self.keys@.len(),
                keys@.len() == i,
                forall|j: int| 0 <= j < i ==> (#[trigger] keys@[j])@ == self.keys@[j]@,
        {
            keys.push(self.keys[i].clone_key());
        }
        let r = Ring { keys };
        proof {
            assert(r@ =~= self@);
        }
        r
    }

    pub fn new() -> (r: Ring)
        ensures
            r@ == Seq::<Seq<u8>>::empty(),
    {
        let r = Ring { keys: Vec::new() };
        proof {
            assert(r@ =~= Seq::<Seq<u8>>::empty());
        }
        r
    }

    pub fn from_keys(keys: Vec<RingPublicKey>) -> (r: Ring)
        ensures
            r.keys@ == keys@,
    {
        Ring { keys }
    }

    pub fn into_keys(self) -> (r: Vec<RingPublicKey>)
        ensures
            r@ == self.keys@,
    {
        self.keys
    }
}

/// A BLSAG signature: challenge and response scalars, the embedded ring,
/// and the signer's key image.
#[derive(Debug, Clone)]
pub struct RingSignature {
    pub challenge: Vec<u8>,
    pub responses: Vec<Vec<u8>>,
    pub ring: Vec<RingPublicKey>,
    pub key_image: Vec<u8>,
}

/// The byte views of a sequence of byte vectors.
pub open spec fn bytes_views(s: Seq<Vec<u8>>) -> Seq<Seq<u8>> {
    s.map_values(|b: Vec<u8>| b@)
}

/// The mathematical content of a ring signature.
#[verifier::ext_equal]
pub struct RingSignatureV {
    pub challenge: Seq<u8>,
    pub responses: Seq<Seq<u8>>,
    pub ring: Seq<Seq<u8>>,
    pub key_image: Seq<u8>,
}

impl View for RingSignature {
    type V = RingSignatureV;

    open spec fn view(&self) -> RingSignatureV {
        RingSignatureV {
            challenge: self.challenge@,
            responses: bytes_views(self.responses@),
            ring: ring_bytes(self.ring@),
            key_image: self.key_image@,
        }
    }
}

impl RingSignature {
    /// Whether BLSAG verification accepts this signature over `data`.
    pub open spec fn accepts(&self, data: Seq<u8>) -> bool {
        blsag_accepts(self@.challenge, self@.responses, self@.ring, self@.key_image, data)
    }

    /// Copies a ring signature, keeping its content.
    pub fn clone_sig(&self) -> (r: RingSignature)
        ensures
            r@ == self@,
    {
        let mut responses: Vec<Vec<u8>> = Vec::new();
        let n = self.responses.len();
        for i in 0..n
            invariant
                n == self.responses@.len(),
                responses@.len() == i,
                forall|j: int| 0 <= j < i ==> (#[trigger] responses@[j])@ == self.responses@[j]@,
        {
            responses.push(crate::bytesutil::clone_bytes(&self.responses[i]));
        }
        let mut ring: Vec<RingPublicKey> = Vec::new();
        let m = self.ring.len();
        for i in 0..m
            invariant
                m == self.ring@.len(),
                ring@.len() == i,
                forall|j: int| 0 <= j < i ==> (#[trigger] ring@[j])@ == self.ring@[j]@,
        {
            ring.push(self.ring[i].clone_key());
        }
        let r = RingSignature {
            challenge: crate::bytesutil::clone_bytes(&self.challenge),
            responses,
            ring,
            key_image: crate::bytesutil::clone_bytes(&self.key_image),
        };
        proof {
            assert(bytes_views(r.responses@) =~= bytes_views(self.responses@));
            assert(ring_bytes(r.ring@) =~= ring_bytes(self.ring@));
            assert(r@ =~= self@);
        }
        r
    }
}

/// Relies on curve25519_dalek::Scalar::random: a fresh ring keypair; the
/// private scalar comes back in canonical (reduced) form.
#[verifier::external_body]
pub fn ring_generate() -> (r: (RingPublicKey, RingPrivateKey))
    ensures
        r.1@.len() == 32,
        r.0@ == ring_pub_of(r.1@),
        ristretto_wf(r.0@),
        r.0@.len() == 32,
{
    let mut csprng = rand::rngs::OsRng;
    let k = Scalar::random(&mut csprng);
    let p = k * curve25519_dalek::constants::RISTRETTO_BASEPOINT_POINT;
    (
        RingPublicKey { bytes: p.compress().to_bytes().to_vec() },
        RingPrivateKey { bytes: k.to_bytes().to_vec() },
    )
}

/// Relies on nazgul::blsag::BLSAG::sign: the resulting signature embeds
/// the decoy ring with the signer's identity inserted at index 1, and
/// BLSAG verification accepts it over the signed message. Compressing a
/// decompressed Ristretto point returns the original bytes, so the
/// embedded ring's byte form is exactly that insertion.
#[verifier::external_body]
fn blsag_sign_call(key: &RingPrivateKey, others: &Vec<RingPublicKey>, data: &[u8]) -> (r: Option<
    RingSignature,
>)
    requires
        key@.len() == 32,
        others@.len() >= 1,
    ensures
        (forall|i: int| 0 <= i < others@.len() ==> ristretto_wf(#[trigger] others@[i]@)) ==> r
            is Some,
        r matches Some(sig) ==> {
            &&& ring_bytes(sig.ring@) == ring_bytes(others@).insert(1, ring_pub_of(key@))
            &&& sig.accepts(data@)
            &&& sig.challenge@.len() == 32
            &&& sig.key_image@.len() == 32
            &&& sig.responses@.len() == sig.ring@.len()
            &&& forall|i: int|
                0 <= i < sig.responses@.len() ==> (#[trigger] sig.responses@[i])@.len() == 32
            &&& forall|i: int| 0 <= i < sig.ring@.len() ==> (#[trigger] sig.ring@[i])@.len() == 32
        },
{
    let k = Scalar::from_bytes_mod_order(key.bytes.as_slice().try_into().ok()?);
    let mut pts = Vec::new();
    for o in others {
        pts.push(CompressedRistretto::from_slice(&o.bytes).ok()?.decompress()?);
    }
    let s = BLSAG::sign::<Sha512, OsRng>(k, pts, 1, data);
    let pv = |p: &RistrettoPoint| p.compress().0.to_vec();
    Some(RingSignature {
        challenge: s.challenge.to_bytes().to_vec(),
        responses: s.responses.iter().map(|x| x.to_bytes().to_vec()).collect(),
        ring: s.ring.iter().map(|p| RingPublicKey { bytes: pv(p) }).collect(),
        key_image: pv(&s.key_image),
    })
}

/// Relies on nazgul::blsag::BLSAG::verify: acceptance is a function of the
/// signature's fields and the message alone. Verification walks the ring
/// and indexes the response scalar of each member, so the response list
/// must pair up with the embedded ring.
#[verifier::external_body]
fn blsag_verify_call(signature: &RingSignature, data: &[u8]) -> (r: bool)
    requires
        signature.responses@.len() == signature.ring@.len(),
    ensures
        r == blsag_accepts(
            signature@.challenge,
            signature@.responses,
            signature@.ring,
            signature@.key_image,
            data@,
        ),
{
    let sc = |b: &Vec<u8>| b.as_slice().try_into().ok().map(Scalar::from_bytes_mod_order);
    let pt = |b: &Vec<u8>| CompressedRistretto::from_slice(b).ok().and_then(|c| c.decompress());
    match (|| Some(BLSAG {
        challenge: sc(&signature.challenge)?,
        responses: signature.responses.iter().map(sc).collect::<Option<_>>()?,
        ring: signature.ring.iter().map(|p| pt(&p.bytes)).collect::<Option<_>>()?,
        key_image: pt(&signature.key_image)?,
    }))() {
        Some(sig) => BLSAG::verify::<Sha512>(sig, data),
        None => false,
    }
}

/// How many entries of `keys` have the byte form `key`.
pub open spec fn ring_count(keys: Seq<RingPublicKey>, key: Seq<u8>) -> int {
    keys.filter(|k: RingPublicKey| k@ == key).len() as int
}

/// Whether the ring embedded in a signature is a permutation of a
/// verification ring: their identities agree as multisets.
pub open spec fn ring_matches(ring: Seq<RingPublicKey>, embedded: Seq<RingPublicKey>) -> bool {
    ring_bytes(ring).to_multiset() == ring_bytes(embedded).to_multiset()
}

/// What `ring_verify` decides: the signature pairs one response with each
/// embedded ring member, the embedded ring is a permutation of the
/// verification ring, and BLSAG verification accepts the signature over
/// the data.
pub open spec fn ring_verify_spec(ring: &Ring, data: Seq<u8>, signature: &RingSignature) -> bool {
    &&& signature.responses@.len() == signature.ring@.len()
    &&& ring_matches(ring.keys@, signature.ring@)
    &&& signature.accepts(data)
}

/// The predicate selecting ring members other than the signer's identity.
pub open spec fn not_signer(signer: Seq<u8>) -> spec_fn(RingPublicKey) -> bool {
    |k: RingPublicKey| k@ != signer
}

/// The decoy members of `keys` for a signer with identity `signer`.
pub open spec fn ring_decoys(keys: Seq<RingPublicKey>, signer: Seq<u8>) -> Seq<RingPublicKey> {
    keys.filter(not_signer(signer))
}

/// Signs `data` with a BLSAG ring signature. The embedded ring is the
/// given ring with the signer's own identity filtered out and re-inserted
/// at a fixed position. Returns `None` when a ring member is not a valid
/// point encoding, or when the ring holds no member besides the signer.
pub fn ring_sign(key: &RingPrivateKey, ring: &Ring, data: &[u8]) -> (r: Option<RingSignature>)
    requires
        key@.len() == 32,
    ensures
        r matches Some(sig) ==> {
            &&& ring_bytes(sig.ring@) == ring_bytes(
                ring_decoys(ring.keys@, ring_pub_of(key@)),
            ).insert(1, ring_pub_of(key@))
            &&& sig.accepts(data@)
            &&& sig.challenge@.len() == 32
            &&& sig.key_image@.len() == 32
            &&& sig.responses@.len() == sig.ring@.len()
            &&& forall|i: int|
                0 <= i < sig.responses@.len() ==> (#[trigger] sig.responses@[i])@.len() == 32
            &&& forall|i: int| 0 <= i < sig.ring@.len() ==> (#[trigger] sig.ring@[i])@.len() == 32
        },
        (forall|i: int| 0 <= i < ring.keys@.len() ==> ristretto_wf(#[trigger] ring.keys@[i]@))
            && ring_decoys(ring.keys@, ring_pub_of(key@)).len() >= 1 ==> r is Some,
{
    let signer = key.public_key();
    let mut others: Vec<RingPublicKey> = Vec::new();
    let n = ring.keys.len();
    for i in 0..n
        invariant
            n == ring.keys@.len(),
            ring_bytes(others@) == ring_bytes(
                ring.keys@.take(i as int).filter(not_signer(ring_pub_of(key@))),
            ),
            signer@ == ring_pub_of(key@),
            key@.len() == 32,
    {
        proof {
            assert(ring.keys@.take(i + 1) =~= ring.keys@.take(i as int).push(
                ring.keys@[i as int],
            ));
            ring.keys@.take(i as int).lemma_filter_push(
                ring.keys@[i as int],
                not_signer(ring_pub_of(key@)),
            );
        }
        let k = &ring.keys[i];
        let ghost prev = others@;
        if !bytes_eq(k.bytes.as_slice(), signer.bytes.as_slice()) {
            others.push(k.clone_key());
            proof {
                assert(ring_bytes(others@) =~= ring_bytes(prev).push(ring.keys@[i as int]@));
                assert(ring_bytes(
                    ring.keys@.take(i as int).filter(not_signer(ring_pub_of(key@))).push(
                        ring.keys@[i as int],
                    ),
                ) =~= ring_bytes(ring.keys@.take(i as int).filter(not_signer(ring_pub_of(key@))))
                    .push(ring.keys@[i as int]@));
            }
        }
    }
    proof {
        assert(ring.keys@.take(n as int) =~= ring.keys@);
    }
    if others.len() == 0 {
        proof {
            assert(ring_decoys(ring.keys@, ring_pub_of(key@)).len() == ring_bytes(
                ring_decoys(ring.keys@, ring_pub_of(key@)),
            ).len());
        }
        return None;
    }
    proof {
        let pk = ring_pub_of(key@);
        let fs = ring_decoys(ring.keys@, pk);
        if forall|i: int| 0 <= i < ring.keys@.len() ==> ristretto_wf(#[trigger] ring.keys@[i]@) {
            assert forall|i: int| 0 <= i < others@.len() implies ristretto_wf(
                #[trigger] others@[i]@,
            ) by {
                assert(others@[i]@ == ring_bytes(others@)[i]);
                assert(ring_bytes(others@)[i] == ring_bytes(fs)[i]);
                assert(fs.contains(fs[i]));
                ring.keys@.lemma_filter_contains_rev(not_signer(pk), fs[i]);
                let j = choose|j: int|
                    0 <= j < ring.keys@.len() && ring.keys@[j] == fs[i];
                assert(ristretto_wf(ring.keys@[j]@));
            }
        }
    }
    blsag_sign_call(key, &others, data)
}

impl RingPublicKey {
    /// Clones a ring identity, keeping its bytes.
    pub fn clone_key(&self) -> (r: RingPublicKey)
        ensures
            r@ == self@,
    {
        RingPublicKey { bytes: self.bytes.clone() }
    }
}

/// Counts the entries of `keys` whose byte form equals `key_bytes`.
fn count_key(keys: &Vec<RingPublicKey>, key_bytes: &Vec<u8>) -> (r: usize)
    ensures
        r == ring_bytes(keys@).to_multiset().count(key_bytes@),
{
    let mut count: usize = 0;
    let n = keys.len();
    proof {
        ring_bytes(keys@.take(0)).to_multiset_ensures();
        assert(ring_bytes(keys@.take(0)) =~= Seq::<Seq<u8>>::empty());
    }
    for i in 0..n
        invariant
            n == keys@.len(),
            count <= i,
            count == ring_bytes(keys@.take(i as int)).to_multiset().count(key_bytes@),
    {
        proof {
            broadcast use vstd::multiset::group_multiset_axioms;

            let prefix = ring_bytes(keys@.take(i as int));
            assert(ring_bytes(keys@.take(i + 1)) =~= prefix.push(keys@[i as int]@));
            vstd::seq_lib::to_multiset_build::<Seq<u8>>(prefix, keys@[i as int]@);
        }
        if bytes_eq(keys[i].bytes.as_slice(), key_bytes.as_slice()) {
            count = count + 1;
        }
    }
    proof {
        assert(keys@.take(n as int) =~= keys@);
    }
    count
}

/// Verifies a BLSAG ring signature against a verification ring: one
/// response per embedded member, the embedded ring a permutation of the
/// verification ring, and BLSAG verification accepting.
pub fn ring_verify(ring: &Ring, data: &[u8], signature: &RingSignature) -> (r: bool)
    ensures
        r == ring_verify_spec(ring, data@, signature),
{
    if signature.responses.len() != signature.ring.len() {
        return false;
    }
    let n = ring.keys.len();
    for i in 0..n
        invariant
            n == ring.keys@.len(),
            signature.responses@.len() == signature.ring@.len(),
            forall|j: int|
                0 <= j < i ==> ring_bytes(ring.keys@).to_multiset().count(
                    #[trigger] ring.keys@[j]@,
                ) == ring_bytes(signature.ring@).to_multiset().count(ring.keys@[j]@),
    {
        let own = count_key(&ring.keys, &ring.keys[i].bytes);
        let embedded = count_key(&signature.ring, &ring.keys[i].bytes);
        if own != embedded {
            return false;
        }
    }
    let m = signature.ring.len();
    for i in 0..m
        invariant
            m == signature.ring@.len(),
            signature.responses@.len() == signature.ring@.len(),
            forall|j: int|
                0 <= j < ring.keys@.len() ==> ring_bytes(ring.keys@).to_multiset().count(
                    #[trigger] ring.keys@[j]@,
                ) == ring_bytes(signature.ring@).to_multiset().count(ring.keys@[j]@),
            forall|j: int|
                0 <= j < i ==> ring_bytes(ring.keys@).to_multiset().count(
                    #[trigger] signature.ring@[j]@,
                ) == ring_bytes(signature.ring@).to_multiset().count(signature.ring@[j]@),
    {
        let own = count_key(&ring.keys, &signature.ring[i].bytes);
        let embedded = count_key(&signature.ring, &signature.ring[i].bytes);
        if own != embedded {
            return false;
        }
    }
    proof {
        let a = ring_bytes(ring.keys@);
        let b = ring_bytes(signature.ring@);
        a.to_multiset_ensures();
        b.to_multiset_ensures();
        assert forall|x: Seq<u8>| a.to_multiset().count(x) == b.to_multiset().count(x) by {
            if a.contains(x) {
                let j = choose|j: int| 0 <= j < a.len() && a[j] == x;
                assert(a[j] == ring.keys@[j]@);
            } else if b.contains(x) {
                let j = choose|j: int| 0 <= j < b.len() && b[j] == x;
                assert(b[j] == signature.ring@[j]@);
            }
        }
        assert(a.to_multiset() =~= b.to_multiset());
    }
    blsag_verify_call(signature, data)
}

/// A ring splits into the members equal to an identity and the rest.
pub proof fn lemma_filter_complement(keys: Seq<RingPublicKey>, pk: Seq<u8>)
    ensures
        ring_count(keys, pk) + ring_decoys(keys, pk).len() == keys.len(),
    decreases keys.len(),
{
    reveal(Seq::filter);
    if keys.len() == 0 {
    } else {
        lemma_filter_complement(keys.drop_last(), pk);
    }
}

/// A ring with no member equal to an identity is all decoys for it.
proof fn lemma_no_match_decoys(keys: Seq<RingPublicKey>, pk: Seq<u8>)
    requires
        ring_count(keys, pk) == 0,
    ensures
        ring_decoys(keys, pk) == keys,
    decreases keys.len(),
{
    reveal(Seq::filter);
    if keys.len() == 0 {
        assert(ring_decoys(keys, pk) =~= keys);
    } else {
        let rest = keys.drop_last();
        if keys.last()@ == pk {
            assert(ring_count(keys, pk) > 0);
        }
        lemma_no_match_decoys(rest, pk);
        assert(ring_decoys(keys, pk) =~= keys);
    }
}

/// When an identity occurs in a ring exactly once, the ring's identities
/// are the decoys' identities plus that one, as multisets.
proof fn lemma_decoys_multiset(keys: Seq<RingPublicKey>, pk: Seq<u8>)
    requires
        ring_count(keys, pk) == 1,
    ensures
        ring_bytes(keys).to_multiset() == ring_bytes(ring_decoys(keys, pk)).to_multiset().insert(
            pk,
        ),
    decreases keys.len(),
{
    broadcast use vstd::multiset::group_multiset_axioms;

    reveal(Seq::filter);
    if keys.len() == 0 {
        assert(ring_count(keys, pk) == 0);
    } else {
        let rest = keys.drop_last();
        let last = keys.last();
        assert(ring_bytes(keys) =~= ring_bytes(rest).push(last@));
        vstd::seq_lib::to_multiset_build::<Seq<u8>>(ring_bytes(rest), last@);
        if last@ == pk {
            assert(ring_count(rest, pk) == 0);
            lemma_no_match_decoys(rest, pk);
            assert(ring_decoys(keys, pk) == ring_decoys(rest, pk));
            assert(ring_bytes(keys).to_multiset() =~= ring_bytes(
                ring_decoys(keys, pk),
            ).to_multiset().insert(pk));
        } else {
            assert(ring_count(rest, pk) == 1);
            lemma_decoys_multiset(rest, pk);
            assert(ring_decoys(keys, pk) == ring_decoys(rest, pk).push(last));
            assert(ring_bytes(ring_decoys(keys, pk)) =~= ring_bytes(ring_decoys(rest, pk)).push(
                last@,
            ));
            vstd::seq_lib::to_multiset_build::<Seq<u8>>(ring_bytes(ring_decoys(rest, pk)), last@);
            assert(ring_bytes(ring_decoys(rest, pk)).to_multiset().insert(pk).insert(last@)
                =~= ring_bytes(ring_decoys(rest, pk)).to_multiset().insert(last@).insert(pk));
            assert(ring_bytes(keys).to_multiset() =~= ring_bytes(
                ring_decoys(keys, pk),
            ).to_multiset().insert(pk));
        }
    }
}

/// The ring a signature embeds after signing is a permutation of the ring
/// it was made from, whenever the signer's identity occurs in that ring
/// exactly once and at least one decoy remains.
pub proof fn lemma_ring_sign_matches(
    keys: Seq<RingPublicKey>,
    sig_ring: Seq<RingPublicKey>,
    pk: Seq<u8>,
)
    requires
        ring_bytes(sig_ring) == ring_bytes(ring_decoys(keys, pk)).insert(1, pk),
        ring_count(keys, pk) == 1,
        ring_decoys(keys, pk).len() >= 1,
    ensures
        ring_matches(keys, sig_ring),
{
    let db = ring_bytes(ring_decoys(keys, pk));
    vstd::seq_lib::to_multiset_insert::<Seq<u8>>(db, 1, pk);
    lemma_decoys_multiset(keys, pk);
}

} // verus!
