//! The protocol messages and the signed envelope that wraps them.

use vstd::prelude::*;

use crate::bytesutil::bytes_eq;
use crate::codec::Wire;
use crate::crypto::{
    ring_bytes, ring_count, ring_pub_of, ring_verify_spec, rsa_priv_wf, rsa_pub_of, rsa_verifies,
    ristretto_wf, sha256, sha256_of, sign_digest, verify_digest, PrivateKey, PublicKey, Ring,
    RingPrivateKey, RingPublicKey, RingSignature,
};
use crate::document::{DocumentId, DocumentIdV, Document, DocumentV};
use crate::drand::{Beacon, BeaconV};

verus! {

/// The two ways an envelope may be signed: with the author's asymmetric
/// key, or with a ring signature hiding the author among a ring.
#[derive(Debug, Clone)]
pub enum Signature {
    Asymmetric { key: PublicKey, signature: crate::crypto::Signature },
    RingAsymmetric { signature: RingSignature },
}

/// The mathematical content of an envelope signature.
#[verifier::ext_equal]
pub enum SignatureV {
    Asymmetric { key: Seq<u8>, signature: Seq<u8> },
    RingAsymmetric { signature: crate::crypto::RingSignatureV },
}

impl View for Signature {
    type V = SignatureV;

    open spec fn view(&self) -> SignatureV {
        match self {
            Signature::Asymmetric { key, signature } => SignatureV::Asymmetric {
                key: key@,
                signature: signature@,
            },
            Signature::RingAsymmetric { signature } => SignatureV::RingAsymmetric {
                signature: signature@,
            },
        }
    }
}

impl Signature {
    /// Copies an envelope signature, keeping its content.
    pub fn clone_signature(&self) -> (r: Signature)
        ensures
            r@ == self@,
    {
        match self {
            Signature::Asymmetric { key, signature } => Signature::Asymmetric {
                key: key.clone_pk(),
                signature: crate::crypto::Signature {
                    bytes: crate::bytesutil::clone_bytes(&signature.bytes),
                },
            },
            Signature::RingAsymmetric { signature } => Signature::RingAsymmetric {
                signature: signature.clone_sig(),
            },
        }
    }
}

/// A value with a canonical byte serialization used as signature pre-image.
pub trait Signable: Sized {
    /// The canonical bytes signing and verification run over.
    spec fn canon(&self) -> Seq<u8>;

    /// Produces the canonical bytes.
    fn serialize_for_signature(&self) -> (r: Vec<u8>)
        ensures
            r@ == self.canon(),
    ;
}

impl<T: Wire> Signable for T {
    open spec fn canon(&self) -> Seq<u8> {
        T::spec_enc(self@)
    }

    fn serialize_for_signature(&self) -> (r: Vec<u8>) {
        let mut out: Vec<u8> = Vec::new();
        self.enc(&mut out);
        proof {
            assert(out@ =~= self.canon());
        }
        out
    }
}

/// The universal envelope: a content value together with a signature over
/// its canonical serialization.
#[derive(Debug, Clone)]
pub struct Signed<T> {
    pub content: T,
    pub signature: Signature,
}

/// The mathematical content of an envelope.
#[verifier::ext_equal]
pub struct SignedV<C> {
    pub content: C,
    pub signature: SignatureV,
}

impl<T: View> View for Signed<T> {
    type V = SignedV<T::V>;

    open spec fn view(&self) -> SignedV<T::V> {
        SignedV { content: self.content@, signature: self.signature@ }
    }
}

impl<T: Wire> Signed<T> {
    /// What `verify` decides: the signature is asymmetric and checks out,
    /// under its embedded key, over the digest of the content's canonical
    /// bytes.
    pub open spec fn verify_spec(&self) -> bool {
        match self@.signature {
            SignatureV::Asymmetric { key, signature } => rsa_verifies(
                key,
                sha256_of(T::spec_enc(self@.content)),
                signature,
            ),
            SignatureV::RingAsymmetric { .. } => false,
        }
    }

    /// What `verify_with` decides: `verify`, and the embedded key is the
    /// expected one.
    pub open spec fn verify_with_spec(&self, key: Seq<u8>) -> bool {
        &&& self.verify_spec()
        &&& match self@.signature {
            SignatureV::Asymmetric { key: k, .. } => k == key,
            SignatureV::RingAsymmetric { .. } => false,
        }
    }

    /// What `ring_verify` decides: the signature is a ring signature whose
    /// embedded ring is a permutation of the verification ring, and BLSAG
    /// verification accepts it over the content's canonical bytes.
    pub open spec fn ring_verify_signed_spec(&self, ring: &Ring) -> bool {
        match self.signature {
            Signature::RingAsymmetric { signature } => ring_verify_spec(
                ring,
                T::spec_enc(self@.content),
                &signature,
            ),
            Signature::Asymmetric { .. } => false,
        }
    }

    /// Wraps a content value with an already-made signature.
    pub fn new(content: T, signature: Signature) -> (r: Self)
        ensures
            r@.content == content@,
            r@.signature == signature@,
    {
        Signed { content, signature }
    }

    /// Signs a content value with an asymmetric key. A well-formed key
    /// always succeeds, and what it produces then verifies: the signature
    /// checks out under the embedded key, which is the signer's public
    /// half. Malformed key bytes may still sign, but nothing is promised
    /// of the result beyond its shape.
    pub fn sign(key: &PrivateKey, content: T) -> (r: Option<Signed<T>>)
        ensures
            rsa_priv_wf(key@) ==> r is Some,
            r matches Some(env) ==> ({
                &&& env@.content == content@
                &&& env@.signature is Asymmetric
            }),
            r matches Some(env) ==> (rsa_priv_wf(key@) ==> env.verify_spec()
                && env.verify_with_spec(rsa_pub_of(key@))),
    {
        let serialized = content.serialize_for_signature();
        let digest = sha256(serialized.as_slice());
        let signature = match sign_digest(key, &digest.bytes) {
            Some(s) => s,
            None => {
                return None;
            },
        };
        let public_key = match key.public_key() {
            Some(p) => p,
            None => {
                return None;
            },
        };
        Some(Signed { content, signature: Signature::Asymmetric { key: public_key, signature } })
    }

    /// Signs a content value with a ring signature. When every ring member
    /// is a valid identity and the signer's identity occurs in the ring
    /// exactly once beside at least one other member, signing succeeds and
    /// what it produces ring-verifies against that same ring.
    pub fn ring_sign(key: &RingPrivateKey, ring: &Ring, content: T) -> (r: Option<Signed<T>>)
        requires
            key@.len() == 32,
        ensures
            r matches Some(env) ==> ({
                &&& env@.content == content@
                &&& env@.signature is RingAsymmetric
            }),
            ({
                &&& forall|i: int|
                    0 <= i < ring.keys@.len() ==> ristretto_wf(#[trigger] ring.keys@[i]@)
                &&& ring_count(ring.keys@, ring_pub_of(key@)) == 1
                &&& ring.keys@.len() >= 2
            }) ==> (r matches Some(env) && env.ring_verify_signed_spec(ring)),
    {
        let serialized = content.serialize_for_signature();
        proof {
            crate::crypto::lemma_filter_complement(ring.keys@, ring_pub_of(key@));
        }
        let signature = match crate::crypto::ring_sign(key, ring, serialized.as_slice()) {
            Some(s) => s,
            None => {
                return None;
            },
        };
        proof {
            if ring_count(ring.keys@, ring_pub_of(key@)) == 1 && ring.keys@.len() >= 2 {
                crate::crypto::lemma_ring_sign_matches(
                    ring.keys@,
                    signature.ring@,
                    ring_pub_of(key@),
                );
            }
        }
        Some(Signed { content, signature: Signature::RingAsymmetric { signature } })
    }

    /// True when the envelope carries an asymmetric signature.
    pub fn is_asymmetric(&self) -> (r: bool)
        ensures
            r == (self@.signature matches SignatureV::Asymmetric { .. }),
    {
        match &self.signature {
            Signature::Asymmetric { .. } => true,
            Signature::RingAsymmetric { .. } => false,
        }
    }

    /// True when the envelope carries a ring signature.
    pub fn is_ring_asymmetric(&self) -> (r: bool)
        ensures
            r == (self@.signature matches SignatureV::RingAsymmetric { .. }),
    {
        match &self.signature {
            Signature::RingAsymmetric { .. } => true,
            Signature::Asymmetric { .. } => false,
        }
    }

    /// Verifies the envelope under its own embedded key.
    pub fn verify(&self) -> (r: bool)
        ensures
            r == self.verify_spec(),
    {
        match &self.signature {
            Signature::Asymmetric { key, signature } => {
                let serialized = self.content.serialize_for_signature();
                let digest = sha256(serialized.as_slice());
                verify_digest(key, &digest.bytes, signature)
            },
            Signature::RingAsymmetric { .. } => false,
        }
    }

    /// Verifies the envelope and that its embedded key is the expected
    /// one.
    pub fn verify_with(&self, key: &PublicKey) -> (r: bool)
        ensures
            r == self.verify_with_spec(key@),
    {
        match &self.signature {
            Signature::Asymmetric { key: embedded, signature } => {
                if !bytes_eq(embedded.bytes.as_slice(), key.bytes.as_slice()) {
                    return false;
                }
                let serialized = self.content.serialize_for_signature();
                let digest = sha256(serialized.as_slice());
                verify_digest(embedded, &digest.bytes, signature)
            },
            Signature::RingAsymmetric { .. } => false,
        }
    }

    /// Verifies the envelope's ring signature against a verification
    /// ring: the embedded ring must be a permutation of it.
    pub fn ring_verify(&self, ring: &Ring) -> (r: bool)
        ensures
            r == self.ring_verify_signed_spec(ring),
    {
        match &self.signature {
            Signature::RingAsymmetric { signature } => {
                let serialized = self.content.serialize_for_signature();
                crate::crypto::ring_verify(ring, serialized.as_slice(), signature)
            },
            Signature::Asymmetric { .. } => false,
        }
    }
}

/// A request for the ids of stored documents at or above a round.
#[derive(Debug, Clone)]
pub struct RetrieveDocumentIds {
    pub topic: String,
    pub since_round: u64,
    pub beacon: Beacon,
    pub chain: String,
    pub nonce_solution: u32,
}

/// The mathematical content of a document-id request.
#[verifier::ext_equal]
pub struct RetrieveDocumentIdsV {
    pub topic: Seq<char>,
    pub since_round: u64,
    pub beacon: BeaconV,
    pub chain: Seq<char>,
    pub nonce_solution: u32,
}

impl View for RetrieveDocumentIds {
    type V = RetrieveDocumentIdsV;

    open spec fn view(&self) -> RetrieveDocumentIdsV {
        RetrieveDocumentIdsV {
            topic: self.topic@,
            since_round: self.since_round,
            beacon: self.beacon@,
            chain: self.chain@,
            nonce_solution: self.nonce_solution,
        }
    }
}

/// A request for the bodies of identified documents.
#[derive(Debug, Clone)]
pub struct RetrieveDocuments {
    pub message_ids: Vec<DocumentId>,
    pub beacon: Beacon,
    pub chain: String,
    pub nonce_solution: u32,
}

/// The mathematical content of a document fetch request.
#[verifier::ext_equal]
pub struct RetrieveDocumentsV {
    pub message_ids: Seq<DocumentIdV>,
    pub beacon: BeaconV,
    pub chain: Seq<char>,
    pub nonce_solution: u32,
}

impl View for RetrieveDocuments {
    type V = RetrieveDocumentsV;

    open spec fn view(&self) -> RetrieveDocumentsV {
        RetrieveDocumentsV {
            message_ids: self.message_ids@.map_values(|d: DocumentId| d@),
            beacon: self.beacon@,
            chain: self.chain@,
            nonce_solution: self.nonce_solution,
        }
    }
}

/// A publish request carrying one signed document.
#[derive(Debug, Clone)]
pub struct PublishDocument {
    pub document: Signed<Document>,
}

/// The mathematical content of a publish request.
#[verifier::ext_equal]
pub struct PublishDocumentV {
    pub document: SignedV<DocumentV>,
}

impl View for PublishDocument {
    type V = PublishDocumentV;

    open spec fn view(&self) -> PublishDocumentV {
        PublishDocumentV { document: self.document@ }
    }
}

/// The authoritative allowed-keys update an asset owner distributes.
#[derive(Debug, Clone)]
pub struct UpdateAllowedKeys {
    pub allowed_sender_keys: Vec<RingPublicKey>,
    pub allowed_receiver_keys: Vec<PublicKey>,
    pub beacon: Beacon,
}

/// The mathematical content of an allowed-keys update.
#[verifier::ext_equal]
pub struct UpdateAllowedKeysV {
    pub allowed_sender_keys: Seq<Seq<u8>>,
    pub allowed_receiver_keys: Seq<Seq<u8>>,
    pub beacon: BeaconV,
}

impl View for UpdateAllowedKeys {
    type V = UpdateAllowedKeysV;

    open spec fn view(&self) -> UpdateAllowedKeysV {
        UpdateAllowedKeysV {
            allowed_sender_keys: crate::crypto::ring_bytes(self.allowed_sender_keys@),
            allowed_receiver_keys: self.allowed_receiver_keys@.map_values(|k: PublicKey| k@),
            beacon: self.beacon@,
        }
    }
}

impl UpdateAllowedKeys {
    /// Copies an allowed-keys update, keeping its content.
    pub fn clone_update(&self) -> (r: UpdateAllowedKeys)
        ensures
            r@ == self@,
    {
        let mut senders: Vec<RingPublicKey> = Vec::new();
        let n = self.allowed_sender_keys.len();
        for i in 0..n
            invariant
                n == self.allowed_sender_keys@.len(),
                senders@.len() == i,
                forall|j: int|
                    0 <= j < i ==> (#[trigger] senders@[j])@ == self.allowed_sender_keys@[j]@,
        {
            senders.push(self.allowed_sender_keys[i].clone_key());
        }
        let mut receivers: Vec<PublicKey> = Vec::new();
        let m = self.allowed_receiver_keys.len();
        for i in 0..m
            invariant
                m == self.allowed_receiver_keys@.len(),
                receivers@.len() == i,
                forall|j: int|
                    0 <= j < i ==> (#[trigger] receivers@[j])@ == self.allowed_receiver_keys@[j]@,
        {
            receivers.push(self.allowed_receiver_keys[i].clone_pk());
        }
        let r = UpdateAllowedKeys {
            allowed_sender_keys: senders,
            allowed_receiver_keys: receivers,
            beacon: self.beacon.clone_beacon(),
        };
        proof {
            assert(r@ =~= self@);
        }
        r
    }
}

/// Copies a signed allowed-keys update, keeping its content.
pub fn clone_signed_update(env: &Signed<UpdateAllowedKeys>) -> (r: Signed<UpdateAllowedKeys>)
    ensures
        r@ == env@,
{
    let r = Signed {
        content: env.content.clone_update(),
        signature: env.signature.clone_signature(),
    };
    proof {
        assert(r@ =~= env@);
    }
    r
}

/// Copies a signed document, keeping its content.
pub fn clone_signed_document(env: &Signed<Document>) -> (r: Signed<Document>)
    ensures
        r@ == env@,
{
    let r = Signed {
        content: env.content.clone_doc(),
        signature: env.signature.clone_signature(),
    };
    proof {
        assert(r@ =~= env@);
    }
    r
}

/// A deaddrop's answer to a document-id request: the ids, and in the
/// ring-signed modes the current allowed-keys update.
#[derive(Debug, Clone)]
pub struct DocumentIdList {
    pub message_ids: Vec<DocumentId>,
    pub allowed_sender_keys: Option<Signed<UpdateAllowedKeys>>,
}

/// The mathematical content of a document-id response.
#[verifier::ext_equal]
pub struct DocumentIdListV {
    pub message_ids: Seq<DocumentIdV>,
    pub allowed_sender_keys: Option<SignedV<UpdateAllowedKeysV>>,
}

impl View for DocumentIdList {
    type V = DocumentIdListV;

    open spec fn view(&self) -> DocumentIdListV {
        DocumentIdListV {
            message_ids: self.message_ids@.map_values(|d: DocumentId| d@),
            allowed_sender_keys: match &self.allowed_sender_keys {
                Some(u) => Some(u@),
                None => None,
            },
        }
    }
}

/// A deaddrop's answer to a document fetch: the signed documents.
#[derive(Debug, Clone)]
pub struct DocumentList {
    pub documents: Vec<Signed<Document>>,
}

/// The mathematical content of a document response.
#[verifier::ext_equal]
pub struct DocumentListV {
    pub documents: Seq<SignedV<DocumentV>>,
}

impl View for DocumentList {
    type V = DocumentListV;

    open spec fn view(&self) -> DocumentListV {
        DocumentListV { documents: self.documents@.map_values(|d: Signed<Document>| d@) }
    }
}

/// Every message the protocol carries, in both directions.
#[derive(Debug, Clone)]
pub enum Message {
    Success,
    RetrieveDocumentIds(RetrieveDocumentIds),
    RetrieveDocuments(RetrieveDocuments),
    PublishDocument(PublishDocument),
    DocumentIdList(DocumentIdList),
    DocumentList(DocumentList),
    UpdateAllowedKeys(UpdateAllowedKeys),
    RetrieveKeys,
}

/// The mathematical content of a protocol message.
#[verifier::ext_equal]
pub enum MessageV {
    Success,
    RetrieveDocumentIds(RetrieveDocumentIdsV),
    RetrieveDocuments(RetrieveDocumentsV),
    PublishDocument(PublishDocumentV),
    DocumentIdList(DocumentIdListV),
    DocumentList(DocumentListV),
    UpdateAllowedKeys(UpdateAllowedKeysV),
    RetrieveKeys,
}

impl View for Message {
    type V = MessageV;

    open spec fn view(&self) -> MessageV {
        match self {
            Message::Success => MessageV::Success,
            Message::RetrieveDocumentIds(v) => MessageV::RetrieveDocumentIds(v@),
            Message::RetrieveDocuments(v) => MessageV::RetrieveDocuments(v@),
            Message::PublishDocument(v) => MessageV::PublishDocument(v@),
            Message::DocumentIdList(v) => MessageV::DocumentIdList(v@),
            Message::DocumentList(v) => MessageV::DocumentList(v@),
            Message::UpdateAllowedKeys(v) => MessageV::UpdateAllowedKeys(v@),
            Message::RetrieveKeys => MessageV::RetrieveKeys,
        }
    }
}

} // verus!
