//! The client: building publishable messages, adopting key updates, and
//! the retrieval decisions. The surrounding process owns the connections
//! and the beacon source and feeds their results in.

use vstd::prelude::*;

use crate::bytesutil::bytes_eq;
use crate::crypto::{
    ring_count, ring_pub_of, ristretto_wf, rsa_priv_wf, rsa_pub_of, sha256, sha256_of, PrivateKey,
    PublicKey, Ring, RingPrivateKey, Sha256,
};
use crate::document::{
    document_built, hybrid_encrypted_to, Document, DocumentContentV, DocumentDrand, DocumentId,
    DocumentIdV,
};
use crate::protocol::{
    Message, MessageV, PublishDocument, Signed, SignedV, UpdateAllowedKeys,
};
use crate::{puzzle_ok, ModeOfOperation};

verus! {

/// What a client is configured with.
pub struct Config {
    pub mode: ModeOfOperation,
    pub private_key: Option<PrivateKey>,
    pub ring_private_key: Option<RingPrivateKey>,
    pub ring: Option<Ring>,
    pub receivers_keys: Vec<PublicKey>,
    pub difficulty: u8,
    pub acceptance_window: u64,
    pub asset_owner_public_key: Option<PublicKey>,
}

/// A publish envelope built ahead of time.
pub struct PreparedMessage(pub Signed<Message>);

/// One publish request for bulk preparation.
pub struct PrepareMessageRequest {
    pub topic: String,
    pub content: String,
}

/// A client's state: its configuration, the randomness chain it follows,
/// and the allowed keys it last adopted.
pub struct Client {
    pub config: Config,
    pub drand_chain: String,
    pub sender_ring: Ring,
    pub receiver_keys: Vec<PublicKey>,
}

/// The conditions under which ring signing over `ring` always succeeds
/// for `key`: a 32-byte scalar whose identity occurs in the ring exactly
/// once among at least two valid member encodings.
pub open spec fn ring_signing_ok(key: RingPrivateKey, ring: Ring) -> bool {
    &&& key@.len() == 32
    &&& forall|i: int| 0 <= i < ring.keys@.len() ==> ristretto_wf(#[trigger] ring.keys@[i]@)
    &&& ring_count(ring.keys@, ring_pub_of(key@)) == 1
    &&& ring.keys@.len() >= 2
}

/// Whether the configured signing identity is present and well-formed, so
/// that the client's identity hash is pinned down.
pub open spec fn identity_ready(c: &Client) -> bool {
    if c.config.mode.is_asymmetric_mode() {
        match c.config.private_key {
            Some(k) => rsa_priv_wf(k@),
            None => false,
        }
    } else {
        c.config.ring_private_key is Some
    }
}

/// The identity hash a client stamps on its documents: its RSA public key
/// bytes in the asymmetric modes, its ring private key bytes in the
/// ring-signed modes.
pub open spec fn identity_hash_spec(c: &Client) -> Option<Seq<u8>> {
    if c.config.mode.is_asymmetric_mode() {
        match c.config.private_key {
            Some(k) => Some(sha256_of(rsa_pub_of(k@))),
            None => None,
        }
    } else {
        match c.config.ring_private_key {
            Some(k) => Some(sha256_of(k@)),
            None => None,
        }
    }
}

/// What a well-formed publish envelope from this client holds: a publish
/// message whose document was built over the given topic and payload and
/// carries the client's identity hash, plaintext in the open modes and
/// hybrid-encrypted toward the client's receiver keys otherwise.
pub open spec fn publish_built(
    c: &Client,
    env: SignedV<MessageV>,
    topic: Seq<char>,
    data: Seq<u8>,
    drand: crate::document::DocumentDrandV,
) -> bool {
    match env.content {
        MessageV::PublishDocument(pd) => {
            &&& document_built(
                pd.document.content,
                topic,
                pd.document.content.content,
                c.config.difficulty,
                identity_hash_spec(c).unwrap(),
                drand,
            )
            &&& if c.config.mode.is_encrypted_mode() {
                hybrid_encrypted_to(
                    pd.document.content.content,
                    c.receiver_keys@.map_values(|k: PublicKey| k@),
                    data,
                )
            } else {
                pd.document.content.content == DocumentContentV::Plaintext(data)
            }
        },
        _ => false,
    }
}

impl Client {
    /// Builds a client from its configuration and the chain it follows.
    pub fn new(config: Config, drand_chain: String) -> (r: Client)
        ensures
            r.config == config,
            r.drand_chain@ == drand_chain@,
            r.sender_ring@.len() == 0,
            r.receiver_keys@.len() == 0,
    {
        Client { config, drand_chain, sender_ring: Ring::new(), receiver_keys: Vec::new() }
    }

    /// The hash of this client's publishing identity.
    pub fn public_key_hash(&self) -> (r: Option<Sha256>)
        ensures
            r matches Some(h) ==> (identity_ready(self) ==> identity_hash_spec(self) == Some(
                h@,
            )),
            identity_ready(self) ==> r is Some,
    {
        match self.config.mode {
            ModeOfOperation::Open | ModeOfOperation::ReceiverRestricted => {
                let key = match &self.config.private_key {
                    Some(k) => k,
                    None => {
                        return None;
                    },
                };
                let public_key = match key.public_key() {
                    Some(p) => p,
                    None => {
                        return None;
                    },
                };
                let bytes = public_key.to_bytes();
                Some(sha256(bytes.as_slice()))
            },
            ModeOfOperation::SenderRestricted | ModeOfOperation::FullyRestricted => {
                match &self.config.ring_private_key {
                    Some(k) => Some(sha256(k.as_bytes().as_slice())),
                    None => None,
                }
            },
        }
    }

    /// Signs a protocol message as this client: asymmetrically in the open
    /// modes, with a ring signature over the configured ring otherwise.
    pub fn sign_message(&self, message: Message) -> (r: Option<Signed<Message>>)
        ensures
            r matches Some(env) ==> ({
                &&& env@.content == message@
                &&& if self.config.mode.is_asymmetric_mode() {
                    &&& env@.signature is Asymmetric
                    &&& (self.config.private_key matches Some(k) && rsa_priv_wf(k@))
                        ==> env.verify_spec()
                } else {
                    env@.signature is RingAsymmetric
                }
            }),
            self.config.mode.is_asymmetric_mode() && (self.config.private_key matches Some(k)
                && rsa_priv_wf(k@)) ==> r is Some,
            !self.config.mode.is_asymmetric_mode() && (self.config.ring_private_key matches Some(
                k,
            ) && (self.config.ring matches Some(rg) && ring_signing_ok(k, rg))) ==> r is Some,
    {
        match self.config.mode {
            ModeOfOperation::Open | ModeOfOperation::ReceiverRestricted => {
                let key = match &self.config.private_key {
                    Some(k) => k,
                    None => {
                        return None;
                    },
                };
                Signed::<Message>::sign(key, message)
            },
            ModeOfOperation::SenderRestricted | ModeOfOperation::FullyRestricted => {
                let key = match &self.config.ring_private_key {
                    Some(k) => k,
                    None => {
                        return None;
                    },
                };
                let ring = match &self.config.ring {
                    Some(r) => r,
                    None => {
                        return None;
                    },
                };
                if key.bytes.len() != 32 {
                    return None;
                }
                Signed::<Message>::ring_sign(key, ring, message)
            },
        }
    }

    /// Signs a freshly built document: asymmetrically in the open modes,
    /// with a ring signature over the last adopted sender ring otherwise.
    pub fn create_signed_document(&self, document: Document) -> (r: Option<Signed<Document>>)
        ensures
            r matches Some(env) ==> ({
                &&& env@.content == document@
                &&& if self.config.mode.is_asymmetric_mode() {
                    &&& env@.signature is Asymmetric
                    &&& (self.config.private_key matches Some(k) && rsa_priv_wf(k@))
                        ==> env.verify_spec()
                } else {
                    env@.signature is RingAsymmetric
                }
            }),
            self.config.mode.is_asymmetric_mode() && (self.config.private_key matches Some(k)
                && rsa_priv_wf(k@)) ==> r is Some,
            !self.config.mode.is_asymmetric_mode() && (self.config.ring_private_key matches Some(
                k,
            ) && ring_signing_ok(k, self.sender_ring)) ==> r is Some,
    {
        match self.config.mode {
            ModeOfOperation::Open | ModeOfOperation::ReceiverRestricted => {
                let key = match &self.config.private_key {
                    Some(k) => k,
                    None => {
                        return None;
                    },
                };
                Signed::<Document>::sign(key, document)
            },
            ModeOfOperation::SenderRestricted | ModeOfOperation::FullyRestricted => {
                let key = match &self.config.ring_private_key {
                    Some(k) => k,
                    None => {
                        return None;
                    },
                };
                if key.bytes.len() != 32 {
                    return None;
                }
                Signed::<Document>::ring_sign(key, &self.sender_ring, document)
            },
        }
    }

    /// Builds one publish envelope for a topic and payload: a document as
    /// the mode prescribes, signed, wrapped as a publish message, and the
    /// whole envelope signed again.
    pub fn create_message(&self, topic: &str, data: &[u8], document_drand: DocumentDrand) -> (r:
        Option<Signed<Message>>)
        requires
            data@.len() < 0x1000000000,
        ensures
            r matches Some(env) ==> (identity_ready(self) ==> publish_built(
                self,
                env@,
                topic@,
                data@,
                document_drand@,
            )),
            ({
                &&& self.config.mode == ModeOfOperation::Open
                &&& self.config.private_key matches Some(k) && rsa_priv_wf(k@)
                &&& exists|m: u32|
                    puzzle_ok(data@, document_drand@.beacon.signature, self.config.difficulty, m)
            }) ==> r is Some,
            ({
                &&& self.config.mode == ModeOfOperation::SenderRestricted
                &&& self.config.ring_private_key matches Some(k) && (ring_signing_ok(
                    k,
                    self.sender_ring,
                ) && (self.config.ring matches Some(rg) && ring_signing_ok(k, rg)))
                &&& exists|m: u32|
                    puzzle_ok(data@, document_drand@.beacon.signature, self.config.difficulty, m)
            }) ==> r is Some,
    {
        let public_key_hash = match self.public_key_hash() {
            Some(h) => h,
            None => {
                return None;
            },
        };
        let document = match self.config.mode {
            ModeOfOperation::Open | ModeOfOperation::SenderRestricted => {
                match Document::plaintext(
                    topic,
                    data,
                    self.config.difficulty,
                    public_key_hash,
                    document_drand,
                ) {
                    Some(d) => d,
                    None => {
                        return None;
                    },
                }
            },
            ModeOfOperation::ReceiverRestricted | ModeOfOperation::FullyRestricted => {
                match Document::encrypted(
                    topic,
                    data,
                    self.config.difficulty,
                    public_key_hash,
                    &self.receiver_keys,
                    document_drand,
                ) {
                    Some(d) => d,
                    None => {
                        return None;
                    },
                }
            },
        };
        let signed_document = match self.create_signed_document(document) {
            Some(s) => s,
            None => {
                return None;
            },
        };
        self.sign_message(Message::PublishDocument(PublishDocument { document: signed_document }))
    }

    /// Builds one prepared publish envelope.
    pub fn prepare_message(&self, topic: &str, data: &[u8], document_drand: DocumentDrand) -> (r:
        Option<PreparedMessage>)
        requires
            data@.len() < 0x1000000000,
        ensures
            r matches Some(p) ==> (identity_ready(self) ==> publish_built(
                self,
                p.0@,
                topic@,
                data@,
                document_drand@,
            )),
            ({
                &&& self.config.mode == ModeOfOperation::Open
                &&& self.config.private_key matches Some(k) && rsa_priv_wf(k@)
                &&& exists|m: u32|
                    puzzle_ok(data@, document_drand@.beacon.signature, self.config.difficulty, m)
            }) ==> r is Some,
            ({
                &&& self.config.mode == ModeOfOperation::SenderRestricted
                &&& self.config.ring_private_key matches Some(k) && (ring_signing_ok(
                    k,
                    self.sender_ring,
                ) && (self.config.ring matches Some(rg) && ring_signing_ok(k, rg)))
                &&& exists|m: u32|
                    puzzle_ok(data@, document_drand@.beacon.signature, self.config.difficulty, m)
            }) ==> r is Some,
    {
        match self.create_message(topic, data, document_drand) {
            Some(env) => Some(PreparedMessage(env)),
            None => None,
        }
    }

    /// Builds prepared publish envelopes for a batch of requests, all
    /// anchored to the same beacon.
    pub fn prepare_messages(
        &self,
        requests: &Vec<PrepareMessageRequest>,
        document_drand: DocumentDrand,
    ) -> (r: Option<Vec<PreparedMessage>>)
        requires
            forall|i: int|
                0 <= i < requests@.len() ==> vstd::utf8::encode_utf8(
                    (#[trigger] requests@[i]).content@,
                ).len() < 0x1000000000,
        ensures
            r matches Some(msgs) ==> ({
                &&& msgs@.len() == requests@.len()
                &&& identity_ready(self) ==> forall|i: int|
                    0 <= i < msgs@.len() ==> publish_built(
                        self,
                        (#[trigger] msgs@[i]).0@,
                        requests@[i].topic@,
                        vstd::utf8::encode_utf8(requests@[i].content@),
                        document_drand@,
                    )
            }),
            ({
                &&& self.config.mode == ModeOfOperation::Open
                &&& self.config.private_key matches Some(k) && rsa_priv_wf(k@)
                &&& forall|i: int|
                    0 <= i < requests@.len() ==> exists|m: u32|
                        puzzle_ok(
                            vstd::utf8::encode_utf8((#[trigger] requests@[i]).content@),
                            document_drand@.beacon.signature,
                            self.config.difficulty,
                            m,
                        )
            }) ==> r is Some,
            ({
                &&& self.config.mode == ModeOfOperation::SenderRestricted
                &&& self.config.ring_private_key matches Some(k) && (ring_signing_ok(
                    k,
                    self.sender_ring,
                ) && (self.config.ring matches Some(rg) && ring_signing_ok(k, rg)))
                &&& forall|i: int|
                    0 <= i < requests@.len() ==> exists|m: u32|
                        puzzle_ok(
                            vstd::utf8::encode_utf8((#[trigger] requests@[i]).content@),
                            document_drand@.beacon.signature,
                            self.config.difficulty,
                            m,
                        )
            }) ==> r is Some,
    {
        let mut out: Vec<PreparedMessage> = Vec::new();
        let n = requests.len();
        for i in 0..n
            invariant
                n == requests@.len(),
                out@.len() == i,
                forall|j: int|
                    0 <= j < requests@.len() ==> vstd::utf8::encode_utf8(
                        (#[trigger] requests@[j]).content@,
                    ).len() < 0x1000000000,
                identity_ready(self) ==> forall|j: int|
                    0 <= j < i ==> publish_built(
                        self,
                        (#[trigger] out@[j]).0@,
                        requests@[j].topic@,
                        vstd::utf8::encode_utf8(requests@[j].content@),
                        document_drand@,
                    ),
        {
            let req = &requests[i];
            let msg = match self.prepare_message(
                req.topic.as_str(),
                req.content.as_str().as_bytes(),
                document_drand.clone_drand(),
            ) {
                Some(m) => m,
                None => {
                    return None;
                },
            };
            out.push(msg);
        }
        Some(out)
    }

    /// Adopts an allowed-keys update: accepted exactly when the configured
    /// asset owner key is present and the update carries its signature,
    /// and then the sender ring and receiver keys are replaced.
    pub fn handle_key_update(&mut self, update: Signed<UpdateAllowedKeys>) -> (r: bool)
        ensures
            r == (old(self).config.asset_owner_public_key matches Some(k)
                && update.verify_with_spec(k@)),
            r ==> ({
                &&& final(self).sender_ring@ == crate::crypto::ring_bytes(
                    update.content.allowed_sender_keys@,
                )
                &&& final(self).receiver_keys@.map_values(|k: PublicKey| k@)
                    == update.content@.allowed_receiver_keys
            }),
            !r ==> ({
                &&& final(self).sender_ring@ == old(self).sender_ring@
                &&& final(self).receiver_keys@ == old(self).receiver_keys@
            }),
            final(self).config == old(self).config,
            final(self).drand_chain@ == old(self).drand_chain@,
    {
        let owner = match &self.config.asset_owner_public_key {
            Some(k) => k,
            None => {
                return false;
            },
        };
        if !update.verify_with(owner) {
            return false;
        }
        let content = update.content.clone_update();
        self.sender_ring = Ring::from_keys(content.allowed_sender_keys);
        self.receiver_keys = content.allowed_receiver_keys;
        proof {
            assert(self.sender_ring@ =~= crate::crypto::ring_bytes(
                update.content.allowed_sender_keys@,
            ));
            assert(self.receiver_keys@.map_values(|k: PublicKey| k@)
                =~= update.content@.allowed_receiver_keys);
        }
        true
    }
}

impl Client {
    /// What the retrieval matrix asks of a fetched document's envelope:
    /// asymmetric verification in the open modes, ring verification
    /// against the adopted sender ring in the ring-signed modes.
    pub open spec fn fetched_envelope_ok(&self, document: &Signed<Document>) -> bool {
        if self.config.mode.is_asymmetric_mode() {
            document.verify_spec()
        } else {
            document.ring_verify_signed_spec(&self.sender_ring)
        }
    }

    /// Applies the retrieval verification matrix to one fetched document:
    /// the envelope must verify as the mode prescribes, and in the
    /// encrypted modes the payload is then decrypted in place with the
    /// client's private key. On failure the document is left unchanged;
    /// in particular an encrypted document none of whose wrapped keys
    /// matches this client is reported false and skipped.
    pub fn check_fetched_document(&self, document: &mut Signed<Document>) -> (r: bool)
        ensures
            r ==> self.fetched_envelope_ok(old(document)),
            !self.config.mode.is_encrypted_mode() ==> ({
                &&& final(document)@ == old(document)@
                &&& r == self.fetched_envelope_ok(old(document))
            }),
            self.config.mode.is_encrypted_mode() && self.config.private_key is None ==> !r,
            !r ==> final(document)@ == old(document)@,
            r && self.config.mode.is_encrypted_mode() ==> ({
                &&& final(document)@.content.content is Plaintext
                &&& final(document)@.signature == old(document)@.signature
                &&& final(document)@.content.id == old(document)@.content.id
                &&& final(document)@.content.topic == old(document)@.content.topic
                &&& final(document)@.content.crypto_difficulty == old(
                    document,
                )@.content.crypto_difficulty
                &&& final(document)@.content.nonce_solution == old(document)@.content.nonce_solution
                &&& final(document)@.content.drand == old(document)@.content.drand
            }),
            forall|receivers: Seq<Seq<u8>>, m: Seq<u8>|
                ({
                    &&& self.fetched_envelope_ok(old(document))
                    &&& self.config.mode.is_encrypted_mode()
                    &&& self.config.private_key matches Some(k) && (rsa_priv_wf(k@)
                        && receivers.contains(rsa_pub_of(k@)))
                    &&& #[trigger] hybrid_encrypted_to(
                        old(document)@.content.content,
                        receivers,
                        m,
                    )
                }) ==> r && final(document)@.content.content == DocumentContentV::Plaintext(m),
    {
        let verified = match self.config.mode {
            ModeOfOperation::Open | ModeOfOperation::ReceiverRestricted => document.verify(),
            ModeOfOperation::SenderRestricted | ModeOfOperation::FullyRestricted => document
                .ring_verify(&self.sender_ring),
        };
        if !verified {
            return false;
        }
        match self.config.mode {
            ModeOfOperation::ReceiverRestricted | ModeOfOperation::FullyRestricted => {
                let key = match &self.config.private_key {
                    Some(k) => k,
                    None => {
                        return false;
                    },
                };
                document.content.decrypt(key)
            },
            ModeOfOperation::Open | ModeOfOperation::SenderRestricted => true,
        }
    }
}

/// The earliest round a retrieval asks for: the requested round and the
/// current round, each pulled back by the acceptance window, whichever is
/// smaller; zero when either would underflow.
pub fn fetch_since_round(current_round: u64, since: u64, acceptance_window: u64) -> (r: u64)
    ensures
        r == if current_round >= acceptance_window && since >= acceptance_window {
            if current_round - acceptance_window <= since - acceptance_window {
                (current_round - acceptance_window) as u64
            } else {
                (since - acceptance_window) as u64
            }
        } else {
            0u64
        },
{
    if current_round >= acceptance_window && since >= acceptance_window {
        let a = current_round - acceptance_window;
        let b = since - acceptance_window;
        if a <= b {
            a
        } else {
            b
        }
    } else {
        0
    }
}

/// The views of a sequence of document ids.
pub open spec fn id_views(s: Seq<DocumentId>) -> Seq<DocumentIdV> {
    s.map_values(|d: DocumentId| d@)
}

/// Appending one id appends its view.
proof fn lemma_id_views_push(s: Seq<DocumentId>, x: DocumentId)
    ensures
        id_views(s.push(x)) == id_views(s).push(x@),
{
    assert(id_views(s.push(x)) =~= id_views(s).push(x@));
}

/// An element of a sequence stays in any extension of it.
proof fn lemma_contains_prefix(a: Seq<DocumentIdV>, b: Seq<DocumentIdV>, x: DocumentIdV)
    requires
        a.contains(x),
    ensures
        (a + b).contains(x),
{
    let w = choose|w: int| 0 <= w < a.len() && a[w] == x;
    assert((a + b)[w] == x);
}

/// Whether a sequence of document ids holds one with the given view.
fn ids_contain(ids: &Vec<DocumentId>, id: &DocumentId) -> (r: bool)
    ensures
        r == id_views(ids@).contains(id@),
{
    let n = ids.len();
    for i in 0..n
        invariant
            n == ids@.len(),
            forall|j: int| 0 <= j < i ==> id_views(ids@)[j] != id@,
    {
        if ids[i].round == id.round && bytes_eq(
            ids[i].content_hash.bytes.as_slice(),
            id.content_hash.bytes.as_slice(),
        ) && bytes_eq(
            ids[i].public_key_hash.bytes.as_slice(),
            id.public_key_hash.bytes.as_slice(),
        ) {
            proof {
                assert(id_views(ids@)[i as int] =~= id@);
            }
            return true;
        }
        proof {
            if id_views(ids@)[i as int] == id@ {
                assert(ids@[i as int]@.content_hash == id@.content_hash);
                assert(false);
            }
        }
    }
    false
}

/// The views of all assigned ids, deaddrop by deaddrop, in order.
pub open spec fn flat_ids(s: Seq<Vec<DocumentId>>) -> Seq<DocumentIdV>
    decreases s.len(),
{
    if s.len() == 0 {
        Seq::empty()
    } else {
        flat_ids(s.drop_last()) + id_views(s.last()@)
    }
}

/// Attributes each advertised document id to the first deaddrop that
/// returned it: the ids assigned to a deaddrop all come from its own
/// answer, no id is assigned twice anywhere, and every advertised id is
/// assigned to some deaddrop.
pub fn assign_document_ids(responses: &Vec<Vec<DocumentId>>) -> (r: Vec<Vec<DocumentId>>)
    ensures
        r@.len() == responses@.len(),
        forall|k: int, i: int|
            0 <= k < r@.len() && 0 <= i < r@[k]@.len() ==> id_views(responses@[k]@).contains(
                #[trigger] id_views(r@[k]@)[i],
            ),
        forall|p: int, q: int|
            0 <= p < q < flat_ids(r@).len() ==> flat_ids(r@)[p] != flat_ids(r@)[q],
        forall|k: int, i: int|
            0 <= k < responses@.len() && 0 <= i < responses@[k]@.len() ==> flat_ids(r@).contains(
                #[trigger] id_views(responses@[k]@)[i],
            ),
        forall|k: int, i: int, l: int|
            #![trigger id_views(r@[k]@)[i], id_views(responses@[l]@)]
            0 <= k < r@.len() && 0 <= i < r@[k]@.len() && 0 <= l < k ==> !id_views(
                responses@[l]@,
            ).contains(id_views(r@[k]@)[i]),
{
    let mut seen: Vec<DocumentId> = Vec::new();
    let mut out: Vec<Vec<DocumentId>> = Vec::new();
    let n = responses.len();
    proof {
        assert(flat_ids(out@) =~= id_views(seen@));
    }
    for k in 0..n
        invariant
            n == responses@.len(),
            out@.len() == k,
            // every assigned id comes from its own response
            forall|a: int, i: int|
                0 <= a < k && 0 <= i < out@[a]@.len() ==> id_views(responses@[a]@).contains(
                    #[trigger] id_views(out@[a]@)[i],
                ),
            // the assigned ids are exactly the seen ones, in order
            flat_ids(out@) == id_views(seen@),
            // no id appears twice among the seen ones
            forall|p: int, q: int|
                0 <= p < q < seen@.len() ==> id_views(seen@)[p] != id_views(seen@)[q],
            // every processed advertised id was seen
            forall|a: int, i: int|
                0 <= a < k && 0 <= i < responses@[a]@.len() ==> id_views(seen@).contains(
                    #[trigger] id_views(responses@[a]@)[i],
                ),
            // each assigned id was new when its deaddrop answered
            forall|a: int, i: int, l: int|
                #![trigger id_views(out@[a]@)[i], id_views(responses@[l]@)]
                0 <= a < k && 0 <= i < out@[a]@.len() && 0 <= l < a ==> !id_views(
                    responses@[l]@,
                ).contains(id_views(out@[a]@)[i]),
    {
        let resp = &responses[k];
        let mut mine: Vec<DocumentId> = Vec::new();
        let m = resp.len();
        let ghost seen0 = seen@;
        for i in 0..m
            invariant
                n == responses@.len(),
                0 <= k < n,
                m == resp@.len(),
                resp == &responses@[k as int],
                // mine grew out of this response
                forall|j: int|
                    0 <= j < mine@.len() ==> id_views(resp@).contains(
                        #[trigger] id_views(mine@)[j],
                    ),
                // seen grew by exactly mine
                id_views(seen@) == id_views(seen0) + id_views(mine@),
                // no id appears twice among the seen ones
                forall|p: int, q: int|
                    0 <= p < q < seen@.len() ==> id_views(seen@)[p] != id_views(seen@)[q],
                // every processed id of this response was seen
                forall|j: int|
                    0 <= j < i ==> id_views(seen@).contains(#[trigger] id_views(resp@)[j]),
                // every id advertised before this response was already seen
                forall|a: int, i2: int|
                    0 <= a < k && 0 <= i2 < responses@[a]@.len() ==> id_views(seen0).contains(
                        #[trigger] id_views(responses@[a]@)[i2],
                    ),
                // the new assignments were unknown to the earlier responses
                forall|j: int, l: int|
                    #![trigger id_views(mine@)[j], id_views(responses@[l]@)]
                    0 <= j < mine@.len() && 0 <= l < k ==> !id_views(responses@[l]@).contains(
                        id_views(mine@)[j],
                    ),
        {
            let id = &resp[i];
            let ghost prev = seen@;
            let ghost prev_mine = mine@;
            if !ids_contain(&seen, id) {
                let c1 = id.clone_id();
                let c2 = id.clone_id();
                proof {
                    lemma_id_views_push(prev, c1);
                    lemma_id_views_push(prev_mine, c2);
                }
                seen.push(c1);
                mine.push(c2);
                proof {
                    assert(id_views(seen@) == id_views(prev).push(id@));
                    assert(id_views(mine@) == id_views(prev_mine).push(id@));
                    assert(id_views(seen@) =~= id_views(seen0) + id_views(mine@));
                    assert(id_views(resp@)[i as int] == id@);
                    assert(id_views(seen@)[seen@.len() - 1] == id@);
                    assert forall|p: int, q: int| 0 <= p < q < seen@.len() implies id_views(
                        seen@,
                    )[p] != id_views(seen@)[q] by {
                        if q == seen@.len() - 1 {
                            assert(id_views(seen@)[p] == id_views(prev)[p]);
                            assert(id_views(prev).contains(id_views(prev)[p]));
                        } else {
                            assert(id_views(seen@)[p] == id_views(prev)[p]);
                            assert(id_views(seen@)[q] == id_views(prev)[q]);
                        }
                    }
                    assert forall|j: int| 0 <= j < i + 1 implies id_views(seen@).contains(
                        #[trigger] id_views(resp@)[j],
                    ) by {
                        if j < i {
                            assert(id_views(prev).contains(id_views(resp@)[j]));
                            let w = choose|w: int|
                                0 <= w < id_views(prev).len() && id_views(prev)[w] == id_views(
                                    resp@,
                                )[j];
                            assert(id_views(seen@)[w] == id_views(resp@)[j]);
                        } else {
                            assert(id_views(seen@)[seen@.len() - 1] == id_views(resp@)[j]);
                        }
                    }
                    assert forall|j: int, l: int|
                        #![trigger id_views(mine@)[j], id_views(responses@[l]@)]
                        0 <= j < mine@.len() && 0 <= l < k implies !id_views(
                        responses@[l]@,
                    ).contains(id_views(mine@)[j]) by {
                        if j < mine@.len() - 1 {
                            assert(id_views(mine@)[j] == id_views(prev_mine)[j]);
                        } else {
                            assert(id_views(mine@)[j] == id@);
                            if id_views(responses@[l]@).contains(id@) {
                                let w = choose|w: int|
                                    0 <= w < id_views(responses@[l]@).len() && id_views(
                                        responses@[l]@,
                                    )[w] == id@;
                                assert(id_views(seen0).contains(id_views(responses@[l]@)[w]));
                                lemma_contains_prefix(
                                    id_views(seen0),
                                    id_views(prev_mine),
                                    id@,
                                );
                                assert(id_views(prev).contains(id@));
                            }
                        }
                    }
                }
            } else {
                proof {
                    assert(id_views(seen@).contains(id_views(resp@)[i as int]));
                }
            }
        }
        let ghost out0 = out@;
        out.push(mine);
        proof {
            assert(out@.drop_last() =~= out0);
            assert(flat_ids(out@) == flat_ids(out0) + id_views(out@.last()@));
            assert(flat_ids(out@) =~= id_views(seen@));
            assert forall|a: int, i: int|
                0 <= a < k + 1 && 0 <= i < responses@[a]@.len() implies id_views(seen@).contains(
                #[trigger] id_views(responses@[a]@)[i],
            ) by {
                if a < k {
                    lemma_contains_prefix(
                        id_views(seen0),
                        id_views(out@.last()@),
                        id_views(responses@[a]@)[i],
                    );
                }
            }
            assert forall|a: int, i: int, l: int|
                #![trigger id_views(out@[a]@)[i], id_views(responses@[l]@)]
                0 <= a < k + 1 && 0 <= i < out@[a]@.len() && 0 <= l < a implies !id_views(
                responses@[l]@,
            ).contains(id_views(out@[a]@)[i]) by {
                if a < k {
                    assert(out@[a] == out0[a]);
                    assert(!id_views(responses@[l]@).contains(id_views(out0[a]@)[i]));
                } else {
                    assert(out@[a] == out@.last());
                }
            }
        }
    }
    proof {
        assert forall|k: int, i: int|
            0 <= k < responses@.len() && 0 <= i < responses@[k]@.len() implies flat_ids(
            out@,
        ).contains(#[trigger] id_views(responses@[k]@)[i]) by {
            assert(id_views(seen@).contains(id_views(responses@[k]@)[i]));
        }
    }
    out
}


} // verus!
