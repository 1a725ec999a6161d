//! The deaddrop relay: its in-memory state and the decision logic behind
//! each request. The surrounding process feeds it parsed requests together
//! with the current beacon it fetched; everything decided here is exact.

use vstd::prelude::*;

use crate::crypto::{rsa_priv_wf, PrivateKey, PublicKey, Ring};
use crate::document::{document_admissible, Document, DocumentId, DocumentIdV, DocumentV};
use crate::drand::{Beacon, ChainInfo};
use crate::protocol::{
    clone_signed_document, clone_signed_update, Message, PublishDocument, RetrieveDocumentIds,
    RetrieveDocuments, Signed, SignedV, UpdateAllowedKeys,
};
use crate::{puzzle_ok, ModeOfOperation};

verus! {

/// What a deaddrop is configured with.
pub struct Config {
    pub mode: ModeOfOperation,
    pub private_key: PrivateKey,
    pub difficulty: u8,
    pub acceptance_window: u64,
    pub asset_owner_key: Option<PublicKey>,
}

/// One stored entry: a document id and the signed document it identifies.
pub struct StoredDocument {
    pub id: DocumentId,
    pub document: Signed<Document>,
}

/// The value stored under `id`, scanning the latest entries first. The
/// store keeps ids unique, so the scan order does not matter; latest-first
/// states latest-write-wins directly.
pub open spec fn store_lookup(s: Seq<StoredDocument>, id: DocumentIdV) -> Option<
    SignedV<DocumentV>,
>
    decreases s.len(),
{
    if s.len() == 0 {
        None
    } else if s.last().id@ == id {
        Some(s.last().document@)
    } else {
        store_lookup(s.drop_last(), id)
    }
}

/// Every entry is keyed by its document's own id, and no id repeats.
pub open spec fn store_inv(s: Seq<StoredDocument>) -> bool {
    &&& forall|i: int| 0 <= i < s.len() ==> (#[trigger] s[i]).id@ == s[i].document@.content.id
    &&& forall|i: int, j: int| 0 <= i < j < s.len() ==> s[i].id@ != s[j].id@
}

/// The ids stored with a round at or above `since`, in store order.
pub open spec fn ids_since(s: Seq<StoredDocument>, since: u64) -> Seq<DocumentIdV> {
    s.map_values(|e: StoredDocument| e.id@).filter(|idv: DocumentIdV| idv.round >= since)
}

/// A deaddrop's in-memory state.
pub struct Deaddrop {
    pub mode: ModeOfOperation,
    pub private_key: PrivateKey,
    pub asset_owner_key: Option<PublicKey>,
    pub difficulty: u8,
    pub acceptance_window: u64,
    pub published_documents: Vec<StoredDocument>,
    pub allowed_sender_ring: Ring,
    pub allowed_receiver_keys: Vec<PublicKey>,
    pub keys_update_asset_owner: Option<Signed<UpdateAllowedKeys>>,
    pub success_response: Signed<Message>,
}

impl Deaddrop {
    /// The state's internal invariant: the document store is consistent.
    pub open spec fn inv(&self) -> bool {
        store_inv(self.published_documents@)
    }

    /// What the signature matrix decides for an inbound message:
    /// allowed-keys updates must carry the asset owner's signature;
    /// publishes must match the mode's signing scheme; retrievals may
    /// carry either scheme; response-only variants are never accepted
    /// inbound.
    pub open spec fn signature_ok(&self, signed_message: &Signed<Message>) -> bool {
        match signed_message.content {
            Message::UpdateAllowedKeys(_) => match &self.asset_owner_key {
                Some(k) => signed_message.verify_with_spec(k@),
                None => false,
            },
            Message::PublishDocument(_) => {
                if self.mode.is_asymmetric_mode() {
                    signed_message.verify_spec()
                } else {
                    signed_message.ring_verify_signed_spec(&self.allowed_sender_ring)
                }
            },
            Message::RetrieveDocumentIds(_) | Message::RetrieveDocuments(_)
                | Message::RetrieveKeys => signed_message.verify_spec()
                || signed_message.ring_verify_signed_spec(&self.allowed_sender_ring),
            Message::Success | Message::DocumentIdList(_) | Message::DocumentList(_) => false,
        }
    }

    /// Whether a request beacon is fresh against the current one: within
    /// the acceptance window, or the window is disabled.
    pub open spec fn fresh(&self, request_round: u64, current_round: u64) -> bool {
        self.acceptance_window == 0 || request_round + self.acceptance_window > current_round
    }

    /// Builds a deaddrop from its configuration, signing the canned
    /// success response once. A well-formed private key always succeeds.
    pub fn new(config: Config) -> (r: Option<Deaddrop>)
        ensures
            rsa_priv_wf(config.private_key@) ==> r is Some,
            r matches Some(d) ==> ({
                &&& d.inv()
                &&& d.mode == config.mode
                &&& d.private_key@ == config.private_key@
                &&& d.difficulty == config.difficulty
                &&& d.acceptance_window == config.acceptance_window
                &&& d.published_documents@.len() == 0
                &&& d.allowed_sender_ring@.len() == 0
                &&& d.keys_update_asset_owner is None
                &&& d.success_response@.content is Success
            }),
            r matches Some(d) ==> (rsa_priv_wf(config.private_key@)
                ==> d.success_response.verify_spec()),
    {
        let success_response = match Signed::<Message>::sign(&config.private_key, Message::Success) {
            Some(s) => s,
            None => {
                return None;
            },
        };
        Some(
            Deaddrop {
                mode: config.mode,
                private_key: config.private_key,
                asset_owner_key: config.asset_owner_key,
                difficulty: config.difficulty,
                acceptance_window: config.acceptance_window,
                published_documents: Vec::new(),
                allowed_sender_ring: Ring::new(),
                allowed_receiver_keys: Vec::new(),
                keys_update_asset_owner: None,
                success_response: success_response,
            },
        )
    }

    /// Signs an outbound message with the deaddrop's own key.
    pub fn sign(&self, message: Message) -> (r: Option<Signed<Message>>)
        ensures
            rsa_priv_wf(self.private_key@) ==> r is Some,
            r matches Some(env) ==> env@.content == message@,
            r matches Some(env) ==> (rsa_priv_wf(self.private_key@) ==> env.verify_spec()),
    {
        Signed::<Message>::sign(&self.private_key, message)
    }

    /// A copy of the canned signed success response.
    pub fn success_response(&self) -> (r: Signed<Message>)
        ensures
            r@.content is Success,
            r@.signature == self.success_response@.signature,
    {
        Signed {
            content: Message::Success,
            signature: self.success_response.signature.clone_signature(),
        }
    }

    /// Applies the signature matrix to an inbound message.
    pub fn verify_signature(&self, signed_message: &Signed<Message>) -> (r: bool)
        ensures
            r == self.signature_ok(signed_message),
    {
        match &signed_message.content {
            Message::UpdateAllowedKeys(_) => match &self.asset_owner_key {
                Some(k) => signed_message.verify_with(k),
                None => false,
            },
            Message::PublishDocument(_) => match self.mode {
                ModeOfOperation::Open | ModeOfOperation::ReceiverRestricted => signed_message
                    .verify(),
                ModeOfOperation::SenderRestricted | ModeOfOperation::FullyRestricted => {
                    signed_message.ring_verify(&self.allowed_sender_ring)
                },
            },
            Message::RetrieveDocumentIds(_) | Message::RetrieveDocuments(_)
                | Message::RetrieveKeys => signed_message.verify() || signed_message.ring_verify(
                &self.allowed_sender_ring,
            ),
            Message::Success | Message::DocumentIdList(_) | Message::DocumentList(_) => false,
        }
    }

    /// Admits or rejects a publish: the document must pass admission
    /// against its own chain and the current beacon; on success it is
    /// stored under its id, overwriting any earlier document with that id
    /// and leaving every other id untouched.
    pub fn publish_document(
        &mut self,
        request: PublishDocument,
        document_chain: ChainInfo,
        document_beacon: Beacon,
    ) -> (r: bool)
        requires
            old(self).inv(),
        ensures
            final(self).inv(),
            r == document_admissible(
                request@.document.content,
                old(self).difficulty,
                old(self).acceptance_window,
                document_chain.scheme_id,
                document_chain.public_key@,
                document_beacon@,
            ),
            !r ==> final(self).published_documents@ == old(self).published_documents@,
            r ==> store_lookup(
                final(self).published_documents@,
                request@.document.content.id,
            ) == Some(request@.document),
            r ==> forall|other: DocumentIdV|
                other != request@.document.content.id ==> #[trigger] store_lookup(
                    final(self).published_documents@,
                    other,
                ) == store_lookup(old(self).published_documents@, other),
            final(self).mode == old(self).mode,
            final(self).difficulty == old(self).difficulty,
            final(self).acceptance_window == old(self).acceptance_window,
            final(self).private_key@ == old(self).private_key@,
            final(self).allowed_sender_ring@ == old(self).allowed_sender_ring@,
            final(self).allowed_receiver_keys == old(self).allowed_receiver_keys,
            final(self).asset_owner_key == old(self).asset_owner_key,
            final(self).keys_update_asset_owner == old(self).keys_update_asset_owner,
            final(self).success_response@ == old(self).success_response@,
    {
        if !request.document.content.is_valid(
            self.difficulty,
            self.acceptance_window,
            &document_chain,
            &document_beacon,
        ) {
            return false;
        }
        let id = request.document.content.id.clone_id();
        let ghost pre = self.published_documents@;
        remove_id(&mut self.published_documents, &id);
        let ghost mid = self.published_documents@;
        self.published_documents.push(StoredDocument { id, document: request.document });
        proof {
            let post = self.published_documents@;
            assert(post.drop_last() =~= mid);
            assert(store_lookup(post, post.last().id@) == Some(post.last().document@));
            assert forall|other: DocumentIdV| other != post.last().id@ implies #[trigger] store_lookup(
                post,
                other,
            ) == store_lookup(pre, other) by {
                assert(store_lookup(post, other) == store_lookup(mid, other));
            }
        }
        true
    }

    /// Answers a document-id request: rejected (`None`) exactly when the
    /// request beacon is stale or its admission puzzle fails; otherwise
    /// the ids of every stored document at or above the requested round,
    /// with the current allowed-keys update piggy-backed in the
    /// ring-signed modes.
    pub fn retreive_document_ids(&self, request: RetrieveDocumentIds, beacon: Beacon) -> (r:
        Option<(Vec<DocumentId>, Option<Signed<UpdateAllowedKeys>>)>)
        ensures
            r is Some <==> (self.fresh(request.beacon.round_number, beacon.round_number)
                && puzzle_ok(
                Seq::<u8>::empty(),
                request.beacon@.signature,
                self.difficulty,
                request.nonce_solution,
            )),
            r matches Some(p) ==> ({
                &&& p.0@.map_values(|d: DocumentId| d@) == ids_since(
                    self.published_documents@,
                    request.since_round,
                )
                &&& if self.mode.is_asymmetric_mode() {
                    p.1 is None
                } else {
                    match (&p.1, &self.keys_update_asset_owner) {
                        (Some(u), Some(c)) => u@ == c@,
                        (None, None) => true,
                        _ => false,
                    }
                }
            }),
    {
        if self.acceptance_window != 0 && beacon.round_number >= self.acceptance_window
            && request.beacon.round_number <= beacon.round_number - self.acceptance_window {
            return None;
        }
        let empty: Vec<u8> = Vec::new();
        if !crate::crypto_puzzle_verify(
            empty.as_slice(),
            &request.beacon,
            self.difficulty,
            request.nonce_solution,
        ) {
            return None;
        }
        let mut document_ids: Vec<DocumentId> = Vec::new();
        let n = self.published_documents.len();
        for i in 0..n
            invariant
                n == self.published_documents@.len(),
                self.fresh(request.beacon.round_number, beacon.round_number),
                puzzle_ok(
                    Seq::<u8>::empty(),
                    request.beacon@.signature,
                    self.difficulty,
                    request.nonce_solution,
                ),
                document_ids@.map_values(|d: DocumentId| d@) == ids_since(
                    self.published_documents@.take(i as int),
                    request.since_round,
                ),
        {
            proof {
                assert(self.published_documents@.take(i + 1) =~= self.published_documents@.take(
                    i as int,
                ).push(self.published_documents@[i as int]));
                assert(self.published_documents@.take(i + 1).map_values(
                    |e: StoredDocument| e.id@,
                ) =~= self.published_documents@.take(i as int).map_values(
                    |e: StoredDocument| e.id@,
                ).push(self.published_documents@[i as int].id@));
                self.published_documents@.take(i as int).map_values(
                    |e: StoredDocument| e.id@,
                ).lemma_filter_push(
                    self.published_documents@[i as int].id@,
                    |idv: DocumentIdV| idv.round >= request.since_round,
                );
            }
            let entry = &self.published_documents[i];
            if entry.id.round >= request.since_round {
                document_ids.push(entry.id.clone_id());
                proof {
                    assert(document_ids@.map_values(|d: DocumentId| d@) =~= ids_since(
                        self.published_documents@.take(i + 1),
                        request.since_round,
                    ));
                }
            }
        }
        proof {
            assert(self.published_documents@.take(n as int) =~= self.published_documents@);
        }
        let allowed_sender_keys = match self.mode {
            ModeOfOperation::Open | ModeOfOperation::ReceiverRestricted => None,
            ModeOfOperation::SenderRestricted | ModeOfOperation::FullyRestricted => {
                match &self.keys_update_asset_owner {
                    Some(u) => Some(clone_signed_update(u)),
                    None => None,
                }
            },
        };
        Some((document_ids, allowed_sender_keys))
    }

    /// Answers a document fetch: rejected (`None`) exactly when the
    /// request beacon is stale, its admission puzzle fails, or a requested
    /// id is unknown; otherwise the stored signed document of each
    /// requested id, in request order.
    pub fn retreive_documents(&self, request: &RetrieveDocuments, beacon: Beacon) -> (r: Option<
        Vec<Signed<Document>>,
    >)
        requires
            self.inv(),
        ensures
            r is Some <==> ({
                &&& self.fresh(request.beacon.round_number, beacon.round_number)
                &&& puzzle_ok(
                    Seq::<u8>::empty(),
                    request.beacon@.signature,
                    self.difficulty,
                    request.nonce_solution,
                )
                &&& forall|i: int|
                    0 <= i < request.message_ids@.len() ==> #[trigger] store_lookup(
                        self.published_documents@,
                        request.message_ids@[i]@,
                    ) is Some
            }),
            r matches Some(docs) ==> ({
                &&& docs@.len() == request.message_ids@.len()
                &&& forall|i: int|
                    0 <= i < docs@.len() ==> Some((#[trigger] docs@[i])@) == store_lookup(
                        self.published_documents@,
                        request.message_ids@[i]@,
                    )
            }),
    {
        if self.acceptance_window != 0 && beacon.round_number >= self.acceptance_window
            && request.beacon.round_number <= beacon.round_number - self.acceptance_window {
            return None;
        }
        let empty: Vec<u8> = Vec::new();
        if !crate::crypto_puzzle_verify(
            empty.as_slice(),
            &request.beacon,
            self.difficulty,
            request.nonce_solution,
        ) {
            return None;
        }
        let mut documents: Vec<Signed<Document>> = Vec::new();
        let n = request.message_ids.len();
        for i in 0..n
            invariant
                n == request.message_ids@.len(),
                documents@.len() == i,
                self.inv(),
                self.fresh(request.beacon.round_number, beacon.round_number),
                puzzle_ok(
                    Seq::<u8>::empty(),
                    request.beacon@.signature,
                    self.difficulty,
                    request.nonce_solution,
                ),
                forall|j: int|
                    0 <= j < i ==> Some(documents@[j]@) == #[trigger] store_lookup(
                        self.published_documents@,
                        request.message_ids@[j]@,
                    ),
        {
            match store_find(&self.published_documents, &request.message_ids[i]) {
                Some(doc) => {
                    documents.push(doc);
                },
                None => {
                    return None;
                },
            }
        }
        Some(documents)
    }

    /// Applies an allowed-keys update: accepted exactly when its beacon is
    /// fresh against the current round (a window of zero disables
    /// freshness, as everywhere else), and then the ring, the receiver
    /// keys and the cached update are replaced atomically; a stale update
    /// leaves everything unchanged. Signature verification has already
    /// happened through the matrix.
    pub fn update_allowed_keys(&mut self, update: Signed<UpdateAllowedKeys>, current_round: u64)
        -> (r: bool)
        requires
            old(self).inv(),
        ensures
            final(self).inv(),
            r == old(self).fresh(update.content.beacon.round_number, current_round),
            r ==> ({
                &&& final(self).allowed_sender_ring@ == crate::crypto::ring_bytes(
                    update.content.allowed_sender_keys@,
                )
                &&& final(self).allowed_receiver_keys@.map_values(|k: PublicKey| k@)
                    == update.content@.allowed_receiver_keys
                &&& match &final(self).keys_update_asset_owner {
                    Some(u) => u@ == update@,
                    None => false,
                }
            }),
            !r ==> ({
                &&& final(self).allowed_sender_ring@ == old(self).allowed_sender_ring@
                &&& final(self).allowed_receiver_keys == old(self).allowed_receiver_keys
                &&& final(self).keys_update_asset_owner == old(self).keys_update_asset_owner
            }),
            final(self).published_documents@ == old(self).published_documents@,
            final(self).mode == old(self).mode,
            final(self).difficulty == old(self).difficulty,
            final(self).acceptance_window == old(self).acceptance_window,
            final(self).private_key@ == old(self).private_key@,
            final(self).success_response@ == old(self).success_response@,
    {
        let generated_in_round = update.content.beacon.round_number;
        if self.acceptance_window != 0 && current_round >= self.acceptance_window
            && generated_in_round <= current_round - self.acceptance_window {
            return false;
        }
        let ring_keys = update.content.clone_update();
        self.allowed_sender_ring = Ring::from_keys(ring_keys.allowed_sender_keys);
        self.allowed_receiver_keys = ring_keys.allowed_receiver_keys;
        self.keys_update_asset_owner = Some(update);
        proof {
            assert(self.allowed_sender_ring@ =~= crate::crypto::ring_bytes(
                self.keys_update_asset_owner.unwrap().content.allowed_sender_keys@,
            ));
            assert(self.allowed_receiver_keys@.map_values(|k: PublicKey| k@)
                =~= self.keys_update_asset_owner.unwrap().content@.allowed_receiver_keys);
        }
        true
    }

    /// The cached allowed-keys update, for relaying verbatim.
    pub fn retrieve_keys(&self) -> (r: Option<Signed<UpdateAllowedKeys>>)
        ensures
            match (&r, &self.keys_update_asset_owner) {
                (Some(a), Some(b)) => a@ == b@,
                (None, None) => true,
                _ => false,
            },
    {
        match &self.keys_update_asset_owner {
            Some(u) => Some(clone_signed_update(u)),
            None => None,
        }
    }
}

/// Removes the entry stored under `id`, if any, keeping every other entry
/// in order.
fn remove_id(store: &mut Vec<StoredDocument>, id: &DocumentId) -> (r: bool)
    requires
        store_inv(old(store)@),
    ensures
        store_inv(final(store)@),
        store_lookup(final(store)@, id@) is None,
        forall|other: DocumentIdV|
            other != id@ ==> #[trigger] store_lookup(final(store)@, other) == store_lookup(
                old(store)@,
                other,
            ),
        forall|i: int|
            0 <= i < final(store)@.len() ==> (#[trigger] final(store)@[i]).id@ != id@,
{
    let n = store.len();
    let mut i: usize = 0;
    while i < n
        invariant
            n == store@.len(),
            0 <= i <= n,
            store_inv(store@),
            store@ == old(store)@,
            forall|j: int| 0 <= j < i ==> (#[trigger] store@[j]).id@ != id@,
        decreases n - i,
    {
        if crate::bytesutil::bytes_eq(
            store[i].id.content_hash.bytes.as_slice(),
            id.content_hash.bytes.as_slice(),
        ) && crate::bytesutil::bytes_eq(
            store[i].id.public_key_hash.bytes.as_slice(),
            id.public_key_hash.bytes.as_slice(),
        ) && store[i].id.round == id.round {
            proof {
                assert(store@[i as int].id@ =~= id@);
            }
            let ghost pre = store@;
            store.remove(i);
            proof {
                assert(store@ =~= pre.take(i as int) + pre.skip(i + 1));
                lemma_store_remove(pre, i as int, id@);
            }
            return true;
        }
        proof {
            if store@[i as int].id@ == id@ {
                assert(store@[i as int].id@.content_hash == id@.content_hash);
                assert(false);
            }
        }
        i = i + 1;
    }
    proof {
        lemma_lookup_none(store@, id@);
    }
    false
}

/// Looks up the stored document under `id`, returning a copy.
fn store_find(store: &Vec<StoredDocument>, id: &DocumentId) -> (r: Option<Signed<Document>>)
    requires
        store_inv(store@),
    ensures
        match (r, store_lookup(store@, id@)) {
            (Some(d), Some(v)) => d@ == v,
            (None, None) => true,
            _ => false,
        },
{
    let n = store.len();
    let mut i: usize = 0;
    while i < n
        invariant
            n == store@.len(),
            0 <= i <= n,
            store_inv(store@),
            forall|j: int| 0 <= j < i ==> (#[trigger] store@[j]).id@ != id@,
        decreases n - i,
    {
        if crate::bytesutil::bytes_eq(
            store[i].id.content_hash.bytes.as_slice(),
            id.content_hash.bytes.as_slice(),
        ) && crate::bytesutil::bytes_eq(
            store[i].id.public_key_hash.bytes.as_slice(),
            id.public_key_hash.bytes.as_slice(),
        ) && store[i].id.round == id.round {
            proof {
                assert(store@[i as int].id@ =~= id@);
                lemma_lookup_at(store@, i as int);
            }
            return Some(clone_signed_document(&store[i].document));
        }
        proof {
            if store@[i as int].id@ == id@ {
                assert(store@[i as int].id@.content_hash == id@.content_hash);
                assert(false);
            }
        }
        i = i + 1;
    }
    proof {
        lemma_lookup_none(store@, id@);
    }
    None
}

/// When no entry carries `id`, lookup misses.
proof fn lemma_lookup_none(s: Seq<StoredDocument>, id: DocumentIdV)
    requires
        forall|j: int| 0 <= j < s.len() ==> (#[trigger] s[j]).id@ != id,
    ensures
        store_lookup(s, id) is None,
    decreases s.len(),
{
    if s.len() > 0 {
        lemma_lookup_none(s.drop_last(), id);
    }
}

/// In a consistent store, lookup of an entry's id finds that entry.
proof fn lemma_lookup_at(s: Seq<StoredDocument>, i: int)
    requires
        store_inv(s),
        0 <= i < s.len(),
    ensures
        store_lookup(s, s[i].id@) == Some(s[i].document@),
    decreases s.len(),
{
    if i == s.len() - 1 {
    } else {
        assert(s[i].id@ != s.last().id@);
        assert(s.drop_last()[i] == s[i]);
        assert forall|a: int, b: int| 0 <= a < b < s.drop_last().len() implies s.drop_last()[a].id@
            != s.drop_last()[b].id@ by {
            assert(s.drop_last()[a] == s[a]);
            assert(s.drop_last()[b] == s[b]);
        }
        lemma_lookup_at(s.drop_last(), i);
    }
}

/// Removing the entry at index `i` removes exactly its id from lookup.
proof fn lemma_store_remove(s: Seq<StoredDocument>, i: int, id: DocumentIdV)
    requires
        store_inv(s),
        0 <= i < s.len(),
        s[i].id@ == id,
    ensures
        store_inv(s.take(i) + s.skip(i + 1)),
        store_lookup(s.take(i) + s.skip(i + 1), id) is None,
        forall|other: DocumentIdV|
            other != id ==> #[trigger] store_lookup(s.take(i) + s.skip(i + 1), other)
                == store_lookup(s, other),
        forall|j: int|
            0 <= j < (s.take(i) + s.skip(i + 1)).len() ==> (#[trigger] (s.take(i) + s.skip(
                i + 1,
            ))[j]).id@ != id,
    decreases s.len(),
{
    let t = s.take(i) + s.skip(i + 1);
    assert forall|j: int| 0 <= j < t.len() implies (#[trigger] t[j]).id@ != id by {
        if j < i {
            assert(t[j] == s[j]);
        } else {
            assert(t[j] == s[j + 1]);
        }
    }
    assert forall|a: int, b: int| 0 <= a < b < t.len() implies t[a].id@ != t[b].id@ by {
        let sa = if a < i {
            a
        } else {
            a + 1
        };
        let sb = if b < i {
            b
        } else {
            b + 1
        };
        assert(t[a] == s[sa]);
        assert(t[b] == s[sb]);
    }
    assert forall|j: int| 0 <= j < t.len() implies (#[trigger] t[j]).id@ == t[j].document@.content.id by {
        if j < i {
            assert(t[j] == s[j]);
        } else {
            assert(t[j] == s[j + 1]);
        }
    }
    lemma_lookup_none(t, id);
    assert forall|other: DocumentIdV| other != id implies #[trigger] store_lookup(t, other)
        == store_lookup(s, other) by {
        lemma_lookup_skip_entry(s, i, other);
    }
}

/// Lookup of any id other than the one at index `i` is unchanged by
/// removing index `i`.
proof fn lemma_lookup_skip_entry(s: Seq<StoredDocument>, i: int, other: DocumentIdV)
    requires
        0 <= i < s.len(),
        s[i].id@ != other,
    ensures
        store_lookup(s.take(i) + s.skip(i + 1), other) == store_lookup(s, other),
    decreases s.len(),
{
    let t = s.take(i) + s.skip(i + 1);
    if i == s.len() - 1 {
        assert(t =~= s.drop_last());
    } else {
        assert(t.last() == s.last());
        if s.last().id@ == other {
        } else {
            assert(t.drop_last() =~= s.drop_last().take(i) + s.drop_last().skip(i + 1));
            assert(s.drop_last()[i] == s[i]);
            lemma_lookup_skip_entry(s.drop_last(), i, other);
        }
    }
}

} // verus!
