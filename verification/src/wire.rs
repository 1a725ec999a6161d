//! The canonical encoding of each wire type.

use vstd::prelude::*;

use crate::codec::{
    dec_bytes, dec_str, dec_u32, dec_u64, dec_u8, dec_bytes_v, dec_str_v, dec_u32_v, dec_u64_v,
    dec_u8_v, enc_bytes, enc_str, enc_u32, enc_u64, enc_u8, enc_bytes_v, enc_str_v, enc_u32_v,
    enc_u64_v, enc_u8_v, lemma_dec_enc_bytes, lemma_dec_enc_str, lemma_dec_enc_u32,
    lemma_dec_enc_u64, lemma_dec_enc_u8, lemma_split_prefix, len_max, Wire,
};
use crate::codec::{
    dec_list_v, enc_list_v, list_wf, lemma_dec_enc_list, seq_views, spec_dec_list, spec_enc_list,
};
use crate::crypto::{PublicKey, RingPublicKey, RingSignature, RingSignatureV, Sha256, bytes_views, ring_bytes};
use crate::document::{
    Document, DocumentContent, DocumentContentV, DocumentDrand, DocumentDrandV, DocumentId,
    DocumentIdV, DocumentKeyPair, DocumentKeyPairV, DocumentV,
};
use crate::drand::{Beacon, BeaconV, SchemeId};
use crate::protocol::{
    DocumentIdList, DocumentIdListV, DocumentList, DocumentListV, Message, MessageV,
    PublishDocument, PublishDocumentV, RetrieveDocumentIds, RetrieveDocumentIdsV,
    RetrieveDocuments, RetrieveDocumentsV, Signature, SignatureV, Signed, SignedV,
    UpdateAllowedKeys, UpdateAllowedKeysV,
};
use vstd::utf8::encode_utf8;

verus! {

// ------------------------------------------------------------------
// Byte strings
// ------------------------------------------------------------------

impl Wire for Vec<u8> {
    open spec fn spec_enc(v: Seq<u8>) -> Seq<u8> {
        enc_bytes(v)
    }

    open spec fn spec_dec(s: Seq<u8>, i: int) -> Option<(Seq<u8>, int)> {
        dec_bytes(s, i)
    }

    open spec fn wire_wf(v: Seq<u8>) -> bool {
        v.len() < len_max()
    }

    fn enc(&self, out: &mut Vec<u8>) {
        enc_bytes_v(self, out);
    }

    fn dec(buf: &Vec<u8>, pos: usize) -> (r: Option<(Self, usize)>) {
        dec_bytes_v(buf, pos)
    }

    proof fn lemma_dec_enc(v: Seq<u8>, s: Seq<u8>, i: int) {
        lemma_dec_enc_bytes(v, s, i);
    }
}

impl Wire for PublicKey {
    open spec fn spec_enc(v: Seq<u8>) -> Seq<u8> {
        enc_bytes(v)
    }

    open spec fn spec_dec(s: Seq<u8>, i: int) -> Option<(Seq<u8>, int)> {
        dec_bytes(s, i)
    }

    open spec fn wire_wf(v: Seq<u8>) -> bool {
        v.len() < len_max()
    }

    fn enc(&self, out: &mut Vec<u8>) {
        enc_bytes_v(&self.bytes, out);
    }

    fn dec(buf: &Vec<u8>, pos: usize) -> (r: Option<(Self, usize)>) {
        match dec_bytes_v(buf, pos) {
            Some((bytes, j)) => Some((PublicKey { bytes }, j)),
            None => None,
        }
    }

    proof fn lemma_dec_enc(v: Seq<u8>, s: Seq<u8>, i: int) {
        lemma_dec_enc_bytes(v, s, i);
    }
}

impl Wire for RingPublicKey {
    open spec fn spec_enc(v: Seq<u8>) -> Seq<u8> {
        enc_bytes(v)
    }

    open spec fn spec_dec(s: Seq<u8>, i: int) -> Option<(Seq<u8>, int)> {
        dec_bytes(s, i)
    }

    open spec fn wire_wf(v: Seq<u8>) -> bool {
        v.len() < len_max()
    }

    fn enc(&self, out: &mut Vec<u8>) {
        enc_bytes_v(&self.bytes, out);
    }

    fn dec(buf: &Vec<u8>, pos: usize) -> (r: Option<(Self, usize)>) {
        match dec_bytes_v(buf, pos) {
            Some((bytes, j)) => Some((RingPublicKey { bytes }, j)),
            None => None,
        }
    }

    proof fn lemma_dec_enc(v: Seq<u8>, s: Seq<u8>, i: int) {
        lemma_dec_enc_bytes(v, s, i);
    }
}

// ------------------------------------------------------------------
// Schemes
// ------------------------------------------------------------------

impl View for SchemeId {
    type V = SchemeId;

    open spec fn view(&self) -> SchemeId {
        *self
    }
}

/// The tag byte of a scheme.
pub open spec fn scheme_tag(v: SchemeId) -> u8 {
    match v {
        SchemeId::PedersenBlsChained => 0,
        SchemeId::PedersenBlsUnchained => 1,
        SchemeId::UnchainedOnG1 => 2,
        SchemeId::UnchainedOnG1RFC9380 => 3,
    }
}

impl Wire for SchemeId {
    open spec fn spec_enc(v: SchemeId) -> Seq<u8> {
        enc_u8(scheme_tag(v))
    }

    open spec fn spec_dec(s: Seq<u8>, i: int) -> Option<(SchemeId, int)> {
        match dec_u8(s, i) {
            Some((t, j)) => {
                if t == 0 {
                    Some((SchemeId::PedersenBlsChained, j))
                } else if t == 1 {
                    Some((SchemeId::PedersenBlsUnchained, j))
                } else if t == 2 {
                    Some((SchemeId::UnchainedOnG1, j))
                } else if t == 3 {
                    Some((SchemeId::UnchainedOnG1RFC9380, j))
                } else {
                    None
                }
            },
            None => None,
        }
    }

    open spec fn wire_wf(v: SchemeId) -> bool {
        true
    }

    fn enc(&self, out: &mut Vec<u8>) {
        let tag: u8 = match self {
            SchemeId::PedersenBlsChained => 0,
            SchemeId::PedersenBlsUnchained => 1,
            SchemeId::UnchainedOnG1 => 2,
            SchemeId::UnchainedOnG1RFC9380 => 3,
        };
        enc_u8_v(tag, out);
    }

    fn dec(buf: &Vec<u8>, pos: usize) -> (r: Option<(Self, usize)>) {
        match dec_u8_v(buf, pos) {
            Some((t, j)) => {
                if t == 0 {
                    Some((SchemeId::PedersenBlsChained, j))
                } else if t == 1 {
                    Some((SchemeId::PedersenBlsUnchained, j))
                } else if t == 2 {
                    Some((SchemeId::UnchainedOnG1, j))
                } else if t == 3 {
                    Some((SchemeId::UnchainedOnG1RFC9380, j))
                } else {
                    None
                }
            },
            None => None,
        }
    }

    proof fn lemma_dec_enc(v: SchemeId, s: Seq<u8>, i: int) {
        lemma_dec_enc_u8(scheme_tag(v), s, i);
    }
}

// ------------------------------------------------------------------
// Beacons
// ------------------------------------------------------------------

/// The encoding of a beacon's fields, nested for head-first splitting.
pub open spec fn enc_beacon(v: BeaconV) -> Seq<u8> {
    enc_u64(v.round_number) + (enc_bytes(v.randomness) + (enc_bytes(v.signature) + enc_bytes(
        v.previous_signature,
    )))
}

impl Wire for Beacon {
    open spec fn spec_enc(v: BeaconV) -> Seq<u8> {
        enc_beacon(v)
    }

    open spec fn spec_dec(s: Seq<u8>, i: int) -> Option<(BeaconV, int)> {
        match dec_u64(s, i) {
            Some((round_number, i1)) => match dec_bytes(s, i1) {
                Some((randomness, i2)) => match dec_bytes(s, i2) {
                    Some((signature, i3)) => match dec_bytes(s, i3) {
                        Some((previous_signature, i4)) => Some(
                            (
                                BeaconV {
                                    round_number,
                                    randomness,
                                    signature,
                                    previous_signature,
                                },
                                i4,
                            ),
                        ),
                        None => None,
                    },
                    None => None,
                },
                None => None,
            },
            None => None,
        }
    }

    open spec fn wire_wf(v: BeaconV) -> bool {
        &&& v.randomness.len() < len_max()
        &&& v.signature.len() < len_max()
        &&& v.previous_signature.len() < len_max()
    }

    fn enc(&self, out: &mut Vec<u8>) {
        enc_u64_v(self.round_number, out);
        enc_bytes_v(&self.randomness, out);
        enc_bytes_v(&self.signature, out);
        enc_bytes_v(&self.previous_signature, out);
        proof {
            assert(out@ =~= old(out)@ + Self::spec_enc(self@));
        }
    }

    fn dec(buf: &Vec<u8>, pos: usize) -> (r: Option<(Self, usize)>) {
        let (round_number, i1) = match dec_u64_v(buf, pos) {
            Some(p) => p,
            None => {
                return None;
            },
        };
        let (randomness, i2) = match dec_bytes_v(buf, i1) {
            Some(p) => p,
            None => {
                return None;
            },
        };
        let (signature, i3) = match dec_bytes_v(buf, i2) {
            Some(p) => p,
            None => {
                return None;
            },
        };
        let (previous_signature, i4) = match dec_bytes_v(buf, i3) {
            Some(p) => p,
            None => {
                return None;
            },
        };
        let b = Beacon { round_number, randomness, signature, previous_signature };
        proof {
            assert(b@ =~= Self::spec_dec(buf@, pos as int).unwrap().0);
        }
        Some((b, i4))
    }

    proof fn lemma_dec_enc(v: BeaconV, s: Seq<u8>, i: int) {
        crate::codec::lemma_prim_lens();
        let e1 = enc_u64(v.round_number);
        let e2 = enc_bytes(v.randomness);
        let e3 = enc_bytes(v.signature);
        let e4 = enc_bytes(v.previous_signature);
        lemma_split_prefix(s, i, e1, e2 + (e3 + e4));
        lemma_dec_enc_u64(v.round_number, s, i);
        let i1 = i + e1.len() as int;
        lemma_split_prefix(s, i1, e2, e3 + e4);
        lemma_dec_enc_bytes(v.randomness, s, i1);
        let i2 = i1 + e2.len() as int;
        lemma_split_prefix(s, i2, e3, e4);
        lemma_dec_enc_bytes(v.signature, s, i2);
        let i3 = i2 + e3.len() as int;
        lemma_dec_enc_bytes(v.previous_signature, s, i3);
        assert(Self::spec_dec(s, i).unwrap().0 =~= v);
    }
}

// ------------------------------------------------------------------
// Document identifiers
// ------------------------------------------------------------------

/// The encoding of a document id's fields.
pub open spec fn enc_document_id(v: DocumentIdV) -> Seq<u8> {
    enc_u64(v.round) + (enc_bytes(v.content_hash) + enc_bytes(v.public_key_hash))
}

impl Wire for DocumentId {
    open spec fn spec_enc(v: DocumentIdV) -> Seq<u8> {
        enc_document_id(v)
    }

    open spec fn spec_dec(s: Seq<u8>, i: int) -> Option<(DocumentIdV, int)> {
        match dec_u64(s, i) {
            Some((round, i1)) => match dec_bytes(s, i1) {
                Some((content_hash, i2)) => match dec_bytes(s, i2) {
                    Some((public_key_hash, i3)) => Some(
                        (DocumentIdV { round, content_hash, public_key_hash }, i3),
                    ),
                    None => None,
                },
                None => None,
            },
            None => None,
        }
    }

    open spec fn wire_wf(v: DocumentIdV) -> bool {
        &&& v.content_hash.len() < len_max()
        &&& v.public_key_hash.len() < len_max()
    }

    fn enc(&self, out: &mut Vec<u8>) {
        enc_u64_v(self.round, out);
        enc_bytes_v(&self.content_hash.bytes, out);
        enc_bytes_v(&self.public_key_hash.bytes, out);
        proof {
            assert(out@ =~= old(out)@ + Self::spec_enc(self@));
        }
    }

    fn dec(buf: &Vec<u8>, pos: usize) -> (r: Option<(Self, usize)>) {
        let (round, i1) = match dec_u64_v(buf, pos) {
            Some(p) => p,
            None => {
                return None;
            },
        };
        let (ch, i2) = match dec_bytes_v(buf, i1) {
            Some(p) => p,
            None => {
                return None;
            },
        };
        let (pkh, i3) = match dec_bytes_v(buf, i2) {
            Some(p) => p,
            None => {
                return None;
            },
        };
        let d = DocumentId {
            round,
            content_hash: crate::crypto::Sha256 { bytes: ch },
            public_key_hash: crate::crypto::Sha256 { bytes: pkh },
        };
        proof {
            assert(d@ =~= Self::spec_dec(buf@, pos as int).unwrap().0);
        }
        Some((d, i3))
    }

    proof fn lemma_dec_enc(v: DocumentIdV, s: Seq<u8>, i: int) {
        crate::codec::lemma_prim_lens();
        let e1 = enc_u64(v.round);
        let e2 = enc_bytes(v.content_hash);
        let e3 = enc_bytes(v.public_key_hash);
        lemma_split_prefix(s, i, e1, e2 + e3);
        lemma_dec_enc_u64(v.round, s, i);
        let i1 = i + e1.len() as int;
        lemma_split_prefix(s, i1, e2, e3);
        lemma_dec_enc_bytes(v.content_hash, s, i1);
        let i2 = i1 + e2.len() as int;
        lemma_dec_enc_bytes(v.public_key_hash, s, i2);
        assert(Self::spec_dec(s, i).unwrap().0 =~= v);
    }
}

// ------------------------------------------------------------------
// Ring signatures
// ------------------------------------------------------------------

/// The encoding of a ring signature's fields.
pub open spec fn enc_ring_signature(v: RingSignatureV) -> Seq<u8> {
    enc_bytes(v.challenge) + (spec_enc_list::<Vec<u8>>(v.responses) + (spec_enc_list::<
        RingPublicKey,
    >(v.ring) + enc_bytes(v.key_image)))
}

impl Wire for RingSignature {
    open spec fn spec_enc(v: RingSignatureV) -> Seq<u8> {
        enc_ring_signature(v)
    }

    open spec fn spec_dec(s: Seq<u8>, i: int) -> Option<(RingSignatureV, int)> {
        match dec_bytes(s, i) {
            Some((challenge, i1)) => match spec_dec_list::<Vec<u8>>(s, i1) {
                Some((responses, i2)) => match spec_dec_list::<RingPublicKey>(s, i2) {
                    Some((ring, i3)) => match dec_bytes(s, i3) {
                        Some((key_image, i4)) => Some(
                            (RingSignatureV { challenge, responses, ring, key_image }, i4),
                        ),
                        None => None,
                    },
                    None => None,
                },
                None => None,
            },
            None => None,
        }
    }

    open spec fn wire_wf(v: RingSignatureV) -> bool {
        &&& v.challenge.len() < len_max()
        &&& list_wf::<Vec<u8>>(v.responses)
        &&& list_wf::<RingPublicKey>(v.ring)
        &&& v.key_image.len() < len_max()
    }

    fn enc(&self, out: &mut Vec<u8>) {
        enc_bytes_v(&self.challenge, out);
        enc_list_v::<Vec<u8>>(&self.responses, out);
        enc_list_v::<RingPublicKey>(&self.ring, out);
        enc_bytes_v(&self.key_image, out);
        proof {
            assert(seq_views(self.responses@) =~= bytes_views(self.responses@));
            assert(seq_views(self.ring@) =~= ring_bytes(self.ring@));
            assert(out@ =~= old(out)@ + Self::spec_enc(self@));
        }
    }

    fn dec(buf: &Vec<u8>, pos: usize) -> (r: Option<(Self, usize)>) {
        let (challenge, i1) = match dec_bytes_v(buf, pos) {
            Some(p) => p,
            None => {
                return None;
            },
        };
        let (responses, i2) = match dec_list_v::<Vec<u8>>(buf, i1) {
            Some(p) => p,
            None => {
                return None;
            },
        };
        let (ring, i3) = match dec_list_v::<RingPublicKey>(buf, i2) {
            Some(p) => p,
            None => {
                return None;
            },
        };
        let (key_image, i4) = match dec_bytes_v(buf, i3) {
            Some(p) => p,
            None => {
                return None;
            },
        };
        let sig = RingSignature { challenge, responses, ring, key_image };
        proof {
            assert(seq_views(sig.responses@) =~= bytes_views(sig.responses@));
            assert(seq_views(sig.ring@) =~= ring_bytes(sig.ring@));
            assert(sig@ =~= Self::spec_dec(buf@, pos as int).unwrap().0);
        }
        Some((sig, i4))
    }

    proof fn lemma_dec_enc(v: RingSignatureV, s: Seq<u8>, i: int) {
        crate::codec::lemma_prim_lens();
        let e1 = enc_bytes(v.challenge);
        let e2 = spec_enc_list::<Vec<u8>>(v.responses);
        let e3 = spec_enc_list::<RingPublicKey>(v.ring);
        let e4 = enc_bytes(v.key_image);
        lemma_split_prefix(s, i, e1, e2 + (e3 + e4));
        lemma_dec_enc_bytes(v.challenge, s, i);
        let i1 = i + e1.len() as int;
        lemma_split_prefix(s, i1, e2, e3 + e4);
        lemma_dec_enc_list::<Vec<u8>>(v.responses, s, i1);
        let i2 = i1 + e2.len() as int;
        lemma_split_prefix(s, i2, e3, e4);
        lemma_dec_enc_list::<RingPublicKey>(v.ring, s, i2);
        let i3 = i2 + e3.len() as int;
        lemma_dec_enc_bytes(v.key_image, s, i3);
        assert(Self::spec_dec(s, i).unwrap().0 =~= v);
    }
}

// ------------------------------------------------------------------
// Receiver key pairs
// ------------------------------------------------------------------

/// The encoding of a receiver key pair.
pub open spec fn enc_key_pair(v: DocumentKeyPairV) -> Seq<u8> {
    enc_bytes(v.public_key) + enc_bytes(v.symmetric_key)
}

impl Wire for DocumentKeyPair {
    open spec fn spec_enc(v: DocumentKeyPairV) -> Seq<u8> {
        enc_key_pair(v)
    }

    open spec fn spec_dec(s: Seq<u8>, i: int) -> Option<(DocumentKeyPairV, int)> {
        match dec_bytes(s, i) {
            Some((public_key, i1)) => match dec_bytes(s, i1) {
                Some((symmetric_key, i2)) => Some(
                    (DocumentKeyPairV { public_key, symmetric_key }, i2),
                ),
                None => None,
            },
            None => None,
        }
    }

    open spec fn wire_wf(v: DocumentKeyPairV) -> bool {
        &&& v.public_key.len() < len_max()
        &&& v.symmetric_key.len() < len_max()
    }

    fn enc(&self, out: &mut Vec<u8>) {
        enc_bytes_v(&self.public_key.bytes, out);
        enc_bytes_v(&self.symmetric_key, out);
        proof {
            assert(out@ =~= old(out)@ + Self::spec_enc(self@));
        }
    }

    fn dec(buf: &Vec<u8>, pos: usize) -> (r: Option<(Self, usize)>) {
        let (pk, i1) = match dec_bytes_v(buf, pos) {
            Some(p) => p,
            None => {
                return None;
            },
        };
        let (symmetric_key, i2) = match dec_bytes_v(buf, i1) {
            Some(p) => p,
            None => {
                return None;
            },
        };
        let kp = DocumentKeyPair { public_key: PublicKey { bytes: pk }, symmetric_key };
        proof {
            assert(kp@ =~= Self::spec_dec(buf@, pos as int).unwrap().0);
        }
        Some((kp, i2))
    }

    proof fn lemma_dec_enc(v: DocumentKeyPairV, s: Seq<u8>, i: int) {
        crate::codec::lemma_prim_lens();
        let e1 = enc_bytes(v.public_key);
        let e2 = enc_bytes(v.symmetric_key);
        lemma_split_prefix(s, i, e1, e2);
        lemma_dec_enc_bytes(v.public_key, s, i);
        lemma_dec_enc_bytes(v.symmetric_key, s, i + e1.len() as int);
        assert(Self::spec_dec(s, i).unwrap().0 =~= v);
    }
}

// ------------------------------------------------------------------
// Document content
// ------------------------------------------------------------------

/// The encoding of a document payload: a tag byte, then the plaintext, or
/// the nonce, ciphertext and wrapped keys.
pub open spec fn enc_content(v: DocumentContentV) -> Seq<u8> {
    match v {
        DocumentContentV::Plaintext(d) => enc_u8(0) + enc_bytes(d),
        DocumentContentV::Encrypted { nonce, data, keys } => enc_u8(1) + (enc_bytes(nonce) + (
        enc_bytes(data) + spec_enc_list::<DocumentKeyPair>(keys))),
    }
}

impl Wire for DocumentContent {
    open spec fn spec_enc(v: DocumentContentV) -> Seq<u8> {
        enc_content(v)
    }

    open spec fn spec_dec(s: Seq<u8>, i: int) -> Option<(DocumentContentV, int)> {
        match dec_u8(s, i) {
            Some((tag, i0)) => {
                if tag == 0 {
                    match dec_bytes(s, i0) {
                        Some((d, i1)) => Some((DocumentContentV::Plaintext(d), i1)),
                        None => None,
                    }
                } else if tag == 1 {
                    match dec_bytes(s, i0) {
                        Some((nonce, i1)) => match dec_bytes(s, i1) {
                            Some((data, i2)) => match spec_dec_list::<DocumentKeyPair>(s, i2) {
                                Some((keys, i3)) => Some(
                                    (DocumentContentV::Encrypted { nonce, data, keys }, i3),
                                ),
                                None => None,
                            },
                            None => None,
                        },
                        None => None,
                    }
                } else {
                    None
                }
            },
            None => None,
        }
    }

    open spec fn wire_wf(v: DocumentContentV) -> bool {
        match v {
            DocumentContentV::Plaintext(d) => d.len() < len_max(),
            DocumentContentV::Encrypted { nonce, data, keys } => {
                &&& nonce.len() < len_max()
                &&& data.len() < len_max()
                &&& list_wf::<DocumentKeyPair>(keys)
            },
        }
    }

    fn enc(&self, out: &mut Vec<u8>) {
        match self {
            DocumentContent::Plaintext(d) => {
                enc_u8_v(0, out);
                enc_bytes_v(d, out);
            },
            DocumentContent::Encrypted { data, keys } => {
                enc_u8_v(1, out);
                enc_bytes_v(&data.nonce, out);
                enc_bytes_v(&data.data, out);
                enc_list_v::<DocumentKeyPair>(keys, out);
                proof {
                    assert(seq_views(keys@) =~= keys@.map_values(|p: DocumentKeyPair| p@));
                }
            },
        }
        proof {
            assert(out@ =~= old(out)@ + Self::spec_enc(self@));
        }
    }

    fn dec(buf: &Vec<u8>, pos: usize) -> (r: Option<(Self, usize)>) {
        let (tag, i0) = match dec_u8_v(buf, pos) {
            Some(p) => p,
            None => {
                return None;
            },
        };
        if tag == 0 {
            match dec_bytes_v(buf, i0) {
                Some((d, i1)) => Some((DocumentContent::Plaintext(d), i1)),
                None => None,
            }
        } else if tag == 1 {
            let (nonce, i1) = match dec_bytes_v(buf, i0) {
                Some(p) => p,
                None => {
                    return None;
                },
            };
            let (data, i2) = match dec_bytes_v(buf, i1) {
                Some(p) => p,
                None => {
                    return None;
                },
            };
            let (keys, i3) = match dec_list_v::<DocumentKeyPair>(buf, i2) {
                Some(p) => p,
                None => {
                    return None;
                },
            };
            let c = DocumentContent::Encrypted {
                data: crate::crypto::SymmetricData { nonce, data },
                keys,
            };
            proof {
                assert(c@ =~= Self::spec_dec(buf@, pos as int).unwrap().0);
            }
            Some((c, i3))
        } else {
            None
        }
    }

    proof fn lemma_dec_enc(v: DocumentContentV, s: Seq<u8>, i: int) {
        crate::codec::lemma_prim_lens();
        match v {
            DocumentContentV::Plaintext(d) => {
                let e1 = enc_u8(0);
                let e2 = enc_bytes(d);
                lemma_split_prefix(s, i, e1, e2);
                lemma_dec_enc_u8(0, s, i);
                lemma_dec_enc_bytes(d, s, i + 1);
                assert(Self::spec_dec(s, i).unwrap().0 =~= v);
            },
            DocumentContentV::Encrypted { nonce, data, keys } => {
                let e1 = enc_u8(1);
                let e2 = enc_bytes(nonce);
                let e3 = enc_bytes(data);
                let e4 = spec_enc_list::<DocumentKeyPair>(keys);
                lemma_split_prefix(s, i, e1, e2 + (e3 + e4));
                lemma_dec_enc_u8(1, s, i);
                let i1 = i + 1;
                lemma_split_prefix(s, i1, e2, e3 + e4);
                lemma_dec_enc_bytes(nonce, s, i1);
                let i2 = i1 + e2.len() as int;
                lemma_split_prefix(s, i2, e3, e4);
                lemma_dec_enc_bytes(data, s, i2);
                let i3 = i2 + e3.len() as int;
                lemma_dec_enc_list::<DocumentKeyPair>(keys, s, i3);
                assert(Self::spec_dec(s, i).unwrap().0 =~= v);
            },
        }
    }
}

// ------------------------------------------------------------------
// Randomness anchors
// ------------------------------------------------------------------

/// The encoding of a document's randomness anchor.
pub open spec fn enc_drand(v: DocumentDrandV) -> Seq<u8> {
    enc_str(v.chain) + (enc_beacon(v.beacon) + enc_u8(scheme_tag(v.scheme)))
}

impl Wire for DocumentDrand {
    open spec fn spec_enc(v: DocumentDrandV) -> Seq<u8> {
        enc_drand(v)
    }

    open spec fn spec_dec(s: Seq<u8>, i: int) -> Option<(DocumentDrandV, int)> {
        match dec_str(s, i) {
            Some((chain, i1)) => match <Beacon as Wire>::spec_dec(s, i1) {
                Some((beacon, i2)) => match <SchemeId as Wire>::spec_dec(s, i2) {
                    Some((scheme, i3)) => Some((DocumentDrandV { chain, beacon, scheme }, i3)),
                    None => None,
                },
                None => None,
            },
            None => None,
        }
    }

    open spec fn wire_wf(v: DocumentDrandV) -> bool {
        &&& encode_utf8(v.chain).len() < len_max()
        &&& <Beacon as Wire>::wire_wf(v.beacon)
    }

    fn enc(&self, out: &mut Vec<u8>) {
        enc_str_v(&self.chain, out);
        self.beacon.enc(out);
        self.scheme.enc(out);
        proof {
            assert(out@ =~= old(out)@ + Self::spec_enc(self@));
        }
    }

    fn dec(buf: &Vec<u8>, pos: usize) -> (r: Option<(Self, usize)>) {
        let (chain, i1) = match dec_str_v(buf, pos) {
            Some(p) => p,
            None => {
                return None;
            },
        };
        let (beacon, i2) = match <Beacon as Wire>::dec(buf, i1) {
            Some(p) => p,
            None => {
                return None;
            },
        };
        let (scheme, i3) = match <SchemeId as Wire>::dec(buf, i2) {
            Some(p) => p,
            None => {
                return None;
            },
        };
        let d = DocumentDrand { chain, beacon, scheme };
        proof {
            assert(d@ =~= Self::spec_dec(buf@, pos as int).unwrap().0);
        }
        Some((d, i3))
    }

    proof fn lemma_dec_enc(v: DocumentDrandV, s: Seq<u8>, i: int) {
        crate::codec::lemma_prim_lens();
        let e1 = enc_str(v.chain);
        let e2 = enc_beacon(v.beacon);
        let e3 = enc_u8(scheme_tag(v.scheme));
        lemma_split_prefix(s, i, e1, e2 + e3);
        lemma_dec_enc_str(v.chain, s, i);
        let i1 = i + e1.len() as int;
        lemma_split_prefix(s, i1, e2, e3);
        <Beacon as Wire>::lemma_dec_enc(v.beacon, s, i1);
        let i2 = i1 + e2.len() as int;
        <SchemeId as Wire>::lemma_dec_enc(v.scheme, s, i2);
        assert(Self::spec_dec(s, i).unwrap().0 =~= v);
    }
}

// ------------------------------------------------------------------
// Documents
// ------------------------------------------------------------------

/// The encoding of a document's fields.
pub open spec fn enc_document(v: DocumentV) -> Seq<u8> {
    enc_document_id(v.id) + (enc_str(v.topic) + (enc_content(v.content) + (enc_u8(
        v.crypto_difficulty,
    ) + (enc_u32(v.nonce_solution) + enc_drand(v.drand)))))
}

impl Wire for Document {
    open spec fn spec_enc(v: DocumentV) -> Seq<u8> {
        enc_document(v)
    }

    open spec fn spec_dec(s: Seq<u8>, i: int) -> Option<(DocumentV, int)> {
        match <DocumentId as Wire>::spec_dec(s, i) {
            Some((id, i1)) => match dec_str(s, i1) {
                Some((topic, i2)) => match <DocumentContent as Wire>::spec_dec(s, i2) {
                    Some((content, i3)) => match dec_u8(s, i3) {
                        Some((crypto_difficulty, i4)) => match dec_u32(s, i4) {
                            Some((nonce_solution, i5)) => match <DocumentDrand as Wire>::spec_dec(
                                s,
                                i5,
                            ) {
                                Some((drand, i6)) => Some(
                                    (
                                        DocumentV {
                                            id,
                                            topic,
                                            content,
                                            crypto_difficulty,
                                            nonce_solution,
                                            drand,
                                        },
                                        i6,
                                    ),
                                ),
                                None => None,
                            },
                            None => None,
                        },
                        None => None,
                    },
                    None => None,
                },
                None => None,
            },
            None => None,
        }
    }

    open spec fn wire_wf(v: DocumentV) -> bool {
        &&& <DocumentId as Wire>::wire_wf(v.id)
        &&& encode_utf8(v.topic).len() < len_max()
        &&& <DocumentContent as Wire>::wire_wf(v.content)
        &&& <DocumentDrand as Wire>::wire_wf(v.drand)
    }

    fn enc(&self, out: &mut Vec<u8>) {
        self.id.enc(out);
        enc_str_v(&self.topic, out);
        self.content.enc(out);
        enc_u8_v(self.crypto_difficulty, out);
        enc_u32_v(self.nonce_solution, out);
        self.drand.enc(out);
        proof {
            assert(out@ =~= old(out)@ + Self::spec_enc(self@));
        }
    }

    fn dec(buf: &Vec<u8>, pos: usize) -> (r: Option<(Self, usize)>) {
        let (id, i1) = match <DocumentId as Wire>::dec(buf, pos) {
            Some(p) => p,
            None => {
                return None;
            },
        };
        let (topic, i2) = match dec_str_v(buf, i1) {
            Some(p) => p,
            None => {
                return None;
            },
        };
        let (content, i3) = match <DocumentContent as Wire>::dec(buf, i2) {
            Some(p) => p,
            None => {
                return None;
            },
        };
        let (crypto_difficulty, i4) = match dec_u8_v(buf, i3) {
            Some(p) => p,
            None => {
                return None;
            },
        };
        let (nonce_solution, i5) = match dec_u32_v(buf, i4) {
            Some(p) => p,
            None => {
                return None;
            },
        };
        let (drand, i6) = match <DocumentDrand as Wire>::dec(buf, i5) {
            Some(p) => p,
            None => {
                return None;
            },
        };
        let d = Document { id, topic, content, crypto_difficulty, nonce_solution, drand };
        proof {
            assert(d@ =~= Self::spec_dec(buf@, pos as int).unwrap().0);
        }
        Some((d, i6))
    }

    proof fn lemma_dec_enc(v: DocumentV, s: Seq<u8>, i: int) {
        crate::codec::lemma_prim_lens();
        let e1 = enc_document_id(v.id);
        let e2 = enc_str(v.topic);
        let e3 = enc_content(v.content);
        let e4 = enc_u8(v.crypto_difficulty);
        let e5 = enc_u32(v.nonce_solution);
        let e6 = enc_drand(v.drand);
        lemma_split_prefix(s, i, e1, e2 + (e3 + (e4 + (e5 + e6))));
        <DocumentId as Wire>::lemma_dec_enc(v.id, s, i);
        let i1 = i + e1.len() as int;
        lemma_split_prefix(s, i1, e2, e3 + (e4 + (e5 + e6)));
        lemma_dec_enc_str(v.topic, s, i1);
        let i2 = i1 + e2.len() as int;
        lemma_split_prefix(s, i2, e3, e4 + (e5 + e6));
        <DocumentContent as Wire>::lemma_dec_enc(v.content, s, i2);
        let i3 = i2 + e3.len() as int;
        lemma_split_prefix(s, i3, e4, e5 + e6);
        lemma_dec_enc_u8(v.crypto_difficulty, s, i3);
        let i4 = i3 + 1;
        lemma_split_prefix(s, i4, e5, e6);
        lemma_dec_enc_u32(v.nonce_solution, s, i4);
        let i5 = i4 + 4;
        <DocumentDrand as Wire>::lemma_dec_enc(v.drand, s, i5);
        assert(Self::spec_dec(s, i).unwrap().0 =~= v);
    }
}

// ------------------------------------------------------------------
// Envelope signatures
// ------------------------------------------------------------------

/// The encoding of an envelope signature: a tag byte, then the key and
/// signature bytes, or the ring signature.
pub open spec fn enc_signature(v: SignatureV) -> Seq<u8> {
    match v {
        SignatureV::Asymmetric { key, signature } => enc_u8(0) + (enc_bytes(key) + enc_bytes(
            signature,
        )),
        SignatureV::RingAsymmetric { signature } => enc_u8(1) + enc_ring_signature(signature),
    }
}

impl Wire for Signature {
    open spec fn spec_enc(v: SignatureV) -> Seq<u8> {
        enc_signature(v)
    }

    open spec fn spec_dec(s: Seq<u8>, i: int) -> Option<(SignatureV, int)> {
        match dec_u8(s, i) {
            Some((tag, i0)) => {
                if tag == 0 {
                    match dec_bytes(s, i0) {
                        Some((key, i1)) => match dec_bytes(s, i1) {
                            Some((signature, i2)) => Some(
                                (SignatureV::Asymmetric { key, signature }, i2),
                            ),
                            None => None,
                        },
                        None => None,
                    }
                } else if tag == 1 {
                    match <RingSignature as Wire>::spec_dec(s, i0) {
                        Some((signature, i1)) => Some(
                            (SignatureV::RingAsymmetric { signature }, i1),
                        ),
                        None => None,
                    }
                } else {
                    None
                }
            },
            None => None,
        }
    }

    open spec fn wire_wf(v: SignatureV) -> bool {
        match v {
            SignatureV::Asymmetric { key, signature } => key.len() < len_max() && signature.len()
                < len_max(),
            SignatureV::RingAsymmetric { signature } => <RingSignature as Wire>::wire_wf(
                signature,
            ),
        }
    }

    fn enc(&self, out: &mut Vec<u8>) {
        match self {
            Signature::Asymmetric { key, signature } => {
                enc_u8_v(0, out);
                enc_bytes_v(&key.bytes, out);
                enc_bytes_v(&signature.bytes, out);
            },
            Signature::RingAsymmetric { signature } => {
                enc_u8_v(1, out);
                signature.enc(out);
            },
        }
        proof {
            assert(out@ =~= old(out)@ + Self::spec_enc(self@));
        }
    }

    fn dec(buf: &Vec<u8>, pos: usize) -> (r: Option<(Self, usize)>) {
        let (tag, i0) = match dec_u8_v(buf, pos) {
            Some(p) => p,
            None => {
                return None;
            },
        };
        if tag == 0 {
            let (key, i1) = match dec_bytes_v(buf, i0) {
                Some(p) => p,
                None => {
                    return None;
                },
            };
            let (sig, i2) = match dec_bytes_v(buf, i1) {
                Some(p) => p,
                None => {
                    return None;
                },
            };
            let v = Signature::Asymmetric {
                key: PublicKey { bytes: key },
                signature: crate::crypto::Signature { bytes: sig },
            };
            proof {
                assert(v@ =~= Self::spec_dec(buf@, pos as int).unwrap().0);
            }
            Some((v, i2))
        } else if tag == 1 {
            let (signature, i1) = match <RingSignature as Wire>::dec(buf, i0) {
                Some(p) => p,
                None => {
                    return None;
                },
            };
            let v = Signature::RingAsymmetric { signature };
            proof {
                assert(v@ =~= Self::spec_dec(buf@, pos as int).unwrap().0);
            }
            Some((v, i1))
        } else {
            None
        }
    }

    proof fn lemma_dec_enc(v: SignatureV, s: Seq<u8>, i: int) {
        crate::codec::lemma_prim_lens();
        match v {
            SignatureV::Asymmetric { key, signature } => {
                let e1 = enc_u8(0);
                let e2 = enc_bytes(key);
                let e3 = enc_bytes(signature);
                lemma_split_prefix(s, i, e1, e2 + e3);
                lemma_dec_enc_u8(0, s, i);
                lemma_split_prefix(s, i + 1, e2, e3);
                lemma_dec_enc_bytes(key, s, i + 1);
                lemma_dec_enc_bytes(signature, s, i + 1 + e2.len() as int);
                assert(Self::spec_dec(s, i).unwrap().0 =~= v);
            },
            SignatureV::RingAsymmetric { signature } => {
                let e1 = enc_u8(1);
                let e2 = enc_ring_signature(signature);
                lemma_split_prefix(s, i, e1, e2);
                lemma_dec_enc_u8(1, s, i);
                <RingSignature as Wire>::lemma_dec_enc(signature, s, i + 1);
                assert(Self::spec_dec(s, i).unwrap().0 =~= v);
            },
        }
    }
}

// ------------------------------------------------------------------
// Envelopes
// ------------------------------------------------------------------

impl<T: Wire> Wire for Signed<T> {
    open spec fn spec_enc(v: SignedV<T::V>) -> Seq<u8> {
        T::spec_enc(v.content) + enc_signature(v.signature)
    }

    open spec fn spec_dec(s: Seq<u8>, i: int) -> Option<(SignedV<T::V>, int)> {
        match T::spec_dec(s, i) {
            Some((content, i1)) => match <Signature as Wire>::spec_dec(s, i1) {
                Some((signature, i2)) => Some((SignedV { content, signature }, i2)),
                None => None,
            },
            None => None,
        }
    }

    open spec fn wire_wf(v: SignedV<T::V>) -> bool {
        &&& T::wire_wf(v.content)
        &&& <Signature as Wire>::wire_wf(v.signature)
    }

    fn enc(&self, out: &mut Vec<u8>) {
        self.content.enc(out);
        self.signature.enc(out);
        proof {
            assert(out@ =~= old(out)@ + Self::spec_enc(self@));
        }
    }

    fn dec(buf: &Vec<u8>, pos: usize) -> (r: Option<(Self, usize)>) {
        let (content, i1) = match T::dec(buf, pos) {
            Some(p) => p,
            None => {
                return None;
            },
        };
        let (signature, i2) = match <Signature as Wire>::dec(buf, i1) {
            Some(p) => p,
            None => {
                return None;
            },
        };
        let v = Signed { content, signature };
        proof {
            assert(v@ =~= Self::spec_dec(buf@, pos as int).unwrap().0);
        }
        Some((v, i2))
    }

    proof fn lemma_dec_enc(v: SignedV<T::V>, s: Seq<u8>, i: int) {
        let e1 = T::spec_enc(v.content);
        let e2 = enc_signature(v.signature);
        lemma_split_prefix(s, i, e1, e2);
        T::lemma_dec_enc(v.content, s, i);
        <Signature as Wire>::lemma_dec_enc(v.signature, s, i + e1.len() as int);
        assert(Self::spec_dec(s, i).unwrap().0 =~= v);
    }
}

// ------------------------------------------------------------------
// Protocol requests and responses
// ------------------------------------------------------------------

/// The encoding of a document-id request.
pub open spec fn enc_retrieve_document_ids(v: RetrieveDocumentIdsV) -> Seq<u8> {
    enc_str(v.topic) + (enc_u64(v.since_round) + (enc_beacon(v.beacon) + (enc_str(v.chain)
        + enc_u32(v.nonce_solution))))
}

impl Wire for RetrieveDocumentIds {
    open spec fn spec_enc(v: RetrieveDocumentIdsV) -> Seq<u8> {
        enc_retrieve_document_ids(v)
    }

    open spec fn spec_dec(s: Seq<u8>, i: int) -> Option<(RetrieveDocumentIdsV, int)> {
        match dec_str(s, i) {
            Some((topic, i1)) => match dec_u64(s, i1) {
                Some((since_round, i2)) => match <Beacon as Wire>::spec_dec(s, i2) {
                    Some((beacon, i3)) => match dec_str(s, i3) {
                        Some((chain, i4)) => match dec_u32(s, i4) {
                            Some((nonce_solution, i5)) => Some(
                                (
                                    RetrieveDocumentIdsV {
                                        topic,
                                        since_round,
                                        beacon,
                                        chain,
                                        nonce_solution,
                                    },
                                    i5,
                                ),
                            ),
                            None => None,
                        },
                        None => None,
                    },
                    None => None,
                },
                None => None,
            },
            None => None,
        }
    }

    open spec fn wire_wf(v: RetrieveDocumentIdsV) -> bool {
        &&& encode_utf8(v.topic).len() < len_max()
        &&& <Beacon as Wire>::wire_wf(v.beacon)
        &&& encode_utf8(v.chain).len() < len_max()
    }

    fn enc(&self, out: &mut Vec<u8>) {
        enc_str_v(&self.topic, out);
        enc_u64_v(self.since_round, out);
        self.beacon.enc(out);
        enc_str_v(&self.chain, out);
        enc_u32_v(self.nonce_solution, out);
        proof {
            assert(out@ =~= old(out)@ + Self::spec_enc(self@));
        }
    }

    fn dec(buf: &Vec<u8>, pos: usize) -> (r: Option<(Self, usize)>) {
        let (topic, i1) = match dec_str_v(buf, pos) {
            Some(p) => p,
            None => {
                return None;
            },
        };
        let (since_round, i2) = match dec_u64_v(buf, i1) {
            Some(p) => p,
            None => {
                return None;
            },
        };
        let (beacon, i3) = match <Beacon as Wire>::dec(buf, i2) {
            Some(p) => p,
            None => {
                return None;
            },
        };
        let (chain, i4) = match dec_str_v(buf, i3) {
            Some(p) => p,
            None => {
                return None;
            },
        };
        let (nonce_solution, i5) = match dec_u32_v(buf, i4) {
            Some(p) => p,
            None => {
                return None;
            },
        };
        let v = RetrieveDocumentIds { topic, since_round, beacon, chain, nonce_solution };
        proof {
            assert(v@ =~= Self::spec_dec(buf@, pos as int).unwrap().0);
        }
        Some((v, i5))
    }

    proof fn lemma_dec_enc(v: RetrieveDocumentIdsV, s: Seq<u8>, i: int) {
        crate::codec::lemma_prim_lens();
        let e1 = enc_str(v.topic);
        let e2 = enc_u64(v.since_round);
        let e3 = enc_beacon(v.beacon);
        let e4 = enc_str(v.chain);
        let e5 = enc_u32(v.nonce_solution);
        lemma_split_prefix(s, i, e1, e2 + (e3 + (e4 + e5)));
        lemma_dec_enc_str(v.topic, s, i);
        let i1 = i + e1.len() as int;
        lemma_split_prefix(s, i1, e2, e3 + (e4 + e5));
        lemma_dec_enc_u64(v.since_round, s, i1);
        let i2 = i1 + 8;
        lemma_split_prefix(s, i2, e3, e4 + e5);
        <Beacon as Wire>::lemma_dec_enc(v.beacon, s, i2);
        let i3 = i2 + e3.len() as int;
        lemma_split_prefix(s, i3, e4, e5);
        lemma_dec_enc_str(v.chain, s, i3);
        let i4 = i3 + e4.len() as int;
        lemma_dec_enc_u32(v.nonce_solution, s, i4);
        assert(Self::spec_dec(s, i).unwrap().0 =~= v);
    }
}

/// The encoding of a document fetch request.
pub open spec fn enc_retrieve_documents(v: RetrieveDocumentsV) -> Seq<u8> {
    spec_enc_list::<DocumentId>(v.message_ids) + (enc_beacon(v.beacon) + (enc_str(v.chain)
        + enc_u32(v.nonce_solution)))
}

impl Wire for RetrieveDocuments {
    open spec fn spec_enc(v: RetrieveDocumentsV) -> Seq<u8> {
        enc_retrieve_documents(v)
    }

    open spec fn spec_dec(s: Seq<u8>, i: int) -> Option<(RetrieveDocumentsV, int)> {
        match spec_dec_list::<DocumentId>(s, i) {
            Some((message_ids, i1)) => match <Beacon as Wire>::spec_dec(s, i1) {
                Some((beacon, i2)) => match dec_str(s, i2) {
                    Some((chain, i3)) => match dec_u32(s, i3) {
                        Some((nonce_solution, i4)) => Some(
                            (RetrieveDocumentsV { message_ids, beacon, chain, nonce_solution }, i4),
                        ),
                        None => None,
                    },
                    None => None,
                },
                None => None,
            },
            None => None,
        }
    }

    open spec fn wire_wf(v: RetrieveDocumentsV) -> bool {
        &&& list_wf::<DocumentId>(v.message_ids)
        &&& <Beacon as Wire>::wire_wf(v.beacon)
        &&& encode_utf8(v.chain).len() < len_max()
    }

    fn enc(&self, out: &mut Vec<u8>) {
        enc_list_v::<DocumentId>(&self.message_ids, out);
        self.beacon.enc(out);
        enc_str_v(&self.chain, out);
        enc_u32_v(self.nonce_solution, out);
        proof {
            assert(seq_views(self.message_ids@) =~= self.message_ids@.map_values(
                |d: DocumentId| d@,
            ));
            assert(out@ =~= old(out)@ + Self::spec_enc(self@));
        }
    }

    fn dec(buf: &Vec<u8>, pos: usize) -> (r: Option<(Self, usize)>) {
        let (message_ids, i1) = match dec_list_v::<DocumentId>(buf, pos) {
            Some(p) => p,
            None => {
                return None;
            },
        };
        let (beacon, i2) = match <Beacon as Wire>::dec(buf, i1) {
            Some(p) => p,
            None => {
                return None;
            },
        };
        let (chain, i3) = match dec_str_v(buf, i2) {
            Some(p) => p,
            None => {
                return None;
            },
        };
        let (nonce_solution, i4) = match dec_u32_v(buf, i3) {
            Some(p) => p,
            None => {
                return None;
            },
        };
        let v = RetrieveDocuments { message_ids, beacon, chain, nonce_solution };
        proof {
            assert(seq_views(v.message_ids@) =~= v.message_ids@.map_values(|d: DocumentId| d@));
            assert(v@ =~= Self::spec_dec(buf@, pos as int).unwrap().0);
        }
        Some((v, i4))
    }

    proof fn lemma_dec_enc(v: RetrieveDocumentsV, s: Seq<u8>, i: int) {
        crate::codec::lemma_prim_lens();
        let e1 = spec_enc_list::<DocumentId>(v.message_ids);
        let e2 = enc_beacon(v.beacon);
        let e3 = enc_str(v.chain);
        let e4 = enc_u32(v.nonce_solution);
        lemma_split_prefix(s, i, e1, e2 + (e3 + e4));
        lemma_dec_enc_list::<DocumentId>(v.message_ids, s, i);
        let i1 = i + e1.len() as int;
        lemma_split_prefix(s, i1, e2, e3 + e4);
        <Beacon as Wire>::lemma_dec_enc(v.beacon, s, i1);
        let i2 = i1 + e2.len() as int;
        lemma_split_prefix(s, i2, e3, e4);
        lemma_dec_enc_str(v.chain, s, i2);
        let i3 = i2 + e3.len() as int;
        lemma_dec_enc_u32(v.nonce_solution, s, i3);
        assert(Self::spec_dec(s, i).unwrap().0 =~= v);
    }
}

/// The encoding of an allowed-keys update.
pub open spec fn enc_update_allowed_keys(v: UpdateAllowedKeysV) -> Seq<u8> {
    spec_enc_list::<RingPublicKey>(v.allowed_sender_keys) + (spec_enc_list::<PublicKey>(
        v.allowed_receiver_keys,
    ) + enc_beacon(v.beacon))
}

impl Wire for UpdateAllowedKeys {
    open spec fn spec_enc(v: UpdateAllowedKeysV) -> Seq<u8> {
        enc_update_allowed_keys(v)
    }

    open spec fn spec_dec(s: Seq<u8>, i: int) -> Option<(UpdateAllowedKeysV, int)> {
        match spec_dec_list::<RingPublicKey>(s, i) {
            Some((allowed_sender_keys, i1)) => match spec_dec_list::<PublicKey>(s, i1) {
                Some((allowed_receiver_keys, i2)) => match <Beacon as Wire>::spec_dec(s, i2) {
                    Some((beacon, i3)) => Some(
                        (
                            UpdateAllowedKeysV {
                                allowed_sender_keys,
                                allowed_receiver_keys,
                                beacon,
                            },
                            i3,
                        ),
                    ),
                    None => None,
                },
                None => None,
            },
            None => None,
        }
    }

    open spec fn wire_wf(v: UpdateAllowedKeysV) -> bool {
        &&& list_wf::<RingPublicKey>(v.allowed_sender_keys)
        &&& list_wf::<PublicKey>(v.allowed_receiver_keys)
        &&& <Beacon as Wire>::wire_wf(v.beacon)
    }

    fn enc(&self, out: &mut Vec<u8>) {
        enc_list_v::<RingPublicKey>(&self.allowed_sender_keys, out);
        enc_list_v::<PublicKey>(&self.allowed_receiver_keys, out);
        self.beacon.enc(out);
        proof {
            assert(seq_views(self.allowed_sender_keys@) =~= ring_bytes(self.allowed_sender_keys@));
            assert(seq_views(self.allowed_receiver_keys@) =~= self.allowed_receiver_keys@
                .map_values(|k: PublicKey| k@));
            assert(out@ =~= old(out)@ + Self::spec_enc(self@));
        }
    }

    fn dec(buf: &Vec<u8>, pos: usize) -> (r: Option<(Self, usize)>) {
        let (allowed_sender_keys, i1) = match dec_list_v::<RingPublicKey>(buf, pos) {
            Some(p) => p,
            None => {
                return None;
            },
        };
        let (allowed_receiver_keys, i2) = match dec_list_v::<PublicKey>(buf, i1) {
            Some(p) => p,
            None => {
                return None;
            },
        };
        let (beacon, i3) = match <Beacon as Wire>::dec(buf, i2) {
            Some(p) => p,
            None => {
                return None;
            },
        };
        let v = UpdateAllowedKeys { allowed_sender_keys, allowed_receiver_keys, beacon };
        proof {
            assert(seq_views(v.allowed_sender_keys@) =~= ring_bytes(v.allowed_sender_keys@));
            assert(seq_views(v.allowed_receiver_keys@) =~= v.allowed_receiver_keys@.map_values(
                |k: PublicKey| k@,
            ));
            assert(v@ =~= Self::spec_dec(buf@, pos as int).unwrap().0);
        }
        Some((v, i3))
    }

    proof fn lemma_dec_enc(v: UpdateAllowedKeysV, s: Seq<u8>, i: int) {
        crate::codec::lemma_prim_lens();
        let e1 = spec_enc_list::<RingPublicKey>(v.allowed_sender_keys);
        let e2 = spec_enc_list::<PublicKey>(v.allowed_receiver_keys);
        let e3 = enc_beacon(v.beacon);
        lemma_split_prefix(s, i, e1, e2 + e3);
        lemma_dec_enc_list::<RingPublicKey>(v.allowed_sender_keys, s, i);
        let i1 = i + e1.len() as int;
        lemma_split_prefix(s, i1, e2, e3);
        lemma_dec_enc_list::<PublicKey>(v.allowed_receiver_keys, s, i1);
        let i2 = i1 + e2.len() as int;
        <Beacon as Wire>::lemma_dec_enc(v.beacon, s, i2);
        assert(Self::spec_dec(s, i).unwrap().0 =~= v);
    }
}

/// The encoding of a publish request.
pub open spec fn enc_publish_document(v: PublishDocumentV) -> Seq<u8> {
    <Signed<Document> as Wire>::spec_enc(v.document)
}

impl Wire for PublishDocument {
    open spec fn spec_enc(v: PublishDocumentV) -> Seq<u8> {
        enc_publish_document(v)
    }

    open spec fn spec_dec(s: Seq<u8>, i: int) -> Option<(PublishDocumentV, int)> {
        match <Signed<Document> as Wire>::spec_dec(s, i) {
            Some((document, i1)) => Some((PublishDocumentV { document }, i1)),
            None => None,
        }
    }

    open spec fn wire_wf(v: PublishDocumentV) -> bool {
        <Signed<Document> as Wire>::wire_wf(v.document)
    }

    fn enc(&self, out: &mut Vec<u8>) {
        self.document.enc(out);
    }

    fn dec(buf: &Vec<u8>, pos: usize) -> (r: Option<(Self, usize)>) {
        match <Signed<Document> as Wire>::dec(buf, pos) {
            Some((document, i1)) => Some((PublishDocument { document }, i1)),
            None => None,
        }
    }

    proof fn lemma_dec_enc(v: PublishDocumentV, s: Seq<u8>, i: int) {
        <Signed<Document> as Wire>::lemma_dec_enc(v.document, s, i);
        assert(Self::spec_dec(s, i).unwrap().0 =~= v);
    }
}

/// The encoding of an optional allowed-keys envelope.
pub open spec fn enc_opt_update(v: Option<SignedV<UpdateAllowedKeysV>>) -> Seq<u8> {
    match v {
        None => enc_u8(0),
        Some(u) => enc_u8(1) + <Signed<UpdateAllowedKeys> as Wire>::spec_enc(u),
    }
}

/// The encoding of a document-id response.
pub open spec fn enc_document_id_list(v: DocumentIdListV) -> Seq<u8> {
    spec_enc_list::<DocumentId>(v.message_ids) + enc_opt_update(v.allowed_sender_keys)
}

impl Wire for DocumentIdList {
    open spec fn spec_enc(v: DocumentIdListV) -> Seq<u8> {
        enc_document_id_list(v)
    }

    open spec fn spec_dec(s: Seq<u8>, i: int) -> Option<(DocumentIdListV, int)> {
        match spec_dec_list::<DocumentId>(s, i) {
            Some((message_ids, i1)) => match dec_u8(s, i1) {
                Some((tag, i2)) => {
                    if tag == 0 {
                        Some((DocumentIdListV { message_ids, allowed_sender_keys: None }, i2))
                    } else if tag == 1 {
                        match <Signed<UpdateAllowedKeys> as Wire>::spec_dec(s, i2) {
                            Some((u, i3)) => Some(
                                (
                                    DocumentIdListV {
                                        message_ids,
                                        allowed_sender_keys: Some(u),
                                    },
                                    i3,
                                ),
                            ),
                            None => None,
                        }
                    } else {
                        None
                    }
                },
                None => None,
            },
            None => None,
        }
    }

    open spec fn wire_wf(v: DocumentIdListV) -> bool {
        &&& list_wf::<DocumentId>(v.message_ids)
        &&& match v.allowed_sender_keys {
            Some(u) => <Signed<UpdateAllowedKeys> as Wire>::wire_wf(u),
            None => true,
        }
    }

    fn enc(&self, out: &mut Vec<u8>) {
        enc_list_v::<DocumentId>(&self.message_ids, out);
        match &self.allowed_sender_keys {
            None => enc_u8_v(0, out),
            Some(u) => {
                enc_u8_v(1, out);
                u.enc(out);
            },
        }
        proof {
            assert(seq_views(self.message_ids@) =~= self.message_ids@.map_values(
                |d: DocumentId| d@,
            ));
            assert(out@ =~= old(out)@ + Self::spec_enc(self@));
        }
    }

    fn dec(buf: &Vec<u8>, pos: usize) -> (r: Option<(Self, usize)>) {
        let (message_ids, i1) = match dec_list_v::<DocumentId>(buf, pos) {
            Some(p) => p,
            None => {
                return None;
            },
        };
        let (tag, i2) = match dec_u8_v(buf, i1) {
            Some(p) => p,
            None => {
                return None;
            },
        };
        if tag == 0 {
            let v = DocumentIdList { message_ids, allowed_sender_keys: None };
            proof {
                assert(seq_views(v.message_ids@) =~= v.message_ids@.map_values(
                    |d: DocumentId| d@,
                ));
                assert(v@ =~= Self::spec_dec(buf@, pos as int).unwrap().0);
            }
            Some((v, i2))
        } else if tag == 1 {
            let (u, i3) = match <Signed<UpdateAllowedKeys> as Wire>::dec(buf, i2) {
                Some(p) => p,
                None => {
                    return None;
                },
            };
            let v = DocumentIdList { message_ids, allowed_sender_keys: Some(u) };
            proof {
                assert(seq_views(v.message_ids@) =~= v.message_ids@.map_values(
                    |d: DocumentId| d@,
                ));
                assert(v@ =~= Self::spec_dec(buf@, pos as int).unwrap().0);
            }
            Some((v, i3))
        } else {
            None
        }
    }

    proof fn lemma_dec_enc(v: DocumentIdListV, s: Seq<u8>, i: int) {
        crate::codec::lemma_prim_lens();
        let e1 = spec_enc_list::<DocumentId>(v.message_ids);
        let e2 = enc_opt_update(v.allowed_sender_keys);
        lemma_split_prefix(s, i, e1, e2);
        lemma_dec_enc_list::<DocumentId>(v.message_ids, s, i);
        let i1 = i + e1.len() as int;
        match v.allowed_sender_keys {
            None => {
                lemma_dec_enc_u8(0, s, i1);
            },
            Some(u) => {
                let t1 = enc_u8(1);
                let t2 = <Signed<UpdateAllowedKeys> as Wire>::spec_enc(u);
                lemma_split_prefix(s, i1, t1, t2);
                lemma_dec_enc_u8(1, s, i1);
                <Signed<UpdateAllowedKeys> as Wire>::lemma_dec_enc(u, s, i1 + 1);
            },
        }
        assert(Self::spec_dec(s, i).unwrap().0 =~= v);
    }
}

/// The encoding of a document response.
pub open spec fn enc_document_list(v: DocumentListV) -> Seq<u8> {
    spec_enc_list::<Signed<Document>>(v.documents)
}

impl Wire for DocumentList {
    open spec fn spec_enc(v: DocumentListV) -> Seq<u8> {
        enc_document_list(v)
    }

    open spec fn spec_dec(s: Seq<u8>, i: int) -> Option<(DocumentListV, int)> {
        match spec_dec_list::<Signed<Document>>(s, i) {
            Some((documents, i1)) => Some((DocumentListV { documents }, i1)),
            None => None,
        }
    }

    open spec fn wire_wf(v: DocumentListV) -> bool {
        list_wf::<Signed<Document>>(v.documents)
    }

    fn enc(&self, out: &mut Vec<u8>) {
        enc_list_v::<Signed<Document>>(&self.documents, out);
        proof {
            assert(seq_views(self.documents@) =~= self.documents@.map_values(
                |d: Signed<Document>| d@,
            ));
            assert(out@ =~= old(out)@ + Self::spec_enc(self@));
        }
    }

    fn dec(buf: &Vec<u8>, pos: usize) -> (r: Option<(Self, usize)>) {
        match dec_list_v::<Signed<Document>>(buf, pos) {
            Some((documents, i1)) => {
                let v = DocumentList { documents };
                proof {
                    assert(seq_views(v.documents@) =~= v.documents@.map_values(
                        |d: Signed<Document>| d@,
                    ));
                    assert(v@ =~= Self::spec_dec(buf@, pos as int).unwrap().0);
                }
                Some((v, i1))
            },
            None => None,
        }
    }

    proof fn lemma_dec_enc(v: DocumentListV, s: Seq<u8>, i: int) {
        lemma_dec_enc_list::<Signed<Document>>(v.documents, s, i);
        assert(Self::spec_dec(s, i).unwrap().0 =~= v);
    }
}

// ------------------------------------------------------------------
// Protocol messages
// ------------------------------------------------------------------

/// The tag byte of a message variant.
pub open spec fn message_tag(v: MessageV) -> u8 {
    match v {
        MessageV::Success => 0,
        MessageV::RetrieveDocumentIds(_) => 1,
        MessageV::RetrieveDocuments(_) => 2,
        MessageV::PublishDocument(_) => 3,
        MessageV::DocumentIdList(_) => 4,
        MessageV::DocumentList(_) => 5,
        MessageV::UpdateAllowedKeys(_) => 6,
        MessageV::RetrieveKeys => 7,
    }
}

/// The encoding of a protocol message: a tag byte and the variant payload.
pub open spec fn enc_message(v: MessageV) -> Seq<u8> {
    enc_u8(message_tag(v)) + match v {
        MessageV::Success => Seq::<u8>::empty(),
        MessageV::RetrieveDocumentIds(m) => enc_retrieve_document_ids(m),
        MessageV::RetrieveDocuments(m) => enc_retrieve_documents(m),
        MessageV::PublishDocument(m) => enc_publish_document(m),
        MessageV::DocumentIdList(m) => enc_document_id_list(m),
        MessageV::DocumentList(m) => enc_document_list(m),
        MessageV::UpdateAllowedKeys(m) => enc_update_allowed_keys(m),
        MessageV::RetrieveKeys => Seq::<u8>::empty(),
    }
}

impl Wire for Message {
    open spec fn spec_enc(v: MessageV) -> Seq<u8> {
        enc_message(v)
    }

    open spec fn spec_dec(s: Seq<u8>, i: int) -> Option<(MessageV, int)> {
        match dec_u8(s, i) {
            Some((tag, i0)) => {
                if tag == 0 {
                    Some((MessageV::Success, i0))
                } else if tag == 1 {
                    match <RetrieveDocumentIds as Wire>::spec_dec(s, i0) {
                        Some((m, i1)) => Some((MessageV::RetrieveDocumentIds(m), i1)),
                        None => None,
                    }
                } else if tag == 2 {
                    match <RetrieveDocuments as Wire>::spec_dec(s, i0) {
                        Some((m, i1)) => Some((MessageV::RetrieveDocuments(m), i1)),
                        None => None,
                    }
                } else if tag == 3 {
                    match <PublishDocument as Wire>::spec_dec(s, i0) {
                        Some((m, i1)) => Some((MessageV::PublishDocument(m), i1)),
                        None => None,
                    }
                } else if tag == 4 {
                    match <DocumentIdList as Wire>::spec_dec(s, i0) {
                        Some((m, i1)) => Some((MessageV::DocumentIdList(m), i1)),
                        None => None,
                    }
                } else if tag == 5 {
                    match <DocumentList as Wire>::spec_dec(s, i0) {
                        Some((m, i1)) => Some((MessageV::DocumentList(m), i1)),
                        None => None,
                    }
                } else if tag == 6 {
                    match <UpdateAllowedKeys as Wire>::spec_dec(s, i0) {
                        Some((m, i1)) => Some((MessageV::UpdateAllowedKeys(m), i1)),
                        None => None,
                    }
                } else if tag == 7 {
                    Some((MessageV::RetrieveKeys, i0))
                } else {
                    None
                }
            },
            None => None,
        }
    }

    open spec fn wire_wf(v: MessageV) -> bool {
        match v {
            MessageV::Success => true,
            MessageV::RetrieveDocumentIds(m) => <RetrieveDocumentIds as Wire>::wire_wf(m),
            MessageV::RetrieveDocuments(m) => <RetrieveDocuments as Wire>::wire_wf(m),
            MessageV::PublishDocument(m) => <PublishDocument as Wire>::wire_wf(m),
            MessageV::DocumentIdList(m) => <DocumentIdList as Wire>::wire_wf(m),
            MessageV::DocumentList(m) => <DocumentList as Wire>::wire_wf(m),
            MessageV::UpdateAllowedKeys(m) => <UpdateAllowedKeys as Wire>::wire_wf(m),
            MessageV::RetrieveKeys => true,
        }
    }

    fn enc(&self, out: &mut Vec<u8>) {
        match self {
            Message::Success => enc_u8_v(0, out),
            Message::RetrieveDocumentIds(m) => {
                enc_u8_v(1, out);
                m.enc(out);
            },
            Message::RetrieveDocuments(m) => {
                enc_u8_v(2, out);
                m.enc(out);
            },
            Message::PublishDocument(m) => {
                enc_u8_v(3, out);
                m.enc(out);
            },
            Message::DocumentIdList(m) => {
                enc_u8_v(4, out);
                m.enc(out);
            },
            Message::DocumentList(m) => {
                enc_u8_v(5, out);
                m.enc(out);
            },
            Message::UpdateAllowedKeys(m) => {
                enc_u8_v(6, out);
                m.enc(out);
            },
            Message::RetrieveKeys => enc_u8_v(7, out),
        }
        proof {
            assert(out@ =~= old(out)@ + Self::spec_enc(self@));
        }
    }

    fn dec(buf: &Vec<u8>, pos: usize) -> (r: Option<(Self, usize)>) {
        let (tag, i0) = match dec_u8_v(buf, pos) {
            Some(p) => p,
            None => {
                return None;
            },
        };
        if tag == 0 {
            Some((Message::Success, i0))
        } else if tag == 1 {
            match <RetrieveDocumentIds as Wire>::dec(buf, i0) {
                Some((m, i1)) => Some((Message::RetrieveDocumentIds(m), i1)),
                None => None,
            }
        } else if tag == 2 {
            match <RetrieveDocuments as Wire>::dec(buf, i0) {
                Some((m, i1)) => Some((Message::RetrieveDocuments(m), i1)),
                None => None,
            }
        } else if tag == 3 {
            match <PublishDocument as Wire>::dec(buf, i0) {
                Some((m, i1)) => Some((Message::PublishDocument(m), i1)),
                None => None,
            }
        } else if tag == 4 {
            match <DocumentIdList as Wire>::dec(buf, i0) {
                Some((m, i1)) => Some((Message::DocumentIdList(m), i1)),
                None => None,
            }
        } else if tag == 5 {
            match <DocumentList as Wire>::dec(buf, i0) {
                Some((m, i1)) => Some((Message::DocumentList(m), i1)),
                None => None,
            }
        } else if tag == 6 {
            match <UpdateAllowedKeys as Wire>::dec(buf, i0) {
                Some((m, i1)) => Some((Message::UpdateAllowedKeys(m), i1)),
                None => None,
            }
        } else if tag == 7 {
            Some((Message::RetrieveKeys, i0))
        } else {
            None
        }
    }

    proof fn lemma_dec_enc(v: MessageV, s: Seq<u8>, i: int) {
        crate::codec::lemma_prim_lens();
        let tag = message_tag(v);
        let body = match v {
            MessageV::Success => Seq::<u8>::empty(),
            MessageV::RetrieveDocumentIds(m) => enc_retrieve_document_ids(m),
            MessageV::RetrieveDocuments(m) => enc_retrieve_documents(m),
            MessageV::PublishDocument(m) => enc_publish_document(m),
            MessageV::DocumentIdList(m) => enc_document_id_list(m),
            MessageV::DocumentList(m) => enc_document_list(m),
            MessageV::UpdateAllowedKeys(m) => enc_update_allowed_keys(m),
            MessageV::RetrieveKeys => Seq::<u8>::empty(),
        };
        lemma_split_prefix(s, i, enc_u8(tag), body);
        lemma_dec_enc_u8(tag, s, i);
        let i0 = i + 1;
        match v {
            MessageV::Success => {},
            MessageV::RetrieveDocumentIds(m) => {
                <RetrieveDocumentIds as Wire>::lemma_dec_enc(m, s, i0);
            },
            MessageV::RetrieveDocuments(m) => {
                <RetrieveDocuments as Wire>::lemma_dec_enc(m, s, i0);
            },
            MessageV::PublishDocument(m) => {
                <PublishDocument as Wire>::lemma_dec_enc(m, s, i0);
            },
            MessageV::DocumentIdList(m) => {
                <DocumentIdList as Wire>::lemma_dec_enc(m, s, i0);
            },
            MessageV::DocumentList(m) => {
                <DocumentList as Wire>::lemma_dec_enc(m, s, i0);
            },
            MessageV::UpdateAllowedKeys(m) => {
                <UpdateAllowedKeys as Wire>::lemma_dec_enc(m, s, i0);
            },
            MessageV::RetrieveKeys => {},
        }
        assert(Self::spec_dec(s, i).unwrap().0 =~= v);
    }
}

} // verus!
