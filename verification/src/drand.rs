//! Public-randomness beacons: chain metadata, beacon values, and their
//! BLS verification.

use vstd::prelude::*;

use crate::bytesutil::bytes_eq;
use crate::crypto::{sha256, sha256_of};

verus! {

/// The domain separation tag for BLS signatures hashed to G1.
pub const DST_G1: &'static str = "BLS_SIG_BLS12381G1_XMD:SHA-256_SSWU_RO_NUL_";

/// The domain separation tag for BLS signatures hashed to G2.
pub const DST_G2: &'static str = "BLS_SIG_BLS12381G2_XMD:SHA-256_SSWU_RO_NUL_";

/// Whether the BLS signature on G1 checks out under the public key on G2
/// for the given message and domain separation tag.
pub uninterp spec fn bls_g1_accepts(
    pubkey: Seq<u8>,
    message: Seq<u8>,
    signature: Seq<u8>,
    dst: Seq<char>,
) -> bool;

/// Whether the BLS signature on G2 checks out under the public key on G1
/// for the given message and domain separation tag.
pub uninterp spec fn bls_g2_accepts(
    pubkey: Seq<u8>,
    message: Seq<u8>,
    signature: Seq<u8>,
    dst: Seq<char>,
) -> bool;

/// Relies on drand_client_rs::verify::verify_on_g1: acceptance is a
/// function of the key, message, signature and tag bytes alone.
#[verifier::external_body]
fn bls_verify_g1(public_key: &[u8], message: &Vec<u8>, signature: &[u8], dst: &str) -> (r: bool)
    ensures
        r == bls_g1_accepts(public_key@, message@, signature@, dst@),
{
    drand_client_rs::verify::verify_on_g1(public_key, message, signature, dst).is_ok()
}

/// Relies on drand_client_rs::verify::verify_on_g2: acceptance is a
/// function of the key, message, signature and tag bytes alone.
#[verifier::external_body]
fn bls_verify_g2(public_key: &[u8], message: &Vec<u8>, signature: &[u8], dst: &str) -> (r: bool)
    ensures
        r == bls_g2_accepts(public_key@, message@, signature@, dst@),
{
    drand_client_rs::verify::verify_on_g2(public_key, message, signature, dst).is_ok()
}

/// The big-endian byte form of a 64-bit round number.
pub open spec fn spec_be64(x: u64) -> Seq<u8> {
    seq![
        (x >> 56) as u8,
        (x >> 48) as u8,
        (x >> 40) as u8,
        (x >> 32) as u8,
        (x >> 24) as u8,
        (x >> 16) as u8,
        (x >> 8) as u8,
        x as u8,
    ]
}

/// Writes a round number in big-endian byte order.
pub fn be64_bytes(x: u64) -> (r: Vec<u8>)
    ensures
        r@ == spec_be64(x),
{
    let mut r: Vec<u8> = Vec::new();
    r.push((x >> 56) as u8);
    r.push((x >> 48) as u8);
    r.push((x >> 40) as u8);
    r.push((x >> 32) as u8);
    r.push((x >> 24) as u8);
    r.push((x >> 16) as u8);
    r.push((x >> 8) as u8);
    r.push(x as u8);
    proof {
        assert(r@ =~= spec_be64(x));
    }
    r
}

/// The four signature schemes a randomness chain may use.
#[derive(Debug, Clone, Copy, PartialEq, Eq, Structural, Hash)]
pub enum SchemeId {
    PedersenBlsChained,
    PedersenBlsUnchained,
    UnchainedOnG1,
    UnchainedOnG1RFC9380,
}

/// Chain metadata carried alongside its keys.
#[derive(Debug, Clone)]
pub struct ChainInfoMetadata {
    pub beacon_id: String,
}

/// A randomness chain's identity: its scheme, group public key, hashes and
/// timing parameters.
#[derive(Debug, Clone)]
pub struct ChainInfo {
    pub scheme_id: SchemeId,
    pub public_key: Vec<u8>,
    pub chain_hash: Vec<u8>,
    pub group_hash: Vec<u8>,
    pub genesis_time: u64,
    pub period_seconds: u32,
    pub metadata: ChainInfoMetadata,
}

/// One round of public randomness.
#[derive(Debug, Clone)]
pub struct Beacon {
    pub round_number: u64,
    pub randomness: Vec<u8>,
    pub signature: Vec<u8>,
    pub previous_signature: Vec<u8>,
}

/// The mathematical content of a beacon.
#[verifier::ext_equal]
pub struct BeaconV {
    pub round_number: u64,
    pub randomness: Seq<u8>,
    pub signature: Seq<u8>,
    pub previous_signature: Seq<u8>,
}

impl View for Beacon {
    type V = BeaconV;

    open spec fn view(&self) -> BeaconV {
        BeaconV {
            round_number: self.round_number,
            randomness: self.randomness@,
            signature: self.signature@,
            previous_signature: self.previous_signature@,
        }
    }
}

/// The pre-image a chained scheme signs: the previous signature followed
/// by the big-endian round number.
pub open spec fn chained_preimage(b: BeaconV) -> Seq<u8> {
    b.previous_signature + spec_be64(b.round_number)
}

/// The pre-image an unchained scheme signs: the big-endian round number.
pub open spec fn unchained_preimage(b: BeaconV) -> Seq<u8> {
    spec_be64(b.round_number)
}

/// What `Beacon::verify` decides: the randomness is the digest of the
/// signature, and the signature checks out under the chain's key on the
/// group and domain tag the scheme selects.
pub open spec fn beacon_valid(b: BeaconV, scheme_id: SchemeId, public_key: Seq<u8>) -> bool {
    &&& sha256_of(b.signature) == b.randomness
    &&& match scheme_id {
        SchemeId::PedersenBlsChained => bls_g2_accepts(
            public_key,
            sha256_of(chained_preimage(b)),
            b.signature,
            DST_G2@,
        ),
        SchemeId::PedersenBlsUnchained => bls_g2_accepts(
            public_key,
            sha256_of(unchained_preimage(b)),
            b.signature,
            DST_G2@,
        ),
        SchemeId::UnchainedOnG1 => bls_g1_accepts(
            public_key,
            sha256_of(unchained_preimage(b)),
            b.signature,
            DST_G2@,
        ),
        SchemeId::UnchainedOnG1RFC9380 => bls_g1_accepts(
            public_key,
            sha256_of(unchained_preimage(b)),
            b.signature,
            DST_G1@,
        ),
    }
}

impl Beacon {
    /// Copies a beacon, keeping its content.
    pub fn clone_beacon(&self) -> (r: Beacon)
        ensures
            r@ == self@,
    {
        let r = Beacon {
            round_number: self.round_number,
            randomness: crate::bytesutil::clone_bytes(&self.randomness),
            signature: crate::bytesutil::clone_bytes(&self.signature),
            previous_signature: crate::bytesutil::clone_bytes(&self.previous_signature),
        };
        proof {
            assert(r@ =~= self@);
        }
        r
    }

    /// The message a chained scheme verifies: the digest of the previous
    /// signature and the round number.
    fn chained_message(&self) -> (r: Vec<u8>)
        ensures
            r@ == sha256_of(chained_preimage(self@)),
    {
        let mut data = Vec::new();
        data.extend_from_slice(self.previous_signature.as_slice());
        let mut round = be64_bytes(self.round_number);
        data.append(&mut round);
        proof {
            assert(data@ =~= chained_preimage(self@));
        }
        let digest = sha256(data.as_slice());
        digest.bytes
    }

    /// The message an unchained scheme verifies: the digest of the round
    /// number alone.
    fn unchained_message(&self) -> (r: Vec<u8>)
        ensures
            r@ == sha256_of(unchained_preimage(self@)),
    {
        let round = be64_bytes(self.round_number);
        let digest = sha256(round.as_slice());
        digest.bytes
    }

    /// Verifies this beacon under the given scheme and chain public key.
    pub fn verify(&self, scheme_id: SchemeId, public_key: &[u8]) -> (r: bool)
        ensures
            r == beacon_valid(self@, scheme_id, public_key@),
    {
        let digest = sha256(self.signature.as_slice());
        if !bytes_eq(digest.bytes.as_slice(), self.randomness.as_slice()) {
            return false;
        }
        match scheme_id {
            SchemeId::PedersenBlsChained => {
                let message = self.chained_message();
                bls_verify_g2(public_key, &message, self.signature.as_slice(), DST_G2)
            },
            SchemeId::PedersenBlsUnchained => {
                let message = self.unchained_message();
                bls_verify_g2(public_key, &message, self.signature.as_slice(), DST_G2)
            },
            SchemeId::UnchainedOnG1 => {
                let message = self.unchained_message();
                bls_verify_g1(public_key, &message, self.signature.as_slice(), DST_G2)
            },
            SchemeId::UnchainedOnG1RFC9380 => {
                let message = self.unchained_message();
                bls_verify_g1(public_key, &message, self.signature.as_slice(), DST_G1)
            },
        }
    }
}

/// How long a fetched beacon stays fresh: the seconds elapsed in the
/// chain's current period.
pub fn beacon_cache_ttl(unix_now: u64, genesis_time: u64, period_seconds: u32) -> (r: u64)
    requires
        unix_now >= genesis_time,
        period_seconds > 0,
    ensures
        r == (unix_now - genesis_time) as u64 % (period_seconds as u64),
{
    (unix_now - genesis_time) % (period_seconds as u64)
}

} // verus!
