use vstd::prelude::*;

pub mod asset_owner;
pub mod bytesutil;
pub mod crypto;
pub mod client;
pub mod codec;
pub mod deaddrop;
pub mod document;
pub mod drand;
pub mod protocol;
pub mod rle;
pub mod wire;

use crate::crypto::{sha256, sha256_of};
use crate::drand::Beacon;
use vstd::bytes::{spec_u32_to_le_bytes, u32_to_le_bytes};
use vstd::string::StringSliceAdditionalSpecFns;

verus! {

/// Error returned when a mode-of-operation string is not one of the four
/// recognized names.
#[derive(Debug)]
pub struct InvalidModeOfOperation;

/// The four modes of operation: they select the publisher's signing scheme,
/// the payload confidentiality, and how a deaddrop verifies a publish.
#[derive(Debug, Clone, Copy, PartialEq, Eq, Structural, Hash)]
pub enum ModeOfOperation {
    Open,
    SenderRestricted,
    ReceiverRestricted,
    FullyRestricted,
}

/// The UTF-8 name of a mode of operation.
pub open spec fn mode_token(mode: ModeOfOperation) -> Seq<u8> {
    match mode {
        ModeOfOperation::Open => "open".spec_bytes(),
        ModeOfOperation::SenderRestricted => "sender-restricted".spec_bytes(),
        ModeOfOperation::ReceiverRestricted => "receiver-restricted".spec_bytes(),
        ModeOfOperation::FullyRestricted => "fully-restricted".spec_bytes(),
    }
}

impl ModeOfOperation {
    /// True in the modes where documents are signed with the author's
    /// asymmetric key; false in the ring-signed modes.
    pub open spec fn is_asymmetric_mode(self) -> bool {
        self == ModeOfOperation::Open || self == ModeOfOperation::ReceiverRestricted
    }

    /// True in the modes where document payloads are hybrid-encrypted
    /// toward the allowed receivers.
    pub open spec fn is_encrypted_mode(self) -> bool {
        self == ModeOfOperation::ReceiverRestricted || self == ModeOfOperation::FullyRestricted
    }

    /// Parses a mode from its name; rejects anything else.
    pub fn from_str(s: &str) -> (r: Result<ModeOfOperation, InvalidModeOfOperation>)
        ensures
            r matches Ok(m) ==> s.spec_bytes() == mode_token(m),
            r is Err ==> forall|m: ModeOfOperation| s.spec_bytes() != mode_token(m),
    {
        let b = s.as_bytes();
        if crate::bytesutil::bytes_eq(b, "open".as_bytes()) {
            Ok(ModeOfOperation::Open)
        } else if crate::bytesutil::bytes_eq(b, "sender-restricted".as_bytes()) {
            Ok(ModeOfOperation::SenderRestricted)
        } else if crate::bytesutil::bytes_eq(b, "receiver-restricted".as_bytes()) {
            Ok(ModeOfOperation::ReceiverRestricted)
        } else if crate::bytesutil::bytes_eq(b, "fully-restricted".as_bytes()) {
            Ok(ModeOfOperation::FullyRestricted)
        } else {
            proof {
                assert forall|m: ModeOfOperation| s.spec_bytes() != mode_token(m) by {
                    match m {
                        ModeOfOperation::Open => {},
                        ModeOfOperation::SenderRestricted => {},
                        ModeOfOperation::ReceiverRestricted => {},
                        ModeOfOperation::FullyRestricted => {},
                    }
                }
            }
            Err(InvalidModeOfOperation)
        }
    }

    /// The mode's name.
    pub fn as_str(&self) -> (r: &'static str)
        ensures
            r.spec_bytes() == mode_token(*self),
    {
        match self {
            ModeOfOperation::Open => "open",
            ModeOfOperation::SenderRestricted => "sender-restricted",
            ModeOfOperation::ReceiverRestricted => "receiver-restricted",
            ModeOfOperation::FullyRestricted => "fully-restricted",
        }
    }
}

// ------------------------------------------------------------------
// Proof-of-work admission puzzle
// ------------------------------------------------------------------

/// The byte mask selecting the bits a partially-consumed difficulty still
/// requires to be zero.
pub open spec fn spec_zero_mask(to_verify: u8) -> u8
    recommends
        1 <= to_verify <= 8,
{
    0xffu8 >> ((8 - to_verify) as u8)
}

/// Whether the first `counter` bits of `hash`, scanned byte by byte under
/// `spec_zero_mask`, are all zero. A hash exhausted before the counter
/// counts as passing, as the scan has nothing left to test.
pub open spec fn zero_bits_ok(hash: Seq<u8>, counter: int) -> bool
    decreases hash.len(),
{
    if counter <= 0 {
        true
    } else if hash.len() == 0 {
        true
    } else {
        let to_verify: u8 = if counter >= 8 {
            8u8
        } else {
            counter as u8
        };
        &&& hash[0] & spec_zero_mask(to_verify) == 0
        &&& zero_bits_ok(hash.skip(1), counter - to_verify as int)
    }
}

/// The pre-image a puzzle hashes: the payload, the beacon signature that
/// anchors freshness, and the little-endian nonce.
pub open spec fn puzzle_preimage(data: Seq<u8>, beacon_sig: Seq<u8>, nonce: u32) -> Seq<u8> {
    data + beacon_sig + spec_u32_to_le_bytes(nonce)
}

/// Whether `nonce` solves the puzzle for the given payload, beacon
/// signature and difficulty.
pub open spec fn puzzle_ok(data: Seq<u8>, beacon_sig: Seq<u8>, difficulty: u8, nonce: u32) -> bool {
    zero_bits_ok(sha256_of(puzzle_preimage(data, beacon_sig, nonce)), difficulty as int)
}

/// Tests the leading-zero-bits condition on a digest.
fn zero_bits_check(hash: &Vec<u8>, difficulty: u8) -> (r: bool)
    ensures
        r == zero_bits_ok(hash@, difficulty as int),
{
    let mut counter: u8 = difficulty;
    let n = hash.len();
    let mut i: usize = 0;
    proof {
        assert(hash@.skip(0) =~= hash@);
    }
    while i < n
        invariant
            n == hash@.len(),
            0 <= i <= n,
            counter <= difficulty,
            zero_bits_ok(hash@, difficulty as int) == zero_bits_ok(
                hash@.skip(i as int),
                counter as int,
            ),
        decreases n - i,
    {
        if counter == 0 {
            return true;
        }
        let to_verify: u8 = if counter >= 8 {
            8
        } else {
            counter
        };
        let compare: u8 = 0xffu8 >> ((8 - to_verify) as u8);
        proof {
            assert(hash@.skip(i as int)[0] == hash@[i as int]);
            assert(hash@.skip(i as int).skip(1) =~= hash@.skip(i + 1));
        }
        if hash[i] & compare != 0 {
            return false;
        }
        counter = counter - to_verify;
        i = i + 1;
    }
    proof {
        assert(hash@.skip(n as int) =~= Seq::<u8>::empty());
    }
    true
}

/// Hashes one puzzle attempt and tests it against the difficulty.
fn puzzle_attempt(data: &[u8], beacon_sig: &[u8], difficulty: u8, nonce: u32) -> (r: bool)
    ensures
        r == puzzle_ok(data@, beacon_sig@, difficulty, nonce),
{
    let mut preimage: Vec<u8> = Vec::new();
    preimage.extend_from_slice(data);
    preimage.extend_from_slice(beacon_sig);
    let mut nonce_bytes = u32_to_le_bytes(nonce);
    preimage.append(&mut nonce_bytes);
    proof {
        assert(preimage@ =~= puzzle_preimage(data@, beacon_sig@, nonce));
    }
    let digest = sha256(preimage.as_slice());
    zero_bits_check(&digest.bytes, difficulty)
}

/// Searches the smallest 32-bit nonce whose puzzle hash has at least
/// `difficulty` leading zero bits; `None` when no 32-bit nonce works.
pub fn crypto_puzzle_solve(data: &[u8], beacon: &Beacon, difficulty: u8) -> (r: Option<u32>)
    ensures
        r matches Some(nonce) ==> puzzle_ok(data@, beacon.signature@, difficulty, nonce) && (
        forall|m: u32| m < nonce ==> !puzzle_ok(data@, beacon.signature@, difficulty, m)),
        r is None ==> forall|m: u32| !puzzle_ok(data@, beacon.signature@, difficulty, m),
{
    let mut nonce: u32 = 0;
    loop
        invariant
            forall|m: u32| m < nonce ==> !puzzle_ok(data@, beacon.signature@, difficulty, m),
        decreases 0xffffffffu32 - nonce,
    {
        if puzzle_attempt(data, beacon.signature.as_slice(), difficulty, nonce) {
            return Some(nonce);
        }
        if nonce == 0xffffffffu32 {
            proof {
                assert forall|m: u32| !puzzle_ok(data@, beacon.signature@, difficulty, m) by {
                    if m < 0xffffffffu32 {
                    }
                }
            }
            return None;
        }
        nonce = nonce + 1;
    }
}

/// Recomputes one puzzle hash and checks the difficulty condition.
pub fn crypto_puzzle_verify(data: &[u8], beacon: &Beacon, difficulty: u8, solution: u32) -> (r:
    bool)
    ensures
        r == puzzle_ok(data@, beacon.signature@, difficulty, solution),
{
    puzzle_attempt(data, beacon.signature.as_slice(), difficulty, solution)
}

} // verus!
