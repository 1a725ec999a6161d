use anonycast::client::fetch_since_round;
use anonycast::crypto::SymmetricKey;
use anonycast::drand::{beacon_cache_ttl, Beacon, SchemeId};
use anonycast::ModeOfOperation;

fn dehex(s: &str) -> Vec<u8> {
    let digits: Vec<u8> = s
        .bytes()
        .map(|b| match b {
            b'0'..=b'9' => b - b'0',
            b'a'..=b'f' => b - b'a' + 10,
            _ => panic!("invalid hex"),
        })
        .collect();
    digits.chunks(2).map(|p| (p[0] << 4) | p[1]).collect()
}

#[test]
fn mode_of_operation_names_roundtrip() {
    for name in ["open", "sender-restricted", "receiver-restricted", "fully-restricted"] {
        let mode = ModeOfOperation::from_str(name).unwrap();
        assert_eq!(mode.as_str(), name);
    }
    assert!(ModeOfOperation::from_str("sideways").is_err());
    assert!(ModeOfOperation::from_str("").is_err());
}

#[test]
fn symmetric_key_must_be_32_bytes() {
    assert!(SymmetricKey::try_from(&[0u8; 31][..]).is_err());
    assert!(SymmetricKey::try_from(&[0u8; 33][..]).is_err());
    let key = SymmetricKey::try_from(&[7u8; 32][..]).unwrap();
    assert_eq!(key.as_bytes().as_slice(), &[7u8; 32][..]);
}

#[test]
fn beacon_cache_ttl_formula() {
    assert_eq!(beacon_cache_ttl(105, 100, 3), 2);
    assert_eq!(beacon_cache_ttl(100, 100, 3), 0);
    assert_eq!(beacon_cache_ttl(130, 100, 30), 0);
}

#[test]
fn fetch_since_round_formula() {
    assert_eq!(fetch_since_round(100, 50, 10), 40);
    assert_eq!(fetch_since_round(50, 100, 10), 40);
    assert_eq!(fetch_since_round(5, 100, 10), 0);
    assert_eq!(fetch_since_round(100, 5, 10), 0);
    assert_eq!(fetch_since_round(100, 50, 0), 50);
}

#[test]
fn beacon_verify_accepts_real_beacon_and_rejects_corruption() {
    let public_key = dehex("8d91ae0f4e3cd277cfc46aba26680232b0d5bb4444602cdb23442d62e17f43cdffb1104909e535430c10a6a1ce680a65");
    let beacon = Beacon {
        round_number: 397092,
        randomness: dehex("7731783ab8118d7484d0e8e237f3023a4c7ef4532f35016f2e56e89a7570c796"),
        signature: dehex("94da96b5b985a22a3d99fa3051a42feb4da9218763f6c836fca3770292dbf4b01f5d378859a113960548d167eaa144250a2c8e34c51c5270152ac2bc7a52632236f746545e0fae52f69068c017745204240d19dae2b4d038cef3c6047fcd6539"),
        previous_signature: Vec::new(),
    };
    assert!(beacon.verify(SchemeId::PedersenBlsUnchained, &public_key));
    let wrong_round = Beacon { round_number: 397093, ..copy_beacon(&beacon) };
    assert!(!wrong_round.verify(SchemeId::PedersenBlsUnchained, &public_key));
    let mut wrong_randomness = copy_beacon(&beacon);
    wrong_randomness.randomness[0] ^= 1;
    assert!(!wrong_randomness.verify(SchemeId::PedersenBlsUnchained, &public_key));
}

fn copy_beacon(b: &Beacon) -> Beacon {
    b.clone_beacon()
}
