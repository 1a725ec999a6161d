use anonycast::crypto::{
    decrypt, encrypt, generate, ring_generate, ring_sign, ring_verify, sha256, symmetric_decrypt,
    symmetric_encrypt, symmetric_generate, Ring,
};

const DATA_0: &[u8] = b"message 0";
const DATA_1: &[u8] = b"message 1";

#[test]
fn test_encrypt_decrypt() {
    let (pubkey, privkey) = generate();
    let data = b"hello";
    let encrypted = encrypt(&pubkey, data).unwrap();
    let decrypted = decrypt(&privkey, &encrypted).unwrap();
    assert_eq!(&data[..], decrypted.as_slice());
}

#[test]
fn test_symmetric_encrypt_decrypt() {
    let key = symmetric_generate();
    let data = b"hello";
    let encrypted = symmetric_encrypt(&key, &data[..]);
    let decrypted = symmetric_decrypt(&key, &encrypted).unwrap();
    assert_eq!(&data[..], decrypted.as_slice());
}

#[test]
fn test_symmetric_decrypt_wrong_key_fails() {
    let key = symmetric_generate();
    let other = symmetric_generate();
    let data = b"hello";
    let encrypted = symmetric_encrypt(&key, &data[..]);
    assert!(symmetric_decrypt(&other, &encrypted).is_none());
}

#[test]
fn sign_verify() {
    let (pub0, priv0) = ring_generate();
    let (pub1, _priv1) = ring_generate();
    let (pub2, _priv2) = ring_generate();
    let (pub3, _priv3) = ring_generate();

    {
        let ring = Ring::from_keys(vec![
            pub0.clone_key(),
            pub1.clone_key(),
            pub2.clone_key(),
            pub3.clone_key(),
        ]);
        let sig = ring_sign(&priv0, &ring, DATA_0).unwrap();
        assert!(ring_verify(&ring, DATA_0, &sig));
    }

    {
        let ring = Ring::from_keys(vec![
            pub0.clone_key(),
            pub1.clone_key(),
            pub2.clone_key(),
            pub3.clone_key(),
        ]);
        let sig = ring_sign(&priv0, &ring, DATA_0).unwrap();
        assert!(!ring_verify(&ring, DATA_1, &sig));
    }

    {
        let ring = Ring::from_keys(vec![
            pub0.clone_key(),
            pub1.clone_key(),
            pub2.clone_key(),
            pub3.clone_key(),
        ]);
        let sig = ring_sign(&priv0, &ring, DATA_1).unwrap();
        assert!(!ring_verify(&ring, DATA_0, &sig));
    }

    {
        let ring = Ring::from_keys(vec![pub1.clone_key(), pub2.clone_key(), pub3.clone_key()]);
        let sig = ring_sign(&priv0, &ring, DATA_1).unwrap();
        assert!(!ring_verify(&ring, DATA_0, &sig));
    }
}

#[test]
fn sha256_known_digest() {
    let digest = sha256(b"abc");
    let expected: [u8; 32] = [
        0xba, 0x78, 0x16, 0xbf, 0x8f, 0x01, 0xcf, 0xea, 0x41, 0x41, 0x40, 0xde, 0x5d, 0xae, 0x22,
        0x23, 0xb0, 0x03, 0x61, 0xa3, 0x96, 0x17, 0x7a, 0x9c, 0xb4, 0x10, 0xff, 0x61, 0xf2, 0x00,
        0x15, 0xad,
    ];
    assert_eq!(digest.as_bytes().as_slice(), &expected[..]);
}

#[test]
fn ring_sign_against_other_ring_fails() {
    let (pub0, priv0) = ring_generate();
    let (pub1, _p1) = ring_generate();
    let (pub2, _p2) = ring_generate();
    let (pub3, _p3) = ring_generate();
    let ring = Ring::from_keys(vec![pub0.clone_key(), pub1.clone_key(), pub2.clone_key()]);
    let other = Ring::from_keys(vec![pub0.clone_key(), pub1.clone_key(), pub3.clone_key()]);
    let sig = ring_sign(&priv0, &ring, DATA_0).unwrap();
    assert!(ring_verify(&ring, DATA_0, &sig));
    assert!(!ring_verify(&other, DATA_0, &sig));
}
