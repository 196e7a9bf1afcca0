use godcoin::crypto::{Digest, KeyPair};
use godcoin::script::Script;

#[test]
fn double_sha256_digests() {
    let a = Script::new(vec![1, 2, 3]);
    let b = Script::new(vec![1, 2, 4]);
    let ha = a.hash();
    let hb = b.hash();
    assert_eq!(ha.digest.bytes.len(), 32);
    assert_ne!(ha, hb);

    // Hashing a 32-byte input must not hand the input back.
    let c = Script::new(vec![7u8; 32]);
    assert_ne!(c.hash().digest.bytes, vec![7u8; 32]);

    // The same input always digests the same way.
    assert_eq!(a.hash(), ha);
}

#[test]
fn sign_and_verify() {
    let kp = KeyPair::gen();
    let pair = kp.sign(b"a message");
    assert!(pair.verify(b"a message"));
    assert!(!pair.verify(b"another message"));

    let other = KeyPair::gen();
    let forged = other.sign(b"a message");
    assert_ne!(pair.signature, forged.signature);
}

#[test]
fn digest_from_slice_checks_length() {
    assert!(Digest::from_slice(&[0u8; 32]).is_some());
    assert!(Digest::from_slice(&[0u8; 31]).is_none());
    assert!(Digest::from_slice(&[0u8; 33]).is_none());
}

#[test]
fn keypair_halves_are_well_sized() {
    let kp = KeyPair::gen();
    assert_eq!(kp.0.bytes.len(), 32);
    assert_eq!(kp.1.bytes.len(), 64);
}

#[test]
fn malformed_signature_verifies_false() {
    let kp = KeyPair::gen();
    let mut pair = kp.sign(b"a message");
    // Force a non-canonical trailing scalar: such bytes are never a valid
    // signature, and verification must answer false rather than fail.
    let last = pair.signature.bytes.len() - 1;
    pair.signature.bytes[last] |= 0b1110_0000;
    assert!(!pair.verify(b"a message"));
}
