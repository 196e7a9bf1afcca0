//! Cryptographic primitives: double-SHA-256 digests, Ed25519 key pairs and
//! detached signatures. The algorithms themselves live in libsodium; each
//! call is confined to a small trusted wrapper with a named result.

use crate::util::clone_bytes;
use vstd::prelude::*;

verus! {

/// What SHA-256 returns for a byte string. Named rather than written out;
/// `sha256_hash` is the one function trusted to compute it.
pub uninterp spec fn sha256(bytes: Seq<u8>) -> Seq<u8>;

/// The canonical digest of a byte string: SHA-256 applied twice.
pub open spec fn dsha256(bytes: Seq<u8>) -> Seq<u8> {
    sha256(sha256(bytes))
}

/// Relies on sodiumoxide's `crypto::hash::sha256::hash`: a 32-byte digest
/// that is a function of the input bytes alone.
#[verifier::external_body]
fn sha256_hash(bytes: &[u8]) -> (r: Vec<u8>)
    ensures
        r@ == sha256(bytes@),
        r@.len() == 32,
{
    sodiumoxide::crypto::hash::sha256::hash(bytes).as_ref().to_vec()
}

/// What an Ed25519 detached signature holds: a function of the secret key
/// and the message alone.
pub uninterp spec fn signed_bytes(sk: Seq<u8>, msg: Seq<u8>) -> Seq<u8>;

/// Whether an Ed25519 signature is valid for a message under a public key:
/// a function of the three byte strings alone.
pub uninterp spec fn sig_verifies(pk: Seq<u8>, msg: Seq<u8>, sig: Seq<u8>) -> bool;

/// A 32-byte double-SHA-256 digest.
#[derive(Clone, Debug, PartialEq, Eq)]
pub struct Digest {
    pub bytes: Vec<u8>,
}

impl Digest {
    pub open spec fn wf(self) -> bool {
        self.bytes@.len() == 32
    }

    /// Copies a digest out of a slice; `None` unless it is exactly 32 bytes.
    pub fn from_slice(bs: &[u8]) -> (r: Option<Digest>)
        ensures
            bs@.len() == 32 ==> (r matches Some(d) && d.bytes@ == bs@ && d.wf()),
            bs@.len() != 32 ==> r is None,
    {
        if bs.len() != 32 {
            return None;
        }
        let mut bytes: Vec<u8> = Vec::new();
        bytes.extend_from_slice(bs);
        proof {
            assert(bytes@ =~= bs@);
        }
        Some(Digest { bytes })
    }
}

/// Computes the canonical double-SHA-256 digest of a byte string.
pub fn double_sha256(bytes: &[u8]) -> (r: Digest)
    ensures
        r.bytes@ == dsha256(bytes@),
        r.wf(),
{
    let first = sha256_hash(bytes);
    let second = sha256_hash(first.as_slice());
    Digest { bytes: second }
}

/// A 32-byte Ed25519 public key.
#[derive(Clone, Debug, PartialEq, Eq)]
pub struct PublicKey {
    pub bytes: Vec<u8>,
}

impl PublicKey {
    pub open spec fn wf(self) -> bool {
        self.bytes@.len() == 32
    }

    /// Copies a key out of a slice; `None` unless it is exactly 32 bytes.
    pub fn from_slice(bs: &[u8]) -> (r: Option<PublicKey>)
        ensures
            bs@.len() == 32 ==> (r matches Some(k) && k.bytes@ == bs@ && k.wf()),
            bs@.len() != 32 ==> r is None,
    {
        if bs.len() != 32 {
            return None;
        }
        let mut bytes: Vec<u8> = Vec::new();
        bytes.extend_from_slice(bs);
        proof {
            assert(bytes@ =~= bs@);
        }
        Some(PublicKey { bytes })
    }
}

/// A 64-byte Ed25519 secret key.
#[derive(Clone, Debug, PartialEq, Eq)]
pub struct SecretKey {
    pub bytes: Vec<u8>,
}

impl SecretKey {
    pub open spec fn wf(self) -> bool {
        self.bytes@.len() == 64
    }
}

/// A 64-byte Ed25519 detached signature.
#[derive(Clone, Debug, PartialEq, Eq)]
pub struct Signature {
    pub bytes: Vec<u8>,
}

impl Signature {
    pub open spec fn wf(self) -> bool {
        self.bytes@.len() == 64
    }
}

/// A public key together with a detached signature made by its holder.
#[derive(Clone, Debug, PartialEq, Eq)]
pub struct SigPair {
    pub pub_key: PublicKey,
    pub signature: Signature,
}

impl SigPair {
    pub open spec fn wf(self) -> bool {
        self.pub_key.wf() && self.signature.wf()
    }

    /// Checks the signature over `msg` under the pair's own public key.
    pub fn verify(&self, msg: &[u8]) -> (r: bool)
        requires
            self.wf(),
        ensures
            r == sig_verifies(self.pub_key.bytes@, msg@, self.signature.bytes@),
    {
        verify_detached(&self.pub_key, msg, &self.signature)
    }
}

/// An Ed25519 key pair: the public half, then the secret half.
#[derive(Clone, Debug)]
pub struct KeyPair(pub PublicKey, pub SecretKey);

impl KeyPair {
    pub open spec fn wf(self) -> bool {
        self.0.wf() && self.1.wf()
    }

    /// The defining law of a generated pair: whatever the secret half
    /// signs, the public half verifies.
    pub open spec fn valid(self) -> bool {
        forall|m: Seq<u8>|
            sig_verifies(self.0.bytes@, m, #[trigger] signed_bytes(self.1.bytes@, m))
    }

    /// Relies on sodiumoxide's `crypto::sign::gen_keypair`: a fresh pair
    /// with a 32-byte public key and a 64-byte secret key, related as
    /// Ed25519 requires — a message signed with the secret half verifies
    /// under the public half. Nothing else is promised of a random result.
    #[verifier::external_body]
    pub fn gen() -> (r: KeyPair)
        ensures
            r.wf(),
            r.valid(),
    {
        let (pk, sk) = sodiumoxide::crypto::sign::gen_keypair();
        KeyPair(
            PublicKey { bytes: pk.as_ref().to_vec() },
            SecretKey { bytes: sk.as_ref().to_vec() },
        )
    }

    /// Signs a message, pairing the detached signature with the public half.
    pub fn sign(&self, msg: &[u8]) -> (r: SigPair)
        requires
            self.wf(),
        ensures
            r.pub_key.bytes@ == self.0.bytes@,
            r.signature.bytes@ == signed_bytes(self.1.bytes@, msg@),
            r.signature.wf(),
            r.wf(),
            self.valid() ==> sig_verifies(self.0.bytes@, msg@, r.signature.bytes@),
    {
        SigPair {
            pub_key: PublicKey { bytes: clone_bytes(&self.0.bytes) },
            signature: sign_detached(&self.1, msg),
        }
    }
}

/// Relies on sodiumoxide's `crypto::sign::sign_detached`: a 64-byte
/// signature that is a function of the secret key and the message alone.
#[verifier::external_body]
fn sign_detached(sk: &SecretKey, msg: &[u8]) -> (r: Signature)
    requires
        sk.wf(),
    ensures
        r.bytes@ == signed_bytes(sk.bytes@, msg@),
        r.bytes@.len() == 64,
{
    let key = sodiumoxide::crypto::sign::SecretKey::from_slice(&sk.bytes).unwrap();
    let sig = sodiumoxide::crypto::sign::sign_detached(msg, &key);
    Signature { bytes: sig.as_ref().to_vec() }
}

/// Relies on sodiumoxide's `crypto::sign::verify_detached`: whether the
/// signature is valid, a function of key, message and signature alone.
/// Bytes the signature type's fallible constructor refuses (a non-canonical
/// trailing scalar) never verify under libsodium either, so they map to
/// `false` rather than a panic.
#[verifier::external_body]
fn verify_detached(pk: &PublicKey, msg: &[u8], sig: &Signature) -> (r: bool)
    requires
        pk.wf(),
        sig.wf(),
    ensures
        r == sig_verifies(pk.bytes@, msg@, sig.bytes@),
{
    let key = sodiumoxide::crypto::sign::PublicKey::from_slice(&pk.bytes).unwrap();
    let signature = match sodiumoxide::crypto::sign::Signature::from_bytes(&sig.bytes) {
        Ok(s) => s,
        Err(_) => return false,
    };
    sodiumoxide::crypto::sign::verify_detached(&signature, msg, &key)
}

/// Relies on sodiumoxide's `init`: readies the library (thread-safe random
/// generation); `Err` only if initialization failed.
#[verifier::external_body]
pub fn init() -> (r: Result<(), ()>)
{
    sodiumoxide::init()
}

} // verus!
