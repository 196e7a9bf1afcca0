//! Scripts and their hashes.
//!
//! A script is an opaque byte program; spending from the address it hashes to
//! is authorized by evaluating it in an engine the integrator supplies. Only
//! the hash derivation is this crate's business.

use crate::crypto::{dsha256, Digest, PublicKey};
use crate::util::clone_bytes;
use vstd::prelude::*;

verus! {

/// The canonical single-key script: a one-byte tag, then the raw key.
pub open spec fn single_sig_script(pk: Seq<u8>) -> Seq<u8> {
    seq![1u8] + pk
}

/// An opaque byte program, interpreted only by a script engine.
#[derive(Clone, Debug, PartialEq, Eq)]
pub struct Script {
    pub bytes: Vec<u8>,
}

impl Script {
    pub fn new(bytes: Vec<u8>) -> (r: Script)
        ensures
            r.bytes@ == bytes@,
    {
        Script { bytes }
    }

    /// The script that authorizes spending with one signature of `pk`.
    pub fn single_sig(pk: &PublicKey) -> (r: Script)
        requires
            pk.wf(),
        ensures
            r.bytes@ == single_sig_script(pk.bytes@),
    {
        let mut bytes: Vec<u8> = Vec::new();
        bytes.push(1u8);
        bytes.extend_from_slice(pk.bytes.as_slice());
        proof {
            assert(bytes@ =~= single_sig_script(pk.bytes@));
        }
        Script { bytes }
    }

    /// The address this script spends from: its double-SHA-256 digest.
    pub fn hash(&self) -> (r: ScriptHash)
        ensures
            r.digest.bytes@ == dsha256(self.bytes@),
            r.wf(),
    {
        ScriptHash { digest: crate::crypto::double_sha256(self.bytes.as_slice()) }
    }
}

/// The 32-byte double-SHA-256 digest of a script, used as an address.
#[derive(Clone, Debug, PartialEq, Eq)]
pub struct ScriptHash {
    pub digest: Digest,
}

impl ScriptHash {
    pub open spec fn wf(self) -> bool {
        self.digest.wf()
    }

    /// The bytes that identify the address.
    pub open spec fn addr(self) -> Seq<u8> {
        self.digest.bytes@
    }

    /// The address of the canonical single-key script of `pk`.
    pub fn of_key(pk: &PublicKey) -> (r: ScriptHash)
        requires
            pk.wf(),
        ensures
            r.addr() == dsha256(single_sig_script(pk.bytes@)),
            r.wf(),
    {
        Script::single_sig(pk).hash()
    }

    /// Copies an address.
    pub fn duplicate(&self) -> (r: ScriptHash)
        ensures
            r.addr() == self.addr(),
            r.wf() == self.wf(),
    {
        ScriptHash { digest: Digest { bytes: clone_bytes(&self.digest.bytes) } }
    }
}

/// An opaque script-engine failure code.
#[derive(Clone, Copy, Debug, PartialEq, Eq, Structural)]
pub struct ScriptErr {
    pub code: u16,
}


/// The canonical multi-signature script: a tag byte, the threshold, the key
/// count, then the raw keys.
pub open spec fn multi_sig_script(threshold: u8, keys: Seq<Seq<u8>>) -> Seq<u8> {
    seq![2u8, threshold, keys.len() as u8] + concat_keys(keys)
}

impl Script {
    /// The script that authorizes spending with `threshold` signatures out
    /// of the given keys.
    pub fn multi_sig(threshold: u8, keys: &Vec<PublicKey>) -> (r: Script)
        requires
            keys@.len() <= 255,
            forall|i: int| 0 <= i < keys@.len() ==> (#[trigger] keys@[i]).wf(),
        ensures
            r.bytes@ == multi_sig_script(
                threshold,
                keys@.map_values(|k: PublicKey| k.bytes@),
            ),
    {
        let ghost kv = keys@.map_values(|k: PublicKey| k.bytes@);
        let mut bytes: Vec<u8> = Vec::new();
        bytes.push(2u8);
        bytes.push(threshold);
        bytes.push(keys.len() as u8);
        proof {
            assert(concat_keys(kv.take(0)) =~= Seq::<u8>::empty());
            assert(bytes@ =~= seq![2u8, threshold, kv.len() as u8] + concat_keys(kv.take(0)));
        }
        let mut i: usize = 0;
        while i < keys.len()
            invariant
                i <= keys@.len(),
                kv == keys@.map_values(|k: PublicKey| k.bytes@),
                forall|j: int| 0 <= j < keys@.len() ==> (#[trigger] keys@[j]).wf(),
                keys@.len() <= 255,
                bytes@ == seq![2u8, threshold, kv.len() as u8] + concat_keys(kv.take(i as int)),
            decreases keys@.len() - i,
        {
            bytes.extend_from_slice(keys[i].bytes.as_slice());
            proof {
                assert(kv[i as int] == keys@[i as int].bytes@);
                assert(kv.take(i + 1).drop_last() =~= kv.take(i as int));
                assert(kv.take(i + 1).last() == kv[i as int]);
                assert(bytes@ =~= seq![2u8, threshold, kv.len() as u8] + concat_keys(
                    kv.take(i + 1),
                ));
            }
            i = i + 1;
        }
        proof {
            assert(kv.take(kv.len() as int) =~= kv);
            assert(bytes@ =~= multi_sig_script(threshold, kv));
        }
        Script { bytes }
    }
}

/// The raw keys of a multi-signature script, concatenated.
pub open spec fn concat_keys(keys: Seq<Seq<u8>>) -> Seq<u8>
    decreases keys.len(),
{
    if keys.len() == 0 {
        Seq::empty()
    } else {
        concat_keys(keys.drop_last()) + keys.last()
    }
}


/// The capability the chain engine requires of a script interpreter:
/// evaluate a script against a transaction (identified by its precomputed
/// id) and decide whether spending is authorized. Integrators supply the
/// implementation; nothing is promised of the outcome.
pub trait ScriptEngine {
    fn eval(&mut self, data: &crate::tx::TxPrecompData, script: &Script) -> Result<bool, ScriptErr>;
}

} // verus!
