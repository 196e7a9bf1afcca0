//! Primitive big-endian codecs.
//!
//! Writers append to a `Vec<u8>`; readers consume a [`Cursor`] over a byte
//! slice. Every multi-byte integer is big-endian, and byte strings travel
//! with a `u32` length prefix. The spec functions here are the vocabulary in
//! which every higher codec contract is written.

use crate::asset::Asset;
use crate::crypto::{Digest, PublicKey, SigPair, Signature};
use vstd::arithmetic::div_mod::lemma_fundamental_div_mod;
use vstd::prelude::*;

verus! {

/// 256 raised to `n`: the number of values `n` bytes can hold.
pub open spec fn pow256(n: nat) -> nat
    decreases n,
{
    if n == 0 {
        1
    } else {
        256 * pow256((n - 1) as nat)
    }
}

/// The `n`-byte big-endian encoding of `v` (mod `256^n`).
pub open spec fn be_bytes(v: nat, n: nat) -> Seq<u8>
    decreases n,
{
    if n == 0 {
        Seq::empty()
    } else {
        be_bytes(v / 256, (n - 1) as nat).push((v % 256) as u8)
    }
}

/// The value a big-endian byte string stands for.
pub open spec fn be_value(s: Seq<u8>) -> nat
    decreases s.len(),
{
    if s.len() == 0 {
        0
    } else {
        256 * be_value(s.drop_last()) + s.last() as nat
    }
}

/// The unsigned 64-bit pattern that carries a signed amount in two's
/// complement.
pub open spec fn i64_bits(x: int) -> nat {
    if x >= 0 {
        x as nat
    } else {
        (x + 0x1_0000_0000_0000_0000) as nat
    }
}

/// Reads a two's-complement 64-bit pattern back as a signed value.
pub open spec fn i64_of_bits(v: nat) -> int {
    if v < 0x8000_0000_0000_0000 {
        v as int
    } else {
        v - 0x1_0000_0000_0000_0000
    }
}

/// The encodings of the fixed widths in one place.
pub open spec fn ser_u16(v: u16) -> Seq<u8> {
    be_bytes(v as nat, 2)
}

pub open spec fn ser_u32(v: u32) -> Seq<u8> {
    be_bytes(v as nat, 4)
}

pub open spec fn ser_u64(v: u64) -> Seq<u8> {
    be_bytes(v as nat, 8)
}

/// A length-prefixed byte string: `u32` length, then the bytes.
pub open spec fn ser_bytes(b: Seq<u8>) -> Seq<u8> {
    be_bytes(b.len(), 4) + b
}

/// A signed fixed-precision amount: its two's-complement bit pattern,
/// big-endian.
pub open spec fn ser_asset(a: Asset) -> Seq<u8> {
    be_bytes(i64_bits(a.amount as int), 8)
}

/// A signature pair: the raw 32 public-key bytes, then the raw 64
/// signature bytes.
pub open spec fn ser_sig_pair(p: SigPair) -> Seq<u8> {
    p.pub_key.bytes@ + p.signature.bytes@
}

pub proof fn lemma_pow256_values()
    ensures
        pow256(1) == 0x100,
        pow256(2) == 0x1_0000,
        pow256(4) == 0x1_0000_0000,
        pow256(7) == 0x100_0000_0000_0000,
        pow256(8) == 0x1_0000_0000_0000_0000,
{
    assert(pow256(0) == 1);
    assert(pow256(1) == 0x100);
    assert(pow256(2) == 0x1_0000);
    assert(pow256(3) == 0x100_0000);
    assert(pow256(4) == 0x1_0000_0000);
    assert(pow256(5) == 0x100_0000_0000);
    assert(pow256(6) == 0x1_0000_0000_0000);
    assert(pow256(7) == 0x100_0000_0000_0000);
    assert(pow256(8) == 0x1_0000_0000_0000_0000);
}

pub proof fn lemma_pow256_mono(a: nat, b: nat)
    requires
        a <= b,
    ensures
        pow256(a) <= pow256(b),
    decreases b,
{
    if a < b {
        lemma_pow256_mono(a, (b - 1) as nat);
        assert(pow256(b) == 256 * pow256((b - 1) as nat));
        assert(pow256((b - 1) as nat) <= 256 * pow256((b - 1) as nat)) by (nonlinear_arith)
            requires
                pow256((b - 1) as nat) >= 0,
        {}
    }
}

/// An `n`-byte encoding has `n` bytes, and decodes back to its value.
pub proof fn lemma_be_bytes_props(v: nat, n: nat)
    ensures
        be_bytes(v, n).len() == n,
        v < pow256(n) ==> be_value(be_bytes(v, n)) == v,
    decreases n,
{
    if n > 0 {
        lemma_be_bytes_props(v / 256, (n - 1) as nat);
        let s = be_bytes(v, n);
        assert(s.drop_last() =~= be_bytes(v / 256, (n - 1) as nat));
        if v < pow256(n) {
            assert(pow256(n) == 256 * pow256((n - 1) as nat));
            assert(v / 256 < pow256((n - 1) as nat)) by (nonlinear_arith)
                requires
                    v < 256 * pow256((n - 1) as nat),
                    pow256((n - 1) as nat) > 0,
            {}
            lemma_fundamental_div_mod(v as int, 256);
        }
    }
}

/// A byte string's value is below `256^len`.
pub proof fn lemma_be_value_bound(s: Seq<u8>)
    ensures
        be_value(s) < pow256(s.len()),
    decreases s.len(),
{
    if s.len() > 0 {
        lemma_be_value_bound(s.drop_last());
        assert(pow256(s.len()) == 256 * pow256((s.len() - 1) as nat));
        assert(256 * be_value(s.drop_last()) + s.last() < 256 * pow256((s.len() - 1) as nat))
            by (nonlinear_arith)
            requires
                be_value(s.drop_last()) < pow256((s.len() - 1) as nat),
                s.last() < 256,
        {}
    }
}

/// Appends one byte.
pub fn push_u8(buf: &mut Vec<u8>, v: u8)
    ensures
        final(buf)@ == old(buf)@.push(v),
{
    buf.push(v);
}

/// Appends the `n`-byte big-endian encoding of `v`.
pub fn push_be(buf: &mut Vec<u8>, v: u64, n: usize)
    requires
        n <= 8,
        (v as nat) < pow256(n as nat),
    ensures
        final(buf)@ == old(buf)@ + be_bytes(v as nat, n as nat),
    decreases n,
{
    if n == 0 {
        proof {
            assert(buf@ =~= buf@ + be_bytes(v as nat, 0));
        }
    } else {
        proof {
            assert(pow256(n as nat) == 256 * pow256((n - 1) as nat));
            assert(v as nat / 256 < pow256((n - 1) as nat)) by (nonlinear_arith)
                requires
                    (v as nat) < 256 * pow256((n - 1) as nat),
                    pow256((n - 1) as nat) > 0,
            {}
        }
        push_be(buf, v / 256, n - 1);
        buf.push((v % 256) as u8);
        proof {
            assert(buf@ =~= old(buf)@ + be_bytes(v as nat, n as nat));
        }
    }
}

/// Appends a big-endian `u16`.
pub fn push_u16(buf: &mut Vec<u8>, v: u16)
    ensures
        final(buf)@ == old(buf)@ + ser_u16(v),
{
    proof {
        lemma_pow256_values();
    }
    push_be(buf, v as u64, 2);
}

/// Appends a big-endian `u32`.
pub fn push_u32(buf: &mut Vec<u8>, v: u32)
    ensures
        final(buf)@ == old(buf)@ + ser_u32(v),
{
    proof {
        lemma_pow256_values();
    }
    push_be(buf, v as u64, 4);
}

/// Appends a big-endian `u64`.
pub fn push_u64(buf: &mut Vec<u8>, v: u64)
    ensures
        final(buf)@ == old(buf)@ + ser_u64(v),
{
    proof {
        lemma_pow256_values();
    }
    push_be(buf, v, 8);
}

/// Appends a `u32` length prefix, then the bytes themselves.
pub fn push_bytes(buf: &mut Vec<u8>, b: &[u8])
    requires
        b@.len() < 0x1_0000_0000,
    ensures
        final(buf)@ == old(buf)@ + ser_bytes(b@),
{
    push_u32(buf, b.len() as u32);
    buf.extend_from_slice(b);
    proof {
        assert(buf@ =~= old(buf)@ + ser_bytes(b@));
    }
}

/// Appends a signed amount as its big-endian two's-complement pattern.
pub fn push_asset(buf: &mut Vec<u8>, a: Asset)
    ensures
        final(buf)@ == old(buf)@ + ser_asset(a),
{
    let bits: u64 = if a.amount >= 0 {
        a.amount as u64
    } else {
        ((a.amount as i128) + 0x1_0000_0000_0000_0000i128) as u64
    };
    proof {
        lemma_pow256_values();
        assert(bits as nat == i64_bits(a.amount as int));
    }
    push_be(buf, bits, 8);
}

/// Appends the raw bytes of a digest.
pub fn push_digest(buf: &mut Vec<u8>, d: &Digest)
    requires
        d.wf(),
    ensures
        final(buf)@ == old(buf)@ + d.bytes@,
{
    buf.extend_from_slice(d.bytes.as_slice());
}

/// Appends the raw bytes of a public key.
pub fn push_pub_key(buf: &mut Vec<u8>, k: &PublicKey)
    requires
        k.wf(),
    ensures
        final(buf)@ == old(buf)@ + k.bytes@,
{
    buf.extend_from_slice(k.bytes.as_slice());
}

/// Appends a signature pair: raw public key, then raw signature.
pub fn push_sig_pair(buf: &mut Vec<u8>, p: &SigPair)
    requires
        p.wf(),
    ensures
        final(buf)@ == old(buf)@ + ser_sig_pair(*p),
{
    buf.extend_from_slice(p.pub_key.bytes.as_slice());
    buf.extend_from_slice(p.signature.bytes.as_slice());
    proof {
        assert(buf@ =~= old(buf)@ + ser_sig_pair(*p));
    }
}

/// A read position over an immutable byte slice. Reads advance the position
/// exactly when they succeed; a failed read leaves it in place.
pub struct Cursor<'a> {
    pub data: &'a [u8],
    pub pos: usize,
}

impl<'a> Cursor<'a> {
    pub open spec fn wf(self) -> bool {
        self.pos <= self.data@.len()
    }

    /// How many bytes remain unread.
    pub open spec fn remaining(self) -> int {
        self.data@.len() - self.pos
    }

    pub fn new(data: &'a [u8]) -> (r: Cursor<'a>)
        ensures
            r.data@ == data@,
            r.pos == 0,
            r.wf(),
    {
        Cursor { data, pos: 0 }
    }

    /// Reads one byte.
    pub fn take_u8(&mut self) -> (r: Option<u8>)
        requires
            old(self).wf(),
        ensures
            final(self).data@ == old(self).data@,
            final(self).wf(),
            old(self).remaining() >= 1 ==> r == Some(old(self).data@[old(self).pos as int])
                && final(self).pos == old(self).pos + 1,
            old(self).remaining() < 1 ==> r is None && final(self).pos == old(self).pos,
    {
        if self.pos < self.data.len() {
            let b = self.data[self.pos];
            self.pos = self.pos + 1;
            Some(b)
        } else {
            None
        }
    }

    /// Reads `n` big-endian bytes as an unsigned value.
    pub fn take_be(&mut self, n: usize) -> (r: Option<u64>)
        requires
            old(self).wf(),
            n <= 8,
        ensures
            final(self).data@ == old(self).data@,
            final(self).wf(),
            old(self).remaining() >= n ==> (r matches Some(v) && v as nat == be_value(
                old(self).data@.subrange(old(self).pos as int, old(self).pos + n),
            ) && final(self).pos == old(self).pos + n),
            old(self).remaining() < n ==> r is None && final(self).pos == old(self).pos,
    {
        if n > self.data.len() - self.pos {
            return None;
        }
        let start = self.pos;
        let mut value: u64 = 0;
        let mut i: usize = 0;
        while i < n
            invariant
                self.data@ == old(self).data@,
                self.pos == start,
                start + n <= self.data@.len(),
                self.data@.len() <= usize::MAX,
                i <= n,
                n <= 8,
                value as nat == be_value(self.data@.subrange(start as int, start + i)),
                (value as nat) < pow256(i as nat),
            decreases n - i,
        {
            let b = self.data[start + i];
            proof {
                lemma_pow256_values();
                lemma_pow256_mono(i as nat, 7);
                let cur = self.data@.subrange(start as int, start + i);
                let next = self.data@.subrange(start as int, start + i + 1);
                assert(next.drop_last() =~= cur);
                assert(next.last() == self.data@[start + i]);
                assert(256 * (value as nat) + b < 256 * pow256(i as nat)) by (nonlinear_arith)
                    requires
                        (value as nat) < pow256(i as nat),
                        b < 256,
                {}
            }
            value = value * 256 + (b as u64);
            i = i + 1;
        }
        self.pos = self.pos + n;
        Some(value)
    }

    /// Reads a big-endian `u16`.
    pub fn take_u16(&mut self) -> (r: Option<u16>)
        requires
            old(self).wf(),
        ensures
            final(self).data@ == old(self).data@,
            final(self).wf(),
            old(self).remaining() >= 2 ==> (r matches Some(v) && v as nat == be_value(
                old(self).data@.subrange(old(self).pos as int, old(self).pos + 2),
            ) && final(self).pos == old(self).pos + 2),
            old(self).remaining() < 2 ==> r is None && final(self).pos == old(self).pos,
    {
        proof {
            lemma_pow256_values();
            if old(self).remaining() >= 2 {
                lemma_be_value_bound(
                    old(self).data@.subrange(old(self).pos as int, old(self).pos + 2),
                );
            }
        }
        match self.take_be(2) {
            Option::Some(v) => Some(v as u16),
            Option::None => None,
        }
    }

    /// Reads a big-endian `u32`.
    pub fn take_u32(&mut self) -> (r: Option<u32>)
        requires
            old(self).wf(),
        ensures
            final(self).data@ == old(self).data@,
            final(self).wf(),
            old(self).remaining() >= 4 ==> (r matches Some(v) && v as nat == be_value(
                old(self).data@.subrange(old(self).pos as int, old(self).pos + 4),
            ) && final(self).pos == old(self).pos + 4),
            old(self).remaining() < 4 ==> r is None && final(self).pos == old(self).pos,
    {
        proof {
            lemma_pow256_values();
            if old(self).remaining() >= 4 {
                lemma_be_value_bound(
                    old(self).data@.subrange(old(self).pos as int, old(self).pos + 4),
                );
            }
        }
        match self.take_be(4) {
            Option::Some(v) => Some(v as u32),
            Option::None => None,
        }
    }

    /// Reads a big-endian `u64`.
    pub fn take_u64(&mut self) -> (r: Option<u64>)
        requires
            old(self).wf(),
        ensures
            final(self).data@ == old(self).data@,
            final(self).wf(),
            old(self).remaining() >= 8 ==> (r matches Some(v) && v as nat == be_value(
                old(self).data@.subrange(old(self).pos as int, old(self).pos + 8),
            ) && final(self).pos == old(self).pos + 8),
            old(self).remaining() < 8 ==> r is None && final(self).pos == old(self).pos,
    {
        self.take_be(8)
    }

    /// Reads `n` raw bytes.
    pub fn take_exact(&mut self, n: usize) -> (r: Option<Vec<u8>>)
        requires
            old(self).wf(),
        ensures
            final(self).data@ == old(self).data@,
            final(self).wf(),
            old(self).remaining() >= n ==> (r matches Some(v) && v@ == old(self).data@.subrange(
                old(self).pos as int,
                old(self).pos + n,
            ) && final(self).pos == old(self).pos + n),
            old(self).remaining() < n ==> r is None && final(self).pos == old(self).pos,
    {
        if n > self.data.len() - self.pos {
            return None;
        }
        let mut out: Vec<u8> = Vec::new();
        out.extend_from_slice(&self.data[self.pos..self.pos + n]);
        self.pos = self.pos + n;
        proof {
            assert(out@ =~= old(self).data@.subrange(old(self).pos as int, old(self).pos + n));
        }
        Some(out)
    }

    /// Reads a `u32` length prefix, then that many bytes.
    pub fn take_bytes(&mut self) -> (r: Option<Vec<u8>>)
        requires
            old(self).wf(),
        ensures
            final(self).data@ == old(self).data@,
            final(self).wf(),
            r matches Some(v) ==> {
                let len = be_value(
                    old(self).data@.subrange(old(self).pos as int, old(self).pos + 4),
                );
                &&& old(self).remaining() >= 4 + len
                &&& v@ == old(self).data@.subrange(
                    old(self).pos + 4,
                    old(self).pos + 4 + len,
                )
                &&& final(self).pos == old(self).pos + 4 + len
            },
            r is None ==> final(self).pos == old(self).pos,
            (old(self).remaining() >= 4 && old(self).remaining() >= 4 + be_value(
                old(self).data@.subrange(old(self).pos as int, old(self).pos + 4),
            )) ==> r is Some,
    {
        let saved = self.pos;
        let len_opt = self.take_u32();
        match len_opt {
            Option::Some(len) => {
                match self.take_exact(len as usize) {
                    Option::Some(v) => Some(v),
                    Option::None => {
                        self.pos = saved;
                        None
                    },
                }
            },
            Option::None => None,
        }
    }

    /// Reads a signed amount from its big-endian two's-complement pattern.
    pub fn take_asset(&mut self) -> (r: Option<Asset>)
        requires
            old(self).wf(),
        ensures
            final(self).data@ == old(self).data@,
            final(self).wf(),
            old(self).remaining() >= 8 ==> (r matches Some(a) && a.amount as int == i64_of_bits(
                be_value(old(self).data@.subrange(old(self).pos as int, old(self).pos + 8)),
            ) && final(self).pos == old(self).pos + 8),
            old(self).remaining() < 8 ==> r is None && final(self).pos == old(self).pos,
    {
        proof {
            lemma_pow256_values();
            if old(self).remaining() >= 8 {
                lemma_be_value_bound(
                    old(self).data@.subrange(old(self).pos as int, old(self).pos + 8),
                );
            }
        }
        match self.take_be(8) {
            Option::Some(bits) => {
                let amount: i64 = if bits <= 0x7FFF_FFFF_FFFF_FFFFu64 {
                    bits as i64
                } else {
                    ((bits as i128) - 0x1_0000_0000_0000_0000i128) as i64
                };
                Some(Asset { amount })
            },
            Option::None => None,
        }
    }

    /// Reads a 32-byte digest.
    pub fn take_digest(&mut self) -> (r: Option<Digest>)
        requires
            old(self).wf(),
        ensures
            final(self).data@ == old(self).data@,
            final(self).wf(),
            old(self).remaining() >= 32 ==> (r matches Some(d) && d.bytes@ == old(self).data@.subrange(old(self).pos as int, old(self).pos + 32) && d.wf() && final(self).pos == old(self).pos + 32),
            old(self).remaining() < 32 ==> r is None && final(self).pos == old(self).pos,
    {
        match self.take_exact(32) {
            Option::Some(bytes) => Some(Digest { bytes }),
            Option::None => None,
        }
    }

    /// Reads a 32-byte public key.
    pub fn take_pub_key(&mut self) -> (r: Option<PublicKey>)
        requires
            old(self).wf(),
        ensures
            final(self).data@ == old(self).data@,
            final(self).wf(),
            old(self).remaining() >= 32 ==> (r matches Some(k) && k.bytes@ == old(self).data@.subrange(old(self).pos as int, old(self).pos + 32) && k.wf() && final(self).pos == old(self).pos + 32),
            old(self).remaining() < 32 ==> r is None && final(self).pos == old(self).pos,
    {
        match self.take_exact(32) {
            Option::Some(bytes) => Some(PublicKey { bytes }),
            Option::None => None,
        }
    }

    /// Reads a signature pair: a 32-byte public key, then a 64-byte
    /// signature.
    pub fn take_sig_pair(&mut self) -> (r: Option<SigPair>)
        requires
            old(self).wf(),
        ensures
            final(self).data@ == old(self).data@,
            final(self).wf(),
            old(self).remaining() >= 96 ==> (r matches Some(p) && p.wf() && p.pub_key.bytes@
                == old(self).data@.subrange(old(self).pos as int, old(self).pos + 32)
                && p.signature.bytes@ == old(self).data@.subrange(
                old(self).pos + 32,
                old(self).pos + 96,
            ) && final(self).pos == old(self).pos + 96),
            old(self).remaining() < 96 ==> r is None && final(self).pos == old(self).pos,
    {
        let saved = self.pos;
        let key_opt = self.take_exact(32);
        match key_opt {
            Option::Some(key_bytes) => {
                match self.take_exact(64) {
                    Option::Some(sig_bytes) => {
                        let p = SigPair {
                            pub_key: PublicKey { bytes: key_bytes },
                            signature: Signature { bytes: sig_bytes },
                        };
                        proof {
                            assert(ser_sig_pair(p) =~= old(self).data@.subrange(
                                old(self).pos as int,
                                old(self).pos + 96,
                            ));
                        }
                        Some(p)
                    },
                    Option::None => {
                        self.pos = saved;
                        None
                    },
                }
            },
            Option::None => None,
        }
    }
}

} // verus!
