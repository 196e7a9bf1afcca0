//! Blocks: a header over an ordered transaction list, sealed by the
//! producer's signature.
//!
//! The transaction merkle root reduces the ordered transaction ids under
//! double-SHA-256, left to right; an empty list reduces to thirty-two zero
//! bytes. The signature covers the digest of the encoded header, and the
//! previous-hash link covers the parent's header the same way.

use crate::crypto::{dsha256, sig_verifies, Digest, KeyPair, SigPair};
use crate::serializer::{push_u32, push_u64, ser_u32, ser_u64, Cursor};
use crate::tx::{tx_v_wf, txid_spec, TxV, TxVariant};
use crate::util::clone_bytes;
use vstd::prelude::*;

verus! {

/// The root of an empty transaction list.
pub open spec fn zero_digest() -> Seq<u8> {
    Seq::new(32, |i: int| 0u8)
}

/// The ids of a transaction list, in order.
pub open spec fn txids_of(txs: Seq<TxV>) -> Seq<Seq<u8>> {
    txs.map_values(|t: TxV| txid_spec(t))
}

/// The merkle reduction: ids are folded left to right under
/// double-SHA-256; a single id is its own root, no ids reduce to zeroes.
pub open spec fn merkle_root_spec(ids: Seq<Seq<u8>>) -> Seq<u8>
    decreases ids.len(),
{
    if ids.len() == 0 {
        zero_digest()
    } else if ids.len() == 1 {
        ids[0]
    } else {
        dsha256(merkle_root_spec(ids.drop_last()) + ids.last())
    }
}

/// The mathematical shape of a block.
pub ghost struct BlockV {
    pub height: u64,
    pub previous_hash: Seq<u8>,
    pub tx_merkle_root: Seq<u8>,
    pub timestamp: u64,
    pub transactions: Seq<TxV>,
}

/// An unsigned block: header fields and the transaction list.
#[derive(Debug)]
pub struct Block {
    pub height: u64,
    pub previous_hash: Digest,
    pub tx_merkle_root: Digest,
    pub timestamp: u64,
    pub transactions: Vec<TxVariant>,
}

pub open spec fn txs_view(s: Seq<TxVariant>) -> Seq<TxV> {
    s.map_values(|t: TxVariant| t@)
}

impl View for Block {
    type V = BlockV;

    open spec fn view(&self) -> BlockV {
        BlockV {
            height: self.height,
            previous_hash: self.previous_hash.bytes@,
            tx_merkle_root: self.tx_merkle_root.bytes@,
            timestamp: self.timestamp,
            transactions: txs_view(self.transactions@),
        }
    }
}

pub open spec fn block_v_wf(b: BlockV) -> bool {
    &&& b.previous_hash.len() == 32
    &&& b.tx_merkle_root.len() == 32
    &&& b.transactions.len() < 0x1_0000_0000
    &&& forall|i: int| 0 <= i < b.transactions.len() ==> crate::tx::tx_v_wf(
        #[trigger] b.transactions[i],
    )
}

/// The encoded header: height, previous hash, merkle root, timestamp. The
/// block's own hash, and the signature, cover exactly these bytes.
pub open spec fn ser_block_header(b: BlockV) -> Seq<u8> {
    ser_u64(b.height) + b.previous_hash + b.tx_merkle_root + ser_u64(b.timestamp)
}

/// What identifies a block: the digest of its encoded header.
pub open spec fn block_hash_spec(b: BlockV) -> Seq<u8> {
    dsha256(ser_block_header(b))
}

/// Computes the merkle root of a transaction list.
pub fn calc_tx_merkle_root(txs: &Vec<TxVariant>) -> (r: Digest)
    requires
        forall|i: int| 0 <= i < txs@.len() ==> (#[trigger] txs@[i]).wf(),
    ensures
        r.bytes@ == merkle_root_spec(txids_of(txs_view(txs@))),
        r.wf(),
{
    let ghost ids = txids_of(txs_view(txs@));
    if txs.len() == 0 {
        let mut zeroes: Vec<u8> = Vec::new();
        let mut i: usize = 0;
        while i < 32
            invariant
                i <= 32,
                zeroes@.len() == i,
                forall|j: int| 0 <= j < i ==> zeroes@[j] == 0u8,
            decreases 32 - i,
        {
            zeroes.push(0u8);
            i = i + 1;
        }
        proof {
            assert(zeroes@ =~= zero_digest());
        }
        return Digest { bytes: zeroes };
    }
    proof {
        assert(txs_view(txs@)[0] == txs@[0]@);
    }
    let mut acc: Digest = txs[0].calc_txid().digest;
    let mut i: usize = 1;
    while i < txs.len()
        invariant
            1 <= i <= txs@.len(),
            forall|k: int| 0 <= k < txs@.len() ==> (#[trigger] txs@[k]).wf(),
            ids == txids_of(txs_view(txs@)),
            ids.len() == txs@.len(),
            acc.bytes@ == merkle_root_spec(ids.take(i as int)),
            acc.wf(),
        decreases txs@.len() - i,
    {
        proof {
            assert(txs_view(txs@)[i as int] == txs@[i as int]@);
            assert(ids[i as int] == txid_spec(txs@[i as int]@));
        }
        let id = txs[i].calc_txid();
        let mut joined = clone_bytes(&acc.bytes);
        joined.extend_from_slice(id.digest.bytes.as_slice());
        proof {
            assert(joined@ =~= merkle_root_spec(ids.take(i as int)) + ids[i as int]);
            assert(ids.take(i + 1).drop_last() =~= ids.take(i as int));
            assert(ids.take(i + 1).last() == ids[i as int]);
        }
        acc = crate::crypto::double_sha256(joined.as_slice());
        i = i + 1;
    }
    proof {
        assert(ids.take(txs@.len() as int) =~= ids);
    }
    acc
}

impl Block {
    /// The block's header digest.
    pub fn calc_hash(&self) -> (r: Digest)
        requires
            self@.previous_hash.len() == 32,
            self@.tx_merkle_root.len() == 32,
        ensures
            r.bytes@ == block_hash_spec(self@),
            r.wf(),
    {
        let mut buf: Vec<u8> = Vec::new();
        crate::serializer::push_u64(&mut buf, self.height);
        buf.extend_from_slice(self.previous_hash.bytes.as_slice());
        buf.extend_from_slice(self.tx_merkle_root.bytes.as_slice());
        crate::serializer::push_u64(&mut buf, self.timestamp);
        proof {
            assert(buf@ =~= ser_block_header(self@));
        }
        Digest { bytes: crate::crypto::double_sha256(buf.as_slice()).bytes }
    }

    /// Seals the block with the producer's signature over its header
    /// digest.
    pub fn sign(self, key_pair: &KeyPair) -> (r: SignedBlock)
        requires
            self@.previous_hash.len() == 32,
            self@.tx_merkle_root.len() == 32,
            key_pair.wf(),
        ensures
            r.block@ == self@,
            r.sig_pair.pub_key.bytes@ == key_pair.0.bytes@,
            r.sig_pair.signature.bytes@ == crate::crypto::signed_bytes(
                key_pair.1.bytes@,
                block_hash_spec(self@),
            ),
            r.sig_pair.wf(),
            key_pair.valid() ==> sig_verifies(
                key_pair.0.bytes@,
                block_hash_spec(self@),
                r.sig_pair.signature.bytes@,
            ),
    {
        let hash = self.calc_hash();
        let sig_pair = key_pair.sign(hash.bytes.as_slice());
        SignedBlock { block: self, sig_pair }
    }
}

/// The mathematical shape of a signed block.
pub ghost struct SignedBlockV {
    pub block: BlockV,
    pub sig: crate::tx::SigPairV,
}

/// A block together with its producer's signature.
#[derive(Debug)]
pub struct SignedBlock {
    pub block: Block,
    pub sig_pair: SigPair,
}

impl View for SignedBlock {
    type V = SignedBlockV;

    open spec fn view(&self) -> SignedBlockV {
        SignedBlockV { block: self.block@, sig: crate::tx::sig_pair_view(self.sig_pair) }
    }
}

pub open spec fn signed_block_wf(b: SignedBlockV) -> bool {
    block_v_wf(b.block) && crate::tx::sig_pair_v_wf(b.sig)
}

impl SignedBlock {
    pub open spec fn wf(self) -> bool {
        signed_block_wf(self@)
    }

    /// The ordered transactions.
    pub fn txs(&self) -> (r: &Vec<TxVariant>)
        ensures
            txs_view(r@) == self@.block.transactions,
    {
        &self.block.transactions
    }

    /// The block's height in the chain.
    pub fn height(&self) -> (r: u64)
        ensures
            r == self@.block.height,
    {
        self.block.height
    }

    /// The block's header digest.
    pub fn calc_hash(&self) -> (r: Digest)
        requires
            self.wf(),
        ensures
            r.bytes@ == block_hash_spec(self@.block),
            r.wf(),
    {
        self.block.calc_hash()
    }

    /// Whether the recorded merkle root matches the transactions.
    pub fn verify_tx_merkle_root(&self) -> (r: bool)
        requires
            self.wf(),
        ensures
            r == (self@.block.tx_merkle_root == merkle_root_spec(
                txids_of(self@.block.transactions),
            )),
    {
        proof {
            assert forall|i: int| 0 <= i < self.block.transactions@.len() implies (
            #[trigger] self.block.transactions@[i]).wf() by {
                assert(self@.block.transactions[i] == self.block.transactions@[i]@);
            }
        }
        let root = calc_tx_merkle_root(&self.block.transactions);
        crate::util::bytes_eq(self.block.tx_merkle_root.bytes.as_slice(), root.bytes.as_slice())
    }

    /// Whether the recorded previous hash is the parent's header digest.
    pub fn verify_previous_hash(&self, prev: &SignedBlock) -> (r: bool)
        requires
            self.wf(),
            prev.wf(),
        ensures
            r == (self@.block.previous_hash == block_hash_spec(prev@.block)),
    {
        let parent = prev.calc_hash();
        crate::util::bytes_eq(self.block.previous_hash.bytes.as_slice(), parent.bytes.as_slice())
    }

    /// Whether the producer's signature verifies over the header digest.
    pub fn verify_signature(&self) -> (r: bool)
        requires
            self.wf(),
        ensures
            r == sig_verifies(self@.sig.pk, block_hash_spec(self@.block), self@.sig.sig),
    {
        let hash = self.calc_hash();
        self.sig_pair.verify(hash.bytes.as_slice())
    }
}


/// The canonical encodings of the transactions of a block, concatenated.
pub open spec fn ser_txs_v(txs: Seq<TxV>) -> Seq<u8>
    decreases txs.len(),
{
    if txs.len() == 0 {
        Seq::empty()
    } else {
        ser_txs_v(txs.drop_last()) + crate::tx::ser_tx_v(txs.last())
    }
}

/// A signed block on the wire: the header, a `u32` transaction count, the
/// transactions, then the producer's signature pair.
pub open spec fn ser_signed_block_v(b: SignedBlockV) -> Seq<u8> {
    ser_block_header(b.block) + ser_u32(b.block.transactions.len() as u32) + ser_txs_v(
        b.block.transactions,
    ) + crate::tx::ser_sig_pair_v(b.sig)
}

/// The canonical parse of `n` transactions in sequence.
pub open spec fn p_txs(s: Seq<u8>, pos: int, n: nat) -> Option<(Seq<TxV>, int)>
    decreases n,
{
    if n == 0 {
        Some((Seq::empty(), pos))
    } else {
        match crate::tx::parse_tx(s, pos) {
            Option::None => None,
            Option::Some((t, p)) => match p_txs(s, p, (n - 1) as nat) {
                Option::None => None,
                Option::Some((rest, e)) => Some((seq![t] + rest, e)),
            },
        }
    }
}

/// The canonical parse of a signed block: the header, a transaction count,
/// the transactions, then the producer's signature pair. Exactly the
/// inverse shape of [`ser_signed_block_v`].
pub open spec fn parse_signed_block(s: Seq<u8>, pos: int) -> Option<(SignedBlockV, int)> {
    match crate::tx::p_be(s, pos, 8) {
        Option::None => None,
        Option::Some((height, p1)) => match crate::tx::p_arr(s, p1, 32) {
            Option::None => None,
            Option::Some((prev, p2)) => match crate::tx::p_arr(s, p2, 32) {
                Option::None => None,
                Option::Some((root, p3)) => match crate::tx::p_be(s, p3, 8) {
                    Option::None => None,
                    Option::Some((ts, p4)) => match crate::tx::p_be(s, p4, 4) {
                        Option::None => None,
                        Option::Some((count, p5)) => match p_txs(s, p5, count) {
                            Option::None => None,
                            Option::Some((txs, p6)) => match crate::tx::p_sig_pair(s, p6) {
                                Option::None => None,
                                Option::Some((sig, p7)) => Some(
                                    (
                                        SignedBlockV {
                                            block: BlockV {
                                                height: height as u64,
                                                previous_hash: prev,
                                                tx_merkle_root: root,
                                                timestamp: ts as u64,
                                                transactions: txs,
                                            },
                                            sig,
                                        },
                                        p7,
                                    ),
                                ),
                            },
                        },
                    },
                },
            },
        },
    }
}

/// Reads `count` transactions in sequence: exactly the canonical parse.
#[verifier::rlimit(100)]
fn decode_txs(cur: &mut Cursor, count: u32) -> (r: Option<Vec<TxVariant>>)
    requires
        old(cur).wf(),
    ensures
        final(cur).data@ == old(cur).data@,
        final(cur).wf(),
        match p_txs(old(cur).data@, old(cur).pos as int, count as nat) {
            Option::Some((g, e)) => r matches Some(v) && txs_view(v@) == g && v@.len()
                == count && final(cur).pos == e && (forall|j: int|
                0 <= j < v@.len() ==> tx_v_wf((#[trigger] v@[j])@)),
            Option::None => r is None,
        },
{
    let ghost s = cur.data@;
    let ghost pos0 = cur.pos as int;
    let mut transactions: Vec<TxVariant> = Vec::new();
    let mut i: u32 = 0;
    proof {
        assert(txs_view(transactions@) =~= Seq::<TxV>::empty());
    }
    while i < count
        invariant
            cur.wf(),
            cur.data@ == s,
            s == old(cur).data@,
            pos0 == old(cur).pos as int,
            i <= count,
            transactions@.len() == i,
            txs_view(transactions@).len() == i,
            forall|j: int| 0 <= j < transactions@.len() ==> tx_v_wf(
                (#[trigger] transactions@[j])@,
            ),
            match p_txs(s, cur.pos as int, (count - i) as nat) {
                Option::Some((rest, e)) => p_txs(s, pos0, count as nat) == Some::<
                    (Seq<TxV>, int),
                >((txs_view(transactions@) + rest, e)),
                Option::None => p_txs(s, pos0, count as nat) is None,
            },
        decreases count - i,
    {
        let ghost before = cur.pos as int;
        let tx = match TxVariant::deserialize(cur) {
            Option::Some(t) => t,
            Option::None => {
                proof {
                    assert(p_txs(s, before, (count - i) as nat) is None);
                }
                return None;
            },
        };
        proof {
            let tv = tx@;
            assert(txs_view(transactions@.push(tx)) =~= txs_view(transactions@).push(tv));
        }
        transactions.push(tx);
        i = i + 1;
        proof {
            match p_txs(s, cur.pos as int, (count - i) as nat) {
                Option::Some((rest, e)) => {
                    assert(txs_view(transactions@) + rest =~= txs_view(
                        transactions@.drop_last(),
                    ) + (seq![transactions@.last()@] + rest));
                },
                Option::None => {},
            }
        }
    }
    proof {
        assert(p_txs(s, cur.pos as int, 0) == Some::<(Seq<TxV>, int)>(
            (Seq::empty(), cur.pos as int),
        ));
        assert(txs_view(transactions@) + Seq::<TxV>::empty() =~= txs_view(transactions@));
    }
    Some(transactions)
}

impl SignedBlock {
    /// Copies the block; the contract pins the view.
    pub fn duplicate(&self) -> (r: SignedBlock)
        ensures
            r@ == self@,
    {
        let mut transactions: Vec<TxVariant> = Vec::new();
        let src = &self.block.transactions;
        let mut i: usize = 0;
        while i < src.len()
            invariant
                i <= src@.len(),
                transactions@.len() == i,
                forall|j: int| 0 <= j < i ==> (#[trigger] transactions@[j])@ == src@[j]@,
            decreases src@.len() - i,
        {
            transactions.push(src[i].duplicate());
            i = i + 1;
        }
        let r = SignedBlock {
            block: Block {
                height: self.block.height,
                previous_hash: Digest { bytes: clone_bytes(&self.block.previous_hash.bytes) },
                tx_merkle_root: Digest { bytes: clone_bytes(&self.block.tx_merkle_root.bytes) },
                timestamp: self.block.timestamp,
                transactions,
            },
            sig_pair: crate::tx::clone_sig_pair(&self.sig_pair),
        };
        proof {
            assert(txs_view(r.block.transactions@) =~= txs_view(self.block.transactions@));
        }
        r
    }

    /// Appends the canonical encoding of the block, transactions included.
    pub fn encode_with_tx(&self, buf: &mut Vec<u8>)
        requires
            self.wf(),
        ensures
            final(buf)@ == old(buf)@ + ser_signed_block_v(self@),
    {
        push_u64(buf, self.block.height);
        buf.extend_from_slice(self.block.previous_hash.bytes.as_slice());
        buf.extend_from_slice(self.block.tx_merkle_root.bytes.as_slice());
        push_u64(buf, self.block.timestamp);
        proof {
            assert(buf@ =~= old(buf)@ + ser_block_header(self@.block));
        }
        push_u32(buf, self.block.transactions.len() as u32);
        let ghost mid = buf@;
        let ghost bt = self@.block.transactions;
        let src = &self.block.transactions;
        let mut i: usize = 0;
        proof {
            assert(bt.take(0) =~= Seq::<TxV>::empty());
            assert(buf@ =~= mid + ser_txs_v(bt.take(0)));
        }
        while i < src.len()
            invariant
                i <= src@.len(),
                src == &self.block.transactions,
                self.wf(),
                bt == self@.block.transactions,
                bt.len() == src@.len(),
                buf@ == mid + ser_txs_v(bt.take(i as int)),
            decreases src@.len() - i,
        {
            proof {
                assert(bt[i as int] == src@[i as int]@);
                assert(tx_v_wf(bt[i as int]));
                assert(bt.take(i + 1).drop_last() =~= bt.take(i as int));
                assert(bt.take(i + 1).last() == bt[i as int]);
            }
            src[i].serialize(buf);
            i = i + 1;
        }
        proof {
            assert(bt.take(src@.len() as int) =~= bt);
        }
        crate::serializer::push_sig_pair(buf, &self.sig_pair);
        proof {
            assert(buf@ =~= old(buf)@ + ser_signed_block_v(self@));
        }
    }

    /// Decodes a block, transactions included. Succeeds exactly when the
    /// canonical parse does, returns exactly the parsed view, and the
    /// result is well formed.
    #[verifier::rlimit(100)]
    pub fn decode_with_tx(cur: &mut Cursor) -> (r: Option<SignedBlock>)
        requires
            old(cur).wf(),
        ensures
            final(cur).data@ == old(cur).data@,
            final(cur).wf(),
            match parse_signed_block(old(cur).data@, old(cur).pos as int) {
                Option::Some((v, p)) => r matches Some(b) && b@ == v && b.wf()
                    && final(cur).pos == p,
                Option::None => r is None,
            },
    {
        let ghost s = cur.data@;
        let ghost pos0 = cur.pos as int;
        let height = match cur.take_u64() {
            Option::Some(v) => v,
            Option::None => {
                return None;
            },
        };
        let previous_hash = match cur.take_digest() {
            Option::Some(v) => v,
            Option::None => {
                return None;
            },
        };
        let tx_merkle_root = match cur.take_digest() {
            Option::Some(v) => v,
            Option::None => {
                return None;
            },
        };
        let timestamp = match cur.take_u64() {
            Option::Some(v) => v,
            Option::None => {
                return None;
            },
        };
        let count = match cur.take_u32() {
            Option::Some(v) => v,
            Option::None => {
                return None;
            },
        };
        let transactions = match decode_txs(cur, count) {
            Option::Some(v) => v,
            Option::None => {
                return None;
            },
        };
        let sig_pair = match cur.take_sig_pair() {
            Option::Some(p) => p,
            Option::None => {
                proof {
                    assert(crate::tx::p_sig_pair(s, cur.pos as int) is None);
                    assert(parse_signed_block(s, pos0) is None);
                }
                return None;
            },
        };
        proof {
            assert(crate::tx::p_sig_pair(s, cur.pos - 96) == Some::<(crate::tx::SigPairV, int)>(
                (crate::tx::sig_pair_view(sig_pair), cur.pos as int),
            ));
        }
        let b = SignedBlock {
            block: Block { height, previous_hash, tx_merkle_root, timestamp, transactions },
            sig_pair,
        };
        proof {
            assert forall|j: int| 0 <= j < b@.block.transactions.len() implies tx_v_wf(
                #[trigger] b@.block.transactions[j],
            ) by {
                assert(b@.block.transactions[j] == b.block.transactions@[j]@);
            }
            match parse_signed_block(s, pos0) {
                Option::Some((v, p)) => {
                    assert(b@.block.height == v.block.height);
                    assert(b@.block.previous_hash == v.block.previous_hash);
                    assert(b@.block.tx_merkle_root == v.block.tx_merkle_root);
                    assert(b@.block.timestamp == v.block.timestamp);
                    assert(b@.block.transactions == v.block.transactions);
                    assert(b@.sig == v.sig);
                    assert(b@.block == v.block);
                    assert(b@ == v);
                    assert(cur.pos == p);
                },
                Option::None => {
                    assert(false);
                },
            }
        }
        Some(b)
    }
}

} // verus!
