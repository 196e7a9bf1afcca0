//! The transaction model and its canonical codec.
//!
//! Four variants travel on the wire — owner rotation, minting, rewards and
//! transfers — all in version 0 framing. The layout is fixed:
//! `version(u16) || tag(u8) || nonce(u32) || expiry(u64) || fee ||
//! payload || sig_count(u8) || sig_pairs`. A transaction id is the
//! double-SHA-256 of the chain id followed by the signature-free encoding,
//! so signers sign the id itself. The tag reserved for the account-id
//! ownership encoding is recognised and rejected at the codec layer.

use crate::asset::Asset;
use crate::constants::chain_id_seq;
use crate::crypto::{dsha256, signed_bytes, Digest, KeyPair, PublicKey, SigPair};
use crate::script::{Script, ScriptHash};
use crate::serializer::{
    be_bytes, be_value, i64_bits, i64_of_bits, lemma_be_bytes_props, lemma_be_value_bound,
    lemma_pow256_values, pow256, push_asset, push_bytes, push_digest, push_pub_key, push_sig_pair,
    push_u16,
    push_u32, push_u64, push_u8, ser_bytes, ser_sig_pair, ser_u16, Cursor,
};
use crate::util::{clone_bytes, string_from_utf8};
use vstd::prelude::*;
use vstd::string::StringExecFns;
use vstd::utf8::{decode_utf8, encode_utf8, valid_utf8};

verus! {

/// The wire tags, in tag order.
#[derive(Clone, Copy, Debug, PartialEq, Eq, Structural)]
pub enum TxType {
    Owner,
    Mint,
    CreateAccount,
    Transfer,
    Reward,
}

/// The one-byte tag of each transaction type.
pub open spec fn tx_type_tag(t: TxType) -> u8 {
    match t {
        TxType::Owner => 0,
        TxType::Mint => 1,
        TxType::CreateAccount => 2,
        TxType::Transfer => 3,
        TxType::Reward => 4,
    }
}

// ---------------------------------------------------------------------------
// Mathematical views of the transaction data.
// ---------------------------------------------------------------------------

pub ghost struct SigPairV {
    pub pk: Seq<u8>,
    pub sig: Seq<u8>,
}

pub ghost struct TxBaseV {
    pub nonce: nat,
    pub expiry: nat,
    pub fee: int,
    pub sigs: Seq<SigPairV>,
}

pub ghost struct OwnerV {
    pub base: TxBaseV,
    pub minter: Seq<u8>,
    pub wallet: Seq<u8>,
    pub script: Seq<u8>,
}

pub ghost struct MintV {
    pub base: TxBaseV,
    pub to: Seq<u8>,
    pub amount: int,
    pub attachment: Seq<u8>,
    pub attachment_name: Seq<char>,
    pub script: Seq<u8>,
}

pub ghost struct RewardV {
    pub base: TxBaseV,
    pub to: Seq<u8>,
    pub rewards: int,
}

pub ghost struct TransferV {
    pub base: TxBaseV,
    pub from: Seq<u8>,
    pub script: Seq<u8>,
    pub call_fn: u8,
    pub args: Seq<u8>,
    pub amount: int,
    pub memo: Seq<u8>,
    pub to: Seq<u8>,
}

pub ghost enum TxV {
    Owner(OwnerV),
    Mint(MintV),
    Reward(RewardV),
    Transfer(TransferV),
}

impl TxV {
    pub open spec fn base(self) -> TxBaseV {
        match self {
            TxV::Owner(o) => o.base,
            TxV::Mint(m) => m.base,
            TxV::Reward(r) => r.base,
            TxV::Transfer(t) => t.base,
        }
    }

    /// The same transaction with another signature list.
    pub open spec fn with_sigs(self, sigs: Seq<SigPairV>) -> TxV {
        match self {
            TxV::Owner(o) => TxV::Owner(OwnerV { base: TxBaseV { sigs, ..o.base }, ..o }),
            TxV::Mint(m) => TxV::Mint(MintV { base: TxBaseV { sigs, ..m.base }, ..m }),
            TxV::Reward(r) => TxV::Reward(RewardV { base: TxBaseV { sigs, ..r.base }, ..r }),
            TxV::Transfer(t) => TxV::Transfer(
                TransferV { base: TxBaseV { sigs, ..t.base }, ..t },
            ),
        }
    }
}

pub open spec fn sig_pair_v_wf(p: SigPairV) -> bool {
    p.pk.len() == 32 && p.sig.len() == 64
}

pub open spec fn base_v_wf(b: TxBaseV) -> bool {
    &&& b.nonce < 0x1_0000_0000
    &&& b.expiry < 0x1_0000_0000_0000_0000
    &&& -0x8000_0000_0000_0000 <= b.fee < 0x8000_0000_0000_0000
    &&& b.sigs.len() <= 255
    &&& forall|i: int| 0 <= i < b.sigs.len() ==> sig_pair_v_wf(#[trigger] b.sigs[i])
}

pub open spec fn amount_wf(x: int) -> bool {
    -0x8000_0000_0000_0000 <= x < 0x8000_0000_0000_0000
}

pub open spec fn blob_wf(b: Seq<u8>) -> bool {
    b.len() < 0x1_0000_0000
}

/// Well-formedness of a transaction view: every key and address is the right
/// size, every amount fits, and every byte string fits its length prefix.
pub open spec fn tx_v_wf(v: TxV) -> bool {
    base_v_wf(v.base()) && match v {
        TxV::Owner(o) => o.minter.len() == 32 && o.wallet.len() == 32 && blob_wf(o.script),
        TxV::Mint(m) => m.to.len() == 32 && amount_wf(m.amount) && blob_wf(m.attachment)
            && blob_wf(encode_utf8(m.attachment_name)) && blob_wf(m.script),
        TxV::Reward(r) => r.to.len() == 32 && amount_wf(r.rewards),
        TxV::Transfer(t) => t.from.len() == 32 && blob_wf(t.script) && blob_wf(t.args)
            && amount_wf(t.amount) && blob_wf(t.memo) && t.to.len() == 32,
    }
}

// ---------------------------------------------------------------------------
// Canonical serialization, over the views.
// ---------------------------------------------------------------------------

pub open spec fn ser_sig_pair_v(p: SigPairV) -> Seq<u8> {
    p.pk + p.sig
}

pub open spec fn ser_sigs_v(s: Seq<SigPairV>) -> Seq<u8>
    decreases s.len(),
{
    if s.len() == 0 {
        Seq::empty()
    } else {
        ser_sigs_v(s.drop_last()) + ser_sig_pair_v(s.last())
    }
}

/// The shared header: tag, nonce, expiry, fee.
pub open spec fn ser_base_v(tag: u8, b: TxBaseV) -> Seq<u8> {
    seq![tag] + be_bytes(b.nonce, 4) + be_bytes(b.expiry, 8) + be_bytes(i64_bits(b.fee), 8)
}

pub open spec fn ser_i64(x: int) -> Seq<u8> {
    be_bytes(i64_bits(x), 8)
}

/// The signature-free encoding: version, then tag and header, then the
/// variant payload.
pub open spec fn ser_wo_sigs_v(v: TxV) -> Seq<u8> {
    ser_u16(0) + match v {
        TxV::Owner(o) => ser_base_v(0, o.base) + o.minter + o.wallet + ser_bytes(o.script),
        TxV::Mint(m) => ser_base_v(1, m.base) + m.to + ser_i64(m.amount) + ser_bytes(m.attachment)
            + ser_bytes(encode_utf8(m.attachment_name)) + ser_bytes(m.script),
        TxV::Reward(r) => ser_base_v(4, r.base) + r.to + ser_i64(r.rewards),
        TxV::Transfer(t) => ser_base_v(3, t.base) + t.from + ser_bytes(t.script) + seq![t.call_fn]
            + ser_bytes(t.args) + ser_i64(t.amount) + ser_bytes(t.memo) + t.to,
    }
}

/// The full encoding: the signature-free part, the signature count, then the
/// signature pairs in order.
pub open spec fn ser_tx_v(v: TxV) -> Seq<u8> {
    ser_wo_sigs_v(v) + seq![v.base().sigs.len() as u8] + ser_sigs_v(v.base().sigs)
}

/// What identifies a transaction: the digest of the chain id followed by its
/// signature-free encoding.
pub open spec fn txid_spec(v: TxV) -> Seq<u8> {
    dsha256(chain_id_seq() + ser_wo_sigs_v(v))
}

// ---------------------------------------------------------------------------
// The executable transaction data.
// ---------------------------------------------------------------------------

pub open spec fn sig_pair_view(p: SigPair) -> SigPairV {
    SigPairV { pk: p.pub_key.bytes@, sig: p.signature.bytes@ }
}

pub open spec fn sigs_view(s: Seq<SigPair>) -> Seq<SigPairV> {
    s.map_values(|p: SigPair| sig_pair_view(p))
}

/// The fields shared by every variant.
#[derive(Clone, Debug, PartialEq, Eq)]
pub struct Tx {
    pub nonce: u32,
    pub expiry: u64,
    pub fee: Asset,
    pub signature_pairs: Vec<SigPair>,
}

impl View for Tx {
    type V = TxBaseV;

    open spec fn view(&self) -> TxBaseV {
        TxBaseV {
            nonce: self.nonce as nat,
            expiry: self.expiry as nat,
            fee: self.fee.amount as int,
            sigs: sigs_view(self.signature_pairs@),
        }
    }
}

/// Rotates network ownership to a new minter key and reward wallet.
#[derive(Clone, Debug, PartialEq, Eq)]
pub struct OwnerTx {
    pub base: Tx,
    pub minter: PublicKey,
    pub wallet: ScriptHash,
    pub script: Script,
}

impl View for OwnerTx {
    type V = OwnerV;

    open spec fn view(&self) -> OwnerV {
        OwnerV {
            base: self.base@,
            minter: self.minter.bytes@,
            wallet: self.wallet.addr(),
            script: self.script.bytes@,
        }
    }
}

/// Creates new tokens on a recipient address.
#[derive(Clone, Debug, PartialEq, Eq)]
pub struct MintTx {
    pub base: Tx,
    pub to: ScriptHash,
    pub amount: Asset,
    pub attachment: Vec<u8>,
    pub attachment_name: String,
    pub script: Script,
}

impl View for MintTx {
    type V = MintV;

    open spec fn view(&self) -> MintV {
        MintV {
            base: self.base@,
            to: self.to.addr(),
            amount: self.amount.amount as int,
            attachment: self.attachment@,
            attachment_name: self.attachment_name@,
            script: self.script.bytes@,
        }
    }
}

/// Returns collected fees to the block producer; generated internally by
/// block production, never broadcast.
#[derive(Clone, Debug, PartialEq, Eq)]
pub struct RewardTx {
    pub base: Tx,
    pub to: ScriptHash,
    pub rewards: Asset,
}

impl View for RewardTx {
    type V = RewardV;

    open spec fn view(&self) -> RewardV {
        RewardV { base: self.base@, to: self.to.addr(), rewards: self.rewards.amount as int }
    }
}

/// Moves value from a script's address to a recipient.
#[derive(Clone, Debug, PartialEq, Eq)]
pub struct TransferTx {
    pub base: Tx,
    pub from: ScriptHash,
    pub script: Script,
    pub call_fn: u8,
    pub args: Vec<u8>,
    pub amount: Asset,
    pub memo: Vec<u8>,
    pub to: ScriptHash,
}

impl View for TransferTx {
    type V = TransferV;

    open spec fn view(&self) -> TransferV {
        TransferV {
            base: self.base@,
            from: self.from.addr(),
            script: self.script.bytes@,
            call_fn: self.call_fn,
            args: self.args@,
            amount: self.amount.amount as int,
            memo: self.memo@,
            to: self.to.addr(),
        }
    }
}

/// The version-0 variant set.
#[derive(Clone, Debug, PartialEq, Eq)]
pub enum TxVariantV0 {
    OwnerTx(OwnerTx),
    MintTx(MintTx),
    RewardTx(RewardTx),
    TransferTx(TransferTx),
}

/// A transaction of any supported version.
#[derive(Clone, Debug, PartialEq, Eq)]
pub enum TxVariant {
    V0(TxVariantV0),
}

impl View for TxVariant {
    type V = TxV;

    open spec fn view(&self) -> TxV {
        match self {
            TxVariant::V0(v) => match v {
                TxVariantV0::OwnerTx(t) => TxV::Owner(t@),
                TxVariantV0::MintTx(t) => TxV::Mint(t@),
                TxVariantV0::RewardTx(t) => TxV::Reward(t@),
                TxVariantV0::TransferTx(t) => TxV::Transfer(t@),
            },
        }
    }
}


impl Tx {
    /// Appends nonce, expiry and fee — the header shared by every variant.
    fn serialize_header(&self, buf: &mut Vec<u8>)
        ensures
            final(buf)@ == old(buf)@ + be_bytes(self.nonce as nat, 4) + be_bytes(
                self.expiry as nat,
                8,
            ) + ser_i64(self.fee.amount as int),
    {
        push_u32(buf, self.nonce);
        push_u64(buf, self.expiry);
        push_asset(buf, self.fee);
    }
}

impl OwnerTx {
    /// Appends the tag, header and payload of an ownership rotation.
    pub fn serialize(&self, buf: &mut Vec<u8>)
        requires
            tx_v_wf(TxV::Owner(self@)),
        ensures
            final(buf)@ == old(buf)@ + ser_base_v(0, self.base@) + self@.minter + self@.wallet
                + ser_bytes(self@.script),
    {
        push_u8(buf, 0);
        self.base.serialize_header(buf);
        push_pub_key(buf, &self.minter);
        push_digest(buf, &self.wallet.digest);
        push_bytes(buf, self.script.bytes.as_slice());
        proof {
            assert(buf@ =~= old(buf)@ + ser_base_v(0, self.base@) + self@.minter + self@.wallet
                + ser_bytes(self@.script));
        }
    }
}

impl MintTx {
    /// Appends the tag, header and payload of a mint.
    pub fn serialize(&self, buf: &mut Vec<u8>)
        requires
            tx_v_wf(TxV::Mint(self@)),
        ensures
            final(buf)@ == old(buf)@ + ser_base_v(1, self.base@) + self@.to + ser_i64(self@.amount)
                + ser_bytes(self@.attachment) + ser_bytes(encode_utf8(self@.attachment_name))
                + ser_bytes(self@.script),
    {
        push_u8(buf, 1);
        self.base.serialize_header(buf);
        push_digest(buf, &self.to.digest);
        push_asset(buf, self.amount);
        push_bytes(buf, self.attachment.as_slice());
        push_bytes(buf, self.attachment_name.as_str().as_bytes());
        push_bytes(buf, self.script.bytes.as_slice());
        proof {
            assert(buf@ =~= old(buf)@ + ser_base_v(1, self.base@) + self@.to + ser_i64(
                self@.amount,
            ) + ser_bytes(self@.attachment) + ser_bytes(encode_utf8(self@.attachment_name))
                + ser_bytes(self@.script));
        }
    }
}

impl RewardTx {
    /// Appends the tag, header and payload of a reward.
    pub fn serialize(&self, buf: &mut Vec<u8>)
        requires
            tx_v_wf(TxV::Reward(self@)),
        ensures
            final(buf)@ == old(buf)@ + ser_base_v(4, self.base@) + self@.to + ser_i64(
                self@.rewards,
            ),
    {
        push_u8(buf, 4);
        self.base.serialize_header(buf);
        push_digest(buf, &self.to.digest);
        push_asset(buf, self.rewards);
        proof {
            assert(buf@ =~= old(buf)@ + ser_base_v(4, self.base@) + self@.to + ser_i64(
                self@.rewards,
            ));
        }
    }
}

impl TransferTx {
    /// Appends the tag, header and payload of a transfer.
    pub fn serialize(&self, buf: &mut Vec<u8>)
        requires
            tx_v_wf(TxV::Transfer(self@)),
        ensures
            final(buf)@ == old(buf)@ + ser_base_v(3, self.base@) + self@.from + ser_bytes(
                self@.script,
            ) + seq![self@.call_fn] + ser_bytes(self@.args) + ser_i64(self@.amount) + ser_bytes(
                self@.memo,
            ) + self@.to,
    {
        push_u8(buf, 3);
        self.base.serialize_header(buf);
        push_digest(buf, &self.from.digest);
        push_bytes(buf, self.script.bytes.as_slice());
        push_u8(buf, self.call_fn);
        push_bytes(buf, self.args.as_slice());
        push_asset(buf, self.amount);
        push_bytes(buf, self.memo.as_slice());
        push_digest(buf, &self.to.digest);
        proof {
            assert(buf@ =~= old(buf)@ + ser_base_v(3, self.base@) + self@.from + ser_bytes(
                self@.script,
            ) + seq![self@.call_fn] + ser_bytes(self@.args) + ser_i64(self@.amount) + ser_bytes(
                self@.memo,
            ) + self@.to);
        }
    }
}

impl TxVariant {
    /// Well-formedness of the data under this variant.
    pub open spec fn wf(self) -> bool {
        tx_v_wf(self@)
    }

    /// The fields shared by every variant.
    pub fn base(&self) -> (r: &Tx)
        ensures
            r@ == self@.base(),
    {
        match self {
            TxVariant::V0(var) => match var {
                TxVariantV0::OwnerTx(t) => &t.base,
                TxVariantV0::MintTx(t) => &t.base,
                TxVariantV0::RewardTx(t) => &t.base,
                TxVariantV0::TransferTx(t) => &t.base,
            },
        }
    }

    /// When the transaction stops being valid, in milliseconds since the
    /// epoch.
    pub fn expiry(&self) -> (r: u64)
        ensures
            r as nat == self@.base().expiry,
    {
        self.base().expiry
    }

    /// The signatures carried so far.
    pub fn sigs(&self) -> (r: &Vec<SigPair>)
        ensures
            sigs_view(r@) == self@.base().sigs,
    {
        match self {
            TxVariant::V0(var) => match var {
                TxVariantV0::OwnerTx(t) => &t.base.signature_pairs,
                TxVariantV0::MintTx(t) => &t.base.signature_pairs,
                TxVariantV0::RewardTx(t) => &t.base.signature_pairs,
                TxVariantV0::TransferTx(t) => &t.base.signature_pairs,
            },
        }
    }

    /// The script carried by the transaction, if its variant has one.
    pub fn script(&self) -> (r: Option<&Script>)
        ensures
            match self@ {
                TxV::Owner(o) => r matches Some(s) && s.bytes@ == o.script,
                TxV::Mint(m) => r matches Some(s) && s.bytes@ == m.script,
                TxV::Transfer(t) => r matches Some(s) && s.bytes@ == t.script,
                TxV::Reward(_) => r is None,
            },
    {
        match self {
            TxVariant::V0(var) => match var {
                TxVariantV0::OwnerTx(t) => Some(&t.script),
                TxVariantV0::MintTx(t) => Some(&t.script),
                TxVariantV0::RewardTx(_) => None,
                TxVariantV0::TransferTx(t) => Some(&t.script),
            },
        }
    }

    /// Appends the canonical signature-free encoding.
    pub fn serialize_without_sigs(&self, buf: &mut Vec<u8>)
        requires
            self.wf(),
        ensures
            final(buf)@ == old(buf)@ + ser_wo_sigs_v(self@),
    {
        push_u16(buf, 0);
        match self {
            TxVariant::V0(var) => match var {
                TxVariantV0::OwnerTx(t) => t.serialize(buf),
                TxVariantV0::MintTx(t) => t.serialize(buf),
                TxVariantV0::RewardTx(t) => t.serialize(buf),
                TxVariantV0::TransferTx(t) => t.serialize(buf),
            },
        }
        proof {
            assert(buf@ =~= old(buf)@ + ser_wo_sigs_v(self@));
        }
    }

    /// Appends the canonical encoding: the signature-free part, then the
    /// signature count and pairs.
    pub fn serialize(&self, buf: &mut Vec<u8>)
        requires
            self.wf(),
        ensures
            final(buf)@ == old(buf)@ + ser_tx_v(self@),
    {
        self.serialize_without_sigs(buf);
        let sigs = self.sigs();
        push_u8(buf, sigs.len() as u8);
        let ghost mid = buf@;
        proof {
            assert(sigs_view(sigs@).take(0) =~= Seq::<SigPairV>::empty());
            assert(buf@ =~= mid + ser_sigs_v(sigs_view(sigs@).take(0)));
            assert forall|j: int| 0 <= j < sigs@.len() implies (#[trigger] sigs@[j]).wf() by {
                assert(sigs_view(sigs@)[j] == sig_pair_view(sigs@[j]));
                assert(sig_pair_v_wf(self@.base().sigs[j]));
            }
        }
        let mut i: usize = 0;
        while i < sigs.len()
            invariant
                i <= sigs.len(),
                sigs_view(sigs@) == self@.base().sigs,
                self.wf(),
                forall|j: int| 0 <= j < sigs@.len() ==> (#[trigger] sigs@[j]).wf(),
                buf@ == mid + ser_sigs_v(sigs_view(sigs@).take(i as int)),
            decreases sigs.len() - i,
        {
            push_sig_pair(buf, &sigs[i]);
            proof {
                let sv = sigs_view(sigs@);
                assert(sv.take(i + 1).drop_last() =~= sv.take(i as int));
                assert(sv.take(i + 1).last() == sig_pair_view(sigs@[i as int]));
                assert(ser_sig_pair(sigs@[i as int]) == ser_sig_pair_v(sig_pair_view(
                    sigs@[i as int],
                )));
                assert(buf@ =~= mid + ser_sigs_v(sv.take(i + 1)));
            }
            i = i + 1;
        }
        proof {
            assert(sigs_view(sigs@).take(sigs@.len() as int) =~= sigs_view(sigs@));
            assert(buf@ =~= old(buf)@ + ser_tx_v(self@));
        }
    }
}


// ---------------------------------------------------------------------------
// The canonical parser, over the views.
// ---------------------------------------------------------------------------

pub open spec fn p_u8(s: Seq<u8>, pos: int) -> Option<(u8, int)> {
    if 0 <= pos && pos + 1 <= s.len() {
        Some((s[pos], pos + 1))
    } else {
        None
    }
}

pub open spec fn p_be(s: Seq<u8>, pos: int, n: nat) -> Option<(nat, int)> {
    if 0 <= pos && pos + n <= s.len() {
        Some((be_value(s.subrange(pos, pos + n)), pos + n))
    } else {
        None
    }
}

pub open spec fn p_arr(s: Seq<u8>, pos: int, n: nat) -> Option<(Seq<u8>, int)> {
    if 0 <= pos && pos + n <= s.len() {
        Some((s.subrange(pos, pos + n), pos + n))
    } else {
        None
    }
}

pub open spec fn p_blob(s: Seq<u8>, pos: int) -> Option<(Seq<u8>, int)> {
    match p_be(s, pos, 4) {
        Option::None => None,
        Option::Some((len, p)) => p_arr(s, p, len),
    }
}

pub open spec fn p_sig_pair(s: Seq<u8>, pos: int) -> Option<(SigPairV, int)> {
    match p_arr(s, pos, 32) {
        Option::None => None,
        Option::Some((pk, p)) => match p_arr(s, p, 64) {
            Option::None => None,
            Option::Some((sig, q)) => Some((SigPairV { pk, sig }, q)),
        },
    }
}

pub open spec fn p_sigs(s: Seq<u8>, pos: int, n: nat) -> Option<(Seq<SigPairV>, int)>
    decreases n,
{
    if n == 0 {
        Some((Seq::empty(), pos))
    } else {
        match p_sig_pair(s, pos) {
            Option::None => None,
            Option::Some((first, p)) => match p_sigs(s, p, (n - 1) as nat) {
                Option::None => None,
                Option::Some((rest, q)) => Some((seq![first] + rest, q)),
            },
        }
    }
}

/// Parses the shared header after the tag: nonce, expiry, fee. The
/// signature list stays empty until the trailer is read.
pub open spec fn p_base(s: Seq<u8>, pos: int) -> Option<(TxBaseV, int)> {
    match p_be(s, pos, 4) {
        Option::None => None,
        Option::Some((nonce, p1)) => match p_be(s, p1, 8) {
            Option::None => None,
            Option::Some((expiry, p2)) => match p_be(s, p2, 8) {
                Option::None => None,
                Option::Some((fee_bits, p3)) => Some(
                    (
                        TxBaseV {
                            nonce,
                            expiry,
                            fee: i64_of_bits(fee_bits),
                            sigs: Seq::empty(),
                        },
                        p3,
                    ),
                ),
            },
        },
    }
}

pub open spec fn p_payload(s: Seq<u8>, pos: int, tag: u8, b: TxBaseV) -> Option<(TxV, int)> {
    if tag == 0 {
        match p_arr(s, pos, 32) {
            Option::None => None,
            Option::Some((minter, p1)) => match p_arr(s, p1, 32) {
                Option::None => None,
                Option::Some((wallet, p2)) => match p_blob(s, p2) {
                    Option::None => None,
                    Option::Some((script, p3)) => Some(
                        (TxV::Owner(OwnerV { base: b, minter, wallet, script }), p3),
                    ),
                },
            },
        }
    } else if tag == 1 {
        match p_arr(s, pos, 32) {
            Option::None => None,
            Option::Some((to, p1)) => match p_be(s, p1, 8) {
                Option::None => None,
                Option::Some((amount_bits, p2)) => match p_blob(s, p2) {
                    Option::None => None,
                    Option::Some((attachment, p3)) => match p_blob(s, p3) {
                        Option::None => None,
                        Option::Some((name_bytes, p4)) => if valid_utf8(name_bytes) {
                            match p_blob(s, p4) {
                                Option::None => None,
                                Option::Some((script, p5)) => Some(
                                    (
                                        TxV::Mint(
                                            MintV {
                                                base: b,
                                                to,
                                                amount: i64_of_bits(amount_bits),
                                                attachment,
                                                attachment_name: decode_utf8(name_bytes),
                                                script,
                                            },
                                        ),
                                        p5,
                                    ),
                                ),
                            }
                        } else {
                            None
                        },
                    },
                },
            },
        }
    } else if tag == 3 {
        match p_arr(s, pos, 32) {
            Option::None => None,
            Option::Some((from, p1)) => match p_blob(s, p1) {
                Option::None => None,
                Option::Some((script, p2)) => match p_u8(s, p2) {
                    Option::None => None,
                    Option::Some((call_fn, p3)) => match p_blob(s, p3) {
                        Option::None => None,
                        Option::Some((args, p4)) => match p_be(s, p4, 8) {
                            Option::None => None,
                            Option::Some((amount_bits, p5)) => match p_blob(s, p5) {
                                Option::None => None,
                                Option::Some((memo, p6)) => match p_arr(s, p6, 32) {
                                    Option::None => None,
                                    Option::Some((to, p7)) => Some(
                                        (
                                            TxV::Transfer(
                                                TransferV {
                                                    base: b,
                                                    from,
                                                    script,
                                                    call_fn,
                                                    args,
                                                    amount: i64_of_bits(amount_bits),
                                                    memo,
                                                    to,
                                                },
                                            ),
                                            p7,
                                        ),
                                    ),
                                },
                            },
                        },
                    },
                },
            },
        }
    } else if tag == 4 {
        match p_arr(s, pos, 32) {
            Option::None => None,
            Option::Some((to, p1)) => match p_be(s, p1, 8) {
                Option::None => None,
                Option::Some((rewards_bits, p2)) => Some(
                    (TxV::Reward(RewardV { base: b, to, rewards: i64_of_bits(rewards_bits) }), p2),
                ),
            },
        }
    } else {
        None
    }
}

/// The canonical parse of one transaction starting at `pos`: version, tag,
/// header, payload, then the signature trailer. Exactly the inverse of
/// [`ser_tx_v`] on well-formed views.
pub open spec fn parse_tx(s: Seq<u8>, pos: int) -> Option<(TxV, int)> {
    match p_be(s, pos, 2) {
        Option::None => None,
        Option::Some((ver, p1)) => if ver != 0 {
            None
        } else {
            match p_u8(s, p1) {
                Option::None => None,
                Option::Some((tag, p2)) => match p_base(s, p2) {
                    Option::None => None,
                    Option::Some((b, p3)) => match p_payload(s, p3, tag, b) {
                        Option::None => None,
                        Option::Some((v, p4)) => match p_u8(s, p4) {
                            Option::None => None,
                            Option::Some((count, p5)) => match p_sigs(s, p5, count as nat) {
                                Option::None => None,
                                Option::Some((sigs, p6)) => Some((v.with_sigs(sigs), p6)),
                            },
                        },
                    },
                },
            }
        },
    }
}

// ---------------------------------------------------------------------------
// Transaction ids, signing, and the precomputed envelope.
// ---------------------------------------------------------------------------

/// Storing a signed value in eight bytes and reading it back is the
/// identity.
pub proof fn lemma_i64_bits_round_trip(x: int)
    requires
        -0x8000_0000_0000_0000 <= x < 0x8000_0000_0000_0000,
    ensures
        i64_of_bits(i64_bits(x)) == x,
        i64_bits(x) < pow256(8),
{
    lemma_pow256_values();
}

/// The double-SHA-256 of the chain id and a transaction's signature-free
/// encoding.
#[derive(Clone, Debug, PartialEq, Eq)]
pub struct TxId {
    pub digest: Digest,
}

impl TxId {
    /// Wraps an already computed digest.
    pub fn from_digest(txid: Digest) -> (r: TxId)
        ensures
            r.digest.bytes@ == txid.bytes@,
    {
        TxId { digest: txid }
    }

    /// Copies the id.
    pub fn duplicate(&self) -> (r: TxId)
        ensures
            r.digest.bytes@ == self.digest.bytes@,
    {
        TxId { digest: Digest { bytes: clone_bytes(&self.digest.bytes) } }
    }
}

impl TxVariant {
    /// Computes the transaction id: the digest of the chain id followed by
    /// the signature-free encoding.
    pub fn calc_txid(&self) -> (r: TxId)
        requires
            self.wf(),
        ensures
            r.digest.bytes@ == txid_spec(self@),
            r.digest.wf(),
    {
        let mut buf = crate::constants::chain_id();
        self.serialize_without_sigs(&mut buf);
        TxId { digest: crate::crypto::double_sha256(buf.as_slice()) }
    }

    /// Signs the transaction id with the given key pair.
    pub fn sign(&self, key_pair: &KeyPair) -> (r: SigPair)
        requires
            self.wf(),
            key_pair.wf(),
        ensures
            r.pub_key.bytes@ == key_pair.0.bytes@,
            r.signature.bytes@ == signed_bytes(key_pair.1.bytes@, txid_spec(self@)),
            r.wf(),
            key_pair.valid() ==> crate::crypto::sig_verifies(
                key_pair.0.bytes@,
                txid_spec(self@),
                r.signature.bytes@,
            ),
    {
        let id = self.calc_txid();
        key_pair.sign(id.digest.bytes.as_slice())
    }

    /// Signs the transaction id and appends the resulting pair.
    pub fn append_sign(&mut self, key_pair: &KeyPair)
        requires
            old(self).wf(),
            key_pair.wf(),
            old(self)@.base().sigs.len() < 255,
        ensures
            final(self)@ == old(self)@.with_sigs(
                old(self)@.base().sigs.push(
                    SigPairV {
                        pk: key_pair.0.bytes@,
                        sig: signed_bytes(key_pair.1.bytes@, txid_spec(old(self)@)),
                    },
                ),
            ),
            final(self).wf(),
            key_pair.valid() ==> crate::crypto::sig_verifies(
                key_pair.0.bytes@,
                txid_spec(old(self)@),
                signed_bytes(key_pair.1.bytes@, txid_spec(old(self)@)),
            ),
    {
        let pair = self.sign(key_pair);
        let ghost pairv = sig_pair_view(pair);
        match self {
            TxVariant::V0(var) => match var {
                TxVariantV0::OwnerTx(t) => t.base.signature_pairs.push(pair),
                TxVariantV0::MintTx(t) => t.base.signature_pairs.push(pair),
                TxVariantV0::RewardTx(t) => t.base.signature_pairs.push(pair),
                TxVariantV0::TransferTx(t) => t.base.signature_pairs.push(pair),
            },
        }
        proof {
            assert(self@.base().sigs =~= old(self)@.base().sigs.push(pairv));
            assert(self@ == old(self)@.with_sigs(old(self)@.base().sigs.push(pairv)));
        }
    }

    /// Wraps the transaction together with its id, computed once.
    pub fn precompute(self) -> (r: TxPrecompData)
        requires
            self.wf(),
        ensures
            r.tx_spec()@ == self@,
            r.wf(),
    {
        TxPrecompData::from_tx(self)
    }
}

/// A transaction joined with its precomputed id, so that validation paths
/// never re-hash.
#[derive(Clone, Debug, PartialEq)]
pub struct TxPrecompData {
    tx: TxVariant,
    txid: TxId,
}

impl TxPrecompData {
    /// The envelope invariant: the stored id is the transaction's own.
    pub closed spec fn wf(self) -> bool {
        self.tx.wf() && self.txid.digest.bytes@ == txid_spec(self.tx@)
    }

    pub closed spec fn tx_spec(self) -> TxVariant {
        self.tx
    }

    /// Computes the id once and seals the pair.
    pub fn from_tx(tx: TxVariant) -> (r: TxPrecompData)
        requires
            tx.wf(),
        ensures
            r.tx_spec()@ == tx@,
            r.wf(),
    {
        let txid = tx.calc_txid();
        TxPrecompData { tx, txid }
    }

    /// Unwraps the transaction.
    pub fn take(self) -> (r: TxVariant)
        ensures
            r@ == self.tx_spec()@,
    {
        self.tx
    }

    pub fn tx(&self) -> (r: &TxVariant)
        ensures
            r == self.tx_spec(),
    {
        &self.tx
    }

    pub fn txid(&self) -> (r: &TxId)
        requires
            self.wf(),
        ensures
            r.digest.bytes@ == txid_spec(self.tx_spec()@),
    {
        &self.txid
    }
}


/// What a successful payload parse of tag `tag` looks like for the result
/// of one of the per-variant decoders below.
impl OwnerTx {
    /// Decodes an ownership-rotation payload after its header.
    pub fn deserialize(cur: &mut Cursor, base: Tx) -> (r: Option<OwnerTx>)
        requires
            old(cur).wf(),
        ensures
            final(cur).data@ == old(cur).data@,
            final(cur).wf(),
            match p_payload(old(cur).data@, old(cur).pos as int, 0, base@) {
                Option::Some((v, p)) => r matches Some(t) && TxV::Owner(t@) == v
                    && final(cur).pos == p && (base_v_wf(base@) ==> tx_v_wf(v)),
                Option::None => r is None,
            },
    {
        let ghost s = cur.data@;
        let minter = match cur.take_pub_key() {
            Option::Some(v) => v,
            Option::None => {
                return None;
            },
        };
        let wallet = match cur.take_digest() {
            Option::Some(v) => v,
            Option::None => {
                return None;
            },
        };
        let ghost before_script = cur.pos as int;
        let script = match cur.take_bytes() {
            Option::Some(v) => v,
            Option::None => {
                return None;
            },
        };
        proof {
            lemma_pow256_values();
            lemma_be_value_bound(s.subrange(before_script, before_script + 4));
        }
        Some(
            OwnerTx {
                base,
                minter,
                wallet: ScriptHash { digest: wallet },
                script: Script { bytes: script },
            },
        )
    }
}

impl MintTx {
    /// Decodes a mint payload after its header.
    pub fn deserialize(cur: &mut Cursor, base: Tx) -> (r: Option<MintTx>)
        requires
            old(cur).wf(),
        ensures
            final(cur).data@ == old(cur).data@,
            final(cur).wf(),
            match p_payload(old(cur).data@, old(cur).pos as int, 1, base@) {
                Option::Some((v, p)) => r matches Some(t) && TxV::Mint(t@) == v
                    && final(cur).pos == p && (base_v_wf(base@) ==> tx_v_wf(v)),
                Option::None => r is None,
            },
    {
        let ghost s = cur.data@;
        let to = match cur.take_digest() {
            Option::Some(v) => v,
            Option::None => {
                return None;
            },
        };
        let amount = match cur.take_asset() {
            Option::Some(v) => v,
            Option::None => {
                return None;
            },
        };
        let ghost before_attachment = cur.pos as int;
        let attachment = match cur.take_bytes() {
            Option::Some(v) => v,
            Option::None => {
                return None;
            },
        };
        let ghost before_name = cur.pos as int;
        let name_bytes = match cur.take_bytes() {
            Option::Some(v) => v,
            Option::None => {
                return None;
            },
        };
        let ghost name_seq = name_bytes@;
        let attachment_name = match string_from_utf8(name_bytes) {
            Option::Some(v) => v,
            Option::None => {
                return None;
            },
        };
        let ghost before_script = cur.pos as int;
        let script = match cur.take_bytes() {
            Option::Some(v) => v,
            Option::None => {
                return None;
            },
        };
        proof {
            lemma_pow256_values();
            lemma_be_value_bound(s.subrange(before_attachment, before_attachment + 4));
            lemma_be_value_bound(s.subrange(before_name, before_name + 4));
            lemma_be_value_bound(s.subrange(before_script, before_script + 4));
            vstd::utf8::decode_utf8_encode_utf8(name_seq);
        }
        Some(
            MintTx {
                base,
                to: ScriptHash { digest: to },
                amount,
                attachment,
                attachment_name,
                script: Script { bytes: script },
            },
        )
    }
}

impl RewardTx {
    /// Decodes a reward payload after its header.
    pub fn deserialize(cur: &mut Cursor, base: Tx) -> (r: Option<RewardTx>)
        requires
            old(cur).wf(),
        ensures
            final(cur).data@ == old(cur).data@,
            final(cur).wf(),
            match p_payload(old(cur).data@, old(cur).pos as int, 4, base@) {
                Option::Some((v, p)) => r matches Some(t) && TxV::Reward(t@) == v
                    && final(cur).pos == p && (base_v_wf(base@) ==> tx_v_wf(v)),
                Option::None => r is None,
            },
    {
        let to = match cur.take_digest() {
            Option::Some(v) => v,
            Option::None => {
                return None;
            },
        };
        let rewards = match cur.take_asset() {
            Option::Some(v) => v,
            Option::None => {
                return None;
            },
        };
        Some(RewardTx { base, to: ScriptHash { digest: to }, rewards })
    }
}

impl TransferTx {
    /// Decodes a transfer payload after its header.
    pub fn deserialize(cur: &mut Cursor, base: Tx) -> (r: Option<TransferTx>)
        requires
            old(cur).wf(),
        ensures
            final(cur).data@ == old(cur).data@,
            final(cur).wf(),
            match p_payload(old(cur).data@, old(cur).pos as int, 3, base@) {
                Option::Some((v, p)) => r matches Some(t) && TxV::Transfer(t@) == v
                    && final(cur).pos == p && (base_v_wf(base@) ==> tx_v_wf(v)),
                Option::None => r is None,
            },
    {
        let ghost s = cur.data@;
        let from = match cur.take_digest() {
            Option::Some(v) => v,
            Option::None => {
                return None;
            },
        };
        let ghost before_script = cur.pos as int;
        let script = match cur.take_bytes() {
            Option::Some(v) => v,
            Option::None => {
                return None;
            },
        };
        let call_fn = match cur.take_u8() {
            Option::Some(v) => v,
            Option::None => {
                return None;
            },
        };
        let ghost before_args = cur.pos as int;
        let args = match cur.take_bytes() {
            Option::Some(v) => v,
            Option::None => {
                return None;
            },
        };
        let amount = match cur.take_asset() {
            Option::Some(v) => v,
            Option::None => {
                return None;
            },
        };
        let ghost before_memo = cur.pos as int;
        let memo = match cur.take_bytes() {
            Option::Some(v) => v,
            Option::None => {
                return None;
            },
        };
        let to = match cur.take_digest() {
            Option::Some(v) => v,
            Option::None => {
                return None;
            },
        };
        proof {
            lemma_pow256_values();
            lemma_be_value_bound(s.subrange(before_script, before_script + 4));
            lemma_be_value_bound(s.subrange(before_args, before_args + 4));
            lemma_be_value_bound(s.subrange(before_memo, before_memo + 4));
        }
        Some(
            TransferTx {
                base,
                from: ScriptHash { digest: from },
                script: Script { bytes: script },
                call_fn,
                args,
                amount,
                memo,
                to: ScriptHash { digest: to },
            },
        )
    }
}

impl TxVariant {
    /// Decodes one transaction from the cursor. Succeeds exactly when the
    /// canonical parse does, and returns exactly the parsed view; the tag of
    /// the account-id ownership encoding and every unknown tag are rejected.
    #[verifier::rlimit(100)]
    pub fn deserialize(cur: &mut Cursor) -> (r: Option<TxVariant>)
        requires
            old(cur).wf(),
        ensures
            final(cur).data@ == old(cur).data@,
            final(cur).wf(),
            match parse_tx(old(cur).data@, old(cur).pos as int) {
                Option::Some((v, p)) => r matches Some(tx) && tx@ == v && tx.wf()
                    && final(cur).pos == p,
                Option::None => r is None,
            },
    {
        let ghost s = cur.data@;
        let ghost pos0 = cur.pos as int;
        let ver = match cur.take_u16() {
            Option::Some(v) => v,
            Option::None => {
                return None;
            },
        };
        if ver != 0 {
            return None;
        }
        let tag = match cur.take_u8() {
            Option::Some(v) => v,
            Option::None => {
                return None;
            },
        };
        let nonce = match cur.take_u32() {
            Option::Some(v) => v,
            Option::None => {
                return None;
            },
        };
        let expiry = match cur.take_u64() {
            Option::Some(v) => v,
            Option::None => {
                return None;
            },
        };
        let fee = match cur.take_asset() {
            Option::Some(v) => v,
            Option::None => {
                return None;
            },
        };
        let base = Tx { nonce, expiry, fee, signature_pairs: Vec::new() };
        proof {
            assert(sigs_view(Seq::<SigPair>::empty()) =~= Seq::<SigPairV>::empty());
            assert(p_base(s, pos0 + 3) matches Some((b, p)) && b == base@ && p == pos0 + 23);
        }
        let var: TxVariantV0 = if tag == 0 {
            match OwnerTx::deserialize(cur, base) {
                Option::Some(t) => TxVariantV0::OwnerTx(t),
                Option::None => {
                    return None;
                },
            }
        } else if tag == 1 {
            match MintTx::deserialize(cur, base) {
                Option::Some(t) => TxVariantV0::MintTx(t),
                Option::None => {
                    return None;
                },
            }
        } else if tag == 3 {
            match TransferTx::deserialize(cur, base) {
                Option::Some(t) => TxVariantV0::TransferTx(t),
                Option::None => {
                    return None;
                },
            }
        } else if tag == 4 {
            match RewardTx::deserialize(cur, base) {
                Option::Some(t) => TxVariantV0::RewardTx(t),
                Option::None => {
                    return None;
                },
            }
        } else {
            return None;
        };
        let ghost payload_view = TxVariant::V0(var)@;
        let ghost payload_end = cur.pos as int;
        proof {
            assert(p_payload(s, pos0 + 23, tag, base@) == Some::<(TxV, int)>(
                (payload_view, payload_end),
            ));
        }
        let count = match cur.take_u8() {
            Option::Some(v) => v,
            Option::None => {
                return None;
            },
        };
        let mut pairs: Vec<SigPair> = Vec::new();
        let ghost sig_start = cur.pos as int;
        let mut i: usize = 0;
        proof {
            assert(sigs_view(pairs@) =~= Seq::<SigPairV>::empty());
        }
        while i < count as usize
            invariant
                cur.wf(),
                cur.data@ == s,
                s == old(cur).data@,
                pos0 == old(cur).pos as int,
                i <= count as usize,
                sigs_view(pairs@).len() == i,
                forall|j: int| 0 <= j < pairs@.len() ==> (#[trigger] pairs@[j]).wf(),
                match p_sigs(s, cur.pos as int, (count as usize - i) as nat) {
                    Option::Some((rest, e)) => p_sigs(s, sig_start, count as nat) == Some::<
                        (Seq<SigPairV>, int),
                    >((sigs_view(pairs@) + rest, e)),
                    Option::None => p_sigs(s, sig_start, count as nat) is None,
                },
                parse_tx(s, pos0) == match p_sigs(s, sig_start, count as nat) {
                    Option::Some((g, e)) => Some::<(TxV, int)>((payload_view.with_sigs(g), e)),
                    Option::None => None::<(TxV, int)>,
                },
            decreases count as usize - i,
        {
            let pair = match cur.take_sig_pair() {
                Option::Some(v) => v,
                Option::None => {
                    proof {
                        assert(p_sig_pair(s, cur.pos as int) is None);
                        assert(p_sigs(s, cur.pos as int, (count as usize - i) as nat) is None);
                        assert(parse_tx(s, pos0) is None);
                    }
                    return None;
                },
            };
            proof {
                let pv = sig_pair_view(pair);
                assert(p_sig_pair(s, cur.pos - 96) == Some::<(SigPairV, int)>(
                    (pv, cur.pos as int),
                ));
                assert(sigs_view(pairs@.push(pair)) =~= sigs_view(pairs@).push(pv));
            }
            pairs.push(pair);
            i = i + 1;
            proof {
                match p_sigs(s, cur.pos as int, (count as usize - i) as nat) {
                    Option::Some((rest, e)) => {
                        assert(sigs_view(pairs@) + rest =~= sigs_view(pairs@.drop_last()) + (seq![
                            sig_pair_view(pairs@.last()),
                        ] + rest));
                    },
                    Option::None => {},
                }
            }
        }
        proof {
            assert(p_sigs(s, cur.pos as int, 0) == Some::<(Seq<SigPairV>, int)>(
                (Seq::empty(), cur.pos as int),
            ));
            assert(sigs_view(pairs@) + Seq::<SigPairV>::empty() =~= sigs_view(pairs@));
        }
        let tx = match var {
            TxVariantV0::OwnerTx(mut t) => {
                t.base.signature_pairs = pairs;
                TxVariant::V0(TxVariantV0::OwnerTx(t))
            },
            TxVariantV0::MintTx(mut t) => {
                t.base.signature_pairs = pairs;
                TxVariant::V0(TxVariantV0::MintTx(t))
            },
            TxVariantV0::RewardTx(mut t) => {
                t.base.signature_pairs = pairs;
                TxVariant::V0(TxVariantV0::RewardTx(t))
            },
            TxVariantV0::TransferTx(mut t) => {
                t.base.signature_pairs = pairs;
                TxVariant::V0(TxVariantV0::TransferTx(t))
            },
        };
        proof {
            assert(tx@ == payload_view.with_sigs(sigs_view(pairs@)));
        }
        Some(tx)
    }
}


// ---------------------------------------------------------------------------
// Round trip: parsing the canonical encoding gives back the same view.
// ---------------------------------------------------------------------------


/// Splitting a subrange known to hold a concatenation: each half is the
/// matching subrange.
pub proof fn lemma_subrange_split(s: Seq<u8>, pos: int, a: Seq<u8>, b: Seq<u8>)
    requires
        0 <= pos,
        pos + a.len() + b.len() <= s.len(),
        s.subrange(pos, pos + a.len() + b.len()) == a + b,
    ensures
        s.subrange(pos, pos + a.len()) == a,
        s.subrange(pos + a.len(), pos + a.len() + b.len()) == b,
{
    let t = a + b;
    let whole = s.subrange(pos, pos + a.len() + b.len());
    assert forall|i: int| 0 <= i < a.len() implies s.subrange(pos, pos + a.len() as int)[i] == a[i]
        by {
        assert(whole[i] == s[pos + i]);
        assert(s.subrange(pos, pos + a.len() as int)[i] == s[pos + i]);
        assert(t[i] == a[i]);
    }
    assert(s.subrange(pos, pos + a.len() as int) =~= a);
    let pb = pos + a.len();
    assert forall|i: int| 0 <= i < b.len() implies s.subrange(pb, pb + b.len() as int)[i] == b[i]
        by {
        assert(whole[a.len() + i] == s[pos + a.len() + i]);
        assert(s.subrange(pb, pb + b.len() as int)[i] == s[pb + i]);
        assert(t[a.len() + i] == b[i]);
    }
    assert(s.subrange(pb, pb + b.len() as int) =~= b);
}

/// Every well-formed pair encodes to 96 bytes, so a list encodes to 96 per
/// pair.
pub proof fn lemma_ser_sigs_len(s: Seq<SigPairV>)
    requires
        forall|i: int| 0 <= i < s.len() ==> sig_pair_v_wf(#[trigger] s[i]),
    ensures
        ser_sigs_v(s).len() == 96 * s.len(),
    decreases s.len(),
{
    if s.len() > 0 {
        lemma_ser_sigs_len(s.drop_last());
    }
}

/// A non-empty signature list encodes as its first pair followed by the
/// rest.
pub proof fn lemma_ser_sigs_first(s: Seq<SigPairV>)
    requires
        s.len() > 0,
    ensures
        ser_sigs_v(s) == ser_sig_pair_v(s[0]) + ser_sigs_v(s.drop_first()),
    decreases s.len(),
{
    if s.len() == 1 {
        assert(s.drop_last() =~= Seq::<SigPairV>::empty());
        assert(s.drop_first() =~= Seq::<SigPairV>::empty());
        assert(ser_sigs_v(s) =~= ser_sig_pair_v(s[0]) + ser_sigs_v(s.drop_first()));
    } else {
        lemma_ser_sigs_first(s.drop_last());
        assert(s.drop_last()[0] == s[0]);
        assert(s.drop_last().drop_first() =~= s.drop_first().drop_last());
        assert(s.drop_first().last() == s.last());
        assert(ser_sigs_v(s.drop_first()) == ser_sigs_v(s.drop_first().drop_last())
            + ser_sig_pair_v(s.drop_first().last()));
        assert(ser_sigs_v(s) =~= ser_sig_pair_v(s[0]) + ser_sigs_v(s.drop_first()));
    }
}

/// Parsing `n` pairs out of their own encoding returns exactly those pairs.
pub proof fn lemma_parse_sigs(s: Seq<u8>, pos: int, sigs: Seq<SigPairV>)
    requires
        0 <= pos,
        pos + 96 * sigs.len() <= s.len(),
        forall|i: int| 0 <= i < sigs.len() ==> sig_pair_v_wf(#[trigger] sigs[i]),
        s.subrange(pos, pos + 96 * sigs.len()) == ser_sigs_v(sigs),
    ensures
        p_sigs(s, pos, sigs.len()) == Some::<(Seq<SigPairV>, int)>(
            (sigs, pos + 96 * sigs.len()),
        ),
    decreases sigs.len(),
{
    lemma_ser_sigs_len(sigs);
    if sigs.len() == 0 {
        assert(p_sigs(s, pos, 0) == Some::<(Seq<SigPairV>, int)>((Seq::empty(), pos)));
        assert(sigs =~= Seq::<SigPairV>::empty());
    } else {
        lemma_ser_sigs_first(sigs);
        let rest = sigs.drop_first();
        lemma_ser_sigs_len(rest);
        assert(sig_pair_v_wf(sigs[0]));
        lemma_subrange_split(s, pos, ser_sig_pair_v(sigs[0]), ser_sigs_v(rest));
        lemma_subrange_split(s, pos, sigs[0].pk, sigs[0].sig);
        assert(p_sig_pair(s, pos) == Some::<(SigPairV, int)>((sigs[0], pos + 96)));
        lemma_parse_sigs(s, pos + 96, rest);
        assert(seq![sigs[0]] + rest =~= sigs);
    }
}

/// Parsing an ownership payload out of its own encoding.
proof fn lemma_p_owner(
    s: Seq<u8>,
    pos: int,
    b: TxBaseV,
    minter: Seq<u8>,
    wallet: Seq<u8>,
    script: Seq<u8>,
)
    requires
        minter.len() == 32,
        wallet.len() == 32,
        script.len() < 0x1_0000_0000,
        0 <= pos,
        pos + 68 + script.len() <= s.len(),
        s.subrange(pos, pos + 68 + script.len()) == minter + wallet + ser_bytes(script),
    ensures
        p_payload(s, pos, 0, b) == Some::<(TxV, int)>(
            (TxV::Owner(OwnerV { base: b, minter, wallet, script }), pos + 68 + script.len()),
        ),
{
    lemma_pow256_values();
    lemma_be_bytes_props(script.len(), 4);
    let sb = ser_bytes(script);
    assert(minter + wallet + sb =~= minter + (wallet + sb));
    lemma_subrange_split(s, pos, minter, wallet + sb);
    lemma_subrange_split(s, pos + 32, wallet, sb);
    lemma_subrange_split(s, pos + 64, be_bytes(script.len(), 4), script);
}

/// Parsing a mint payload out of its own encoding.
proof fn lemma_p_mint(
    s: Seq<u8>,
    pos: int,
    b: TxBaseV,
    to: Seq<u8>,
    amount: int,
    attachment: Seq<u8>,
    name: Seq<char>,
    script: Seq<u8>,
)
    requires
        to.len() == 32,
        amount_wf(amount),
        attachment.len() < 0x1_0000_0000,
        encode_utf8(name).len() < 0x1_0000_0000,
        script.len() < 0x1_0000_0000,
        0 <= pos,
        pos + 52 + attachment.len() + encode_utf8(name).len() + script.len() <= s.len(),
        s.subrange(pos, pos + 52 + attachment.len() + encode_utf8(name).len() + script.len())
            == to + ser_i64(amount) + ser_bytes(attachment) + ser_bytes(encode_utf8(name))
            + ser_bytes(script),
    ensures
        p_payload(s, pos, 1, b) == Some::<(TxV, int)>(
            (
                TxV::Mint(MintV { base: b, to, amount, attachment, attachment_name: name, script }),
                pos + 52 + attachment.len() + encode_utf8(name).len() + script.len(),
            ),
        ),
{
    lemma_pow256_values();
    lemma_be_bytes_props(i64_bits(amount), 8);
    lemma_be_bytes_props(attachment.len(), 4);
    lemma_be_bytes_props(encode_utf8(name).len(), 4);
    lemma_be_bytes_props(script.len(), 4);
    lemma_i64_bits_round_trip(amount);
    vstd::utf8::encode_utf8_valid_utf8(name);
    vstd::utf8::encode_utf8_decode_utf8(name);
    let nb = encode_utf8(name);
    let am = ser_i64(amount);
    let sa = ser_bytes(attachment);
    let sn = ser_bytes(nb);
    let sc = ser_bytes(script);
    assert(to + am + sa + sn + sc =~= to + (am + (sa + (sn + sc))));
    lemma_subrange_split(s, pos, to, am + (sa + (sn + sc)));
    lemma_subrange_split(s, pos + 32, am, sa + (sn + sc));
    lemma_subrange_split(s, pos + 40, sa, sn + sc);
    lemma_subrange_split(s, pos + 40, be_bytes(attachment.len(), 4), attachment);
    let p1 = pos + 44 + attachment.len();
    lemma_subrange_split(s, p1 - 4 - attachment.len() + sa.len() as int, sn, sc);
    lemma_subrange_split(s, p1, be_bytes(nb.len(), 4), nb);
    let p2 = p1 + 4 + nb.len();
    lemma_subrange_split(s, p2, be_bytes(script.len(), 4), script);
}

/// Parsing a reward payload out of its own encoding.
proof fn lemma_p_reward(s: Seq<u8>, pos: int, b: TxBaseV, to: Seq<u8>, rewards: int)
    requires
        to.len() == 32,
        amount_wf(rewards),
        0 <= pos,
        pos + 40 <= s.len(),
        s.subrange(pos, pos + 40) == to + ser_i64(rewards),
    ensures
        p_payload(s, pos, 4, b) == Some::<(TxV, int)>(
            (TxV::Reward(RewardV { base: b, to, rewards }), pos + 40),
        ),
{
    lemma_pow256_values();
    lemma_be_bytes_props(i64_bits(rewards), 8);
    lemma_i64_bits_round_trip(rewards);
    lemma_subrange_split(s, pos, to, ser_i64(rewards));
}

/// Parsing a transfer payload out of its own encoding.
#[verifier::rlimit(60)]
proof fn lemma_p_transfer(
    s: Seq<u8>,
    pos: int,
    b: TxBaseV,
    from: Seq<u8>,
    script: Seq<u8>,
    call_fn: u8,
    args: Seq<u8>,
    amount: int,
    memo: Seq<u8>,
    to: Seq<u8>,
)
    requires
        from.len() == 32,
        script.len() < 0x1_0000_0000,
        args.len() < 0x1_0000_0000,
        amount_wf(amount),
        memo.len() < 0x1_0000_0000,
        to.len() == 32,
        0 <= pos,
        pos + 85 + script.len() + args.len() + memo.len() <= s.len(),
        s.subrange(pos, pos + 85 + script.len() + args.len() + memo.len()) == from + ser_bytes(
            script,
        ) + seq![call_fn] + ser_bytes(args) + ser_i64(amount) + ser_bytes(memo) + to,
    ensures
        p_payload(s, pos, 3, b) == Some::<(TxV, int)>(
            (
                TxV::Transfer(
                    TransferV { base: b, from, script, call_fn, args, amount, memo, to },
                ),
                pos + 85 + script.len() + args.len() + memo.len(),
            ),
        ),
{
    lemma_pow256_values();
    lemma_be_bytes_props(script.len(), 4);
    lemma_be_bytes_props(args.len(), 4);
    lemma_be_bytes_props(i64_bits(amount), 8);
    lemma_be_bytes_props(memo.len(), 4);
    lemma_i64_bits_round_trip(amount);
    let sc = ser_bytes(script);
    let cf = seq![call_fn];
    let sa = ser_bytes(args);
    let am = ser_i64(amount);
    let sm = ser_bytes(memo);
    assert(from + sc + cf + sa + am + sm + to =~= from + (sc + (cf + (sa + (am + (sm + to))))));
    lemma_subrange_split(s, pos, from, sc + (cf + (sa + (am + (sm + to)))));
    lemma_subrange_split(s, pos + 32, sc, cf + (sa + (am + (sm + to))));
    lemma_subrange_split(s, pos + 32, be_bytes(script.len(), 4), script);
    let p1 = pos + 36 + script.len();
    lemma_subrange_split(s, p1, cf, sa + (am + (sm + to)));
    assert(s.subrange(p1, p1 + 1)[0] == s[p1]);
    assert(s[p1] == call_fn);
    lemma_subrange_split(s, p1 + 1, sa, am + (sm + to));
    lemma_subrange_split(s, p1 + 1, be_bytes(args.len(), 4), args);
    let p2 = p1 + 5 + args.len();
    lemma_subrange_split(s, p2, am, sm + to);
    lemma_subrange_split(s, p2 + 8, sm, to);
    lemma_subrange_split(s, p2 + 8, be_bytes(memo.len(), 4), memo);
}

/// The length of the signature-free encoding, by variant.
pub open spec fn wo_sigs_len(v: TxV) -> int {
    23 + match v {
        TxV::Owner(o) => 68 + o.script.len() as int,
        TxV::Mint(m) => 52 + m.attachment.len() as int + encode_utf8(m.attachment_name).len()
            + m.script.len(),
        TxV::Reward(_) => 40int,
        TxV::Transfer(t) => 85 + t.script.len() as int + t.args.len() + t.memo.len(),
    }
}

/// The wire tag a view serializes under.
pub open spec fn tag_of_v(v: TxV) -> u8 {
    match v {
        TxV::Owner(_) => 0,
        TxV::Mint(_) => 1,
        TxV::Reward(_) => 4,
        TxV::Transfer(_) => 3,
    }
}

/// The view's header with an empty signature list, as the parser first
/// builds it.
pub open spec fn base0_of(v: TxV) -> TxBaseV {
    TxBaseV {
        nonce: v.base().nonce,
        expiry: v.base().expiry,
        fee: v.base().fee,
        sigs: Seq::empty(),
    }
}

/// The bytes after the shared header and before the signature trailer.
pub open spec fn payload_of(v: TxV) -> Seq<u8> {
    match v {
        TxV::Owner(o) => o.minter + o.wallet + ser_bytes(o.script),
        TxV::Mint(m) => m.to + ser_i64(m.amount) + ser_bytes(m.attachment) + ser_bytes(
            encode_utf8(m.attachment_name),
        ) + ser_bytes(m.script),
        TxV::Reward(r) => r.to + ser_i64(r.rewards),
        TxV::Transfer(t) => t.from + ser_bytes(t.script) + seq![t.call_fn] + ser_bytes(t.args)
            + ser_i64(t.amount) + ser_bytes(t.memo) + t.to,
    }
}

/// The signature-free encoding is as long as [`wo_sigs_len`] says.
pub proof fn lemma_wo_sigs_len(v: TxV)
    requires
        tx_v_wf(v),
    ensures
        ser_wo_sigs_v(v).len() == wo_sigs_len(v),
        payload_of(v).len() == wo_sigs_len(v) - 23,
        ser_wo_sigs_v(v) == ser_u16(0) + (ser_base_v(tag_of_v(v), v.base()) + payload_of(v)),
{
    let b = v.base();
    lemma_be_bytes_props(0, 2);
    lemma_be_bytes_props(b.nonce, 4);
    lemma_be_bytes_props(b.expiry, 8);
    lemma_be_bytes_props(i64_bits(b.fee), 8);
    match v {
        TxV::Owner(o) => {
            lemma_be_bytes_props(o.script.len(), 4);
        },
        TxV::Mint(m) => {
            lemma_be_bytes_props(i64_bits(m.amount), 8);
            lemma_be_bytes_props(m.attachment.len(), 4);
            lemma_be_bytes_props(encode_utf8(m.attachment_name).len(), 4);
            lemma_be_bytes_props(m.script.len(), 4);
        },
        TxV::Reward(r) => {
            lemma_be_bytes_props(i64_bits(r.rewards), 8);
        },
        TxV::Transfer(t) => {
            lemma_be_bytes_props(i64_bits(t.amount), 8);
            lemma_be_bytes_props(t.script.len(), 4);
            lemma_be_bytes_props(t.args.len(), 4);
            lemma_be_bytes_props(t.memo.len(), 4);
        },
    }
    assert(ser_wo_sigs_v(v) =~= ser_u16(0) + (ser_base_v(tag_of_v(v), v.base()) + payload_of(v)));
}

/// Parsing the version, tag and header out of a canonical encoding, and
/// carving out the payload and signature regions.
#[verifier::rlimit(100)]
proof fn lemma_parse_prefix(v: TxV)
    requires
        tx_v_wf(v),
    ensures
        ser_tx_v(v).len() == wo_sigs_len(v) + 1 + 96 * v.base().sigs.len(),
        p_be(ser_tx_v(v), 0, 2) == Some::<(nat, int)>((0, 2)),
        p_u8(ser_tx_v(v), 2) == Some::<(u8, int)>((tag_of_v(v), 3)),
        p_base(ser_tx_v(v), 3) == Some::<(TxBaseV, int)>((base0_of(v), 23)),
        ser_tx_v(v).subrange(23, wo_sigs_len(v)) == payload_of(v),
        p_u8(ser_tx_v(v), wo_sigs_len(v)) == Some::<(u8, int)>(
            (v.base().sigs.len() as u8, wo_sigs_len(v) + 1),
        ),
        ser_tx_v(v).subrange(
            wo_sigs_len(v) + 1,
            wo_sigs_len(v) + 1 + 96 * v.base().sigs.len(),
        ) == ser_sigs_v(v.base().sigs),
{
    let s = ser_tx_v(v);
    let w = ser_wo_sigs_v(v);
    let b = v.base();
    let sigs = b.sigs;
    let g = ser_sigs_v(sigs);
    let cnt = seq![sigs.len() as u8];
    let tag = tag_of_v(v);
    let payload = payload_of(v);
    lemma_wo_sigs_len(v);
    lemma_ser_sigs_len(sigs);
    lemma_pow256_values();
    lemma_be_bytes_props(0, 2);
    lemma_be_bytes_props(b.nonce, 4);
    lemma_be_bytes_props(b.expiry, 8);
    lemma_be_bytes_props(i64_bits(b.fee), 8);
    lemma_i64_bits_round_trip(b.fee);
    assert(s.len() == w.len() + 1 + 96 * sigs.len());
    assert(s.subrange(0, s.len() as int) =~= s);
    assert(s =~= w + (cnt + g));
    lemma_subrange_split(s, 0, w, cnt + g);
    lemma_subrange_split(s, w.len() as int, cnt, g);
    assert(s.subrange(w.len() as int, w.len() as int + 1)[0] == s[w.len() as int]);
    assert(s[w.len() as int] == sigs.len() as u8);
    assert((sigs.len() as u8) as nat == sigs.len());
    assert(w =~= be_bytes(0, 2) + (seq![tag] + (be_bytes(b.nonce, 4) + (be_bytes(b.expiry, 8) + (
    be_bytes(i64_bits(b.fee), 8) + payload)))));
    assert(s.subrange(0, w.len() as int) == w);
    lemma_subrange_split(
        s,
        0,
        be_bytes(0, 2),
        seq![tag] + (be_bytes(b.nonce, 4) + (be_bytes(b.expiry, 8) + (be_bytes(
            i64_bits(b.fee),
            8,
        ) + payload))),
    );
    assert(p_be(s, 0, 2) == Some::<(nat, int)>((0, 2)));
    lemma_subrange_split(
        s,
        2,
        seq![tag],
        be_bytes(b.nonce, 4) + (be_bytes(b.expiry, 8) + (be_bytes(i64_bits(b.fee), 8) + payload)),
    );
    assert(s.subrange(2, 3)[0] == s[2]);
    assert(s[2] == tag);
    lemma_subrange_split(
        s,
        3,
        be_bytes(b.nonce, 4),
        be_bytes(b.expiry, 8) + (be_bytes(i64_bits(b.fee), 8) + payload),
    );
    lemma_subrange_split(s, 7, be_bytes(b.expiry, 8), be_bytes(i64_bits(b.fee), 8) + payload);
    lemma_subrange_split(s, 15, be_bytes(i64_bits(b.fee), 8), payload);
    assert(p_base(s, 3) == Some::<(TxBaseV, int)>((base0_of(v), 23)));
}

/// Decoding a well-formed transaction's canonical encoding gives back
/// exactly that transaction, consuming the whole encoding; in particular the
/// decoded transaction carries the same id.
#[verifier::rlimit(100)]
pub proof fn lemma_tx_round_trip(v: TxV)
    requires
        tx_v_wf(v),
    ensures
        parse_tx(ser_tx_v(v), 0) == Some::<(TxV, int)>((v, ser_tx_v(v).len() as int)),
        txid_spec(v) == txid_spec(parse_tx(ser_tx_v(v), 0)->Some_0.0),
{
    let s = ser_tx_v(v);
    let b = v.base();
    let sigs = b.sigs;
    let b0 = base0_of(v);
    let tag = tag_of_v(v);
    let pend = wo_sigs_len(v);
    lemma_parse_prefix(v);
    match v {
        TxV::Owner(o) => {
            lemma_p_owner(s, 23, b0, o.minter, o.wallet, o.script);
            assert(p_payload(s, 23, tag, b0) == Some::<(TxV, int)>(
                (TxV::Owner(OwnerV { base: b0, ..o }), pend),
            ));
        },
        TxV::Mint(m) => {
            lemma_p_mint(s, 23, b0, m.to, m.amount, m.attachment, m.attachment_name, m.script);
            assert(p_payload(s, 23, tag, b0) == Some::<(TxV, int)>(
                (TxV::Mint(MintV { base: b0, ..m }), pend),
            ));
        },
        TxV::Reward(r) => {
            lemma_p_reward(s, 23, b0, r.to, r.rewards);
            assert(p_payload(s, 23, tag, b0) == Some::<(TxV, int)>(
                (TxV::Reward(RewardV { base: b0, ..r }), pend),
            ));
        },
        TxV::Transfer(t) => {
            lemma_p_transfer(
                s,
                23,
                b0,
                t.from,
                t.script,
                t.call_fn,
                t.args,
                t.amount,
                t.memo,
                t.to,
            );
            assert(p_payload(s, 23, tag, b0) == Some::<(TxV, int)>(
                (TxV::Transfer(TransferV { base: b0, ..t }), pend),
            ));
        },
    }
    lemma_parse_sigs(s, pend + 1, sigs);
    let v0 = v.with_sigs(Seq::empty());
    assert(v0.with_sigs(sigs) == v);
    assert(parse_tx(s, 0) == Some::<(TxV, int)>((v, s.len() as int)));
}


/// Copies a signature pair; the contract pins the bytes.
pub fn clone_sig_pair(p: &SigPair) -> (r: SigPair)
    ensures
        sig_pair_view(r) == sig_pair_view(*p),
{
    SigPair {
        pub_key: PublicKey { bytes: clone_bytes(&p.pub_key.bytes) },
        signature: crate::crypto::Signature { bytes: clone_bytes(&p.signature.bytes) },
    }
}

/// Copies a signature list; the contract pins the views.
pub fn clone_sig_pairs(v: &Vec<SigPair>) -> (r: Vec<SigPair>)
    ensures
        sigs_view(r@) == sigs_view(v@),
{
    let mut out: Vec<SigPair> = Vec::new();
    let mut i: usize = 0;
    while i < v.len()
        invariant
            i <= v@.len(),
            out@.len() == i,
            forall|j: int| 0 <= j < i ==> sig_pair_view(#[trigger] out@[j]) == sig_pair_view(
                v@[j],
            ),
        decreases v@.len() - i,
    {
        out.push(clone_sig_pair(&v[i]));
        i = i + 1;
    }
    proof {
        assert(sigs_view(out@) =~= sigs_view(v@));
    }
    out
}

/// Copies a string; the contract pins the characters.
pub fn clone_string(s: &String) -> (r: String)
    ensures
        r@ == s@,
{
    String::from_str(s.as_str())
}

impl Tx {
    /// Copies the shared fields; the contract pins the view.
    pub fn duplicate(&self) -> (r: Tx)
        ensures
            r@ == self@,
    {
        Tx {
            nonce: self.nonce,
            expiry: self.expiry,
            fee: self.fee,
            signature_pairs: clone_sig_pairs(&self.signature_pairs),
        }
    }
}

impl OwnerTx {
    /// Copies the transaction; the contract pins the view.
    pub fn duplicate(&self) -> (r: OwnerTx)
        ensures
            r@ == self@,
    {
        OwnerTx {
            base: self.base.duplicate(),
            minter: PublicKey { bytes: clone_bytes(&self.minter.bytes) },
            wallet: self.wallet.duplicate(),
            script: Script { bytes: clone_bytes(&self.script.bytes) },
        }
    }
}

impl TxVariant {
    /// Copies the transaction; the contract pins the view.
    pub fn duplicate(&self) -> (r: TxVariant)
        ensures
            r@ == self@,
    {
        match self {
            TxVariant::V0(var) => match var {
                TxVariantV0::OwnerTx(t) => TxVariant::V0(TxVariantV0::OwnerTx(t.duplicate())),
                TxVariantV0::MintTx(t) => TxVariant::V0(
                    TxVariantV0::MintTx(
                        MintTx {
                            base: t.base.duplicate(),
                            to: t.to.duplicate(),
                            amount: t.amount,
                            attachment: clone_bytes(&t.attachment),
                            attachment_name: clone_string(&t.attachment_name),
                            script: Script { bytes: clone_bytes(&t.script.bytes) },
                        },
                    ),
                ),
                TxVariantV0::RewardTx(t) => TxVariant::V0(
                    TxVariantV0::RewardTx(
                        RewardTx { base: t.base.duplicate(), to: t.to.duplicate(), rewards: t.rewards },
                    ),
                ),
                TxVariantV0::TransferTx(t) => TxVariant::V0(
                    TxVariantV0::TransferTx(
                        TransferTx {
                            base: t.base.duplicate(),
                            from: t.from.duplicate(),
                            script: Script { bytes: clone_bytes(&t.script.bytes) },
                            call_fn: t.call_fn,
                            args: clone_bytes(&t.args),
                            amount: t.amount,
                            memo: clone_bytes(&t.memo),
                            to: t.to.duplicate(),
                        },
                    ),
                ),
            },
        }
    }
}

} // verus!
