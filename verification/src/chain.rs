//! The chain state engine: block-by-block validation, the balance, owner
//! and token-supply index, balance projection over pending transactions,
//! and the dynamic fee policy.
//!
//! The index lives in memory: balances are an append-only list of
//! `(address, amount)` records where the latest record for an address wins,
//! so a batch of updates is applied atomically by swapping in a finished
//! copy. Durability is the integrator's concern.

use crate::asset::{fits_i64, mul_value, pow_value, Asset};
use crate::block::{
    block_hash_spec, block_v_wf, merkle_root_spec, signed_block_wf, txids_of, txs_view, BlockV,
    SignedBlock, SignedBlockV,
};
use crate::constants::{
    FEE_RESET_WINDOW, GRAEL_FEE_MIN_RAW, GRAEL_FEE_MULT_RAW, GRAEL_FEE_NET_MULT_RAW,
    MAX_MEMO_BYTE_SIZE, MAX_SCRIPT_BYTE_SIZE, MAX_TX_SIGNATURES, NETWORK_FEE_AVG_WINDOW,
    TX_EXPIRY_ADJUSTMENT,
};
use crate::crypto::{dsha256, sig_verifies, Digest, KeyPair, PublicKey};
use crate::script::{Script, ScriptEngine, ScriptErr, ScriptHash};
use crate::tx::{
    tx_v_wf, OwnerTx, OwnerV, RewardTx, Tx, TxPrecompData, TxV, TxVariant, TxVariantV0,
};
use crate::util::bytes_eq;
use vstd::prelude::*;

verus! {

/// How far the on-disk index has been built; meaningful to integrators that
/// persist it.
#[derive(Clone, Copy, Debug, PartialEq, Eq, Structural)]
pub enum IndexStatus {
    NotIndexed,
    Partial,
    Complete,
}

/// Validation options: block validation skips the reward prohibition.
#[derive(Clone, Copy, Debug, PartialEq, Eq, Structural)]
pub struct Config {
    pub skip_reward: bool,
}

/// Why a transaction was rejected.
#[derive(Clone, Copy, Debug, PartialEq, Eq, Structural)]
pub enum TxErr {
    Arithmetic,
    InvalidFeeAmount,
    InsufficientBalance,
    TxTooLarge,
    TooManySignatures,
    ScriptHashMismatch,
    ScriptRetFalse,
    ScriptEval(ScriptErr),
    TxProhibited,
}

/// Why a block was rejected.
#[derive(Clone, Copy, Debug, PartialEq, Eq, Structural)]
pub enum BlockErr {
    InvalidBlockHeight,
    InvalidMerkleRoot,
    InvalidPrevHash,
    InvalidHash,
    InvalidSignature,
    Tx(TxErr),
}

// ---------------------------------------------------------------------------
// The balance index.
// ---------------------------------------------------------------------------

/// The balance an account list gives an address: the latest record wins,
/// absent addresses hold zero.
pub open spec fn bal_of(s: Seq<(ScriptHash, Asset)>, a: Seq<u8>) -> int
    decreases s.len(),
{
    if s.len() == 0 {
        0
    } else if s.last().0.addr() == a {
        s.last().1.amount as int
    } else {
        bal_of(s.drop_last(), a)
    }
}

/// Looks an address up in an account list.
fn lookup_bal(accs: &Vec<(ScriptHash, Asset)>, h: &ScriptHash) -> (r: Asset)
    ensures
        r.amount as int == bal_of(accs@, h.addr()),
{
    let mut i: usize = accs.len();
    proof {
        assert(accs@.take(accs@.len() as int) =~= accs@);
    }
    while i > 0
        invariant
            i <= accs@.len(),
            bal_of(accs@, h.addr()) == bal_of(accs@.take(i as int), h.addr()),
        decreases i,
    {
        i = i - 1;
        proof {
            assert(accs@.take(i + 1).last() == accs@[i as int]);
            assert(accs@.take(i + 1).drop_last() =~= accs@.take(i as int));
        }
        if bytes_eq(accs[i].0.digest.bytes.as_slice(), h.digest.bytes.as_slice()) {
            return accs[i].1;
        }
    }
    proof {
        assert(bal_of(accs@.take(0), h.addr()) == 0);
    }
    Asset { amount: 0 }
}

/// Records a balance; later records shadow earlier ones.
fn record_bal(accs: &mut Vec<(ScriptHash, Asset)>, h: &ScriptHash, v: Asset)
    ensures
        bal_of(final(accs)@, h.addr()) == v.amount as int,
        forall|a: Seq<u8>| a != h.addr() ==> bal_of(final(accs)@, a) == bal_of(old(accs)@, a),
        final(accs)@.len() == old(accs)@.len() + 1,
        final(accs)@.drop_last() == old(accs)@,
        final(accs)@.last().0.addr() == h.addr(),
        final(accs)@.last().1 == v,
{
    accs.push((h.duplicate(), v));
    proof {
        assert(accs@.last().0.addr() == h.addr());
        assert(accs@.drop_last() =~= old(accs)@);
    }
}

/// The in-memory key-value index: balances, the chain height, the token
/// supply, the network owner, and the build status.
pub struct Indexer {
    accounts: Vec<(ScriptHash, Asset)>,
    chain_height: u64,
    token_supply: Asset,
    owner: Option<OwnerTx>,
    status: IndexStatus,
}

impl Indexer {
    pub closed spec fn bal(&self, a: Seq<u8>) -> int {
        bal_of(self.accounts@, a)
    }

    pub closed spec fn height_spec(&self) -> u64 {
        self.chain_height
    }

    pub closed spec fn supply_spec(&self) -> int {
        self.token_supply.amount as int
    }

    pub closed spec fn owner_spec(&self) -> Option<OwnerV> {
        match self.owner {
            Option::Some(o) => Some(o@),
            Option::None => None,
        }
    }

    pub closed spec fn status_spec(&self) -> IndexStatus {
        self.status
    }

    /// An empty index: no balances, height zero, no supply, no owner.
    pub fn new() -> (r: Indexer)
        ensures
            forall|a: Seq<u8>| r.bal(a) == 0,
            r.height_spec() == 0,
            r.supply_spec() == 0,
            r.owner_spec() is None,
            r.status_spec() == IndexStatus::NotIndexed,
    {
        Indexer {
            accounts: Vec::new(),
            chain_height: 0,
            token_supply: Asset { amount: 0 },
            owner: None,
            status: IndexStatus::NotIndexed,
        }
    }

    /// The indexed balance of an address; zero when unknown.
    pub fn get_balance(&self, hash: &ScriptHash) -> (r: Asset)
        ensures
            r.amount as int == self.bal(hash.addr()),
    {
        lookup_bal(&self.accounts, hash)
    }

    pub fn get_chain_height(&self) -> (r: u64)
        ensures
            r == self.height_spec(),
    {
        self.chain_height
    }

    pub fn get_token_supply(&self) -> (r: Asset)
        ensures
            r.amount as int == self.supply_spec(),
    {
        self.token_supply
    }

    /// The most recent ownership rotation, if one was indexed.
    pub fn get_owner(&self) -> (r: Option<&OwnerTx>)
        ensures
            match self.owner_spec() {
                Option::Some(o) => r matches Some(t) && t@ == o,
                Option::None => r is None,
            },
    {
        match &self.owner {
            Option::Some(o) => Some(o),
            Option::None => None,
        }
    }

    pub fn index_status(&self) -> (r: IndexStatus)
        ensures
            r == self.status_spec(),
    {
        self.status
    }

    pub fn set_index_status(&mut self, status: IndexStatus)
        ensures
            final(self).status_spec() == status,
            final(self).bal_unchanged(*old(self)),
            final(self).height_spec() == old(self).height_spec(),
            final(self).supply_spec() == old(self).supply_spec(),
            final(self).owner_spec() == old(self).owner_spec(),
    {
        self.status = status;
    }

    /// Every balance equal between two index states.
    pub open spec fn bal_unchanged(&self, other: Indexer) -> bool {
        forall|a: Seq<u8>| self.bal(a) == other.bal(a)
    }
}

/// Tracks admitted transaction ids with their expiry, for replay rejection.
pub struct TxManager {
    txs: Vec<(Digest, u64)>,
}

/// Whether the list holds an id.
pub open spec fn has_txid(s: Seq<(Seq<u8>, u64)>, id: Seq<u8>) -> bool {
    exists|i: int| 0 <= i < s.len() && (#[trigger] s[i]).0 == id
}

/// The entries kept by a purge at the given cutoff.
pub open spec fn keep_unexpired(s: Seq<(Seq<u8>, u64)>, cutoff: u64) -> Seq<(Seq<u8>, u64)>
    decreases s.len(),
{
    if s.len() == 0 {
        s
    } else if s.last().1 >= cutoff {
        keep_unexpired(s.drop_last(), cutoff).push(s.last())
    } else {
        keep_unexpired(s.drop_last(), cutoff)
    }
}

impl TxManager {
    /// The admitted ids with their expiry, in admission order.
    pub closed spec fn entries(&self) -> Seq<(Seq<u8>, u64)> {
        self.txs@.map_values(|p: (Digest, u64)| (p.0.bytes@, p.1))
    }

    pub fn new() -> (r: TxManager)
        ensures
            r.entries() == Seq::<(Seq<u8>, u64)>::empty(),
    {
        let r = TxManager { txs: Vec::new() };
        proof {
            assert(r.entries() =~= Seq::<(Seq<u8>, u64)>::empty());
        }
        r
    }

    /// Whether the id was admitted and not yet purged.
    pub fn has(&self, id: &crate::tx::TxId) -> (r: bool)
        ensures
            r == has_txid(self.entries(), id.digest.bytes@),
    {
        let mut i: usize = 0;
        while i < self.txs.len()
            invariant
                i <= self.txs@.len(),
                forall|j: int| 0 <= j < i ==> (#[trigger] self.entries()[j]).0
                    != id.digest.bytes@,
            decreases self.txs@.len() - i,
        {
            proof {
                assert(self.entries()[i as int].0 == self.txs@[i as int].0.bytes@);
            }
            if bytes_eq(self.txs[i].0.bytes.as_slice(), id.digest.bytes.as_slice()) {
                return true;
            }
            i = i + 1;
        }
        false
    }

    /// Admits an id with its expiry.
    pub fn insert(&mut self, id: &crate::tx::TxId, expiry: u64)
        ensures
            final(self).entries() == old(self).entries().push((id.digest.bytes@, expiry)),
    {
        self.txs.push((Digest { bytes: crate::util::clone_bytes(&id.digest.bytes) }, expiry));
        proof {
            assert(self.entries() =~= old(self).entries().push((id.digest.bytes@, expiry)));
        }
    }

    /// Drops every entry whose expiry lies before `now` minus the grace
    /// period.
    pub fn purge_expired(&mut self, now: u64)
        ensures
            final(self).entries() == keep_unexpired(
                old(self).entries(),
                if now >= TX_EXPIRY_ADJUSTMENT {
                    (now - TX_EXPIRY_ADJUSTMENT) as u64
                } else {
                    0u64
                },
            ),
    {
        let cutoff: u64 = if now >= TX_EXPIRY_ADJUSTMENT {
            now - TX_EXPIRY_ADJUSTMENT
        } else {
            0
        };
        let ghost before = self.entries();
        let mut kept: Vec<(Digest, u64)> = Vec::new();
        let mut i: usize = 0;
        proof {
            assert(before.take(0) =~= Seq::<(Seq<u8>, u64)>::empty());
            assert(kept@.map_values(|p: (Digest, u64)| (p.0.bytes@, p.1)) =~= keep_unexpired(
                before.take(0),
                cutoff,
            ));
        }
        while i < self.txs.len()
            invariant
                i <= self.txs@.len(),
                before == self.entries(),
                before.len() == self.txs@.len(),
                kept@.map_values(|p: (Digest, u64)| (p.0.bytes@, p.1)) == keep_unexpired(
                    before.take(i as int),
                    cutoff,
                ),
            decreases self.txs@.len() - i,
        {
            proof {
                assert(before.take(i + 1).drop_last() =~= before.take(i as int));
                assert(before.take(i + 1).last() == before[i as int]);
                assert(before[i as int] == (self.txs@[i as int].0.bytes@, self.txs@[i as int].1));
            }
            if self.txs[i].1 >= cutoff {
                kept.push(
                    (
                        Digest { bytes: crate::util::clone_bytes(&self.txs[i].0.bytes) },
                        self.txs[i].1,
                    ),
                );
            }
            proof {
                assert(kept@.map_values(|p: (Digest, u64)| (p.0.bytes@, p.1)) =~= keep_unexpired(
                    before.take(i + 1),
                    cutoff,
                ));
            }
            i = i + 1;
        }
        proof {
            assert(before.take(before.len() as int) =~= before);
        }
        self.txs = kept;
    }
}

// ---------------------------------------------------------------------------
// Balance projection and index effects.
// ---------------------------------------------------------------------------

/// One projection step: how a single pending transaction moves an
/// address's balance; `None` on arithmetic overflow.
pub open spec fn project_step(b: int, tx: TxV, a: Seq<u8>) -> Option<int> {
    match tx {
        TxV::Owner(_) => Some(b),
        TxV::Mint(m) => if m.to == a {
            if fits_i64(b + m.amount) {
                Some(b + m.amount)
            } else {
                None
            }
        } else {
            Some(b)
        },
        TxV::Reward(r) => if r.to == a {
            if fits_i64(b + r.rewards) {
                Some(b + r.rewards)
            } else {
                None
            }
        } else {
            Some(b)
        },
        TxV::Transfer(t) => if t.from == a {
            if fits_i64(b - t.base.fee) {
                if fits_i64(b - t.base.fee - t.amount) {
                    Some(b - t.base.fee - t.amount)
                } else {
                    None
                }
            } else {
                None
            }
        } else if t.to == a {
            if fits_i64(b + t.amount) {
                Some(b + t.amount)
            } else {
                None
            }
        } else {
            Some(b)
        },
    }
}

/// The projected balance of `a`: the indexed start folded through the
/// pending transactions in order.
pub open spec fn project_balance(start: int, txs: Seq<TxV>, a: Seq<u8>) -> Option<int>
    decreases txs.len(),
{
    if txs.len() == 0 {
        Some(start)
    } else {
        match project_balance(start, txs.drop_last(), a) {
            Option::None => None,
            Option::Some(b) => project_step(b, txs.last(), a),
        }
    }
}

/// A failed projection stays failed under more transactions.
pub proof fn lemma_project_prefix_none(start: int, txs: Seq<TxV>, k: int, a: Seq<u8>)
    requires
        0 <= k <= txs.len(),
        project_balance(start, txs.take(k), a) is None,
    ensures
        project_balance(start, txs, a) is None,
    decreases txs.len() - k,
{
    if k < txs.len() {
        assert(txs.take(k + 1).drop_last() =~= txs.take(k));
        lemma_project_prefix_none(start, txs, k + 1, a);
    } else {
        assert(txs.take(k) =~= txs);
    }
}

/// Projection over an empty pending list is the indexed balance itself.
pub proof fn lemma_project_empty(start: int, a: Seq<u8>)
    ensures
        project_balance(start, Seq::<TxV>::empty(), a) == Some(start),
{
}

/// How indexing a block moves one address's balance. Unlike projection, a
/// transfer both debits the sender (fee and amount together) and credits
/// the recipient.
pub open spec fn index_step(b: int, tx: TxV, a: Seq<u8>) -> Option<int> {
    match tx {
        TxV::Owner(_) => Some(b),
        TxV::Mint(m) => if m.to == a {
            if fits_i64(b + m.amount) {
                Some(b + m.amount)
            } else {
                None
            }
        } else {
            Some(b)
        },
        TxV::Reward(r) => if r.to == a {
            if fits_i64(b + r.rewards) {
                Some(b + r.rewards)
            } else {
                None
            }
        } else {
            Some(b)
        },
        TxV::Transfer(t) => {
            if !fits_i64(t.base.fee + t.amount) {
                None
            } else {
                let b1 = if t.from == a {
                    b - (t.base.fee + t.amount)
                } else {
                    b
                };
                if t.from == a && !fits_i64(b1) {
                    None
                } else if t.to == a {
                    if fits_i64(b1 + t.amount) {
                        Some(b1 + t.amount)
                    } else {
                        None
                    }
                } else {
                    Some(b1)
                }
            }
        },
    }
}

/// One address's balance after indexing a whole block.
pub open spec fn index_txs(start: int, txs: Seq<TxV>, a: Seq<u8>) -> Option<int>
    decreases txs.len(),
{
    if txs.len() == 0 {
        Some(start)
    } else {
        match index_txs(start, txs.drop_last(), a) {
            Option::None => None,
            Option::Some(b) => index_step(b, txs.last(), a),
        }
    }
}

/// Whether a transaction spends from the address.
pub open spec fn spends_from(tx: TxV, a: Seq<u8>) -> bool {
    tx matches TxV::Transfer(t) && t.from == a
}

/// Every amount an indexing step moves is nonnegative.
pub open spec fn tx_amounts_nonneg(tx: TxV) -> bool {
    match tx {
        TxV::Owner(_) => true,
        TxV::Mint(m) => m.amount >= 0,
        TxV::Reward(r) => r.rewards >= 0,
        TxV::Transfer(t) => t.amount >= 0 && t.base.fee >= 0,
    }
}

/// With nonnegative amounts, indexing a block only credits an address that
/// spends nothing in it, so such an address never goes below where it
/// started. (An address that does spend relies on the sufficient-balance
/// check of verification; a block with negative mint or transfer amounts
/// can debit freely, which is why nothing stronger is claimed.)
pub proof fn lemma_index_nonnegative(start: int, txs: Seq<TxV>, a: Seq<u8>)
    requires
        start >= 0,
        forall|k: int| 0 <= k < txs.len() ==> tx_amounts_nonneg(#[trigger] txs[k]),
        forall|k: int| 0 <= k < txs.len() ==> !spends_from(#[trigger] txs[k], a),
    ensures
        index_txs(start, txs, a) matches Some(v) ==> v >= start,
    decreases txs.len(),
{
    if txs.len() > 0 {
        lemma_index_nonnegative(start, txs.drop_last(), a);
    }
}

/// The token supply after indexing a block: every mint adds its amount.
pub open spec fn index_supply(start: int, txs: Seq<TxV>) -> Option<int>
    decreases txs.len(),
{
    if txs.len() == 0 {
        Some(start)
    } else {
        match index_supply(start, txs.drop_last()) {
            Option::None => None,
            Option::Some(sup) => match txs.last() {
                TxV::Mint(m) => if fits_i64(sup + m.amount) {
                    Some(sup + m.amount)
                } else {
                    None
                },
                _ => Some(sup),
            },
        }
    }
}

/// The network owner after indexing a block: the last ownership rotation
/// wins.
pub open spec fn index_owner(cur: OwnerV, txs: Seq<TxV>) -> OwnerV
    decreases txs.len(),
{
    if txs.len() == 0 {
        cur
    } else {
        match txs.last() {
            TxV::Owner(o) => o,
            _ => index_owner(cur, txs.drop_last()),
        }
    }
}

// ---------------------------------------------------------------------------
// The fee policy.
// ---------------------------------------------------------------------------

/// How many transfers in the list spend from `a`.
pub open spec fn matches_in(txs: Seq<TxV>, a: Seq<u8>) -> nat
    decreases txs.len(),
{
    if txs.len() == 0 {
        0
    } else {
        matches_in(txs.drop_last(), a) + match txs.last() {
            TxV::Transfer(t) => if t.from == a {
                1nat
            } else {
                0nat
            },
            _ => 0nat,
        }
    }
}

/// Transfers counted while walking blocks from the head backward: each
/// traversed block bumps the idle counter, a matching transfer resets it,
/// and the walk stops once `FEE_RESET_WINDOW` idle blocks pass.
pub open spec fn addr_count_blocks(blocks: Seq<BlockV>, a: Seq<u8>, delta: nat) -> nat
    decreases blocks.len(),
{
    if blocks.len() == 0 {
        0
    } else {
        let m = matches_in(blocks.last().transactions, a);
        let d2: nat = if m > 0 {
            0
        } else {
            delta + 1
        };
        if d2 == FEE_RESET_WINDOW {
            m
        } else {
            m + addr_count_blocks(blocks.drop_last(), a, d2)
        }
    }
}

/// The fee curve: the minimum fee times `mult^count`. A count beyond the
/// curve's sixteen-bit range, like any overflow along the way, yields
/// absence — a fee is never quoted from a wrapped exponent.
pub open spec fn fee_curve(mult: int, count: nat) -> Option<int> {
    if count > 65535 {
        None
    } else {
        match pow_value(mult, count) {
            Option::None => None,
            Option::Some(p) => if fits_i64(mul_value(GRAEL_FEE_MIN_RAW as int, p)) {
                Some(mul_value(GRAEL_FEE_MIN_RAW as int, p))
            } else {
                None
            },
        }
    }
}

/// The address fee: the pending pool and the recent blocks each raise the
/// exponent by one per matching transfer.
pub open spec fn address_fee_spec(blocks: Seq<BlockV>, pending: Seq<TxV>, a: Seq<u8>) -> Option<
    int,
> {
    fee_curve(
        GRAEL_FEE_MULT_RAW as int,
        1 + matches_in(pending, a) + addr_count_blocks(blocks, a, 0),
    )
}

/// Transactions held by the blocks with heights in `lo..=hi`.
pub open spec fn sum_txs(blocks: Seq<BlockV>, lo: int, hi: int) -> nat
    decreases hi + 1 - lo,
{
    if hi < lo || hi >= blocks.len() || lo < 0 {
        0
    } else {
        sum_txs(blocks, lo, hi - 1) + blocks[hi].transactions.len()
    }
}

/// The network fee: the average transaction count over an aligned window of
/// recent blocks drives the exponent. The window advances only every five
/// blocks so that a quoted fee survives within the window.
pub open spec fn network_fee_spec(blocks: Seq<BlockV>) -> Option<int> {
    let height = blocks.len() - 1;
    let maxh = height - (height % 5);
    let minh: int = if maxh > NETWORK_FEE_AVG_WINDOW {
        maxh - NETWORK_FEE_AVG_WINDOW
    } else {
        0
    };
    let count = (1 + sum_txs(blocks, minh, maxh)) / NETWORK_FEE_AVG_WINDOW as nat;
    fee_curve(GRAEL_FEE_NET_MULT_RAW as int, count)
}

/// The total fee a transfer from `a` owes: address fee plus network fee.
pub open spec fn total_fee_spec(blocks: Seq<BlockV>, pending: Seq<TxV>, a: Seq<u8>) -> Option<
    int,
> {
    match network_fee_spec(blocks) {
        Option::None => None,
        Option::Some(nf) => match address_fee_spec(blocks, pending, a) {
            Option::None => None,
            Option::Some(af) => if fits_i64(af + nf) {
                Some(af + nf)
            } else {
                None
            },
        },
    }
}


/// Counts the transfers in a list spending from `h`.
fn count_matches(txs: &[TxVariant], h: &ScriptHash) -> (r: u64)
    requires
        txs@.len() < 0x1_0000_0000,
    ensures
        r as nat == matches_in(txs_view(txs@), h.addr()),
        r < 0x1_0000_0000,
{
    let ghost tv = txs_view(txs@);
    let mut count: u64 = 0;
    let mut i: usize = 0;
    proof {
        assert(tv.take(0) =~= Seq::<TxV>::empty());
    }
    while i < txs.len()
        invariant
            i <= txs@.len(),
            txs@.len() < 0x1_0000_0000,
            tv == txs_view(txs@),
            count as nat == matches_in(tv.take(i as int), h.addr()),
            count <= i,
        decreases txs@.len() - i,
    {
        proof {
            assert(tv.take(i + 1).drop_last() =~= tv.take(i as int));
            assert(tv.take(i + 1).last() == tv[i as int]);
            assert(tv[i as int] == txs@[i as int]@);
        }
        match &txs[i] {
            TxVariant::V0(var) => match var {
                TxVariantV0::TransferTx(t) => {
                    if bytes_eq(t.from.digest.bytes.as_slice(), h.digest.bytes.as_slice()) {
                        count = count + 1;
                    }
                },
                _ => {},
            },
        }
        i = i + 1;
    }
    proof {
        assert(tv.take(txs@.len() as int) =~= tv);
    }
    count
}

/// Network properties reported to clients.
#[derive(Debug)]
pub struct Properties {
    pub height: u64,
    pub owner: OwnerTx,
    pub token_supply: Asset,
    pub network_fee: Asset,
}

/// The mathematical shape of the network properties.
pub ghost struct PropertiesV {
    pub height: u64,
    pub owner: OwnerV,
    pub token_supply: int,
    pub network_fee: int,
}

impl View for Properties {
    type V = PropertiesV;

    open spec fn view(&self) -> PropertiesV {
        PropertiesV {
            height: self.height,
            owner: self.owner@,
            token_supply: self.token_supply.amount as int,
            network_fee: self.network_fee.amount as int,
        }
    }
}

/// Fee and balance facts about one address.
#[derive(Clone, Copy, Debug, PartialEq, Eq, Structural)]
pub struct AddressInfo {
    pub net_fee: Asset,
    pub addr_fee: Asset,
    pub balance: Asset,
}

/// The mathematical shape of the address facts.
pub ghost struct AddressInfoV {
    pub net_fee: int,
    pub addr_fee: int,
    pub balance: int,
}

impl View for AddressInfo {
    type V = AddressInfoV;

    open spec fn view(&self) -> AddressInfoV {
        AddressInfoV {
            net_fee: self.net_fee.amount as int,
            addr_fee: self.addr_fee.amount as int,
            balance: self.balance.amount as int,
        }
    }
}

impl AddressInfo {
    /// The fee a transfer from the address owes now: address plus network
    /// fee.
    pub fn total_fee(&self) -> (r: Option<Asset>)
        ensures
            fits_i64(self.addr_fee.amount + self.net_fee.amount) ==> r == Some(
                Asset { amount: (self.addr_fee.amount + self.net_fee.amount) as i64 },
            ),
            !fits_i64(self.addr_fee.amount + self.net_fee.amount) ==> r is None,
    {
        self.addr_fee.checked_add(self.net_fee)
    }
}

/// The chain state engine: the block list and the index over it.
pub struct Blockchain {
    indexer: Indexer,
    store: Vec<SignedBlock>,
}

impl Blockchain {
    /// The chain so far, genesis first.
    pub closed spec fn blocks(&self) -> Seq<BlockV> {
        self.store@.map_values(|b: SignedBlock| b@.block)
    }

    /// The indexed balance of an address.
    pub closed spec fn bal(&self, a: Seq<u8>) -> int {
        self.indexer.bal(a)
    }

    /// The indexed token supply.
    pub closed spec fn supply(&self) -> int {
        self.indexer.supply_spec()
    }

    /// The current network owner.
    pub closed spec fn owner_v(&self) -> OwnerV {
        self.indexer.owner_spec()->Some_0
    }

    /// The engine invariant: a genesis block exists, heights are contiguous
    /// from zero, the indexed height names the head, every stored block is
    /// well formed, and an owner is set.
    pub closed spec fn wf(&self) -> bool {
        &&& 1 <= self.store@.len() < u64::MAX
        &&& self.indexer.height_spec() as nat == self.store@.len() - 1
        &&& forall|k: int| 0 <= k < self.store@.len() ==> (#[trigger] self.store@[k]@).block.height
            as int == k
        &&& forall|k: int| 0 <= k < self.store@.len() ==> signed_block_wf(
            #[trigger] self.store@[k]@,
        )
        &&& self.indexer.owner_spec() matches Some(o) && tx_v_wf(TxV::Owner(o))
    }

    /// An empty engine; a genesis block must be created before use.
    pub fn new() -> (r: Blockchain)
        ensures
            r.blocks().len() == 0,
            forall|a: Seq<u8>| r.bal(a) == 0,
            r.supply() == 0,
            r.indexer_ref().owner_spec() is None,
    {
        let r = Blockchain { indexer: Indexer::new(), store: Vec::new() };
        proof {
            assert(r.blocks() =~= Seq::<BlockV>::empty());
        }
        r
    }

    pub closed spec fn indexer_ref(&self) -> Indexer {
        self.indexer
    }

    /// The index, for read access.
    pub fn indexer(&self) -> (r: &Indexer)
        ensures
            *r == self.indexer_ref(),
    {
        &self.indexer
    }

    /// The most recent ownership rotation.
    pub fn get_owner(&self) -> (r: &OwnerTx)
        requires
            self.wf(),
        ensures
            r@ == self.owner_v(),
    {
        match self.indexer.get_owner() {
            Option::Some(o) => o,
            Option::None => vstd::pervasive::unreached(),
        }
    }

    /// The height of the chain head.
    pub fn get_chain_height(&self) -> (r: u64)
        requires
            self.wf(),
        ensures
            r as nat == self.blocks().len() - 1,
    {
        self.indexer.get_chain_height()
    }

    /// The chain head.
    pub fn get_chain_head(&self) -> (r: &SignedBlock)
        requires
            self.wf(),
        ensures
            r@.block == self.blocks().last(),
            signed_block_wf(r@),
    {
        proof {
            assert(self.blocks()[self.store@.len() - 1] == self.store@[self.store@.len() - 1]@.block);
        }
        &self.store[self.store.len() - 1]
    }

    /// One block by height, when it exists.
    pub fn get_block(&self, height: u64) -> (r: Option<&SignedBlock>)
        requires
            self.wf(),
        ensures
            (height as nat) < self.blocks().len() ==> (r matches Some(b) && b@.block
                == self.blocks()[height as int] && signed_block_wf(b@)),
            (height as nat) >= self.blocks().len() ==> r is None,
    {
        if height < self.store.len() as u64 {
            proof {
                assert(self.blocks()[height as int] == self.store@[height as int]@.block);
            }
            Some(&self.store[height as usize])
        } else {
            None
        }
    }

    /// The indexed balance of an address.
    pub fn get_balance(&self, hash: &ScriptHash) -> (r: Asset)
        ensures
            r.amount as int == self.bal(hash.addr()),
    {
        self.indexer.get_balance(hash)
    }

    /// The balance of an address after the pending transactions are applied
    /// in order; absent on arithmetic overflow.
    pub fn get_balance_with_txs(&self, hash: &ScriptHash, txs: &[TxVariant]) -> (r: Option<Asset>)
        ensures
            match project_balance(self.bal(hash.addr()), txs_view(txs@), hash.addr()) {
                Option::Some(v) => r == Some(Asset { amount: v as i64 }) && fits_i64(v),
                Option::None => r is None,
            },
    {
        let ghost tv = txs_view(txs@);
        let ghost a = hash.addr();
        let start = self.indexer.get_balance(hash);
        let mut bal = start;
        let mut i: usize = 0;
        proof {
            assert(tv.take(0) =~= Seq::<TxV>::empty());
        }
        while i < txs.len()
            invariant
                i <= txs@.len(),
                tv == txs_view(txs@),
                a == hash.addr(),
                start.amount as int == self.bal(a),
                project_balance(self.bal(a), tv.take(i as int), a) == Some(bal.amount as int),
            decreases txs@.len() - i,
        {
            proof {
                assert(tv.take(i + 1).drop_last() =~= tv.take(i as int));
                assert(tv.take(i + 1).last() == tv[i as int]);
                assert(tv[i as int] == txs@[i as int]@);
            }
            let stepped: Option<Asset> = match &txs[i] {
                TxVariant::V0(var) => match var {
                    TxVariantV0::OwnerTx(_) => Some(bal),
                    TxVariantV0::MintTx(t) => {
                        if bytes_eq(t.to.digest.bytes.as_slice(), hash.digest.bytes.as_slice()) {
                            bal.checked_add(t.amount)
                        } else {
                            Some(bal)
                        }
                    },
                    TxVariantV0::RewardTx(t) => {
                        if bytes_eq(t.to.digest.bytes.as_slice(), hash.digest.bytes.as_slice()) {
                            bal.checked_add(t.rewards)
                        } else {
                            Some(bal)
                        }
                    },
                    TxVariantV0::TransferTx(t) => {
                        if bytes_eq(t.from.digest.bytes.as_slice(), hash.digest.bytes.as_slice()) {
                            match bal.checked_sub(t.base.fee) {
                                Option::Some(b1) => b1.checked_sub(t.amount),
                                Option::None => None,
                            }
                        } else if bytes_eq(
                            t.to.digest.bytes.as_slice(),
                            hash.digest.bytes.as_slice(),
                        ) {
                            bal.checked_add(t.amount)
                        } else {
                            Some(bal)
                        }
                    },
                },
            };
            match stepped {
                Option::Some(b) => {
                    bal = b;
                },
                Option::None => {
                    proof {
                        lemma_project_prefix_none(self.bal(a), tv, i + 1, a);
                    }
                    return None;
                },
            }
            i = i + 1;
        }
        proof {
            assert(tv.take(txs@.len() as int) =~= tv);
        }
        Some(bal)
    }

    /// The network fee at the current aligned window.
    pub fn get_network_fee(&self) -> (r: Option<Asset>)
        requires
            self.wf(),
        ensures
            match network_fee_spec(self.blocks()) {
                Option::Some(v) => r == Some(Asset { amount: v as i64 }),
                Option::None => r is None,
            },
    {
        let height = self.get_chain_height();
        let max_height = height - height % 5;
        let min_height: u64 = if max_height > NETWORK_FEE_AVG_WINDOW {
            max_height - NETWORK_FEE_AVG_WINDOW
        } else {
            0
        };
        let mut tx_count: u64 = 1;
        let mut i: u64 = min_height;
        proof {
            assert(sum_txs(self.blocks(), min_height as int, min_height - 1) == 0);
        }
        while i <= max_height
            invariant
                self.wf(),
                min_height <= i <= max_height + 1,
                max_height < self.blocks().len(),
                max_height <= u64::MAX - 1,
                max_height - min_height <= NETWORK_FEE_AVG_WINDOW,
                tx_count as nat == 1 + sum_txs(self.blocks(), min_height as int, i - 1),
                tx_count <= 1 + (i - min_height) * 0x1_0000_0000,
            decreases max_height + 1 - i,
        {
            proof {
                assert(i < self.store@.len());
                assert(self.blocks()[i as int] == self.store@[i as int]@.block);
                assert(signed_block_wf(self.store@[i as int]@));
            }
            let store_len = self.store.len();
            proof {
                assert(self.store@.len() == store_len);
                assert(i < store_len as u64);
            }
            let blk = &self.store[i as usize];
            proof {
                assert(*blk == self.store@[i as int]);
            }
            let txs_vec = blk.txs();
            let n = txs_vec.len();
            proof {
                assert(txs_view(txs_vec@) == self.store@[i as int]@.block.transactions);
                assert(txs_view(txs_vec@).len() == txs_vec@.len());
                assert(n as nat == self.blocks()[i as int].transactions.len());
                assert(sum_txs(self.blocks(), min_height as int, i as int) == sum_txs(
                    self.blocks(),
                    min_height as int,
                    i - 1,
                ) + self.blocks()[i as int].transactions.len());
            }
            tx_count = tx_count + n as u64;
            i = i + 1;
        }
        let count = tx_count / NETWORK_FEE_AVG_WINDOW;
        if count > 65535 {
            return None;
        }
        match crate::constants::grael_fee_net_mult().pow(count as u16) {
            Option::Some(p) => crate::constants::grael_fee_min().checked_mul(p),
            Option::None => None,
        }
    }

    /// The address fee: grows with recent transfers from the address, and
    /// resets after enough idle blocks.
    pub fn get_address_fee(&self, hash: &ScriptHash, additional_txs: &[TxVariant]) -> (r: Option<
        Asset,
    >)
        requires
            self.wf(),
            additional_txs@.len() < 0x1_0000_0000,
        ensures
            match address_fee_spec(self.blocks(), txs_view(additional_txs@), hash.addr()) {
                Option::Some(v) => r == Some(Asset { amount: v as i64 }),
                Option::None => r is None,
            },
    {
        let ghost a = hash.addr();
        let ghost total: nat = 1 + matches_in(txs_view(additional_txs@), a) + addr_count_blocks(
            self.blocks(),
            a,
            0,
        );
        let pending = count_matches(additional_txs, hash);
        let mut tx_count: u128 = 1 + pending as u128;
        let mut delta: u64 = 0;
        let mut i: u64 = self.get_chain_height() + 1;
        let mut stopped: bool = false;
        proof {
            assert(self.blocks().take(i as int) =~= self.blocks());
        }
        while i > 0 && !stopped
            invariant
                self.wf(),
                i <= self.blocks().len(),
                a == hash.addr(),
                delta <= FEE_RESET_WINDOW,
                !stopped ==> delta < FEE_RESET_WINDOW,
                !stopped ==> total == tx_count + addr_count_blocks(
                    self.blocks().take(i as int),
                    a,
                    delta as nat,
                ),
                stopped ==> total == tx_count,
                tx_count <= 1 + 0x1_0000_0000u128 + (self.blocks().len() - i)
                    * 0x1_0000_0000u128,
                self.blocks().len() < u64::MAX,
            decreases i,
        {
            proof {
                assert(i - 1 < self.store@.len());
                assert(self.blocks()[i - 1] == self.store@[i - 1]@.block);
                assert(signed_block_wf(self.store@[i - 1]@));
                assert(self.blocks().take(i as int).last() == self.blocks()[i - 1]);
                assert(self.blocks().take(i as int).drop_last() =~= self.blocks().take(i - 1));
            }
            let store_len = self.store.len();
            proof {
                assert(self.store@.len() == store_len);
                assert(i - 1 < store_len as u64);
            }
            let blk = &self.store[(i - 1) as usize];
            proof {
                assert(*blk == self.store@[i - 1]);
            }
            let txs_vec = blk.txs();
            proof {
                assert(txs_view(txs_vec@) == self.store@[i - 1]@.block.transactions);
                assert(txs_view(txs_vec@).len() == txs_vec@.len());
                assert(self.store@[i - 1]@.block.transactions.len() < 0x1_0000_0000);
            }
            let m = count_matches(txs_vec.as_slice(), hash);
            proof {
                assert(m as nat == matches_in(self.blocks()[i - 1].transactions, a));
            }
            let ghost old_count = tx_count;
            let ghost old_delta = delta;
            tx_count = tx_count + m as u128;
            if m > 0 {
                delta = 0;
            } else {
                delta = delta + 1;
            }
            if delta == FEE_RESET_WINDOW {
                stopped = true;
            }
            i = i - 1;
            proof {
                let bl = self.blocks();
                let d2: nat = if m > 0 {
                    0
                } else {
                    (old_delta + 1) as nat
                };
                assert(addr_count_blocks(bl.take(i + 1), a, old_delta as nat) == (if d2
                    == FEE_RESET_WINDOW {
                    m as nat
                } else {
                    m as nat + addr_count_blocks(bl.take(i as int), a, d2)
                }));
            }
        }
        proof {
            if !stopped {
                assert(self.blocks().take(0) =~= Seq::<BlockV>::empty());
            }
            assert(total == tx_count);
        }
        if tx_count > 65535 {
            return None;
        }
        match crate::constants::grael_fee_mult().pow(tx_count as u16) {
            Option::Some(p) => crate::constants::grael_fee_min().checked_mul(p),
            Option::None => None,
        }
    }

    /// The fee a transfer from the address owes: address fee plus network
    /// fee.
    pub fn get_total_fee(&self, hash: &ScriptHash, additional_txs: &[TxVariant]) -> (r: Option<
        Asset,
    >)
        requires
            self.wf(),
            additional_txs@.len() < 0x1_0000_0000,
        ensures
            match total_fee_spec(self.blocks(), txs_view(additional_txs@), hash.addr()) {
                Option::Some(v) => r == Some(Asset { amount: v as i64 }),
                Option::None => r is None,
            },
    {
        let net_fee = match self.get_network_fee() {
            Option::Some(f) => f,
            Option::None => {
                return None;
            },
        };
        let addr_fee = match self.get_address_fee(hash, additional_txs) {
            Option::Some(f) => f,
            Option::None => {
                return None;
            },
        };
        addr_fee.checked_add(net_fee)
    }

    /// Fee and balance facts about one address.
    pub fn get_address_info(&self, hash: &ScriptHash, additional_txs: &[TxVariant]) -> (r: Option<
        AddressInfo,
    >)
        requires
            self.wf(),
            additional_txs@.len() < 0x1_0000_0000,
        ensures
            match (
                network_fee_spec(self.blocks()),
                address_fee_spec(self.blocks(), txs_view(additional_txs@), hash.addr()),
            ) {
                (Option::Some(nf), Option::Some(af)) => r matches Some(info)
                    && info.net_fee.amount as int == nf && info.addr_fee.amount as int == af
                    && info.balance.amount as int == self.bal(hash.addr()),
                _ => r is None,
            },
    {
        let net_fee = match self.get_network_fee() {
            Option::Some(f) => f,
            Option::None => {
                return None;
            },
        };
        let addr_fee = match self.get_address_fee(hash, additional_txs) {
            Option::Some(f) => f,
            Option::None => {
                return None;
            },
        };
        Some(AddressInfo { net_fee, addr_fee, balance: self.get_balance(hash) })
    }

    /// A consistent snapshot of the network properties.
    pub fn get_properties(&self) -> (r: Properties)
        requires
            self.wf(),
            network_fee_spec(self.blocks()) is Some,
        ensures
            r.height as nat == self.blocks().len() - 1,
            r.owner@ == self.owner_v(),
            r.token_supply.amount as int == self.supply(),
            r.network_fee.amount as int == network_fee_spec(self.blocks())->Some_0,
    {
        let network_fee = match self.get_network_fee() {
            Option::Some(f) => f,
            Option::None => vstd::pervasive::unreached(),
        };
        Properties {
            height: self.get_chain_height(),
            owner: self.get_owner().duplicate(),
            token_supply: self.indexer.get_token_supply(),
            network_fee,
        }
    }
}


/// The script a transaction carries, if its variant has one.
pub open spec fn script_of(tx: TxV) -> Option<Seq<u8>> {
    match tx {
        TxV::Owner(o) => Some(o.script),
        TxV::Mint(m) => Some(m.script),
        TxV::Reward(_) => None,
        TxV::Transfer(t) => Some(t.script),
    }
}

/// Folds a script-evaluation outcome into a verification verdict.
pub open spec fn eval_gate(eval: Result<bool, ScriptErr>, then: Result<(), TxErr>) -> Result<
    (),
    TxErr,
> {
    match eval {
        Result::Err(e) => Err(TxErr::ScriptEval(e)),
        Result::Ok(false) => Err(TxErr::ScriptRetFalse),
        Result::Ok(true) => then,
    }
}

/// Rewards are generated by block production; a malformed one is a bug
/// there, so validation assumes it away rather than reporting it.
pub open spec fn reward_assumption(tx: TxV, skip_reward: bool) -> bool {
    (skip_reward && tx is Reward) ==> {
        &&& tx.base().fee == 0
        &&& tx.base().sigs.len() == 0
        &&& tx.base().expiry == 0
    }
}

impl Blockchain {
    /// The verification verdict for one transaction against the pending
    /// list, given the outcome of its script evaluation. This is, clause for
    /// clause, the
    /// fail-fast check order: universal size caps, then the per-variant fee,
    /// ownership, script and balance rules.
    pub closed spec fn verify_tx_spec(
        &self,
        tx: TxV,
        txs: Seq<TxV>,
        skip_reward: bool,
        eval: Result<bool, ScriptErr>,
    ) -> Result<(), TxErr> {
        if tx.base().sigs.len() > MAX_TX_SIGNATURES {
            Err(TxErr::TooManySignatures)
        } else if script_of(tx) matches Some(s) && s.len() > MAX_SCRIPT_BYTE_SIZE {
            Err(TxErr::TxTooLarge)
        } else {
            match tx {
                TxV::Owner(o) => if o.base.fee != 0 {
                    Err(TxErr::InvalidFeeAmount)
                } else if self.owner_v().wallet != dsha256(o.script) {
                    Err(TxErr::ScriptHashMismatch)
                } else {
                    eval_gate(eval, Ok(()))
                },
                TxV::Mint(m) => if m.base.fee != 0 {
                    Err(TxErr::InvalidFeeAmount)
                } else if self.owner_v().wallet != dsha256(m.script) {
                    Err(TxErr::ScriptHashMismatch)
                } else {
                    eval_gate(
                        eval,
                        match project_balance(self.bal(m.to), txs, m.to) {
                            Option::None => Err(TxErr::Arithmetic),
                            Option::Some(b) => if !fits_i64(b + m.amount) {
                                Err(TxErr::Arithmetic)
                            } else if !fits_i64(self.supply() + m.amount) {
                                Err(TxErr::Arithmetic)
                            } else {
                                Ok(())
                            },
                        },
                    )
                },
                TxV::Reward(_) => if !skip_reward {
                    Err(TxErr::TxProhibited)
                } else {
                    Ok(())
                },
                TxV::Transfer(t) => if t.memo.len() > MAX_MEMO_BYTE_SIZE {
                    Err(TxErr::TxTooLarge)
                } else {
                    match total_fee_spec(self.blocks(), txs, t.from) {
                        Option::None => Err(TxErr::Arithmetic),
                        Option::Some(f) => if t.base.fee < f {
                            Err(TxErr::InvalidFeeAmount)
                        } else if t.from != dsha256(t.script) {
                            Err(TxErr::ScriptHashMismatch)
                        } else {
                            eval_gate(
                                eval,
                                match project_balance(self.bal(t.from), txs, t.from) {
                                    Option::None => Err(TxErr::Arithmetic),
                                    Option::Some(b) => if !fits_i64(b - t.base.fee) {
                                        Err(TxErr::Arithmetic)
                                    } else if !fits_i64(b - t.base.fee - t.amount) {
                                        Err(TxErr::Arithmetic)
                                    } else if b - t.base.fee - t.amount < 0 {
                                        Err(TxErr::InsufficientBalance)
                                    } else {
                                        Ok(())
                                    },
                                },
                            )
                        },
                    }
                },
            }
        }
    }

    /// Verifies one transaction given an already computed script-evaluation
    /// outcome: the verdict is exactly [`Blockchain::verify_tx_spec`].
    #[verifier::rlimit(60)]
    pub fn verify_tx_with_eval(
        &self,
        data: &TxPrecompData,
        additional_txs: &[TxVariant],
        config: Config,
        eval: Result<bool, ScriptErr>,
    ) -> (r: Result<(), TxErr>)
        requires
            self.wf(),
            data.wf(),
            additional_txs@.len() < 0x1_0000_0000,
            reward_assumption(data.tx_spec()@, config.skip_reward),
        ensures
            r == self.verify_tx_spec(
                data.tx_spec()@,
                txs_view(additional_txs@),
                config.skip_reward,
                eval,
            ),
    {
        let tx = data.tx();
        let ghost tv = tx@;
        if tx.sigs().len() > MAX_TX_SIGNATURES {
            return Err(TxErr::TooManySignatures);
        }
        match tx.script() {
            Option::Some(s) => {
                if s.bytes.len() > MAX_SCRIPT_BYTE_SIZE {
                    return Err(TxErr::TxTooLarge);
                }
            },
            Option::None => {},
        }
        match tx {
            TxVariant::V0(var) => match var {
                TxVariantV0::OwnerTx(o) => {
                    if o.base.fee.amount != 0 {
                        return Err(TxErr::InvalidFeeAmount);
                    }
                    let owner = self.get_owner();
                    let new_hash = o.script.hash();
                    if !bytes_eq(
                        owner.wallet.digest.bytes.as_slice(),
                        new_hash.digest.bytes.as_slice(),
                    ) {
                        return Err(TxErr::ScriptHashMismatch);
                    }
                    match eval {
                        Result::Err(e) => Err(TxErr::ScriptEval(e)),
                        Result::Ok(false) => Err(TxErr::ScriptRetFalse),
                        Result::Ok(true) => Ok(()),
                    }
                },
                TxVariantV0::MintTx(m) => {
                    if m.base.fee.amount != 0 {
                        return Err(TxErr::InvalidFeeAmount);
                    }
                    let owner = self.get_owner();
                    let new_hash = m.script.hash();
                    if !bytes_eq(
                        owner.wallet.digest.bytes.as_slice(),
                        new_hash.digest.bytes.as_slice(),
                    ) {
                        return Err(TxErr::ScriptHashMismatch);
                    }
                    match eval {
                        Result::Err(e) => Err(TxErr::ScriptEval(e)),
                        Result::Ok(false) => Err(TxErr::ScriptRetFalse),
                        Result::Ok(true) => {
                            let projected = match self.get_balance_with_txs(
                                &m.to,
                                additional_txs,
                            ) {
                                Option::Some(b) => b,
                                Option::None => {
                                    return Err(TxErr::Arithmetic);
                                },
                            };
                            if projected.checked_add(m.amount).is_none() {
                                return Err(TxErr::Arithmetic);
                            }
                            if self.indexer.get_token_supply().checked_add(m.amount).is_none() {
                                return Err(TxErr::Arithmetic);
                            }
                            Ok(())
                        },
                    }
                },
                TxVariantV0::RewardTx(_) => {
                    if !config.skip_reward {
                        return Err(TxErr::TxProhibited);
                    }
                    Ok(())
                },
                TxVariantV0::TransferTx(t) => {
                    if t.memo.len() > MAX_MEMO_BYTE_SIZE {
                        return Err(TxErr::TxTooLarge);
                    }
                    let total_fee = match self.get_total_fee(&t.from, additional_txs) {
                        Option::Some(f) => f,
                        Option::None => {
                            return Err(TxErr::Arithmetic);
                        },
                    };
                    if t.base.fee.amount < total_fee.amount {
                        return Err(TxErr::InvalidFeeAmount);
                    }
                    let from_hash = t.script.hash();
                    if !bytes_eq(
                        t.from.digest.bytes.as_slice(),
                        from_hash.digest.bytes.as_slice(),
                    ) {
                        return Err(TxErr::ScriptHashMismatch);
                    }
                    match eval {
                        Result::Err(e) => Err(TxErr::ScriptEval(e)),
                        Result::Ok(false) => Err(TxErr::ScriptRetFalse),
                        Result::Ok(true) => {
                            let projected = match self.get_balance_with_txs(
                                &t.from,
                                additional_txs,
                            ) {
                                Option::Some(b) => b,
                                Option::None => {
                                    return Err(TxErr::Arithmetic);
                                },
                            };
                            let after_fee = match projected.checked_sub(t.base.fee) {
                                Option::Some(b) => b,
                                Option::None => {
                                    return Err(TxErr::Arithmetic);
                                },
                            };
                            let remaining = match after_fee.checked_sub(t.amount) {
                                Option::Some(b) => b,
                                Option::None => {
                                    return Err(TxErr::Arithmetic);
                                },
                            };
                            if remaining.amount < 0 {
                                return Err(TxErr::InsufficientBalance);
                            }
                            Ok(())
                        },
                    }
                },
            },
        }
    }

    /// Verifies one transaction, consulting the script engine for the
    /// variants that carry a script. Whatever the engine answers, the
    /// verdict is [`Blockchain::verify_tx_spec`] at that answer.
    pub fn verify_tx<E: ScriptEngine>(
        &self,
        engine: &mut E,
        data: &TxPrecompData,
        additional_txs: &[TxVariant],
        config: Config,
    ) -> (r: Result<(), TxErr>)
        requires
            self.wf(),
            data.wf(),
            additional_txs@.len() < 0x1_0000_0000,
            reward_assumption(data.tx_spec()@, config.skip_reward),
        ensures
            exists|ev: Result<bool, ScriptErr>|
                r == self.verify_tx_spec(
                    data.tx_spec()@,
                    txs_view(additional_txs@),
                    config.skip_reward,
                    ev,
                ),
    {
        let eval: Result<bool, ScriptErr> = match data.tx().script() {
            Option::Some(s) => {
                let script = Script { bytes: crate::util::clone_bytes(&s.bytes) };
                engine.eval(data, &script)
            },
            Option::None => Ok(true),
        };
        let r = self.verify_tx_with_eval(data, additional_txs, config, eval);
        proof {
            assert(r == self.verify_tx_spec(
                data.tx_spec()@,
                txs_view(additional_txs@),
                config.skip_reward,
                eval,
            ));
        }
        r
    }
}


/// Every transaction in a block satisfies the reward assumption: rewards in
/// blocks come from block production and are well formed.
pub open spec fn block_rewards_wf(txs: Seq<TxV>) -> bool {
    forall|i: int| 0 <= i < txs.len() ==> reward_assumption(#[trigger] txs[i], true)
}

/// A defined fold stays defined on every prefix.
pub proof fn lemma_index_prefix_some(start: int, txs: Seq<TxV>, k: int, a: Seq<u8>)
    requires
        0 <= k <= txs.len(),
        index_txs(start, txs, a) is Some,
    ensures
        index_txs(start, txs.take(k), a) is Some,
    decreases txs.len() - k,
{
    if k < txs.len() {
        lemma_index_prefix_some(start, txs, k + 1, a);
        assert(txs.take(k + 1).drop_last() =~= txs.take(k));
    } else {
        assert(txs.take(k) =~= txs);
    }
}

/// Every stored balance is a 64-bit amount.
pub proof fn lemma_bal_of_fits(s: Seq<(ScriptHash, Asset)>, a: Seq<u8>)
    ensures
        fits_i64(bal_of(s, a)),
    decreases s.len(),
{
    if s.len() > 0 && s.last().0.addr() != a {
        lemma_bal_of_fits(s.drop_last(), a);
    }
}

impl Blockchain {
    /// The first failing block check among those the library decides
    /// itself, in the rules' order; `None` when the height, merkle root,
    /// parent link, signature and producer key all pass.
    pub open spec fn block_prechecks(&self, b: SignedBlockV) -> Option<BlockErr> {
        if b.block.height as int != self.blocks().len() {
            Some(BlockErr::InvalidBlockHeight)
        } else if b.block.tx_merkle_root != merkle_root_spec(txids_of(b.block.transactions)) {
            Some(BlockErr::InvalidMerkleRoot)
        } else if b.block.previous_hash != block_hash_spec(self.blocks().last()) {
            Some(BlockErr::InvalidPrevHash)
        } else if !sig_verifies(b.sig.pk, block_hash_spec(b.block), b.sig.sig) {
            Some(BlockErr::InvalidHash)
        } else if b.sig.pk != self.owner_v().minter {
            Some(BlockErr::InvalidSignature)
        } else {
            None
        }
    }

    /// A block the engine owes acceptance to: its checks pass, nothing in
    /// it consults a script engine (rewards carry none), and every
    /// per-address indexing fold is defined.
    pub open spec fn reward_block_applies(&self, b: SignedBlockV) -> bool {
        &&& self.block_prechecks(b) is None
        &&& forall|k: int| 0 <= k < b.block.transactions.len() ==> (
        #[trigger] b.block.transactions[k]) is Reward
        &&& forall|a: Seq<u8>| index_txs(self.bal(a), b.block.transactions, a) is Some
    }

    /// The producer signature stored with block `k`.
    pub closed spec fn block_sig(&self, k: int) -> crate::tx::SigPairV {
        self.store@[k]@.sig
    }

    /// The ordered block checks of the chain rules, stopping at the first
    /// failure: height, merkle root, previous-hash link, signature over the
    /// header digest, producer key, then each transaction against the ones
    /// before it.
    fn verify_block<E: ScriptEngine>(
        &self,
        engine: &mut E,
        block: &SignedBlock,
        config: Config,
    ) -> (r: Result<(), BlockErr>)
        requires
            self.wf(),
            block.wf(),
            config.skip_reward,
            block_rewards_wf(block@.block.transactions),
        ensures
            match self.block_prechecks(block@) {
                Option::Some(e) => r == Err::<(), BlockErr>(e),
                Option::None => r matches Ok(_) || (r matches Err(e) && e is Tx),
            },
            r is Ok ==> self.block_prechecks(block@) is None,
            (self.block_prechecks(block@) is None && forall|k: int|
                0 <= k < block@.block.transactions.len() ==> (
                #[trigger] block@.block.transactions[k]) is Reward) ==> r is Ok,
    {
        let prev = self.get_chain_head();
        let height = self.get_chain_height();
        if height + 1 != block.height() {
            return Err(BlockErr::InvalidBlockHeight);
        }
        if !block.verify_tx_merkle_root() {
            return Err(BlockErr::InvalidMerkleRoot);
        }
        if !block.verify_previous_hash(prev) {
            return Err(BlockErr::InvalidPrevHash);
        }
        let owner = self.get_owner();
        if !block.verify_signature() {
            return Err(BlockErr::InvalidHash);
        }
        if !bytes_eq(
            block.sig_pair.pub_key.bytes.as_slice(),
            owner.minter.bytes.as_slice(),
        ) {
            return Err(BlockErr::InvalidSignature);
        }
        let all = block.block.transactions.as_slice();
        let mut i: usize = 0;
        while i < all.len()
            invariant
                self.wf(),
                block.wf(),
                config.skip_reward,
                block_rewards_wf(block@.block.transactions),
                all@ == block.block.transactions@,
                i <= all@.len(),
                self.block_prechecks(block@) is None,
            decreases all@.len() - i,
        {
            proof {
                assert(block@.block.transactions[i as int] == all@[i as int]@);
                assert(tx_v_wf(all@[i as int]@));
                assert(txs_view(all@.subrange(0, i as int)).len() < 0x1_0000_0000);
            }
            let tx = all[i].duplicate();
            let data = TxPrecompData::from_tx(tx);
            let prefix = &all[0..i];
            proof {
                assert(reward_assumption(data.tx_spec()@, config.skip_reward));
            }
            match self.verify_tx(engine, &data, prefix, config) {
                Result::Ok(_) => {},
                Result::Err(e) => {
                    proof {
                        if forall|k: int| 0 <= k < block@.block.transactions.len() ==> (
                        #[trigger] block@.block.transactions[k]) is Reward {
                            let tv = data.tx_spec()@;
                            assert(tv == block@.block.transactions[i as int]);
                            assert(tv is Reward);
                            let ev = choose|ev: Result<bool, ScriptErr>|
                                Err::<(), TxErr>(e) == self.verify_tx_spec(
                                    tv,
                                    txs_view(prefix@),
                                    config.skip_reward,
                                    ev,
                                );
                            assert(self.verify_tx_spec(tv, txs_view(prefix@), true, ev)
                                is Ok);
                            assert(false);
                        }
                    }
                    return Err(BlockErr::Tx(e));
                },
            }
            i = i + 1;
        }
        Ok(())
    }

    /// Validates a block against the head and, on success, appends it and
    /// applies its effects — balances, token supply, ownership, height — in
    /// one atomic step. A failed block, including one whose indexing would
    /// overflow, leaves the state untouched.
    #[verifier::rlimit(100)]
    pub fn insert_block<E: ScriptEngine>(&mut self, engine: &mut E, block: SignedBlock) -> (r:
        Result<(), BlockErr>)
        requires
            old(self).wf(),
            old(self).blocks().len() < u64::MAX - 1,
            block.wf(),
            block_rewards_wf(block@.block.transactions),
        ensures
            r is Err ==> *final(self) == *old(self),
            match old(self).block_prechecks(block@) {
                Option::Some(e) => r == Err::<(), BlockErr>(e),
                Option::None => r matches Ok(_) || (r matches Err(e) && e is Tx),
            },
            old(self).reward_block_applies(block@) ==> r is Ok,
            r is Ok ==> {
                &&& final(self).wf()
                &&& final(self).blocks() == old(self).blocks().push(block@.block)
                &&& block@.block.height as int == old(self).blocks().len()
                &&& block@.block.tx_merkle_root == merkle_root_spec(
                    txids_of(block@.block.transactions),
                )
                &&& block@.block.previous_hash == block_hash_spec(old(self).blocks().last())
                &&& block@.sig.pk == old(self).owner_v().minter
                &&& forall|a: Seq<u8>| index_txs(
                    old(self).bal(a),
                    block@.block.transactions,
                    a,
                ) == Some(#[trigger] final(self).bal(a))
                &&& index_supply(old(self).supply(), block@.block.transactions) == Some(
                    final(self).supply(),
                )
                &&& final(self).owner_v() == index_owner(
                    old(self).owner_v(),
                    block@.block.transactions,
                )
            },
    {
        let config = Config { skip_reward: true };
        match self.verify_block(engine, &block, config) {
            Result::Ok(_) => {},
            Result::Err(e) => {
                return Err(e);
            },
        }
        let ghost btxs = block@.block.transactions;
        let txs_vec = &block.block.transactions;
        let mut pending: Vec<(ScriptHash, Asset)> = Vec::new();
        let mut new_supply = self.indexer.get_token_supply();
        let mut new_owner: Option<OwnerTx> = None;
        let mut i: usize = 0;
        proof {
            assert(btxs.take(0) =~= Seq::<TxV>::empty());
            assert forall|a: Seq<u8>|
                bal_of(self.indexer.accounts@ + pending@, a) == bal_of(
                    self.indexer.accounts@,
                    a,
                ) by {
                assert(self.indexer.accounts@ + pending@ =~= self.indexer.accounts@);
            }
        }
        while i < txs_vec.len()
            invariant
                self.wf(),
                *self == *old(self),
                block.wf(),
                old(self).block_prechecks(block@) is None,
                btxs == block@.block.transactions,
                txs_vec == &block.block.transactions,
                i <= txs_vec@.len(),
                forall|a: Seq<u8>| index_txs(old(self).bal(a), btxs.take(i as int), a) == Some(
                    bal_of(#[trigger] (self.indexer.accounts@ + pending@), a),
                ),
                index_supply(old(self).supply(), btxs.take(i as int)) == Some(
                    new_supply.amount as int,
                ),
                match new_owner {
                    Option::Some(o) => index_owner(old(self).owner_v(), btxs.take(i as int))
                        == o@ && tx_v_wf(TxV::Owner(o@)),
                    Option::None => index_owner(old(self).owner_v(), btxs.take(i as int)) == old(
                        self,
                    ).owner_v(),
                },
            decreases txs_vec@.len() - i,
        {
            proof {
                assert(btxs.take(i + 1).drop_last() =~= btxs.take(i as int));
                assert(btxs.take(i + 1).last() == btxs[i as int]);
                assert(btxs[i as int] == txs_vec@[i as int]@);
                assert(tx_v_wf(btxs[i as int]));
            }
            match &txs_vec[i] {
                TxVariant::V0(var) => match var {
                    TxVariantV0::OwnerTx(t) => {
                        proof {
                            if old(self).reward_block_applies(block@) {
                                assert(btxs[i as int] is Reward);
                                assert(false);
                            }
                        }
                        new_owner = Some(t.duplicate());
                    },
                    TxVariantV0::MintTx(t) => {
                        proof {
                            if old(self).reward_block_applies(block@) {
                                assert(btxs[i as int] is Reward);
                                assert(false);
                            }
                        }
                        new_supply = match new_supply.checked_add(t.amount) {
                            Option::Some(v) => v,
                            Option::None => {
                                return Err(BlockErr::Tx(TxErr::Arithmetic));
                            },
                        };
                        let cur = lookup_pending(&self.indexer.accounts, &pending, &t.to);
                        let next = match cur.checked_add(t.amount) {
                            Option::Some(v) => v,
                            Option::None => {
                                return Err(BlockErr::Tx(TxErr::Arithmetic));
                            },
                        };
                        record_bal(&mut pending, &t.to, next);
                        proof {
                            lemma_record_effective(self.indexer.accounts@, pending@, t.to.addr());
                        }
                    },
                    TxVariantV0::RewardTx(t) => {
                        let cur = lookup_pending(&self.indexer.accounts, &pending, &t.to);
                        let next = match cur.checked_add(t.rewards) {
                            Option::Some(v) => v,
                            Option::None => {
                                proof {
                                    if old(self).reward_block_applies(block@) {
                                        let a = t.to.addr();
                                        lemma_index_prefix_some(old(self).bal(a), btxs, i + 1, a);
                                        assert(btxs.take(i + 1).drop_last() =~= btxs.take(
                                            i as int,
                                        ));
                                        assert(btxs.take(i + 1).last() == btxs[i as int]);
                                        assert(false);
                                    }
                                }
                                return Err(BlockErr::Tx(TxErr::Arithmetic));
                            },
                        };
                        record_bal(&mut pending, &t.to, next);
                        proof {
                            lemma_record_effective(self.indexer.accounts@, pending@, t.to.addr());
                        }
                    },
                    TxVariantV0::TransferTx(t) => {
                        proof {
                            if old(self).reward_block_applies(block@) {
                                assert(btxs[i as int] is Reward);
                                assert(false);
                            }
                        }
                        let spend = match t.base.fee.checked_add(t.amount) {
                            Option::Some(v) => v,
                            Option::None => {
                                return Err(BlockErr::Tx(TxErr::Arithmetic));
                            },
                        };
                        let cur_from = lookup_pending(&self.indexer.accounts, &pending, &t.from);
                        let next_from = match cur_from.checked_sub(spend) {
                            Option::Some(v) => v,
                            Option::None => {
                                return Err(BlockErr::Tx(TxErr::Arithmetic));
                            },
                        };
                        record_bal(&mut pending, &t.from, next_from);
                        proof {
                            lemma_record_effective(
                                self.indexer.accounts@,
                                pending@,
                                t.from.addr(),
                            );
                        }
                        let cur_to = lookup_pending(&self.indexer.accounts, &pending, &t.to);
                        let next_to = match cur_to.checked_add(t.amount) {
                            Option::Some(v) => v,
                            Option::None => {
                                return Err(BlockErr::Tx(TxErr::Arithmetic));
                            },
                        };
                        record_bal(&mut pending, &t.to, next_to);
                        proof {
                            lemma_record_effective(self.indexer.accounts@, pending@, t.to.addr());
                        }
                    },
                },
            }
            i = i + 1;
        }
        proof {
            assert(btxs.take(txs_vec@.len() as int) =~= btxs);
        }
        // Commit: every check passed, apply atomically.
        let new_height = self.indexer.get_chain_height() + 1;
        let ghost moved_view = pending@;
        let mut moved = pending;
        self.indexer.accounts.append(&mut moved);
        self.indexer.chain_height = new_height;
        self.indexer.token_supply = new_supply;
        match new_owner {
            Option::Some(o) => {
                self.indexer.owner = Some(o);
            },
            Option::None => {},
        }
        let ghost committed = old(self).indexer.accounts@ + moved_view;
        self.store.push(block);
        proof {
            assert(self.indexer.accounts@ =~= committed);
            assert forall|a: Seq<u8>|
                index_txs(old(self).bal(a), btxs, a) == Some(#[trigger] self.bal(a)) by {
                assert(bal_of(self.indexer.accounts@, a) == bal_of(committed, a));
            }
            assert(self.blocks() =~= old(self).blocks().push(self.store@.last()@.block));
            assert forall|k: int| 0 <= k < self.store@.len() implies (
            #[trigger] self.store@[k]@).block.height as int == k by {
                if k < self.store@.len() - 1 {
                    assert(self.store@[k] == old(self).store@[k]);
                }
            }
            assert forall|k: int| 0 <= k < self.store@.len() implies signed_block_wf(
                #[trigger] self.store@[k]@,
            ) by {
                if k < self.store@.len() - 1 {
                    assert(self.store@[k] == old(self).store@[k]);
                }
            }
        }
        Ok(())
    }
}

/// Looks an address up across the committed accounts and a pending batch:
/// the batch shadows the committed records.
fn lookup_pending(
    accs: &Vec<(ScriptHash, Asset)>,
    pending: &Vec<(ScriptHash, Asset)>,
    h: &ScriptHash,
) -> (r: Asset)
    ensures
        r.amount as int == bal_of(accs@ + pending@, h.addr()),
{
    let mut i: usize = pending.len();
    proof {
        assert((accs@ + pending@).len() == accs@.len() + pending@.len());
        assert(accs@ + pending@.take(pending@.len() as int) =~= accs@ + pending@);
    }
    while i > 0
        invariant
            i <= pending@.len(),
            bal_of(accs@ + pending@, h.addr()) == bal_of(
                accs@ + pending@.take(i as int),
                h.addr(),
            ),
        decreases i,
    {
        i = i - 1;
        proof {
            assert((accs@ + pending@.take(i + 1)).last() == pending@[i as int]);
            assert((accs@ + pending@.take(i + 1)).drop_last() =~= accs@ + pending@.take(
                i as int,
            ));
        }
        if bytes_eq(pending[i].0.digest.bytes.as_slice(), h.digest.bytes.as_slice()) {
            return pending[i].1;
        }
    }
    proof {
        assert(accs@ + pending@.take(0) =~= accs@);
    }
    lookup_bal(accs, h)
}

/// Appending a record to the batch shadows exactly its own address.
proof fn lemma_record_effective(accs: Seq<(ScriptHash, Asset)>, pending: Seq<(ScriptHash, Asset)>, a: Seq<u8>)
    requires
        pending.len() > 0,
        pending.last().0.addr() == a,
    ensures
        bal_of(accs + pending, a) == pending.last().1.amount as int,
        forall|b: Seq<u8>| b != a ==> bal_of(accs + pending, b) == bal_of(
            accs + pending.drop_last(),
            b,
        ),
{
    assert((accs + pending).last() == pending.last());
    assert((accs + pending).drop_last() =~= accs + pending.drop_last());
}


/// The keys born with a new chain: the minter key that signs blocks and
/// four wallet keys behind a two-of-four multi-signature script.
pub struct GenesisBlockInfo {
    pub minter_key: KeyPair,
    pub wallet_keys: Vec<KeyPair>,
    pub script: Script,
}

impl GenesisBlockInfo {
    /// Draws four wallet keys and builds the genesis wallet script.
    pub fn new(minter_key: KeyPair) -> (r: GenesisBlockInfo)
        requires
            minter_key.wf(),
        ensures
            r.minter_key.wf(),
            r.minter_key.0.bytes@ == minter_key.0.bytes@,
            r.minter_key.1.bytes@ == minter_key.1.bytes@,
            r.wallet_keys@.len() == 4,
            forall|i: int| 0 <= i < 4 ==> (#[trigger] r.wallet_keys@[i]).wf()
                && r.wallet_keys@[i].valid(),
            r.script.bytes@ == crate::script::multi_sig_script(
                2,
                r.wallet_keys@.map_values(|k: KeyPair| k.0.bytes@),
            ),
            r.script.bytes@.len() < 0x1_0000_0000,
    {
        let mut wallet_keys: Vec<KeyPair> = Vec::new();
        wallet_keys.push(KeyPair::gen());
        wallet_keys.push(KeyPair::gen());
        wallet_keys.push(KeyPair::gen());
        wallet_keys.push(KeyPair::gen());
        let mut pub_keys: Vec<PublicKey> = Vec::new();
        pub_keys.push(PublicKey { bytes: crate::util::clone_bytes(&wallet_keys[0].0.bytes) });
        pub_keys.push(PublicKey { bytes: crate::util::clone_bytes(&wallet_keys[1].0.bytes) });
        pub_keys.push(PublicKey { bytes: crate::util::clone_bytes(&wallet_keys[2].0.bytes) });
        pub_keys.push(PublicKey { bytes: crate::util::clone_bytes(&wallet_keys[3].0.bytes) });
        let script = Script::multi_sig(2, &pub_keys);
        proof {
            let kv = pub_keys@.map_values(|k: PublicKey| k.bytes@);
            assert(kv.len() == 4);
            assert(kv[0] == pub_keys@[0].bytes@ && kv[1] == pub_keys@[1].bytes@ && kv[2]
                == pub_keys@[2].bytes@ && kv[3] == pub_keys@[3].bytes@);
            let k3 = kv.drop_last();
            let k2 = k3.drop_last();
            let k1 = k2.drop_last();
            let k0 = k1.drop_last();
            assert(k0.len() == 0);
            assert(crate::script::concat_keys(k0).len() == 0);
            assert(k1.last() == kv[0] && k2.last() == kv[1] && k3.last() == kv[2] && kv.last()
                == kv[3]);
            assert(crate::script::concat_keys(k1).len() == 32);
            assert(crate::script::concat_keys(k2).len() == 64);
            assert(crate::script::concat_keys(k3).len() == 96);
            assert(crate::script::concat_keys(kv).len() == 128);
            assert(script.bytes@.len() == 131);
            assert(kv =~= wallet_keys@.map_values(|k: KeyPair| k.0.bytes@));
        }
        GenesisBlockInfo { minter_key, wallet_keys, script }
    }
}

impl Blockchain {
    /// Bootstraps an empty chain: a height-zero block with zeroed parent
    /// hash and merkle root, carrying one ownership rotation to the given
    /// minter and a fresh genesis wallet, signed by the minter.
    pub fn create_genesis_block(&mut self, minter_key: KeyPair, timestamp: u64) -> (r:
        GenesisBlockInfo)
        requires
            old(self).blocks().len() == 0,
            minter_key.wf(),
        ensures
            final(self).wf(),
            final(self).blocks().len() == 1,
            final(self).owner_v().minter == r.minter_key.0.bytes@,
            final(self).owner_v().wallet == dsha256(r.script.bytes@),
            r.minter_key.wf(),
            r.minter_key.0.bytes@ == minter_key.0.bytes@,
            r.minter_key.1.bytes@ == minter_key.1.bytes@,
            r.wallet_keys@.len() == 4,
            forall|i: int| 0 <= i < 4 ==> (#[trigger] r.wallet_keys@[i]).wf(),
            final(self).blocks()[0].height == 0,
            final(self).blocks()[0].previous_hash == crate::block::zero_digest(),
            final(self).blocks()[0].tx_merkle_root == crate::block::zero_digest(),
            final(self).blocks()[0].timestamp == timestamp,
            final(self).blocks()[0].transactions.len() == 1,
            final(self).blocks()[0].transactions[0] == TxV::Owner(final(self).owner_v()),
            final(self).owner_v().base.fee == 0,
            final(self).owner_v().base.sigs.len() == 0,
            final(self).owner_v().script == r.script.bytes@,
            final(self).block_sig(0).pk == minter_key.0.bytes@,
            minter_key.valid() ==> sig_verifies(
                minter_key.0.bytes@,
                block_hash_spec(final(self).blocks()[0]),
                final(self).block_sig(0).sig,
            ),
    {
        let info = GenesisBlockInfo::new(minter_key);
        let wallet = Script { bytes: crate::util::clone_bytes(&info.script.bytes) }.hash();
        let owner_tx = OwnerTx {
            base: Tx {
                nonce: 0,
                expiry: timestamp,
                fee: Asset { amount: 0 },
                signature_pairs: Vec::new(),
            },
            minter: PublicKey { bytes: crate::util::clone_bytes(&info.minter_key.0.bytes) },
            wallet,
            script: Script { bytes: crate::util::clone_bytes(&info.script.bytes) },
        };
        proof {
            assert(crate::tx::sigs_view(Seq::<crate::crypto::SigPair>::empty())
                =~= Seq::<crate::tx::SigPairV>::empty());
            assert(tx_v_wf(TxV::Owner(owner_tx@)));
        }
        let mut zeroes: Vec<u8> = Vec::new();
        let mut i: usize = 0;
        while i < 32
            invariant
                i <= 32,
                zeroes@.len() == i,
                forall|j: int| 0 <= j < i ==> zeroes@[j] == 0u8,
            decreases 32 - i,
        {
            zeroes.push(0u8);
            i = i + 1;
        }
        proof {
            assert(zeroes@ =~= crate::block::zero_digest());
        }
        let zero_a = Digest { bytes: crate::util::clone_bytes(&zeroes) };
        let zero_b = Digest { bytes: zeroes };
        let ghost ov = owner_tx@;
        let mut transactions: Vec<TxVariant> = Vec::new();
        transactions.push(TxVariant::V0(TxVariantV0::OwnerTx(owner_tx.duplicate())));
        proof {
            assert(txs_view(transactions@)[0] == TxV::Owner(ov));
        }
        let block = crate::block::Block {
            height: 0,
            previous_hash: zero_a,
            tx_merkle_root: zero_b,
            timestamp,
            transactions,
        };
        let ghost gbv = block@;
        let signed = block.sign(&info.minter_key);
        self.store.push(signed);
        self.indexer.owner = Some(owner_tx);
        self.indexer.chain_height = 0;
        proof {
            assert(self.store@.len() == 1);
            assert(self.store@[0] == self.store@.last());
            assert(self.blocks()[0] == self.store@[0]@.block);
            assert(self.blocks()[0] == gbv);
            assert(gbv.transactions.len() == 1);
            assert(gbv.transactions[0] == TxV::Owner(ov));
            assert(self.owner_v() == ov);
        }
        info
    }

    /// Builds, signs and inserts the next block from the pending pool: the
    /// collected fees return to the owner wallet in one reward transaction
    /// appended at the end.
    pub fn produce_block<E: ScriptEngine>(
        &mut self,
        engine: &mut E,
        minter_key: &KeyPair,
        pending: Vec<TxVariant>,
        timestamp: u64,
    ) -> (r: Result<(), BlockErr>)
        requires
            old(self).wf(),
            old(self).blocks().len() < u64::MAX - 1,
            minter_key.wf(),
            minter_key.0.bytes@ == old(self).owner_v().minter,
            pending@.len() < 0xFFFF_FFFF,
            forall|i: int| 0 <= i < pending@.len() ==> tx_v_wf(#[trigger] pending@[i]@) && !(
            pending@[i]@ is Reward),
        ensures
            r is Ok ==> final(self).wf() && final(self).blocks().len() == old(
                self,
            ).blocks().len() + 1,
            r is Err ==> final(self).wf(),
            minter_key.valid() && pending@.len() == 0 ==> r is Ok,
    {
        let ghost pv = pending@;
        let mut fees = Asset { amount: 0 };
        let mut i: usize = 0;
        while i < pending.len()
            invariant
                i <= pending@.len(),
                pv == pending@,
                self.wf(),
                *self == *old(self),
                pending@.len() == 0 ==> fees == (Asset { amount: 0i64 }),
                forall|k: int| 0 <= k < pending@.len() ==> tx_v_wf(#[trigger] pending@[k]@),
            decreases pending@.len() - i,
        {
            let fee = pending[i].base().fee;
            fees = match fees.checked_add(fee) {
                Option::Some(v) => v,
                Option::None => {
                    return Err(BlockErr::Tx(TxErr::Arithmetic));
                },
            };
            i = i + 1;
        }
        let owner_wallet = self.get_owner().wallet.duplicate();
        let reward_tx = RewardTx {
            base: Tx {
                nonce: 0,
                expiry: 0,
                fee: Asset { amount: 0 },
                signature_pairs: Vec::new(),
            },
            to: owner_wallet,
            rewards: fees,
        };
        proof {
            assert(crate::tx::sigs_view(Seq::<crate::crypto::SigPair>::empty())
                =~= Seq::<crate::tx::SigPairV>::empty());
        }
        let ghost rv = TxVariant::V0(TxVariantV0::RewardTx(reward_tx))@;
        let mut transactions = pending;
        transactions.push(TxVariant::V0(TxVariantV0::RewardTx(reward_tx)));
        proof {
            assert forall|k: int| 0 <= k < transactions@.len() implies (
            #[trigger] transactions@[k]).wf() by {
                if k < transactions@.len() - 1 {
                    assert(transactions@[k] == pv[k]);
                }
            }
        }
        let ghost tvv = txs_view(transactions@);
        proof {
            assert forall|k: int| 0 <= k < tvv.len() implies reward_assumption(
                #[trigger] tvv[k],
                true,
            ) && tx_v_wf(tvv[k]) by {
                assert(tvv[k] == transactions@[k]@);
                if k < tvv.len() - 1 {
                    assert(transactions@[k] == pv[k]);
                }
            }
        }
        let root = crate::block::calc_tx_merkle_root(&transactions);
        let prev_hash = self.get_chain_head().calc_hash();
        let height = self.get_chain_height() + 1;
        let block = crate::block::Block {
            height,
            previous_hash: prev_hash,
            tx_merkle_root: root,
            timestamp,
            transactions,
        };
        let ghost bv = block@;
        let signed = block.sign(minter_key);
        proof {
            assert(signed@.block == bv);
            assert(bv.transactions == tvv);
            if minter_key.valid() && pv.len() == 0 {
                assert(tvv.len() == 1);
                assert(tvv[0] == transactions@[0]@);
                assert(tvv[0] is Reward);
                assert(signed@.block.height as int == self.blocks().len());
                assert(signed@.block.tx_merkle_root == merkle_root_spec(
                    txids_of(signed@.block.transactions),
                ));
                assert(signed@.block.previous_hash == block_hash_spec(self.blocks().last()));
                assert(sig_verifies(
                    signed@.sig.pk,
                    block_hash_spec(signed@.block),
                    signed@.sig.sig,
                ));
                assert(signed@.sig.pk == self.owner_v().minter);
                assert(self.block_prechecks(signed@) is None);
                assert forall|a: Seq<u8>| index_txs(self.bal(a), tvv, a) is Some by {
                    assert(tvv.drop_last() =~= Seq::<TxV>::empty());
                    assert(index_txs(self.bal(a), tvv.drop_last(), a) == Some(self.bal(a)));
                    assert(tvv.last() == tvv[0]);
                    assert(tvv[0] == rv);
                    assert(fees == (Asset { amount: 0i64 }));
                    lemma_bal_of_fits(self.indexer.accounts@, a);
                    assert(fits_i64(self.bal(a) + 0));
                }
                assert(self.reward_block_applies(signed@));
            }
        }
        self.insert_block(engine, signed)
    }

    /// A transfer whose memo exceeds the cap is rejected as too large,
    /// whatever the script engine would answer, provided the universal size
    /// caps did not already reject it.
    pub proof fn lemma_oversized_memo_rejected(
        &self,
        t: crate::tx::TransferV,
        txs: Seq<TxV>,
        skip_reward: bool,
        eval: Result<bool, ScriptErr>,
    )
        requires
            t.base.sigs.len() <= MAX_TX_SIGNATURES,
            t.script.len() <= MAX_SCRIPT_BYTE_SIZE,
            t.memo.len() > MAX_MEMO_BYTE_SIZE,
        ensures
            self.verify_tx_spec(TxV::Transfer(t), txs, skip_reward, eval) == Err::<(), TxErr>(
                TxErr::TxTooLarge,
            ),
    {
    }

    /// A transfer quoting any fee below the owed total is rejected with the
    /// fee error, whatever the script engine would answer, provided the
    /// size caps did not already reject it.
    pub proof fn lemma_underpaid_transfer_rejected(
        &self,
        t: crate::tx::TransferV,
        txs: Seq<TxV>,
        skip_reward: bool,
        eval: Result<bool, ScriptErr>,
    )
        requires
            t.base.sigs.len() <= MAX_TX_SIGNATURES,
            t.script.len() <= MAX_SCRIPT_BYTE_SIZE,
            t.memo.len() <= MAX_MEMO_BYTE_SIZE,
            total_fee_spec(self.blocks(), txs, t.from) matches Some(f) && t.base.fee < f,
        ensures
            self.verify_tx_spec(TxV::Transfer(t), txs, skip_reward, eval) == Err::<(), TxErr>(
                TxErr::InvalidFeeAmount,
            ),
    {
    }

    /// Projecting balances over an empty pending list reproduces the
    /// indexed balances exactly: a projection starts from the
    /// index and folds nothing.
    pub proof fn lemma_projection_matches_index(&self, a: Seq<u8>)
        ensures
            project_balance(self.bal(a), Seq::<TxV>::empty(), a) == Some(self.bal(a)),
    {
    }
}

} // verus!
