//! Network-wide policy constants: size caps, fee-curve parameters and the
//! chain identifier that prefixes every transaction id.

use crate::asset::Asset;
use vstd::prelude::*;

verus! {

/// Longest memo a transfer may carry, in bytes.
pub const MAX_MEMO_BYTE_SIZE: usize = 1024;

/// Longest script a transaction may carry, in bytes.
pub const MAX_SCRIPT_BYTE_SIZE: usize = 2048;

/// Most signature pairs a transaction may carry.
pub const MAX_TX_SIGNATURES: usize = 8;

/// Blocks without a matching transfer before the address fee resets.
pub const FEE_RESET_WINDOW: u64 = 4;

/// Number of aligned blocks averaged for the network fee.
pub const NETWORK_FEE_AVG_WINDOW: u64 = 10;

/// Grace period, in milliseconds, before an expired transaction is purged.
pub const TX_EXPIRY_ADJUSTMENT: u64 = 30;

/// Raw amount of the minimum fee: 0.00025 GRAEL.
pub const GRAEL_FEE_MIN_RAW: i64 = 25;

/// Raw amount of the address-fee multiplier: 2.00000 GRAEL.
pub const GRAEL_FEE_MULT_RAW: i64 = 200_000;

/// Raw amount of the network-fee multiplier: 1.01500 GRAEL.
pub const GRAEL_FEE_NET_MULT_RAW: i64 = 101_500;

/// Minimum fee from which both fee curves grow.
pub fn grael_fee_min() -> (r: Asset)
    ensures
        r.amount == GRAEL_FEE_MIN_RAW,
{
    Asset { amount: GRAEL_FEE_MIN_RAW }
}

/// Per-transaction multiplier of the address fee curve.
pub fn grael_fee_mult() -> (r: Asset)
    ensures
        r.amount == GRAEL_FEE_MULT_RAW,
{
    Asset { amount: GRAEL_FEE_MULT_RAW }
}

/// Per-transaction multiplier of the network fee curve.
pub fn grael_fee_net_mult() -> (r: Asset)
    ensures
        r.amount == GRAEL_FEE_NET_MULT_RAW,
{
    Asset { amount: GRAEL_FEE_NET_MULT_RAW }
}

/// The two bytes that prefix every transaction digest, pinning ids to this
/// chain.
pub open spec fn chain_id_seq() -> Seq<u8> {
    seq![0x47u8, 0x43u8]
}

/// Executable copy of [`chain_id_seq`].
pub fn chain_id() -> (r: Vec<u8>)
    ensures
        r@ == chain_id_seq(),
{
    let mut v: Vec<u8> = Vec::new();
    v.push(0x47u8);
    v.push(0x43u8);
    proof {
        assert(v@ =~= chain_id_seq());
    }
    v
}

} // verus!
