//! Keys and values that the store handlers write.
use crate::bignum::{be_value, big_from_unsigned_be, int_decimal, BigNum};
use crate::block::BlockMeta;
use crate::text::{i64_to_decimal, u64_to_decimal};
use crate::time_unit::{period_start, Granularity};
use vstd::prelude::*;

verus! {

/// Blocks older than this many blocks are dropped from the block store.
pub open spec fn block_store_depth() -> int {
    10000
}

/// The key under which a value is stored, and the prefix of the keys to drop.
pub struct StoreKeys {
    pub key: String,
    pub delete_prefix: String,
}

/// Keys for the block-statistics store: the block number, and the number
/// `10000` blocks back, whose keys are dropped. The subtraction is on a `u64`
/// and panics below block `10000`, which `requires` leaves out.
pub fn block_meta_store_keys(meta: &BlockMeta) -> (r: StoreKeys)
    requires
        meta.number >= block_store_depth(),
    ensures
        r.key@ == int_decimal(meta.number as int),
        r.delete_prefix@ == int_decimal(meta.number - block_store_depth()),
{
    StoreKeys { key: u64_to_decimal(meta.number), delete_prefix: u64_to_decimal(meta.number - 10000) }
}

/// Text key of the candle of granularity `g` that holds `timestamp`: the
/// decimal start of its period.
pub fn candle_key(timestamp: i64, g: Granularity) -> (r: String)
    requires
        g.accepts(timestamp as int),
    ensures
        r@ == int_decimal(g.period_start(timestamp as int)),
{
    i64_to_decimal(period_start(timestamp, g))
}

/// What a base-fee candle store handler writes for a block.
pub struct CandleStoreUpdate {
    /// Decimal start of the candle period.
    pub key: String,
    /// The block's base fee.
    pub value: BigNum,
    /// Decimal start of the period one retention span earlier, whose keys
    /// the store drops.
    pub delete_prefix: String,
}

/// The candle store write of granularity `g` for a block: its base fee under
/// the start of the period that holds the block time, and the prefix of keys
/// one retention span older to drop.
pub fn base_fee_candle_update(block_meta: &BlockMeta, g: Granularity) -> (u: CandleStoreUpdate)
    requires
        g.accepts(block_meta.timestamp as int),
        g.period_start(block_meta.timestamp as int) - g.retention_spec() >= i64::MIN,
    ensures
        u.key@ == int_decimal(g.period_start(block_meta.timestamp as int)),
        u.value@ == be_value(block_meta.base_fee_per_gas@),
        u.delete_prefix@ == int_decimal(g.period_start(block_meta.timestamp as int) - g.retention_spec()),
{
    let id = period_start(block_meta.timestamp, g);
    let value = big_from_unsigned_be(block_meta.base_fee_per_gas.as_slice());
    CandleStoreUpdate { key: i64_to_decimal(id), value, delete_prefix: i64_to_decimal(id - g.retention()) }
}

/// The candle store write of granularity `g` for a block, or `None` where
/// computing its keys would overflow an `i64`.
pub fn try_base_fee_candle_update(block_meta: &BlockMeta, g: Granularity) -> (r: Option<CandleStoreUpdate>)
    ensures
        r is Some <==> (g.accepts(block_meta.timestamp as int) && g.period_start(block_meta.timestamp as int)
            - g.retention_spec() >= i64::MIN),
        r matches Some(u) ==> {
            &&& u.key@ == int_decimal(g.period_start(block_meta.timestamp as int))
            &&& u.value@ == be_value(block_meta.base_fee_per_gas@)
            &&& u.delete_prefix@ == int_decimal(g.period_start(block_meta.timestamp as int) - g.retention_spec())
        },
{
    if !g.admits(block_meta.timestamp) {
        return None;
    }
    let start = period_start(block_meta.timestamp, g);
    if start < i64::MIN + g.retention() {
        return None;
    }
    Some(base_fee_candle_update(block_meta, g))
}

} // verus!
