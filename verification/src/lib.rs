//! Fee and gas-price statistics of Ethereum blocks, and the rows that publish
//! them to a database and to an entity store.
pub mod bignum;
pub mod block;
pub mod db_out;
pub mod db_check;
pub mod db_laws;
pub mod db_tables;
pub mod entity_tables;
pub mod graph_out;
pub mod rows;
pub mod stores;
pub mod text;
pub mod time_unit;

use crate::bignum::{int_decimal, BigNum};
use crate::block::{map_block_to_meta, Block};
use crate::db_out::{block_meta_to_database_changes, deltas_applied, deltas_ok, BlockMetaDelta};
use crate::db_tables::{db_change_rows, DatabaseTables};
use crate::entity_tables::{entity_change_rows, entity_rows, EntityTables, EntityValue};
use crate::graph_out::{
    block_entity_columns, block_entity_columns_of, block_entity_id, header_base_fee, block_meta_to_tables, candle_columns,
    candle_to_tables, entity_written, lemma_entity_written_dom, lemma_block_entity_from_block, lemma_written_no_deletes,
    no_deletes, opt_int, CandleReading,
};
use crate::rows::Rows;
use crate::stores::candle_key;
use crate::text::lemma_decimal_parse_roundtrip;
use crate::time_unit::Granularity;
use substreams_database_change::pb::database::DatabaseChanges;
use substreams_entity_change::pb::entity::EntityChanges;
use vstd::prelude::*;

verus! {

/// A collection without rows.
pub open spec fn no_rows<V>() -> Rows<V> {
    Map::empty()
}

/// Database changes for the block-statistics store deltas: each creation or
/// update of a block writes its `blocks` row and its `transactions` rows.
/// Deltas of any other kind panic, and so do deltas that
/// would create a row already scheduled for update or deletion; `requires`
/// leaves them out.
pub fn db_out(block_meta: Vec<BlockMetaDelta>) -> (r: DatabaseChanges)
    requires
        deltas_ok(no_rows(), block_meta@, block_meta@.len() as int),
    ensures
        db_change_rows(r) == deltas_applied(no_rows(), block_meta@, block_meta@.len() as int),
{
    let mut tables = DatabaseTables::new();
    block_meta_to_database_changes(&mut tables, block_meta);
    tables.to_database_changes()
}

/// Database changes for the block-statistics store deltas, or `None` where
/// writing them would panic: a delta that is neither a creation nor an
/// update, or one that creates a row already scheduled for update or
/// deletion, or updates a row scheduled for deletion.
pub fn try_db_out(block_meta: Vec<BlockMetaDelta>) -> (r: Option<DatabaseChanges>)
    ensures
        r is Some <==> deltas_ok(no_rows(), block_meta@, block_meta@.len() as int),
        r matches Some(c) ==> db_change_rows(c) == deltas_applied(no_rows(), block_meta@, block_meta@.len() as int),
{
    if crate::db_check::deltas_accepted(&block_meta) {
        Some(db_out(block_meta))
    } else {
        None
    }
}

/// Entity name of the base-fee candles of granularity `g`.
pub open spec fn candle_entity_spec(g: Granularity) -> Seq<char> {
    match g {
        Granularity::Minute => "BaseFeePerGasMinuteCandle"@,
        Granularity::Hour => "BaseFeePerGasHourCandle"@,
        Granularity::Day => "BaseFeePerGasDayCandle"@,
        Granularity::Week => "BaseFeePerGasWeekCandle"@,
    }
}

/// Entity name of the base-fee candles of granularity `g`.
pub fn candle_entity(g: Granularity) -> (r: &'static str)
    ensures
        r@ == candle_entity_spec(g),
{
    match g {
        Granularity::Minute => "BaseFeePerGasMinuteCandle",
        Granularity::Hour => "BaseFeePerGasHourCandle",
        Granularity::Day => "BaseFeePerGasDayCandle",
        Granularity::Week => "BaseFeePerGasWeekCandle",
    }
}

/// Rows after writing the candle of granularity `g` that holds `timestamp`.
pub open spec fn candle_written(
    rows: Rows<EntityValue>,
    timestamp: int,
    g: Granularity,
    reading: CandleReading,
) -> Rows<EntityValue> {
    let start = g.period_start(timestamp);
    entity_written(
        rows,
        candle_entity_spec(g),
        int_decimal(start),
        candle_columns(start, opt_int(reading.open), opt_int(reading.high), opt_int(reading.low), opt_int(reading.close)),
    )
}

/// Entities written for a block and the candle values read for it: the
/// `Block` entity, whose id is the block number in decimal and whose columns
/// start with `BlockNum`, `BaseFee` (only when the header has a base fee) and
/// `BlockTime`, then the minute, hour, day and week candles that hold the
/// block time.
pub open spec fn graph_rows(
    block: Block,
    minute: CandleReading,
    hour: CandleReading,
    day: CandleReading,
    week: CandleReading,
) -> Rows<EntityValue> {
    let ts = block.timestamp_spec() as int;
    let r0 = entity_written(no_rows(), "Block"@, block_entity_id(block.number), block_entity_columns_of(block));
    let r1 = candle_written(r0, ts, Granularity::Minute, minute);
    let r2 = candle_written(r1, ts, Granularity::Hour, hour);
    let r3 = candle_written(r2, ts, Granularity::Day, day);
    candle_written(r3, ts, Granularity::Week, week)
}

/// Law: the entities written for a block are exactly five: its `Block`
/// entity under the block number, `BaseFeePerGasMinuteCandle` under the
/// start of the block's minute, `BaseFeePerGasHourCandle` under the start of
/// its hour, `BaseFeePerGasDayCandle` under the start of its UTC day (a
/// multiple of 86400 at most a day before the block) and
/// `BaseFeePerGasWeekCandle` under the start of its week (Monday 00:00 UTC:
/// 345600 plus a multiple of 604800, at most a week before the block). This
/// holds for every block from the first Monday after the epoch on.
pub proof fn lemma_graph_entities(
    block: Block,
    minute: CandleReading,
    hour: CandleReading,
    day: CandleReading,
    week: CandleReading,
)
    requires
        block.timestamp_spec() >= 345600,
    ensures
        ({
            let ts = block.timestamp_spec() as int;
            let mi = Granularity::Minute.period_start(ts);
            let h = Granularity::Hour.period_start(ts);
            let d = Granularity::Day.period_start(ts);
            let w = Granularity::Week.period_start(ts);
            &&& mi % 60 == 0 && mi <= ts < mi + 60
            &&& h % 3600 == 0 && h <= ts < h + 3600
            &&& d % 86400 == 0 && d <= ts < d + 86400
            &&& (w - 345600) % 604800 == 0 && w <= ts < w + 604800
            &&& graph_rows(block, minute, hour, day, week).dom() == set![
                ("Block"@, int_decimal(block.number as int)),
                ("BaseFeePerGasMinuteCandle"@, int_decimal(mi)),
                ("BaseFeePerGasHourCandle"@, int_decimal(h)),
                ("BaseFeePerGasDayCandle"@, int_decimal(d)),
                ("BaseFeePerGasWeekCandle"@, int_decimal(w)),
            ]
        }),
{
    let ts = block.timestamp_spec() as int;
    crate::time_unit::lemma_candle_periods(ts);
    let r0 = entity_written(no_rows(), "Block"@, block_entity_id(block.number), block_entity_columns_of(block));
    lemma_entity_written_dom(no_rows(), "Block"@, block_entity_id(block.number), block_entity_columns_of(block));
    let r1 = candle_written(r0, ts, Granularity::Minute, minute);
    let r2 = candle_written(r1, ts, Granularity::Hour, hour);
    let r3 = candle_written(r2, ts, Granularity::Day, day);
    let r4 = candle_written(r3, ts, Granularity::Week, week);
    lemma_candle_written_dom(r0, ts, Granularity::Minute, minute);
    lemma_candle_written_dom(r1, ts, Granularity::Hour, hour);
    lemma_candle_written_dom(r2, ts, Granularity::Day, day);
    lemma_candle_written_dom(r3, ts, Granularity::Week, week);
    assert(no_rows::<EntityValue>().dom() =~= Set::empty());
    assert(r4.dom() =~= set![
        ("Block"@, int_decimal(block.number as int)),
        ("BaseFeePerGasMinuteCandle"@, int_decimal(Granularity::Minute.period_start(ts))),
        ("BaseFeePerGasHourCandle"@, int_decimal(Granularity::Hour.period_start(ts))),
        ("BaseFeePerGasDayCandle"@, int_decimal(Granularity::Day.period_start(ts))),
        ("BaseFeePerGasWeekCandle"@, int_decimal(Granularity::Week.period_start(ts))),
    ]);
}

/// Law: the `Block` entity written for a block, under the block number,
/// has `BlockNum` the block number, `BlockTime` the block time and
/// `BaseFee` the base fee of the header, the last only when the header has
/// a base fee (none before London).
pub proof fn lemma_graph_block_entity(
    block: Block,
    minute: CandleReading,
    hour: CandleReading,
    day: CandleReading,
    week: CandleReading,
)
    requires
        block.header is Some,
    ensures
        ({
            let r = graph_rows(block, minute, hour, day, week);
            let k = ("Block"@, int_decimal(block.number as int));
            &&& r.contains_key(k)
            &&& r[k].1.contains_key("BlockNum"@) && r[k].1["BlockNum"@] == EntityValue::BigInt(
                int_decimal(block.number as int),
            )
            &&& r[k].1.contains_key("BlockTime"@) && r[k].1["BlockTime"@] == EntityValue::BigInt(
                int_decimal(block.timestamp_spec() as int),
            )
            &&& match block.header.unwrap().base_fee_per_gas {
                Some(b) => r[k].1.contains_key("BaseFee"@) && r[k].1["BaseFee"@] == EntityValue::BigInt(
                    int_decimal(crate::bignum::be_value(b@) as int),
                ),
                None => !r[k].1.contains_key("BaseFee"@),
            }
        }),
{
    reveal_strlit("Block");
    reveal_strlit("BlockNum");
    reveal_strlit("BlockTime");
    reveal_strlit("BaseFee");
    reveal_strlit("BaseFeePerGasMinuteCandle");
    reveal_strlit("BaseFeePerGasHourCandle");
    reveal_strlit("BaseFeePerGasDayCandle");
    reveal_strlit("BaseFeePerGasWeekCandle");
    let ts = block.timestamp_spec() as int;
    let k = ("Block"@, int_decimal(block.number as int));
    let cols = block_entity_columns_of(block);
    let head = crate::graph_out::block_entity_head(block.number, header_base_fee(block), block.timestamp_spec());
    let stats = cols.subrange(head.len() as int, cols.len() as int);
    assert(cols == head + stats);
    crate::rows::lemma_apply_fields_concat(Map::empty(), head, stats);
    assert forall|j: int| 0 <= j < stats.len() implies (#[trigger] stats[j]).0[0] != 'B' by {
        reveal_strlit("number");
        reveal_strlit("gasUsed");
        reveal_strlit("baseFeePerGas");
        reveal_strlit("timestamp");
        reveal_strlit("txnCount");
        reveal_strlit("minGasPrice");
        reveal_strlit("maxGasPrice");
        reveal_strlit("firstGasPrice");
        reveal_strlit("lastGasPrice");
        reveal_strlit("burnedFees");
        reveal_strlit("gasFees");
        reveal_strlit("minerTips");
    }
    let h0 = crate::rows::apply_fields(Map::<Seq<char>, EntityValue>::empty(), head);
    crate::rows::lemma_apply_fields_other(h0, stats, "BlockNum"@);
    crate::rows::lemma_apply_fields_other(h0, stats, "BlockTime"@);
    crate::rows::lemma_apply_fields_other(h0, stats, "BaseFee"@);
    let a = seq![("BlockNum"@, crate::graph_out::big(block.number as int))];
    let o = crate::graph_out::optional_column("BaseFee"@, header_base_fee(block));
    let t = seq![("BlockTime"@, crate::graph_out::big(ts))];
    assert(head == a + o + t);
    crate::rows::lemma_apply_fields_concat(Map::empty(), a + o, t);
    crate::rows::lemma_apply_fields_concat(Map::empty(), a, o);
    assert(a.drop_last() =~= Seq::<(Seq<char>, EntityValue)>::empty());
    assert(t.drop_last() =~= Seq::<(Seq<char>, EntityValue)>::empty());
    let m0: Map<Seq<char>, EntityValue> = Map::empty();
    assert(crate::rows::apply_fields(m0, a.drop_last()) == m0);
    let ma = crate::rows::apply_fields(m0, a);
    assert(ma == m0.insert("BlockNum"@, crate::graph_out::big(block.number as int)));
    let mo = crate::rows::apply_fields(ma, o);
    match header_base_fee(block) {
        Some(x) => {
            assert(o.drop_last() =~= Seq::<(Seq<char>, EntityValue)>::empty());
            assert(crate::rows::apply_fields(ma, o.drop_last()) == ma);
        },
        None => {
            assert(o =~= Seq::<(Seq<char>, EntityValue)>::empty());
        },
    }
    assert(crate::rows::apply_fields(mo, t.drop_last()) == mo);
    assert("BlockNum"@[5] != "BlockTime"@[5]);
    assert("BlockNum"@[1] != "BaseFee"@[1]);
    assert("BlockTime"@[1] != "BaseFee"@[1]);
    let r0 = entity_written(no_rows(), "Block"@, block_entity_id(block.number), cols);
    assert(r0[k].1 == crate::rows::apply_fields(Map::empty(), cols));
    let r1 = candle_written(r0, ts, Granularity::Minute, minute);
    let r2 = candle_written(r1, ts, Granularity::Hour, hour);
    let r3 = candle_written(r2, ts, Granularity::Day, day);
    assert(candle_entity_spec(Granularity::Minute).len() != "Block"@.len());
    assert(candle_entity_spec(Granularity::Hour).len() != "Block"@.len());
    assert(candle_entity_spec(Granularity::Day).len() != "Block"@.len());
    assert(candle_entity_spec(Granularity::Week).len() != "Block"@.len());
    assert(r1[k] == r0[k]);
    assert(r2[k] == r1[k]);
    assert(r3[k] == r2[k]);
    assert(graph_rows(block, minute, hour, day, week)[k] == r3[k]);
}

proof fn lemma_candle_written_dom(rows: Rows<EntityValue>, timestamp: int, g: Granularity, reading: CandleReading)
    ensures
        candle_written(rows, timestamp, g, reading).dom() == rows.dom().insert(
            (candle_entity_spec(g), int_decimal(g.period_start(timestamp))),
        ),
{
    let start = g.period_start(timestamp);
    lemma_entity_written_dom(
        rows,
        candle_entity_spec(g),
        int_decimal(start),
        candle_columns(start, opt_int(reading.open), opt_int(reading.high), opt_int(reading.low), opt_int(reading.close)),
    );
}

/// The base fee that the header of `block` gives, if it gives one.
fn header_base_fee_value(block: &Block) -> (r: Option<BigNum>)
    requires
        block.well_formed(),
    ensures
        opt_int(r) == header_base_fee(*block),
{
    match &block.header.as_ref().unwrap().base_fee_per_gas {
        Some(b) => Some(crate::bignum::big_from_unsigned_be(b.as_slice())),
        None => None,
    }
}

fn push_candle(tables: &mut EntityTables, timestamp: i64, g: Granularity, reading: &CandleReading)
    requires
        g.accepts(timestamp as int),
        no_deletes(entity_rows(*old(tables))),
    ensures
        no_deletes(entity_rows(*final(tables))),
        entity_rows(*final(tables)) == candle_written(entity_rows(*old(tables)), timestamp as int, g, *reading),
{
    let key = candle_key(timestamp, g);
    let ghost start = g.period_start(timestamp as int);
    proof {
        crate::time_unit::lemma_period_start_in_range(timestamp as int, g);
        lemma_decimal_parse_roundtrip(start as i64);
    }
    let entity = candle_entity(g);
    let ghost cols = candle_columns(
        start,
        opt_int(reading.open),
        opt_int(reading.high),
        opt_int(reading.low),
        opt_int(reading.close),
    );
    proof {
        lemma_written_no_deletes(entity_rows(*tables), entity@, key@, cols);
    }
    candle_to_tables(tables, entity, &key, reading);
}

/// Entity changes for a block: its `Block` entity, and the minute, hour, day
/// and week base-fee candles that hold its time, with the values that the
/// candle stores hold for them. The block must have a header with a
/// timestamp (unwrapping them panics otherwise) and a time that the week
/// candle can be computed for.
pub fn graph_out(
    block: Block,
    minute: CandleReading,
    hour: CandleReading,
    day: CandleReading,
    week: CandleReading,
) -> (r: EntityChanges)
    requires
        block.well_formed(),
        Granularity::Week.accepts(block.timestamp_spec() as int),
    ensures
        entity_change_rows(r) == graph_rows(block, minute, hour, day, week),
{
    let ghost b = block;
    let base_fee_per_gas = header_base_fee_value(&block);
    let block_meta = map_block_to_meta(block);
    proof {
        lemma_block_entity_from_block(block_meta, b, opt_int(base_fee_per_gas));
    }
    let mut tables = EntityTables::new();
    proof {
        lemma_written_no_deletes(
            entity_rows(tables),
            "Block"@,
            block_entity_id(block_meta.number),
            block_entity_columns(block_meta, opt_int(base_fee_per_gas)),
        );
    }
    block_meta_to_tables(&mut tables, &block_meta, &base_fee_per_gas);
    let ts = block_meta.timestamp;
    push_candle(&mut tables, ts, Granularity::Minute, &minute);
    push_candle(&mut tables, ts, Granularity::Hour, &hour);
    push_candle(&mut tables, ts, Granularity::Day, &day);
    push_candle(&mut tables, ts, Granularity::Week, &week);
    tables.to_entity_changes()
}

} // verus!
