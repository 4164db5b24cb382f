//! Entity rows for the block statistics and the base-fee candles.
use crate::bignum::{
    abs, be_value, big_from_unsigned_be, big_to_decimal, int_decimal, lemma_minimal_be_roundtrip,
    magnitude_bytes, BigNum,
};
use crate::block::{
    block_meta_matches, highest_gas_price, lowest_gas_price, successful_newest_first,
    total_burned_fees, total_gas_fees, total_miner_tips, tx_gas_price, Block, BlockMeta,
    TransactionMeta,
};
use crate::entity_tables::{
    base64_text, entity_rows, entity_set_bigint, entity_set_bytes, entity_set_int32,
    entity_update_row, EntityValue,
};
use crate::rows::{apply_fields, lemma_apply_fields_concat, lemma_set_all_step, rows_set_all, rows_update, update_allowed, RowOp, Rows};
use crate::text::{hex_encode, i64_to_decimal, lower_hex, parse_i64, parse_i64_spec, u64_to_decimal};
use crate::entity_tables::EntityTables;
use vstd::prelude::*;

verus! {

/// A column value as the library computes it.
pub enum FieldValue {
    BigInt(String),
    Int32(i32),
    Bytes(Vec<u8>),
}

/// The entity value a column gets from `f`.
pub open spec fn field_value(f: FieldValue) -> EntityValue {
    match f {
        FieldValue::BigInt(s) => EntityValue::BigInt(s@),
        FieldValue::Int32(v) => EntityValue::Int32(v),
        FieldValue::Bytes(b) => EntityValue::Bytes(base64_text(b@)),
    }
}

pub open spec fn entity_fields(f: Seq<(String, FieldValue)>) -> Seq<(Seq<char>, EntityValue)> {
    f.map_values(|p: (String, FieldValue)| (p.0@, field_value(p.1)))
}

/// Big-integer column holding the integer `v`.
pub open spec fn big(v: int) -> EntityValue {
    EntityValue::BigInt(int_decimal(v))
}

/// Big-integer column holding the unsigned big-endian value of `b`.
pub open spec fn big_bytes(b: Seq<u8>) -> EntityValue {
    big(be_value(b) as int)
}

pub open spec fn bytes_value(b: Seq<u8>) -> EntityValue {
    EntityValue::Bytes(base64_text(b))
}

/// Id of the `Block` entity of block `number`: the number in decimal.
pub open spec fn block_entity_id(number: u64) -> Seq<char> {
    int_decimal(number as int)
}

/// The columns that every `Block` entity starts with: `BlockNum`, the block
/// number; `BaseFee`, the base fee, only when the block has one; `BlockTime`,
/// the block time.
pub open spec fn block_entity_head(number: u64, base_fee: Option<int>, timestamp: i64) -> Seq<(Seq<char>, EntityValue)> {
    seq![("BlockNum"@, big(number as int))] + optional_column("BaseFee"@, base_fee) + seq![
        ("BlockTime"@, big(timestamp as int)),
    ]
}

/// Columns of the `Block` entity, for a block with base fee `base_fee`.
pub open spec fn block_entity_columns(m: BlockMeta, base_fee: Option<int>) -> Seq<(Seq<char>, EntityValue)> {
    block_entity_head(m.number, base_fee, m.timestamp) + seq![
        ("number"@, big(m.number as int)),
        ("gasUsed"@, big(m.gas_used as int)),
        ("baseFeePerGas"@, big_bytes(m.base_fee_per_gas@)),
        ("timestamp"@, big(m.timestamp as int)),
        ("txnCount"@, EntityValue::Int32(m.txn_count)),
        ("minGasPrice"@, big_bytes(m.min_gas_price@)),
        ("maxGasPrice"@, big_bytes(m.max_gas_price@)),
        ("firstGasPrice"@, big_bytes(m.first_gas_price@)),
        ("lastGasPrice"@, big_bytes(m.last_gas_price@)),
        ("burnedFees"@, big_bytes(m.burned_fees@)),
        ("gasFees"@, big_bytes(m.gas_fees@)),
        ("minerTips"@, big_bytes(m.miner_tips@)),
    ]
}

/// The base fee that the header of `block` gives, if it gives one.
pub open spec fn header_base_fee(block: Block) -> Option<int> {
    match block.header.unwrap().base_fee_per_gas {
        Some(b) => Some(be_value(b@) as int),
        None => None,
    }
}

/// Columns of the `Block` entity, described from the block itself.
pub open spec fn block_entity_columns_of(block: Block) -> Seq<(Seq<char>, EntityValue)> {
    let p = successful_newest_first(block.transaction_traces@);
    let base = block.base_fee();
    let london = block.is_london();
    block_entity_head(block.number, header_base_fee(block), block.timestamp_spec()) + seq![
        ("number"@, big(block.number as int)),
        ("gasUsed"@, big(block.header.unwrap().gas_used as int)),
        ("baseFeePerGas"@, big(base as int)),
        ("timestamp"@, big(block.timestamp_spec() as int)),
        ("txnCount"@, EntityValue::Int32(block.transaction_traces@.len() as i32)),
        ("minGasPrice"@, big(lowest_gas_price(p) as int)),
        ("maxGasPrice"@, big(highest_gas_price(p) as int)),
        ("firstGasPrice"@, big(if p.len() == 0 { 0 } else { tx_gas_price(p[0]) as int })),
        ("lastGasPrice"@, big(if p.len() == 0 { 0 } else { tx_gas_price(p.last()) as int })),
        ("burnedFees"@, big(abs(total_burned_fees(p, base, london)) as int)),
        ("gasFees"@, big(abs(total_gas_fees(p)) as int)),
        ("minerTips"@, big(abs(total_miner_tips(p, base, london)) as int)),
    ]
}

proof fn lemma_big_bytes_magnitude(v: int)
    ensures
        big_bytes(magnitude_bytes(v)) == big(abs(v) as int),
{
    lemma_minimal_be_roundtrip(abs(v));
}

/// Law: the `Block` entity written from a block's statistics and its header's
/// base fee shows the block's own figures: its number, time and base fee
/// (none before London), the smallest and largest gas price of
/// its successful transactions, the first and last of them, and the
/// magnitude of its fee totals.
pub proof fn lemma_block_entity_from_block(meta: BlockMeta, block: Block, base_fee: Option<int>)
    requires
        block_meta_matches(meta, block),
        base_fee == header_base_fee(block),
    ensures
        block_entity_columns(meta, base_fee) == block_entity_columns_of(block),
{
    let p = successful_newest_first(block.transaction_traces@);
    let base = block.base_fee();
    let london = block.is_london();
    lemma_big_bytes_magnitude(base as int);
    lemma_big_bytes_magnitude(lowest_gas_price(p) as int);
    lemma_big_bytes_magnitude(highest_gas_price(p) as int);
    lemma_big_bytes_magnitude(total_burned_fees(p, base, london));
    lemma_big_bytes_magnitude(total_gas_fees(p));
    lemma_big_bytes_magnitude(total_miner_tips(p, base, london));
    if p.len() == 0 {
        assert(seq![0u8].drop_last() =~= Seq::<u8>::empty());
        assert(be_value(seq![0u8]) == 0);
    } else {
        lemma_big_bytes_magnitude(tx_gas_price(p[0]) as int);
        lemma_big_bytes_magnitude(tx_gas_price(p.last()) as int);
    }
    assert(block_entity_columns(meta, base_fee) =~= block_entity_columns_of(block));
}

/// Columns that an update of the `Block` entity sets, for a block with base
/// fee `base_fee`.
pub open spec fn block_entity_update_columns(m: BlockMeta, base_fee: Option<int>) -> Seq<(Seq<char>, EntityValue)> {
    block_entity_head(m.number, base_fee, m.timestamp) + seq![
        ("number"@, big(m.number as int)),
        ("gasUsed"@, big(m.gas_used as int)),
        ("baseFeePerGas"@, bytes_value(m.base_fee_per_gas@)),
        ("timestamp"@, big(m.timestamp as int)),
        ("txnCount"@, EntityValue::Int32(m.txn_count)),
        ("minGasPrice"@, bytes_value(m.min_gas_price@)),
        ("maxGasPrice"@, bytes_value(m.max_gas_price@)),
        ("firstGasPrice"@, big_bytes(m.first_gas_price@)),
        ("lastGasPrice"@, big_bytes(m.last_gas_price@)),
        ("burnedFees"@, bytes_value(m.burned_fees@)),
        ("gasFees"@, bytes_value(m.gas_fees@)),
        ("minerTips"@, bytes_value(m.miner_tips@)),
    ]
}

/// Columns of a `Txn` entity.
pub open spec fn txn_entity_columns(block_number: u64, block_hash: Seq<u8>, tx: TransactionMeta) -> Seq<(Seq<char>, EntityValue)> {
    seq![
        ("blockNumber"@, big(block_number as int)),
        ("block"@, bytes_value(block_hash)),
        ("gasUsed"@, big(tx.gas_used as int)),
        ("gasPrice"@, big_bytes(tx.gas_price@)),
        ("gasFee"@, big_bytes(tx.gas_fee@)),
        ("timestamp"@, big(tx.timestamp as int)),
        ("index"@, EntityValue::Int32(tx.index)),
        ("txnType"@, EntityValue::Int32(tx.txn_type)),
        ("maxPriorityFeePerGas"@, big_bytes(tx.max_priority_fee_per_gas@)),
        ("burnedFee"@, big_bytes(tx.burned_fee@)),
        ("minerTip"@, big_bytes(tx.miner_tip@)),
    ]
}

/// Optional big-integer column: present only when the store had a value.
pub open spec fn optional_column(name: Seq<char>, v: Option<int>) -> Seq<(Seq<char>, EntityValue)> {
    match v {
        Some(x) => seq![(name, big(x))],
        None => Seq::empty(),
    }
}

/// Columns of a candle entity starting at `timestamp`.
pub open spec fn candle_columns(
    timestamp: int,
    open: Option<int>,
    high: Option<int>,
    low: Option<int>,
    close: Option<int>,
) -> Seq<(Seq<char>, EntityValue)> {
    seq![("timestamp"@, big(timestamp))] + optional_column("open"@, open) + optional_column("high"@, high)
        + optional_column("low"@, low) + optional_column("close"@, close)
}

/// Column `name` of a candle after writing: the value read from its store
/// where the store holds one, and otherwise whatever the entity held before.
pub open spec fn candle_column_follows(
    cols: Map<Seq<char>, EntityValue>,
    before: Map<Seq<char>, EntityValue>,
    name: Seq<char>,
    v: Option<int>,
) -> bool {
    match v {
        Some(x) => cols.contains_key(name) && cols[name] == big(x),
        None => cols.contains_key(name) == before.contains_key(name) && (before.contains_key(name) ==> cols[name]
            == before[name]),
    }
}

proof fn lemma_optional_column_applied(cols: Map<Seq<char>, EntityValue>, name: Seq<char>, v: Option<int>)
    ensures
        apply_fields(cols, optional_column(name, v)) == (match v {
            Some(x) => cols.insert(name, big(x)),
            None => cols,
        }),
{
    match v {
        Some(x) => {
            let f = optional_column(name, v);
            assert(f.drop_last() =~= Seq::<(Seq<char>, EntityValue)>::empty());
            assert(apply_fields(cols, f.drop_last()) == cols);
            assert(f.last() == (name, big(x)));
        },
        None => {},
    }
}

/// Rows after the entity `(table, key)` is reached by `update_row` and the
/// columns `fields` are set on it in order.
pub open spec fn entity_written(
    rows: Rows<EntityValue>,
    table: Seq<char>,
    key: Seq<char>,
    fields: Seq<(Seq<char>, EntityValue)>,
) -> Rows<EntityValue> {
    let k = (table, key);
    rows_set_all(rows_update(rows, k), k, fields)
}

/// Writing an entity adds its row, if new, and keeps every other row.
pub proof fn lemma_entity_written_dom(
    rows: Rows<EntityValue>,
    table: Seq<char>,
    key: Seq<char>,
    fields: Seq<(Seq<char>, EntityValue)>,
)
    ensures
        entity_written(rows, table, key, fields).dom() == rows.dom().insert((table, key)),
{
    assert(entity_written(rows, table, key, fields).dom() =~= rows.dom().insert((table, key)));
}

/// No row is scheduled for deletion.
pub open spec fn no_deletes(rows: Rows<EntityValue>) -> bool {
    forall|k: (Seq<char>, Seq<char>)| #[trigger] rows.contains_key(k) ==> rows[k].0 != RowOp::Delete
}

/// Writing an entity keeps every row free of deletion.
pub proof fn lemma_written_no_deletes(
    rows: Rows<EntityValue>,
    table: Seq<char>,
    key: Seq<char>,
    fields: Seq<(Seq<char>, EntityValue)>,
)
    requires
        no_deletes(rows),
    ensures
        no_deletes(entity_written(rows, table, key, fields)),
        update_allowed(rows, (table, key)),
{
    let r = entity_written(rows, table, key, fields);
    assert forall|k: (Seq<char>, Seq<char>)| #[trigger] r.contains_key(k) implies r[k].0 != RowOp::Delete by {
        if k != (table, key) {
            assert(rows.contains_key(k));
        }
    }
}

/// Optional big-integer value of an optional number.
pub open spec fn opt_int(v: Option<BigNum>) -> Option<int> {
    match v {
        Some(b) => Some(b@),
        None => None,
    }
}

/// Candle values read from the four candle stores at one key.
pub struct CandleReading {
    pub open: Option<BigNum>,
    pub high: Option<BigNum>,
    pub low: Option<BigNum>,
    pub close: Option<BigNum>,
}

fn name(s: &str) -> (r: String)
    ensures
        r@ == s@,
{
    String::from_str(s)
}

/// Sets the columns `fields`, in order, on the entity that `update_row` reaches.
fn set_entity_fields(tables: &mut EntityTables, table: &str, key: &str, fields: &Vec<(String, FieldValue)>)
    requires
        update_allowed(entity_rows(*old(tables)), (table@, key@)),
    ensures
        entity_rows(*final(tables)) == entity_written(entity_rows(*old(tables)), table@, key@, entity_fields(fields@)),
{
    let ghost k = (table@, key@);
    let ghost rows0 = entity_rows(*tables);
    let ghost f = entity_fields(fields@);
    entity_update_row(tables, table, key);
    let ghost rows1 = entity_rows(*tables);
    assert(rows_set_all(rows1, k, f.take(0)) =~= rows1) by {
        assert(f.take(0) =~= Seq::<(Seq<char>, EntityValue)>::empty());
        assert(rows1[k].1 =~= apply_fields(rows1[k].1, f.take(0)));
    }
    let mut i: usize = 0;
    while i < fields.len()
        invariant
            i <= fields@.len(),
            f == entity_fields(fields@),
            f.len() == fields@.len(),
            rows1 == rows_update(rows0, k),
            rows1.contains_key(k),
            rows1[k].0 != RowOp::Delete,
            k == (table@, key@),
            entity_rows(*tables) == rows_set_all(rows1, k, f.take(i as int)),
        decreases fields@.len() - i,
    {
        assert(f[i as int] == (fields@[i as int].0@, field_value(fields@[i as int].1)));
        let field_name = fields[i].0.as_str();
        match &fields[i].1 {
            FieldValue::BigInt(s) => entity_set_bigint(tables, table, key, field_name, s),
            FieldValue::Int32(v) => entity_set_int32(tables, table, key, field_name, *v),
            FieldValue::Bytes(b) => entity_set_bytes(tables, table, key, field_name, b),
        }
        proof {
            lemma_set_all_step(rows1, k, f, i as int);
        }
        i += 1;
    }
    assert(f.take(fields@.len() as int) =~= f);
}

fn big_of_bytes(b: &Vec<u8>) -> (r: FieldValue)
    ensures
        field_value(r) == big_bytes(b@),
{
    let n = big_from_unsigned_be(b.as_slice());
    FieldValue::BigInt(big_to_decimal(&n))
}

fn block_entity_head_fields(m: &BlockMeta, base_fee: &Option<BigNum>) -> (r: Vec<(String, FieldValue)>)
    ensures
        entity_fields(r@) == block_entity_head(m.number, opt_int(*base_fee), m.timestamp),
{
    let mut r: Vec<(String, FieldValue)> = Vec::new();
    r.push((name("BlockNum"), FieldValue::BigInt(u64_to_decimal(m.number))));
    assert(entity_fields(r@) =~= seq![("BlockNum"@, big(m.number as int))]);
    push_optional(&mut r, "BaseFee", base_fee);
    let ghost before = r@;
    r.push((name("BlockTime"), FieldValue::BigInt(i64_to_decimal(m.timestamp))));
    assert(entity_fields(r@) =~= entity_fields(before) + seq![("BlockTime"@, big(m.timestamp as int))]);
    r
}

fn block_entity_fields(m: &BlockMeta, base_fee: &Option<BigNum>) -> (r: Vec<(String, FieldValue)>)
    ensures
        entity_fields(r@) == block_entity_columns(*m, opt_int(*base_fee)),
{
    let mut r = block_entity_head_fields(m, base_fee);
    let ghost head = r@;
    r.push((name("number"), FieldValue::BigInt(u64_to_decimal(m.number))));
    r.push((name("gasUsed"), FieldValue::BigInt(u64_to_decimal(m.gas_used))));
    r.push((name("baseFeePerGas"), big_of_bytes(&m.base_fee_per_gas)));
    r.push((name("timestamp"), FieldValue::BigInt(i64_to_decimal(m.timestamp))));
    r.push((name("txnCount"), FieldValue::Int32(m.txn_count)));
    r.push((name("minGasPrice"), big_of_bytes(&m.min_gas_price)));
    r.push((name("maxGasPrice"), big_of_bytes(&m.max_gas_price)));
    r.push((name("firstGasPrice"), big_of_bytes(&m.first_gas_price)));
    r.push((name("lastGasPrice"), big_of_bytes(&m.last_gas_price)));
    r.push((name("burnedFees"), big_of_bytes(&m.burned_fees)));
    r.push((name("gasFees"), big_of_bytes(&m.gas_fees)));
    r.push((name("minerTips"), big_of_bytes(&m.miner_tips)));
    assert(entity_fields(r@) =~= block_entity_columns(*m, opt_int(*base_fee)));
    r
}

fn bytes_of(b: &Vec<u8>) -> (r: FieldValue)
    ensures
        field_value(r) == bytes_value(b@),
{
    FieldValue::Bytes(vstd::slice::slice_to_vec(b.as_slice()))
}

fn block_entity_update_fields(m: &BlockMeta, base_fee: &Option<BigNum>) -> (r: Vec<(String, FieldValue)>)
    ensures
        entity_fields(r@) == block_entity_update_columns(*m, opt_int(*base_fee)),
{
    let mut r = block_entity_head_fields(m, base_fee);
    let ghost head = r@;
    r.push((name("number"), FieldValue::BigInt(u64_to_decimal(m.number))));
    r.push((name("gasUsed"), FieldValue::BigInt(u64_to_decimal(m.gas_used))));
    r.push((name("baseFeePerGas"), bytes_of(&m.base_fee_per_gas)));
    r.push((name("timestamp"), FieldValue::BigInt(i64_to_decimal(m.timestamp))));
    r.push((name("txnCount"), FieldValue::Int32(m.txn_count)));
    r.push((name("minGasPrice"), bytes_of(&m.min_gas_price)));
    r.push((name("maxGasPrice"), bytes_of(&m.max_gas_price)));
    r.push((name("firstGasPrice"), big_of_bytes(&m.first_gas_price)));
    r.push((name("lastGasPrice"), big_of_bytes(&m.last_gas_price)));
    r.push((name("burnedFees"), bytes_of(&m.burned_fees)));
    r.push((name("gasFees"), bytes_of(&m.gas_fees)));
    r.push((name("minerTips"), bytes_of(&m.miner_tips)));
    assert(entity_fields(r@) =~= block_entity_update_columns(*m, opt_int(*base_fee)));
    r
}

fn txn_entity_fields(block_number: u64, block_hash: &Vec<u8>, tx: &TransactionMeta) -> (r: Vec<(String, FieldValue)>)
    ensures
        entity_fields(r@) == txn_entity_columns(block_number, block_hash@, *tx),
{
    let mut r: Vec<(String, FieldValue)> = Vec::new();
    r.push((name("blockNumber"), FieldValue::BigInt(u64_to_decimal(block_number))));
    r.push((name("block"), bytes_of(block_hash)));
    r.push((name("gasUsed"), FieldValue::BigInt(u64_to_decimal(tx.gas_used))));
    r.push((name("gasPrice"), big_of_bytes(&tx.gas_price)));
    r.push((name("gasFee"), big_of_bytes(&tx.gas_fee)));
    r.push((name("timestamp"), FieldValue::BigInt(i64_to_decimal(tx.timestamp))));
    r.push((name("index"), FieldValue::Int32(tx.index)));
    r.push((name("txnType"), FieldValue::Int32(tx.txn_type)));
    r.push((name("maxPriorityFeePerGas"), big_of_bytes(&tx.max_priority_fee_per_gas)));
    r.push((name("burnedFee"), big_of_bytes(&tx.burned_fee)));
    r.push((name("minerTip"), big_of_bytes(&tx.miner_tip)));
    assert(entity_fields(r@) =~= txn_entity_columns(block_number, block_hash@, *tx));
    r
}

/// Writes the `Block` entity of a block whose base fee is `base_fee_per_gas`
/// (none before London), keyed by the block number.
pub fn push_create(tables: &mut EntityTables, value: &BlockMeta, base_fee_per_gas: &Option<BigNum>)
    requires
        update_allowed(entity_rows(*old(tables)), ("Block"@, block_entity_id(value.number))),
    ensures
        entity_rows(*final(tables)) == entity_written(
            entity_rows(*old(tables)),
            "Block"@,
            block_entity_id(value.number),
            block_entity_columns(*value, opt_int(*base_fee_per_gas)),
        ),
{
    let key = u64_to_decimal(value.number);
    let fields = block_entity_fields(value, base_fee_per_gas);
    set_entity_fields(tables, "Block", key.as_str(), &fields);
}

/// Writes the `Block` entity of a block whose value changed to `new_value`,
/// with base fee `base_fee_per_gas` (none before London).
pub fn push_update(tables: &mut EntityTables, old_value: &BlockMeta, new_value: &BlockMeta, base_fee_per_gas: &Option<BigNum>)
    requires
        update_allowed(entity_rows(*old(tables)), ("Block"@, block_entity_id(new_value.number))),
    ensures
        entity_rows(*final(tables)) == entity_written(
            entity_rows(*old(tables)),
            "Block"@,
            block_entity_id(new_value.number),
            block_entity_update_columns(*new_value, opt_int(*base_fee_per_gas)),
        ),
{
    let key = u64_to_decimal(new_value.number);
    let fields = block_entity_update_fields(new_value, base_fee_per_gas);
    set_entity_fields(tables, "Block", key.as_str(), &fields);
}

/// Writes the `Txn` entity of a transaction, keyed by the hexadecimal
/// transaction hash.
pub fn push_tx_meta_create(tables: &mut EntityTables, block_number: u64, block_hash: Vec<u8>, tx: &TransactionMeta)
    requires
        update_allowed(entity_rows(*old(tables)), ("Txn"@, lower_hex(tx.hash@))),
    ensures
        entity_rows(*final(tables)) == entity_written(
            entity_rows(*old(tables)),
            "Txn"@,
            lower_hex(tx.hash@),
            txn_entity_columns(block_number, block_hash@, *tx),
        ),
{
    let key = hex_encode(tx.hash.as_slice());
    let fields = txn_entity_fields(block_number, &block_hash, tx);
    set_entity_fields(tables, "Txn", key.as_str(), &fields);
}

/// Writes the `Block` entity of a block's statistics; `base_fee_per_gas` is
/// the block's base fee, none before London.
pub fn block_meta_to_tables(tables: &mut EntityTables, block_meta: &BlockMeta, base_fee_per_gas: &Option<BigNum>)
    requires
        update_allowed(entity_rows(*old(tables)), ("Block"@, block_entity_id(block_meta.number))),
    ensures
        entity_rows(*final(tables)) == entity_written(
            entity_rows(*old(tables)),
            "Block"@,
            block_entity_id(block_meta.number),
            block_entity_columns(*block_meta, opt_int(*base_fee_per_gas)),
        ),
{
    push_create(tables, block_meta, base_fee_per_gas)
}

fn push_optional(fields: &mut Vec<(String, FieldValue)>, field: &str, v: &Option<BigNum>)
    ensures
        entity_fields(final(fields)@) == entity_fields(old(fields)@) + optional_column(field@, opt_int(*v)),
{
    match v {
        Some(b) => {
            let text = big_to_decimal(b);
            fields.push((name(field), FieldValue::BigInt(text)));
            assert(entity_fields(fields@) =~= entity_fields(old(fields)@) + optional_column(field@, opt_int(*v)));
        },
        None => {
            assert(entity_fields(fields@) =~= entity_fields(old(fields)@) + optional_column(field@, opt_int(*v)));
        },
    }
}

/// Writes the candle entity `entity_key` of `entity_id`: its start time, read
/// from the key, and each of open, high, low and close that the stores hold.
/// The key must read as an `i64`; reading it panics otherwise.
pub fn candle_to_tables(tables: &mut EntityTables, entity_id: &str, entity_key: &String, reading: &CandleReading)
    requires
        parse_i64_spec(entity_key@) is Some,
        update_allowed(entity_rows(*old(tables)), (entity_id@, entity_key@)),
    ensures
        entity_rows(*final(tables)) == entity_written(
            entity_rows(*old(tables)),
            entity_id@,
            entity_key@,
            candle_columns(
                parse_i64_spec(entity_key@).unwrap() as int,
                opt_int(reading.open),
                opt_int(reading.high),
                opt_int(reading.low),
                opt_int(reading.close),
            ),
        ),
{
    let timestamp = parse_i64(entity_key.as_str()).unwrap();
    let mut fields: Vec<(String, FieldValue)> = Vec::new();
    fields.push((name("timestamp"), FieldValue::BigInt(i64_to_decimal(timestamp))));
    assert(entity_fields(fields@) =~= seq![("timestamp"@, big(timestamp as int))]);
    push_optional(&mut fields, "open", &reading.open);
    push_optional(&mut fields, "high", &reading.high);
    push_optional(&mut fields, "low", &reading.low);
    push_optional(&mut fields, "close", &reading.close);
    set_entity_fields(tables, entity_id, entity_key.as_str(), &fields);
}

/// Law: a candle entity written from the store readings has the period
/// start in its `timestamp` column, and its `open`, `high`, `low` and `close`
/// columns hold the values read from the open, high, low and close stores
/// respectively, each where that store holds a value for the key (a column
/// whose store holds none keeps what the entity held before).
pub proof fn lemma_candle_row(
    rows: Rows<EntityValue>,
    id: Seq<char>,
    key: Seq<char>,
    timestamp: int,
    open: Option<int>,
    high: Option<int>,
    low: Option<int>,
    close: Option<int>,
)
    ensures
        ({
            let k = (id, key);
            let before = if rows.contains_key(k) {
                rows[k].1
            } else {
                Map::<Seq<char>, EntityValue>::empty()
            };
            let r = entity_written(rows, id, key, candle_columns(timestamp, open, high, low, close));
            &&& r.contains_key(k)
            &&& r[k].1.contains_key("timestamp"@)
            &&& r[k].1["timestamp"@] == big(timestamp)
            &&& candle_column_follows(r[k].1, before, "open"@, open)
            &&& candle_column_follows(r[k].1, before, "high"@, high)
            &&& candle_column_follows(r[k].1, before, "low"@, low)
            &&& candle_column_follows(r[k].1, before, "close"@, close)
        }),
{
    reveal_strlit("timestamp");
    reveal_strlit("open");
    reveal_strlit("high");
    reveal_strlit("low");
    reveal_strlit("close");
    assert("open"@[0] != "high"@[0]);
    assert("open"@ != "high"@);
    assert("open"@.len() != "low"@.len() && "open"@.len() != "close"@.len() && "open"@.len() != "timestamp"@.len());
    assert("high"@.len() != "low"@.len() && "high"@.len() != "close"@.len() && "high"@.len() != "timestamp"@.len());
    assert("low"@.len() != "close"@.len() && "low"@.len() != "timestamp"@.len() && "close"@.len() != "timestamp"@.len());
    let k = (id, key);
    let before = if rows.contains_key(k) {
        rows[k].1
    } else {
        Map::<Seq<char>, EntityValue>::empty()
    };
    let t = seq![("timestamp"@, big(timestamp))];
    let a = t + optional_column("open"@, open);
    let b = a + optional_column("high"@, high);
    let c = b + optional_column("low"@, low);
    let d = c + optional_column("close"@, close);
    assert(candle_columns(timestamp, open, high, low, close) == d);
    let u = rows_update(rows, k);
    assert(u[k].1 == before);
    let c0 = apply_fields(before, t);
    assert(t.drop_last() =~= Seq::<(Seq<char>, EntityValue)>::empty());
    assert(apply_fields(before, t.drop_last()) == before);
    assert(c0 == before.insert("timestamp"@, big(timestamp)));
    lemma_apply_fields_concat(before, t, optional_column("open"@, open));
    lemma_optional_column_applied(c0, "open"@, open);
    let c1 = apply_fields(before, a);
    lemma_apply_fields_concat(before, a, optional_column("high"@, high));
    lemma_optional_column_applied(c1, "high"@, high);
    let c2 = apply_fields(before, b);
    lemma_apply_fields_concat(before, b, optional_column("low"@, low));
    lemma_optional_column_applied(c2, "low"@, low);
    let c3 = apply_fields(before, c);
    lemma_apply_fields_concat(before, c, optional_column("close"@, close));
    lemma_optional_column_applied(c3, "close"@, close);
}

} // verus!
