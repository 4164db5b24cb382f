//! Database rows for the block statistics kept in a store: one row per block in
//! `blocks` and one per transaction in `transactions`.
use crate::bignum::int_decimal;
use crate::block::{BlockMeta, TransactionMeta};
use crate::db_tables::{db_create_row, db_delete_row, db_rows, db_set, db_update_row};
use crate::rows::{
    create_allowed, lemma_set_all_step, rows_create, rows_delete, rows_set_all, rows_update,
    update_allowed, RowOp, Rows,
};
use crate::text::{hex_encode, i32_to_decimal, i64_to_decimal, lower_hex, u64_to_decimal};
use crate::db_tables::DatabaseTables;
use vstd::prelude::*;

verus! {

/// Operation of a store delta.
#[derive(PartialEq, Eq, Structural, Clone, Copy, Debug)]
pub enum DeltaOperation {
    Unset,
    Create,
    Update,
    Delete,
}

/// A change of the block-statistics store: the key and the values before
/// and after.
pub struct BlockMetaDelta {
    pub operation: DeltaOperation,
    pub key: String,
    pub old_value: BlockMeta,
    pub new_value: BlockMeta,
}

/// (column name, column text) pairs as text.
pub open spec fn field_texts(f: Seq<(String, String)>) -> Seq<(Seq<char>, Seq<char>)> {
    f.map_values(|p: (String, String)| (p.0@, p.1@))
}

pub open spec fn blocks_table() -> Seq<char> {
    "blocks"@
}

pub open spec fn transactions_table() -> Seq<char> {
    "transactions"@
}

/// Primary key of the `index`-th transaction of block `number`: `{number}_{index}`.
pub open spec fn tx_row_id(number: u64, index: int) -> Seq<char> {
    int_decimal(number as int) + seq!['_'] + int_decimal(index)
}

/// Columns of a `blocks` row.
pub open spec fn block_columns(m: BlockMeta) -> Seq<(Seq<char>, Seq<char>)> {
    seq![
        ("hash"@, lower_hex(m.hash@)),
        ("gas_used"@, int_decimal(m.gas_used as int)),
        ("base_fee_per_gas"@, lower_hex(m.base_fee_per_gas@)),
        ("timestamp"@, int_decimal(m.timestamp as int)),
        ("min_gas_price"@, lower_hex(m.min_gas_price@)),
        ("max_gas_price"@, lower_hex(m.max_gas_price@)),
        ("burned_fees"@, lower_hex(m.burned_fees@)),
        ("gas_fees"@, lower_hex(m.gas_fees@)),
        ("miner_tips"@, lower_hex(m.miner_tips@)),
    ]
}

/// Columns of a new `transactions` row.
pub open spec fn tx_create_columns(tx: TransactionMeta, block_number: u64) -> Seq<(Seq<char>, Seq<char>)> {
    seq![
        ("gas_used"@, int_decimal(tx.gas_used as int)),
        ("gas_price"@, lower_hex(tx.gas_price@)),
        ("gas_fee"@, lower_hex(tx.gas_fee@)),
        ("txn_type"@, int_decimal(tx.txn_type as int)),
        ("max_priority_fee_per_gas"@, lower_hex(tx.max_priority_fee_per_gas@)),
        ("burned_fee"@, lower_hex(tx.burned_fee@)),
        ("block_number"@, int_decimal(block_number as int)),
        ("hash"@, lower_hex(tx.hash@)),
        ("miner_tip"@, lower_hex(tx.miner_tip@)),
    ]
}

/// Columns set on an updated `transactions` row.
pub open spec fn tx_update_columns(tx: TransactionMeta) -> Seq<(Seq<char>, Seq<char>)> {
    seq![
        ("gas_used"@, int_decimal(tx.gas_used as int)),
        ("gas_price"@, lower_hex(tx.gas_price@)),
        ("gas_fee"@, lower_hex(tx.gas_fee@)),
        ("txn_type"@, int_decimal(tx.txn_type as int)),
        ("max_priority_fee_per_gas"@, lower_hex(tx.max_priority_fee_per_gas@)),
        ("burned_fee"@, lower_hex(tx.burned_fee@)),
        ("miner_tip"@, lower_hex(tx.miner_tip@)),
    ]
}

/// Rows after the `transactions` row `id` is created with the columns of `tx`.
pub open spec fn tx_created(rows: Rows<Seq<char>>, block_number: u64, tx: TransactionMeta, id: Seq<char>) -> Rows<Seq<char>> {
    let k = (transactions_table(), id);
    rows_set_all(rows_create(rows, k), k, tx_create_columns(tx, block_number))
}

/// Rows after the `transactions` row `id` is updated with the columns of `tx`.
pub open spec fn tx_updated(rows: Rows<Seq<char>>, tx: TransactionMeta, id: Seq<char>) -> Rows<Seq<char>> {
    let k = (transactions_table(), id);
    rows_set_all(rows_update(rows, k), k, tx_update_columns(tx))
}

/// Rows after creating the rows of `txs[lo..hi]` in order.
pub open spec fn txs_created(rows: Rows<Seq<char>>, number: u64, txs: Seq<TransactionMeta>, lo: int, hi: int) -> Rows<Seq<char>>
    decreases hi - lo,
{
    if hi <= lo {
        rows
    } else {
        tx_created(txs_created(rows, number, txs, lo, hi - 1), number, txs[hi - 1], tx_row_id(number, hi - 1))
    }
}

/// Creating the rows of `txs[lo..hi]` in order does not panic.
pub open spec fn txs_create_ok(rows: Rows<Seq<char>>, number: u64, txs: Seq<TransactionMeta>, lo: int, hi: int) -> bool
    decreases hi - lo,
{
    hi <= lo || (txs_create_ok(rows, number, txs, lo, hi - 1) && create_allowed(
        txs_created(rows, number, txs, lo, hi - 1),
        (transactions_table(), tx_row_id(number, hi - 1)),
    ))
}

/// Rows after updating the rows of `txs[0..hi]` in order.
pub open spec fn txs_updated(rows: Rows<Seq<char>>, number: u64, txs: Seq<TransactionMeta>, hi: int) -> Rows<Seq<char>>
    decreases hi,
{
    if hi <= 0 {
        rows
    } else {
        tx_updated(txs_updated(rows, number, txs, hi - 1), txs[hi - 1], tx_row_id(number, hi - 1))
    }
}

/// Updating the rows of `txs[0..hi]` in order does not panic.
pub open spec fn txs_update_ok(rows: Rows<Seq<char>>, number: u64, txs: Seq<TransactionMeta>, hi: int) -> bool
    decreases hi,
{
    hi <= 0 || (txs_update_ok(rows, number, txs, hi - 1) && update_allowed(
        txs_updated(rows, number, txs, hi - 1),
        (transactions_table(), tx_row_id(number, hi - 1)),
    ))
}

/// Rows after deleting the transaction rows `lo..hi` of block `number`.
pub open spec fn txs_deleted(rows: Rows<Seq<char>>, number: u64, lo: int, hi: int) -> Rows<Seq<char>>
    decreases hi - lo,
{
    if hi <= lo {
        rows
    } else {
        rows_delete(txs_deleted(rows, number, lo, hi - 1), (transactions_table(), tx_row_id(number, hi - 1)))
    }
}

/// Rows after a block first enters the store: its `blocks` row and one
/// `transactions` row per transaction are created.
pub open spec fn block_created(rows: Rows<Seq<char>>, key: Seq<char>, m: BlockMeta) -> Rows<Seq<char>> {
    let k = (blocks_table(), key);
    let r = rows_set_all(rows_create(rows, k), k, block_columns(m));
    txs_created(r, m.number, m.txns@, 0, m.txns@.len() as int)
}

pub open spec fn block_create_ok(rows: Rows<Seq<char>>, key: Seq<char>, m: BlockMeta) -> bool {
    let k = (blocks_table(), key);
    let r = rows_set_all(rows_create(rows, k), k, block_columns(m));
    create_allowed(rows, k) && txs_create_ok(r, m.number, m.txns@, 0, m.txns@.len() as int)
}

pub open spec fn min_len(a: int, b: int) -> int {
    if a < b {
        a
    } else {
        b
    }
}

/// Rows after a block changes in the store: its `blocks` row is updated; the
/// transactions present before and after are updated, those only before are
/// deleted, those only after are created.
pub open spec fn block_updated(rows: Rows<Seq<char>>, key: Seq<char>, old_m: BlockMeta, new_m: BlockMeta) -> Rows<Seq<char>> {
    let k = (blocks_table(), key);
    let n = min_len(old_m.txns@.len() as int, new_m.txns@.len() as int);
    let r1 = rows_set_all(rows_update(rows, k), k, block_columns(new_m));
    let r2 = txs_updated(r1, new_m.number, new_m.txns@, n);
    let r3 = txs_deleted(r2, old_m.number, n, old_m.txns@.len() as int);
    txs_created(r3, new_m.number, new_m.txns@, n, new_m.txns@.len() as int)
}

pub open spec fn block_update_ok(rows: Rows<Seq<char>>, key: Seq<char>, old_m: BlockMeta, new_m: BlockMeta) -> bool {
    let k = (blocks_table(), key);
    let n = min_len(old_m.txns@.len() as int, new_m.txns@.len() as int);
    let r1 = rows_set_all(rows_update(rows, k), k, block_columns(new_m));
    let r2 = txs_updated(r1, new_m.number, new_m.txns@, n);
    let r3 = txs_deleted(r2, old_m.number, n, old_m.txns@.len() as int);
    &&& update_allowed(rows, k)
    &&& txs_update_ok(r1, new_m.number, new_m.txns@, n)
    &&& txs_create_ok(r3, new_m.number, new_m.txns@, n, new_m.txns@.len() as int)
}

pub open spec fn delta_applied(rows: Rows<Seq<char>>, d: BlockMetaDelta) -> Rows<Seq<char>> {
    match d.operation {
        DeltaOperation::Create => block_created(rows, d.key@, d.new_value),
        DeltaOperation::Update => block_updated(rows, d.key@, d.old_value, d.new_value),
        _ => rows,
    }
}

/// The delta is a creation or an update, applied without panic.
pub open spec fn delta_ok(rows: Rows<Seq<char>>, d: BlockMetaDelta) -> bool {
    match d.operation {
        DeltaOperation::Create => block_create_ok(rows, d.key@, d.new_value),
        DeltaOperation::Update => block_update_ok(rows, d.key@, d.old_value, d.new_value),
        _ => false,
    }
}

pub open spec fn deltas_applied(rows: Rows<Seq<char>>, ds: Seq<BlockMetaDelta>, n: int) -> Rows<Seq<char>>
    decreases n,
{
    if n <= 0 {
        rows
    } else {
        delta_applied(deltas_applied(rows, ds, n - 1), ds[n - 1])
    }
}

/// Every delta of `ds[0..n]` is a creation or an update and applies without panic.
pub open spec fn deltas_ok(rows: Rows<Seq<char>>, ds: Seq<BlockMetaDelta>, n: int) -> bool
    decreases n,
{
    n <= 0 || (deltas_ok(rows, ds, n - 1) && delta_ok(deltas_applied(rows, ds, n - 1), ds[n - 1]))
}

pub(crate) proof fn lemma_txs_create_ok_prefix(rows: Rows<Seq<char>>, number: u64, txs: Seq<TransactionMeta>, lo: int, i: int, hi: int)
    requires
        txs_create_ok(rows, number, txs, lo, hi),
        lo <= i <= hi,
    ensures
        txs_create_ok(rows, number, txs, lo, i),
    decreases hi - i,
{
    if i < hi {
        lemma_txs_create_ok_prefix(rows, number, txs, lo, i, hi - 1);
    }
}

pub(crate) proof fn lemma_txs_update_ok_prefix(rows: Rows<Seq<char>>, number: u64, txs: Seq<TransactionMeta>, i: int, hi: int)
    requires
        txs_update_ok(rows, number, txs, hi),
        0 <= i <= hi,
    ensures
        txs_update_ok(rows, number, txs, i),
    decreases hi - i,
{
    if i < hi {
        lemma_txs_update_ok_prefix(rows, number, txs, i, hi - 1);
    }
}

pub(crate) proof fn lemma_deltas_ok_prefix(rows: Rows<Seq<char>>, ds: Seq<BlockMetaDelta>, i: int, n: int)
    requires
        deltas_ok(rows, ds, n),
        0 <= i <= n,
    ensures
        deltas_ok(rows, ds, i),
    decreases n - i,
{
    if i < n {
        lemma_deltas_ok_prefix(rows, ds, i, n - 1);
    }
}

pub(crate) fn name(s: &str) -> (r: String)
    ensures
        r@ == s@,
{
    String::from_str(s)
}

/// Sets the columns `fields`, in order, on the existing row `key` of `table`.
fn set_fields(tables: &mut DatabaseTables, table: &str, key: &str, fields: &Vec<(String, String)>)
    requires
        db_rows(*old(tables)).contains_key((table@, key@)),
        db_rows(*old(tables))[(table@, key@)].0 != RowOp::Delete,
    ensures
        db_rows(*final(tables)) == rows_set_all(db_rows(*old(tables)), (table@, key@), field_texts(fields@)),
{
    let ghost k = (table@, key@);
    let ghost rows0 = db_rows(*tables);
    let ghost f = field_texts(fields@);
    let mut i: usize = 0;
    assert(rows_set_all(rows0, k, f.take(0)) =~= rows0) by {
        assert(f.take(0) =~= Seq::<(Seq<char>, Seq<char>)>::empty());
        assert(rows0[k].1 =~= crate::rows::apply_fields(rows0[k].1, f.take(0)));
    }
    while i < fields.len()
        invariant
            i <= fields@.len(),
            f == field_texts(fields@),
            f.len() == fields@.len(),
            rows0.contains_key(k),
            rows0[k].0 != RowOp::Delete,
            k == (table@, key@),
            db_rows(*tables) == rows_set_all(rows0, k, f.take(i as int)),
        decreases fields@.len() - i,
    {
        let value = fields[i].1.clone();
        assert(f[i as int] == (fields@[i as int].0@, fields@[i as int].1@));
        db_set(tables, table, key, fields[i].0.as_str(), value);
        proof {
            lemma_set_all_step(rows0, k, f, i as int);
        }
        i += 1;
    }
    assert(f.take(fields@.len() as int) =~= f);
}

fn block_fields(m: &BlockMeta) -> (r: Vec<(String, String)>)
    ensures
        field_texts(r@) == block_columns(*m),
{
    let mut r: Vec<(String, String)> = Vec::new();
    r.push((name("hash"), hex_encode(m.hash.as_slice())));
    r.push((name("gas_used"), u64_to_decimal(m.gas_used)));
    r.push((name("base_fee_per_gas"), hex_encode(m.base_fee_per_gas.as_slice())));
    r.push((name("timestamp"), i64_to_decimal(m.timestamp)));
    r.push((name("min_gas_price"), hex_encode(m.min_gas_price.as_slice())));
    r.push((name("max_gas_price"), hex_encode(m.max_gas_price.as_slice())));
    r.push((name("burned_fees"), hex_encode(m.burned_fees.as_slice())));
    r.push((name("gas_fees"), hex_encode(m.gas_fees.as_slice())));
    r.push((name("miner_tips"), hex_encode(m.miner_tips.as_slice())));
    assert(field_texts(r@) =~= block_columns(*m));
    r
}

fn tx_create_fields(tx: &TransactionMeta, block_number: u64) -> (r: Vec<(String, String)>)
    ensures
        field_texts(r@) == tx_create_columns(*tx, block_number),
{
    let mut r: Vec<(String, String)> = Vec::new();
    r.push((name("gas_used"), u64_to_decimal(tx.gas_used)));
    r.push((name("gas_price"), hex_encode(tx.gas_price.as_slice())));
    r.push((name("gas_fee"), hex_encode(tx.gas_fee.as_slice())));
    r.push((name("txn_type"), i32_to_decimal(tx.txn_type)));
    r.push((name("max_priority_fee_per_gas"), hex_encode(tx.max_priority_fee_per_gas.as_slice())));
    r.push((name("burned_fee"), hex_encode(tx.burned_fee.as_slice())));
    r.push((name("block_number"), u64_to_decimal(block_number)));
    r.push((name("hash"), hex_encode(tx.hash.as_slice())));
    r.push((name("miner_tip"), hex_encode(tx.miner_tip.as_slice())));
    assert(field_texts(r@) =~= tx_create_columns(*tx, block_number));
    r
}

fn tx_update_fields(tx: &TransactionMeta) -> (r: Vec<(String, String)>)
    ensures
        field_texts(r@) == tx_update_columns(*tx),
{
    let mut r: Vec<(String, String)> = Vec::new();
    r.push((name("gas_used"), u64_to_decimal(tx.gas_used)));
    r.push((name("gas_price"), hex_encode(tx.gas_price.as_slice())));
    r.push((name("gas_fee"), hex_encode(tx.gas_fee.as_slice())));
    r.push((name("txn_type"), i32_to_decimal(tx.txn_type)));
    r.push((name("max_priority_fee_per_gas"), hex_encode(tx.max_priority_fee_per_gas.as_slice())));
    r.push((name("burned_fee"), hex_encode(tx.burned_fee.as_slice())));
    r.push((name("miner_tip"), hex_encode(tx.miner_tip.as_slice())));
    assert(field_texts(r@) =~= tx_update_columns(*tx));
    r
}

/// Primary key of the `index`-th transaction of block `number`.
pub fn tx_id(number: u64, index: usize) -> (r: String)
    ensures
        r@ == tx_row_id(number, index as int),
{
    let mut s = u64_to_decimal(number);
    s.append("_");
    let idx = u64_to_decimal(index as u64);
    s.append(idx.as_str());
    proof {
        reveal_strlit("_");
    }
    assert(s@ =~= tx_row_id(number, index as int));
    s
}

/// Creates the `transactions` row `tx_id` of a transaction of block `block_number`.
pub fn push_tx_meta_create(tables: &mut DatabaseTables, block_number: u64, tx: &TransactionMeta, tx_id: &str)
    requires
        create_allowed(db_rows(*old(tables)), (transactions_table(), tx_id@)),
    ensures
        db_rows(*final(tables)) == tx_created(db_rows(*old(tables)), block_number, *tx, tx_id@),
{
    db_create_row(tables, "transactions", tx_id);
    let fields = tx_create_fields(tx, block_number);
    set_fields(tables, "transactions", tx_id, &fields);
}

/// Updates the `transactions` row `tx_id` with the values of `new_tx`.
pub fn push_tx_meta_update(tables: &mut DatabaseTables, new_tx: &TransactionMeta, tx_id: &str)
    requires
        update_allowed(db_rows(*old(tables)), (transactions_table(), tx_id@)),
    ensures
        db_rows(*final(tables)) == tx_updated(db_rows(*old(tables)), *new_tx, tx_id@),
{
    db_update_row(tables, "transactions", tx_id);
    let fields = tx_update_fields(new_tx);
    set_fields(tables, "transactions", tx_id, &fields);
}

fn create_txs(tables: &mut DatabaseTables, number: u64, txs: &Vec<TransactionMeta>, lo: usize)
    requires
        lo <= txs@.len(),
        txs_create_ok(db_rows(*old(tables)), number, txs@, lo as int, txs@.len() as int),
    ensures
        db_rows(*final(tables)) == txs_created(db_rows(*old(tables)), number, txs@, lo as int, txs@.len() as int),
{
    let ghost rows0 = db_rows(*tables);
    let mut i: usize = lo;
    while i < txs.len()
        invariant
            lo <= i <= txs@.len(),
            txs_create_ok(rows0, number, txs@, lo as int, txs@.len() as int),
            db_rows(*tables) == txs_created(rows0, number, txs@, lo as int, i as int),
        decreases txs@.len() - i,
    {
        proof {
            lemma_txs_create_ok_prefix(rows0, number, txs@, lo as int, i as int + 1, txs@.len() as int);
        }
        let id = tx_id(number, i);
        push_tx_meta_create(tables, number, &txs[i], id.as_str());
        i += 1;
    }
}

/// Writes the rows of a block that first enters the store.
pub fn push_create(tables: &mut DatabaseTables, key: &str, value: &BlockMeta)
    requires
        block_create_ok(db_rows(*old(tables)), key@, *value),
    ensures
        db_rows(*final(tables)) == block_created(db_rows(*old(tables)), key@, *value),
{
    db_create_row(tables, "blocks", key);
    let fields = block_fields(value);
    set_fields(tables, "blocks", key, &fields);
    create_txs(tables, value.number, &value.txns, 0);
}

/// Writes the rows of a block whose stored value changed from `old_value` to
/// `new_value`.
pub fn push_update(tables: &mut DatabaseTables, key: &str, old_value: &BlockMeta, new_value: &BlockMeta)
    requires
        block_update_ok(db_rows(*old(tables)), key@, *old_value, *new_value),
    ensures
        db_rows(*final(tables)) == block_updated(db_rows(*old(tables)), key@, *old_value, *new_value),
{
    let ghost rows0 = db_rows(*tables);
    db_update_row(tables, "blocks", key);
    let fields = block_fields(new_value);
    set_fields(tables, "blocks", key, &fields);
    let ghost r1 = db_rows(*tables);

    let processed_count: usize = if old_value.txns.len() < new_value.txns.len() {
        old_value.txns.len()
    } else {
        new_value.txns.len()
    };

    let mut index: usize = 0;
    while index < processed_count
        invariant
            index <= processed_count,
            processed_count as int == min_len(old_value.txns@.len() as int, new_value.txns@.len() as int),
            txs_update_ok(r1, new_value.number, new_value.txns@, processed_count as int),
            db_rows(*tables) == txs_updated(r1, new_value.number, new_value.txns@, index as int),
        decreases processed_count - index,
    {
        proof {
            lemma_txs_update_ok_prefix(r1, new_value.number, new_value.txns@, index as int + 1, processed_count as int);
        }
        let id = tx_id(new_value.number, index);
        push_tx_meta_update(tables, &new_value.txns[index], id.as_str());
        index += 1;
    }
    let ghost r2 = db_rows(*tables);

    let mut tx_index: usize = processed_count;
    while tx_index < old_value.txns.len()
        invariant
            processed_count <= tx_index <= old_value.txns@.len(),
            db_rows(*tables) == txs_deleted(r2, old_value.number, processed_count as int, tx_index as int),
        decreases old_value.txns@.len() - tx_index,
    {
        let id = tx_id(old_value.number, tx_index);
        db_delete_row(tables, "transactions", id.as_str());
        tx_index += 1;
    }

    create_txs(tables, new_value.number, &new_value.txns, processed_count);
}

/// Writes the database rows for each store delta in order: creations and
/// updates of block statistics. Any other operation panics, which `requires`
/// leaves out.
pub fn block_meta_to_database_changes(tables: &mut DatabaseTables, deltas: Vec<BlockMetaDelta>)
    requires
        deltas_ok(db_rows(*old(tables)), deltas@, deltas@.len() as int),
    ensures
        db_rows(*final(tables)) == deltas_applied(db_rows(*old(tables)), deltas@, deltas@.len() as int),
{
    let ghost rows0 = db_rows(*tables);
    let mut i: usize = 0;
    while i < deltas.len()
        invariant
            i <= deltas@.len(),
            deltas_ok(rows0, deltas@, deltas@.len() as int),
            db_rows(*tables) == deltas_applied(rows0, deltas@, i as int),
        decreases deltas@.len() - i,
    {
        proof {
            lemma_deltas_ok_prefix(rows0, deltas@, i as int + 1, deltas@.len() as int);
        }
        let delta = &deltas[i];
        match delta.operation {
            DeltaOperation::Create => {
                push_create(tables, delta.key.as_str(), &delta.new_value);
            },
            DeltaOperation::Update => {
                push_update(tables, delta.key.as_str(), &delta.old_value, &delta.new_value);
            },
            _ => {
                assert(false);
            },
        }
        i += 1;
    }
}

} // verus!
