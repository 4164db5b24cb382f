//! What the database rows of one block are after it is created and then
//! updated in the store.
use crate::bignum::{int_decimal, nat_decimal};
use crate::db_out::{
    block_create_ok, block_created, block_update_ok, block_updated, blocks_table, min_len, block_columns, tx_create_columns, tx_row_id, tx_update_columns, transactions_table, txs_create_ok, txs_created,
    txs_deleted, txs_update_ok, txs_updated,
};
use crate::block::{BlockMeta, TransactionMeta};
use crate::db_out::{deltas_applied, deltas_ok, BlockMetaDelta, DeltaOperation};
use crate::rows::{
    apply_fields, create_allowed, lemma_apply_fields_lookup, names_distinct, rows_create, rows_set_all, rows_update,
    update_allowed, RowOp, Rows,
};
use crate::text::{lemma_nat_decimal_digits, lower_hex};
use vstd::prelude::*;

verus! {

/// The `transactions` row of the `i`-th transaction of block `number`.
pub open spec fn tx_key(number: u64, i: int) -> (Seq<char>, Seq<char>) {
    (transactions_table(), tx_row_id(number, i))
}

/// `a` and `b` hold the same row at `k`, or both none.
pub open spec fn same_row(a: Rows<Seq<char>>, b: Rows<Seq<char>>, k: (Seq<char>, Seq<char>)) -> bool {
    &&& a.contains_key(k) == b.contains_key(k)
    &&& b.contains_key(k) ==> a[k] == b[k]
}

/// Row `k` of `rows` after it is created (or kept, if present) and given `cols`.
pub open spec fn row_created(rows: Rows<Seq<char>>, k: (Seq<char>, Seq<char>), cols: Seq<(Seq<char>, Seq<char>)>) -> (RowOp, Map<Seq<char>, Seq<char>>) {
    if rows.contains_key(k) {
        (rows[k].0, apply_fields(rows[k].1, cols))
    } else {
        (RowOp::Create, apply_fields(Map::empty(), cols))
    }
}

/// Row `k` of `rows` after it is updated (or kept, if present) and given `cols`.
pub open spec fn row_updated(rows: Rows<Seq<char>>, k: (Seq<char>, Seq<char>), cols: Seq<(Seq<char>, Seq<char>)>) -> (RowOp, Map<Seq<char>, Seq<char>>) {
    if rows.contains_key(k) {
        (rows[k].0, apply_fields(rows[k].1, cols))
    } else {
        (RowOp::Update, apply_fields(Map::empty(), cols))
    }
}

/// Distinct transaction indexes give distinct row keys.
pub proof fn lemma_tx_row_id_injective(number: u64, i: int, j: int)
    requires
        0 <= i,
        0 <= j,
        tx_row_id(number, i) == tx_row_id(number, j),
    ensures
        i == j,
{
    let p = int_decimal(number as int) + seq!['_'];
    let a = tx_row_id(number, i);
    let b = tx_row_id(number, j);
    assert(a.subrange(p.len() as int, a.len() as int) =~= nat_decimal(i as nat));
    assert(b.subrange(p.len() as int, b.len() as int) =~= nat_decimal(j as nat));
    lemma_nat_decimal_digits(i as nat);
    lemma_nat_decimal_digits(j as nat);
}

/// Law: the `transactions` rows of different transactions, in the same block
/// or in different blocks, have different primary keys.
pub proof fn lemma_tx_row_ids_distinct(n1: u64, i: int, n2: u64, j: int)
    requires
        0 <= i,
        0 <= j,
        tx_row_id(n1, i) == tx_row_id(n2, j),
    ensures
        n1 == n2,
        i == j,
{
    let d1 = nat_decimal(n1 as nat);
    let d2 = nat_decimal(n2 as nat);
    let a = tx_row_id(n1, i);
    lemma_nat_decimal_digits(n1 as nat);
    lemma_nat_decimal_digits(n2 as nat);
    assert(a[d1.len() as int] == '_');
    assert(a[d2.len() as int] == '_');
    if d1.len() < d2.len() {
        assert(a[d1.len() as int] == d2[d1.len() as int]);
    } else if d2.len() < d1.len() {
        assert(a[d2.len() as int] == d1[d2.len() as int]);
    }
    assert(a.subrange(0, d1.len() as int) =~= d1);
    assert(a.subrange(0, d2.len() as int) =~= d2);
    lemma_tx_row_id_injective(n1, i, j);
}

/// Rows after creating the `transactions` rows of `txs[lo..hi]`: each of them
/// is created (or kept) and given its columns; every other row is as before.
pub proof fn lemma_txs_created_rows(rows: Rows<Seq<char>>, number: u64, txs: Seq<TransactionMeta>, lo: int, hi: int)
    requires
        0 <= lo <= hi <= txs.len(),
    ensures
        forall|i: int| lo <= i < hi ==> {
            &&& txs_created(rows, number, txs, lo, hi).contains_key(#[trigger] tx_key(number, i))
            &&& txs_created(rows, number, txs, lo, hi)[tx_key(number, i)]
                == row_created(rows, tx_key(number, i), tx_create_columns(txs[i], number))
        },
        forall|j: int| 0 <= j && (j < lo || j >= hi) ==> same_row(txs_created(rows, number, txs, lo, hi), rows, #[trigger] tx_key(number, j)),
        forall|k: (Seq<char>, Seq<char>)| k.0 != transactions_table() ==> same_row(txs_created(rows, number, txs, lo, hi), rows, k),
        forall|k: (Seq<char>, Seq<char>)| #[trigger] txs_created(rows, number, txs, lo, hi).contains_key(k) ==>
            rows.contains_key(k) || exists|i: int| lo <= i < hi && k == #[trigger] tx_key(number, i),
    decreases hi - lo,
{
    if hi > lo {
        lemma_txs_created_rows(rows, number, txs, lo, hi - 1);
        let t = txs_created(rows, number, txs, lo, hi - 1);
        let t2 = txs_created(rows, number, txs, lo, hi);
        let kh = tx_key(number, hi - 1);
        assert(t2 == crate::db_out::tx_created(t, number, txs[hi - 1], tx_row_id(number, hi - 1)));
        assert forall|i: int| lo <= i < hi - 1 implies #[trigger] tx_key(number, i) != kh by {
            if tx_key(number, i) == kh {
                lemma_tx_row_id_injective(number, i, hi - 1);
            }
        }
        assert forall|j: int| 0 <= j && (j < lo || j >= hi) implies #[trigger] tx_key(number, j) != kh by {
            if tx_key(number, j) == kh {
                lemma_tx_row_id_injective(number, j, hi - 1);
            }
        }
        assert(same_row(t, rows, kh));
        assert forall|k: (Seq<char>, Seq<char>)| k.0 != transactions_table() implies same_row(t2, rows, k) by {
            assert(k != kh);
            assert(same_row(t, rows, k));
        }
        assert forall|k: (Seq<char>, Seq<char>)| #[trigger] t2.contains_key(k) implies
            rows.contains_key(k) || exists|i: int| lo <= i < hi && k == #[trigger] tx_key(number, i) by {
            if k != kh {
                assert(t.contains_key(k));
            }
        }
    }
}

/// Rows after updating the `transactions` rows of `txs[..hi]`: each of them is
/// updated (or kept) and given its columns; every other row is as before.
pub proof fn lemma_txs_updated_rows(rows: Rows<Seq<char>>, number: u64, txs: Seq<TransactionMeta>, hi: int)
    requires
        0 <= hi <= txs.len(),
    ensures
        forall|i: int| 0 <= i < hi ==> {
            &&& txs_updated(rows, number, txs, hi).contains_key(#[trigger] tx_key(number, i))
            &&& txs_updated(rows, number, txs, hi)[tx_key(number, i)]
                == row_updated(rows, tx_key(number, i), tx_update_columns(txs[i]))
        },
        forall|j: int| j >= hi ==> same_row(txs_updated(rows, number, txs, hi), rows, #[trigger] tx_key(number, j)),
        forall|k: (Seq<char>, Seq<char>)| k.0 != transactions_table() ==> same_row(txs_updated(rows, number, txs, hi), rows, k),
        forall|k: (Seq<char>, Seq<char>)| #[trigger] txs_updated(rows, number, txs, hi).contains_key(k) ==>
            rows.contains_key(k) || exists|i: int| 0 <= i < hi && k == #[trigger] tx_key(number, i),
    decreases hi,
{
    if hi > 0 {
        lemma_txs_updated_rows(rows, number, txs, hi - 1);
        let t = txs_updated(rows, number, txs, hi - 1);
        let t2 = txs_updated(rows, number, txs, hi);
        let kh = tx_key(number, hi - 1);
        assert(t2 == crate::db_out::tx_updated(t, txs[hi - 1], tx_row_id(number, hi - 1)));
        assert forall|i: int| 0 <= i < hi - 1 implies #[trigger] tx_key(number, i) != kh by {
            if tx_key(number, i) == kh {
                lemma_tx_row_id_injective(number, i, hi - 1);
            }
        }
        assert forall|j: int| j >= hi implies #[trigger] tx_key(number, j) != kh by {
            if tx_key(number, j) == kh {
                lemma_tx_row_id_injective(number, j, hi - 1);
            }
        }
        assert(same_row(t, rows, kh));
        assert forall|k: (Seq<char>, Seq<char>)| k.0 != transactions_table() implies same_row(t2, rows, k) by {
            assert(k != kh);
            assert(same_row(t, rows, k));
        }
        assert forall|k: (Seq<char>, Seq<char>)| #[trigger] t2.contains_key(k) implies
            rows.contains_key(k) || exists|i: int| 0 <= i < hi && k == #[trigger] tx_key(number, i) by {
            if k != kh {
                assert(t.contains_key(k));
            }
        }
    }
}

/// Rows after deleting the `transactions` rows `lo..hi` of block `number`:
/// each of them is scheduled for deletion without columns; every other row
/// is as before.
pub proof fn lemma_txs_deleted_rows(rows: Rows<Seq<char>>, number: u64, lo: int, hi: int)
    requires
        0 <= lo <= hi,
    ensures
        forall|i: int| lo <= i < hi ==> {
            &&& txs_deleted(rows, number, lo, hi).contains_key(#[trigger] tx_key(number, i))
            &&& txs_deleted(rows, number, lo, hi)[tx_key(number, i)] == (RowOp::Delete, Map::<Seq<char>, Seq<char>>::empty())
        },
        forall|j: int| 0 <= j && (j < lo || j >= hi) ==> same_row(txs_deleted(rows, number, lo, hi), rows, #[trigger] tx_key(number, j)),
        forall|k: (Seq<char>, Seq<char>)| k.0 != transactions_table() ==> same_row(txs_deleted(rows, number, lo, hi), rows, k),
        forall|k: (Seq<char>, Seq<char>)| #[trigger] txs_deleted(rows, number, lo, hi).contains_key(k) ==>
            rows.contains_key(k) || exists|i: int| lo <= i < hi && k == #[trigger] tx_key(number, i),
    decreases hi - lo,
{
    if hi > lo {
        lemma_txs_deleted_rows(rows, number, lo, hi - 1);
        let t = txs_deleted(rows, number, lo, hi - 1);
        let t2 = txs_deleted(rows, number, lo, hi);
        let kh = tx_key(number, hi - 1);
        assert forall|i: int| lo <= i < hi - 1 implies #[trigger] tx_key(number, i) != kh by {
            if tx_key(number, i) == kh {
                lemma_tx_row_id_injective(number, i, hi - 1);
            }
        }
        assert forall|j: int| 0 <= j && (j < lo || j >= hi) implies #[trigger] tx_key(number, j) != kh by {
            if tx_key(number, j) == kh {
                lemma_tx_row_id_injective(number, j, hi - 1);
            }
        }
        assert forall|k: (Seq<char>, Seq<char>)| k.0 != transactions_table() implies same_row(t2, rows, k) by {
            assert(k != kh);
            assert(same_row(t, rows, k));
        }
        assert forall|k: (Seq<char>, Seq<char>)| #[trigger] t2.contains_key(k) implies
            rows.contains_key(k) || exists|i: int| lo <= i < hi && k == #[trigger] tx_key(number, i) by {
            if k != kh {
                assert(t.contains_key(k));
            }
        }
    }
}

/// Creating the `transactions` rows of `txs[lo..hi]` does not panic where
/// each of them may be created.
pub proof fn lemma_txs_create_ok_when(rows: Rows<Seq<char>>, number: u64, txs: Seq<TransactionMeta>, lo: int, hi: int)
    requires
        0 <= lo <= hi <= txs.len(),
        forall|i: int| lo <= i < hi ==> create_allowed(rows, #[trigger] tx_key(number, i)),
    ensures
        txs_create_ok(rows, number, txs, lo, hi),
    decreases hi - lo,
{
    if hi > lo {
        lemma_txs_create_ok_when(rows, number, txs, lo, hi - 1);
        lemma_txs_created_rows(rows, number, txs, lo, hi - 1);
        assert(same_row(txs_created(rows, number, txs, lo, hi - 1), rows, tx_key(number, hi - 1)));
        assert(create_allowed(rows, tx_key(number, hi - 1)));
    }
}

/// Updating the `transactions` rows of `txs[..hi]` does not panic where each
/// of them may be updated.
pub proof fn lemma_txs_update_ok_when(rows: Rows<Seq<char>>, number: u64, txs: Seq<TransactionMeta>, hi: int)
    requires
        0 <= hi <= txs.len(),
        forall|i: int| 0 <= i < hi ==> update_allowed(rows, #[trigger] tx_key(number, i)),
    ensures
        txs_update_ok(rows, number, txs, hi),
    decreases hi,
{
    if hi > 0 {
        lemma_txs_update_ok_when(rows, number, txs, hi - 1);
        lemma_txs_updated_rows(rows, number, txs, hi - 1);
        assert(same_row(txs_updated(rows, number, txs, hi - 1), rows, tx_key(number, hi - 1)));
        assert(update_allowed(rows, tx_key(number, hi - 1)));
    }
}

/// The columns of a `blocks` row have distinct names.
pub proof fn lemma_block_column_names_distinct(m: BlockMeta)
    ensures
        names_distinct(block_columns(m)),
{
    reveal_strlit("hash");
    reveal_strlit("gas_used");
    reveal_strlit("base_fee_per_gas");
    reveal_strlit("timestamp");
    reveal_strlit("min_gas_price");
    reveal_strlit("max_gas_price");
    reveal_strlit("burned_fees");
    reveal_strlit("gas_fees");
    reveal_strlit("miner_tips");
    let b = block_columns(m);
    assert forall|x: int, y: int| 0 <= x < y < b.len() implies #[trigger] b[x].0 != #[trigger] b[y].0 by {
        assert(b[x].0[0] != b[y].0[0] || b[x].0.len() != b[y].0.len() || b[x].0[1] != b[y].0[1]
            || b[x].0[4] != b[y].0[4]);
    }
}

/// The columns of a `transactions` row have distinct names.
pub proof fn lemma_tx_column_names_distinct(tx: TransactionMeta, number: u64)
    ensures
        names_distinct(tx_create_columns(tx, number)),
        names_distinct(tx_update_columns(tx)),
{
    reveal_strlit("hash");
    reveal_strlit("gas_used");
    reveal_strlit("gas_price");
    reveal_strlit("gas_fee");
    reveal_strlit("txn_type");
    reveal_strlit("max_priority_fee_per_gas");
    reveal_strlit("burned_fee");
    reveal_strlit("block_number");
    reveal_strlit("miner_tip");
    let c = tx_create_columns(tx, number);
    assert forall|x: int, y: int| 0 <= x < y < c.len() implies #[trigger] c[x].0 != #[trigger] c[y].0 by {
        assert(c[x].0[0] != c[y].0[0] || c[x].0.len() != c[y].0.len() || c[x].0[1] != c[y].0[1]);
    }
    let u = tx_update_columns(tx);
    assert forall|x: int, y: int| 0 <= x < y < u.len() implies #[trigger] u[x].0 != #[trigger] u[y].0 by {
        assert(u[x].0[0] != u[y].0[0] || u[x].0.len() != u[y].0.len());
    }
}

/// The updatable columns of a `transactions` row hold the values of `tx`.
pub open spec fn holds_tx_values(cols: Map<Seq<char>, Seq<char>>, tx: TransactionMeta) -> bool {
    forall|j: int| 0 <= j < tx_update_columns(tx).len() ==> {
        &&& cols.contains_key(#[trigger] tx_update_columns(tx)[j].0)
        &&& cols[tx_update_columns(tx)[j].0] == tx_update_columns(tx)[j].1
    }
}

/// The columns of a `blocks` row hold the values of `m`.
pub open spec fn holds_block_values(cols: Map<Seq<char>, Seq<char>>, m: BlockMeta) -> bool {
    forall|j: int| 0 <= j < block_columns(m).len() ==> {
        &&& cols.contains_key(#[trigger] block_columns(m)[j].0)
        &&& cols[block_columns(m)[j].0] == block_columns(m)[j].1
    }
}

proof fn lemma_updated_cols_hold(cols: Map<Seq<char>, Seq<char>>, tx: TransactionMeta, number: u64)
    ensures
        holds_tx_values(apply_fields(cols, tx_update_columns(tx)), tx),
        holds_tx_values(apply_fields(cols, tx_create_columns(tx, number)), tx),
{
    lemma_tx_column_names_distinct(tx, number);
    let u = tx_update_columns(tx);
    let c = tx_create_columns(tx, number);
    assert forall|j: int| 0 <= j < u.len() implies {
        &&& apply_fields(cols, u).contains_key(#[trigger] u[j].0)
        &&& apply_fields(cols, u)[u[j].0] == u[j].1
    } by {
        lemma_apply_fields_lookup(cols, u, j);
    }
    assert forall|j: int| 0 <= j < u.len() implies {
        &&& apply_fields(cols, c).contains_key(#[trigger] u[j].0)
        &&& apply_fields(cols, c)[u[j].0] == u[j].1
    } by {
        let jc = if j < 6 { j } else { 8 };
        assert(c[jc] == u[j]);
        lemma_apply_fields_lookup(cols, c, jc);
    }
}

proof fn lemma_block_cols_hold(cols: Map<Seq<char>, Seq<char>>, m: BlockMeta)
    ensures
        holds_block_values(apply_fields(cols, block_columns(m)), m),
{
    lemma_block_column_names_distinct(m);
    let b = block_columns(m);
    assert forall|j: int| 0 <= j < b.len() implies {
        &&& apply_fields(cols, b).contains_key(#[trigger] b[j].0)
        &&& apply_fields(cols, b)[b[j].0] == b[j].1
    } by {
        lemma_apply_fields_lookup(cols, b, j);
    }
}

/// The rows of a block just created in fresh tables: its `blocks` row and a
/// `transactions` row per transaction, all scheduled for creation.
pub open spec fn fresh_block_rows(r: Rows<Seq<char>>, key: Seq<char>, number: u64, count: int) -> bool {
    let kb = (blocks_table(), key);
    &&& r.contains_key(kb)
    &&& r[kb].0 == RowOp::Create
    &&& forall|i: int| 0 <= i < count ==> {
        &&& r.contains_key(#[trigger] tx_key(number, i))
        &&& r[tx_key(number, i)].0 == RowOp::Create
    }
    &&& forall|k: (Seq<char>, Seq<char>)| #[trigger] r.contains_key(k) ==> k == kb || exists|i: int|
        0 <= i < count && k == #[trigger] tx_key(number, i)
}

proof fn lemma_created_fresh(key: Seq<char>, m: BlockMeta)
    ensures
        block_create_ok(Map::empty(), key, m),
        fresh_block_rows(block_created(Map::empty(), key, m), key, m.number, m.txns@.len() as int),
{
    reveal_strlit("blocks");
    reveal_strlit("transactions");
    let e: Rows<Seq<char>> = Map::empty();
    let kb = (blocks_table(), key);
    let n = m.number;
    let lo = m.txns@.len() as int;
    assert(kb.0.len() != transactions_table().len());
    let rb = rows_set_all(rows_create(e, kb), kb, block_columns(m));
    assert(rb.dom() =~= set![kb]);
    assert forall|i: int| 0 <= i < lo implies create_allowed(rb, #[trigger] tx_key(n, i)) by {
        assert(tx_key(n, i) != kb);
    }
    lemma_txs_create_ok_when(rb, n, m.txns@, 0, lo);
    lemma_txs_created_rows(rb, n, m.txns@, 0, lo);
    let r1 = txs_created(rb, n, m.txns@, 0, lo);
    assert(same_row(r1, rb, kb));
    assert forall|i: int| 0 <= i < lo implies {
        &&& r1.contains_key(#[trigger] tx_key(n, i))
        &&& r1[tx_key(n, i)].0 == RowOp::Create
    } by {
        assert(tx_key(n, i) != kb);
        assert(!rb.contains_key(tx_key(n, i)));
    }
    assert forall|k: (Seq<char>, Seq<char>)| #[trigger] r1.contains_key(k) implies k == kb || exists|i: int|
        0 <= i < lo && k == #[trigger] tx_key(n, i) by {
        if k != kb {
            assert(!rb.contains_key(k));
        }
    }
}

/// Law: in fresh database tables, a block that enters the store as `old_m`
/// and is then updated to `new_m`, under one block number, is written
/// without conflict. Afterwards its `blocks` row is scheduled for creation
/// and holds the columns of `new_m`; the `transactions` row of each
/// transaction of `new_m` is scheduled for creation and its updatable
/// columns hold that transaction's values; the row of each transaction of
/// `old_m` beyond those of `new_m` is scheduled for deletion, without
/// columns; and there is no other row.
#[verifier::rlimit(40)]
pub proof fn lemma_create_then_update(key: Seq<char>, old_m: BlockMeta, new_m: BlockMeta)
    requires
        old_m.number == new_m.number,
    ensures
        block_create_ok(Map::empty(), key, old_m),
        block_update_ok(block_created(Map::empty(), key, old_m), key, old_m, new_m),
        ({
            let r = block_updated(block_created(Map::empty(), key, old_m), key, old_m, new_m);
            let kb = (blocks_table(), key);
            let n = new_m.number;
            &&& r.contains_key(kb)
            &&& r[kb].0 == RowOp::Create
            &&& holds_block_values(r[kb].1, new_m)
            &&& forall|i: int| 0 <= i < new_m.txns@.len() ==> {
                &&& r.contains_key(#[trigger] tx_key(n, i))
                &&& r[tx_key(n, i)].0 == RowOp::Create
                &&& holds_tx_values(r[tx_key(n, i)].1, new_m.txns@[i])
            }
            &&& forall|i: int| new_m.txns@.len() <= i < old_m.txns@.len() ==> {
                &&& r.contains_key(#[trigger] tx_key(n, i))
                &&& r[tx_key(n, i)] == (RowOp::Delete, Map::<Seq<char>, Seq<char>>::empty())
            }
            &&& forall|k: (Seq<char>, Seq<char>)| #[trigger] r.contains_key(k) ==> k == kb || exists|i: int|
                0 <= i < old_m.txns@.len() + new_m.txns@.len() && k == #[trigger] tx_key(n, i)
        }),
{
    reveal_strlit("blocks");
    reveal_strlit("transactions");
    let kb = (blocks_table(), key);
    let n = new_m.number;
    let lo = old_m.txns@.len() as int;
    let ln = new_m.txns@.len() as int;
    let m = min_len(lo, ln);
    assert(kb.0.len() != transactions_table().len());
    lemma_created_fresh(key, old_m);
    let r1 = block_created(Map::empty(), key, old_m);

    let u1 = rows_set_all(rows_update(r1, kb), kb, block_columns(new_m));
    lemma_block_cols_hold(r1[kb].1, new_m);
    assert(u1[kb] == (RowOp::Create, apply_fields(r1[kb].1, block_columns(new_m))));
    assert forall|i: int| 0 <= i < m implies update_allowed(u1, #[trigger] tx_key(n, i)) by {
        assert(tx_key(n, i) != kb);
        assert(r1.contains_key(tx_key(n, i)));
    }
    lemma_txs_update_ok_when(u1, n, new_m.txns@, m);
    lemma_txs_updated_rows(u1, n, new_m.txns@, m);
    let u2 = txs_updated(u1, n, new_m.txns@, m);
    lemma_txs_deleted_rows(u2, n, m, lo);
    let u3 = txs_deleted(u2, n, m, lo);
    assert forall|i: int| m <= i < ln implies !u3.contains_key(#[trigger] tx_key(n, i)) by {
        let k = tx_key(n, i);
        assert(same_row(u3, u2, k));
        assert(same_row(u2, u1, k));
        assert(k != kb);
        if r1.contains_key(k) {
            let w = choose|w: int| 0 <= w < lo && k == #[trigger] tx_key(n, w);
            lemma_tx_row_id_injective(n, i, w);
        }
    }
    assert forall|i: int| m <= i < ln implies create_allowed(u3, #[trigger] tx_key(n, i)) by {
        assert(!u3.contains_key(tx_key(n, i)));
    }
    lemma_txs_create_ok_when(u3, n, new_m.txns@, m, ln);
    lemma_txs_created_rows(u3, n, new_m.txns@, m, ln);
    let r = txs_created(u3, n, new_m.txns@, m, ln);
    assert(r == block_updated(r1, key, old_m, new_m));

    assert(same_row(r, u3, kb));
    assert(same_row(u3, u2, kb));
    assert(same_row(u2, u1, kb));

    assert forall|i: int| 0 <= i < ln implies {
        &&& r.contains_key(#[trigger] tx_key(n, i))
        &&& r[tx_key(n, i)].0 == RowOp::Create
        &&& holds_tx_values(r[tx_key(n, i)].1, new_m.txns@[i])
    } by {
        let k = tx_key(n, i);
        assert(k != kb);
        if i < m {
            assert(same_row(r, u3, k));
            assert(same_row(u3, u2, k));
            assert(r1.contains_key(k));
            assert(same_row(u1, r1, k));
            lemma_updated_cols_hold(u1[k].1, new_m.txns@[i], n);
            assert(u2[k] == row_updated(u1, k, tx_update_columns(new_m.txns@[i])));
        } else {
            assert(!u3.contains_key(k));
            lemma_updated_cols_hold(Map::empty(), new_m.txns@[i], n);
        }
    }

    assert forall|i: int| ln <= i < lo implies {
        &&& r.contains_key(#[trigger] tx_key(n, i))
        &&& r[tx_key(n, i)] == (RowOp::Delete, Map::<Seq<char>, Seq<char>>::empty())
    } by {
        assert(same_row(r, u3, tx_key(n, i)));
    }

    assert forall|k: (Seq<char>, Seq<char>)| #[trigger] r.contains_key(k) implies k == kb || exists|i: int|
        0 <= i < lo + ln && k == #[trigger] tx_key(n, i) by {
        if k != kb {
            if !u3.contains_key(k) {
                let w = choose|w: int| m <= w < ln && k == #[trigger] tx_key(n, w);
                assert(0 <= w < lo + ln);
            } else if !u2.contains_key(k) {
                let w = choose|w: int| m <= w < lo && k == #[trigger] tx_key(n, w);
                assert(0 <= w < lo + ln);
            } else if !u1.contains_key(k) {
                let w = choose|w: int| 0 <= w < m && k == #[trigger] tx_key(n, w);
                assert(0 <= w < lo + ln);
            } else {
                assert(r1.contains_key(k));
                let w = choose|w: int| 0 <= w < lo && k == #[trigger] tx_key(n, w);
                assert(0 <= w < lo + ln);
            }
        }
    }
}

/// Every row is scheduled for creation.
pub open spec fn all_created(r: Rows<Seq<char>>) -> bool {
    forall|k: (Seq<char>, Seq<char>)| #[trigger] r.contains_key(k) ==> r[k].0 == RowOp::Create
}

proof fn lemma_block_created_all_created(r: Rows<Seq<char>>, key: Seq<char>, m: BlockMeta)
    requires
        all_created(r),
    ensures
        block_create_ok(r, key, m),
        all_created(block_created(r, key, m)),
{
    let kb = (blocks_table(), key);
    let n = m.number;
    let lo = m.txns@.len() as int;
    let rb = rows_set_all(rows_create(r, kb), kb, block_columns(m));
    assert(all_created(rb));
    assert forall|i: int| 0 <= i < lo implies create_allowed(rb, #[trigger] tx_key(n, i)) by {}
    lemma_txs_create_ok_when(rb, n, m.txns@, 0, lo);
    lemma_txs_created_all_created(rb, n, m.txns@, 0, lo);
}

proof fn lemma_txs_created_all_created(r: Rows<Seq<char>>, number: u64, txs: Seq<TransactionMeta>, lo: int, hi: int)
    requires
        all_created(r),
    ensures
        all_created(txs_created(r, number, txs, lo, hi)),
    decreases hi - lo,
{
    if hi > lo {
        lemma_txs_created_all_created(r, number, txs, lo, hi - 1);
        let t = txs_created(r, number, txs, lo, hi - 1);
        let k = tx_key(number, hi - 1);
        assert(all_created(rows_create(t, k)));
    }
}

/// Law: store deltas that only create blocks never conflict in fresh
/// database tables, whatever their keys and block numbers: every row stays
/// scheduled for creation.
pub proof fn lemma_creations_accepted(ds: Seq<BlockMetaDelta>, n: int)
    requires
        0 <= n <= ds.len(),
        forall|i: int| 0 <= i < n ==> (#[trigger] ds[i]).operation == DeltaOperation::Create,
    ensures
        deltas_ok(Map::empty(), ds, n),
        all_created(deltas_applied(Map::empty(), ds, n)),
    decreases n,
{
    if n > 0 {
        lemma_creations_accepted(ds, n - 1);
        let d = ds[n - 1];
        lemma_block_created_all_created(deltas_applied(Map::empty(), ds, n - 1), d.key@, d.new_value);
    }
}

/// Each column of a `blocks` row holds the block-statistics field of the same
/// name, in decimal or lower-case hexadecimal text.
pub open spec fn block_row_holds(cols: Map<Seq<char>, Seq<char>>, m: BlockMeta) -> bool {
    &&& cols.contains_key("hash"@) && cols["hash"@] == lower_hex(m.hash@)
    &&& cols.contains_key("gas_used"@) && cols["gas_used"@] == int_decimal(m.gas_used as int)
    &&& cols.contains_key("base_fee_per_gas"@) && cols["base_fee_per_gas"@] == lower_hex(m.base_fee_per_gas@)
    &&& cols.contains_key("timestamp"@) && cols["timestamp"@] == int_decimal(m.timestamp as int)
    &&& cols.contains_key("min_gas_price"@) && cols["min_gas_price"@] == lower_hex(m.min_gas_price@)
    &&& cols.contains_key("max_gas_price"@) && cols["max_gas_price"@] == lower_hex(m.max_gas_price@)
    &&& cols.contains_key("burned_fees"@) && cols["burned_fees"@] == lower_hex(m.burned_fees@)
    &&& cols.contains_key("gas_fees"@) && cols["gas_fees"@] == lower_hex(m.gas_fees@)
    &&& cols.contains_key("miner_tips"@) && cols["miner_tips"@] == lower_hex(m.miner_tips@)
}

proof fn lemma_block_values_row_holds(cols: Map<Seq<char>, Seq<char>>, m: BlockMeta)
    requires
        holds_block_values(cols, m),
    ensures
        block_row_holds(cols, m),
{
    let b = block_columns(m);
    assert(b[0].0 == "hash"@ && b[0].1 == lower_hex(m.hash@));
    assert(b[1].0 == "gas_used"@);
    assert(b[2].0 == "base_fee_per_gas"@);
    assert(b[3].0 == "timestamp"@);
    assert(b[4].0 == "min_gas_price"@);
    assert(b[5].0 == "max_gas_price"@);
    assert(b[6].0 == "burned_fees"@);
    assert(b[7].0 == "gas_fees"@);
    assert(b[8].0 == "miner_tips"@);
}

/// Law: when a block enters the store, its `blocks` row holds in each column
/// the field of the same name of the block's statistics (`min_gas_price`
/// the smallest gas price, `max_gas_price` the largest, and so on).
pub proof fn lemma_created_block_row(rows: Rows<Seq<char>>, key: Seq<char>, m: BlockMeta)
    ensures
        block_created(rows, key, m).contains_key((blocks_table(), key)),
        block_row_holds(block_created(rows, key, m)[(blocks_table(), key)].1, m),
{
    reveal_strlit("blocks");
    reveal_strlit("transactions");
    let kb = (blocks_table(), key);
    assert(kb.0.len() != transactions_table().len());
    let rb = rows_set_all(rows_create(rows, kb), kb, block_columns(m));
    lemma_block_cols_hold(rows_create(rows, kb)[kb].1, m);
    lemma_block_values_row_holds(rb[kb].1, m);
    lemma_txs_created_rows(rb, m.number, m.txns@, 0, m.txns@.len() as int);
    assert(same_row(block_created(rows, key, m), rb, kb));
}

/// Law: when a block's value changes to `new_m`, its `blocks` row holds in
/// each column the field of the same name of `new_m`.
pub proof fn lemma_updated_block_row(rows: Rows<Seq<char>>, key: Seq<char>, old_m: BlockMeta, new_m: BlockMeta)
    ensures
        block_updated(rows, key, old_m, new_m).contains_key((blocks_table(), key)),
        block_row_holds(block_updated(rows, key, old_m, new_m)[(blocks_table(), key)].1, new_m),
{
    reveal_strlit("blocks");
    reveal_strlit("transactions");
    let kb = (blocks_table(), key);
    assert(kb.0.len() != transactions_table().len());
    let n = min_len(old_m.txns@.len() as int, new_m.txns@.len() as int);
    let r1 = rows_set_all(rows_update(rows, kb), kb, block_columns(new_m));
    lemma_block_cols_hold(rows_update(rows, kb)[kb].1, new_m);
    lemma_block_values_row_holds(r1[kb].1, new_m);
    lemma_txs_updated_rows(r1, new_m.number, new_m.txns@, n);
    let r2 = txs_updated(r1, new_m.number, new_m.txns@, n);
    assert(same_row(r2, r1, kb));
    lemma_txs_deleted_rows(r2, old_m.number, n, old_m.txns@.len() as int);
    let r3 = txs_deleted(r2, old_m.number, n, old_m.txns@.len() as int);
    assert(same_row(r3, r2, kb));
    lemma_txs_created_rows(r3, new_m.number, new_m.txns@, n, new_m.txns@.len() as int);
    assert(same_row(block_updated(rows, key, old_m, new_m), r3, kb));
}

/// Each column of a new `transactions` row holds the field of the same name
/// of the transaction's statistics, and `block_number` the block's number.
pub open spec fn tx_row_holds(cols: Map<Seq<char>, Seq<char>>, tx: TransactionMeta, number: u64) -> bool {
    &&& cols.contains_key("gas_used"@) && cols["gas_used"@] == int_decimal(tx.gas_used as int)
    &&& cols.contains_key("gas_price"@) && cols["gas_price"@] == lower_hex(tx.gas_price@)
    &&& cols.contains_key("gas_fee"@) && cols["gas_fee"@] == lower_hex(tx.gas_fee@)
    &&& cols.contains_key("txn_type"@) && cols["txn_type"@] == int_decimal(tx.txn_type as int)
    &&& cols.contains_key("max_priority_fee_per_gas"@) && cols["max_priority_fee_per_gas"@] == lower_hex(
        tx.max_priority_fee_per_gas@,
    )
    &&& cols.contains_key("burned_fee"@) && cols["burned_fee"@] == lower_hex(tx.burned_fee@)
    &&& cols.contains_key("block_number"@) && cols["block_number"@] == int_decimal(number as int)
    &&& cols.contains_key("hash"@) && cols["hash"@] == lower_hex(tx.hash@)
    &&& cols.contains_key("miner_tip"@) && cols["miner_tip"@] == lower_hex(tx.miner_tip@)
}

/// Law: when a block enters the store, the `transactions` row
/// `{number}_{i}` of its `i`-th transaction holds in each column the field of
/// the same name of that transaction's statistics, and the block number.
pub proof fn lemma_created_tx_rows(rows: Rows<Seq<char>>, key: Seq<char>, m: BlockMeta)
    ensures
        forall|i: int| 0 <= i < m.txns@.len() ==> {
            &&& block_created(rows, key, m).contains_key(#[trigger] tx_key(m.number, i))
            &&& tx_row_holds(block_created(rows, key, m)[tx_key(m.number, i)].1, m.txns@[i], m.number)
        },
{
    let kb = (blocks_table(), key);
    let rb = rows_set_all(rows_create(rows, kb), kb, block_columns(m));
    lemma_txs_created_rows(rb, m.number, m.txns@, 0, m.txns@.len() as int);
    assert forall|i: int| 0 <= i < m.txns@.len() implies {
        &&& block_created(rows, key, m).contains_key(#[trigger] tx_key(m.number, i))
        &&& tx_row_holds(block_created(rows, key, m)[tx_key(m.number, i)].1, m.txns@[i], m.number)
    } by {
        let tx = m.txns@[i];
        let c = tx_create_columns(tx, m.number);
        let base = if rb.contains_key(tx_key(m.number, i)) {
            rb[tx_key(m.number, i)].1
        } else {
            Map::<Seq<char>, Seq<char>>::empty()
        };
        lemma_tx_column_names_distinct(tx, m.number);
        assert forall|j: int| 0 <= j < c.len() implies {
            &&& apply_fields(base, c).contains_key(#[trigger] c[j].0)
            &&& apply_fields(base, c)[c[j].0] == c[j].1
        } by {
            lemma_apply_fields_lookup(base, c, j);
        }
        assert(c[0].0 == "gas_used"@);
        assert(c[1].0 == "gas_price"@);
        assert(c[2].0 == "gas_fee"@);
        assert(c[3].0 == "txn_type"@);
        assert(c[4].0 == "max_priority_fee_per_gas"@);
        assert(c[5].0 == "burned_fee"@);
        assert(c[6].0 == "block_number"@);
        assert(c[7].0 == "hash"@);
        assert(c[8].0 == "miner_tip"@);
    }
}

} // verus!
