//! Tells, before writing, whether a list of store deltas can be written to
//! the database tables without a conflicting row operation.
use crate::block::{BlockMeta, TransactionMeta};
use crate::db_out::{
    block_create_ok, block_created, block_update_ok, block_updated, blocks_table, deltas_applied,
    deltas_ok, delta_applied, delta_ok, lemma_deltas_ok_prefix, lemma_txs_create_ok_prefix,
    lemma_txs_update_ok_prefix, min_len, name, transactions_table, tx_id, txs_create_ok, txs_created,
    txs_deleted, txs_update_ok, txs_updated, BlockMetaDelta, DeltaOperation,
};
use crate::rows::{lemma_ops_of_steps, ops_of, rows_create, rows_set_all, rows_update, RowOp, Rows};
use vstd::prelude::*;

verus! {

/// A scheduled operation: table, primary key, operation.
type OpEntry = (String, String, RowOp);

/// The operations that a list of entries schedules; a later entry for the
/// same row replaces an earlier one.
spec fn entries_map(s: Seq<OpEntry>) -> Map<(Seq<char>, Seq<char>), RowOp>
    decreases s.len(),
{
    if s.len() == 0 {
        Map::empty()
    } else {
        entries_map(s.drop_last()).insert((s.last().0@, s.last().1@), s.last().2)
    }
}

proof fn lemma_entries_push(s: Seq<OpEntry>, e: OpEntry)
    ensures
        entries_map(s.push(e)) == entries_map(s).insert((e.0@, e.1@), e.2),
{
    assert(s.push(e).drop_last() =~= s);
}

proof fn lemma_entries_suffix(s: Seq<OpEntry>, i: int, k: (Seq<char>, Seq<char>))
    requires
        0 <= i <= s.len(),
        forall|j: int| i <= j < s.len() ==> (#[trigger] s[j].0@, s[j].1@) != k,
    ensures
        entries_map(s).contains_key(k) == entries_map(s.take(i)).contains_key(k),
        entries_map(s).contains_key(k) ==> entries_map(s)[k] == entries_map(s.take(i))[k],
    decreases s.len(),
{
    if s.len() == i {
        assert(s.take(i) =~= s);
    } else {
        let t = s.drop_last();
        assert(t.take(i) =~= s.take(i));
        assert forall|j: int| i <= j < t.len() implies (#[trigger] t[j].0@, t[j].1@) != k by {
            assert(t[j] == s[j]);
        }
        lemma_entries_suffix(t, i, k);
        assert(s[s.len() - 1] == s.last());
    }
}

proof fn lemma_entries_at(s: Seq<OpEntry>, i: int)
    requires
        0 <= i < s.len(),
    ensures
        entries_map(s.take(i + 1)) == entries_map(s.take(i)).insert((s[i].0@, s[i].1@), s[i].2),
{
    assert(s.take(i + 1).drop_last() =~= s.take(i));
}

/// The operation scheduled on row (`table`, `key`), if any.
fn lookup(ops: &Vec<OpEntry>, table: &String, key: &String) -> (r: Option<RowOp>)
    ensures
        r == (if entries_map(ops@).contains_key((table@, key@)) {
            Some(entries_map(ops@)[(table@, key@)])
        } else {
            None::<RowOp>
        }),
{
    let ghost k = (table@, key@);
    let mut i: usize = ops.len();
    while i > 0
        invariant
            i <= ops@.len(),
            k == (table@, key@),
            forall|j: int| i <= j < ops@.len() ==> (#[trigger] ops@[j].0@, ops@[j].1@) != k,
        decreases i,
    {
        let e = &ops[i - 1];
        if e.0 == *table && e.1 == *key {
            proof {
                lemma_entries_suffix(ops@, i as int, k);
                lemma_entries_at(ops@, i - 1);
            }
            return Some(e.2);
        }
        i -= 1;
    }
    proof {
        lemma_entries_suffix(ops@, 0, k);
        assert(ops@.take(0) =~= Seq::<OpEntry>::empty());
    }
    None
}

/// Schedules `op` on row (`table`, `key`).
fn schedule(ops: &mut Vec<OpEntry>, table: &String, key: String, op: RowOp)
    ensures
        entries_map(final(ops)@) == entries_map(old(ops)@).insert((table@, key@), op),
{
    let e = (table.clone(), key, op);
    proof {
        lemma_entries_push(ops@, e);
    }
    ops.push(e);
}

/// Creating row (`table`, `key`) on the scheduled operations: `false`, with
/// nothing changed, where the row is scheduled for update or deletion.
fn create_checked(ops: &mut Vec<OpEntry>, table: &String, key: String, Ghost(r): Ghost<Rows<Seq<char>>>) -> (ok: bool)
    requires
        entries_map(old(ops)@) == ops_of(r),
    ensures
        ok == crate::rows::create_allowed(r, (table@, key@)),
        ok ==> entries_map(final(ops)@) == ops_of(rows_create(r, (table@, key@))),
{
    proof {
        lemma_ops_of_steps(r, (table@, key@), Seq::<(Seq<char>, Seq<char>)>::empty());
    }
    match lookup(ops, table, &key) {
        None => {
            schedule(ops, table, key, RowOp::Create);
            true
        },
        Some(RowOp::Create) => true,
        Some(_) => false,
    }
}

/// Updating row (`table`, `key`) on the scheduled operations: `false`, with
/// nothing changed, where the row is scheduled for deletion.
fn update_checked(ops: &mut Vec<OpEntry>, table: &String, key: String, Ghost(r): Ghost<Rows<Seq<char>>>) -> (ok: bool)
    requires
        entries_map(old(ops)@) == ops_of(r),
    ensures
        ok == crate::rows::update_allowed(r, (table@, key@)),
        ok ==> entries_map(final(ops)@) == ops_of(rows_update(r, (table@, key@))),
{
    proof {
        lemma_ops_of_steps(r, (table@, key@), Seq::<(Seq<char>, Seq<char>)>::empty());
    }
    match lookup(ops, table, &key) {
        None => {
            schedule(ops, table, key, RowOp::Update);
            true
        },
        Some(RowOp::Delete) => false,
        Some(_) => true,
    }
}

/// Creation of the `transactions` rows of `txs[lo..]` on the scheduled operations.
fn txs_create_checked(
    ops: &mut Vec<OpEntry>,
    tx_table: &String,
    number: u64,
    txs: &Vec<TransactionMeta>,
    lo: usize,
    Ghost(r): Ghost<Rows<Seq<char>>>,
) -> (ok: bool)
    requires
        entries_map(old(ops)@) == ops_of(r),
        tx_table@ == transactions_table(),
        lo <= txs@.len(),
    ensures
        ok == txs_create_ok(r, number, txs@, lo as int, txs@.len() as int),
        ok ==> entries_map(final(ops)@) == ops_of(txs_created(r, number, txs@, lo as int, txs@.len() as int)),
{
    let mut i: usize = lo;
    while i < txs.len()
        invariant
            lo <= i <= txs@.len(),
            tx_table@ == transactions_table(),
            txs_create_ok(r, number, txs@, lo as int, i as int),
            entries_map(ops@) == ops_of(txs_created(r, number, txs@, lo as int, i as int)),
        decreases txs@.len() - i,
    {
        let ghost before = txs_created(r, number, txs@, lo as int, i as int);
        let id = tx_id(number, i);
        let ghost k = (tx_table@, id@);
        proof {
            lemma_ops_of_steps(rows_create(before, k), k, crate::db_out::tx_create_columns(txs@[i as int], number));
            lemma_ops_of_steps(before, k, Seq::<(Seq<char>, Seq<char>)>::empty());
        }
        if !create_checked(ops, tx_table, id, Ghost(before)) {
            proof {
                if txs_create_ok(r, number, txs@, lo as int, txs@.len() as int) {
                    lemma_txs_create_ok_prefix(r, number, txs@, lo as int, i as int + 1, txs@.len() as int);
                }
            }
            return false;
        }
        i += 1;
    }
    true
}

/// Update of the `transactions` rows of `txs[..n]` on the scheduled operations.
fn txs_update_checked(
    ops: &mut Vec<OpEntry>,
    tx_table: &String,
    number: u64,
    txs: &Vec<TransactionMeta>,
    n: usize,
    Ghost(r): Ghost<Rows<Seq<char>>>,
) -> (ok: bool)
    requires
        entries_map(old(ops)@) == ops_of(r),
        tx_table@ == transactions_table(),
        n <= txs@.len(),
    ensures
        ok == txs_update_ok(r, number, txs@, n as int),
        ok ==> entries_map(final(ops)@) == ops_of(txs_updated(r, number, txs@, n as int)),
{
    let mut i: usize = 0;
    while i < n
        invariant
            i <= n <= txs@.len(),
            tx_table@ == transactions_table(),
            txs_update_ok(r, number, txs@, i as int),
            entries_map(ops@) == ops_of(txs_updated(r, number, txs@, i as int)),
        decreases n - i,
    {
        let ghost before = txs_updated(r, number, txs@, i as int);
        let id = tx_id(number, i);
        let ghost k = (tx_table@, id@);
        proof {
            lemma_ops_of_steps(rows_update(before, k), k, crate::db_out::tx_update_columns(txs@[i as int]));
            lemma_ops_of_steps(before, k, Seq::<(Seq<char>, Seq<char>)>::empty());
        }
        if !update_checked(ops, tx_table, id, Ghost(before)) {
            proof {
                if txs_update_ok(r, number, txs@, n as int) {
                    lemma_txs_update_ok_prefix(r, number, txs@, i as int + 1, n as int);
                }
            }
            return false;
        }
        i += 1;
    }
    true
}

/// Deletion of the `transactions` rows `lo..hi` of block `number` on the
/// scheduled operations; deletion never conflicts.
fn txs_delete_checked(ops: &mut Vec<OpEntry>, tx_table: &String, number: u64, lo: usize, hi: usize, Ghost(r): Ghost<Rows<Seq<char>>>)
    requires
        entries_map(old(ops)@) == ops_of(r),
        tx_table@ == transactions_table(),
    ensures
        entries_map(final(ops)@) == ops_of(txs_deleted(r, number, lo as int, hi as int)),
{
    let mut i: usize = lo;
    if hi <= lo {
        return;
    }
    while i < hi
        invariant
            lo <= i <= hi,
            tx_table@ == transactions_table(),
            entries_map(ops@) == ops_of(txs_deleted(r, number, lo as int, i as int)),
        decreases hi - i,
    {
        let ghost before = txs_deleted(r, number, lo as int, i as int);
        let id = tx_id(number, i);
        proof {
            lemma_ops_of_steps(before, (tx_table@, id@), Seq::<(Seq<char>, Seq<char>)>::empty());
        }
        schedule(ops, tx_table, id, RowOp::Delete);
        i += 1;
    }
}

fn create_block_checked(ops: &mut Vec<OpEntry>, key: &String, m: &BlockMeta, Ghost(r): Ghost<Rows<Seq<char>>>) -> (ok: bool)
    requires
        entries_map(old(ops)@) == ops_of(r),
    ensures
        ok == block_create_ok(r, key@, *m),
        ok ==> entries_map(final(ops)@) == ops_of(block_created(r, key@, *m)),
{
    let blocks = name("blocks");
    let tx_table = name("transactions");
    let ghost k = (blocks_table(), key@);
    proof {
        reveal_strlit("blocks");
        reveal_strlit("transactions");
        lemma_ops_of_steps(rows_create(r, k), k, crate::db_out::block_columns(*m));
    }
    if !create_checked(ops, &blocks, key.clone(), Ghost(r)) {
        return false;
    }
    let ghost r1 = rows_set_all(rows_create(r, k), k, crate::db_out::block_columns(*m));
    txs_create_checked(ops, &tx_table, m.number, &m.txns, 0, Ghost(r1))
}

fn update_block_checked(
    ops: &mut Vec<OpEntry>,
    key: &String,
    old_m: &BlockMeta,
    new_m: &BlockMeta,
    Ghost(r): Ghost<Rows<Seq<char>>>,
) -> (ok: bool)
    requires
        entries_map(old(ops)@) == ops_of(r),
    ensures
        ok == block_update_ok(r, key@, *old_m, *new_m),
        ok ==> entries_map(final(ops)@) == ops_of(block_updated(r, key@, *old_m, *new_m)),
{
    let blocks = name("blocks");
    let tx_table = name("transactions");
    let ghost k = (blocks_table(), key@);
    proof {
        reveal_strlit("blocks");
        reveal_strlit("transactions");
        lemma_ops_of_steps(rows_update(r, k), k, crate::db_out::block_columns(*new_m));
    }
    if !update_checked(ops, &blocks, key.clone(), Ghost(r)) {
        return false;
    }
    let n: usize = if old_m.txns.len() < new_m.txns.len() {
        old_m.txns.len()
    } else {
        new_m.txns.len()
    };
    assert(n as int == min_len(old_m.txns@.len() as int, new_m.txns@.len() as int));
    let ghost r1 = rows_set_all(rows_update(r, k), k, crate::db_out::block_columns(*new_m));
    if !txs_update_checked(ops, &tx_table, new_m.number, &new_m.txns, n, Ghost(r1)) {
        return false;
    }
    let ghost r2 = txs_updated(r1, new_m.number, new_m.txns@, n as int);
    txs_delete_checked(ops, &tx_table, old_m.number, n, old_m.txns.len(), Ghost(r2));
    let ghost r3 = txs_deleted(r2, old_m.number, n as int, old_m.txns@.len() as int);
    txs_create_checked(ops, &tx_table, new_m.number, &new_m.txns, n, Ghost(r3))
}

/// Whether the store deltas `deltas` can be written, in order, to empty
/// database tables: each is a creation or an update, and none creates a row
/// already scheduled for update or deletion, or updates a row scheduled for
/// deletion.
pub fn deltas_accepted(deltas: &Vec<BlockMetaDelta>) -> (ok: bool)
    ensures
        ok == deltas_ok(Map::empty(), deltas@, deltas@.len() as int),
{
    let ghost r0: Rows<Seq<char>> = Map::empty();
    let mut ops: Vec<OpEntry> = Vec::new();
    assert(entries_map(ops@) =~= ops_of(r0));
    let mut i: usize = 0;
    while i < deltas.len()
        invariant
            i <= deltas@.len(),
            r0 == Map::<(Seq<char>, Seq<char>), (RowOp, Map<Seq<char>, Seq<char>>)>::empty(),
            deltas_ok(r0, deltas@, i as int),
            entries_map(ops@) == ops_of(deltas_applied(r0, deltas@, i as int)),
        decreases deltas@.len() - i,
    {
        let ghost before = deltas_applied(r0, deltas@, i as int);
        let d = &deltas[i];
        let ok = match d.operation {
            DeltaOperation::Create => create_block_checked(&mut ops, &d.key, &d.new_value, Ghost(before)),
            DeltaOperation::Update => update_block_checked(&mut ops, &d.key, &d.old_value, &d.new_value, Ghost(before)),
            _ => false,
        };
        assert(ok == delta_ok(before, deltas@[i as int]));
        if !ok {
            proof {
                if deltas_ok(r0, deltas@, deltas@.len() as int) {
                    lemma_deltas_ok_prefix(r0, deltas@, i as int + 1, deltas@.len() as int);
                }
            }
            return false;
        }
        assert(delta_applied(before, deltas@[i as int]) == deltas_applied(r0, deltas@, i as int + 1));
        i += 1;
    }
    true
}

} // verus!
