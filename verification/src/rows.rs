//! Model of the row changes that a table collection accumulates: each
//! (table, primary key) pair holds an operation and the columns set on it.
use vstd::prelude::*;

verus! {

/// Operation scheduled on a row.
#[derive(PartialEq, Eq, Structural, Clone, Copy, Debug)]
pub enum RowOp {
    Create,
    Update,
    Delete,
}

/// Rows of a table collection, by (table name, primary key).
pub type Rows<V> = Map<(Seq<char>, Seq<char>), (RowOp, Map<Seq<char>, V>)>;

/// `create_row` does not panic: the row is new or already scheduled for creation.
pub open spec fn create_allowed<V>(rows: Rows<V>, k: (Seq<char>, Seq<char>)) -> bool {
    !rows.contains_key(k) || rows[k].0 == RowOp::Create
}

/// `update_row` (and setting a column) does not panic: the row is not scheduled
/// for deletion.
pub open spec fn update_allowed<V>(rows: Rows<V>, k: (Seq<char>, Seq<char>)) -> bool {
    !rows.contains_key(k) || rows[k].0 != RowOp::Delete
}

/// Effect of `create_row`: a new row is scheduled for creation with no
/// columns; a row already scheduled for creation stays as it is.
pub open spec fn rows_create<V>(rows: Rows<V>, k: (Seq<char>, Seq<char>)) -> Rows<V> {
    if rows.contains_key(k) {
        rows
    } else {
        rows.insert(k, (RowOp::Create, Map::empty()))
    }
}

/// Effect of `update_row`: a new row is scheduled for update with no
/// columns; an existing row stays as it is.
pub open spec fn rows_update<V>(rows: Rows<V>, k: (Seq<char>, Seq<char>)) -> Rows<V> {
    if rows.contains_key(k) {
        rows
    } else {
        rows.insert(k, (RowOp::Update, Map::empty()))
    }
}

/// Effect of `delete_row`: the row is scheduled for deletion and its columns dropped.
pub open spec fn rows_delete<V>(rows: Rows<V>, k: (Seq<char>, Seq<char>)) -> Rows<V> {
    rows.insert(k, (RowOp::Delete, Map::empty()))
}

/// Effect of setting column `name` to `v` on the row reached by `update_row`.
pub open spec fn rows_set<V>(rows: Rows<V>, k: (Seq<char>, Seq<char>), name: Seq<char>, v: V) -> Rows<V> {
    let r = rows_update(rows, k);
    r.insert(k, (r[k].0, r[k].1.insert(name, v)))
}

/// Columns after setting each (name, value) of `fields` in order.
pub open spec fn apply_fields<V>(cols: Map<Seq<char>, V>, fields: Seq<(Seq<char>, V)>) -> Map<Seq<char>, V>
    decreases fields.len(),
{
    if fields.len() == 0 {
        cols
    } else {
        apply_fields(cols, fields.drop_last()).insert(fields.last().0, fields.last().1)
    }
}

/// Effect of setting every column of `fields`, in order, on the existing row `k`.
pub open spec fn rows_set_all<V>(rows: Rows<V>, k: (Seq<char>, Seq<char>), fields: Seq<(Seq<char>, V)>) -> Rows<V> {
    rows.insert(k, (rows[k].0, apply_fields(rows[k].1, fields)))
}

pub proof fn lemma_set_all_step<V>(rows: Rows<V>, k: (Seq<char>, Seq<char>), fields: Seq<(Seq<char>, V)>, i: int)
    requires
        rows.contains_key(k),
        0 <= i < fields.len(),
    ensures
        rows_set(rows_set_all(rows, k, fields.take(i)), k, fields[i].0, fields[i].1)
            == rows_set_all(rows, k, fields.take(i + 1)),
{
    assert(fields.take(i + 1).drop_last() =~= fields.take(i));
    let a = rows_set(rows_set_all(rows, k, fields.take(i)), k, fields[i].0, fields[i].1);
    let b = rows_set_all(rows, k, fields.take(i + 1));
    assert(a =~= b);
}

/// The operation scheduled on each row, without the columns.
pub open spec fn ops_of<V>(rows: Rows<V>) -> Map<(Seq<char>, Seq<char>), RowOp> {
    rows.map_values(|v: (RowOp, Map<Seq<char>, V>)| v.0)
}

/// How each row change acts on the scheduled operations: setting columns
/// leaves them as they are, and the rest depends on the operations alone.
pub proof fn lemma_ops_of_steps<V>(rows: Rows<V>, k: (Seq<char>, Seq<char>), fields: Seq<(Seq<char>, V)>)
    ensures
        ops_of(rows_create(rows, k)) == (if rows.contains_key(k) {
            ops_of(rows)
        } else {
            ops_of(rows).insert(k, RowOp::Create)
        }),
        ops_of(rows_update(rows, k)) == (if rows.contains_key(k) {
            ops_of(rows)
        } else {
            ops_of(rows).insert(k, RowOp::Update)
        }),
        ops_of(rows_delete(rows, k)) == ops_of(rows).insert(k, RowOp::Delete),
        rows.contains_key(k) ==> ops_of(rows_set_all(rows, k, fields)) == ops_of(rows),
        create_allowed(rows, k) == (!ops_of(rows).contains_key(k) || ops_of(rows)[k] == RowOp::Create),
        update_allowed(rows, k) == (!ops_of(rows).contains_key(k) || ops_of(rows)[k] != RowOp::Delete),
{
    assert(ops_of(rows_create(rows, k)) =~= (if rows.contains_key(k) {
        ops_of(rows)
    } else {
        ops_of(rows).insert(k, RowOp::Create)
    }));
    assert(ops_of(rows_update(rows, k)) =~= (if rows.contains_key(k) {
        ops_of(rows)
    } else {
        ops_of(rows).insert(k, RowOp::Update)
    }));
    assert(ops_of(rows_delete(rows, k)) =~= ops_of(rows).insert(k, RowOp::Delete));
    if rows.contains_key(k) {
        assert(ops_of(rows_set_all(rows, k, fields)) =~= ops_of(rows));
    }
}

/// No column name occurs twice in `fields`.
pub open spec fn names_distinct<V>(fields: Seq<(Seq<char>, V)>) -> bool {
    forall|a: int, b: int| 0 <= a < b < fields.len() ==> #[trigger] fields[a].0 != #[trigger] fields[b].0
}

/// Where no name occurs twice, each column given is set to its value.
pub proof fn lemma_apply_fields_lookup<V>(cols: Map<Seq<char>, V>, fields: Seq<(Seq<char>, V)>, j: int)
    requires
        names_distinct(fields),
        0 <= j < fields.len(),
    ensures
        apply_fields(cols, fields).contains_key(fields[j].0),
        apply_fields(cols, fields)[fields[j].0] == fields[j].1,
    decreases fields.len(),
{
    if j < fields.len() - 1 {
        let d = fields.drop_last();
        assert(d[j] == fields[j]);
        assert forall|a: int, b: int| 0 <= a < b < d.len() implies #[trigger] d[a].0 != #[trigger] d[b].0 by {
            assert(d[a] == fields[a] && d[b] == fields[b]);
        }
        lemma_apply_fields_lookup(cols, d, j);
        assert(fields[fields.len() - 1] == fields.last());
        assert(fields.last().0 != fields[j].0);
    }
}

/// Setting `a` then `b` is setting `a + b`.
pub proof fn lemma_apply_fields_concat<V>(cols: Map<Seq<char>, V>, a: Seq<(Seq<char>, V)>, b: Seq<(Seq<char>, V)>)
    ensures
        apply_fields(cols, a + b) == apply_fields(apply_fields(cols, a), b),
    decreases b.len(),
{
    if b.len() == 0 {
        assert(a + b =~= a);
    } else {
        lemma_apply_fields_concat(cols, a, b.drop_last());
        assert((a + b).drop_last() =~= a + b.drop_last());
        assert((a + b).last() == b.last());
    }
}

/// Setting `fields` leaves a column that none of them names as it was.
pub proof fn lemma_apply_fields_other<V>(cols: Map<Seq<char>, V>, fields: Seq<(Seq<char>, V)>, name: Seq<char>)
    requires
        forall|j: int| 0 <= j < fields.len() ==> (#[trigger] fields[j]).0 != name,
    ensures
        apply_fields(cols, fields).contains_key(name) == cols.contains_key(name),
        cols.contains_key(name) ==> apply_fields(cols, fields)[name] == cols[name],
    decreases fields.len(),
{
    if fields.len() > 0 {
        let d = fields.drop_last();
        assert forall|j: int| 0 <= j < d.len() implies (#[trigger] d[j]).0 != name by {
            assert(d[j] == fields[j]);
        }
        lemma_apply_fields_other(cols, d, name);
        assert(fields[fields.len() - 1] == fields.last());
    }
}

} // verus!
