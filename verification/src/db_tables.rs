//! The row changes of `substreams_database_change::tables::Tables`, behind
//! trusted items whose contracts follow that crate's source. The `Tables`
//! value is held in a private field, so that its rows change only through
//! the methods below.
use crate::rows::{create_allowed, rows_create, rows_delete, rows_set, rows_update, update_allowed, RowOp, Rows};
use substreams_database_change::pb::database::DatabaseChanges;
use substreams_database_change::tables::{PrimaryKey, Tables};
use vstd::prelude::*;

verus! {

#[verifier::external_type_specification]
#[verifier::external_body]
pub struct ExDatabaseChanges(DatabaseChanges);

/// Database row changes being collected: a `Tables` of
/// `substreams_database_change`, reachable only through this module.
#[verifier::external_body]
pub struct DatabaseTables {
    tables: Tables,
}

/// The rows that a `DatabaseTables` holds: for each table name and single
/// primary key, the scheduled operation and the text of each column set.
pub uninterp spec fn db_rows(t: DatabaseTables) -> Rows<Seq<char>>;

/// The changes that a `DatabaseChanges` lists, by table name and single
/// primary key: the operation and the new text of each field, whatever the
/// order of the list.
pub uninterp spec fn db_change_rows(c: DatabaseChanges) -> Rows<Seq<char>>;

/// `Tables::new`: no rows.
#[verifier::external_body]
pub(crate) fn db_tables_new() -> (r: DatabaseTables)
    ensures
        db_rows(r).dom().is_empty(),
{
    DatabaseTables { tables: Tables::new() }
}

/// `Tables::create_row` with a single key: schedules a new row for creation;
/// a row already scheduled for creation is left as it is. It panics on a row
/// scheduled for update or deletion, which `requires` leaves out.
#[verifier::external_body]
pub(crate) fn db_create_row(t: &mut DatabaseTables, table: &str, key: &str)
    requires
        create_allowed(db_rows(*old(t)), (table@, key@)),
    ensures
        db_rows(*final(t)) == rows_create(db_rows(*old(t)), (table@, key@)),
{
    t.tables.create_row(table, key);
}

/// `Tables::update_row` with a single key: schedules a new row for update;
/// an existing row is left as it is. It panics on a row scheduled for
/// deletion, which `requires` leaves out.
#[verifier::external_body]
pub(crate) fn db_update_row(t: &mut DatabaseTables, table: &str, key: &str)
    requires
        update_allowed(db_rows(*old(t)), (table@, key@)),
    ensures
        db_rows(*final(t)) == rows_update(db_rows(*old(t)), (table@, key@)),
{
    t.tables.update_row(table, key);
}

/// `Tables::delete_row` with a single key: schedules the row for deletion and
/// drops its columns.
#[verifier::external_body]
pub(crate) fn db_delete_row(t: &mut DatabaseTables, table: &str, key: &str)
    ensures
        db_rows(*final(t)) == rows_delete(db_rows(*old(t)), (table@, key@)),
{
    t.tables.delete_row::<PrimaryKey>(table, PrimaryKey::Single(key.to_string()));
}

/// `Row::set` with a `String` value, on the row that `Tables::update_row`
/// reaches: the column `name` of that row holds `value`.
#[verifier::external_body]
pub(crate) fn db_set(t: &mut DatabaseTables, table: &str, key: &str, name: &str, value: String)
    requires
        update_allowed(db_rows(*old(t)), (table@, key@)),
    ensures
        db_rows(*final(t)) == rows_set(db_rows(*old(t)), (table@, key@), name@, value@),
{
    t.tables.update_row(table, key).set(name, value);
}

/// `Tables::to_database_changes`: one change per row, with its operation
/// and its columns as fields. The order of the changes and of their fields
/// follows the walk of the hash maps inside `Tables`, which is left unsaid.
#[verifier::external_body]
pub(crate) fn db_to_database_changes(t: DatabaseTables) -> (r: DatabaseChanges)
    ensures
        db_change_rows(r) == db_rows(t),
{
    t.tables.to_database_changes()
}

impl DatabaseTables {
    /// No rows yet.
    pub fn new() -> (r: DatabaseTables)
        ensures
            db_rows(r) == Map::<(Seq<char>, Seq<char>), (RowOp, Map<Seq<char>, Seq<char>>)>::empty(),
    {
        let r = db_tables_new();
        assert(db_rows(r) =~= Map::empty());
        r
    }

    /// The collected changes, one per row.
    pub fn to_database_changes(self) -> (r: DatabaseChanges)
        ensures
            db_change_rows(r) == db_rows(self),
    {
        db_to_database_changes(self)
    }
}

} // verus!
