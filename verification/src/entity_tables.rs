//! The row changes of `substreams_entity_change::tables::Tables`, behind
//! trusted items whose contracts follow that crate's source. The `Tables`
//! value is held in a private field, so that its rows change only through
//! the methods below.
use crate::rows::{rows_set, rows_update, update_allowed, RowOp, Rows};
use substreams_entity_change::pb::entity::EntityChanges;
use substreams_entity_change::tables::Tables;
use vstd::prelude::*;

verus! {

#[verifier::external_type_specification]
#[verifier::external_body]
pub struct ExEntityChanges(EntityChanges);

/// A typed entity column value.
pub ghost enum EntityValue {
    /// Decimal text of a big integer.
    BigInt(Seq<char>),
    Int32(i32),
    /// Base64 text of a byte string.
    Bytes(Seq<char>),
}

/// Entity changes being collected: a `Tables` of `substreams_entity_change`,
/// reachable only through this module.
#[verifier::external_body]
pub struct EntityTables {
    tables: Tables,
}

/// The rows that an `EntityTables` holds: for each entity name and id, the
/// scheduled operation and the value of each column set.
pub uninterp spec fn entity_rows(t: EntityTables) -> Rows<EntityValue>;

/// The changes that an `EntityChanges` lists, by entity name and id, leaving
/// out those that only mark an entity final: the operation and the new value
/// of each field, whatever the order of the list.
pub uninterp spec fn entity_change_rows(c: EntityChanges) -> Rows<EntityValue>;

/// Character of the standard base64 alphabet for a 6-bit value.
pub open spec fn base64_char(v: int) -> char {
    if v < 26 {
        (v + 65) as char
    } else if v < 52 {
        (v - 26 + 97) as char
    } else if v < 62 {
        (v - 52 + 48) as char
    } else if v == 62 {
        '+'
    } else {
        '/'
    }
}

/// Standard base64 text of `bytes`, padded with `=` (what `base64::encode`
/// gives): each group of three bytes becomes four characters.
pub open spec fn base64_text(bytes: Seq<u8>) -> Seq<char>
    decreases bytes.len(),
{
    if bytes.len() == 0 {
        Seq::empty()
    } else if bytes.len() == 1 {
        let b0 = bytes[0] as int;
        seq![base64_char(b0 / 4), base64_char((b0 % 4) * 16), '=', '=']
    } else if bytes.len() == 2 {
        let b0 = bytes[0] as int;
        let b1 = bytes[1] as int;
        seq![base64_char(b0 / 4), base64_char((b0 % 4) * 16 + b1 / 16), base64_char((b1 % 16) * 4), '=']
    } else {
        let b0 = bytes[0] as int;
        let b1 = bytes[1] as int;
        let b2 = bytes[2] as int;
        seq![base64_char(b0 / 4), base64_char((b0 % 4) * 16 + b1 / 16), base64_char((b1 % 16) * 4 + b2 / 64), base64_char(b2 % 64)]
            + base64_text(bytes.subrange(3, bytes.len() as int))
    }
}

/// `Tables::new`: no rows.
#[verifier::external_body]
pub(crate) fn entity_tables_new() -> (r: EntityTables)
    ensures
        entity_rows(r).dom().is_empty(),
{
    EntityTables { tables: Tables::new() }
}

/// `Tables::update_row`: schedules a new row for update; an existing row is
/// left as it is. It panics on a row scheduled for deletion, which `requires`
/// leaves out.
#[verifier::external_body]
pub(crate) fn entity_update_row(t: &mut EntityTables, table: &str, key: &str)
    requires
        update_allowed(entity_rows(*old(t)), (table@, key@)),
    ensures
        entity_rows(*final(t)) == rows_update(entity_rows(*old(t)), (table@, key@)),
{
    t.tables.update_row(table, key);
}

/// `Row::set_bigint` on the row that `Tables::update_row` reaches: the column
/// `name` holds a big integer with the decimal text `value`.
#[verifier::external_body]
pub(crate) fn entity_set_bigint(t: &mut EntityTables, table: &str, key: &str, name: &str, value: &String)
    requires
        update_allowed(entity_rows(*old(t)), (table@, key@)),
    ensures
        entity_rows(*final(t)) == rows_set(
            entity_rows(*old(t)),
            (table@, key@),
            name@,
            EntityValue::BigInt(value@),
        ),
{
    t.tables.update_row(table, key).set_bigint(name, value);
}

/// `Row::set` with an `i32`, on the row that `Tables::update_row` reaches: the
/// column `name` holds the 32-bit integer `value`.
#[verifier::external_body]
pub(crate) fn entity_set_int32(t: &mut EntityTables, table: &str, key: &str, name: &str, value: i32)
    requires
        update_allowed(entity_rows(*old(t)), (table@, key@)),
    ensures
        entity_rows(*final(t)) == rows_set(
            entity_rows(*old(t)),
            (table@, key@),
            name@,
            EntityValue::Int32(value),
        ),
{
    t.tables.update_row(table, key).set(name, value);
}

/// `Row::set` with a `&Vec<u8>`, on the row that `Tables::update_row` reaches:
/// the column `name` holds bytes, as the base64 text of `value`.
#[verifier::external_body]
pub(crate) fn entity_set_bytes(t: &mut EntityTables, table: &str, key: &str, name: &str, value: &Vec<u8>)
    requires
        update_allowed(entity_rows(*old(t)), (table@, key@)),
    ensures
        entity_rows(*final(t)) == rows_set(
            entity_rows(*old(t)),
            (table@, key@),
            name@,
            EntityValue::Bytes(base64_text(value@)),
        ),
{
    t.tables.update_row(table, key).set(name, value);
}

/// `Tables::to_entity_changes`: one change per row, with its operation and
/// its columns as fields. The order of the changes and of their fields
/// follows the walk of the hash maps inside `Tables`, which is left unsaid.
#[verifier::external_body]
pub(crate) fn entity_to_changes(t: EntityTables) -> (r: EntityChanges)
    ensures
        entity_change_rows(r) == entity_rows(t),
{
    t.tables.to_entity_changes()
}

impl EntityTables {
    /// No rows yet.
    pub fn new() -> (r: EntityTables)
        ensures
            entity_rows(r) == Map::<(Seq<char>, Seq<char>), (RowOp, Map<Seq<char>, EntityValue>)>::empty(),
    {
        let r = entity_tables_new();
        assert(entity_rows(r) =~= Map::empty());
        r
    }

    /// The collected changes, one per row.
    pub fn to_entity_changes(self) -> (r: EntityChanges)
        ensures
            entity_change_rows(r) == entity_rows(self),
    {
        entity_to_changes(self)
    }
}

} // verus!
