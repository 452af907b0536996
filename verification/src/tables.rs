//! Dining tables: moving an order to another table and what an order's table
//! change does to table statuses.
use vstd::prelude::*;
use vstd::string::*;

use crate::audit::AuditNote;
use crate::text::{int_text, int_to_text, join4, join6, same_text};

verus! {

/// The first check of a transfer: the source table must have an active
/// (pending or billed) order, which is the order that moves.
pub fn order_to_transfer(active_order: Option<i64>) -> (r: Result<i64, String>)
    ensures
        active_order matches Some(o) ==> (r matches Ok(x) && x == o),
        active_order is None ==> (r matches Err(m) && m@ == "No active order on source table"@),
{
    match active_order {
        Some(o) => Ok(o),
        None => Err(String::from_str("No active order on source table")),
    }
}

/// The second check of a transfer: the target table must be free.
pub fn check_transfer_target(target_status: &str) -> (r: Result<(), String>)
    ensures
        r is Ok <==> target_status@ == "Free"@,
        r matches Err(m) ==> m@ == "Target table is not free"@,
{
    if same_text(target_status, "Free") {
        Ok(())
    } else {
        Err(String::from_str("Target table is not free"))
    }
}

/// Table status changes when an order is (re)assigned to a table: the table
/// it leaves is freed (with the tables merged into it), and the table it is
/// on is occupied.
pub struct TableChanges {
    pub release: Option<i64>,
    pub occupy: Option<i64>,
}

/// The table an order leaves when it moves from `old_table` to `new_table`.
pub open spec fn released_table(old_table: Option<i64>, new_table: Option<i64>) -> Option<i64> {
    if old_table is Some && new_table != old_table {
        old_table
    } else {
        None
    }
}

pub fn table_changes(old_table: Option<i64>, new_table: Option<i64>) -> (r: TableChanges)
    ensures
        r.release == released_table(old_table, new_table),
        r.occupy == new_table,
        old_table is Some && new_table != old_table ==> r.release == old_table,
        old_table is None || new_table == old_table ==> r.release is None,
{
    let release = match old_table {
        Some(t) => match new_table {
            Some(n) => if n != t { Some(t) } else { None },
            None => Some(t),
        },
        None => None,
    };
    TableChanges { release, occupy: new_table }
}

/// Reassigning an order never frees the table it ends up on, and keeping the
/// same table frees nothing. An order that had a table and moves to another
/// one, whichever its number, or to none, frees the table it had.
pub proof fn lemma_reassignment_keeps_new_table(old_table: Option<i64>, new_table: Option<i64>)
    ensures
        old_table is Some && new_table != old_table ==> released_table(old_table, new_table) == old_table,
        old_table is None ==> released_table(old_table, new_table) is None,
        released_table(old_table, new_table) is Some ==> released_table(old_table, new_table) != new_table,
        old_table == new_table ==> released_table(old_table, new_table) is None,
{
}

/// The audit entry of a transfer.
pub fn transfer_note(from_table: i64, order_id: i64, to_table: i64) -> (n: AuditNote)
    ensures
        n.describes(
            "transfer_table"@,
            "tables"@,
            Some(from_table),
            Some("Transferred order "@ + int_text(order_id as int) + " from table ID "@ + int_text(
                from_table as int,
            ) + " to ID "@ + int_text(to_table as int)),
        ),
{
    let o = int_to_text(order_id);
    let f = int_to_text(from_table);
    let t = int_to_text(to_table);
    AuditNote::new(
        "transfer_table",
        "tables",
        Some(from_table),
        Some(join6("Transferred order ", o.as_str(), " from table ID ", f.as_str(), " to ID ", t.as_str())),
    )
}

/// The audit entry of a merge of one table into another.
pub fn merge_note(source_table: i64, target_table: i64) -> (n: AuditNote)
    ensures
        n.describes(
            "merge_tables"@,
            "tables"@,
            Some(source_table),
            Some("Merged table ID "@ + int_text(source_table as int) + " into table ID "@ + int_text(
                target_table as int,
            )),
        ),
{
    let s = int_to_text(source_table);
    let t = int_to_text(target_table);
    AuditNote::new(
        "merge_tables",
        "tables",
        Some(source_table),
        Some(join4("Merged table ID ", s.as_str(), " into table ID ", t.as_str())),
    )
}

} // verus!
