//! The statements by which a transaction prepares, commits and rolls back a row,
//! and the steps of committing and rolling back one operation.
use vstd::prelude::*;
use crate::cassandra_util::{get_column, get_optional, Cell, Row};
use crate::cql::{
    push_value, sk_col, sk_column, stmt, stmt1, text_value, uuid_value, values_view, CqlValue,
    CqlView, Statement, StatementView,
};
use crate::data::base_row::{
    key_binds, push_key, select_by_pk, select_stmt, where_clause, where_text, RowKey,
};
use crate::data::transact_get::{is_conflict, transaction_conflict_reason};
use crate::data::transactions::OpKind;
use crate::error::{internal, is_internal, CancellationReason, StorageError};
use crate::text::{cat5, cat7};

verus! {

/// A conditional statement took effect, as a transaction judges it: a response
/// without rows counts as applied.
pub open spec fn took_effect(rows: Option<&Vec<Row>>) -> bool {
    rows matches Some(v) && (v@.len() == 0 || v@[0].cell("[applied]"@) == Cell::Boolean(true))
}

/// The reason is a validation error with this message.
pub open spec fn is_validation_reason(r: CancellationReason, m: Seq<char>) -> bool {
    r matches CancellationReason::ValidationError(t) && t@ == m
}

/// Check if a conditional statement was applied. The rows are `None` where the
/// response could not be read.
pub fn check_lwt_applied(rows: Option<&Vec<Row>>) -> (r: Result<(), CancellationReason>)
    ensures
        match rows {
            None => r matches Err(e) && is_validation_reason(e, "Database error"@),
            Some(_) => if took_effect(rows) {
                r is Ok
            } else {
                r matches Err(e) && is_conflict(e)
            },
        },
{
    match rows {
        None => Err(CancellationReason::ValidationError("Database error".to_owned())),
        Some(v) => {
            if v.len() == 0 {
                return Ok(());
            }
            let applied: Result<bool, StorageError> = get_column(&v[0], "[applied]");
            match applied {
                Ok(b) => if b {
                    Ok(())
                } else {
                    Err(transaction_conflict_reason())
                },
                Err(_) => Err(transaction_conflict_reason()),
            }
        },
    }
}

/// The statement that reads an item for a transaction.
pub fn select_for_transaction(keyspace: &str, table: &str, key: &RowKey) -> (r: Statement)
    ensures
        r@ == select_stmt(keyspace@, table@, "item_data"@, *key),
{
    select_by_pk(keyspace, table, "item_data", key)
}

/// The statement that reads the last deletion time of a partition.
pub fn select_max_delete(keyspace: &str, table: &str, pk: &str) -> (r: Statement)
    ensures
        r@ == stmt(
            "SELECT partition_max_delete_timestamp FROM "@ + keyspace@ + "."@ + table@
                + " WHERE pk = ? LIMIT 1"@,
            seq![CqlView::Text(pk@)],
        ),
{
    stmt1(
        cat5(
            "SELECT partition_max_delete_timestamp FROM ",
            keyspace,
            ".",
            table,
            " WHERE pk = ? LIMIT 1",
        ),
        text_value(pk),
    )
}

/// A later deletion forbids a transaction to create an item in the partition.
pub open spec fn deleted_later(rows: Seq<Row>, txn_timestamp: i64) -> bool {
    rows.len() > 0 && (rows[0].cell("partition_max_delete_timestamp"@) matches Cell::BigInt(t)
        && txn_timestamp <= t)
}

/// Check the last deletion time of a partition for a new item.
pub fn check_partition_max_delete_timestamp(rows: &Vec<Row>, txn_timestamp: i64) -> (r: Result<
    (),
    CancellationReason,
>)
    ensures
        if deleted_later(rows@, txn_timestamp) {
            r matches Err(e) && is_validation_reason(e, "Item was deleted at a later timestamp"@)
        } else {
            r is Ok
        },
{
    if rows.len() == 0 {
        return Ok(());
    }
    let max_ts: Option<i64> = get_optional(&rows[0], "partition_max_delete_timestamp");
    match max_ts {
        Some(t) => if txn_timestamp <= t {
            Err(
                CancellationReason::ValidationError(
                    "Item was deleted at a later timestamp".to_owned(),
                ),
            )
        } else {
            Ok(())
        },
        None => Ok(()),
    }
}

/// The statement that prepares a row: a new item is inserted where there is no row,
/// an existing one is marked where no transaction holds it.
pub open spec fn prepare_stmt(
    ks: Seq<char>,
    table: Seq<char>,
    key: RowKey,
    txn_id: Seq<u8>,
    ts: i64,
    new_item: Option<Seq<char>>,
) -> StatementView {
    match new_item {
        Some(item) => stmt(
            match key.sk {
                Some(b) => "INSERT INTO "@ + ks + "."@ + table + " (pk, "@ + sk_col(b.sk_type)
                    + ", item_data, prepared_txn_id, prepared_txn_timestamp, created_to_prepare) VALUES (?, ?, ?, ?, ?, true) IF NOT EXISTS"@,
                None => "INSERT INTO "@ + ks + "."@ + table
                    + " (pk, item_data, prepared_txn_id, prepared_txn_timestamp, created_to_prepare) VALUES (?, ?, ?, ?, true) IF NOT EXISTS"@,
            },
            key_binds(key) + seq![CqlView::Text(item), CqlView::Uuid(txn_id), CqlView::BigInt(ts)],
        ),
        None => stmt(
            "UPDATE "@ + ks + "."@ + table + " SET prepared_txn_id = ?, prepared_txn_timestamp = ?"@
                + where_text(key) + " IF prepared_txn_id = null"@,
            seq![CqlView::Uuid(txn_id), CqlView::BigInt(ts)] + key_binds(key),
        ),
    }
}

/// PREPARE an item: mark with transaction ID using LWT.
///
/// For existing items: UPDATE with IF prepared_txn_id = null
/// For new items: INSERT with IF NOT EXISTS + created_to_prepare=true
pub fn prepare_item(
    keyspace: &str,
    table: &str,
    key: &RowKey,
    txn_id: &Vec<u8>,
    txn_timestamp: i64,
    new_item: Option<&str>,
) -> (r: Statement)
    ensures
        r@ == prepare_stmt(
            keyspace@,
            table@,
            *key,
            txn_id@,
            txn_timestamp,
            match new_item {
                Some(s) => Some(s@),
                None => None,
            },
        ),
{
    let mut values: Vec<CqlValue> = Vec::new();
    match new_item {
        Some(item) => {
            push_key(&mut values, key);
            push_value(&mut values, text_value(item));
            push_value(&mut values, uuid_value(txn_id));
            push_value(&mut values, CqlValue::BigInt(txn_timestamp));
            proof {
                assert(values_view(values@) =~= key_binds(*key) + seq![
                    CqlView::Text(item@),
                    CqlView::Uuid(txn_id@),
                    CqlView::BigInt(txn_timestamp),
                ]);
            }
            let cql = match &key.sk {
                Some(b) => cat7(
                    "INSERT INTO ",
                    keyspace,
                    ".",
                    table,
                    " (pk, ",
                    sk_column(b.sk_type),
                    ", item_data, prepared_txn_id, prepared_txn_timestamp, created_to_prepare) VALUES (?, ?, ?, ?, ?, true) IF NOT EXISTS",
                ),
                None => cat5(
                    "INSERT INTO ",
                    keyspace,
                    ".",
                    table,
                    " (pk, item_data, prepared_txn_id, prepared_txn_timestamp, created_to_prepare) VALUES (?, ?, ?, ?, true) IF NOT EXISTS",
                ),
            };
            Statement { cql, values }
        },
        None => {
            push_value(&mut values, uuid_value(txn_id));
            push_value(&mut values, CqlValue::BigInt(txn_timestamp));
            proof {
                assert(values_view(values@) =~= seq![
                    CqlView::Uuid(txn_id@),
                    CqlView::BigInt(txn_timestamp),
                ]);
            }
            push_key(&mut values, key);
            let tail = where_clause(key);
            Statement {
                cql: cat7(
                    "UPDATE ",
                    keyspace,
                    ".",
                    table,
                    " SET prepared_txn_id = ?, prepared_txn_timestamp = ?",
                    tail.as_str(),
                    " IF prepared_txn_id = null",
                ),
                values,
            }
        },
    }
}

/// The statement that commits an item: it becomes the stored one, the mark is
/// taken off, and the version and the commit time move on.
pub open spec fn commit_write_stmt(
    ks: Seq<char>,
    table: Seq<char>,
    key: RowKey,
    item: Seq<char>,
    ts: i64,
    txn_id: Seq<u8>,
) -> StatementView {
    stmt(
        "UPDATE "@ + ks + "."@ + table
            + " SET item_data = ?, prepared_txn_id = NULL, version = version + 1, last_committed_txn_timestamp = ?"@
            + where_text(key) + " IF prepared_txn_id = ?"@,
        (seq![CqlView::Text(item), CqlView::BigInt(ts)] + key_binds(key)).push(
            CqlView::Uuid(txn_id),
        ),
    )
}

/// Commit a Put or Update operation.
pub fn commit_put_or_update(
    keyspace: &str,
    table: &str,
    key: &RowKey,
    item: &str,
    txn_timestamp: i64,
    txn_id: &Vec<u8>,
) -> (r: Statement)
    ensures
        r@ == commit_write_stmt(keyspace@, table@, *key, item@, txn_timestamp, txn_id@),
{
    let mut values: Vec<CqlValue> = Vec::new();
    push_value(&mut values, text_value(item));
    push_value(&mut values, CqlValue::BigInt(txn_timestamp));
    proof {
        assert(values_view(values@) =~= seq![
            CqlView::Text(item@),
            CqlView::BigInt(txn_timestamp),
        ]);
    }
    push_key(&mut values, key);
    push_value(&mut values, uuid_value(txn_id));
    let tail = where_clause(key);
    Statement {
        cql: cat7(
            "UPDATE ",
            keyspace,
            ".",
            table,
            " SET item_data = ?, prepared_txn_id = NULL, version = version + 1, last_committed_txn_timestamp = ?",
            tail.as_str(),
            " IF prepared_txn_id = ?",
        ),
        values,
    }
}

/// A statement on the row that a transaction holds.
pub open spec fn guarded_stmt(
    head: Seq<char>,
    ks: Seq<char>,
    table: Seq<char>,
    set: Seq<char>,
    key: RowKey,
    test: Seq<char>,
    txn_id: Seq<u8>,
) -> StatementView {
    stmt(
        head + ks + "."@ + table + set + where_text(key) + test,
        key_binds(key).push(CqlView::Uuid(txn_id)),
    )
}

fn guarded(
    head: &str,
    keyspace: &str,
    table: &str,
    set: &str,
    key: &RowKey,
    test: &str,
    txn_id: &Vec<u8>,
) -> (r: Statement)
    ensures
        r@ == guarded_stmt(head@, keyspace@, table@, set@, *key, test@, txn_id@),
{
    let mut values: Vec<CqlValue> = Vec::new();
    push_key(&mut values, key);
    push_value(&mut values, uuid_value(txn_id));
    proof {
        assert(values_view(values@) =~= key_binds(*key).push(CqlView::Uuid(txn_id@)));
    }
    let tail = where_clause(key);
    Statement { cql: cat7(head, keyspace, ".", table, set, tail.as_str(), test), values }
}

/// The statement that commits a deletion: the row goes where the transaction holds
/// it.
pub open spec fn commit_delete_stmt(
    ks: Seq<char>,
    table: Seq<char>,
    key: RowKey,
    txn_id: Seq<u8>,
) -> StatementView {
    stmt(
        "DELETE FROM "@ + ks + "."@ + table + where_text(key) + " IF prepared_txn_id = ?"@,
        key_binds(key).push(CqlView::Uuid(txn_id)),
    )
}

/// The statement that commits a deletion.
pub fn commit_delete(keyspace: &str, table: &str, key: &RowKey, txn_id: &Vec<u8>) -> (r: Statement)
    ensures
        r@ == commit_delete_stmt(keyspace@, table@, *key, txn_id@),
{
    let r = guarded("DELETE FROM ", keyspace, table, "", key, " IF prepared_txn_id = ?", txn_id);
    proof {
        reveal_strlit("");
        let head = "DELETE FROM "@ + keyspace@ + "."@ + table@;
        assert(head + ""@ =~= head);
    }
    r
}

/// The statement that takes a row away which preparing created.
pub open spec fn rollback_delete_stmt(
    ks: Seq<char>,
    table: Seq<char>,
    key: RowKey,
    txn_id: Seq<u8>,
) -> StatementView {
    stmt(
        "DELETE FROM "@ + ks + "."@ + table + where_text(key)
            + " IF prepared_txn_id = ? AND created_to_prepare = true"@,
        key_binds(key).push(CqlView::Uuid(txn_id)),
    )
}

/// The statement that takes the mark off a row which was there before.
pub open spec fn rollback_clear_stmt(
    ks: Seq<char>,
    table: Seq<char>,
    key: RowKey,
    txn_id: Seq<u8>,
) -> StatementView {
    guarded_stmt(
        "UPDATE "@,
        ks,
        table,
        " SET prepared_txn_id = null"@,
        key,
        " IF prepared_txn_id = ?"@,
        txn_id,
    )
}

/// The two statements that roll a row back, to be tried in turn.
pub fn rollback_statements(keyspace: &str, table: &str, key: &RowKey, txn_id: &Vec<u8>) -> (r: (
    Statement,
    Statement,
))
    ensures
        r.0@ == rollback_delete_stmt(keyspace@, table@, *key, txn_id@),
        r.1@ == rollback_clear_stmt(keyspace@, table@, *key, txn_id@),
{
    let remove = guarded(
        "DELETE FROM ",
        keyspace,
        table,
        "",
        key,
        " IF prepared_txn_id = ? AND created_to_prepare = true",
        txn_id,
    );
    proof {
        reveal_strlit("");
        let head = "DELETE FROM "@ + keyspace@ + "."@ + table@;
        assert(head + ""@ =~= head);
    }
    let clear = guarded(
        "UPDATE ",
        keyspace,
        table,
        " SET prepared_txn_id = null",
        key,
        " IF prepared_txn_id = ?",
        txn_id,
    );
    (remove, clear)
}

/// What the commit of an operation begins with: nothing for a check, a write of the
/// item of the request, a write of the stored item with the actions of the request
/// applied, or a step of a deletion.
#[derive(Clone, Copy, Debug, PartialEq, Eq, Structural)]
pub enum CommitStart {
    Nothing,
    WriteRequested,
    WriteUpdated,
    Remove(CommitDelete),
}

/// What the commit of an operation begins with.
pub fn commit_start(kind: OpKind) -> (r: CommitStart)
    ensures
        r == (match kind {
            OpKind::Check => CommitStart::Nothing,
            OpKind::Put => CommitStart::WriteRequested,
            OpKind::Update => CommitStart::WriteUpdated,
            OpKind::Delete => CommitStart::Remove(CommitDelete::Mark),
        }),
{
    match kind {
        OpKind::Check => CommitStart::Nothing,
        OpKind::Put => CommitStart::WriteRequested,
        OpKind::Update => CommitStart::WriteUpdated,
        OpKind::Delete => CommitStart::Remove(CommitDelete::Mark),
    }
}

/// Where the commit of a deletion stands: the deletion time is marked where there
/// is none, else raised, and then the row is deleted.
#[derive(Clone, Copy, Debug, PartialEq, Eq, Structural)]
pub enum CommitDelete {
    Mark,
    Raise,
    Delete,
}

/// The step after one of a deletion's commit; `None` when it is committed. Only the
/// deletion itself must take effect.
pub fn commit_delete_next(step: CommitDelete, rows: Option<&Vec<Row>>) -> (r: Result<
    Option<CommitDelete>,
    StorageError,
>)
    ensures
        match step {
            CommitDelete::Mark => r == Ok::<Option<CommitDelete>, StorageError>(
                Some(
                    if took_effect(rows) {
                        CommitDelete::Delete
                    } else {
                        CommitDelete::Raise
                    },
                ),
            ),
            CommitDelete::Raise => r == Ok::<Option<CommitDelete>, StorageError>(
                Some(CommitDelete::Delete),
            ),
            CommitDelete::Delete => if took_effect(rows) {
                r == Ok::<Option<CommitDelete>, StorageError>(None)
            } else {
                r matches Err(e) && is_internal(e, "Transaction conflict during commit"@)
            },
        },
{
    match step {
        CommitDelete::Mark => match check_lwt_applied(rows) {
            Ok(_) => Ok(Some(CommitDelete::Delete)),
            Err(_) => Ok(Some(CommitDelete::Raise)),
        },
        CommitDelete::Raise => Ok(Some(CommitDelete::Delete)),
        CommitDelete::Delete => match check_lwt_applied(rows) {
            Ok(_) => Ok(None),
            Err(_) => Err(internal("Transaction conflict during commit")),
        },
    }
}

/// The outcome of committing a put or an update.
pub fn commit_write_outcome(rows: Option<&Vec<Row>>) -> (r: Result<(), StorageError>)
    ensures
        if took_effect(rows) {
            r is Ok
        } else {
            r matches Err(e) && is_internal(e, "Transaction conflict during commit"@)
        },
{
    match check_lwt_applied(rows) {
        Ok(_) => Ok(()),
        Err(_) => Err(internal("Transaction conflict during commit")),
    }
}

/// Where the rollback of an operation stands: a row that preparing created is
/// removed, else the mark is taken off.
#[derive(Clone, Copy, Debug, PartialEq, Eq, Structural)]
pub enum Rollback {
    Remove,
    Clear,
}

/// The first step of rolling back an operation: `None` for a check, which prepares
/// nothing, and for an item that is already gone.
pub fn rollback_start(is_check: bool, item_exists: bool) -> (r: Option<Rollback>)
    ensures
        r == (if !is_check && item_exists {
            Some(Rollback::Remove)
        } else {
            None
        }),
{
    if !is_check && item_exists {
        Some(Rollback::Remove)
    } else {
        None
    }
}

/// The step after one of a rollback; `None` when the operation is rolled back.
pub fn rollback_next(step: Rollback, rows: Option<&Vec<Row>>) -> (r: Result<
    Option<Rollback>,
    StorageError,
>)
    ensures
        match step {
            Rollback::Remove => r == Ok::<Option<Rollback>, StorageError>(
                if took_effect(rows) {
                    None
                } else {
                    Some(Rollback::Clear)
                },
            ),
            Rollback::Clear => if took_effect(rows) {
                r == Ok::<Option<Rollback>, StorageError>(None)
            } else {
                r matches Err(e) && is_internal(e, "Transaction conflict during rollback"@)
            },
        },
{
    match step {
        Rollback::Remove => match check_lwt_applied(rows) {
            Ok(_) => Ok(None),
            Err(_) => Ok(Some(Rollback::Clear)),
        },
        Rollback::Clear => match check_lwt_applied(rows) {
            Ok(_) => Ok(None),
            Err(_) => Err(internal("Transaction conflict during rollback")),
        },
    }
}

} // verus!
