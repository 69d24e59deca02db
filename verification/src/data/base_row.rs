//! The rows of a data table: how one is addressed, read, written and removed.
use vstd::prelude::*;
use crate::cassandra_util::{get_optional, Cell, Row};
use crate::cql::{
    law_sort_key_binding_lossless, push_value, sk_bind, sk_col, sk_column, sk_to_value,
    sort_key_fits, stmt, text_value, values_view, CqlValue, CqlView, Statement, StatementView,
};
use crate::data::ddl::{first_sort_key, sk_info};
use crate::error::{internal, is_internal, CancellationReason, StorageError};
use crate::model::{
    AttributeValue, Item, ScalarAttributeType, SortKeyBind, SortKeyView, TableKeyInfo,
};
use crate::text::{cat3, cat5, cat7};

verus! {

/// The primary key of a row: the partition key text, and the sort key where the
/// table has one.
#[derive(Debug, PartialEq, Eq)]
pub struct RowKey {
    pub pk: String,
    pub sk: Option<SortKeyBind>,
}

/// The test that a statement addresses a row by.
pub open spec fn where_text(key: RowKey) -> Seq<char> {
    match key.sk {
        Some(b) => " WHERE pk = ? AND "@ + sk_col(b.sk_type) + " = ?"@,
        None => " WHERE pk = ?"@,
    }
}

/// The values that address a row.
pub open spec fn key_binds(key: RowKey) -> Seq<CqlView> {
    match key.sk {
        Some(b) => seq![CqlView::Text(key.pk@), sk_bind(b.value@)],
        None => seq![CqlView::Text(key.pk@)],
    }
}

/// The test that a statement addresses a row by.
pub fn where_clause(key: &RowKey) -> (r: String)
    ensures
        r@ == where_text(*key),
{
    match &key.sk {
        Some(b) => cat3(" WHERE pk = ? AND ", sk_column(b.sk_type), " = ?"),
        None => " WHERE pk = ?".to_owned(),
    }
}

/// Append the values that address a row.
pub fn push_key(values: &mut Vec<CqlValue>, key: &RowKey)
    ensures
        values_view(final(values)@) == values_view(old(values)@) + key_binds(*key),
{
    let ghost start = values_view(values@);
    push_value(values, text_value(key.pk.as_str()));
    match &key.sk {
        Some(b) => {
            push_value(values, sk_to_value(&b.value));
        },
        None => {},
    }
    proof {
        assert(values_view(values@) =~= start + key_binds(*key));
    }
}

/// The sort key that addresses a row, if there is one.
pub open spec fn row_sort_key(key: RowKey) -> Option<SortKeyView> {
    match key.sk {
        Some(b) => Some(b.value@),
        None => None,
    }
}

/// The sort key of a row, if it has one, is bound without loss.
pub open spec fn row_key_fits(key: RowKey) -> bool {
    row_sort_key(key) matches Some(v) ==> sort_key_fits(v)
}

/// Two keys of one table address the same row only where their partition keys and
/// their sort keys are the same.
pub proof fn law_one_row_per_key(a: RowKey, b: RowKey)
    requires
        row_key_fits(a),
        row_key_fits(b),
    ensures
        key_binds(a) == key_binds(b) <==> a.pk@ == b.pk@ && row_sort_key(a) == row_sort_key(b),
{
    assert(key_binds(a)[0] == CqlView::Text(a.pk@));
    assert(key_binds(b)[0] == CqlView::Text(b.pk@));
    if a.sk is Some && b.sk is Some {
        law_sort_key_binding_lossless(a.sk->0.value@, b.sk->0.value@);
        assert(key_binds(a)[1] == sk_bind(a.sk->0.value@));
        assert(key_binds(b)[1] == sk_bind(b.sk->0.value@));
    } else if a.sk is Some {
        assert(key_binds(a).len() == 2 && key_binds(b).len() == 1);
    } else if b.sk is Some {
        assert(key_binds(a).len() == 1 && key_binds(b).len() == 2);
    }
    if a.pk@ == b.pk@ && row_sort_key(a) == row_sort_key(b) {
        assert(key_binds(a) =~= key_binds(b));
    }
}

/// The sort key attribute of a key, with its type: `None` where the table has no
/// sort key, an error where the key lacks it.
pub fn sort_key_attribute(key_info: &TableKeyInfo, key: &Item) -> (r: Result<
    Option<(AttributeValue, ScalarAttributeType)>,
    StorageError,
>)
    ensures
        match first_sort_key(key_info.key_schema@, key_info.attribute_definitions@) {
            None => r == Ok::<Option<(AttributeValue, ScalarAttributeType)>, StorageError>(None),
            Some((name, t)) => match r {
                Ok(Some((v, u))) => key@.dom().contains(name) && key@[name] == v@ && u == t,
                Ok(None) => false,
                Err(e) => !key@.dom().contains(name) && is_internal(e, "missing sort key"@),
            },
        },
{
    match sk_info(key_info.key_schema.as_slice(), key_info.attribute_definitions.as_slice()) {
        None => Ok(None),
        Some((name, t)) => match key.get(name.as_str()) {
            Some(v) => Ok(Some((v.clone(), t))),
            None => Err(internal("missing sort key")),
        },
    }
}

/// The partition key attribute of a key: the first of the schema.
pub fn partition_key_attribute(key_info: &TableKeyInfo, key: &Item) -> (r: Result<
    AttributeValue,
    StorageError,
>)
    requires
        key_info.key_schema@.len() > 0,
    ensures
        match r {
            Ok(v) => key@.dom().contains(key_info.key_schema@[0].attribute_name@)
                && key@[key_info.key_schema@[0].attribute_name@] == v@,
            Err(e) => !key@.dom().contains(key_info.key_schema@[0].attribute_name@)
                && is_internal(e, "missing partition key"@),
        },
{
    match key.get(key_info.key_schema[0].attribute_name.as_str()) {
        Some(v) => Ok(v.clone()),
        None => Err(internal("missing partition key")),
    }
}

/// The statement that reads columns of a row.
pub open spec fn select_stmt(
    ks: Seq<char>,
    table: Seq<char>,
    columns: Seq<char>,
    key: RowKey,
) -> StatementView {
    stmt(
        "SELECT "@ + columns + " FROM "@ + ks + "."@ + table + where_text(key),
        key_binds(key),
    )
}

/// The statement that reads columns of a row by its primary key.
pub fn select_by_pk(keyspace: &str, table: &str, columns: &str, key: &RowKey) -> (r: Statement)
    ensures
        r@ == select_stmt(keyspace@, table@, columns@, *key),
{
    let mut values: Vec<CqlValue> = Vec::new();
    push_key(&mut values, key);
    proof {
        assert(values_view(values@) =~= key_binds(*key));
    }
    let tail = where_clause(key);
    Statement {
        cql: cat7("SELECT ", columns, " FROM ", keyspace, ".", table, tail.as_str()),
        values,
    }
}

/// The statement that reads the image of an item and its owner.
pub fn select_image(keyspace: &str, table: &str, key: &RowKey) -> (r: Statement)
    ensures
        r@ == select_stmt(keyspace@, table@, "item_data, prepared_txn_id"@, *key),
{
    select_by_pk(keyspace, table, "item_data, prepared_txn_id", key)
}

/// The statement that writes an item.
pub open spec fn insert_stmt(
    ks: Seq<char>,
    table: Seq<char>,
    key: RowKey,
    item_text: Seq<char>,
) -> StatementView {
    match key.sk {
        Some(b) => stmt(
            "INSERT INTO "@ + ks + "."@ + table + " (pk, "@ + sk_col(b.sk_type)
                + ", item_data) VALUES (?, ?, ?)"@,
            key_binds(key).push(CqlView::Text(item_text)),
        ),
        None => stmt(
            "INSERT INTO "@ + ks + "."@ + table + " (pk, item_data) VALUES (?, ?)"@,
            key_binds(key).push(CqlView::Text(item_text)),
        ),
    }
}

/// The statement that writes an item.
pub fn insert_item(keyspace: &str, table: &str, key: &RowKey, item_text: &str) -> (r: Statement)
    ensures
        r@ == insert_stmt(keyspace@, table@, *key, item_text@),
{
    let mut values: Vec<CqlValue> = Vec::new();
    push_key(&mut values, key);
    push_value(&mut values, text_value(item_text));
    proof {
        assert(values_view(values@) =~= key_binds(*key).push(CqlView::Text(item_text@)));
    }
    let cql = match &key.sk {
        Some(b) => cat7(
            "INSERT INTO ",
            keyspace,
            ".",
            table,
            " (pk, ",
            sk_column(b.sk_type),
            ", item_data) VALUES (?, ?, ?)",
        ),
        None => cat5("INSERT INTO ", keyspace, ".", table, " (pk, item_data) VALUES (?, ?)"),
    };
    Statement { cql, values }
}

/// The statement that removes a row.
pub open spec fn delete_stmt(ks: Seq<char>, table: Seq<char>, key: RowKey) -> StatementView {
    stmt("DELETE FROM "@ + ks + "."@ + table + where_text(key), key_binds(key))
}

/// The statement that removes a row.
pub fn delete_row(keyspace: &str, table: &str, key: &RowKey) -> (r: Statement)
    ensures
        r@ == delete_stmt(keyspace@, table@, *key),
{
    let mut values: Vec<CqlValue> = Vec::new();
    push_key(&mut values, key);
    proof {
        assert(values_view(values@) =~= key_binds(*key));
    }
    let tail = where_clause(key);
    Statement { cql: cat5("DELETE FROM ", keyspace, ".", table, tail.as_str()), values }
}

/// The owner of a row: the transaction or claim that it carries.
pub open spec fn owner_of(row: Option<Row>) -> Option<Seq<u8>> {
    match row {
        Some(row) => match row.cell("prepared_txn_id"@) {
            Cell::Uuid(b) => Some(b@),
            _ => None,
        },
        None => None,
    }
}

/// The owner of a row that was read.
pub fn row_owner(row: &Option<Row>) -> (r: Option<Vec<u8>>)
    ensures
        match r {
            Some(b) => owner_of(*row) == Some(b@),
            None => owner_of(*row) is None,
        },
{
    match row {
        Some(row) => get_optional(row, "prepared_txn_id"),
        None => None,
    }
}

/// The stored JSON text of a row.
pub open spec fn image_text(row: Option<Row>) -> Option<Seq<char>> {
    match row {
        Some(row) => crate::cassandra_util::text_of(row.cell("item_data"@)),
        None => None,
    }
}

/// The stored JSON text of a row that was read.
pub fn row_image(row: &Option<Row>) -> (r: Option<String>)
    ensures
        match r {
            Some(s) => image_text(*row) == Some(s@),
            None => image_text(*row) is None,
        },
{
    match row {
        Some(row) => get_optional(row, "item_data"),
        None => None,
    }
}

/// The reason carries this code and message.
pub open spec fn is_reason(r: CancellationReason, c: Seq<char>, m: Seq<char>) -> bool {
    r matches CancellationReason::Other { code, message } && code@ == c && message is Some
        && message->0@ == m
}

/// The error is a cancellation for a concurrent transaction.
pub open spec fn is_txn_conflict(e: StorageError) -> bool {
    e matches StorageError::TransactionCanceled(reasons) && reasons@.len() == 1 && is_reason(
        reasons@[0],
        "TransactionConflict"@,
        "Item is being modified by a concurrent transaction"@,
    )
}

/// The error of a row that a concurrent transaction owns.
pub fn txn_conflict() -> (e: StorageError)
    ensures
        is_txn_conflict(e),
{
    StorageError::TransactionCanceled(
        vec![
            CancellationReason::Other {
                code: "TransactionConflict".to_owned(),
                message: Some("Item is being modified by a concurrent transaction".to_owned()),
            },
        ],
    )
}

/// The error is the retryable conflict of a claimed row.
pub open spec fn is_claim_conflict(e: StorageError) -> bool {
    e matches StorageError::TransactionConflict(m) && m@
        == "Item is being modified by a concurrent operation"@
}

/// The retryable conflict of a claimed row.
pub fn claim_conflict() -> (e: StorageError)
    ensures
        is_claim_conflict(e),
{
    StorageError::TransactionConflict("Item is being modified by a concurrent operation".to_owned())
}

/// The error a single-item write reports when another owner holds the base row.
///
/// On a TTL-enabled table `prepared_txn_id` is ambiguous: it may be a two-phase
/// commit prepare, another ordinary writer's claim, or the expiration worker's
/// claim. All three are short-lived, so the write reports the retryable
/// `TransactionConflict`. Without TTL the only possible owner is a real
/// transaction, and the write reports a cancellation.
pub fn concurrent_owner_error(ttl_enabled: bool) -> (e: StorageError)
    ensures
        if ttl_enabled {
            is_claim_conflict(e)
        } else {
            is_txn_conflict(e)
        },
{
    if ttl_enabled {
        claim_conflict()
    } else {
        txn_conflict()
    }
}

} // verus!
