//! Writing and reading single items.
use vstd::prelude::*;
use crate::cassandra_util::{get_optional, Cell, Row};
use crate::cql::{
    push_value, statements_view, stmt, text_value, values_view, CqlValue, CqlView, Statement,
};
use crate::data::base_row::{
    concurrent_owner_error, insert_item, insert_stmt, is_claim_conflict, is_txn_conflict,
    key_binds, push_key, select_by_pk, select_stmt, where_clause, where_text, RowKey,
};
use crate::data::claim::WriteFacts;
use crate::data::condition::{check_image, Verdict};
use crate::data::effects::{
    effect_stmts, effects_wf, is_plain, plan_write, push_effects, SideEffects, WritePlan,
};
use crate::error::StorageError;
use crate::model::{Item, TableKeyInfo};
use crate::text::cat7;

verus! {

/// Whether a put goes through the single conditional insert: it is conditioned on
/// the absence of its key, and the table has no TTL. On a TTL-enabled table absence
/// has to be established by the exact base-row claim instead.
pub fn inserts_if_absent(key_not_exists_condition: bool, ttl_enabled: bool) -> (r: bool)
    ensures
        r == (key_not_exists_condition && !ttl_enabled),
{
    key_not_exists_condition && !ttl_enabled
}

/// Decide on a put, from the stored image and whether it has an owner, and the
/// outcome of the condition: a row with an owner refuses it, a failed condition
/// reports the image, and otherwise the image is handed on.
pub fn decide_put(
    old_item: Option<Item>,
    has_owner: bool,
    ttl_enabled: bool,
    verdict: Verdict,
) -> (r: Result<Option<Item>, StorageError>)
    ensures
        if has_owner {
            r matches Err(e) && if ttl_enabled {
                is_claim_conflict(e)
            } else {
                is_txn_conflict(e)
            }
        } else {
            match verdict {
                Some(Ok(false)) => r == Err::<Option<Item>, StorageError>(
                    StorageError::ConditionFailed(old_item),
                ),
                Some(Err(m)) => r == Err::<Option<Item>, StorageError>(
                    StorageError::Validation(m),
                ),
                _ => r == Ok::<Option<Item>, StorageError>(old_item),
            }
        },
{
    if has_owner {
        return Err(concurrent_owner_error(ttl_enabled));
    }
    check_image(verdict, old_item)
}

/// The shape of a put: on a TTL-enabled table it takes a claim, after every
/// fallible side-effect statement has been prepared.
pub fn put_facts(ttl_enabled: bool) -> (r: WriteFacts)
    ensures
        r.claims == ttl_enabled,
        r.holds_claim == ttl_enabled,
        !r.marks_partition,
        r.prepares_first,
{
    WriteFacts {
        claims: ttl_enabled,
        holds_claim: ttl_enabled,
        marks_partition: false,
        prepares_first: true,
    }
}

/// Plan the commit of a put.
pub fn put_item_impl_inner(
    account_keyspace: &str,
    table: &str,
    key: &RowKey,
    item_text: &str,
    key_info: &TableKeyInfo,
    effects: SideEffects,
) -> (r: WritePlan)
    requires
        effects_wf(effects),
    ensures
        match r {
            WritePlan::Direct(s) => is_plain(effects) && s@ == insert_stmt(
                account_keyspace@,
                table@,
                *key,
                item_text@,
            ),
            WritePlan::Batch { statements, timestamped } => {
                &&& !is_plain(effects)
                &&& timestamped == effects.ttl is Some
                &&& statements_view(statements@) == seq![
                    insert_stmt(account_keyspace@, table@, *key, item_text@),
                ] + effect_stmts(account_keyspace@, *key_info, effects)
            },
        },
{
    let base = insert_item(account_keyspace, table, key, item_text);
    let claims = effects.ttl.is_some();
    plan_write(base, account_keyspace, key_info, effects, claims)
}

/// The error of a put whose claim could not be taken. An absent-row claim that
/// cannot be taken means the row now exists, which is exactly what a condition on
/// the absence of the key forbids: that put fails its condition rather than being
/// retried.
pub fn put_claim_error(
    error: StorageError,
    key_not_exists_condition: bool,
    old_item: Option<Item>,
) -> (r: StorageError)
    ensures
        r == (if error is TransactionConflict && key_not_exists_condition {
            StorageError::ConditionFailed(old_item)
        } else {
            error
        }),
{
    match error {
        StorageError::TransactionConflict(m) => if key_not_exists_condition {
            StorageError::ConditionFailed(old_item)
        } else {
            StorageError::TransactionConflict(m)
        },
        e => e,
    }
}

/// The statement that inserts an item only if its key does not exist. A physically
/// absent row and a metadata-only row both count as absent.
pub fn put_item_if_not_exists(keyspace: &str, table: &str, key: &RowKey, item_text: &str) -> (r:
    Statement)
    ensures
        r@ == stmt(
            "UPDATE "@ + keyspace@ + "."@ + table@ + " SET item_data = ?, version = 1"@
                + where_text(*key) + " IF item_data = null AND prepared_txn_id = null"@,
            seq![CqlView::Text(item_text@)] + key_binds(*key),
        ),
{
    let tail = where_clause(key);
    let mut values: Vec<CqlValue> = Vec::new();
    push_value(&mut values, text_value(item_text));
    push_key(&mut values, key);
    proof {
        assert(values_view(values@) =~= seq![CqlView::Text(item_text@)] + key_binds(*key));
    }
    Statement {
        cql: cat7(
            "UPDATE ",
            keyspace,
            ".",
            table,
            " SET item_data = ?, version = 1",
            tail.as_str(),
            " IF item_data = null AND prepared_txn_id = null",
        ),
        values,
    }
}

/// The conditional insert was refused: its response says so.
pub open spec fn insert_refused(rows: Seq<Row>) -> bool {
    rows.len() > 0 && rows[0].cell("[applied]"@) == Cell::Boolean(false)
}

/// The outcome of a conditional insert, given the decoded item of its response, if
/// any: a refused insert fails the condition and reports that item. A response that
/// cannot be read counts as applied.
pub fn insert_outcome(rows: &Vec<Row>, existing: Option<Item>) -> (r: Result<(), StorageError>)
    ensures
        r == (if insert_refused(rows@) {
            Err::<(), StorageError>(StorageError::ConditionFailed(existing))
        } else {
            Ok(())
        }),
{
    if rows.len() == 0 {
        return Ok(());
    }
    match get_optional::<bool>(&rows[0], "[applied]") {
        Some(b) => if b {
            Ok(())
        } else {
            Err(StorageError::ConditionFailed(existing))
        },
        None => Ok(()),
    }
}

/// The batch that follows a conditional insert: its side effects, where the table
/// has indexes or a stream record is captured.
pub fn insert_effects(account_keyspace: &str, key_info: &TableKeyInfo, effects: SideEffects) -> (r:
    Option<Vec<Statement>>)
    requires
        effects_wf(effects),
    ensures
        match r {
            Some(batch) => (effects.indexes@.len() > 0 || effects.stream is Some)
                && statements_view(batch@) == effect_stmts(account_keyspace@, *key_info, effects),
            None => effects.indexes@.len() == 0 && effects.stream is None,
        },
{
    if effects.indexes.len() == 0 && effects.stream.is_none() {
        return None;
    }
    let mut batch: Vec<Statement> = Vec::new();
    push_effects(&mut batch, account_keyspace, key_info, effects);
    proof {
        assert(statements_view(batch@) =~= effect_stmts(account_keyspace@, *key_info, effects));
    }
    Some(batch)
}

/// The statement that reads an item.
pub fn get_item_impl(keyspace: &str, table: &str, key: &RowKey) -> (r: Statement)
    ensures
        r@ == select_stmt(keyspace@, table@, "item_data"@, *key),
{
    select_by_pk(keyspace, table, "item_data", key)
}

} // verus!
