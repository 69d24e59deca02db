//! Updating an item under optimistic concurrency control.
use vstd::prelude::*;
use crate::cassandra_util::{applied_column, get_column, get_optional, read_error, Cell, Row};
use crate::cql::{
    push_value, sk_col, sk_column, stmt, text_value, values_view, CqlValue, CqlView, Statement,
    StatementView,
};
use crate::data::base_row::{
    key_binds, push_key, select_by_pk, select_stmt, where_clause,
    where_text, RowKey,
};
use crate::data::claim::{backoff_ms, backoff_window, random_u64, window};
use crate::data::condition::{check_image, Verdict};
use crate::data::ddl::{def_type, find_def};
use crate::error::{internal, is_internal, StorageError};
use crate::model::{
    opt_item, AttributeValue, Item, KeySchemaElement, KeyType, ScalarAttributeType, TableKeyInfo,
};
use crate::text::{cat2, cat5, cat6, cat7};

verus! {

/// The largest item, in bytes.
pub const MAX_ITEM_SIZE_BYTES: usize = 409_600;

/// Maximum OCC retry attempts before giving up.
pub const OCC_MAX_RETRIES: u32 = 20;

/// Base sleep for OCC backoff in milliseconds.
pub const OCC_BASE_DELAY_MS: u64 = 2;

/// Exponent cap for OCC backoff.
pub const OCC_EXP_CAP: u32 = 3;

/// The first RANGE element of a schema.
pub open spec fn first_range(schema: Seq<KeySchemaElement>) -> Option<Seq<char>>
    decreases schema.len(),
{
    if schema.len() == 0 {
        None
    } else if schema[0].key_type == KeyType::Range {
        Some(schema[0].attribute_name@)
    } else {
        first_range(schema.drop_first())
    }
}

/// The sort key attribute of the key of an update, with its type. A key without it,
/// and a sort key without a definition, are errors.
pub fn update_sort_key(key_info: &TableKeyInfo, key: &Item) -> (r: Result<
    Option<(AttributeValue, ScalarAttributeType)>,
    StorageError,
>)
    ensures
        match first_range(key_info.key_schema@) {
            None => r == Ok::<Option<(AttributeValue, ScalarAttributeType)>, StorageError>(None),
            Some(name) => if !key@.dom().contains(name) {
                r matches Err(e) && is_internal(e, "missing sort key"@)
            } else {
                match def_type(key_info.attribute_definitions@, name) {
                    None => r matches Err(e) && is_internal(e, "sort key type not found"@),
                    Some(t) => r matches Ok(Some((v, u))) && v@ == key@[name] && u == t,
                }
            },
        },
{
    let schema = &key_info.key_schema;
    let mut i: usize = 0;
    proof {
        assert(schema@.skip(0) =~= schema@);
    }
    while i < schema.len()
        invariant
            i <= schema@.len(),
            schema@ == key_info.key_schema@,
            first_range(key_info.key_schema@) == first_range(schema@.skip(i as int)),
        decreases schema@.len() - i,
    {
        if schema[i].key_type == KeyType::Range {
            let name = schema[i].attribute_name.as_str();
            return match key.get(name) {
                None => Err(internal("missing sort key")),
                Some(v) => match find_def(key_info.attribute_definitions.as_slice(), name) {
                    None => Err(internal("sort key type not found")),
                    Some(t) => Ok(Some((v.clone(), t))),
                },
            };
        }
        proof {
            assert(schema@.skip(i as int).drop_first() =~= schema@.skip(i + 1));
        }
        i = i + 1;
    }
    Ok(None)
}

/// The statement that reads an item with its version and owner.
pub fn select_versioned(keyspace: &str, table: &str, key: &RowKey) -> (r: Statement)
    ensures
        r@ == select_stmt(keyspace@, table@, "item_data, version, prepared_txn_id"@, *key),
{
    select_by_pk(keyspace, table, "item_data, version, prepared_txn_id", key)
}

/// The stored form of an item and its version, where the row has one.
#[derive(Debug, PartialEq, Eq)]
pub struct VersionedImage {
    pub item_data: Option<String>,
    pub version: Option<i64>,
}

/// Read `item_data`, `version`, and `prepared_txn_id` for OCC. An absent row has
/// neither image nor version; a row with an owner is a `TransactionConflict`; a row
/// without an image is an error. The version is `None` for rows that pre-date it.
pub fn occ_read(row: &Option<Row>) -> (r: Result<VersionedImage, StorageError>)
    ensures
        match row {
            None => r matches Ok(i) && i.item_data is None && i.version is None,
            Some(row) => if row.cell("prepared_txn_id"@) is Uuid {
                r matches Err(StorageError::TransactionConflict(m)) && m@
                    == "Item is being modified by a concurrent transaction"@
            } else if let Cell::Text(t) = row.cell("item_data"@) {
                r matches Ok(i) && i.item_data == Some(t) && i.version == (
                match row.cell("version"@) {
                    Cell::BigInt(v) => Some(v),
                    _ => None,
                })
            } else {
                r matches Err(e) && is_internal(e, "Database error"@)
            },
        },
{
    match row {
        None => Ok(VersionedImage { item_data: None, version: None }),
        Some(row) => {
            let owner: Option<Vec<u8>> = get_optional(row, "prepared_txn_id");
            if owner.is_some() {
                return Err(
                    StorageError::TransactionConflict(
                        "Item is being modified by a concurrent transaction".to_owned(),
                    ),
                );
            }
            let text: String = get_column(row, "item_data")?;
            let version: Option<i64> = get_optional(row, "version");
            Ok(VersionedImage { item_data: Some(text), version })
        },
    }
}

/// The item that an update starts from: the stored one, or its key alone.
pub fn update_base(stored: Option<&Item>, key: &Item) -> (r: Item)
    ensures
        r@ == (match stored {
            Some(i) => i@,
            None => key@,
        }),
{
    match stored {
        Some(i) => i.clone(),
        None => key.clone(),
    }
}

/// Check the condition of an update against the stored item. A failed condition
/// reports that item, or nothing where there is none.
pub fn check_update(stored: Option<Item>, verdict: Verdict) -> (r: Result<Option<Item>, StorageError>)
    ensures
        match verdict {
            Some(Ok(false)) => r == Err::<Option<Item>, StorageError>(
                StorageError::ConditionFailed(stored),
            ),
            Some(Err(m)) => r == Err::<Option<Item>, StorageError>(StorageError::Validation(m)),
            _ => r == Ok::<Option<Item>, StorageError>(stored),
        },
{
    check_image(verdict, stored)
}

/// What an update reports as old: the item that it started from, where it was asked
/// for.
pub fn update_old(return_old: bool, base: &Item) -> (r: Option<Item>)
    ensures
        opt_item(r) == (if return_old {
            Some(base@)
        } else {
            None
        }),
{
    if return_old {
        Some(base.clone())
    } else {
        None
    }
}

/// The item that side effects see as the old one: the stored one, where the table
/// has indexes or a stream is captured.
pub fn pre_mutation_item(has_indexes: bool, has_stream: bool, stored: Option<&Item>) -> (r: Option<
    Item,
>)
    ensures
        opt_item(r) == (match stored {
            Some(i) => if has_indexes || has_stream {
                Some(i@)
            } else {
                None
            },
            None => None,
        }),
{
    match stored {
        Some(i) => if has_indexes || has_stream {
            Some(i.clone())
        } else {
            None
        },
        None => None,
    }
}

/// The guarded write of an update.
///
/// An existing item is updated only while its version is the one that was read and
/// it has no owner; a new one is inserted only if it does not exist.
pub open spec fn occ_stmt(
    ks: Seq<char>,
    table: Seq<char>,
    key: RowKey,
    item_json: Seq<char>,
    version: Option<i64>,
    item_existed: bool,
) -> StatementView {
    if item_existed {
        let next = match version {
            Some(v) => (v + 1) as i64,
            None => 1i64,
        };
        let binds = seq![CqlView::Text(item_json), CqlView::BigInt(next)] + key_binds(key);
        let head = "UPDATE "@ + ks + "."@ + table + " SET item_data = ?, version = ?"@
            + where_text(key);
        match version {
            Some(v) => stmt(
                head + " IF version = ? AND prepared_txn_id = null"@,
                binds.push(CqlView::BigInt(v)),
            ),
            None => stmt(head + " IF version = null AND prepared_txn_id = null"@, binds),
        }
    } else {
        let binds = key_binds(key) + seq![CqlView::Text(item_json), CqlView::BigInt(1)];
        match key.sk {
            Some(b) => stmt(
                "INSERT INTO "@ + ks + "."@ + table + " (pk, "@ + sk_col(b.sk_type)
                    + ", item_data, version) VALUES (?, ?, ?, ?) IF NOT EXISTS"@,
                binds,
            ),
            None => stmt(
                "INSERT INTO "@ + ks + "."@ + table
                    + " (pk, item_data, version) VALUES (?, ?, ?) IF NOT EXISTS"@,
                binds,
            ),
        }
    }
}

/// The statement of the guarded write. With side effects it runs alone first, and
/// they follow in a batch of their own once it has been applied.
pub fn occ_write(
    keyspace: &str,
    table: &str,
    key: &RowKey,
    item_json: &str,
    version: Option<i64>,
    item_existed: bool,
) -> (r: Statement)
    requires
        version is Some ==> version->0 < i64::MAX,
    ensures
        r@ == occ_stmt(keyspace@, table@, *key, item_json@, version, item_existed),
{
    let mut values: Vec<CqlValue> = Vec::new();
    if item_existed {
        let next: i64 = match version {
            Some(v) => v + 1,
            None => 1,
        };
        push_value(&mut values, text_value(item_json));
        push_value(&mut values, CqlValue::BigInt(next));
        push_key(&mut values, key);
        let tail = where_clause(key);
        let head = cat6(
            "UPDATE ",
            keyspace,
            ".",
            table,
            " SET item_data = ?, version = ?",
            tail.as_str(),
        );
        proof {
            assert(values_view(values@) =~= seq![CqlView::Text(item_json@), CqlView::BigInt(next)]
                + key_binds(*key));
        }
        match version {
            Some(v) => {
                push_value(&mut values, CqlValue::BigInt(v));
                Statement {
                    cql: cat2(head.as_str(), " IF version = ? AND prepared_txn_id = null"),
                    values,
                }
            },
            None => Statement {
                cql: cat2(head.as_str(), " IF version = null AND prepared_txn_id = null"),
                values,
            },
        }
    } else {
        push_key(&mut values, key);
        push_value(&mut values, text_value(item_json));
        push_value(&mut values, CqlValue::BigInt(1));
        proof {
            assert(values_view(values@) =~= key_binds(*key) + seq![
                CqlView::Text(item_json@),
                CqlView::BigInt(1),
            ]);
        }
        let cql = match &key.sk {
            Some(b) => cat7(
                "INSERT INTO ",
                keyspace,
                ".",
                table,
                " (pk, ",
                sk_column(b.sk_type),
                ", item_data, version) VALUES (?, ?, ?, ?) IF NOT EXISTS",
            ),
            None => cat5(
                "INSERT INTO ",
                keyspace,
                ".",
                table,
                " (pk, item_data, version) VALUES (?, ?, ?) IF NOT EXISTS",
            ),
        };
        Statement { cql, values }
    }
}

/// Whether the guarded write was applied. A response without a row counts as
/// applied; one whose outcome cannot be read is an error.
pub fn occ_applied(rows: &Vec<Row>) -> (r: Result<bool, StorageError>)
    ensures
        if rows@.len() == 0 {
            r == Ok::<bool, StorageError>(true)
        } else {
            match rows@[0].cell("[applied]"@) {
                Cell::Boolean(b) => r == Ok::<bool, StorageError>(b),
                _ => r matches Err(e) && is_internal(
                    e,
                    "occ_applied parse [applied]: "@ + read_error::<bool>(rows@[0], "[applied]"@),
                ),
            }
        },
{
    if rows.len() == 0 {
        return Ok(true);
    }
    match applied_column(&rows[0]) {
        Ok(b) => Ok(b),
        Err(m) => Err(StorageError::Internal(cat2("occ_applied parse [applied]: ", m.as_str()))),
    }
}

/// What follows an attempt to update.
#[derive(Debug, PartialEq, Eq)]
pub enum OccNext {
    /// The write was applied.
    Done,
    /// The race was lost: sleep for that many milliseconds, read again and retry.
    Retry(u64),
    /// The race was lost for the last time.
    GiveUp(StorageError),
}

/// The step after an attempt, from a random number for the sleep.
pub fn occ_next_with(attempt: u32, applied: bool, random: u64) -> (r: OccNext)
    ensures
        if applied {
            r == OccNext::Done
        } else if attempt < OCC_MAX_RETRIES {
            r == OccNext::Retry((random as int % window(2, attempt as nat, 3) as int) as u64)
        } else {
            r matches OccNext::GiveUp(e) && is_internal(
                e,
                "update_item: too many concurrent writers on this item"@,
            )
        },
{
    if applied {
        OccNext::Done
    } else if attempt < OCC_MAX_RETRIES {
        let w: u64 = backoff_window(OCC_BASE_DELAY_MS, attempt, OCC_EXP_CAP);
        OccNext::Retry(backoff_ms(random, w))
    } else {
        OccNext::GiveUp(internal("update_item: too many concurrent writers on this item"))
    }
}

/// The step after an attempt to update, with a random sleep.
pub fn update_item_impl(attempt: u32, applied: bool) -> (r: OccNext)
    ensures
        if applied {
            r == OccNext::Done
        } else if attempt < OCC_MAX_RETRIES {
            r matches OccNext::Retry(ms) && ms < window(2, attempt as nat, 3)
        } else {
            r matches OccNext::GiveUp(e) && is_internal(
                e,
                "update_item: too many concurrent writers on this item"@,
            )
        },
{
    proof {
        crate::data::claim::lemma_window_positive(2, attempt as nat, 3);
    }
    occ_next_with(attempt, applied, random_u64())
}

} // verus!
