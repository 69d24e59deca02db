//! Transactional reads: all items are read twice, and the read succeeds only where
//! nothing changed in between.
use vstd::prelude::*;
use crate::cassandra_util::{bigint_of, get_optional, Row};
use crate::cql::Statement;
use crate::data::base_row::{
    image_text, is_reason, owner_of, row_image, select_by_pk, select_stmt, RowKey,
};
use crate::error::{is_validation, validation, CancellationReason, StorageError};
use crate::model::{same_bytes, Item};
use crate::text::str_eq;

verus! {

/// The reason is a conflict with another transaction.
pub open spec fn is_conflict(r: CancellationReason) -> bool {
    is_reason(r, "TransactionConflict"@, "Transaction is in use by another operation"@)
}

/// Create a transaction conflict cancellation reason.
pub fn transaction_conflict_reason() -> (r: CancellationReason)
    ensures
        is_conflict(r),
{
    CancellationReason::Other {
        code: "TransactionConflict".to_owned(),
        message: Some("Transaction is in use by another operation".to_owned()),
    }
}

/// The reason that the check of a key gives: none, or a validation error.
pub open spec fn key_reason(check: Option<String>) -> CancellationReason {
    match check {
        None => CancellationReason::NoReason,
        Some(m) => CancellationReason::ValidationError(m),
    }
}

/// Turn the checks of the keys of a transactional read into its first outcome: one
/// invalid key cancels it, and every operation gets a reason.
pub fn check_keys(checks: Vec<Option<String>>) -> (r: Result<(), StorageError>)
    ensures
        match r {
            Ok(_) => forall|i: int| 0 <= i < checks@.len() ==> (#[trigger] checks@[i]) is None,
            Err(e) => {
                &&& exists|i: int| 0 <= i < checks@.len() && (#[trigger] checks@[i]) is Some
                &&& e matches StorageError::TransactionCanceled(reasons)
                &&& reasons@.len() == checks@.len()
                &&& forall|i: int|
                    0 <= i < checks@.len() ==> #[trigger] reasons@[i] == key_reason(checks@[i])
            },
        },
{
    let ghost all = checks@;
    let mut rest = checks;
    let mut reasons: Vec<CancellationReason> = Vec::new();
    let mut any_failed = false;
    while rest.len() > 0
        invariant
            reasons@.len() + rest@.len() == all.len(),
            rest@ == all.skip(reasons@.len() as int),
            forall|i: int|
                0 <= i < reasons@.len() ==> #[trigger] reasons@[i] == key_reason(all[i]),
            any_failed == exists|i: int| 0 <= i < reasons@.len() && (#[trigger] all[i]) is Some,
        decreases rest@.len(),
    {
        let ghost k = reasons@.len() as int;
        assert(rest@[0] == all[k]);
        let check = rest.remove(0);
        proof {
            assert(rest@ =~= all.skip(k + 1));
        }
        match check {
            None => {
                reasons.push(CancellationReason::NoReason);
            },
            Some(m) => {
                any_failed = true;
                reasons.push(CancellationReason::ValidationError(m));
            },
        }
    }
    if any_failed {
        Err(StorageError::TransactionCanceled(reasons))
    } else {
        Ok(())
    }
}

/// Every account is the first one.
pub open spec fn one_account(accounts: Seq<String>) -> bool {
    forall|i: int| 0 <= i < accounts.len() ==> (#[trigger] accounts[i])@ == accounts[0]@
}

/// All operations of a transaction belong to one account.
pub fn check_accounts(accounts: &Vec<String>) -> (r: Result<(), StorageError>)
    ensures
        if one_account(accounts@) {
            r is Ok
        } else {
            r matches Err(e) && is_validation(e, "Cross-account transactions not supported"@)
        },
{
    let mut i: usize = 0;
    while i < accounts.len()
        invariant
            i <= accounts@.len(),
            forall|k: int| 0 <= k < i ==> (#[trigger] accounts@[k])@ == accounts@[0]@,
        decreases accounts@.len() - i,
    {
        if !str_eq(accounts[i].as_str(), accounts[0].as_str()) {
            assert(accounts@[i as int]@ != accounts@[0]@);
            return Err(validation("Cross-account transactions not supported"));
        }
        i = i + 1;
    }
    Ok(())
}

/// The statement by which a transactional read fetches an item and its version.
pub fn select_with_metadata(keyspace: &str, table: &str, key: &RowKey) -> (r: Statement)
    ensures
        r@ == select_stmt(
            keyspace@,
            table@,
            "item_data, last_committed_txn_timestamp, prepared_txn_id"@,
            *key,
        ),
{
    select_by_pk(
        keyspace,
        table,
        "item_data, last_committed_txn_timestamp, prepared_txn_id",
        key,
    )
}

/// The version of an item: the time of its last transaction, and the transaction
/// that has prepared it.
#[derive(Debug, PartialEq, Eq)]
pub struct ItemVersion {
    pub timestamp: i64,
    pub prepared: Option<Vec<u8>>,
}

/// The owner of a version.
pub open spec fn prepared_by(v: ItemVersion) -> Option<Seq<u8>> {
    match v.prepared {
        Some(b) => Some(b@),
        None => None,
    }
}

/// The version that a row carries: without a transaction its time is zero.
pub open spec fn is_version_of(v: ItemVersion, row: Row) -> bool {
    &&& v.timestamp == match bigint_of(row.cell("last_committed_txn_timestamp"@)) {
        Some(t) => t,
        None => 0,
    }
    &&& prepared_by(v) == owner_of(Some(row))
}

fn version_of(row: &Row) -> (r: ItemVersion)
    ensures
        is_version_of(r, *row),
{
    let timestamp: Option<i64> = get_optional(row, "last_committed_txn_timestamp");
    let prepared: Option<Vec<u8>> = get_optional(row, "prepared_txn_id");
    ItemVersion {
        timestamp: match timestamp {
            Some(t) => t,
            None => 0,
        },
        prepared,
    }
}

/// Read an item with full metadata for the first phase: its JSON text and its
/// version. A row without an item counts as absent.
pub fn read_item_with_metadata(row: &Option<Row>) -> (r: Option<(String, ItemVersion)>)
    ensures
        match r {
            Some((text, v)) => row is Some && image_text(*row) == Some(text@) && is_version_of(
                v,
                row->0,
            ),
            None => image_text(*row) is None,
        },
{
    match row {
        None => None,
        Some(found) => match row_image(row) {
            None => None,
            Some(text) => Some((text, version_of(found))),
        },
    }
}

/// Read the version of an item for the second phase. A row without an item counts
/// as absent, unless a transaction has prepared it.
pub fn read_item_metadata_only(row: &Option<Row>) -> (r: Option<ItemVersion>)
    ensures
        match r {
            Some(v) => row is Some && is_version_of(v, row->0) && (image_text(*row) is Some
                || owner_of(*row) is Some),
            None => image_text(*row) is None && owner_of(*row) is None,
        },
{
    match row {
        None => None,
        Some(found) => {
            let version = version_of(found);
            if row_image(row).is_none() && version.prepared.is_none() {
                None
            } else {
                Some(version)
            }
        },
    }
}

/// The versions agree.
pub open spec fn same_version(a: ItemVersion, b: ItemVersion) -> bool {
    a.timestamp == b.timestamp && prepared_by(a) == prepared_by(b)
}

/// Nothing relevant happened between the two reads of an item: it kept its version,
/// or it is gone now. An item that appeared did change.
pub open spec fn unchanged(first: Option<(Item, ItemVersion)>, second: Option<ItemVersion>) -> bool {
    match (first, second) {
        (Some((_, a)), Some(b)) => same_version(a, b),
        (None, Some(_)) => false,
        _ => true,
    }
}

/// The first read found a prepared item.
pub open spec fn is_prepared(first: Option<(Item, ItemVersion)>) -> bool {
    first matches Some((_, v)) && v.prepared is Some
}

/// The error is a cancellation of `n` operations for a conflict of operation `i`.
pub open spec fn is_conflict_at(e: StorageError, n: int, i: int) -> bool {
    &&& e matches StorageError::TransactionCanceled(reasons)
    &&& reasons@.len() == n
    &&& forall|k: int|
        0 <= k < n ==> if k == i {
            is_conflict(#[trigger] reasons@[k])
        } else {
            reasons@[k] == CancellationReason::NoReason
        }
}

fn conflict_at(n: usize, i: usize) -> (e: StorageError)
    requires
        i < n,
    ensures
        is_conflict_at(e, n as int, i as int),
{
    let mut reasons: Vec<CancellationReason> = Vec::new();
    let mut k: usize = 0;
    while k < n
        invariant
            k <= n,
            reasons@.len() == k,
            forall|j: int|
                0 <= j < k ==> if j == i {
                    is_conflict(#[trigger] reasons@[j])
                } else {
                    reasons@[j] == CancellationReason::NoReason
                },
        decreases n - k,
    {
        if k == i {
            reasons.push(transaction_conflict_reason());
        } else {
            reasons.push(CancellationReason::NoReason);
        }
        k = k + 1;
    }
    StorageError::TransactionCanceled(reasons)
}

fn same_prepared(a: &Option<Vec<u8>>, b: &Option<Vec<u8>>) -> (r: bool)
    ensures
        r == (match (*a, *b) {
            (Some(x), Some(y)) => x@ == y@,
            (None, None) => true,
            _ => false,
        }),
{
    match (a, b) {
        (Some(x), Some(y)) => same_bytes(x, y),
        (None, None) => true,
        _ => false,
    }
}

/// A transactional read in its second phase: what the first phase found, and what
/// the second has found so far.
#[derive(Debug, PartialEq, Eq)]
pub struct SnapshotRead {
    pub first: Vec<Option<(Item, ItemVersion)>>,
    pub second: Vec<Option<ItemVersion>>,
}

/// Nothing was prepared in the first phase, and nothing changed so far.
pub open spec fn snapshot_wf(s: SnapshotRead) -> bool {
    &&& s.second@.len() <= s.first@.len()
    &&& forall|i: int| 0 <= i < s.first@.len() ==> !is_prepared(#[trigger] s.first@[i])
    &&& forall|i: int|
        0 <= i < s.second@.len() ==> unchanged(s.first@[i], #[trigger] s.second@[i])
}

/// Start the second phase. The first item that a transaction has prepared cancels
/// the read.
pub fn begin_second_phase(first: Vec<Option<(Item, ItemVersion)>>) -> (r: Result<
    SnapshotRead,
    StorageError,
>)
    ensures
        match r {
            Ok(s) => snapshot_wf(s) && s.first == first && s.second@.len() == 0,
            Err(e) => exists|i: int|
                0 <= i < first@.len() && is_prepared(#[trigger] first@[i]) && (forall|k: int|
                    0 <= k < i ==> !is_prepared(#[trigger] first@[k])) && is_conflict_at(
                    e,
                    first@.len() as int,
                    i,
                ),
        },
{
    let mut i: usize = 0;
    while i < first.len()
        invariant
            i <= first@.len(),
            forall|k: int| 0 <= k < i ==> !is_prepared(#[trigger] first@[k]),
        decreases first@.len() - i,
    {
        let prepared = match &first[i] {
            Some((_, v)) => v.prepared.is_some(),
            None => false,
        };
        if prepared {
            assert(is_prepared(first@[i as int]));
            return Err(conflict_at(first.len(), i));
        }
        i = i + 1;
    }
    Ok(SnapshotRead { first, second: Vec::new() })
}

/// Take the next version of the second phase. A change cancels the read.
pub fn verify_next(read: SnapshotRead, version: Option<ItemVersion>) -> (r: Result<
    SnapshotRead,
    StorageError,
>)
    requires
        snapshot_wf(read),
        read.second@.len() < read.first@.len(),
    ensures
        ({
            let i = read.second@.len() as int;
            match r {
                Ok(s) => {
                    &&& unchanged(read.first@[i], version)
                    &&& snapshot_wf(s)
                    &&& s.first == read.first
                    &&& s.second@ == read.second@.push(version)
                },
                Err(e) => !unchanged(read.first@[i], version) && is_conflict_at(
                    e,
                    read.first@.len() as int,
                    i,
                ),
            }
        }),
{
    let i = read.second.len();
    let same = match (&read.first[i], &version) {
        (Some((_, a)), Some(b)) => a.timestamp == b.timestamp && same_prepared(
            &a.prepared,
            &b.prepared,
        ),
        (None, Some(_)) => false,
        _ => true,
    };
    if !same {
        return Err(conflict_at(read.first.len(), i));
    }
    let SnapshotRead { first, second } = read;
    let mut second = second;
    second.push(version);
    Ok(SnapshotRead { first, second })
}

/// The items that the first phase found.
pub fn finish_snapshot(read: SnapshotRead) -> (r: Vec<Option<Item>>)
    requires
        snapshot_wf(read),
        read.second@.len() == read.first@.len(),
    ensures
        r@.len() == read.first@.len(),
        forall|i: int|
            #![trigger r@[i]]
            0 <= i < r@.len() ==> r@[i] == (match read.first@[i] {
                Some((item, _)) => Some(item),
                None => None,
            }),
{
    let ghost all = read.first@;
    let mut rest = read.first;
    let mut out: Vec<Option<Item>> = Vec::new();
    while rest.len() > 0
        invariant
            out@.len() + rest@.len() == all.len(),
            rest@ == all.skip(out@.len() as int),
            forall|i: int|
                #![trigger out@[i]]
                0 <= i < out@.len() ==> out@[i] == (match all[i] {
                    Some((item, _)) => Some(item),
                    None => None,
                }),
        decreases rest@.len(),
    {
        let ghost k = out@.len() as int;
        assert(rest@[0] == all[k]);
        let found = rest.remove(0);
        proof {
            assert(rest@ =~= all.skip(k + 1));
        }
        match found {
            Some((item, _)) => {
                out.push(Some(item));
            },
            None => {
                out.push(None);
            },
        }
    }
    out
}

/// Operation `i` is the one that a conflict is reported for: the first that was
/// prepared, or, where nothing was prepared, the first that changed.
pub open spec fn is_first_conflict(
    first: Seq<Option<(Item, ItemVersion)>>,
    second: Seq<Option<ItemVersion>>,
    i: int,
) -> bool {
    if is_prepared(first[i]) {
        forall|k: int| 0 <= k < i ==> !is_prepared(#[trigger] first[k])
    } else {
        &&& forall|k: int| 0 <= k < first.len() ==> !is_prepared(#[trigger] first[k])
        &&& !unchanged(first[i], second[i])
        &&& forall|k: int| 0 <= k < i ==> unchanged(#[trigger] first[k], second[k])
    }
}

/// Read items as a transaction: given everything that both phases find, the read
/// succeeds exactly where nothing was prepared and nothing changed, and then gives
/// the items of the first phase. Else the first prepared item, or without one the
/// first changed item, is the conflict that cancels it.
pub fn transact_get_items_impl(
    first: Vec<Option<(Item, ItemVersion)>>,
    second: Vec<Option<ItemVersion>>,
) -> (r: Result<Vec<Option<Item>>, StorageError>)
    requires
        first@.len() == second@.len(),
    ensures
        match r {
            Ok(items) => {
                &&& forall|i: int| 0 <= i < first@.len() ==> !is_prepared(#[trigger] first@[i])
                &&& forall|i: int|
                    0 <= i < second@.len() ==> unchanged(first@[i], #[trigger] second@[i])
                &&& items@.len() == first@.len()
                &&& forall|i: int|
                    #![trigger items@[i]]
                    0 <= i < items@.len() ==> items@[i] == (match first@[i] {
                        Some((item, _)) => Some(item),
                        None => None,
                    })
            },
            Err(e) => exists|i: int|
                #![trigger first@[i]]
                0 <= i < first@.len() && is_first_conflict(first@, second@, i) && is_conflict_at(
                    e,
                    first@.len() as int,
                    i,
                ),
        },
{
    let ghost all = second@;
    let ghost found = first@;
    let mut read = begin_second_phase(first)?;
    let mut rest = second;
    while rest.len() > 0
        invariant
            snapshot_wf(read),
            read.first@ == found,
            found == first@,
            all == second@,
            all.len() == found.len(),
            read.second@ == all.take(read.second@.len() as int),
            read.second@.len() + rest@.len() == all.len(),
            rest@ == all.skip(read.second@.len() as int),
        decreases rest@.len(),
    {
        let ghost k = read.second@.len() as int;
        assert(rest@[0] == all[k]);
        let version = rest.remove(0);
        proof {
            assert(rest@ =~= all.skip(k + 1));
            assert(all.take(k + 1) =~= all.take(k).push(all[k]));
        }
        match verify_next(read, version) {
            Ok(s) => {
                read = s;
            },
            Err(e) => {
                proof {
                    assert(!unchanged(found[k], all[k]));
                    assert forall|j: int| 0 <= j < k implies unchanged(
                        #[trigger] found[j],
                        all[j],
                    ) by {
                        assert(read.second@[j] == all[j]);
                    }
                    assert(is_first_conflict(found, all, k));
                }
                return Err(e);
            },
        }
    }
    proof {
        assert(read.second@ =~= all);
    }
    Ok(finish_snapshot(read))
}

} // verus!
