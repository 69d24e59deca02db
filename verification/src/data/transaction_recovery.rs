//! Recovery of transactions that did not finish, from what the ledger recorded.
use vstd::prelude::*;
use crate::cassandra_util::Row;
use crate::cql::{sk_col, Statement};
use crate::data::base_row::{key_binds, where_text, RowKey};
use crate::data::ddl::{data_table, data_table_name};
use crate::data::delete_item::{
    mark_null_stmt, raise_stmt, update_partition_max_delete_timestamp_at,
};
use crate::data::ledger_key::{ledger_key_error, ledger_reads, ledger_sk_to_sort_key, same_sort_key};
use crate::data::transaction_ledger::{state_from, LedgerOp, TransactionState};
use crate::data::transaction_rows::{
    check_lwt_applied, commit_delete, commit_delete_stmt, commit_put_or_update, commit_write_stmt,
    rollback_clear_stmt, rollback_delete_stmt, rollback_statements, took_effect, CommitDelete,
    Rollback,
};
use crate::data::transactions::{filled, key_typed, names_row};
use crate::error::{is_internal, StorageError};
use crate::ids::{uuid_text, uuid_text_of};
use crate::model::SortKeyBind;
use crate::text::{cat2, cat4, str_eq};

verus! {

/// A stale transaction is committed where its ledger says that it was committing;
/// in every other state, and in an unknown one, it is rolled back.
pub fn recovers_by_commit(state: &str) -> (r: bool)
    ensures
        r == (state_from(state@) == Some(TransactionState::Committing)),
{
    match TransactionState::from_str(state) {
        Some(TransactionState::Committing) => true,
        _ => false,
    }
}

/// The ledger operation has a sort key.
pub open spec fn has_sort_key(op: LedgerOp) -> bool {
    op.sk_col is Some && op.sk_val is Some
}

/// The sort key of the ledger operation can be read.
pub open spec fn sort_key_readable(op: LedgerOp) -> bool {
    has_sort_key(op) ==> ledger_reads(op.sk_col->0@, op.sk_val->0@) is Some
}

/// The row key is the one that the ledger operation names.
pub open spec fn is_ledger_key(op: LedgerOp, key: RowKey) -> bool {
    &&& key.pk@ == op.pk@
    &&& match key.sk {
        Some(b) => has_sort_key(op) && ledger_reads(op.sk_col->0@, op.sk_val->0@) == Some(b.value@)
            && sk_col(b.sk_type) == op.sk_col->0@,
        None => !has_sort_key(op),
    }
}

/// The row that a `LedgerOp` names.
pub fn ledger_sk(op: &LedgerOp) -> (r: Result<RowKey, StorageError>)
    ensures
        match r {
            Ok(key) => sort_key_readable(*op) && is_ledger_key(*op, key),
            Err(e) => !sort_key_readable(*op) && is_internal(
                e,
                ledger_key_error(op.sk_col->0@, op.sk_val->0@),
            ),
        },
{
    let sk: Option<SortKeyBind> = match (&op.sk_col, &op.sk_val) {
        (Some(col), Some(val)) => Some(ledger_sk_to_sort_key(col.as_str(), val.as_str())?),
        _ => None,
    };
    Ok(RowKey { pk: op.pk.clone(), sk })
}

/// What recovery does to commit an operation: nothing for a check, one statement
/// for a put or an update, and for a deletion the marking of its time (set, and
/// raised where it was set already) and the deletion. Statements that do not apply
/// were applied before.
#[derive(Debug, PartialEq, Eq)]
pub enum RecoverCommit {
    Nothing,
    Write(Statement),
    Delete { mark: Statement, raise: Statement, delete: Statement },
}

/// The recovery step commits the operation.
pub open spec fn recovers(
    r: RecoverCommit,
    ks: Seq<char>,
    op: LedgerOp,
    key: RowKey,
    txn_id: Seq<u8>,
    ts: i64,
) -> bool {
    match r {
        RecoverCommit::Nothing => false,
        RecoverCommit::Write(s) => {
            &&& op.op@ == "PUT"@ || op.op@ == "UPDATE"@
            &&& op.item_data is Some
            &&& s@ == commit_write_stmt(
                ks,
                data_table(op.table_id@),
                key,
                op.item_data->0@,
                ts,
                txn_id,
            )
        },
        RecoverCommit::Delete { mark, raise, delete } => {
            &&& op.op@ == "DELETE"@
            &&& mark@ == mark_null_stmt(ks, data_table(op.table_id@), op.pk@, ts)
            &&& raise@ == raise_stmt(ks, data_table(op.table_id@), op.pk@, ts)
            &&& delete@ == commit_delete_stmt(ks, data_table(op.table_id@), key, txn_id)
        },
    }
}

/// The error of an operation that recovery cannot commit.
pub open spec fn recover_error(op: LedgerOp, txn_id: Seq<u8>) -> Seq<char> {
    if !sort_key_readable(op) {
        ledger_key_error(op.sk_col->0@, op.sk_val->0@)
    } else if op.op@ == "PUT"@ || op.op@ == "UPDATE"@ {
        "ledger op "@ + op.op@ + " missing item_data for "@ + uuid_text_of(txn_id)
    } else {
        "unknown op in ledger: "@ + op.op@
    }
}

/// The operation can be committed from the ledger.
pub open spec fn recoverable(op: LedgerOp) -> bool {
    sort_key_readable(op) && (if op.op@ == "PUT"@ || op.op@ == "UPDATE"@ {
        op.item_data is Some
    } else {
        op.op@ == "DELETE"@
    })
}

/// Commit a single operation during recovery.
///
/// PUT/UPDATE: write `item_data`, clear `prepared_txn_id`, set `last_committed_txn_timestamp`.
/// DELETE: update `partition_max_delete_timestamp`, then delete the row.
/// CHECK: no-op.
pub fn recover_commit_op(keyspace: &str, op: &LedgerOp, txn_id: &Vec<u8>, txn_timestamp: i64) -> (r:
    Result<RecoverCommit, StorageError>)
    requires
        txn_id@.len() == 16,
    ensures
        if op.op@ == "CHECK"@ {
            r == Ok::<RecoverCommit, StorageError>(RecoverCommit::Nothing)
        } else {
            match r {
                Ok(c) => recoverable(*op) && exists|key: RowKey|
                    #[trigger] is_ledger_key(*op, key) && recovers(
                        c,
                        keyspace@,
                        *op,
                        key,
                        txn_id@,
                        txn_timestamp,
                    ),
                Err(e) => !recoverable(*op) && is_internal(e, recover_error(*op, txn_id@)),
            }
        },
{
    if str_eq(op.op.as_str(), "CHECK") {
        return Ok(RecoverCommit::Nothing);
    }
    let table = data_table_name(op.table_id.as_str());
    let key = ledger_sk(op)?;
    proof {
        reveal_strlit("PUT");
        reveal_strlit("UPDATE");
        reveal_strlit("DELETE");
        assert("PUT"@[0] == 'P');
        assert("UPDATE"@[0] == 'U');
        assert("DELETE"@[0] == 'D');
    }
    if str_eq(op.op.as_str(), "PUT") || str_eq(op.op.as_str(), "UPDATE") {
        match &op.item_data {
            Some(item) => {
                let s = commit_put_or_update(
                    keyspace,
                    table.as_str(),
                    &key,
                    item.as_str(),
                    txn_timestamp,
                    txn_id,
                );
                Ok(RecoverCommit::Write(s))
            },
            None => {
                let id = uuid_text(txn_id);
                Err(
                    StorageError::Internal(
                        cat4(
                            "ledger op ",
                            op.op.as_str(),
                            " missing item_data for ",
                            id.as_str(),
                        ),
                    ),
                )
            },
        }
    } else if str_eq(op.op.as_str(), "DELETE") {
        let (mark, raise) = update_partition_max_delete_timestamp_at(
            keyspace,
            table.as_str(),
            op.pk.as_str(),
            txn_timestamp,
        );
        let delete = commit_delete(keyspace, table.as_str(), &key, txn_id);
        Ok(RecoverCommit::Delete { mark, raise, delete })
    } else {
        Err(StorageError::Internal(cat2("unknown op in ledger: ", op.op.as_str())))
    }
}

/// The step after one of a deletion's commit during recovery; `None` when it is
/// done. A deletion that does not apply was applied before.
pub fn recover_delete_next(step: CommitDelete, rows: Option<&Vec<Row>>) -> (r: Option<CommitDelete>)
    ensures
        r == (match step {
            CommitDelete::Mark => if took_effect(rows) {
                Some(CommitDelete::Delete)
            } else {
                Some(CommitDelete::Raise)
            },
            CommitDelete::Raise => Some(CommitDelete::Delete),
            CommitDelete::Delete => None::<CommitDelete>,
        }),
{
    match step {
        CommitDelete::Mark => match check_lwt_applied(rows) {
            Ok(_) => Some(CommitDelete::Delete),
            Err(_) => Some(CommitDelete::Raise),
        },
        CommitDelete::Raise => Some(CommitDelete::Delete),
        CommitDelete::Delete => None,
    }
}

/// The step after one of a rollback during recovery; `None` when it is done. A mark
/// that cannot be cleared is held by another transaction, or is gone.
pub fn recover_rollback_next(step: Rollback, rows: Option<&Vec<Row>>) -> (r: Option<Rollback>)
    ensures
        r == (match step {
            Rollback::Remove => if took_effect(rows) {
                None::<Rollback>
            } else {
                Some(Rollback::Clear)
            },
            Rollback::Clear => None::<Rollback>,
        }),
{
    match step {
        Rollback::Remove => match check_lwt_applied(rows) {
            Ok(_) => None,
            Err(_) => Some(Rollback::Clear),
        },
        Rollback::Clear => None,
    }
}

/// Roll a single operation back during recovery: the statement that removes a row
/// which preparing created, and the one that clears the mark where that did not
/// apply. `None` for a check.
pub fn recover_rollback_op(keyspace: &str, op: &LedgerOp, txn_id: &Vec<u8>) -> (r: Result<
    Option<(Statement, Statement)>,
    StorageError,
>)
    ensures
        if op.op@ == "CHECK"@ {
            r == Ok::<Option<(Statement, Statement)>, StorageError>(None)
        } else {
            match r {
                Ok(Some((remove, clear))) => sort_key_readable(*op) && exists|key: RowKey|
                    #[trigger] is_ledger_key(*op, key) && remove@ == rollback_delete_stmt(
                        keyspace@,
                        data_table(op.table_id@),
                        key,
                        txn_id@,
                    ) && clear@ == rollback_clear_stmt(
                        keyspace@,
                        data_table(op.table_id@),
                        key,
                        txn_id@,
                    ),
                Ok(None) => false,
                Err(e) => !sort_key_readable(*op) && is_internal(
                    e,
                    ledger_key_error(op.sk_col->0@, op.sk_val->0@),
                ),
            }
        },
{
    if str_eq(op.op.as_str(), "CHECK") {
        return Ok(None);
    }
    let table = data_table_name(op.table_id.as_str());
    let key = ledger_sk(op)?;
    let (remove, clear) = rollback_statements(keyspace, table.as_str(), &key, txn_id);
    proof {
        assert(is_ledger_key(*op, key));
    }
    Ok(Some((remove, clear)))
}

/// The item that recovery reconciles the expiration queue with, after it committed
/// an operation: that of a put or an update.
pub fn reconciled_item(op: &LedgerOp) -> (r: Option<String>)
    ensures
        r == (if op.op@ == "PUT"@ || op.op@ == "UPDATE"@ {
            op.item_data
        } else {
            None
        }),
{
    if str_eq(op.op.as_str(), "PUT") || str_eq(op.op.as_str(), "UPDATE") {
        match &op.item_data {
            Some(s) => Some(s.clone()),
            None => None,
        }
    } else {
        None
    }
}

/// How far the recovery of a transaction has come: whether it commits or rolls
/// back, how many operations the transaction has, which of those that were
/// attempted are finished, up to where the expiration entries were dealt with, and
/// the first error.
#[derive(Debug, PartialEq, Eq)]
pub struct Recovery {
    pub commits: bool,
    pub total: usize,
    pub finished: Vec<bool>,
    pub reconciled: usize,
    pub error: Option<StorageError>,
}

/// The recovery is one that follows the steps: an operation that is not finished has
/// left an error, and expiration entries are dealt with only where every operation
/// was attempted and recovery commits.
pub open spec fn recovery_wf(r: Recovery) -> bool {
    &&& r.finished@.len() <= r.total
    &&& r.reconciled <= r.total
    &&& r.reconciled > 0 ==> r.commits && r.finished@.len() == r.total
    &&& r.error is None ==> forall|i: int| 0 <= i < r.finished@.len() ==> r.finished@[i]
}

/// What recovery does next: finish an operation, restore the expiration entry of one
/// that was committed, remove the ledger entry, or stop and leave it in place.
#[derive(Clone, Copy, Debug, PartialEq, Eq, Structural)]
pub enum RecoveryStep {
    Finish(usize),
    Reconcile(usize),
    Forget,
    Stop,
}

/// The first finished operation from `i` on; the number of operations where there is
/// none.
pub open spec fn next_finished(finished: Seq<bool>, i: nat) -> nat
    decreases finished.len() - i,
{
    if i >= finished.len() {
        finished.len()
    } else if finished[i as int] {
        i
    } else {
        next_finished(finished, i + 1)
    }
}

/// The next step of a recovery. Every operation is attempted, whatever became of
/// the ones before it; the ledger entry goes only where all of them succeeded.
pub open spec fn recovery_step(r: Recovery) -> RecoveryStep {
    if r.finished@.len() < r.total {
        RecoveryStep::Finish(r.finished@.len() as usize)
    } else if r.commits && next_finished(r.finished@, r.reconciled as nat) < r.total {
        RecoveryStep::Reconcile(next_finished(r.finished@, r.reconciled as nat) as usize)
    } else if r.error is None {
        RecoveryStep::Forget
    } else {
        RecoveryStep::Stop
    }
}

/// Start to recover a transaction of `total` operations, whose ledger is in a state.
pub fn start_recovery(state: &str, total: usize) -> (r: Recovery)
    ensures
        recovery_wf(r),
        r.commits == (state_from(state@) == Some(TransactionState::Committing)),
        r.total == total,
        r.finished@.len() == 0,
        r.reconciled == 0,
        r.error is None,
{
    Recovery {
        commits: recovers_by_commit(state),
        total,
        finished: Vec::new(),
        reconciled: 0,
        error: None,
    }
}

/// The next step of a recovery.
pub fn recover_transaction(r: &Recovery) -> (step: RecoveryStep)
    requires
        recovery_wf(*r),
    ensures
        step == recovery_step(*r),
{
    if r.finished.len() < r.total {
        return RecoveryStep::Finish(r.finished.len());
    }
    if r.commits {
        let mut i: usize = r.reconciled;
        while i < r.total
            invariant
                i <= r.total,
                r.finished@.len() == r.total,
                next_finished(r.finished@, r.reconciled as nat) == next_finished(
                    r.finished@,
                    i as nat,
                ),
                r.commits,
            decreases r.total - i,
        {
            if r.finished[i] {
                return RecoveryStep::Reconcile(i);
            }
            i = i + 1;
        }
    }
    if r.error.is_none() {
        RecoveryStep::Forget
    } else {
        RecoveryStep::Stop
    }
}

/// The first of two errors.
pub open spec fn first_error(
    before: Option<StorageError>,
    outcome: Result<(), StorageError>,
) -> Option<StorageError> {
    match before {
        Some(e) => Some(e),
        None => match outcome {
            Ok(_) => None,
            Err(e) => Some(e),
        },
    }
}

/// Record the outcome of a step: an operation counts as finished where it
/// succeeded, and the first error is kept.
pub fn record_recovery(r: Recovery, outcome: Result<(), StorageError>) -> (n: Recovery)
    requires
        recovery_wf(r),
        recovery_step(r) is Finish || recovery_step(r) is Reconcile,
    ensures
        recovery_wf(n),
        n.commits == r.commits,
        n.total == r.total,
        n.error == first_error(r.error, outcome),
        match recovery_step(r) {
            RecoveryStep::Finish(_) => n.finished@ == r.finished@.push(outcome is Ok)
                && n.reconciled == r.reconciled,
            RecoveryStep::Reconcile(i) => n.finished@ == r.finished@ && n.reconciled == i + 1,
            _ => false,
        },
{
    let step = recover_transaction(&r);
    let Recovery { commits, total, finished, reconciled, error } = r;
    let succeeded = outcome.is_ok();
    let error = match error {
        Some(e) => Some(e),
        None => match outcome {
            Ok(_) => None,
            Err(e) => Some(e),
        },
    };
    let mut finished = finished;
    let mut reconciled: usize = reconciled;
    match step {
        RecoveryStep::Finish(_) => {
            finished.push(succeeded);
        },
        RecoveryStep::Reconcile(i) => {
            proof {
                lemma_next_finished(finished@, reconciled as nat);
            }
            reconciled = i + 1;
        },
        _ => {},
    }
    Recovery { commits, total, finished, reconciled, error }
}

proof fn lemma_next_finished(finished: Seq<bool>, i: nat)
    requires
        i <= finished.len(),
    ensures
        i <= next_finished(finished, i) <= finished.len(),
        next_finished(finished, i) < finished.len() ==> finished[next_finished(
            finished,
            i,
        ) as int],
        forall|k: int| i <= k < next_finished(finished, i) ==> !finished[k],
    decreases finished.len() - i,
{
    if i < finished.len() && !finished[i as int] {
        lemma_next_finished(finished, i + 1);
    }
}

/// An error during one operation does not keep recovery from the others, and the
/// ledger entry outlives every failure: recovery ends only after it has attempted
/// every operation, removes the entry exactly where all of them were finished and no
/// step failed, and restores an expiration entry only for an operation that it has
/// committed.
pub proof fn law_recovery_attempts_every_operation(r: Recovery)
    requires
        recovery_wf(r),
    ensures
        recovery_step(r) is Forget || recovery_step(r) is Stop ==> r.finished@.len() == r.total,
        recovery_step(r) is Forget ==> r.error is None && forall|i: int|
            0 <= i < r.total ==> #[trigger] r.finished@[i],
        recovery_step(r) is Stop ==> r.error is Some,
        recovery_step(r) matches RecoveryStep::Reconcile(i) ==> r.commits && r.reconciled <= i
            < r.total && r.finished@[i as int],
        r.commits && (recovery_step(r) is Forget || recovery_step(r) is Stop) ==> forall|i: int|
            r.reconciled <= i < r.total ==> !#[trigger] r.finished@[i],
{
    if r.finished@.len() == r.total {
        lemma_next_finished(r.finished@, r.reconciled as nat);
    }
}

/// Recovery addresses the row that the transaction addressed: by the same columns,
/// with the same partition key, and with the same sort key, a number by its value.
/// A row without a numeric sort key is addressed by the very same values.
pub proof fn law_recovery_finds_the_row(op: LedgerOp, key: RowKey, recovered: RowKey)
    requires
        key_typed(key),
        names_row(op, key),
        is_ledger_key(op, recovered),
    ensures
        where_text(recovered) == where_text(key),
        recovered.pk@ == key.pk@,
        recovered.sk is Some <==> key.sk is Some,
        key.sk is Some ==> same_sort_key(recovered.sk->0.value@, key.sk->0.value@),
        !(key.sk is Some && key.sk->0.value@ is N) ==> key_binds(recovered) == key_binds(key),
{
}

/// Filling in the items of the updates does not change which row an operation names.
pub proof fn law_filling_keeps_the_row(op: LedgerOp, computed: Option<String>, key: RowKey)
    requires
        names_row(op, key),
    ensures
        names_row(filled(op, computed), key),
        filled(op, computed).op == op.op,
        filled(op, computed).table_id == op.table_id,
{
}

} // verus!
