//! The transaction ledger: the durable record by which a transaction is resumed or
//! rolled back.
use vstd::prelude::*;
use crate::engine::CassandraEngine;
use crate::cassandra_util::{get_column, get_optional, map_rows, Cell, Row};
use crate::cql::{
    push_value, stmt, stmt1, stmt2, text_value, uuid_value, values_view, CqlValue, CqlView,
    Statement,
};
use crate::error::{internal, is_internal, StorageError};
use crate::text::{cat3, str_eq};

verus! {

/// Transaction states (from DynamoDB paper).
#[derive(Clone, Copy, Debug, PartialEq, Eq, Structural)]
pub enum TransactionState {
    Preparing,
    Committing,
    Cancelling,
}

/// The stored text of a state.
pub open spec fn state_text(s: TransactionState) -> Seq<char> {
    match s {
        TransactionState::Preparing => "PREPARING"@,
        TransactionState::Committing => "COMMITTING"@,
        TransactionState::Cancelling => "CANCELLING"@,
    }
}

/// The state that a stored text stands for.
pub open spec fn state_from(s: Seq<char>) -> Option<TransactionState> {
    if s == "PREPARING"@ {
        Some(TransactionState::Preparing)
    } else if s == "COMMITTING"@ {
        Some(TransactionState::Committing)
    } else if s == "CANCELLING"@ {
        Some(TransactionState::Cancelling)
    } else {
        None
    }
}

impl TransactionState {
    /// The stored text of the state.
    pub fn as_str(&self) -> (r: &'static str)
        ensures
            r@ == state_text(*self),
    {
        match self {
            TransactionState::Preparing => "PREPARING",
            TransactionState::Committing => "COMMITTING",
            TransactionState::Cancelling => "CANCELLING",
        }
    }

    /// The state that a stored text stands for; `None` where it is unknown.
    pub fn from_str(s: &str) -> (r: Option<TransactionState>)
        ensures
            r == state_from(s@),
    {
        if str_eq(s, "PREPARING") {
            Some(TransactionState::Preparing)
        } else if str_eq(s, "COMMITTING") {
            Some(TransactionState::Committing)
        } else if str_eq(s, "CANCELLING") {
            Some(TransactionState::Cancelling)
        } else {
            None
        }
    }
}

/// A stored state reads back as itself, and nothing else reads as it.
pub proof fn law_state_round_trip(s: TransactionState, text: Seq<char>)
    ensures
        state_from(state_text(s)) == Some(s),
        state_from(text) == Some(s) <==> text == state_text(s),
{
    reveal_strlit("PREPARING");
    reveal_strlit("COMMITTING");
    reveal_strlit("CANCELLING");
    assert("PREPARING"@[0] == 'P');
    assert("COMMITTING"@[1] == 'O');
    assert("CANCELLING"@[1] == 'A');
    assert("COMMITTING"@[0] == 'C');
    assert("CANCELLING"@[0] == 'C');
}

/// A single operation stored in the transaction ledger blob.
///
/// This is the serializable, owned projection of what the PREPARE phase
/// computed. By the time a `LedgerOp` is created, all conditions have been evaluated
/// and update actions applied. It therefore contains only the minimal data
/// needed to either resume a COMMIT (write `item_data` to the base table and
/// clear the transaction marker) or execute a ROLLBACK (delete the row if
/// `created_to_prepare` is set on it, otherwise clear the transaction marker).
#[derive(Debug, PartialEq, Eq)]
pub struct LedgerOp {
    /// Operation type: "PUT", "UPDATE", "DELETE", "CHECK"
    pub op: String,
    /// DynamoDB table ID (not table name)
    pub table_id: String,
    /// Composite partition key text (as stored in Cassandra `pk` column)
    pub pk: String,
    /// Sort key column name ("sk_s", "sk_n", "sk_b"), if table has a sort key
    pub sk_col: Option<String>,
    /// Sort key value as text, if table has a sort key
    pub sk_val: Option<String>,
    /// Final item data JSON for PUT/UPDATE (the post-mutation state to write on
    /// COMMIT). None for DELETE and CHECK, which require no item data.
    pub item_data: Option<String>,
}

/// Transaction ledger entry.
#[derive(Debug, PartialEq, Eq)]
pub struct LedgerEntry {
    pub txn_id: Vec<u8>,
    pub state: String,
    pub started_at: i64,
    pub client_token: Option<String>,
    pub request_fingerprint: Option<String>,
    pub items_blob: String,
}

/// A text value that may be null.
pub open spec fn nullable(t: Option<&str>) -> CqlView {
    match t {
        Some(s) => CqlView::Text(s@),
        None => CqlView::Null,
    }
}

fn nullable_value(t: Option<&str>) -> (r: CqlValue)
    ensures
        r@ == nullable(t),
{
    match t {
        Some(s) => text_value(s),
        None => CqlValue::Null,
    }
}

impl CassandraEngine {
    /// The statement that writes a new ledger entry, if its transaction id is unused.
    pub fn write_ledger_entry(
        keyspace: &str,
        txn_id: &Vec<u8>,
        state: TransactionState,
        started_at: i64,
        client_token: Option<&str>,
        request_fingerprint: Option<&str>,
        items_blob: &str,
    ) -> (r: Statement)
        ensures
            r@ == stmt(
                "INSERT INTO "@ + keyspace@
                    + ".transaction_ledger (txn_id, state, started_at, client_token, request_fingerprint, items_blob) VALUES (?, ?, ?, ?, ?, ?) IF NOT EXISTS"@,
                seq![
                    CqlView::Uuid(txn_id@),
                    CqlView::Text(state_text(state)),
                    CqlView::BigInt(started_at),
                    nullable(client_token),
                    nullable(request_fingerprint),
                    CqlView::Text(items_blob@),
                ],
            ),
    {
        let mut values: Vec<CqlValue> = Vec::new();
        push_value(&mut values, uuid_value(txn_id));
        push_value(&mut values, text_value(state.as_str()));
        push_value(&mut values, CqlValue::BigInt(started_at));
        push_value(&mut values, nullable_value(client_token));
        push_value(&mut values, nullable_value(request_fingerprint));
        push_value(&mut values, text_value(items_blob));
        proof {
            assert(values_view(values@) =~= seq![
                CqlView::Uuid(txn_id@),
                CqlView::Text(state_text(state)),
                CqlView::BigInt(started_at),
                nullable(client_token),
                nullable(request_fingerprint),
                CqlView::Text(items_blob@),
            ]);
        }
        Statement {
            cql: cat3(
                "INSERT INTO ",
                keyspace,
                ".transaction_ledger (txn_id, state, started_at, client_token, request_fingerprint, items_blob) VALUES (?, ?, ?, ?, ?, ?) IF NOT EXISTS",
            ),
            values,
        }
    }
}

/// The outcome of writing a ledger entry: an id that is in use is an error, and so is
/// a response whose outcome cannot be read.
pub fn ledger_written(rows: &Vec<Row>) -> (r: Result<(), StorageError>)
    ensures
        if rows@.len() == 0 || rows@[0].cell("[applied]"@) == Cell::Boolean(true) {
            r is Ok
        } else if rows@[0].cell("[applied]"@) == Cell::Boolean(false) {
            r matches Err(e) && is_internal(e, "Transaction ID already exists"@)
        } else {
            r matches Err(e) && is_internal(e, "Database error"@)
        },
{
    if rows.len() == 0 {
        return Ok(());
    }
    let applied: bool = get_column(&rows[0], "[applied]")?;
    if applied {
        Ok(())
    } else {
        Err(internal("Transaction ID already exists"))
    }
}

impl CassandraEngine {
    /// The statement that moves a ledger entry to a state.
    pub fn update_ledger_state(keyspace: &str, txn_id: &Vec<u8>, new_state: TransactionState) -> (r:
        Statement)
        ensures
            r@ == stmt(
                "UPDATE "@ + keyspace@ + ".transaction_ledger SET state = ? WHERE txn_id = ?"@,
                seq![CqlView::Text(state_text(new_state)), CqlView::Uuid(txn_id@)],
            ),
    {
        stmt2(
            cat3("UPDATE ", keyspace, ".transaction_ledger SET state = ? WHERE txn_id = ?"),
            text_value(new_state.as_str()),
            uuid_value(txn_id),
        )
    }
}

impl CassandraEngine {
    /// The statement that stores the full list of operations, once everything is
    /// prepared and before the transaction commits.
    pub fn update_ledger_blob(keyspace: &str, txn_id: &Vec<u8>, blob: &str) -> (r: Statement)
        ensures
            r@ == stmt(
                "UPDATE "@ + keyspace@ + ".transaction_ledger SET items_blob = ? WHERE txn_id = ?"@,
                seq![CqlView::Text(blob@), CqlView::Uuid(txn_id@)],
            ),
    {
        stmt2(
            cat3("UPDATE ", keyspace, ".transaction_ledger SET items_blob = ? WHERE txn_id = ?"),
            text_value(blob),
            uuid_value(txn_id),
        )
    }
}

/// The statement that reads a ledger entry.
pub fn select_ledger_entry(keyspace: &str, txn_id: &Vec<u8>) -> (r: Statement)
    ensures
        r@ == stmt(
            "SELECT txn_id, state, started_at, client_token, request_fingerprint, items_blob FROM "@
                + keyspace@ + ".transaction_ledger WHERE txn_id = ?"@,
            seq![CqlView::Uuid(txn_id@)],
        ),
{
    stmt1(
        cat3(
            "SELECT txn_id, state, started_at, client_token, request_fingerprint, items_blob FROM ",
            keyspace,
            ".transaction_ledger WHERE txn_id = ?",
        ),
        uuid_value(txn_id),
    )
}

/// The row has the columns that a ledger entry needs.
pub open spec fn entry_readable(row: Row) -> bool {
    &&& row.cell("txn_id"@) is Uuid
    &&& row.cell("state"@) is Text
    &&& row.cell("started_at"@) is BigInt
    &&& row.cell("items_blob"@) is Text
}

/// The text of a column that may be absent.
pub open spec fn optional_text(c: Cell) -> Option<String> {
    match c {
        Cell::Text(s) => Some(s),
        _ => None,
    }
}

/// The row holds the entry.
pub open spec fn holds_entry(row: Row, e: LedgerEntry) -> bool {
    &&& row.cell("txn_id"@) matches Cell::Uuid(b)
    &&& b@ == e.txn_id@
    &&& row.cell("state"@) == Cell::Text(e.state)
    &&& row.cell("started_at"@) == Cell::BigInt(e.started_at)
    &&& e.client_token == optional_text(row.cell("client_token"@))
    &&& e.request_fingerprint == optional_text(row.cell("request_fingerprint"@))
    &&& row.cell("items_blob"@) == Cell::Text(e.items_blob)
}

fn ledger_entry(row: &Row) -> (r: Result<LedgerEntry, StorageError>)
    ensures
        match r {
            Ok(e) => entry_readable(*row) && holds_entry(*row, e),
            Err(e) => !entry_readable(*row) && is_internal(e, "Database error"@),
        },
{
    let txn_id: Vec<u8> = get_column(row, "txn_id")?;
    let state: String = get_column(row, "state")?;
    let started_at: i64 = get_column(row, "started_at")?;
    let client_token: Option<String> = get_optional(row, "client_token");
    let request_fingerprint: Option<String> = get_optional(row, "request_fingerprint");
    let items_blob: String = get_column(row, "items_blob")?;
    Ok(LedgerEntry { txn_id, state, started_at, client_token, request_fingerprint, items_blob })
}

impl CassandraEngine {
    /// Read a transaction ledger entry; `None` where there is none.
    pub fn read_ledger_entry(row: Option<Row>) -> (r: Result<Option<LedgerEntry>, StorageError>)
        ensures
            match row {
                None => r == Ok::<Option<LedgerEntry>, StorageError>(None),
                Some(row) => match r {
                    Ok(Some(e)) => entry_readable(row) && holds_entry(row, e),
                    Ok(None) => false,
                    Err(e) => !entry_readable(row) && is_internal(e, "Database error"@),
                },
            },
    {
        match row {
            None => Ok(None),
            Some(row) => match ledger_entry(&row) {
                Ok(e) => Ok(Some(e)),
                Err(e) => Err(e),
            },
        }
    }
}

/// The statement that finds transactions that started before a time.
pub fn select_old_transactions(keyspace: &str, cutoff_timestamp: i64) -> (r: Statement)
    ensures
        r@ == stmt(
            "SELECT txn_id, state, started_at, client_token, request_fingerprint, items_blob FROM "@
                + keyspace@ + ".transaction_ledger WHERE started_at < ? ALLOW FILTERING"@,
            seq![CqlView::BigInt(cutoff_timestamp)],
        ),
{
    stmt1(
        cat3(
            "SELECT txn_id, state, started_at, client_token, request_fingerprint, items_blob FROM ",
            keyspace,
            ".transaction_ledger WHERE started_at < ? ALLOW FILTERING",
        ),
        CqlValue::BigInt(cutoff_timestamp),
    )
}

impl CassandraEngine {
    /// The entries of old transactions, in row order. One unreadable row fails them all.
    pub fn scan_old_transactions(rows: Vec<Row>) -> (r: Result<Vec<LedgerEntry>, StorageError>)
        ensures
            match r {
                Ok(v) => v@.len() == rows@.len() && forall|i: int|
                    #![trigger rows@[i]]
                    #![trigger v@[i]]
                    0 <= i < v@.len() ==> entry_readable(rows@[i]) && holds_entry(rows@[i], v@[i]),
                Err(e) => is_internal(e, "Database error"@) && exists|i: int|
                    0 <= i < rows@.len() && !entry_readable(#[trigger] rows@[i]),
            },
    {
        let ghost all = rows@;
        let r = map_rows(rows, ledger_entry);
        proof {
            if r is Ok {
                assert forall|i: int|
                    #![trigger all[i]]
                    #![trigger r->Ok_0@[i]]
                    0 <= i < r->Ok_0@.len() implies entry_readable(all[i]) && holds_entry(
                    all[i],
                    r->Ok_0@[i],
                ) by {
                    let one: Result<LedgerEntry, StorageError> = Ok(r->Ok_0@[i]);
                    assert(call_ensures(ledger_entry, (&all[i],), one));
                }
            } else {
                let failed: Result<LedgerEntry, StorageError> = Err(r->Err_0);
                let i = choose|i: int|
                    #![trigger all[i]]
                    0 <= i < all.len() && call_ensures(ledger_entry, (&all[i],), failed);
                assert(!entry_readable(all[i]));
            }
        }
        r
    }
}

impl CassandraEngine {
    /// The statement that removes a transaction from the ledger.
    pub fn delete_ledger_entry(keyspace: &str, txn_id: &Vec<u8>) -> (r: Statement)
        ensures
            r@ == stmt(
                "DELETE FROM "@ + keyspace@ + ".transaction_ledger WHERE txn_id = ?"@,
                seq![CqlView::Uuid(txn_id@)],
            ),
    {
        stmt1(
            cat3("DELETE FROM ", keyspace, ".transaction_ledger WHERE txn_id = ?"),
            uuid_value(txn_id),
        )
    }
}

} // verus!
