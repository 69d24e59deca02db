use storage_cassandra::cassandra_util::{Cell, Column, ColumnType, Row};
use storage_cassandra::cql::CqlValue;
use storage_cassandra::data::base_row::RowKey;
use storage_cassandra::data::data_engine::{
    cleanup_expired_idempotency_tokens, transact_write_items,
};
use storage_cassandra::data::ledger_key::{ledger_sk_to_sort_key, sort_key_text};
use storage_cassandra::data::transact_get::{
    begin_second_phase, check_accounts, check_keys, finish_snapshot, read_item_metadata_only,
    read_item_with_metadata, select_with_metadata, transact_get_items_impl,
    transaction_conflict_reason, verify_next, ItemVersion,
};
use storage_cassandra::data::transaction_ledger::{
    ledger_written, select_ledger_entry, select_old_transactions, LedgerEntry, LedgerOp,
    TransactionState,
};
use storage_cassandra::data::transaction_recovery::{
    ledger_sk, reconciled_item, record_recovery, recover_commit_op, recover_delete_next,
    recover_rollback_next, recover_rollback_op, recover_transaction, recovers_by_commit,
    start_recovery, RecoverCommit, RecoveryStep,
};
use storage_cassandra::data::transaction_rows::{
    check_lwt_applied, check_partition_max_delete_timestamp, commit_delete, commit_delete_next,
    commit_put_or_update, commit_start, commit_write_outcome, prepare_item, rollback_next,
    rollback_start, rollback_statements, select_for_transaction, select_max_delete, CommitDelete,
    CommitStart, Rollback,
};
use storage_cassandra::data::transactions::{
    begin_transaction, check_idempotency_token, eval_condition, execute_prepare_phase,
    fill_item_data, initial_ledger_ops, insert_token, prepare_single_operation, reconciled_image,
    select_token, transact_write_items_impl, Answer, NewImage, OpKind, OpRecord, PrepareEvent,
    PrepareRequest, PrepareState, PrepareStep, TokenStep, TxnPhase,
};
use storage_cassandra::engine::CassandraEngine;
use storage_cassandra::error::{CancellationReason, StorageError};
use storage_cassandra::model::{
    AttributeValue, Decimal, Item, ScalarAttributeType, SortKeyBind, SortKeyValue,
};

const TXN: [u8; 16] = [
    0x12, 0x34, 0x56, 0x78, 0x9a, 0xbc, 0xde, 0xf0, 0x01, 0x23, 0x45, 0x67, 0x89, 0xab, 0xcd, 0xef,
];

fn txn() -> Vec<u8> {
    TXN.to_vec()
}

fn text(v: &str) -> CqlValue {
    CqlValue::Text(v.to_owned())
}

fn column(name: &str, cell: Cell) -> Column {
    let column_type = match &cell {
        Cell::BigInt(_) => ColumnType::Bigint,
        Cell::Int(_) => ColumnType::Int,
        Cell::Boolean(_) => ColumnType::Boolean,
        Cell::Uuid(_) => ColumnType::Uuid,
        Cell::Blob(_) => ColumnType::Blob,
        _ => ColumnType::Varchar,
    };
    Column { name: name.to_owned(), column_type, cell }
}

fn row(cells: Vec<(&str, Cell)>) -> Row {
    Row { columns: cells.into_iter().map(|(n, c)| column(n, c)).collect() }
}

fn applied(b: bool) -> Vec<Row> {
    vec![row(vec![("[applied]", Cell::Boolean(b))])]
}

fn item(v: &str) -> Item {
    let mut out = Item::new();
    out.insert("v".to_owned(), AttributeValue::S(v.to_owned()));
    out
}

fn number(unscaled: &str, scale: i64) -> SortKeyValue {
    SortKeyValue::N(Decimal::new(unscaled.to_owned(), scale).unwrap())
}

fn key(sk: Option<SortKeyValue>) -> RowKey {
    RowKey {
        pk: "p".to_owned(),
        sk: sk.map(|v| SortKeyBind { sk_type: v.scalar_type(), value: v }),
    }
}

fn internal(m: &str) -> StorageError {
    StorageError::Internal(m.to_owned())
}

fn validation_reason(m: &str) -> CancellationReason {
    CancellationReason::ValidationError(m.to_owned())
}

#[test]
fn decimals_hold_integers() {
    for good in ["0", "7", "-7", "100", "-123456789012345678901234567890"] {
        assert!(Decimal::new(good.to_owned(), 3).is_some(), "{good}");
    }
    for bad in ["", "-", "00", "-0", "+1", "1.5", "1_0", " 1"] {
        assert!(Decimal::new(bad.to_owned(), 3).is_none(), "{bad}");
    }
}

#[test]
fn sort_keys_have_a_ledger_text() {
    assert_eq!(sort_key_text(&SortKeyValue::S("a b".to_owned())), "a b");
    assert_eq!(sort_key_text(&number("15", 1)), "1.5");
    assert_eq!(sort_key_text(&number("-3", -2)), "-300");
    assert_eq!(sort_key_text(&number("3", -30)), "3e+30");
    assert_eq!(sort_key_text(&SortKeyValue::B(vec![0, 255, 16])), "AP8Q");
    assert_eq!(sort_key_text(&SortKeyValue::B(b"hello".to_vec())), "aGVsbG8=");
}

#[test]
fn ledger_texts_read_back() {
    for sk in [
        SortKeyValue::S("x".to_owned()),
        number("15", 1),
        number("-12345678901234567890", 7),
        SortKeyValue::B(vec![1, 2, 3, 4]),
    ] {
        let column = match sk.scalar_type() {
            ScalarAttributeType::S => "sk_s",
            ScalarAttributeType::N => "sk_n",
            ScalarAttributeType::B => "sk_b",
        };
        let read = ledger_sk_to_sort_key(column, &sort_key_text(&sk)).unwrap();
        assert_eq!(read.value, sk);
        assert_eq!(read.sk_type, sk.scalar_type());
    }
    // The value stays, the scale may not.
    let read = ledger_sk_to_sort_key("sk_n", &sort_key_text(&number("3", -2))).unwrap();
    assert_eq!(read.value, number("300", 0));
}

#[test]
fn unreadable_ledger_keys() {
    assert_eq!(
        ledger_sk_to_sort_key("sk_x", "1"),
        Err(internal("unknown sk_col in ledger: sk_x"))
    );
    match ledger_sk_to_sort_key("sk_n", "abc") {
        Err(StorageError::Internal(m)) => {
            assert!(m.starts_with("invalid numeric sk in ledger: "), "{m}");
            assert!(m.len() > "invalid numeric sk in ledger: ".len());
        }
        other => panic!("{other:?}"),
    }
    match ledger_sk_to_sort_key("sk_b", "*") {
        Err(StorageError::Internal(m)) => {
            assert!(m.starts_with("invalid binary sk in ledger: "), "{m}")
        }
        other => panic!("{other:?}"),
    }
}

#[test]
fn states_are_stored_as_text() {
    for s in [
        TransactionState::Preparing,
        TransactionState::Committing,
        TransactionState::Cancelling,
    ] {
        assert_eq!(TransactionState::from_str(s.as_str()), Some(s));
    }
    assert_eq!(TransactionState::Committing.as_str(), "COMMITTING");
    assert_eq!(TransactionState::from_str("committing"), None);
    assert!(recovers_by_commit("COMMITTING"));
    assert!(!recovers_by_commit("PREPARING"));
    assert!(!recovers_by_commit("CANCELLING"));
    assert!(!recovers_by_commit("?"));
}

#[test]
fn ledger_statements() {
    let s = CassandraEngine::write_ledger_entry(
        "ks",
        &txn(),
        TransactionState::Preparing,
        5,
        Some("tok"),
        None,
        "[]",
    );
    assert!(s.cql.starts_with("INSERT INTO ks.transaction_ledger "));
    assert!(s.cql.ends_with(" IF NOT EXISTS"));
    assert_eq!(
        s.values,
        vec![
            CqlValue::Uuid(txn()),
            text("PREPARING"),
            CqlValue::BigInt(5),
            text("tok"),
            CqlValue::Null,
            text("[]"),
        ]
    );
    let s = CassandraEngine::update_ledger_state("ks", &txn(), TransactionState::Cancelling);
    assert_eq!(s.cql, "UPDATE ks.transaction_ledger SET state = ? WHERE txn_id = ?");
    assert_eq!(s.values, vec![text("CANCELLING"), CqlValue::Uuid(txn())]);
    let s = CassandraEngine::update_ledger_blob("ks", &txn(), "[1]");
    assert_eq!(s.values, vec![text("[1]"), CqlValue::Uuid(txn())]);
    let s = CassandraEngine::delete_ledger_entry("ks", &txn());
    assert_eq!(s.cql, "DELETE FROM ks.transaction_ledger WHERE txn_id = ?");
    assert_eq!(select_ledger_entry("ks", &txn()).values, vec![CqlValue::Uuid(txn())]);
    assert_eq!(select_old_transactions("ks", 9).values, vec![CqlValue::BigInt(9)]);
}

fn entry_row() -> Row {
    row(vec![
        ("txn_id", Cell::Uuid(txn())),
        ("state", Cell::Text("PREPARING".to_owned())),
        ("started_at", Cell::BigInt(5)),
        ("client_token", Cell::Null),
        ("request_fingerprint", Cell::Text("f".to_owned())),
        ("items_blob", Cell::Text("[]".to_owned())),
    ])
}

fn entry() -> LedgerEntry {
    LedgerEntry {
        txn_id: txn(),
        state: "PREPARING".to_owned(),
        started_at: 5,
        client_token: None,
        request_fingerprint: Some("f".to_owned()),
        items_blob: "[]".to_owned(),
    }
}

#[test]
fn ledger_entries_are_read() {
    assert_eq!(CassandraEngine::read_ledger_entry(None), Ok(None));
    assert_eq!(CassandraEngine::read_ledger_entry(Some(entry_row())), Ok(Some(entry())));
    assert_eq!(
        CassandraEngine::read_ledger_entry(Some(row(vec![]))),
        Err(internal("Database error"))
    );
    assert_eq!(
        CassandraEngine::scan_old_transactions(vec![entry_row(), entry_row()]),
        Ok(vec![entry(), entry()])
    );
    assert_eq!(
        CassandraEngine::scan_old_transactions(vec![entry_row(), row(vec![])]),
        Err(internal("Database error"))
    );
    assert_eq!(ledger_written(&vec![]), Ok(()));
    assert_eq!(ledger_written(&applied(true)), Ok(()));
    assert_eq!(ledger_written(&applied(false)), Err(internal("Transaction ID already exists")));
    assert_eq!(ledger_written(&vec![row(vec![])]), Err(internal("Database error")));
}

#[test]
fn transactions_stay_in_one_account() {
    let a = || "a".to_owned();
    let b = || "b".to_owned();
    let cross = Err(StorageError::Validation(
        "Cross-account transactions not supported".to_owned(),
    ));
    let mismatch = Err(StorageError::Validation(
        "Idempotency account does not match transaction account".to_owned(),
    ));
    assert_eq!(check_accounts(&vec![a(), a()]), Ok(()));
    assert!(check_accounts(&vec![a(), b()]).is_err());
    assert_eq!(begin_transaction(&vec![], Some("x")), Ok(false));
    assert_eq!(begin_transaction(&vec![a(), a()], Some("a")), Ok(true));
    // The one checks the accounts first, the other the token.
    assert_eq!(begin_transaction(&vec![a(), b()], Some("x")), cross);
    assert_eq!(transact_write_items(&vec![a(), b()], Some("x")), mismatch);
    assert_eq!(transact_write_items(&vec![a(), b()], Some("a")), cross);
    assert_eq!(begin_transaction(&vec![a()], Some("x")), mismatch);
    assert_eq!(transact_write_items(&vec![a()], None), Ok(true));
    assert_eq!(transact_write_items(&vec![], Some("x")), Ok(false));
    assert_eq!(cleanup_expired_idempotency_tokens(5), Ok(0));
}

#[test]
fn invalid_keys_cancel_a_read() {
    assert_eq!(check_keys(vec![None, None]), Ok(()));
    assert_eq!(
        check_keys(vec![None, Some("bad".to_owned())]),
        Err(StorageError::TransactionCanceled(vec![
            CancellationReason::NoReason,
            validation_reason("bad"),
        ]))
    );
}

fn version(timestamp: i64) -> ItemVersion {
    ItemVersion { timestamp, prepared: None }
}

fn canceled(reasons: Vec<CancellationReason>) -> StorageError {
    StorageError::TransactionCanceled(reasons)
}

#[test]
fn versions_come_with_items() {
    let full = Some(row(vec![
        ("item_data", Cell::Text("{}".to_owned())),
        ("last_committed_txn_timestamp", Cell::BigInt(8)),
        ("prepared_txn_id", Cell::Uuid(txn())),
    ]));
    let v = ItemVersion { timestamp: 8, prepared: Some(txn()) };
    assert_eq!(read_item_with_metadata(&full), Some(("{}".to_owned(), v)));
    let bare = Some(row(vec![("item_data", Cell::Text("{}".to_owned()))]));
    assert_eq!(read_item_metadata_only(&bare), Some(version(0)));
    let only_prepared = Some(row(vec![("prepared_txn_id", Cell::Uuid(txn()))]));
    assert_eq!(read_item_with_metadata(&only_prepared), None);
    assert!(read_item_metadata_only(&only_prepared).is_some());
    assert_eq!(read_item_metadata_only(&Some(row(vec![]))), None);
    assert_eq!(read_item_metadata_only(&None), None);
    assert_eq!(
        select_with_metadata("ks", "t", &key(None)).cql,
        "SELECT item_data, last_committed_txn_timestamp, prepared_txn_id FROM ks.t WHERE pk = ?"
    );
}

#[test]
fn snapshots_need_two_equal_reads() {
    let first = || vec![Some((item("1"), version(1))), None];
    assert_eq!(
        transact_get_items_impl(first(), vec![Some(version(1)), None]),
        Ok(vec![Some(item("1")), None])
    );
    // A row that is gone by the second read does not stand in the way.
    assert!(transact_get_items_impl(first(), vec![None, None]).is_ok());
    assert_eq!(
        transact_get_items_impl(first(), vec![Some(version(2)), None]),
        Err(canceled(vec![transaction_conflict_reason(), CancellationReason::NoReason]))
    );
    assert_eq!(
        transact_get_items_impl(first(), vec![Some(version(1)), Some(version(0))]),
        Err(canceled(vec![CancellationReason::NoReason, transaction_conflict_reason()]))
    );
    let prepared = ItemVersion { timestamp: 1, prepared: Some(txn()) };
    assert_eq!(
        begin_second_phase(vec![None, Some((item("1"), prepared))]),
        Err(canceled(vec![CancellationReason::NoReason, transaction_conflict_reason()]))
    );
    // A prepared item counts before one that changed.
    let owned = || ItemVersion { timestamp: 1, prepared: Some(txn()) };
    assert_eq!(
        transact_get_items_impl(
            vec![Some((item("1"), version(1))), Some((item("2"), owned()))],
            vec![Some(version(2)), Some(owned())],
        ),
        Err(canceled(vec![CancellationReason::NoReason, transaction_conflict_reason()]))
    );
    // Of two changes the first counts.
    assert_eq!(
        transact_get_items_impl(first(), vec![Some(version(2)), Some(version(0))]),
        Err(canceled(vec![transaction_conflict_reason(), CancellationReason::NoReason]))
    );
    let read = begin_second_phase(first()).unwrap();
    let read = verify_next(read, Some(version(1))).unwrap();
    let read = verify_next(read, None).unwrap();
    assert_eq!(finish_snapshot(read), vec![Some(item("1")), None]);
}

#[test]
fn rows_are_prepared() {
    let s = prepare_item("ks", "t", &key(None), &txn(), 5, None);
    assert_eq!(
        s.cql,
        "UPDATE ks.t SET prepared_txn_id = ?, prepared_txn_timestamp = ? WHERE pk = ? \
         IF prepared_txn_id = null"
    );
    assert_eq!(s.values, vec![CqlValue::Uuid(txn()), CqlValue::BigInt(5), text("p")]);
    let s = prepare_item("ks", "t", &key(Some(number("1", 0))), &txn(), 5, Some("{}"));
    assert_eq!(
        s.cql,
        "INSERT INTO ks.t (pk, sk_n, item_data, prepared_txn_id, prepared_txn_timestamp, \
         created_to_prepare) VALUES (?, ?, ?, ?, ?, true) IF NOT EXISTS"
    );
    assert_eq!(s.values.len(), 5);
    assert_eq!(
        select_for_transaction("ks", "t", &key(None)).cql,
        "SELECT item_data FROM ks.t WHERE pk = ?"
    );
    assert_eq!(
        select_max_delete("ks", "t", "p").cql,
        "SELECT partition_max_delete_timestamp FROM ks.t WHERE pk = ? LIMIT 1"
    );
}

#[test]
fn conditional_outcomes() {
    assert_eq!(check_lwt_applied(Some(&applied(true))), Ok(()));
    assert_eq!(check_lwt_applied(Some(&vec![])), Ok(()));
    assert_eq!(check_lwt_applied(Some(&applied(false))), Err(transaction_conflict_reason()));
    assert_eq!(check_lwt_applied(Some(&vec![row(vec![])])), Err(transaction_conflict_reason()));
    assert_eq!(check_lwt_applied(None), Err(validation_reason("Database error")));
    let marked = vec![row(vec![("partition_max_delete_timestamp", Cell::BigInt(7))])];
    assert_eq!(
        check_partition_max_delete_timestamp(&marked, 7),
        Err(validation_reason("Item was deleted at a later timestamp"))
    );
    assert_eq!(check_partition_max_delete_timestamp(&marked, 8), Ok(()));
    assert_eq!(check_partition_max_delete_timestamp(&vec![], 0), Ok(()));
}

#[test]
fn rows_are_committed() {
    let s = commit_put_or_update("ks", "t", &key(None), "{}", 5, &txn());
    assert_eq!(
        s.cql,
        "UPDATE ks.t SET item_data = ?, prepared_txn_id = NULL, version = version + 1, \
         last_committed_txn_timestamp = ? WHERE pk = ? IF prepared_txn_id = ?"
    );
    assert_eq!(
        s.values,
        vec![text("{}"), CqlValue::BigInt(5), text("p"), CqlValue::Uuid(txn())]
    );
    assert_eq!(
        commit_delete("ks", "t", &key(None), &txn()).cql,
        "DELETE FROM ks.t WHERE pk = ? IF prepared_txn_id = ?"
    );
    let yes = applied(true);
    let no = applied(false);
    let conflict = || Err(internal("Transaction conflict during commit"));
    assert_eq!(commit_write_outcome(Some(&yes)), Ok(()));
    assert_eq!(commit_write_outcome(Some(&no)), conflict());
    assert_eq!(commit_start(OpKind::Check), CommitStart::Nothing);
    assert_eq!(commit_start(OpKind::Put), CommitStart::WriteRequested);
    assert_eq!(commit_start(OpKind::Update), CommitStart::WriteUpdated);
    assert_eq!(commit_start(OpKind::Delete), CommitStart::Remove(CommitDelete::Mark));
    assert_eq!(commit_delete_next(CommitDelete::Mark, Some(&yes)), Ok(Some(CommitDelete::Delete)));
    assert_eq!(commit_delete_next(CommitDelete::Mark, Some(&no)), Ok(Some(CommitDelete::Raise)));
    assert_eq!(commit_delete_next(CommitDelete::Raise, Some(&no)), Ok(Some(CommitDelete::Delete)));
    assert_eq!(commit_delete_next(CommitDelete::Delete, Some(&yes)), Ok(None));
    assert_eq!(
        commit_delete_next(CommitDelete::Delete, None),
        Err(internal("Transaction conflict during commit"))
    );
}

#[test]
fn rows_are_rolled_back() {
    let (remove, clear) = rollback_statements("ks", "t", &key(None), &txn());
    assert_eq!(
        remove.cql,
        "DELETE FROM ks.t WHERE pk = ? IF prepared_txn_id = ? AND created_to_prepare = true"
    );
    assert_eq!(
        clear.cql,
        "UPDATE ks.t SET prepared_txn_id = null WHERE pk = ? IF prepared_txn_id = ?"
    );
    assert_eq!(rollback_start(true, true), None);
    assert_eq!(rollback_start(false, false), None);
    assert_eq!(rollback_start(false, true), Some(Rollback::Remove));
    let yes = applied(true);
    let no = applied(false);
    assert_eq!(rollback_next(Rollback::Remove, Some(&yes)), Ok(None));
    assert_eq!(rollback_next(Rollback::Remove, Some(&no)), Ok(Some(Rollback::Clear)));
    assert_eq!(rollback_next(Rollback::Clear, Some(&yes)), Ok(None));
    assert_eq!(
        rollback_next(Rollback::Clear, Some(&no)),
        Err(internal("Transaction conflict during rollback"))
    );
}

#[test]
fn recovery_takes_an_unapplied_statement_for_done() {
    let yes = applied(true);
    let no = applied(false);
    assert_eq!(recover_delete_next(CommitDelete::Mark, Some(&yes)), Some(CommitDelete::Delete));
    assert_eq!(recover_delete_next(CommitDelete::Mark, Some(&no)), Some(CommitDelete::Raise));
    assert_eq!(recover_delete_next(CommitDelete::Mark, None), Some(CommitDelete::Raise));
    assert_eq!(recover_delete_next(CommitDelete::Raise, Some(&no)), Some(CommitDelete::Delete));
    assert_eq!(recover_delete_next(CommitDelete::Delete, Some(&no)), None);
    assert_eq!(recover_rollback_next(Rollback::Remove, Some(&yes)), None);
    assert_eq!(recover_rollback_next(Rollback::Remove, Some(&no)), Some(Rollback::Clear));
    assert_eq!(recover_rollback_next(Rollback::Clear, Some(&no)), None);
}

fn record(kind: OpKind, sk: Option<SortKeyValue>) -> OpRecord {
    OpRecord { kind, table_id: "t-1".to_owned(), key: key(sk), item_text: "{}".to_owned() }
}

fn ledger_op(op: &str, sk: Option<(&str, &str)>, data: Option<&str>) -> LedgerOp {
    LedgerOp {
        op: op.to_owned(),
        table_id: "t-1".to_owned(),
        pk: "p".to_owned(),
        sk_col: sk.map(|(c, _)| c.to_owned()),
        sk_val: sk.map(|(_, v)| v.to_owned()),
        item_data: data.map(|d| d.to_owned()),
    }
}

#[test]
fn the_ledger_records_every_operation() {
    let ops = initial_ledger_ops(&vec![
        record(OpKind::Put, None),
        record(OpKind::Update, Some(number("15", 1))),
        record(OpKind::Delete, Some(SortKeyValue::S("s".to_owned()))),
        record(OpKind::Check, None),
    ]);
    assert_eq!(
        ops,
        vec![
            ledger_op("PUT", None, Some("{}")),
            ledger_op("UPDATE", Some(("sk_n", "1.5")), None),
            ledger_op("DELETE", Some(("sk_s", "s")), None),
            ledger_op("CHECK", None, None),
        ]
    );
    let filled = fill_item_data(ops, vec![None, Some("new".to_owned()), None, None]);
    assert_eq!(filled[0], ledger_op("PUT", None, Some("{}")));
    assert_eq!(filled[1], ledger_op("UPDATE", Some(("sk_n", "1.5")), Some("new")));
    assert_eq!(filled[2].item_data, None);
    // Recovery addresses the row that the operation addressed.
    assert_eq!(ledger_sk(&filled[1]), Ok(key(Some(number("15", 1)))));
    assert_eq!(ledger_sk(&filled[3]), Ok(key(None)));
}

#[test]
fn tokens_are_reserved_once() {
    assert_eq!(
        select_token("ks", "a", "tok").cql,
        "SELECT fingerprint FROM ks.idempotency_tokens_by_account \
         WHERE account_id = ? AND \"token\" = ?"
    );
    let s = insert_token("ks", "a", "tok", "f", 5);
    assert_eq!(s.values, vec![text("a"), text("tok"), text("f"), CqlValue::BigInt(5)]);
    let same = vec![row(vec![("fingerprint", Cell::Text("f".to_owned()))])];
    let other = vec![row(vec![("fingerprint", Cell::Text("g".to_owned()))])];
    let check = check_idempotency_token;
    assert_eq!(check(TokenStep::Lookup, &vec![], "f"), Ok(Some(TokenStep::Reserve)));
    assert_eq!(check(TokenStep::Lookup, &same, "f"), Err(StorageError::IdempotentReplay));
    assert_eq!(check(TokenStep::Lookup, &other, "f"), Err(StorageError::IdempotentMismatch));
    assert_eq!(check(TokenStep::Reserve, &applied(true), "f"), Ok(None));
    assert_eq!(check(TokenStep::Reserve, &applied(false), "f"), Ok(Some(TokenStep::Recheck)));
    assert_eq!(check(TokenStep::Recheck, &vec![], "f"), Ok(None));
    assert_eq!(check(TokenStep::Recheck, &other, "f"), Err(StorageError::IdempotentMismatch));
    assert_eq!(
        check(TokenStep::Recheck, &vec![row(vec![])], "f"),
        Err(internal("Database error"))
    );
}

fn request(kind: OpKind) -> PrepareRequest {
    PrepareRequest { kind, txn_timestamp: 10, return_all_old: true }
}

fn next(s: PrepareStep) -> PrepareState {
    match s {
        PrepareStep::Next(n) => n,
        other => panic!("{other:?}"),
    }
}

#[test]
fn a_new_item_is_prepared_after_its_partition_was_checked() {
    let q = request(OpKind::Update);
    let s = next(prepare_single_operation(q, PrepareState::Validate, PrepareEvent::Validated(None)));
    let s = next(prepare_single_operation(q, s, PrepareEvent::Fetched(Ok(None))));
    let s = next(prepare_single_operation(q, s, PrepareEvent::Evaluated(Some(Ok(true)))));
    let s = next(prepare_single_operation(q, s, PrepareEvent::Applied(None)));
    assert_eq!(s, PrepareState::CheckPartition);
    let empty = Answer::Rows(Some(vec![]));
    let s = next(prepare_single_operation(q, s, PrepareEvent::PartitionRead(empty)));
    assert_eq!(s, PrepareState::Mark { is_new: true });
    let marked = Answer::Rows(Some(applied(true)));
    let s = next(prepare_single_operation(q, s, PrepareEvent::Marked(marked)));
    assert_eq!(
        prepare_single_operation(q, s, PrepareEvent::Serialized(Ok("new".to_owned()))),
        PrepareStep::Prepared(Some("new".to_owned()))
    );
}

#[test]
fn preparing_can_be_refused_at_every_step() {
    let q = request(OpKind::Put);
    let refused = |s: PrepareState, e: PrepareEvent| match prepare_single_operation(q, s, e) {
        PrepareStep::Refused(r) => r,
        other => panic!("{other:?}"),
    };
    let m = || "no".to_owned();
    assert_eq!(
        refused(PrepareState::Validate, PrepareEvent::Validated(Some(m()))),
        validation_reason("no")
    );
    assert_eq!(
        refused(PrepareState::Fetch, PrepareEvent::Fetched(Err(m()))),
        validation_reason("no")
    );
    let evaluate = || PrepareState::Evaluate { existing: Some(item("1")) };
    assert_eq!(
        refused(evaluate(), PrepareEvent::Evaluated(Some(Ok(false)))),
        CancellationReason::ConditionCheckFailed(Some(item("1")))
    );
    assert_eq!(
        refused(evaluate(), PrepareEvent::Evaluated(Some(Err(m())))),
        validation_reason("no")
    );
    assert_eq!(
        refused(PrepareState::Apply { is_new: true }, PrepareEvent::Applied(Some(m()))),
        validation_reason("no")
    );
    let later = vec![row(vec![("partition_max_delete_timestamp", Cell::BigInt(10))])];
    assert_eq!(
        refused(
            PrepareState::CheckPartition,
            PrepareEvent::PartitionRead(Answer::Rows(Some(later)))
        ),
        validation_reason("Item was deleted at a later timestamp")
    );
    let mark = || PrepareState::Mark { is_new: false };
    assert_eq!(
        refused(mark(), PrepareEvent::Marked(Answer::Rows(Some(applied(false))))),
        transaction_conflict_reason()
    );
    assert_eq!(
        refused(mark(), PrepareEvent::Marked(Answer::Failed)),
        validation_reason("Database error")
    );
    assert_eq!(
        refused(mark(), PrepareEvent::Marked(Answer::Invalid(m()))),
        validation_reason("no")
    );
    assert_eq!(
        refused(PrepareState::Serialize, PrepareEvent::Serialized(Err(m()))),
        validation_reason("no")
    );
    assert_eq!(
        prepare_single_operation(
            request(OpKind::Check),
            evaluate(),
            PrepareEvent::Evaluated(None)
        ),
        PrepareStep::Prepared(None)
    );
}

#[test]
fn failed_conditions_report_the_item_where_asked() {
    assert_eq!(eval_condition(None, true, None), Ok(()));
    assert_eq!(
        eval_condition(Some(Ok(false)), false, Some(item("1"))),
        Err(CancellationReason::ConditionCheckFailed(None))
    );
}

#[test]
fn one_refusal_gives_every_operation_a_reason() {
    assert_eq!(
        execute_prepare_phase(vec![Ok(None), Ok(Some("x".to_owned()))]),
        Ok(vec![None, Some("x".to_owned())])
    );
    assert_eq!(
        execute_prepare_phase(vec![Ok(None), Err(transaction_conflict_reason())]),
        Err(vec![CancellationReason::NoReason, transaction_conflict_reason()])
    );
}

fn phases(refusals: &[bool]) -> Vec<TxnPhase> {
    let mut out = vec![TxnPhase::WriteLedger];
    loop {
        let p = out[out.len() - 1];
        if p == TxnPhase::Committed || p == TxnPhase::Cancelled {
            return out;
        }
        let refused = match p {
            TxnPhase::Prepare { next, .. } => refusals[next],
            _ => false,
        };
        out.push(transact_write_items_impl(p, refusals.len(), refused));
    }
}

#[test]
fn a_transaction_is_all_or_nothing() {
    let all = phases(&[false, false]);
    assert_eq!(
        all,
        vec![
            TxnPhase::WriteLedger,
            TxnPhase::Prepare { next: 0, refused: false },
            TxnPhase::Prepare { next: 1, refused: false },
            TxnPhase::SaveOps,
            TxnPhase::MarkCommitting,
            TxnPhase::Capture(0),
            TxnPhase::Capture(1),
            TxnPhase::Commit(0),
            TxnPhase::Commit(1),
            TxnPhase::Reconcile(0),
            TxnPhase::Reconcile(1),
            TxnPhase::ForgetCommitted,
            TxnPhase::Committed,
        ]
    );
    let nothing = phases(&[true, false]);
    assert_eq!(
        nothing,
        vec![
            TxnPhase::WriteLedger,
            TxnPhase::Prepare { next: 0, refused: false },
            TxnPhase::Prepare { next: 1, refused: true },
            TxnPhase::MarkCancelling,
            TxnPhase::Rollback(0),
            TxnPhase::Rollback(1),
            TxnPhase::ForgetCancelled,
            TxnPhase::Cancelled,
        ]
    );
}

#[test]
fn queues_are_reconciled_with_the_new_image() {
    assert_eq!(reconciled_image(OpKind::Put), Some(NewImage::Requested));
    assert_eq!(reconciled_image(OpKind::Update), Some(NewImage::Stored));
    assert_eq!(reconciled_image(OpKind::Delete), Some(NewImage::Absent));
    assert_eq!(reconciled_image(OpKind::Check), None);
    assert_eq!(
        reconciled_item(&ledger_op("PUT", None, Some("{}"))),
        Some("{}".to_owned())
    );
    assert_eq!(reconciled_item(&ledger_op("DELETE", None, None)), None);
}

#[test]
fn recovery_commits_from_the_ledger() {
    assert_eq!(
        recover_commit_op("ks", &ledger_op("CHECK", None, None), &txn(), 5),
        Ok(RecoverCommit::Nothing)
    );
    let put = ledger_op("PUT", Some(("sk_s", "s")), Some("{}"));
    assert_eq!(
        recover_commit_op("ks", &put, &txn(), 5),
        Ok(RecoverCommit::Write(commit_put_or_update(
            "ks",
            "items_t_1",
            &key(Some(SortKeyValue::S("s".to_owned()))),
            "{}",
            5,
            &txn(),
        )))
    );
    match recover_commit_op("ks", &ledger_op("DELETE", None, None), &txn(), 5) {
        Ok(RecoverCommit::Delete { mark, raise, delete }) => {
            assert!(mark.cql.ends_with(" IF partition_max_delete_timestamp = null"));
            assert!(raise.cql.ends_with(" IF partition_max_delete_timestamp < ?"));
            assert_eq!(delete, commit_delete("ks", "items_t_1", &key(None), &txn()));
        }
        other => panic!("{other:?}"),
    }
    assert_eq!(
        recover_commit_op("ks", &ledger_op("UPDATE", None, None), &txn(), 5),
        Err(internal(
            "ledger op UPDATE missing item_data for 12345678-9abc-def0-0123-456789abcdef"
        ))
    );
    assert_eq!(
        recover_commit_op("ks", &ledger_op("X", None, None), &txn(), 5),
        Err(internal("unknown op in ledger: X"))
    );
}

#[test]
fn recovery_rolls_back_from_the_ledger() {
    assert_eq!(
        recover_rollback_op("ks", &ledger_op("CHECK", None, None), &txn()),
        Ok(None)
    );
    assert_eq!(
        recover_rollback_op("ks", &ledger_op("PUT", None, Some("{}")), &txn()),
        Ok(Some(rollback_statements("ks", "items_t_1", &key(None), &txn())))
    );
    assert_eq!(
        recover_rollback_op("ks", &ledger_op("PUT", Some(("x", "1")), None), &txn()),
        Err(internal("unknown sk_col in ledger: x"))
    );
}

fn recovery_steps(
    state: &str,
    total: usize,
    failing: Vec<RecoveryStep>,
) -> (Vec<RecoveryStep>, Option<StorageError>) {
    let mut recovery = start_recovery(state, total);
    let mut steps = Vec::new();
    loop {
        let step = recover_transaction(&recovery);
        steps.push(step);
        if step == RecoveryStep::Forget || step == RecoveryStep::Stop {
            return (steps, recovery.error);
        }
        let outcome = if failing.contains(&step) {
            Err(internal(&format!("{step:?}")))
        } else {
            Ok(())
        };
        recovery = record_recovery(recovery, outcome);
    }
}

fn finish(i: usize) -> RecoveryStep {
    RecoveryStep::Finish(i)
}

fn reconcile(i: usize) -> RecoveryStep {
    RecoveryStep::Reconcile(i)
}

#[test]
fn recovery_goes_on_after_a_failure() {
    let forget = RecoveryStep::Forget;
    let stop = RecoveryStep::Stop;
    assert_eq!(
        recovery_steps("COMMITTING", 2, vec![]),
        (vec![finish(0), finish(1), reconcile(0), reconcile(1), forget], None)
    );
    assert_eq!(
        recovery_steps("COMMITTING", 3, vec![finish(1)]),
        (
            vec![finish(0), finish(1), finish(2), reconcile(0), reconcile(2), stop],
            Some(internal("Finish(1)"))
        )
    );
    assert_eq!(
        recovery_steps("COMMITTING", 2, vec![reconcile(0), reconcile(1)]),
        (
            vec![finish(0), finish(1), reconcile(0), reconcile(1), stop],
            Some(internal("Reconcile(0)"))
        )
    );
    assert_eq!(
        recovery_steps("PREPARING", 2, vec![finish(0)]),
        (vec![finish(0), finish(1), stop], Some(internal("Finish(0)")))
    );
    assert_eq!(recovery_steps("CANCELLING", 1, vec![]), (vec![finish(0), forget], None));
    assert_eq!(recovery_steps("COMMITTING", 0, vec![]), (vec![forget], None));
}
