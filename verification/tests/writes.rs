use storage_cassandra::cassandra_util::{Cell, Column, ColumnType, Row};
use storage_cassandra::cql::{CqlValue, Statement};
use storage_cassandra::data::base_row::{
    claim_conflict, partition_key_attribute, row_image, row_owner, select_image,
    sort_key_attribute, txn_conflict, RowKey,
};
use storage_cassandra::data::claim::{
    backoff_ms, backoff_window, claim_ttl_item, next_write, release_ttl_claim, should_retry,
    start_write, ttl_claim_backoff, ttl_lwt_applied, StepOutcome, WriteFacts, WriteState,
    TTL_CLAIM_MAX_RETRIES,
};
use storage_cassandra::data::condition::{
    check_condition, is_attribute_not_exists_key, Expr, PathElement,
};
use storage_cassandra::data::delete_item::{
    apply_ttl_delete_effects, claim_ttl_work_item, decide_delete, delete_facts,
    delete_item_impl_inner, delete_ttl_base_exact, deletion_time_ms, ensure_ttl_work_claim,
    mark_outcome, ttl_user_identity, update_partition_max_delete_timestamp_at, DeleteDecision,
};
use storage_cassandra::data::effects::{reported, SideEffects, TtlChange, WritePlan};
use storage_cassandra::data::index::IndexMeta;
use storage_cassandra::data::put_get_item::{
    decide_put, get_item_impl, insert_effects, insert_outcome, inserts_if_absent, put_claim_error,
    put_facts, put_item_if_not_exists, put_item_impl_inner,
};
use storage_cassandra::data::ttl::entry_for_key;
use storage_cassandra::data::update_item::{
    check_update, occ_applied, occ_next_with, occ_read, occ_write, pre_mutation_item,
    select_versioned, update_base, update_item_impl, update_old, update_sort_key, OccNext,
};
use storage_cassandra::engine::CassandraEngine;
use storage_cassandra::error::StorageError;
use storage_cassandra::gsi_queue::jitter_delay_ms;
use storage_cassandra::model::{
    AttributeDefinition, AttributeValue, Item, KeySchemaElement, KeyType, Projection,
    ProjectionType, ScalarAttributeType, SortKeyBind, SortKeyValue, TableKeyInfo,
};

fn text(v: &str) -> CqlValue {
    CqlValue::Text(v.to_owned())
}

fn column(name: &str, cell: Cell) -> Column {
    let column_type = match &cell {
        Cell::BigInt(_) => ColumnType::Bigint,
        Cell::Int(_) => ColumnType::Int,
        Cell::Boolean(_) => ColumnType::Boolean,
        Cell::Uuid(_) => ColumnType::Uuid,
        Cell::Blob(_) => ColumnType::Blob,
        _ => ColumnType::Varchar,
    };
    Column { name: name.to_owned(), column_type, cell }
}

fn row(cells: Vec<(&str, Cell)>) -> Row {
    Row { columns: cells.into_iter().map(|(n, c)| column(n, c)).collect() }
}

fn applied(b: bool) -> Vec<Row> {
    vec![row(vec![("[applied]", Cell::Boolean(b))])]
}

fn item(v: &str) -> Item {
    let mut out = Item::new();
    out.insert("pk".to_owned(), AttributeValue::S("p".to_owned()));
    out.insert("v".to_owned(), AttributeValue::S(v.to_owned()));
    out
}

fn plain_key() -> RowKey {
    RowKey { pk: "p".to_owned(), sk: None }
}

fn ranged_key() -> RowKey {
    RowKey {
        pk: "p".to_owned(),
        sk: Some(SortKeyBind {
            sk_type: ScalarAttributeType::S,
            value: SortKeyValue::S("s".to_owned()),
        }),
    }
}

fn key_info() -> TableKeyInfo {
    let schema = |range: bool| {
        let mut v = vec![KeySchemaElement {
            attribute_name: "pk".to_owned(),
            key_type: KeyType::Hash,
        }];
        if range {
            v.push(KeySchemaElement { attribute_name: "sk".to_owned(), key_type: KeyType::Range });
        }
        v
    };
    TableKeyInfo {
        table_name: "tab".to_owned(),
        account_id: "acct".to_owned(),
        table_id: "t-1".to_owned(),
        key_schema: schema(true),
        base_key_schema: schema(true),
        attribute_definitions: vec![AttributeDefinition {
            attribute_name: "sk".to_owned(),
            attribute_type: ScalarAttributeType::S,
        }],
        has_lsi: false,
        global_secondary_indexes: vec![],
        local_secondary_indexes: vec![],
        stream_specification: None,
    }
}

fn no_effects() -> SideEffects {
    SideEffects {
        indexes: vec![],
        index_writes: vec![],
        pending: vec![],
        ttl: None,
        stream: None,
    }
}

fn ttl_effects() -> SideEffects {
    let mut e = no_effects();
    e.ttl = Some(TtlChange {
        generation: vec![9u8; 16],
        outbox_key: Some("k".to_owned()),
        old_entry: None,
        new_entry: Some(entry_for_key(123, "k")),
    });
    e
}

fn some_index() -> IndexMeta {
    IndexMeta {
        index_name: "g".to_owned(),
        index_id: "g-1".to_owned(),
        index_type: "GSI".to_owned(),
        key_schema: vec![],
        projection: Projection { projection_type: ProjectionType::All, non_key_attributes: None },
        propagation_delay_ms: None,
    }
}

#[test]
fn rows_are_addressed_by_their_key() {
    let s = select_image("ks", "t", &plain_key());
    assert_eq!(s.cql, "SELECT item_data, prepared_txn_id FROM ks.t WHERE pk = ?");
    assert_eq!(s.values, vec![text("p")]);
    let s = get_item_impl("ks", "t", &ranged_key());
    assert_eq!(s.cql, "SELECT item_data FROM ks.t WHERE pk = ? AND sk_s = ?");
    assert_eq!(s.values, vec![text("p"), text("s")]);
    let mut key = Item::new();
    assert_eq!(
        partition_key_attribute(&key_info(), &key),
        Err(StorageError::Internal("missing partition key".to_owned()))
    );
    assert_eq!(
        sort_key_attribute(&key_info(), &key),
        Err(StorageError::Internal("missing sort key".to_owned()))
    );
    key.insert("sk".to_owned(), AttributeValue::S("s".to_owned()));
    assert_eq!(
        sort_key_attribute(&key_info(), &key),
        Ok(Some((AttributeValue::S("s".to_owned()), ScalarAttributeType::S)))
    );
}

#[test]
fn owners_and_images_are_read() {
    let r = Some(row(vec![
        ("item_data", Cell::Text("{}".to_owned())),
        ("prepared_txn_id", Cell::Uuid(vec![1u8; 16])),
    ]));
    assert_eq!(row_owner(&r), Some(vec![1u8; 16]));
    assert_eq!(row_image(&r), Some("{}".to_owned()));
    assert_eq!(row_owner(&None), None);
    assert_eq!(row_image(&Some(row(vec![("item_data", Cell::Null)]))), None);
}

#[test]
fn conditions() {
    assert_eq!(check_condition(None), Ok(()));
    assert_eq!(check_condition(Some(Ok(true))), Ok(()));
    assert_eq!(check_condition(Some(Ok(false))), Err(StorageError::ConditionFailed(None)));
    assert_eq!(
        check_condition(Some(Err("bad".to_owned()))),
        Err(StorageError::Validation("bad".to_owned()))
    );
    let not_exists = |name: &str, path: &str| Expr::Function {
        name: name.to_owned(),
        args: vec![Expr::Path(vec![PathElement::Attribute(path.to_owned())])],
    };
    let keys = vec!["pk".to_owned(), "sk".to_owned()];
    let names = vec![("#k".to_owned(), "pk".to_owned()), ("#v".to_owned(), "v".to_owned())];
    let holds = |e: Option<&Expr>| is_attribute_not_exists_key(e, &keys, &names);
    assert!(holds(Some(&not_exists("attribute_not_exists", "sk"))));
    assert!(holds(Some(&not_exists("attribute_not_exists", "#k"))));
    assert!(!holds(Some(&not_exists("attribute_not_exists", "#v"))));
    assert!(!holds(Some(&not_exists("attribute_not_exists", "#other"))));
    assert!(!holds(Some(&not_exists("attribute_not_exists", "v"))));
    assert!(!holds(Some(&not_exists("attribute_exists", "sk"))));
    assert!(!holds(Some(&Expr::Other)));
    assert!(!holds(None));
}

#[test]
fn puts_are_decided_on_the_stored_image() {
    assert!(inserts_if_absent(true, false));
    assert!(!inserts_if_absent(true, true));
    assert!(!inserts_if_absent(false, false));
    assert_eq!(decide_put(Some(item("1")), false, false, None), Ok(Some(item("1"))));
    assert_eq!(decide_put(None, true, true, None), Err(claim_conflict()));
    assert_eq!(decide_put(None, true, false, None), Err(txn_conflict()));
    assert_eq!(
        decide_put(Some(item("1")), false, false, Some(Ok(false))),
        Err(StorageError::ConditionFailed(Some(item("1"))))
    );
    assert_eq!(
        put_claim_error(claim_conflict(), true, Some(item("1"))),
        StorageError::ConditionFailed(Some(item("1")))
    );
    assert_eq!(put_claim_error(claim_conflict(), false, None), claim_conflict());
    let other = StorageError::Internal("x".to_owned());
    assert_eq!(
        put_claim_error(StorageError::Internal("x".to_owned()), true, None),
        other
    );
    assert_eq!(reported(true, Some(item("1"))), Some(item("1")));
    assert_eq!(reported(false, Some(item("1"))), None);
}

#[test]
fn a_plain_put_is_one_statement() {
    let plan = put_item_impl_inner("ks", "t", &ranged_key(), "{}", &key_info(), no_effects());
    let expected = Statement {
        cql: "INSERT INTO ks.t (pk, sk_s, item_data) VALUES (?, ?, ?)".to_owned(),
        values: vec![text("p"), text("s"), text("{}")],
    };
    assert_eq!(plan, WritePlan::Direct(expected));
}

#[test]
fn a_put_with_ttl_is_a_timestamped_batch() {
    match put_item_impl_inner("ks", "t", &plain_key(), "{}", &key_info(), ttl_effects()) {
        WritePlan::Batch { statements, timestamped } => {
            assert!(timestamped);
            assert_eq!(statements.len(), 4);
            assert_eq!(statements[0].cql, "INSERT INTO ks.t (pk, item_data) VALUES (?, ?)");
            assert!(statements[1].cql.starts_with("INSERT INTO ks.ttl_reconcile_pending "));
            assert!(statements[2].cql.starts_with("INSERT INTO ks.ttl_expiration_buckets "));
            assert!(statements[3].cql.starts_with("INSERT INTO ks.ttl_expirations "));
        }
        other => panic!("{other:?}"),
    }
    let mut streamed = no_effects();
    streamed.stream = Some("INSERT INTO ks.streams".to_owned());
    match put_item_impl_inner("ks", "t", &plain_key(), "{}", &key_info(), streamed) {
        WritePlan::Batch { statements, timestamped } => {
            assert!(!timestamped);
            assert_eq!(statements.len(), 2);
            assert_eq!(statements[1].cql, "INSERT INTO ks.streams");
        }
        other => panic!("{other:?}"),
    }
}

#[test]
fn conditional_inserts() {
    let s = put_item_if_not_exists("ks", "t", &plain_key(), "{}");
    assert_eq!(
        s.cql,
        "UPDATE ks.t SET item_data = ?, version = 1 WHERE pk = ? \
         IF item_data = null AND prepared_txn_id = null"
    );
    assert_eq!(s.values, vec![text("{}"), text("p")]);
    assert_eq!(insert_outcome(&applied(true), None), Ok(()));
    assert_eq!(insert_outcome(&vec![], None), Ok(()));
    assert_eq!(
        insert_outcome(&applied(false), Some(item("1"))),
        Err(StorageError::ConditionFailed(Some(item("1"))))
    );
    assert!(insert_effects("ks", &key_info(), no_effects()).is_none());
    let mut e = no_effects();
    e.indexes = vec![some_index()];
    assert!(insert_effects("ks", &key_info(), e).unwrap().is_empty());
}

#[test]
fn deletes_are_decided_on_the_stored_image() {
    let owner = vec![1u8; 16];
    let other = vec![2u8; 16];
    assert_eq!(
        decide_delete(Some(item("1")), None, None, None, false, None),
        Ok(DeleteDecision::Delete(Some(item("1"))))
    );
    assert_eq!(
        decide_delete(None, None, None, None, false, Some(Ok(true))),
        Ok(DeleteDecision::Nothing)
    );
    assert_eq!(
        decide_delete(None, None, None, None, false, None),
        Ok(DeleteDecision::Delete(None))
    );
    assert_eq!(
        decide_delete(None, Some(&owner), None, None, true, None),
        Err(claim_conflict())
    );
    assert_eq!(
        decide_delete(None, Some(&owner), None, None, false, None),
        Err(txn_conflict())
    );
    let expected = item("1");
    assert_eq!(
        decide_delete(Some(item("1")), Some(&owner), Some(&owner), Some(&expected), true, None),
        Ok(DeleteDecision::Delete(Some(item("1"))))
    );
    for (image, o) in [(item("2"), &owner), (item("1"), &other)] {
        assert_eq!(
            decide_delete(Some(image.clone()), Some(o), Some(&owner), Some(&expected), true, None),
            Err(StorageError::ConditionFailed(Some(image)))
        );
    }
}

#[test]
fn deletes_with_a_claim_are_batches() {
    let plan =
        delete_item_impl_inner("ks", "t", &plain_key(), &key_info(), no_effects(), false);
    assert_eq!(
        plan,
        WritePlan::Direct(Statement {
            cql: "DELETE FROM ks.t WHERE pk = ?".to_owned(),
            values: vec![text("p")],
        })
    );
    let plan = delete_item_impl_inner("ks", "t", &plain_key(), &key_info(), no_effects(), true);
    assert!(matches!(plan, WritePlan::Batch { timestamped: true, .. }));
    assert_eq!(
        delete_facts(true, true, false),
        WriteFacts { claims: true, holds_claim: true, marks_partition: true, prepares_first: false }
    );
    assert_eq!(
        delete_facts(false, true, true),
        WriteFacts {
            claims: false,
            holds_claim: true,
            marks_partition: false,
            prepares_first: false
        }
    );
}

#[test]
fn deletions_mark_their_partition() {
    assert_eq!(deletion_time_ms(1999), 1);
    assert_eq!(deletion_time_ms(-1999), -1);
    let (unset, higher) = update_partition_max_delete_timestamp_at("ks", "t", "p", 7);
    assert_eq!(
        unset.cql,
        "UPDATE ks.t SET partition_max_delete_timestamp = ? WHERE pk = ? \
         IF partition_max_delete_timestamp = null"
    );
    assert_eq!(higher.values, vec![CqlValue::BigInt(7), text("p"), CqlValue::BigInt(7)]);
    assert_eq!(mark_outcome(&applied(false)), StepOutcome::NotApplied);
    assert_eq!(mark_outcome(&applied(true)), StepOutcome::Done);
    assert_eq!(mark_outcome(&vec![]), StepOutcome::Done);
}

#[test]
fn expiration_owns_the_row_it_deletes() {
    let work = vec![3u8; 16];
    let s = claim_ttl_work_item("ks", "t", &plain_key(), "{}", &work, 5);
    assert_eq!(
        s.cql,
        "UPDATE ks.t USING TTL 900 SET prepared_txn_id = ?, prepared_txn_timestamp = ? \
         WHERE pk = ? IF prepared_txn_id = null AND item_data = ?"
    );
    let held = Some(row(vec![
        ("item_data", Cell::Text("{}".to_owned())),
        ("prepared_txn_id", Cell::Uuid(vec![3u8; 16])),
    ]));
    assert!(ensure_ttl_work_claim(&held, "{}", &work));
    assert!(!ensure_ttl_work_claim(&held, "{ }", &work));
    assert!(!ensure_ttl_work_claim(&held, "{}", &vec![4u8; 16]));
    assert!(!ensure_ttl_work_claim(&None, "{}", &work));
    let d = delete_ttl_base_exact("ks", "t", &plain_key(), "{}", &work);
    assert_eq!(
        d.cql,
        "DELETE FROM ks.t WHERE pk = ? IF prepared_txn_id = ? AND item_data = ?"
    );
    assert_eq!(d.values, vec![text("p"), CqlValue::Uuid(work), text("{}")]);
    assert_eq!(
        ttl_user_identity(),
        ("Service".to_owned(), "dynamodb.amazonaws.com".to_owned())
    );
    assert_eq!(apply_ttl_delete_effects("ks", &key_info(), no_effects()), (None, false));
    let mut e = no_effects();
    e.indexes = vec![some_index()];
    assert_eq!(apply_ttl_delete_effects("ks", &key_info(), e), (Some(vec![]), true));
}

#[test]
fn claims_are_taken_on_an_exact_image() {
    let claim = vec![5u8; 16];
    let s = claim_ttl_item("ks", "t", &plain_key(), None, &claim, 7, None);
    assert_eq!(
        s.cql,
        "UPDATE ks.t SET prepared_txn_id = ?, prepared_txn_timestamp = ? WHERE pk = ? \
         IF prepared_txn_id = null AND item_data = null"
    );
    assert_eq!(s.values, vec![CqlValue::Uuid(claim.clone()), CqlValue::BigInt(7), text("p")]);
    let r = release_ttl_claim("ks", "t", &plain_key(), &claim);
    assert_eq!(
        r.cql,
        "UPDATE ks.t SET prepared_txn_id = null, prepared_txn_timestamp = null WHERE pk = ? \
         IF prepared_txn_id = ?"
    );
    let (first, s) =
        CassandraEngine::acquire_ttl_mutation_claim("ks", "t", &plain_key(), Some("{}"), 7);
    let (second, _) =
        CassandraEngine::acquire_ttl_mutation_claim("ks", "t", &plain_key(), Some("{}"), 7);
    assert_eq!(first.len(), 16);
    assert_ne!(first, second);
    // A version 4 identifier.
    assert_eq!(first[6] >> 4, 4);
    assert_eq!(first[8] >> 6, 2);
    assert!(s.cql.starts_with("UPDATE ks.t USING TTL 120 SET "));
    assert_eq!(
        CassandraEngine::release_ttl_mutation_claim("ks", "t", &plain_key(), Some(&first)),
        Some(release_ttl_claim("ks", "t", &plain_key(), &first))
    );
    assert_eq!(
        CassandraEngine::release_ttl_mutation_claim("ks", "t", &plain_key(), None),
        None
    );
    assert_eq!(ttl_lwt_applied(&applied(true)), Ok(true));
    assert_eq!(ttl_lwt_applied(&applied(false)), Ok(false));
    assert!(matches!(ttl_lwt_applied(&vec![]), Err(StorageError::Internal(_))));
}

#[test]
fn conflicts_back_off() {
    assert_eq!(backoff_window(4, 0, 6), 4);
    assert_eq!(backoff_window(4, 3, 6), 32);
    assert_eq!(backoff_window(4, 60, 6), 256);
    assert_eq!(backoff_ms(300, 256), 44);
    for attempt in 0..10 {
        assert!(ttl_claim_backoff(attempt) < backoff_window(4, attempt, 6));
    }
    assert!(should_retry(0, &Err(claim_conflict())));
    assert!(should_retry(TTL_CLAIM_MAX_RETRIES - 1, &Err(claim_conflict())));
    assert!(!should_retry(TTL_CLAIM_MAX_RETRIES, &Err(claim_conflict())));
    assert!(!should_retry(0, &Err(txn_conflict())));
    assert!(!should_retry(0, &Ok(None)));
    for _ in 0..50 {
        let j = jitter_delay_ms(100);
        assert!((51..=100).contains(&j));
    }
    assert_eq!(jitter_delay_ms(1), 1);
    assert_eq!(jitter_delay_ms(0), 0);
}

#[test]
fn a_claimed_write_commits_after_its_claim_and_gives_it_back() {
    let f = put_facts(true);
    let s = start_write(f);
    assert_eq!(s, WriteState::Prepare);
    let s = next_write(f, s, StepOutcome::Done);
    assert_eq!(s, WriteState::Claim);
    let s = next_write(f, s, StepOutcome::Done);
    assert_eq!(s, WriteState::Commit);
    let s = next_write(f, s, StepOutcome::Failed(StorageError::Internal("x".to_owned())));
    let failed = || Err(StorageError::Internal("x".to_owned()));
    assert_eq!(s, WriteState::Release(failed()));
    let s = next_write(f, s, StepOutcome::NotApplied);
    assert_eq!(s, WriteState::Finished(failed()));
    let lost = next_write(f, WriteState::Claim, StepOutcome::NotApplied);
    assert_eq!(lost, WriteState::Finished(Err(claim_conflict())));
}

#[test]
fn a_delete_marks_its_partition_between_claim_and_commit() {
    let f = delete_facts(true, true, false);
    let s = start_write(f);
    assert_eq!(s, WriteState::Claim);
    let s = next_write(f, s, StepOutcome::Done);
    assert_eq!(s, WriteState::MarkUnset);
    let s = next_write(f, s, StepOutcome::NotApplied);
    assert_eq!(s, WriteState::MarkHigher);
    let s = next_write(f, s, StepOutcome::NotApplied);
    assert_eq!(s, WriteState::Prepare);
    let s = next_write(f, s, StepOutcome::Done);
    assert_eq!(s, WriteState::Commit);
}

#[test]
fn updates_are_guarded_by_the_version() {
    let s = occ_write("ks", "t", &plain_key(), "{}", Some(4), true);
    assert_eq!(
        s.cql,
        "UPDATE ks.t SET item_data = ?, version = ? WHERE pk = ? \
         IF version = ? AND prepared_txn_id = null"
    );
    assert_eq!(
        s.values,
        vec![text("{}"), CqlValue::BigInt(5), text("p"), CqlValue::BigInt(4)]
    );
    let s = occ_write("ks", "t", &ranged_key(), "{}", None, true);
    assert_eq!(
        s.cql,
        "UPDATE ks.t SET item_data = ?, version = ? WHERE pk = ? AND sk_s = ? \
         IF version = null AND prepared_txn_id = null"
    );
    assert_eq!(s.values, vec![text("{}"), CqlValue::BigInt(1), text("p"), text("s")]);
    let s = occ_write("ks", "t", &ranged_key(), "{}", None, false);
    assert_eq!(
        s.cql,
        "INSERT INTO ks.t (pk, sk_s, item_data, version) VALUES (?, ?, ?, ?) IF NOT EXISTS"
    );
    assert_eq!(
        select_versioned("ks", "t", &plain_key()).cql,
        "SELECT item_data, version, prepared_txn_id FROM ks.t WHERE pk = ?"
    );
}

#[test]
fn versions_are_read() {
    let absent = occ_read(&None).unwrap();
    assert_eq!((absent.item_data, absent.version), (None, None));
    let r = Some(row(vec![
        ("item_data", Cell::Text("{}".to_owned())),
        ("version", Cell::BigInt(3)),
    ]));
    let v = occ_read(&r).unwrap();
    assert_eq!((v.item_data, v.version), (Some("{}".to_owned()), Some(3)));
    let owned = Some(row(vec![("prepared_txn_id", Cell::Uuid(vec![1u8; 16]))]));
    assert_eq!(
        occ_read(&owned),
        Err(StorageError::TransactionConflict(
            "Item is being modified by a concurrent transaction".to_owned()
        ))
    );
    let empty = Some(row(vec![]));
    assert_eq!(occ_read(&empty), Err(StorageError::Internal("Database error".to_owned())));
    assert_eq!(occ_applied(&vec![]), Ok(true));
    assert_eq!(occ_applied(&applied(false)), Ok(false));
    assert!(matches!(occ_applied(&vec![row(vec![])]), Err(StorageError::Internal(_))));
}

#[test]
fn lost_updates_are_retried() {
    assert_eq!(occ_next_with(0, true, 9), OccNext::Done);
    assert_eq!(occ_next_with(0, false, 9), OccNext::Retry(1));
    assert_eq!(occ_next_with(19, false, 35), OccNext::Retry(3));
    assert_eq!(
        occ_next_with(20, false, 0),
        OccNext::GiveUp(StorageError::Internal(
            "update_item: too many concurrent writers on this item".to_owned()
        ))
    );
    match update_item_impl(2, false) {
        OccNext::Retry(ms) => assert!(ms < 8),
        other => panic!("{other:?}"),
    }
}

#[test]
fn updates_start_from_the_stored_item() {
    let stored = item("1");
    let key = Item::new();
    assert!(update_base(Some(&stored), &key).same(&stored));
    assert!(update_base(None, &key).same(&key));
    assert_eq!(check_update(Some(item("1")), Some(Ok(true))), Ok(Some(item("1"))));
    assert_eq!(
        check_update(None, Some(Ok(false))),
        Err(StorageError::ConditionFailed(None))
    );
    assert_eq!(update_old(true, &stored), Some(item("1")));
    assert_eq!(update_old(false, &stored), None);
    assert_eq!(pre_mutation_item(false, true, Some(&stored)), Some(item("1")));
    assert_eq!(pre_mutation_item(false, false, Some(&stored)), None);
    let mut info = key_info();
    assert_eq!(
        update_sort_key(&info, &key),
        Err(StorageError::Internal("missing sort key".to_owned()))
    );
    info.attribute_definitions.clear();
    let mut with_sk = Item::new();
    with_sk.insert("sk".to_owned(), AttributeValue::S("s".to_owned()));
    assert_eq!(
        update_sort_key(&info, &with_sk),
        Err(StorageError::Internal("sort key type not found".to_owned()))
    );
}
