use storage_cassandra::cassandra_util::{Cell, Column, ColumnType, Row};
use storage_cassandra::cql::{CqlValue, Statement};
use storage_cassandra::data::ttl::{
    abort_claimed_ttl_work, add_ttl_queue_mutations, add_ttl_reconciliation_mutation,
    claim_ttl_work, clear_ttl_entries, clear_ttl_row, complete_ttl_work, due_partitions,
    entry_for_item, entry_for_key, generation_partitions, insert_ttl_entry, insert_ttl_entry_next,
    is_drained, load_due_ttl_work, mark_ttl_effects_applied, next_due_partition, reads_more_work,
    reconciliation_key,
    record_ttl_repair, record_ttl_repair_as, retire_pending_ttl_work, same_queue_key,
    select_due_buckets, ttl_epoch_seconds, ttl_key, work_lwt_applied, work_row, ClearProgress,
    InsertTtlState, TtlEntry, TtlWorkData, TtlWorkRow, TtlWorkState, TTL_BUCKET_SECONDS,
    TTL_SHARDS,
};
use storage_cassandra::error::StorageError;
use storage_cassandra::model::{
    AttributeDefinition, AttributeValue, Item, KeySchemaElement, KeyType, ScalarAttributeType,
    TableKeyInfo,
};

const KEY_DATA: &str = r#"{"id":{"S":"a"}}"#;

fn key_info() -> TableKeyInfo {
    TableKeyInfo {
        table_name: "table".to_owned(),
        account_id: "123456789012".to_owned(),
        table_id: "table-id".to_owned(),
        key_schema: vec![KeySchemaElement {
            attribute_name: "id".to_owned(),
            key_type: KeyType::Hash,
        }],
        base_key_schema: vec![KeySchemaElement {
            attribute_name: "id".to_owned(),
            key_type: KeyType::Hash,
        }],
        attribute_definitions: vec![AttributeDefinition {
            attribute_name: "id".to_owned(),
            attribute_type: ScalarAttributeType::S,
        }],
        has_lsi: false,
        global_secondary_indexes: Vec::new(),
        local_secondary_indexes: Vec::new(),
        stream_specification: None,
    }
}

fn generation() -> Vec<u8> {
    uuid::Uuid::new_v4().as_bytes().to_vec()
}

fn texts(batch: &[Statement]) -> Vec<String> {
    batch.iter().map(|s| s.cql.clone()).collect()
}

fn column(name: &str, cell: Cell) -> Column {
    let column_type = match &cell {
        Cell::BigInt(_) => ColumnType::Bigint,
        Cell::Int(_) => ColumnType::Int,
        Cell::Boolean(_) => ColumnType::Boolean,
        Cell::Uuid(_) => ColumnType::Uuid,
        Cell::Blob(_) => ColumnType::Blob,
        _ => ColumnType::Varchar,
    };
    Column { name: name.to_owned(), column_type, cell }
}

fn row(cells: Vec<(&str, Cell)>) -> Row {
    Row { columns: cells.into_iter().map(|(n, c)| column(n, c)).collect() }
}

#[test]
fn ttl_epoch_accepts_only_positive_integral_numbers() {
    let mut item = Item::new();
    for (value, expected) in [("123", Some(123)), ("0", None), ("-1", None), ("1.5", None)] {
        item.insert("ttl".to_owned(), AttributeValue::N(value.to_owned()));
        assert_eq!(ttl_epoch_seconds(&item, "ttl"), expected);
    }
    item.insert("ttl".to_owned(), AttributeValue::S("123".to_owned()));
    assert_eq!(ttl_epoch_seconds(&item, "ttl"), None);
}

#[test]
fn ttl_epoch_edges() {
    let mut item = Item::new();
    for (value, expected) in [
        ("9223372036854775807", Some(i64::MAX)),
        ("9223372036854775808", None),
        ("+5", Some(5)),
        ("007", Some(7)),
        ("", None),
        ("+", None),
        (" 1", None),
    ] {
        item.insert("ttl".to_owned(), AttributeValue::N(value.to_owned()));
        assert_eq!(ttl_epoch_seconds(&item, "ttl"), expected, "{value}");
    }
    assert_eq!(ttl_epoch_seconds(&item, "other"), None);
}

#[test]
fn ttl_entry_is_stable_and_bounded_to_a_shard() {
    let mut item = Item::new();
    item.insert("id".to_owned(), AttributeValue::S("a".to_owned()));
    item.insert("ttl".to_owned(), AttributeValue::N("123".to_owned()));
    let first = entry_for_item(&key_info(), &item, "ttl", KEY_DATA).unwrap().unwrap();
    let second = entry_for_item(&key_info(), &item, "ttl", KEY_DATA).unwrap().unwrap();
    assert_eq!(first, second);
    assert!((0..TTL_SHARDS).contains(&first.shard));
    assert_eq!(first.bucket, first.expires_at / TTL_BUCKET_SECONDS);
}

#[test]
fn unchanged_ttl_does_not_delete_and_reinsert_same_queue_key() {
    let key_info = key_info();
    let mut item = Item::new();
    item.insert("id".to_owned(), AttributeValue::S("a".to_owned()));
    item.insert("ttl".to_owned(), AttributeValue::N("123".to_owned()));
    let mut batch: Vec<Statement> = Vec::new();
    add_ttl_queue_mutations(
        &mut batch,
        "account_keyspace",
        &key_info.table_id,
        &generation(),
        entry_for_item(&key_info, &item, "ttl", KEY_DATA).unwrap(),
        entry_for_item(&key_info, &item, "ttl", KEY_DATA).unwrap(),
    );
    let statements = texts(&batch);
    // The point of the test is the absence of the DELETE: re-deleting and
    // re-inserting the same queue key would let a writer erase expiration
    // work that a sweep had already claimed.
    assert!(
        !statements.iter().any(|cql| cql.contains("DELETE")),
        "an unchanged TTL must not delete its own queue entry: {statements:?}"
    );
    assert_eq!(
        statements.len(),
        2,
        "expected only the bucket and entry upserts: {statements:?}"
    );
    assert!(statements[0].contains("INSERT INTO account_keyspace.ttl_expiration_buckets"));
    assert!(statements[1].contains("INSERT INTO account_keyspace.ttl_expirations"));
}

/// A changed TTL value must retire the old queue key as well as register the
/// new one, otherwise the old entry outlives the change.
#[test]
fn changed_ttl_retires_the_previous_queue_key() {
    let key_info = key_info();
    let mut old = Item::new();
    old.insert("id".to_owned(), AttributeValue::S("a".to_owned()));
    old.insert("ttl".to_owned(), AttributeValue::N("123".to_owned()));
    let mut new = old.clone();
    new.insert("ttl".to_owned(), AttributeValue::N("456".to_owned()));

    let mut batch: Vec<Statement> = Vec::new();
    add_ttl_queue_mutations(
        &mut batch,
        "account_keyspace",
        &key_info.table_id,
        &generation(),
        entry_for_item(&key_info, &old, "ttl", KEY_DATA).unwrap(),
        entry_for_item(&key_info, &new, "ttl", KEY_DATA).unwrap(),
    );
    let statements = texts(&batch);
    assert_eq!(statements.len(), 3, "{statements:?}");
    assert!(
        statements[0].contains("DELETE FROM account_keyspace.ttl_expirations"),
        "the previous queue key must be deleted first: {statements:?}"
    );
    assert!(statements[1].contains("INSERT INTO account_keyspace.ttl_expiration_buckets"));
    assert!(statements[2].contains("INSERT INTO account_keyspace.ttl_expirations"));
}

#[test]
fn entries_hash_their_key() {
    // The checksum of "123456789" is 0xcbf43926.
    let entry = entry_for_key(TTL_BUCKET_SECONDS * 3 + 5, "123456789");
    assert_eq!(entry.bucket, 3);
    assert_eq!(entry.shard, (0xcbf4_3926u32 % 64) as i32);
    assert_eq!(entry.key_hash, "cbf43926");
    assert_eq!(entry.key_data, "123456789");
    let other = entry_for_key(TTL_BUCKET_SECONDS * 3 + 5, "123456780");
    assert!(!same_queue_key(&entry, &other));
    assert!(same_queue_key(&entry, &entry_for_key(TTL_BUCKET_SECONDS * 3 + 5, "123456789")));
    assert!(!same_queue_key(&entry, &entry_for_key(TTL_BUCKET_SECONDS * 3 + 6, "123456789")));
}

#[test]
fn entries_need_the_key() {
    let mut item = Item::new();
    item.insert("ttl".to_owned(), AttributeValue::N("123".to_owned()));
    assert_eq!(
        entry_for_item(&key_info(), &item, "ttl", KEY_DATA),
        Err(StorageError::Internal("TTL item missing key attribute id".to_owned()))
    );
    assert_eq!(entry_for_item(&key_info(), &item, "absent", KEY_DATA), Ok(None));
    assert_eq!(
        reconciliation_key(&key_info(), &item, "ttl").err(),
        Some(StorageError::Internal(
            "TTL reconciliation item missing key attribute id".to_owned()
        ))
    );
    item.insert("id".to_owned(), AttributeValue::S("a".to_owned()));
    let key = ttl_key(&key_info(), &item, "ttl").unwrap().unwrap();
    assert_eq!(key.len(), 1);
    assert!(key.contains_key("id"));
}

#[test]
fn work_states_are_parsed() {
    assert_eq!(TtlWorkState::parse(None), Ok(TtlWorkState::Pending));
    assert_eq!(TtlWorkState::parse(Some("PENDING")), Ok(TtlWorkState::Pending));
    assert_eq!(TtlWorkState::parse(Some("CLAIMED")), Ok(TtlWorkState::Claimed));
    assert_eq!(TtlWorkState::parse(Some("CLAIM_ABORTING")), Ok(TtlWorkState::ClaimAborting));
    assert_eq!(TtlWorkState::parse(Some("EFFECTS_APPLYING")), Ok(TtlWorkState::EffectsApplying));
    assert_eq!(TtlWorkState::parse(Some("EFFECTS_APPLIED")), Ok(TtlWorkState::EffectsApplied));
    // The text is quoted and escaped.
    match TtlWorkState::parse(Some("a\"b\n")) {
        Err(StorageError::Internal(m)) => {
            assert_eq!(m, "Unknown TTL work state \"a\\\"b\\n\"")
        }
        other => panic!("{other:?}"),
    }
}

#[test]
fn reconciliation_writes_nothing_without_a_key() {
    let mut batch: Vec<Statement> = Vec::new();
    add_ttl_reconciliation_mutation(&mut batch, "ks", &key_info(), None);
    assert!(batch.is_empty());
    add_ttl_reconciliation_mutation(&mut batch, "ks", &key_info(), Some(&KEY_DATA.to_owned()));
    assert_eq!(batch.len(), 1);
    assert!(batch[0].cql.starts_with("INSERT INTO ks."));
}

#[test]
fn a_repair_is_recorded_and_completed_under_one_id() {
    let g = generation();
    let (first, one) = record_ttl_repair("ks", &key_info(), &g, KEY_DATA);
    let (_, two) = record_ttl_repair("ks", &key_info(), &g, KEY_DATA);
    assert_eq!(one.repair_id.len(), 16);
    assert_ne!(one.repair_id, two.repair_id);
    assert_eq!(one.worker_partition, two.worker_partition);
    assert!(!first.is_empty());
    let (again, same) =
        record_ttl_repair_as("ks", &key_info(), &g, KEY_DATA, one.repair_id.clone());
    assert_eq!(again, first);
    assert_eq!(same, one);
    assert_eq!(first.len(), 2);
    assert!(first[0].cql.starts_with("INSERT INTO ks.ttl_repair_inflight_partitions "));
    assert!(first[1].cql.starts_with("INSERT INTO ks.ttl_repair_inflight "));
    let done = one.complete("ks");
    assert_eq!(done.len(), 2);
    assert!(done[0].cql.starts_with("INSERT INTO ks.ttl_reconcile_pending "));
    assert!(done[1].cql.starts_with("DELETE FROM ks.ttl_repair_inflight "));
    assert_eq!(done[1].values[1], CqlValue::Uuid(one.repair_id.clone()));
}

#[test]
fn destroying_work_leaves_an_obligation_first() {
    let entry = entry_for_key(123, KEY_DATA);
    let d = retire_pending_ttl_work("ks", &key_info(), &generation(), &entry);
    assert!(d.record.iter().all(|s| s.cql.starts_with("INSERT INTO ks.")));
    assert!(d.destroy.cql.starts_with("DELETE FROM ks.ttl_expirations"));
    assert!(d.destroy.cql.ends_with(" IF state = 'PENDING'"));
    assert!(d.complete[0].cql.starts_with("INSERT INTO ks.ttl_reconcile_pending "));
    assert!(d.complete[1].cql.starts_with("DELETE FROM ks.ttl_repair_inflight "));
    let plain = TtlWorkRow { entry, state: TtlWorkState::Pending, work_id: None, work_data: None };
    assert!(abort_claimed_ttl_work("ks", &key_info(), &generation(), &plain).is_none());
}

#[test]
fn inserting_an_entry_goes_step_by_step() {
    let g = generation();
    let entry = entry_for_key(123, KEY_DATA);
    let applied = vec![row(vec![("[applied]", Cell::Boolean(true))])];
    let refused = vec![row(vec![("[applied]", Cell::Boolean(false))])];
    assert_eq!(
        insert_ttl_entry_next(InsertTtlState::Registering, &applied),
        Ok(Some(InsertTtlState::Prechecking))
    );
    assert!(!insert_ttl_entry(InsertTtlState::Inserting, "ks", "t", &g, &entry).is_empty());
    assert_eq!(
        insert_ttl_entry_next(InsertTtlState::Inserting, &applied),
        Ok(Some(InsertTtlState::Confirming))
    );
    assert_eq!(
        insert_ttl_entry_next(InsertTtlState::Inserting, &refused),
        Err(StorageError::Transient(
            "TTL reconciliation deferred by in-flight expiration work".to_owned()
        ))
    );
    let pending = vec![row(vec![
        ("[applied]", Cell::Boolean(false)),
        ("state", Cell::Text("PENDING".to_owned())),
    ])];
    assert_eq!(
        insert_ttl_entry_next(InsertTtlState::Inserting, &pending),
        Ok(Some(InsertTtlState::Confirming))
    );
    assert_eq!(
        insert_ttl_entry_next(InsertTtlState::Prechecking, &vec![]),
        Ok(Some(InsertTtlState::Inserting))
    );
    assert_eq!(
        insert_ttl_entry_next(InsertTtlState::Registering, &vec![]),
        Err(StorageError::Transient(
            "TTL bucket restoration is not yet visible at quorum".to_owned()
        ))
    );
    assert_eq!(
        insert_ttl_entry_next(InsertTtlState::Inserting, &vec![]),
        Err(StorageError::Internal("TTL reconcile LWT returned no result".to_owned()))
    );
    assert!(work_lwt_applied(&applied).unwrap());
    assert!(!work_lwt_applied(&refused).unwrap());
    assert!(matches!(work_lwt_applied(&vec![]), Err(StorageError::Internal(_))));
}

#[test]
fn work_statements_bind_the_entry() {
    let g = generation();
    let entry = entry_for_key(123, KEY_DATA);
    let work_id = vec![7u8; 16];
    let claim = claim_ttl_work("ks", "t", &g, &entry, &work_id, "{}");
    assert!(claim.cql.starts_with("UPDATE ks.ttl_expirations"));
    assert_eq!(claim.values.len(), claim.cql.matches('?').count());
    assert!(claim.values.contains(&CqlValue::Uuid(work_id.clone())));
    let claimed = TtlWorkRow {
        entry: entry_for_key(123, KEY_DATA),
        state: TtlWorkState::Claimed,
        work_id: Some(work_id),
        work_data: None,
    };
    let marked = mark_ttl_effects_applied("ks", "t", &g, &claimed).unwrap();
    assert_eq!(marked.values.len(), marked.cql.matches('?').count());
    assert!(complete_ttl_work("ks", "t", &g, &claimed).is_some());
    let plain = TtlWorkRow {
        entry: entry_for_key(123, KEY_DATA),
        state: TtlWorkState::Pending,
        work_id: None,
        work_data: None,
    };
    assert!(mark_ttl_effects_applied("ks", "t", &g, &plain).is_none());
}

#[test]
fn sweeps_visit_what_is_due() {
    let rows = vec![
        row(vec![("bucket", Cell::BigInt(0)), ("shard", Cell::Int(3))]),
        row(vec![("bucket", Cell::BigInt(2)), ("shard", Cell::Int(1))]),
    ];
    let partitions = generation_partitions(&rows).unwrap();
    assert_eq!(partitions, vec![(0, 3), (2, 1)]);
    // The start rotates with the minute.
    assert_eq!(due_partitions(vec![(0, 3), (2, 1)], 60), vec![(2, 1), (0, 3)]);
    let due = due_partitions(partitions, 120);
    assert_eq!(due, vec![(0, 3), (2, 1)]);
    assert_eq!(next_due_partition(&due, 0, 0, 9), Some((0, 3, 5)));
    assert_eq!(next_due_partition(&due, 1, 5, 9), Some((2, 1, 4)));
    assert_eq!(next_due_partition(&due, 2, 5, 9), None);
    assert_eq!(next_due_partition(&due, 0, 9, 9), None);
    let many: Vec<(i64, i32)> = (0..600).map(|i| (i as i64, 0)).collect();
    assert_eq!(due_partitions(many, 0).len(), 512);
    // A registry above the cap is gone through minute by minute.
    for i in [0, 511, 512, 599] {
        let many: Vec<(i64, i32)> = (0..600).map(|i| (i as i64, 0)).collect();
        assert_eq!(due_partitions(many, 60 * i)[0], (i, 0));
    }
    let g = generation();
    assert_eq!(load_due_ttl_work("ks", "t", &g, 5, 0), None);
    assert_eq!(
        load_due_ttl_work("ks", "t", &g, 5, 1),
        Some(select_due_buckets("ks", "t", &g, 5))
    );
    assert!(reads_more_work(1, 2) && !reads_more_work(2, 2) && !reads_more_work(0, 0));
    assert!(generation_partitions(&vec![row(vec![])]).is_err());
    assert!(select_due_buckets("ks", "t", &generation(), 5).cql.contains("ttl_expiration_buckets"));
    assert!(is_drained(0, TTL_BUCKET_SECONDS, 0));
    assert!(!is_drained(1, TTL_BUCKET_SECONDS, 0));
    assert!(!is_drained(0, TTL_BUCKET_SECONDS, 1));
}

#[test]
fn work_rows_are_read() {
    let r = row(vec![
        ("expires_at", Cell::BigInt(123)),
        ("key_hash", Cell::Text("h".to_owned())),
        ("key_data", Cell::Text(KEY_DATA.to_owned())),
        ("state", Cell::Text("CLAIMED".to_owned())),
        ("work_id", Cell::Uuid(vec![1u8; 16])),
    ]);
    let data = TtlWorkData { old_item: Item::new(), delete_timestamp_ms: 5, stream: None };
    let work = work_row(&r, 4, 9, Some(Ok(data))).unwrap();
    assert_eq!(work.state, TtlWorkState::Claimed);
    assert_eq!(work.work_id, Some(vec![1u8; 16]));
    assert_eq!(
        work.entry,
        TtlEntry {
            bucket: 4,
            expires_at: 123,
            shard: 9,
            key_hash: "h".to_owned(),
            key_data: KEY_DATA.to_owned(),
        }
    );
    assert!(work_row(&r, 4, 9, Some(Err("bad".to_owned()))).is_err());
    assert!(work_row(&row(vec![]), 4, 9, None).is_err());
}

#[test]
fn clearing_is_done_when_every_row_went() {
    let pending = row(vec![
        ("expires_at", Cell::BigInt(123)),
        ("key_hash", Cell::Text("h".to_owned())),
        ("key_data", Cell::Text(KEY_DATA.to_owned())),
        ("state", Cell::Null),
    ]);
    assert!(clear_ttl_row(&pending, 0, 0).unwrap().is_some());
    let p = ClearProgress::new().row_done(true);
    assert!(p.partition_drained && p.fully_drained);
    let p = p.row_done(false);
    assert!(!p.partition_drained && !p.fully_drained);
    let p = p.next_partition();
    assert!(p.partition_drained && !p.fully_drained);
    assert!(clear_ttl_entries("ks", "t").cql.starts_with("DELETE FROM ks.ttl_expiration_buckets"));
}
