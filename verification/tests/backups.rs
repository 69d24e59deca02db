use storage_cassandra::backup_engine::{
    backup_arn, backup_id, backup_id_text, backup_item, backup_size, bucket_count,
    cleanup_backup_payload, copy_backup_item, create_backup, created_details, delete_backup,
    delete_backup_metadata, deleted_description, describe_continuous_backups, epoch_millis,
    insert_backup, insert_backup_item, list_entry, listed_arn, load_available_backup, load_backup,
    mark_table_active_after_restore, publish_backup, recorded_billing_mode,
    remove_backup_index_rows, require_table, restore_activated, restore_next,
    restore_table_from_backup, restore_table_to_point_in_time, restored_billing_mode,
    restored_key_info, restored_throughput, select_backup_items, select_backups, start_restore,
    update_continuous_backups, BackupCleanup, BackupPhase, BillingMode, CopyProgress, NewBackup,
    ProvisionedThroughput, RestorePhase, StoredBackup, BACKUP_ITEMS_PER_BUCKET,
};
use storage_cassandra::cassandra_util::{Cell, Column, ColumnType, Row};
use storage_cassandra::cql::CqlValue;
use storage_cassandra::error::StorageError;
use storage_cassandra::model::{KeySchemaElement, KeyType};

fn text(v: &str) -> CqlValue {
    CqlValue::Text(v.to_owned())
}

fn column(name: &str, cell: Cell) -> Column {
    let column_type = match &cell {
        Cell::BigInt(_) => ColumnType::Bigint,
        Cell::Int(_) => ColumnType::Int,
        Cell::Boolean(_) => ColumnType::Boolean,
        Cell::Uuid(_) => ColumnType::Uuid,
        Cell::Blob(_) => ColumnType::Blob,
        _ => ColumnType::Varchar,
    };
    Column { name: name.to_owned(), column_type, cell }
}

fn row(cells: Vec<(&str, Cell)>) -> Row {
    Row { columns: cells.into_iter().map(|(n, c)| column(n, c)).collect() }
}

fn applied(b: bool) -> Vec<Row> {
    vec![row(vec![("[applied]", Cell::Boolean(b))])]
}

fn backup_row(status: &str) -> Row {
    let mut cells: Vec<(&str, Cell)> = Vec::new();
    for name in [
        "backup_arn",
        "account_id",
        "backup_name",
        "table_id",
        "table_name",
        "table_arn",
        "backup_type",
        "key_schema",
        "attribute_definitions",
        "billing_mode",
    ] {
        cells.push((name, Cell::Text(format!("the {name}"))));
    }
    cells.push(("backup_status", Cell::Text(status.to_owned())));
    cells.push(("backup_size_bytes", Cell::BigInt(500)));
    cells.push(("item_count", Cell::BigInt(130)));
    cells.push(("table_created_at", Cell::BigInt(1)));
    cells.push(("created_at", Cell::BigInt(2)));
    row(cells)
}

fn stored(status: &str) -> StoredBackup {
    StoredBackup::from_row(&backup_row(status)).unwrap()
}

fn new_backup() -> NewBackup {
    NewBackup {
        backup_arn: "arn".to_owned(),
        account_id: "acct".to_owned(),
        backup_name: "name".to_owned(),
        table_id: "t".to_owned(),
        table_name: "tab".to_owned(),
        table_arn: "tarn".to_owned(),
        table_size_bytes: 10,
        key_schema: "[]".to_owned(),
        attribute_definitions: "[]".to_owned(),
        billing_mode: "PROVISIONED".to_owned(),
        provisioned_throughput: "{}".to_owned(),
        stream_specification: None,
        table_created_at: 1,
        created_at: 2,
    }
}

#[test]
fn backup_identifier_has_timestamp_and_random_suffix() {
    let id = backup_id();
    let (timestamp, suffix) = id.split_once('-').expect("backup id separator");
    assert!(!timestamp.is_empty());
    assert!(timestamp.chars().all(|ch| ch.is_ascii_digit()));
    assert_eq!(suffix.len(), 8);
    assert!(suffix.chars().all(|ch| ch.is_ascii_hexdigit()));
}

#[test]
fn item_buckets_are_bounded() {
    assert_eq!(bucket_count(0), 0);
    assert_eq!(bucket_count(1), 1);
    assert_eq!(bucket_count(BACKUP_ITEMS_PER_BUCKET), 1);
    assert_eq!(bucket_count(BACKUP_ITEMS_PER_BUCKET + 1), 2);
}

#[test]
fn identifiers_have_a_fixed_form() {
    assert_eq!(backup_id_text(1700000000123, 0xbeef), "1700000000123-0000beef");
    assert_eq!(backup_id_text(0, 0), "0-00000000");
    // Later than 2020, earlier than 2100.
    assert!((1_577_836_800_000..4_102_444_800_000).contains(&epoch_millis()));
    assert_eq!(
        backup_arn("us-east-1", "acct", "tab", "7-00000001"),
        "arn:aws:dynamodb:us-east-1:acct:table/tab/backup/7-00000001"
    );
}

#[test]
fn negative_counts_take_no_bucket() {
    assert_eq!(bucket_count(-5), 0);
}

#[test]
fn backups_are_read() {
    let b = stored("AVAILABLE");
    assert_eq!(b.backup_arn, "the backup_arn");
    assert_eq!(b.billing_mode, "the billing_mode");
    assert_eq!((b.item_count, b.backup_size_bytes), (130, 500));
    assert_eq!(b.provisioned_throughput, None);
    let d = b.description();
    assert_eq!(d.backup_details, b.details());
    assert_eq!(d.source_table_details.billing_mode, Some("the billing_mode".to_owned()));
    assert_eq!(d.source_table_details.table_size_bytes, 500);
    assert_eq!(b.summary().created_at_millis, 2);
    match StoredBackup::from_row(&row(vec![])) {
        Err(StorageError::Internal(m)) => assert!(m.starts_with("Parse backup_arn: "), "{m}"),
        other => panic!("{other:?}"),
    }
    let mut without_time = backup_row("AVAILABLE");
    without_time.columns.pop();
    match StoredBackup::from_row(&without_time) {
        Err(StorageError::Internal(m)) => assert!(m.starts_with("Parse created_at: "), "{m}"),
        other => panic!("{other:?}"),
    }
}

#[test]
fn backups_of_others_are_not_found() {
    let rows = vec![backup_row("CREATING")];
    let missing = || StorageError::Validation("Backup not found: a".to_owned());
    assert!(load_backup(&rows, "the account_id", "a").is_ok());
    assert_eq!(load_backup(&rows, "other", "a"), Err(missing()));
    assert_eq!(load_backup(&vec![], "the account_id", "a"), Err(missing()));
    assert_eq!(load_available_backup(&rows, "the account_id", "a"), Err(missing()));
    let rows = vec![backup_row("AVAILABLE")];
    assert!(load_available_backup(&rows, "the account_id", "a").is_ok());
}

#[test]
fn payloads_are_removed_bucket_by_bucket() {
    let s = cleanup_backup_payload("ks", "arn", 130);
    assert_eq!(s.len(), 3);
    assert_eq!(s[2].cql, "DELETE FROM ks.backup_items WHERE backup_arn = ? AND bucket = ?");
    assert_eq!(s[2].values, vec![text("arn"), CqlValue::Int(2)]);
    assert!(cleanup_backup_payload("ks", "arn", 0).is_empty());
    // Every stored item lies in a bucket that is removed.
    for index in [0, 63, 64, 129] {
        let stored = insert_backup_item("ks", "arn", index, "{}");
        assert!(s.iter().any(|d| d.values[1] == stored.values[1]));
        let so_far = CopyProgress { item_count: index, payload_size: 5 };
        assert_eq!(
            copy_backup_item("ks", "arn", so_far, "{}"),
            (stored, CopyProgress { item_count: index + 1, payload_size: 7 })
        );
    }
    assert_eq!(
        select_backup_items("ks", "arn", 2).values,
        vec![text("arn"), CqlValue::Int(2)]
    );
}

#[test]
fn creation_goes_from_record_to_publication() {
    assert_eq!(create_backup(BackupPhase::Record, true), Ok(BackupPhase::Copy));
    assert_eq!(create_backup(BackupPhase::Copy, true), Ok(BackupPhase::Publish));
    assert_eq!(create_backup(BackupPhase::Publish, true), Ok(BackupPhase::Available));
    let cleanup = |index_rows, payload, metadata| {
        Err(BackupCleanup { index_rows, payload, metadata })
    };
    assert_eq!(create_backup(BackupPhase::Record, false), cleanup(false, false, false));
    assert_eq!(create_backup(BackupPhase::Copy, false), cleanup(false, true, true));
    assert_eq!(create_backup(BackupPhase::Publish, false), cleanup(true, true, true));
}

#[test]
fn copies_count_items_and_bytes() {
    let p = CopyProgress::new().copied("{}").copied("é");
    assert_eq!((p.item_count, p.payload_size), (2, 4));
    let full = CopyProgress { item_count: 1, payload_size: i64::MAX };
    assert_eq!(full.copied("x").payload_size, i64::MAX);
    assert_eq!(backup_size(3, p), 4);
    assert_eq!(backup_size(30, p), 30);
}

#[test]
fn backups_are_recorded_and_published() {
    let s = insert_backup("cat", &new_backup());
    assert!(s.cql.starts_with("INSERT INTO cat.backups_by_arn ("));
    assert!(s.cql.ends_with(" IF NOT EXISTS"));
    assert_eq!(s.values.len(), s.cql.matches('?').count());
    let p = publish_backup("cat", &new_backup(), 40, 3);
    assert_eq!(p.len(), 3);
    assert!(p[0].cql.starts_with("INSERT INTO cat.backups_by_account "));
    assert!(p[1].cql.starts_with("INSERT INTO cat.backups_by_table "));
    assert_eq!(
        p[2].values,
        vec![CqlValue::BigInt(40), CqlValue::BigInt(3), text("acct"), text("arn")]
    );
    let d = created_details(new_backup(), 40);
    assert_eq!(d.backup_status, "AVAILABLE");
    assert_eq!(d.backup_type, "USER");
    assert_eq!(d.backup_size_bytes, 40);
    assert_eq!(recorded_billing_mode(true), "PAY_PER_REQUEST");
    assert_eq!(recorded_billing_mode(false), "PROVISIONED");
    assert!(delete_backup_metadata("cat", "acct", "arn").cql.starts_with("DELETE FROM cat."));
}

#[test]
fn lists_leave_unavailable_backups_out() {
    assert!(select_backups("cat", "acct", None).cql.contains(".backups_by_account "));
    assert!(select_backups("cat", "acct", Some("tab")).cql.contains(".backups_by_table "));
    assert_eq!(listed_arn(&backup_row("AVAILABLE")), Ok("the backup_arn".to_owned()));
    assert!(listed_arn(&row(vec![])).is_err());
    assert_eq!(list_entry(Ok(stored("AVAILABLE"))), Ok(Some(stored("AVAILABLE").summary())));
    assert_eq!(list_entry(Err(StorageError::Validation("x".to_owned()))), Ok(None));
    let fault = || StorageError::Internal("x".to_owned());
    assert_eq!(list_entry(Err(fault())), Err(fault()));
}

#[test]
fn deletions_can_be_repeated() {
    for status in ["AVAILABLE", "DELETING"] {
        let s = delete_backup("cat", "ks", "acct", "arn", &stored(status)).unwrap();
        assert_eq!(s.len(), 7);
        assert!(s[0].cql.contains("backup_status = 'DELETING'"));
        assert_eq!(&s[1..3], remove_backup_index_rows("cat", &stored(status)).as_slice());
        assert!(s[6].cql.contains("backup_status = 'DELETED'"));
    }
    assert_eq!(
        delete_backup("cat", "ks", "acct", "arn", &stored("CREATING")),
        Err(StorageError::Validation("Backup not found: arn".to_owned()))
    );
    let d = deleted_description(&stored("AVAILABLE"));
    assert_eq!(d.backup_details.backup_status, "DELETED");
    assert_eq!(d.backup_details.backup_name, "the backup_name");
}

#[test]
fn restores_bring_every_item_back() {
    let b = stored("AVAILABLE");
    let all = CopyProgress { item_count: 130, payload_size: 900 };
    assert_eq!(restore_table_from_backup(&b, all), Ok((130, 900)));
    let some = CopyProgress { item_count: 129, payload_size: 900 };
    assert_eq!(
        restore_table_from_backup(&b, some),
        Err(StorageError::Internal(
            "Backup item count mismatch: expected 130, restored 129".to_owned()
        ))
    );
    assert_eq!(restored_billing_mode("PAY_PER_REQUEST"), BillingMode::PayPerRequest);
    assert_eq!(restored_billing_mode("x"), BillingMode::Provisioned);
    let units = |read_capacity_units, write_capacity_units| ProvisionedThroughput {
        read_capacity_units,
        write_capacity_units,
    };
    assert_eq!(restored_throughput(None), units(5, 5));
    assert_eq!(restored_throughput(Some(units(0, 7))), units(5, 7));
    let schema = vec![KeySchemaElement { attribute_name: "pk".to_owned(), key_type: KeyType::Hash }];
    let info = restored_key_info("tab", "acct", "t", schema, vec![], None);
    assert_eq!(info.base_key_schema, info.key_schema);
    assert!(info.global_secondary_indexes.is_empty());
    assert_eq!(
        backup_item(&row(vec![("item_data", Cell::Text("{}".to_owned()))])),
        Ok("{}".to_owned())
    );
    assert!(backup_item(&row(vec![])).is_err());
}

#[test]
fn restores_activate_the_table_last() {
    let b = stored("AVAILABLE");
    let copied = |item_count| CopyProgress { item_count, payload_size: item_count * 10 };
    assert_eq!(start_restore(&b), Ok(RestorePhase::Fill(0)));
    assert_eq!(restore_next(&b, RestorePhase::Fill(0), Ok(copied(64))), Ok(RestorePhase::Fill(1)));
    assert_eq!(restore_next(&b, RestorePhase::Fill(1), Ok(copied(128))), Ok(RestorePhase::Fill(2)));
    let active = RestorePhase::Activate { item_count: 130, size: 1300 };
    assert_eq!(restore_next(&b, RestorePhase::Fill(2), Ok(copied(130))), Ok(active));
    assert_eq!(restore_next(&b, active, Ok(copied(130))), Ok(RestorePhase::Restored));
    let mismatch = "Backup item count mismatch: expected 130, restored 129".to_owned();
    assert_eq!(
        restore_next(&b, RestorePhase::Fill(2), Ok(copied(129))),
        Err(StorageError::Internal(mismatch))
    );
    let lost = || StorageError::Internal("lost".to_owned());
    assert_eq!(restore_next(&b, RestorePhase::Fill(1), Err(lost())), Err(lost()));
    assert_eq!(restore_next(&b, active, Err(lost())), Err(lost()));
    let empty = StoredBackup { item_count: 0, backup_size_bytes: 7, ..stored("AVAILABLE") };
    assert_eq!(start_restore(&empty), Ok(RestorePhase::Activate { item_count: 0, size: 7 }));
}

#[test]
fn restored_tables_are_activated_once() {
    let s = mark_table_active_after_restore("cat", "acct", "tab", "t", 3, 40);
    assert!(s.cql.ends_with(" IF table_id = ? AND table_status = 'CREATING'"));
    assert_eq!(s.values.len(), 5);
    assert_eq!(restore_activated(&applied(true)), Ok(()));
    assert_eq!(restore_activated(&vec![]), Ok(()));
    assert_eq!(
        restore_activated(&applied(false)),
        Err(StorageError::Internal("Restore target changed before activation".to_owned()))
    );
    assert!(restore_activated(&vec![row(vec![])]).is_err());
    assert_eq!(require_table(&applied(true), "tab"), Ok(()));
    assert_eq!(
        require_table(&vec![], "tab"),
        Err(StorageError::TableNotFound("Table not found: tab".to_owned()))
    );
}

#[test]
fn recovery_to_a_point_in_time() {
    let off = describe_continuous_backups(&vec![]);
    assert_eq!(off.continuous_backups_status, "ENABLED");
    assert_eq!(off.point_in_time_recovery_status, "DISABLED");
    assert!(!off.is_restorable);
    let rows = vec![row(vec![("pitr_enabled", Cell::Boolean(true))])];
    assert_eq!(describe_continuous_backups(&rows).point_in_time_recovery_status, "ENABLED");
    let s = update_continuous_backups("cat", "acct", "tab", true);
    assert_eq!(s.values, vec![text("acct"), text("tab"), CqlValue::Boolean(true)]);
    assert_eq!(
        restore_table_to_point_in_time(),
        StorageError::Validation("Point-in-time recovery restore is not yet supported".to_owned())
    );
}
