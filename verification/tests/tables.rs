use storage_cassandra::backup_engine::{BillingMode, ProvisionedThroughput};
use storage_cassandra::cassandra_util::{
    applied_column, first_row, get_column, get_optional, get_timestamp, lwt_applied, map_rows,
    millis_at, millis_i64, millis_since, now_millis, query_failed, read_column, response_unreadable, statement_failed,
    timestamp_to_datetime, trunc_div, BlobBytes, Cell, Column, ColumnType, Row,
};
use storage_cassandra::config::CassandraStorageConfig;
use storage_cassandra::cql::{decimal_to_value, sk_column, sk_column_n, CqlValue, Statement};
use storage_cassandra::create_table::{
    billing_text, create_table_impl_inner, describe_gsi, describe_lsi, init_stream_shards,
    initial_status, insert_table, new_identifier, reported_throughput, require_account_keyspace,
    setup_error, status_text, summarize_table, table_inserted, wakes_poller, GsiInput, LsiInput,
    NewIndex, NewTable, SetupKind, TableSetup, TableStatus, Tag,
};
use storage_cassandra::delete_table::{
    check_deletion, delete_table_impl, deletion_error, deletion_kind, select_index_rows,
    select_table_row, DeletionKind,
};
use storage_cassandra::engine::{
    check_contact_points, cluster_config_error, connection_timeout_error, credentials,
    session_error, CassandraEngine,
};
use storage_cassandra::error::{OpError, StorageError};
use storage_cassandra::ids::uuid_text;
use storage_cassandra::model::{
    AttributeDefinition, Decimal, KeySchemaElement, KeyType, Projection, ProjectionType,
    ScalarAttributeType,
};

fn text(v: &str) -> CqlValue {
    CqlValue::Text(v.to_owned())
}

fn column(name: &str, cell: Cell) -> Column {
    let column_type = match &cell {
        Cell::BigInt(_) => ColumnType::Bigint,
        Cell::Int(_) => ColumnType::Int,
        Cell::Boolean(_) => ColumnType::Boolean,
        Cell::Uuid(_) => ColumnType::Uuid,
        Cell::Blob(_) => ColumnType::Blob,
        _ => ColumnType::Varchar,
    };
    Column { name: name.to_owned(), column_type, cell }
}

fn row(cells: Vec<(&str, Cell)>) -> Row {
    Row { columns: cells.into_iter().map(|(n, c)| column(n, c)).collect() }
}

fn applied(b: bool) -> Vec<Row> {
    vec![row(vec![("[applied]", Cell::Boolean(b))])]
}

fn config(points: &[&str]) -> CassandraStorageConfig {
    CassandraStorageConfig::new(points.iter().map(|p| (*p).to_owned()).collect())
}

fn internal(m: &str) -> StorageError {
    StorageError::Internal(m.to_owned())
}

fn connection(m: &str) -> StorageError {
    StorageError::Connection(m.to_owned())
}

fn hash(name: &str) -> KeySchemaElement {
    KeySchemaElement { attribute_name: name.to_owned(), key_type: KeyType::Hash }
}

#[test]
fn engines_name_their_keyspaces() {
    let mut c = config(&["h"]);
    c.keyspace_prefix = "app".to_owned();
    let e = CassandraEngine::new(&c, "eu-west-1");
    assert_eq!(e.catalog_keyspace(), "app_catalog");
    assert_eq!(e.account_keyspace("42"), "app_account_42");
    assert_eq!(e.region, "eu-west-1");
    assert_eq!(e.gsi_default_delay_ms, 10);
    assert_eq!(e.stream_retention_seconds, 108_000);
    assert_eq!(e.clock_instance, "default");
    assert_eq!(e.backend_info(), "keyspace_prefix=app");
    c.set_instance_id("n1");
    assert_eq!(CassandraEngine::new(&c, "r").clock_instance, "n1");
    assert_eq!(
        e.create_keyspace("app_catalog").cql,
        "CREATE KEYSPACE IF NOT EXISTS app_catalog WITH replication = \
         {'class': 'NetworkTopologyStrategy', 'datacenter1': 3}"
    );
    assert_eq!(e.drop_keyspace("x").cql, "DROP KEYSPACE IF EXISTS x");
    assert_eq!(e.keyspace_exists("x").values, vec![text("x")]);
    assert_eq!(CassandraEngine::keyspace_found(Some(applied(true))), Ok(true));
    assert_eq!(CassandraEngine::keyspace_found(Some(vec![])), Ok(false));
    assert_eq!(
        CassandraEngine::keyspace_found(None),
        Err(internal("Failed to parse rows"))
    );
}

#[test]
fn account_ids_are_plain_ascii() {
    assert_eq!(CassandraEngine::validate_account_id("123456789012"), Ok(()));
    assert_eq!(CassandraEngine::validate_account_id(""), Ok(()));
    for bad in ["a\"b", "a\0b", "é"] {
        assert_eq!(
            CassandraEngine::validate_account_id(bad),
            Err(internal("account_id contains invalid characters for use in CQL identifiers"))
        );
    }
}

#[test]
fn connections_fail_with_a_hint() {
    assert_eq!(
        check_contact_points(&config(&[])),
        Err(connection("No contact points configured"))
    );
    assert_eq!(check_contact_points(&config(&["h"])), Ok(()));
    let mut c = config(&["h\"1", "h2"]);
    assert_eq!(credentials(&c), None);
    c.username = Some("u".to_owned());
    assert_eq!(credentials(&c), None);
    c.password = Some("p".to_owned());
    assert_eq!(credentials(&c), Some((&"u".to_owned(), &"p".to_owned())));
    assert_eq!(
        connection_timeout_error(&c),
        connection(
            "Connection timeout after 10s. Check that Cassandra is running and accessible at \
             [\"h\\\"1\", \"h2\"]. If authentication is enabled, verify username/password are \
             correct."
        )
    );
    assert_eq!(cluster_config_error("x"), connection("Failed to build cluster config: x"));
    assert_eq!(session_error("down"), connection("Failed to build session: down"));
    assert_eq!(
        session_error("bad Authentication"),
        connection("Authentication failed: bad Authentication. Verify username/password in config.")
    );
}

#[test]
fn columns_are_read_by_type() {
    let r = row(vec![("t", Cell::Text("x".to_owned())), ("n", Cell::BigInt(4)), ("z", Cell::Null)]);
    assert_eq!(get_column::<String, StorageError>(&r, "t"), Ok("x".to_owned()));
    assert_eq!(get_column::<i64, StorageError>(&r, "t"), Err(internal("Database error")));
    assert_eq!(
        get_column::<i64, OpError>(&r, "z"),
        Err(OpError::Internal("Database error".to_owned()))
    );
    assert_eq!(get_optional::<i64>(&r, "n"), Some(4));
    assert_eq!(get_optional::<i64>(&r, "z"), None);
    assert_eq!(get_optional::<String>(&r, "missing"), None);
    assert_eq!(
        read_column::<String>(&r, "z"),
        Err("General error: Column or Udt property 'z' is empty".to_owned())
    );
    assert_eq!(
        read_column::<String>(&r, "missing"),
        Err("General error: Column or Udt property 'missing' is empty".to_owned())
    );
    let mismatch = |m: &str| format!("General error: Invalid conversion. Cannot convert {m}");
    assert_eq!(
        read_column::<String>(&r, "n"),
        Err(mismatch("Bigint into String (valid types: Custom, Ascii, Varchar)."))
    );
    assert_eq!(
        read_column::<i64>(&r, "t"),
        Err(mismatch("Varchar into i64 (valid types: Bigint, Timestamp, Time,Counter, Custom)."))
    );
    assert_eq!(
        read_column::<BlobBytes>(&r, "n"),
        Err(mismatch("Bigint into Vec<u8> (valid types: Blob)."))
    );
    let u = row(vec![("b", Cell::Boolean(true)), ("x", Cell::Unreadable("short".to_owned()))]);
    assert_eq!(
        read_column::<Vec<u8>>(&u, "b"),
        Err(mismatch("Boolean into Uuid (valid types: Uuid, Timeuuid, Custom)."))
    );
    assert_eq!(
        read_column::<i32>(&u, "b"),
        Err(mismatch("Boolean into i32 (valid types: Int, Date, Custom)."))
    );
    assert_eq!(
        read_column::<bool>(&r, "n"),
        Err(mismatch("Bigint into bool (valid types: Boolean, Custom)."))
    );
    assert_eq!(read_column::<String>(&u, "x"), Err("short".to_owned()));
    assert_eq!(
        read_column::<bool>(&u, "x"),
        Err(mismatch("Varchar into bool (valid types: Boolean, Custom)."))
    );
    // The real type of the column is named, and counts before what it holds.
    let typed = |column_type: ColumnType, cell: Cell| Row {
        columns: vec![Column { name: "c".to_owned(), column_type, cell }],
    };
    let into_text =
        |t: &str| Err(mismatch(&format!("{t} into String (valid types: Custom, Ascii, Varchar).")));
    for (column_type, name) in [
        (ColumnType::Counter, "Counter"),
        (ColumnType::Timestamp, "Timestamp"),
        (ColumnType::Time, "Time"),
    ] {
        let r = typed(column_type, Cell::BigInt(1));
        assert_eq!(read_column::<i64>(&r, "c"), Ok(1));
        assert_eq!(read_column::<String>(&r, "c"), into_text(name));
    }
    let t = typed(ColumnType::Timeuuid, Cell::Uuid(vec![1u8; 16]));
    assert_eq!(read_column::<Vec<u8>>(&t, "c"), Ok(vec![1u8; 16]));
    assert_eq!(read_column::<String>(&t, "c"), into_text("Timeuuid"));
    let a = typed(ColumnType::Ascii, Cell::Text("x".to_owned()));
    assert_eq!(read_column::<String>(&a, "c"), Ok("x".to_owned()));
    assert_eq!(
        read_column::<bool>(&a, "c"),
        Err(mismatch("Ascii into bool (valid types: Boolean, Custom)."))
    );
    let other = typed(ColumnType::Other("Decimal".to_owned()), Cell::Null);
    assert_eq!(read_column::<String>(&other, "c"), into_text("Decimal"));
    assert_eq!(read_column::<String>(&typed(ColumnType::Date, Cell::Null), "c"), into_text("Date"));
    assert!(read_column::<i32>(&typed(ColumnType::Date, Cell::Int(4)), "c").is_ok());
    let custom = || ColumnType::Custom("X".to_owned());
    assert_eq!(
        read_column::<i32>(&typed(custom(), Cell::Text("y".to_owned())), "c"),
        Err(mismatch(
            "marshaled type X into i32 (valid types: org.apache.cassandra.db.marshal.Int32Type)."
        ))
    );
    assert_eq!(
        read_column::<String>(&typed(custom(), Cell::Null), "c"),
        Err("General error: Column or Udt property 'c' is empty".to_owned())
    );
    assert!(applied_column(&r).is_err());
    assert!(lwt_applied(&applied(true)));
    assert!(!lwt_applied(&applied(false)));
    assert_eq!(first_row(vec![]), None);
    assert_eq!(first_row(applied(true)), applied(true).pop());
}

#[test]
fn rows_are_mapped_until_one_fails() {
    let half = |n: &i64| if n % 2 == 0 { Ok(n / 2) } else { Err(*n) };
    assert_eq!(map_rows(vec![2, 4], half), Ok(vec![1, 2]));
    assert_eq!(map_rows(vec![2, 3, 5], half), Err(3));
}

#[test]
fn timestamps_have_bounds() {
    // Years -9999 to 9999.
    let low: i64 = -377_705_116_800;
    let high: i64 = 253_402_300_799;
    let convert = timestamp_to_datetime::<StorageError>;
    assert_eq!(convert(high * 1000 + 999), Ok(high));
    assert!(convert((high + 1) * 1000).is_err());
    assert_eq!(convert(low * 1000), Ok(low));
    assert_eq!(convert(low * 1000 - 999), Ok(low));
    assert!(convert((low - 1) * 1000).is_err());
    assert_eq!(convert(-1999), Ok(-1));
    assert_eq!(trunc_div(-1999, 1000), -1);
    assert_eq!(trunc_div(1999, 1000), 1);
    let r = row(vec![("at", Cell::BigInt(5_000))]);
    assert_eq!(get_timestamp::<StorageError>(&r, "at"), Ok(5));
    assert!(get_timestamp::<StorageError>(&r, "no").is_err());
    // Later than 2020, earlier than 2100.
    assert!((1_577_836_800_000..4_102_444_800_000).contains(&now_millis()));
    assert_eq!(millis_i64(7), 7);
    assert_eq!(millis_since(Some(7)), 7);
    assert_eq!(millis_since(None), 0);
    assert_eq!(millis_at(Some(1_700_000_000_123)), 1_700_000_000_123);
    assert_eq!(millis_at(None), 0);
}

#[test]
fn failures_carry_their_context() {
    assert_eq!(query_failed::<StorageError>("ctx", "down"), internal("ctx: down"));
    assert_eq!(
        response_unreadable::<OpError>("ctx", "bad"),
        OpError::Internal("ctx response_body: bad".to_owned())
    );
    assert_eq!(statement_failed::<StorageError>(), internal("Database error"));
}

#[test]
fn values_and_columns() {
    assert_eq!(sk_column(ScalarAttributeType::S), "sk_s");
    assert_eq!(sk_column(ScalarAttributeType::B), "sk_b");
    assert_eq!(sk_column_n(0, ScalarAttributeType::N), "sk_n");
    assert_eq!(sk_column_n(2, ScalarAttributeType::N), "sk3_n");
    let n = Decimal::new("15".to_owned(), 1).unwrap();
    assert_eq!(
        decimal_to_value(&n),
        CqlValue::Decimal { unscaled: "15".to_owned(), scale: 1 }
    );
    assert_eq!(
        uuid_text(&vec![0, 1, 2, 3, 4, 5, 6, 7, 8, 9, 10, 11, 12, 13, 14, 255]),
        "00010203-0405-0607-0809-0a0b0c0d0eff"
    );
    let id = new_identifier();
    assert_eq!(id.len(), 36);
    assert_eq!(uuid::Uuid::parse_str(&id).unwrap().get_version_num(), 4);
    assert_ne!(id, new_identifier());
}

#[test]
fn streams_start_with_their_shards() {
    let s = init_stream_shards("cat", "lab", "acct", "tab", "ks", "t", "000", 7);
    let lines: Vec<&str> = s.cql.split('\n').collect();
    assert_eq!(lines.len(), 7);
    assert_eq!(lines[0], "BEGIN BATCH");
    assert_eq!(
        lines[1],
        "UPDATE cat.tables SET stream_label = 'lab' WHERE account_id = 'acct' \
         AND table_name = 'tab';"
    );
    assert_eq!(
        lines[5],
        "INSERT INTO ks.stream_shards (shard_id, table_id, starting_sequence_number, created_at) \
         VALUES ('shardId-t-000000000003', 't', '000', 7)"
    );
    assert_eq!(lines[6], "APPLY BATCH");
    assert!(s.values.is_empty());
}

fn new_table() -> NewTable {
    NewTable {
        account_id: "acct".to_owned(),
        table_name: "tab".to_owned(),
        table_id: "t".to_owned(),
        table_arn: "arn".to_owned(),
        key_schema_json: "[]".to_owned(),
        attribute_definitions_json: "[]".to_owned(),
        billing_mode: BillingMode::PayPerRequest,
        provisioned_throughput_json: None,
        stream_specification_json: None,
        status: TableStatus::Creating,
        created_at: 9,
        deletion_protection: true,
        status_transition_at: Some(20),
    }
}

#[test]
fn tables_claim_their_name() {
    let s = insert_table("cat", &new_table());
    assert!(s.cql.ends_with(" IF NOT EXISTS"));
    assert_eq!(s.values.len(), 13);
    assert_eq!(s.values[6], text("PAY_PER_REQUEST"));
    assert_eq!(s.values[7], CqlValue::NotSet);
    assert_eq!(s.values[12], CqlValue::BigInt(20));
    assert_eq!(table_inserted(&applied(true), "tab"), Ok(()));
    assert_eq!(
        table_inserted(&applied(false), "tab"),
        Err(StorageError::TableAlreadyExists("tab".to_owned()))
    );
    match table_inserted(&vec![row(vec![])], "tab") {
        Err(StorageError::Internal(m)) => assert!(m.starts_with("Failed to parse [applied]: ")),
        other => panic!("{other:?}"),
    }
    assert_eq!(
        require_account_keyspace(false, "ks"),
        Err(internal("Account keyspace 'ks' does not exist. Account must be provisioned first."))
    );
    assert_eq!(require_account_keyspace(true, "ks"), Ok(()));
}

#[test]
fn restore_targets_wait_for_their_restore() {
    assert_eq!(initial_status(false, Some(5)), (TableStatus::Creating, None));
    assert_eq!(initial_status(true, None), (TableStatus::Active, None));
    assert_eq!(initial_status(true, Some(5)), (TableStatus::Creating, Some(5)));
    assert!(wakes_poller(true, Some(5)));
    assert!(!wakes_poller(true, None));
    assert!(!wakes_poller(false, Some(5)));
    assert_eq!(status_text(TableStatus::Creating), "CREATING");
    assert_eq!(billing_text(BillingMode::Provisioned), "PROVISIONED");
}

fn new_index(id: &str) -> NewIndex {
    NewIndex {
        index_id: id.to_owned(),
        index_name: "n".to_owned(),
        key_schema: vec![hash("g")],
        key_schema_json: "[]".to_owned(),
        projection_json: "{}".to_owned(),
        throughput_json: Some("{}".to_owned()),
    }
}

#[test]
fn tables_are_set_up_in_order() {
    let batch = Statement { cql: "BATCH".to_owned(), values: vec![] };
    let steps = create_table_impl_inner(TableSetup {
        catalog: "cat".to_owned(),
        account_keyspace: "ks".to_owned(),
        table_id: "t".to_owned(),
        table_arn: "arn".to_owned(),
        key_schema: vec![hash("pk")],
        attribute_definitions: vec![AttributeDefinition {
            attribute_name: "pk".to_owned(),
            attribute_type: ScalarAttributeType::S,
        }],
        gsis: vec![new_index("g1")],
        lsis: vec![new_index("l1")],
        tags: vec![Tag { key: "k".to_owned(), value: "v".to_owned() }],
        stream_batch: Some(batch),
    });
    let kinds: Vec<SetupKind> = steps.iter().map(|s| s.kind).collect();
    assert_eq!(
        kinds,
        vec![
            SetupKind::GsiRow,
            SetupKind::LsiRow,
            SetupKind::TagRow,
            SetupKind::StreamShards,
            SetupKind::DataTable,
            SetupKind::IndexTable,
            SetupKind::IndexTable,
        ]
    );
    assert!(steps[0].statement.cql.contains("'GSI'"));
    assert_eq!(steps[0].statement.values[5], text("{}"));
    assert_eq!(steps[1].statement.values[5], CqlValue::NotSet);
    assert_eq!(steps[2].statement.values, vec![text("arn"), text("k"), text("v")]);
    assert!(steps[4].statement.cql.contains("ks.items_t"));
    assert!(steps[6].statement.cql.contains("ks.index_l1"));
    assert_eq!(
        setup_error(SetupKind::TagRow, "x"),
        internal("Failed to insert tag: x")
    );
    assert_eq!(
        setup_error(SetupKind::IndexTable, "x"),
        internal("Failed to create index table: x")
    );
}

#[test]
fn new_tables_are_described_as_empty() {
    let units = ProvisionedThroughput { read_capacity_units: 1, write_capacity_units: 2 };
    let none = ProvisionedThroughput { read_capacity_units: 0, write_capacity_units: 0 };
    assert_eq!(reported_throughput(Some(units)), units);
    assert_eq!(reported_throughput(None), none);
    let projection =
        || Projection { projection_type: ProjectionType::All, non_key_attributes: None };
    let g = describe_gsi(GsiInput {
        index_name: "g".to_owned(),
        key_schema: vec![hash("g")],
        projection: projection(),
        throughput: Some(units),
        index_arn: "ga".to_owned(),
    });
    assert_eq!(g.index_status, "ACTIVE");
    assert_eq!((g.item_count, g.index_size_bytes, g.throughput), (0, 0, units));
    let l = describe_lsi(LsiInput {
        index_name: "l".to_owned(),
        key_schema: vec![hash("l")],
        projection: projection(),
        index_arn: "la".to_owned(),
    });
    assert_eq!((l.item_count, l.index_arn), (0, "la".to_owned()));
    let s = summarize_table(&new_table(), None);
    assert_eq!(s.throughput, none);
    assert_eq!(s.pay_per_request_since_millis, Some(9));
    assert!(s.deletion_protection_enabled);
    let mut provisioned = new_table();
    provisioned.billing_mode = BillingMode::Provisioned;
    assert_eq!(summarize_table(&provisioned, None).pay_per_request_since_millis, None);
}

#[test]
fn protected_tables_stay() {
    assert_eq!(
        check_deletion(&vec![], "tab"),
        Err(StorageError::TableNotFound("tab".to_owned()))
    );
    let open = row(vec![("table_id", Cell::Text("t".to_owned()))]);
    assert_eq!(check_deletion(&vec![open], "tab"), Ok("t".to_owned()));
    let protected = row(vec![
        ("table_arn", Cell::Text("arn".to_owned())),
        ("deletion_protection_enabled", Cell::Boolean(true)),
    ]);
    assert_eq!(
        check_deletion(&vec![protected], "tab"),
        Err(StorageError::DeletionProtected("arn".to_owned()))
    );
    match check_deletion(&vec![row(vec![])], "tab") {
        Err(StorageError::Internal(m)) => assert!(m.starts_with("Parse table_id: ")),
        other => panic!("{other:?}"),
    }
    assert_eq!(select_table_row("cat", "acct", "tab").values, vec![text("acct"), text("tab")]);
    assert_eq!(select_index_rows("cat", "t").values, vec![text("t")]);
}

#[test]
fn deleted_tables_leave_the_catalog_last() {
    let rows = vec![row(vec![("index_id", Cell::Text("i-1".to_owned()))])];
    let plan = delete_table_impl("cat", "ks", "acct", "tab", "t-1", &rows);
    let texts: Vec<&str> = plan.statements.iter().map(|s| s.cql.as_str()).collect();
    assert_eq!(
        texts,
        vec![
            "DROP TABLE IF EXISTS ks.items_t_1",
            "DROP TABLE IF EXISTS ks.index_i_1",
            "DELETE FROM cat.indexes WHERE table_id = ?",
            "DELETE FROM cat.continuous_backups WHERE account_id = ? AND table_name = ?",
            "DELETE FROM cat.tables WHERE account_id = ? AND table_name = ?",
        ]
    );
    assert_eq!(plan.failure, None);
    let kinds: Vec<DeletionKind> =
        (0..plan.statements.len()).map(|i| deletion_kind(&plan, i)).collect();
    assert_eq!(
        kinds,
        vec![
            DeletionKind::DataTable,
            DeletionKind::IndexTable,
            DeletionKind::Indexes,
            DeletionKind::ContinuousBackups,
            DeletionKind::Table,
        ]
    );
    for (kind, context) in kinds.into_iter().zip([
        "Failed to drop data table",
        "Drop index table",
        "Delete indexes",
        "Delete continuous backup state",
        "Delete table",
    ]) {
        assert_eq!(deletion_error(kind, "e"), internal(&format!("{context}: e")));
    }
    let half = vec![row(vec![("index_id", Cell::Text("i".to_owned()))]), row(vec![])];
    let half = delete_table_impl("cat", "ks", "acct", "tab", "t-1", &half);
    assert_eq!(half.statements.len(), 2);
    assert_eq!(deletion_kind(&half, 1), DeletionKind::IndexTable);
    let broken = delete_table_impl("cat", "ks", "acct", "tab", "t-1", &vec![row(vec![])]);
    assert_eq!(broken.statements.len(), 1);
    assert!(matches!(broken.failure, Some(StorageError::Internal(_))));
}
