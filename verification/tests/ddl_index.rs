use storage_cassandra::cassandra_util::{Cell, Column, ColumnType, Row};
use storage_cassandra::cql::{CqlValue, Statement};
use storage_cassandra::data::ddl::{
    all_sort_key_info, create_data_table, data_table_name, drop_data_table, fetch_table_key_info,
    index_table_name, select_table, sk_info, TableRow,
};
use storage_cassandra::data::effects::{side_effects, ChangedRow};
use storage_cassandra::data::index::{
    delete_index_by_name, delete_index_row_multi, delete_indexes_for_table, effective_delay,
    fetch_index_by_name, fetch_indexes_for_table, insert_index_row_multi, insert_pending,
    item_has_index_keys, plan_deferred, plan_sync, project_item_for_index, ready_at,
    sort_key_attributes, sync_indexes, worker_partition, IndexMeta, IndexRow, IndexRowKey,
    IndexWrite, KeyColumn, SyncStep,
};
use storage_cassandra::engine::CassandraEngine;
use storage_cassandra::error::StorageError;
use storage_cassandra::gsi_queue::partition_for;
use storage_cassandra::model::{
    AttributeDefinition, AttributeValue, IndexType, Item, KeySchemaElement, KeyType, Projection,
    ProjectionType, ScalarAttributeType, SortKeyValue,
};

fn hash(name: &str) -> KeySchemaElement {
    KeySchemaElement { attribute_name: name.to_owned(), key_type: KeyType::Hash }
}

fn range(name: &str) -> KeySchemaElement {
    KeySchemaElement { attribute_name: name.to_owned(), key_type: KeyType::Range }
}

fn def(name: &str, t: ScalarAttributeType) -> AttributeDefinition {
    AttributeDefinition { attribute_name: name.to_owned(), attribute_type: t }
}

fn text(s: &str) -> CqlValue {
    CqlValue::Text(s.to_owned())
}

fn all() -> Projection {
    Projection { projection_type: ProjectionType::All, non_key_attributes: None }
}

fn index(name: &str, kind: &str, key: &str, delay: Option<i32>) -> IndexMeta {
    IndexMeta {
        index_name: name.to_owned(),
        index_id: format!("{name}-id"),
        index_type: kind.to_owned(),
        key_schema: vec![hash(key)],
        projection: all(),
        propagation_delay_ms: delay,
    }
}

fn item(pairs: &[(&str, &str)]) -> Item {
    let mut out = Item::new();
    for (k, v) in pairs {
        out.insert((*k).to_owned(), AttributeValue::S((*v).to_owned()));
    }
    out
}

fn column(name: &str, cell: Cell) -> Column {
    let column_type = match &cell {
        Cell::BigInt(_) => ColumnType::Bigint,
        Cell::Int(_) => ColumnType::Int,
        Cell::Boolean(_) => ColumnType::Boolean,
        Cell::Uuid(_) => ColumnType::Uuid,
        Cell::Blob(_) => ColumnType::Blob,
        _ => ColumnType::Varchar,
    };
    Column { name: name.to_owned(), column_type, cell }
}

fn row(cells: Vec<(&str, Cell)>) -> Row {
    Row { columns: cells.into_iter().map(|(n, c)| column(n, c)).collect() }
}

#[test]
fn test_data_table_name() {
    assert_eq!(data_table_name("abc123"), "items_abc123");
    // Test UUID normalization (hyphens replaced with underscores)
    assert_eq!(
        data_table_name("914da501-3f2e-4b1c-a5d6-1234567890ab"),
        "items_914da501_3f2e_4b1c_a5d6_1234567890ab"
    );
}

#[test]
fn test_index_table_name() {
    assert_eq!(index_table_name("idx456"), "index_idx456");
    // Test UUID normalization (hyphens replaced with underscores)
    assert_eq!(
        index_table_name("a1b2c3d4-e5f6-7890-abcd-ef1234567890"),
        "index_a1b2c3d4_e5f6_7890_abcd_ef1234567890"
    );
}

#[test]
fn test_all_sort_key_info_no_range() {
    let key_schema = vec![hash("pk")];
    let attr_defs = vec![def("pk", ScalarAttributeType::S)];

    let result = all_sort_key_info(&key_schema, &attr_defs);
    assert!(result.is_empty());
}

#[test]
fn test_all_sort_key_info_single_range() {
    let key_schema = vec![hash("pk"), range("sk")];
    let attr_defs = vec![def("pk", ScalarAttributeType::S), def("sk", ScalarAttributeType::N)];

    let result = all_sort_key_info(&key_schema, &attr_defs);
    assert_eq!(result.len(), 1);
    assert_eq!(result[0].0, "sk");
    assert_eq!(result[0].1, ScalarAttributeType::N);
}

#[test]
fn test_all_sort_key_info_multi_range() {
    let key_schema = vec![hash("pk"), range("sk1"), range("sk2")];
    let attr_defs = vec![
        def("pk", ScalarAttributeType::S),
        def("sk1", ScalarAttributeType::S),
        def("sk2", ScalarAttributeType::B),
    ];

    let result = all_sort_key_info(&key_schema, &attr_defs);
    assert_eq!(result.len(), 2);
    assert_eq!(result[0].0, "sk1");
    assert_eq!(result[0].1, ScalarAttributeType::S);
    assert_eq!(result[1].0, "sk2");
    assert_eq!(result[1].1, ScalarAttributeType::B);
}

#[test]
fn test_project_item_keys_only() {
    let mut item = Item::new();
    item.insert("pk".to_owned(), AttributeValue::S("test".to_owned()));
    item.insert("sk".to_owned(), AttributeValue::N("123".to_owned()));
    item.insert("data".to_owned(), AttributeValue::S("value".to_owned()));

    let base_ks = vec![hash("pk"), range("sk")];
    let index_ks = vec![hash("gsi_pk")];
    let projection =
        Projection { projection_type: ProjectionType::KeysOnly, non_key_attributes: None };

    item.insert("gsi_pk".to_owned(), AttributeValue::S("gsi_value".to_owned()));

    let projected = project_item_for_index(&item, &index_ks, &base_ks, &projection);

    assert_eq!(projected.len(), 3);
    assert!(projected.contains_key("pk"));
    assert!(projected.contains_key("sk"));
    assert!(projected.contains_key("gsi_pk"));
    assert!(!projected.contains_key("data"));
}

#[test]
fn test_item_has_index_keys() {
    let mut item = Item::new();
    item.insert("pk".to_owned(), AttributeValue::S("test".to_owned()));
    item.insert("gsi_pk".to_owned(), AttributeValue::S("value".to_owned()));

    assert!(item_has_index_keys(&item, &vec![hash("gsi_pk")]));
    assert!(!item_has_index_keys(&item, &vec![hash("missing")]));
}

#[test]
fn test_effective_delay() {
    let idx = IndexMeta {
        index_name: "test".to_owned(),
        index_id: "id".to_owned(),
        index_type: "GSI".to_owned(),
        key_schema: vec![],
        projection: Projection { projection_type: ProjectionType::All, non_key_attributes: None },
        propagation_delay_ms: Some(0),
    };

    assert_eq!(effective_delay(&idx, 1000), 0);

    let idx_with_delay = IndexMeta { propagation_delay_ms: Some(500), ..idx.clone() };
    assert_eq!(effective_delay(&idx_with_delay, 1000), 500);

    let idx_default = IndexMeta { propagation_delay_ms: None, ..idx };
    assert_eq!(effective_delay(&idx_default, 1000), 1000);
}

#[test]
fn projections_keep_what_they_name() {
    let it = item(&[("pk", "1"), ("g", "2"), ("a", "3"), ("b", "4")]);
    let everything = project_item_for_index(&it, &[hash("g")], &[hash("pk")], &all());
    assert!(everything.same(&it));
    let some = Projection {
        projection_type: ProjectionType::Include,
        non_key_attributes: Some(vec!["a".to_owned(), "absent".to_owned()]),
    };
    let projected = project_item_for_index(&it, &[hash("g")], &[hash("pk")], &some);
    assert!(projected.same(&item(&[("pk", "1"), ("g", "2"), ("a", "3")])));
}

#[test]
fn create_statements_list_every_sort_key() {
    let defs = vec![
        def("pk", ScalarAttributeType::S),
        def("a", ScalarAttributeType::N),
        def("b", ScalarAttributeType::B),
    ];
    let plain = create_data_table("ks", "t-1", &[hash("pk")], &defs);
    assert!(plain.cql.contains("CREATE TABLE"));
    assert!(plain.cql.contains("ks.items_t_1"));
    assert!(plain.values.is_empty());
    let ranged = create_data_table("ks", "t-1", &[hash("pk"), range("a")], &defs);
    assert!(ranged.cql.contains("sk_n decimal"));
    let two = CassandraEngine::create_index_data_table(
        "ks",
        "i-1",
        &[hash("g"), range("a"), range("b")],
        &defs,
        &[hash("pk")],
        &defs,
    );
    assert!(two.cql.contains("ks.index_i_1"));
    assert!(two.cql.contains("base_pk text"));
    assert_eq!(
        drop_data_table("ks", "t-1").cql,
        "DROP TABLE IF EXISTS ks.items_t_1"
    );
    assert_eq!(
        CassandraEngine::drop_index_data_table("ks", "i-1").cql,
        "DROP TABLE IF EXISTS ks.index_i_1"
    );
}

fn table_row(status: &str) -> TableRow {
    TableRow {
        key_schema: Ok(Ok(vec![hash("pk"), range("sk")])),
        attribute_definitions: Ok(Ok(vec![
            def("pk", ScalarAttributeType::S),
            def("sk", ScalarAttributeType::N),
        ])),
        table_status: Ok(status.to_owned()),
        table_id: Ok("t1".to_owned()),
        stream_specification: None,
    }
}

#[test]
fn key_info_splits_the_indexes() {
    let indexes = vec![index("g", "GSI", "x", None), index("l", "LSI", "pk", None)];
    let info = fetch_table_key_info("acct", "tab", Some(table_row("ACTIVE")), indexes).unwrap();
    assert_eq!(info.table_id, "t1");
    assert_eq!(info.base_key_schema, info.key_schema);
    assert!(info.has_lsi);
    assert_eq!(info.global_secondary_indexes.len(), 1);
    assert_eq!(info.global_secondary_indexes[0].index_type, IndexType::Gsi);
    assert_eq!(info.local_secondary_indexes[0].index_name, "l");
    assert_eq!(
        sk_info(&info.key_schema, &info.attribute_definitions),
        Some(("sk".to_owned(), ScalarAttributeType::N))
    );
}

#[test]
fn key_info_errors() {
    let missing = fetch_table_key_info("acct", "tab", None, vec![]);
    assert_eq!(missing, Err(StorageError::TableNotFound("tab".to_owned())));
    let inactive = fetch_table_key_info("acct", "tab", Some(table_row("CREATING")), vec![]);
    assert_eq!(inactive, Err(StorageError::TableNotActive("tab".to_owned())));
    let mut unreadable = table_row("ACTIVE");
    unreadable.key_schema = Ok(Err("bad".to_owned()));
    assert!(matches!(
        fetch_table_key_info("acct", "tab", Some(unreadable), vec![]),
        Err(StorageError::Internal(_))
    ));
}

#[test]
fn table_lookup_binds_account_and_name() {
    let s = select_table("cat", "acct", "tab");
    assert!(s.cql.contains("cat.tables"));
    assert_eq!(s.values, vec![text("acct"), text("tab")]);
}

fn index_row(kind: &str, delay: Cell) -> IndexRow {
    IndexRow {
        row: row(vec![
            ("index_name", Cell::Text("g".to_owned())),
            ("index_id", Cell::Text("g-id".to_owned())),
            ("index_type", Cell::Text(kind.to_owned())),
            ("key_schema", Cell::Text("[]".to_owned())),
            ("projection", Cell::Text("{}".to_owned())),
            ("propagation_delay_ms", delay),
        ]),
        key_schema: Some(vec![hash("x")]),
        projection: Some(all()),
    }
}

#[test]
fn index_rows_are_read() {
    let metas = fetch_indexes_for_table(vec![index_row("GSI", Cell::Int(7))]).unwrap();
    assert_eq!(metas, vec![index("g", "GSI", "x", Some(7))]);
    let one = fetch_index_by_name("g", Some(index_row("GSI", Cell::Null))).unwrap();
    assert_eq!(one, index("g", "GSI", "x", None));
    assert_eq!(
        fetch_index_by_name("g", None),
        Err(StorageError::IndexNotFound("Index g not found".to_owned()))
    );
    let mut broken = index_row("GSI", Cell::Null);
    broken.key_schema = None;
    assert!(matches!(
        fetch_indexes_for_table(vec![broken]),
        Err(StorageError::Internal(_))
    ));
}

#[test]
fn local_indexes_are_written_at_once() {
    let indexes = vec![
        index("l", "LSI", "x", Some(500)),
        index("g", "GSI", "x", None),
        index("now", "GSI", "x", Some(0)),
    ];
    let old = item(&[("x", "1")]);
    let new = item(&[("x", "2")]);
    assert_eq!(
        plan_sync(&indexes, Some(&old), Some(&new), 1000),
        vec![
            SyncStep::DeleteOld(0),
            SyncStep::InsertNew(0),
            SyncStep::DeleteOld(2),
            SyncStep::InsertNew(2),
        ]
    );
    assert_eq!(plan_deferred(&indexes, 1000), vec![(1, 1000)]);
    let without = item(&[("y", "2")]);
    assert_eq!(
        plan_sync(&indexes, Some(&old), Some(&without), 1000),
        vec![SyncStep::DeleteOld(0), SyncStep::DeleteOld(2)]
    );
}

fn row_key() -> IndexRowKey {
    IndexRowKey {
        index_pk: "ip".to_owned(),
        base_pk: "bp".to_owned(),
        index_sks: vec![KeyColumn {
            sk_type: ScalarAttributeType::S,
            value: Some(SortKeyValue::S("is".to_owned())),
        }],
        base_sks: vec![],
    }
}

#[test]
fn index_row_statements() {
    let delete = delete_index_row_multi("ks", "index_i", &row_key());
    assert!(delete.cql.starts_with("DELETE FROM ks.index_i WHERE pk = ?"));
    assert_eq!(delete.values.len(), delete.cql.matches('?').count());
    let insert = insert_index_row_multi("ks", "index_i", &row_key(), "{}");
    assert!(insert.cql.starts_with("INSERT INTO ks.index_i ("));
    assert_eq!(insert.values.len(), insert.cql.matches('?').count());
    assert!(insert.values.contains(&text("{}")));
    let mut batch: Vec<Statement> = Vec::new();
    let indexes = vec![index("i", "LSI", "x", None)];
    let writes = vec![
        IndexWrite { step: SyncStep::DeleteOld(0), key: row_key(), item_json: String::new() },
        IndexWrite { step: SyncStep::InsertNew(0), key: row_key(), item_json: "{}".to_owned() },
    ];
    sync_indexes(&mut batch, "ks", &indexes, &writes);
    assert_eq!(batch.len(), 2);
    assert!(batch[0].cql.starts_with("DELETE FROM ks.index_i_id "));
    assert!(batch[1].cql.starts_with("INSERT INTO ks.index_i_id "));
}

#[test]
fn sort_key_attributes_keep_their_order() {
    let it = item(&[("b", "2")]);
    let keys = vec![("a", ScalarAttributeType::S), ("b", ScalarAttributeType::S)];
    assert_eq!(
        sort_key_attributes(&it, &keys),
        vec![
            (ScalarAttributeType::S, None),
            (ScalarAttributeType::S, Some(AttributeValue::S("2".to_owned()))),
        ]
    );
}

#[test]
fn pending_work_goes_to_the_partition_of_its_key() {
    // The hash of "" is 0xcbf29ce484222325 and that of "a" is 0xaf63dc4c8601ec8c.
    assert_eq!(partition_for(""), 1);
    assert_eq!(partition_for("a"), 0);
    assert_eq!(worker_partition(Some("")), 1);
    assert_eq!(worker_partition(None), 0);
}

#[test]
fn pending_work_is_not_ready_before_what_is_queued() {
    assert_eq!(ready_at(1000, 50, None), 1050);
    let queued = row(vec![("last_ready_at", Cell::BigInt(5000))]);
    assert_eq!(ready_at(1000, 50, Some(queued)), 5001);
    let done = row(vec![("last_ready_at", Cell::BigInt(10))]);
    assert_eq!(ready_at(1000, 50, Some(done)), 1050);
}

#[test]
fn pending_work_binds_both_images() {
    let s = insert_pending("ks", 3, 99, "t", Some(&"o".to_owned()), None, "ctx");
    assert!(s.cql.contains("ks."));
    assert!(s.values.contains(&CqlValue::Int(3)));
    assert!(s.values.contains(&CqlValue::BigInt(99)));
    assert!(s.values.contains(&text("o")));
    assert!(s.values.contains(&text("ctx")));
}

#[test]
fn index_removal() {
    let rows = vec![row(vec![("index_id", Cell::Text("i-1".to_owned()))])];
    let (ids, drops) = delete_indexes_for_table("ks", &rows).unwrap();
    assert_eq!(ids, vec!["i-1"]);
    assert_eq!(drops.len(), 1);
    assert_eq!(drops[0].cql, "DROP TABLE IF EXISTS ks.index_i_1");
    let one = rows.into_iter().next();
    let (id, statements) = delete_index_by_name("cat", "ks", "t", "g", one).unwrap();
    assert_eq!(id, "i-1");
    assert!(!statements.is_empty());
    assert_eq!(
        delete_index_by_name("cat", "ks", "t", "g", None).err(),
        Some(StorageError::IndexNotFound("g".to_owned()))
    );
}

#[test]
fn every_index_change_takes_its_row() {
    let changed = |pk: &str, json: &str| ChangedRow {
        key: IndexRowKey {
            index_pk: pk.to_owned(),
            base_pk: "b".to_owned(),
            index_sks: vec![],
            base_sks: vec![],
        },
        item_json: json.to_owned(),
    };
    let indexes = || vec![index("a", "GSI", "x", Some(0)), index("l", "GSI", "y", Some(250))];
    let old = item(&[("pk", "1"), ("x", "2")]);
    let new = item(&[("pk", "1"), ("x", "3"), ("y", "4")]);
    let queued = || vec![Statement { cql: "q".to_owned(), values: vec![] }];
    let rows = || vec![changed("2", ""), changed("3", "{}")];
    let e = side_effects(indexes(), Some(&old), Some(&new), 0, rows(), queued(), None, None).unwrap();
    assert_eq!(
        e.index_writes,
        vec![
            IndexWrite {
                step: SyncStep::DeleteOld(0),
                key: changed("2", "").key,
                item_json: String::new(),
            },
            IndexWrite {
                step: SyncStep::InsertNew(0),
                key: changed("3", "").key,
                item_json: "{}".to_owned(),
            },
        ]
    );
    assert_eq!(e.indexes, indexes());
    assert_eq!(e.pending, queued());
    assert!(side_effects(indexes(), None, Some(&new), 0, rows(), queued(), None, None).is_none());
    assert!(side_effects(indexes(), Some(&old), Some(&new), 0, rows(), vec![], None, None).is_none());
}

#[test]
fn items_keep_the_order_of_their_names() {
    let mut it = item(&[("b", "1"), ("a", "2"), ("b", "3")]);
    it.insert("c".to_owned(), AttributeValue::S("4".to_owned()));
    let listed = |it: &Item| -> Vec<(String, AttributeValue)> {
        (0..it.len()).map(|i| it.entry(i).unwrap()).map(|(n, v)| (n.clone(), v.clone())).collect()
    };
    let pair = |n: &str, v: &str| (n.to_owned(), AttributeValue::S(v.to_owned()));
    assert_eq!(listed(&it), vec![pair("b", "3"), pair("a", "2"), pair("c", "4")]);
    assert_eq!(listed(&it.clone()), listed(&it));
    assert_eq!(it.entry(3), None);
}

#[test]
fn index_tables_are_named_apart() {
    assert_eq!(index_table_name("a-b"), "index_a_b");
    assert_ne!(index_table_name("a-b"), index_table_name("a-c"));
    assert_eq!(index_table_name("a-b"), index_table_name("a_b"));
}
