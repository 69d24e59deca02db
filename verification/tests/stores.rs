use aes_gcm::aead::{Aead, Payload};
use aes_gcm::{Aes256Gcm, KeyInit};
use base64::Engine;
use storage_cassandra::admin_store::{
    admin_created, admin_exists, change_admin_password, create_admin, delete_admin, list_admins,
    require_admin, select_admins, select_password_hash, stored_hash, verify_admin_password,
    verify_bcrypt,
};
use storage_cassandra::authorization_store::{
    add_group_policies, fetch_boundary, fetch_policies, fetch_session_data, fetch_tags,
    group_name, select_boundary, select_groups, select_policies, select_resource_tags,
    select_role_tags, select_session, select_user_tags, session_tags, Principal, TagsJson,
};
use storage_cassandra::cassandra_util::{Cell, Column, ColumnType, Row};
use storage_cassandra::catalog_store::{
    account_drop_error, account_storage_error, connection_test_error, count_ip_failures,
    count_principal_failures, get_setting, list_settings, read_count, CassandraCatalogStore,
    ConnectionTest,
};
use storage_cassandra::cql::CqlValue;
use storage_cassandra::credential_store::{
    decrypt_secret, lookup_credential, lookup_session_credential, lookup_user_credential,
    open_secret, read_session_key, read_user_key, select_session_credential,
    select_user_credential, try_decrypt_secret, CassandraCredentialStore, KeyKind,
};
use storage_cassandra::error::{DynamoDbError, OpError};
use storage_cassandra::sorting::{in_order, sort_by_name};

fn text(v: &str) -> CqlValue {
    CqlValue::Text(v.to_owned())
}

fn column(name: &str, cell: Cell) -> Column {
    let column_type = match &cell {
        Cell::BigInt(_) => ColumnType::Bigint,
        Cell::Int(_) => ColumnType::Int,
        Cell::Boolean(_) => ColumnType::Boolean,
        Cell::Uuid(_) => ColumnType::Uuid,
        Cell::Blob(_) => ColumnType::Blob,
        _ => ColumnType::Varchar,
    };
    Column { name: name.to_owned(), column_type, cell }
}

fn row(cells: Vec<(&str, Cell)>) -> Row {
    Row { columns: cells.into_iter().map(|(n, c)| column(n, c)).collect() }
}

fn texts(cells: Vec<(&str, &str)>) -> Row {
    row(cells.into_iter().map(|(n, v)| (n, Cell::Text(v.to_owned()))).collect())
}

fn fault() -> OpError {
    OpError::Internal("Database error".to_owned())
}

fn pair(a: &str, b: &str) -> (String, String) {
    (a.to_owned(), b.to_owned())
}

fn catalog() -> CassandraCatalogStore {
    CassandraCatalogStore::new("app".to_owned(), "dc".to_owned(), 2)
}

#[test]
fn names_are_sorted_by_their_bytes() {
    assert!(in_order("a", "b"));
    assert!(in_order("a", "a"));
    assert!(in_order("", "a"));
    assert!(in_order("Z", "a"));
    assert!(in_order("z", "é"));
    assert!(!in_order("b", "a"));
    let sorted = sort_by_name(vec![
        ("b".to_owned(), 1),
        ("a".to_owned(), 2),
        ("b".to_owned(), 3),
        ("A".to_owned(), 4),
    ]);
    assert_eq!(
        sorted,
        vec![
            ("A".to_owned(), 4),
            ("a".to_owned(), 2),
            ("b".to_owned(), 1),
            ("b".to_owned(), 3),
        ]
    );
}

#[test]
fn catalog_stores_know_their_keyspaces() {
    let c = catalog();
    assert_eq!(c.catalog_keyspace(), "app_catalog");
    assert_eq!(c.account_keyspace("1"), "app_account_1");
    assert_eq!(c.encryption_key(), None);
    let keyed = CassandraCatalogStore::with_encryption_key(
        "app".to_owned(),
        "dc".to_owned(),
        2,
        "k".to_owned(),
    );
    assert_eq!(keyed.encryption_key(), Some(&"k".to_owned()));
    assert_eq!(keyed.cached_encryption_key(), Some("k".to_owned()));
    let lookup = c.select_account_keyspace("1");
    assert_eq!(
        lookup.cql,
        "SELECT keyspace_name FROM system_schema.keyspaces WHERE keyspace_name = ?"
    );
    assert_eq!(lookup.values, vec![text("app_account_1")]);
    assert_eq!(c.ensure_account_keyspace("1", true), None);
    assert_eq!(
        c.ensure_account_keyspace("1", false).unwrap().cql,
        "CREATE KEYSPACE IF NOT EXISTS app_account_1 WITH replication = \
         {'class': 'NetworkTopologyStrategy', 'dc': 2}"
    );
    assert_eq!(c.drop_account_keyspace("1").cql, "DROP KEYSPACE IF EXISTS app_account_1");
    assert_eq!(c.account_exists("1").values, vec![text("1")]);
    assert_eq!(c.user_exists("1", "u").values, vec![text("1"), text("u")]);
    assert_eq!(c.select_setting("k").values, vec![text("k")]);
    assert_eq!(c.set_setting("k", "v").values, vec![text("k"), text("v")]);
    assert_eq!(c.select_settings().cql, "SELECT key, value FROM app_catalog.settings");
    assert_eq!(c.count_tables().cql, "SELECT COUNT(*) FROM app_catalog.tables");
    assert_eq!(c.count_indexes().cql, "SELECT COUNT(*) FROM app_catalog.indexes");
    assert_eq!(
        c.select_any_account().cql,
        "SELECT account_id FROM app_catalog.accounts LIMIT 1"
    );
    assert_eq!(
        account_storage_error(),
        OpError::Internal("Failed to initialize account storage".to_owned())
    );
    assert_eq!(
        account_drop_error(),
        OpError::Internal("Failed to drop account storage".to_owned())
    );
}

#[test]
fn connections_are_tested_on_an_account() {
    assert_eq!(
        catalog().test_data_database_connection(&vec![]),
        Ok(ConnectionTest::Nothing("No account keyspaces exist yet".to_owned()))
    );
    match catalog().test_data_database_connection(&vec![texts(vec![("account_id", "1")])]) {
        Ok(ConnectionTest::Query { keyspace, statement }) => {
            assert_eq!(keyspace, "app_account_1");
            assert_eq!(statement.cql, "SELECT COUNT(*) FROM app_account_1.schema_history");
        }
        other => panic!("{other:?}"),
    }
    assert!(catalog().test_data_database_connection(&vec![row(vec![])]).is_err());
    assert_eq!(
        connection_test_error("ks", "x"),
        "Failed to query account keyspace ks: x"
    );
}

#[test]
fn settings_are_listed_by_key() {
    assert_eq!(get_setting(None), Ok(None));
    assert_eq!(get_setting(Some(&texts(vec![("value", "v")]))), Ok(Some("v".to_owned())));
    assert_eq!(get_setting(Some(&row(vec![]))), Err(fault()));
    let rows = vec![
        texts(vec![("key", "b"), ("value", "1")]),
        texts(vec![("key", "a"), ("value", "2")]),
    ];
    assert_eq!(list_settings(&rows), Ok(vec![pair("a", "2"), pair("b", "1")]));
    assert_eq!(list_settings(&vec![texts(vec![("key", "b")])]), Err(fault()));
    assert_eq!(read_count(&vec![]), Ok(0));
    assert_eq!(read_count(&vec![row(vec![("count", Cell::BigInt(7))])]), Ok(7));
    assert!(read_count(&vec![row(vec![])]).is_err());
    assert_eq!(count_principal_failures("p", 60), Ok(0));
    assert_eq!(count_ip_failures("::1", 60), Ok(0));
}

#[test]
fn administrators_are_kept() {
    assert_eq!(admin_exists("ks", "a").values, vec![text("a")]);
    assert!(create_admin("ks", "a", "h").cql.ends_with(" IF NOT EXISTS"));
    assert_eq!(admin_created(&vec![]), Ok(()));
    let outcome = |b| vec![row(vec![("[applied]", Cell::Boolean(b))])];
    assert_eq!(admin_created(&outcome(true)), Ok(()));
    assert_eq!(
        admin_created(&outcome(false)),
        Err(OpError::AlreadyExists("Admin user already exists".to_owned()))
    );
    assert_eq!(admin_created(&vec![row(vec![])]), Err(fault()));
    let admin = |n: &str, at| {
        row(vec![
            ("admin_name", Cell::Text(n.to_owned())),
            ("created_at", Cell::BigInt(at)),
        ])
    };
    assert_eq!(
        list_admins(&vec![admin("b", 1500), admin("a", 2500)]),
        Ok(vec![("a".to_owned(), 2), ("b".to_owned(), 1)])
    );
    // A time that no date has.
    assert_eq!(list_admins(&vec![admin("b", i64::MAX)]), Err(fault()));
    assert_eq!(require_admin(true), Ok(()));
    assert_eq!(
        require_admin(false),
        Err(OpError::NotFound("Admin user not found".to_owned()))
    );
    assert_eq!(delete_admin("ks", "a").values, vec![text("a")]);
    assert_eq!(change_admin_password("ks", "a", "h").values, vec![text("h"), text("a")]);
    assert_eq!(select_password_hash("ks", "a").values, vec![text("a")]);
    assert!(select_admins("ks").values.is_empty());
}

#[test]
fn passwords_are_verified() {
    let hash = bcrypt::hash("secret", 4).unwrap();
    assert!(verify_bcrypt("secret", &hash));
    assert!(!verify_bcrypt("Secret", &hash));
    assert!(!verify_bcrypt("secret", "no hash"));
    assert!(!verify_bcrypt("", &hash));
    let stored = texts(vec![("password_hash", hash.as_str())]);
    assert_eq!(verify_admin_password(Some(&stored), "secret"), Ok(Some(true)));
    assert_eq!(verify_admin_password(Some(&stored), "other"), Ok(Some(false)));
    assert_eq!(verify_admin_password(None, "secret"), Ok(None));
    assert_eq!(verify_admin_password(Some(&row(vec![])), "secret"), Err(fault()));
    assert_eq!(stored_hash(None), Ok(None));
}

#[test]
fn policies_are_read() {
    let s = select_policies("ks", "1", Principal::Group, "g");
    assert!(s.cql.contains("principal_type = 'group'"));
    assert_eq!(s.values, vec![text("1"), text("g")]);
    assert!(select_boundary("ks", "1", Principal::Role, "r").cql.contains("'role'"));
    assert!(select_groups("ks", "1", "u").cql.ends_with(" ALLOW FILTERING"));
    assert_eq!(group_name(&texts(vec![("group_name", "g")])), Ok("g".to_owned()));
    assert_eq!(group_name(&row(vec![])), Err(fault()));
    let rows = vec![texts(vec![("policy_document", "1")]), texts(vec![("policy_document", "2")])];
    assert_eq!(fetch_policies(&rows), Ok(vec!["1".to_owned(), "2".to_owned()]));
    assert_eq!(fetch_policies(&vec![row(vec![])]), Err(fault()));
    assert_eq!(
        add_group_policies(vec!["0".to_owned()], &rows),
        Ok(vec!["0".to_owned(), "1".to_owned(), "2".to_owned()])
    );
    assert_eq!(fetch_boundary(&rows), Ok(Some("1".to_owned())));
    assert_eq!(fetch_boundary(&vec![]), Ok(None));
    assert_eq!(fetch_boundary(&vec![row(vec![])]), Err(fault()));
    let tags = vec![texts(vec![("tag_key", "k"), ("tag_value", "v")])];
    assert_eq!(fetch_tags(&tags), Ok(vec![pair("k", "v")]));
    assert_eq!(fetch_tags(&vec![row(vec![])]), Err(fault()));
    assert_eq!(select_user_tags("ks", "1", "u").values, vec![text("1"), text("u")]);
    assert_eq!(select_role_tags("ks", "1", "r").values, vec![text("1"), text("r")]);
    assert_eq!(select_resource_tags("ks", "arn").values, vec![text("arn")]);
    assert_eq!(select_session("ks", "1", "r", "s").values.len(), 3);
}

fn tags(json: &str) -> Vec<(String, String)> {
    fetch_session_data(&vec![texts(vec![("session_tags", json)])]).unwrap().session_tags
}

#[test]
fn session_tags_come_as_list_or_object() {
    assert_eq!(fetch_session_data(&vec![]), None);
    let d = fetch_session_data(&vec![texts(vec![("session_policy", "p")])]).unwrap();
    assert_eq!(d.session_policy, Some("p".to_owned()));
    assert!(d.session_tags.is_empty());
    assert_eq!(
        tags(r#"[{"Key":"a","Value":"1"},{"Key":"b"},7,{"Key":"c","Value":3},{"Value":"4","Key":"d"}]"#),
        vec![pair("a", "1"), pair("d", "4")]
    );
    assert_eq!(tags(r#"{"x":"1","y":2,"z":"3"}"#), vec![pair("x", "1"), pair("z", "3")]);
    assert!(tags("\"text\"").is_empty());
    assert!(tags("not json").is_empty());
    assert!(tags("").is_empty());
    assert!(session_tags(&None).is_empty());
    assert!(session_tags(&Some(TagsJson::Other)).is_empty());
}

const KEY: [u8; 32] = [7u8; 32];

fn key_text() -> String {
    base64::engine::general_purpose::STANDARD.encode(KEY)
}

fn sealed(plain: &[u8], aad: &[u8]) -> Vec<u8> {
    let nonce = [9u8; 12];
    let cipher = Aes256Gcm::new(aes_gcm::Key::<Aes256Gcm>::from_slice(&KEY));
    let mut out = nonce.to_vec();
    let payload = Payload { msg: plain, aad };
    out.extend(cipher.encrypt(aes_gcm::Nonce::from_slice(&nonce), payload).unwrap());
    out
}

#[test]
fn secrets_are_opened() {
    let s = sealed(b"top secret", b"AKIA1");
    assert_eq!(decrypt_secret(&s, &key_text(), "AKIA1"), Ok("top secret".to_owned()));
    assert_eq!(open_secret(&s, &KEY.to_vec(), "AKIA1"), Ok("top secret".to_owned()));
    // Older secrets were sealed without associated data.
    let old = sealed(b"old", b"");
    assert_eq!(decrypt_secret(&old, &key_text(), "AKIA1"), Ok("old".to_owned()));
    match decrypt_secret(&s, &key_text(), "AKIA2") {
        Err(m) => assert!(m.starts_with("decrypt failed both with AAD and without AAD: "), "{m}"),
        other => panic!("{other:?}"),
    }
    match decrypt_secret(&sealed(&[0xff], b"a"), &key_text(), "a") {
        Err(m) => assert!(m.starts_with("decrypted secret is not valid UTF-8: "), "{m}"),
        other => panic!("{other:?}"),
    }
    assert_eq!(
        decrypt_secret(&vec![0u8; 27], "*", "a"),
        Err("ciphertext too short: 27 bytes (need at least 12-byte nonce + 16-byte auth tag)"
            .to_owned())
    );
    match decrypt_secret(&s, "*", "a") {
        Err(m) => assert!(m.starts_with("decode encryption key: "), "{m}"),
        other => panic!("{other:?}"),
    }
    assert_eq!(try_decrypt_secret(&s, "AAAA", "AKIA1"), None);
    assert_eq!(
        try_decrypt_secret(&s, &key_text(), "AKIA1"),
        Some(Ok("top secret".to_owned()))
    );
    assert!(matches!(try_decrypt_secret(&vec![], "AAAA", "a"), Some(Err(_))));
}

#[test]
fn access_keys_are_told_apart() {
    assert_eq!(lookup_credential("AKIA123"), KeyKind::User);
    assert_eq!(lookup_credential("ASIA123"), KeyKind::Session);
    assert_eq!(lookup_credential("AKI"), KeyKind::Unknown);
    assert_eq!(select_user_credential("ks", "k").values, vec![text("k")]);
    assert!(select_session_credential("ks", "k").cql.ends_with(" ALLOW FILTERING"));
    let store = CassandraCredentialStore::new("app".to_owned(), "k".to_owned());
    assert_eq!(store.catalog_keyspace(), "app_catalog");
}

fn auth_fault() -> DynamoDbError {
    DynamoDbError::InternalServerError("Internal error during authentication".to_owned())
}

#[test]
fn user_credentials() {
    assert_eq!(read_user_key(&vec![]), Ok(None));
    assert_eq!(read_user_key(&vec![row(vec![])]), Err(auth_fault()));
    let rows = vec![row(vec![
        ("secret_key_encrypted", Cell::Blob(vec![1, 2])),
        ("account_id", Cell::Text("1".to_owned())),
        ("user_name", Cell::Text("u".to_owned())),
        ("is_active", Cell::Boolean(false)),
    ])];
    let key = read_user_key(&rows).unwrap().unwrap();
    assert_eq!(key.encrypted, vec![1, 2]);
    let c = lookup_user_credential(key, Ok("s".to_owned())).unwrap();
    assert_eq!(c.secret_key, "s");
    assert_eq!(c.principal_name, "u");
    assert!(!c.is_active && !c.is_session);
    let key = read_user_key(&rows).unwrap().unwrap();
    assert_eq!(lookup_user_credential(key, Err("x".to_owned())), Err(auth_fault()));
}

#[test]
fn session_credentials_expire() {
    let rows = vec![row(vec![
        ("secret_key_encrypted", Cell::Blob(vec![1, 2])),
        ("account_id", Cell::Text("1".to_owned())),
        ("role_name", Cell::Text("r".to_owned())),
        ("session_name", Cell::Text("s".to_owned())),
        ("session_token", Cell::Text("t".to_owned())),
        ("expires_at", Cell::BigInt(5_999)),
    ])];
    assert_eq!(read_session_key(&vec![], 0), Ok(None));
    assert_eq!(read_session_key(&vec![row(vec![])], 0), Err(auth_fault()));
    let key = read_session_key(&rows, 5_000_000_000).unwrap().unwrap();
    assert_eq!(key.expires_at, 5);
    assert_eq!(
        read_session_key(&rows, 5_000_000_001),
        Err(DynamoDbError::ExpiredTokenException(
            "The security token included in the request is expired".to_owned()
        ))
    );
    let c = lookup_session_credential(key, Ok("x".to_owned())).unwrap();
    assert_eq!(c.principal_name, "r");
    assert_eq!(c.session_token, Some("t".to_owned()));
    assert_eq!(c.expires_at, Some(5));
    assert!(c.is_session && c.is_active);
}

#[test]
fn credentials_are_opened_with_the_key_of_the_store() {
    let store = CassandraCredentialStore::new("app".to_owned(), key_text());
    let user = |secret: Vec<u8>| {
        vec![row(vec![
            ("secret_key_encrypted", Cell::Blob(secret)),
            ("account_id", Cell::Text("1".to_owned())),
            ("user_name", Cell::Text("u".to_owned())),
            ("is_active", Cell::Boolean(true)),
        ])]
    };
    assert_eq!(store.user_credential(&vec![], "AKIA1"), Some(Ok(None)));
    assert_eq!(store.user_credential(&vec![row(vec![])], "AKIA1"), Some(Err(auth_fault())));
    let rows = user(sealed(b"top secret", b"AKIA1"));
    let c = store.user_credential(&rows, "AKIA1").unwrap().unwrap().unwrap();
    assert_eq!((c.secret_key.as_str(), c.principal_name.as_str()), ("top secret", "u"));
    assert_eq!(store.user_credential(&rows, "AKIA2"), Some(Err(auth_fault())));
    assert_eq!(store.user_credential(&user(vec![1]), "AKIA1"), Some(Err(auth_fault())));
    let short = CassandraCredentialStore::new("app".to_owned(), "AAAA".to_owned());
    assert_eq!(short.user_credential(&rows, "AKIA1"), None);

    let session = vec![row(vec![
        ("secret_key_encrypted", Cell::Blob(sealed(b"inner", b"ASIA1"))),
        ("account_id", Cell::Text("1".to_owned())),
        ("role_name", Cell::Text("r".to_owned())),
        ("session_name", Cell::Text("s".to_owned())),
        ("session_token", Cell::Text("t".to_owned())),
        ("expires_at", Cell::BigInt(5_999)),
    ])];
    assert_eq!(store.session_credential(&vec![], "ASIA1", 0), Some(Ok(None)));
    let c = store.session_credential(&session, "ASIA1", 5_000_000_000).unwrap().unwrap().unwrap();
    assert_eq!((c.secret_key.as_str(), c.principal_name.as_str()), ("inner", "r"));
    assert_eq!(c.session_name, Some("s".to_owned()));
    assert_eq!(store.session_credential(&session, "ASIA2", 0), Some(Err(auth_fault())));
    assert_eq!(short.session_credential(&session, "ASIA1", 0), None);
    assert!(matches!(
        short.session_credential(&session, "ASIA1", 5_000_000_001),
        Some(Err(DynamoDbError::ExpiredTokenException(_)))
    ));
}
