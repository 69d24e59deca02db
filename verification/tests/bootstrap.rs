use storage_cassandra::bootstrapper::{
    admin_password, admin_username, bootstrap_admin_user, bootstrap_default_account,
    bootstrap_encryption_key, catalog_connection_url, check_app_password, check_catalog_absent,
    drop_databases, endpoint_info, ensure_app_user, expected_catalog_version,
    generate_backend_config_section, grant_app_role_to_admin, grant_error, host_and_port,
    insert_admin, list_table_names, migrated_account, read_catalog_version, select_accounts,
    select_admin, select_any_account, select_catalog_version, select_encryption_key,
    select_keyspaces, select_membership, select_role, select_table_names, CassandraBootstrapper,
    CliArgs, UserConflicts,
};
use storage_cassandra::cassandra_util::{Cell, Column, ColumnType, Row};
use storage_cassandra::config::CassandraStorageConfig;
use storage_cassandra::cql::CqlValue;
use storage_cassandra::error::{OpError, StorageError};

fn text(v: &str) -> CqlValue {
    CqlValue::Text(v.to_owned())
}

fn column(name: &str, cell: Cell) -> Column {
    let column_type = match &cell {
        Cell::BigInt(_) => ColumnType::Bigint,
        Cell::Int(_) => ColumnType::Int,
        Cell::Boolean(_) => ColumnType::Boolean,
        Cell::Uuid(_) => ColumnType::Uuid,
        Cell::Blob(_) => ColumnType::Blob,
        _ => ColumnType::Varchar,
    };
    Column { name: name.to_owned(), column_type, cell }
}

fn row(cells: Vec<(&str, Cell)>) -> Row {
    Row { columns: cells.into_iter().map(|(n, c)| column(n, c)).collect() }
}

fn no_args() -> CliArgs {
    CliArgs {
        contact_points: None,
        admin_user: None,
        admin_password: None,
        keyspace_prefix: None,
        replication_factor: None,
        app_user: None,
        app_password: None,
    }
}

fn no_conflicts() -> UserConflicts {
    UserConflicts { user: None, password: None }
}

fn file() -> Option<CassandraStorageConfig> {
    let mut c = CassandraStorageConfig::new(vec!["h1:9043".to_owned(), "h2:9042".to_owned()]);
    c.username = Some("app".to_owned());
    c.keyspace_prefix = "pre".to_owned();
    c.replication_factor = 5;
    Some(c)
}

fn boot(cli: &CliArgs, file: &Option<CassandraStorageConfig>) -> CassandraBootstrapper {
    CassandraBootstrapper::from_config(cli, file, no_conflicts(), &None).unwrap()
}

fn conflict(cli: &CliArgs) -> String {
    match CassandraBootstrapper::from_config(cli, &file(), no_conflicts(), &None) {
        Err(StorageError::Internal(m)) => m,
        other => panic!("{other:?}"),
    }
}

#[test]
fn defaults_of_a_development_setup() {
    let b = boot(&no_args(), &None);
    assert_eq!(b.storage.contact_points, vec!["localhost:9042"]);
    assert_eq!(b.storage.username, Some("cassandra".to_owned()));
    assert_eq!(b.storage.password, None);
    assert_eq!(b.storage.replication_factor, 1);
    assert_eq!(b.storage.connection_config(), "localhost:9042/extenddb");
    assert_eq!((b.config.host.as_str(), b.config.port), ("localhost", 9042));
    assert_eq!(b.config.app_user, "extenddb");
    assert_eq!(b.config.app_password, "extenddb-local-dev");
    assert_eq!(b.config.catalog_db, "extenddb_catalog");
    assert_eq!(b.config.data_db, "");
    assert_eq!(b.engine.region, "us-east-1");
}

#[test]
fn a_file_gives_the_defaults() {
    let b = boot(&no_args(), &file());
    assert_eq!((b.config.host.as_str(), b.config.port), ("h1", 9043));
    assert_eq!(b.config.app_user, "app");
    assert_eq!(b.config.app_password, "extenddb-local-dev");
    assert_eq!(b.config.catalog_db, "pre_catalog");
    assert_eq!(b.storage.replication_factor, 5);
    assert_eq!(b.engine.keyspace_prefix, "pre");
}

#[test]
fn arguments_win_without_a_file() {
    let mut cli = no_args();
    cli.contact_points = Some("a:1,b:2".to_owned());
    cli.admin_password = Some("pw".to_owned());
    cli.keyspace_prefix = Some("x".to_owned());
    cli.replication_factor = Some("2".to_owned());
    cli.app_user = Some("u".to_owned());
    let env = Some("env_admin".to_owned());
    let b = CassandraBootstrapper::from_config(&cli, &None, no_conflicts(), &env).unwrap();
    assert_eq!(b.storage.contact_points, vec!["a:1", "b:2"]);
    assert_eq!(b.storage.username, Some("env_admin".to_owned()));
    assert_eq!(b.storage.password, Some("pw".to_owned()));
    assert_eq!(b.storage.replication_factor, 2);
    assert_eq!(b.config.admin_user, "env_admin");
    assert_eq!(b.config.app_user, "u");
    cli.admin_user = Some("root".to_owned());
    cli.replication_factor = Some("many".to_owned());
    let b = CassandraBootstrapper::from_config(&cli, &None, no_conflicts(), &env).unwrap();
    assert_eq!(b.config.admin_user, "root");
    assert_eq!(b.storage.replication_factor, 1);
}

#[test]
fn arguments_must_agree_with_the_file() {
    let mut cli = no_args();
    cli.contact_points = Some("h1:9043,h2:9042".to_owned());
    cli.keyspace_prefix = Some("pre".to_owned());
    cli.replication_factor = Some("5".to_owned());
    assert_eq!(boot(&cli, &file()).storage.replication_factor, 5);
    cli.replication_factor = Some("6".to_owned());
    assert_eq!(
        conflict(&cli),
        "--replication-factor 6 conflicts with config file replication_factor 5"
    );
    cli.replication_factor = Some("-6".to_owned());
    assert_eq!(
        conflict(&cli),
        "Invalid --replication-factor '-6': must be a positive integer"
    );
    cli.keyspace_prefix = Some("other".to_owned());
    assert_eq!(
        conflict(&cli),
        "--keyspace-prefix 'other' conflicts with config file keyspace prefix 'pre'"
    );
    cli.contact_points = Some("h1:9043".to_owned());
    assert_eq!(
        conflict(&cli),
        "--cassandra-contact-points 'h1:9043' conflicts with config file contact points \
         'h1:9043,h2:9042'"
    );
    let users = UserConflicts {
        user: None,
        password: Some(StorageError::Internal("pw".to_owned())),
    };
    assert_eq!(
        CassandraBootstrapper::from_config(&no_args(), &file(), users, &None),
        Err(StorageError::Internal("pw".to_owned()))
    );
}

#[test]
fn hosts_and_ports() {
    let one = |s: &str| host_and_port(&vec![s.to_owned()]);
    assert_eq!(one("h:1"), ("h".to_owned(), 1));
    assert_eq!(one("h:65535"), ("h".to_owned(), 65535));
    for other in ["h", "h:65536", "h:x", "a:b:1", ""] {
        assert_eq!(one(other), ("localhost".to_owned(), 9042), "{other}");
    }
    assert_eq!(host_and_port(&vec![]), ("localhost".to_owned(), 9042));
}

#[test]
fn application_users() {
    assert_eq!(select_role("u").values, vec![text("u")]);
    assert_eq!(ensure_app_user(true, "u", "'"), Ok(None));
    assert_eq!(
        ensure_app_user(false, "u", "p-1 !").unwrap().unwrap().cql,
        "CREATE ROLE IF NOT EXISTS 'u' WITH PASSWORD = 'p-1 !' AND LOGIN = true"
    );
    for bad in ["'", "\"", "\\", ";", "é", "a\n"] {
        assert!(matches!(ensure_app_user(false, "u", bad), Err(OpError::Validation(_))), "{bad}");
    }
    assert_eq!(check_app_password("-_.,!@#$%^&*()+=~` azAZ09"), Ok(()));
    assert_eq!(check_app_password(""), Ok(()));
}

#[test]
fn roles_are_granted() {
    let b = boot(&no_args(), &None);
    assert_eq!(
        select_membership(&b.config).unwrap().values,
        vec![text("extenddb"), text("cassandra")]
    );
    assert_eq!(grant_app_role_to_admin(&b.config).cql, "GRANT 'extenddb' TO 'cassandra'");
    assert_eq!(
        grant_error(&b.config, "x"),
        OpError::Internal("Cannot grant extenddb to cassandra: x".to_owned())
    );
    let mut cli = no_args();
    cli.admin_user = Some("extenddb".to_owned());
    assert_eq!(select_membership(&boot(&cli, &None).config), None);
}

#[test]
fn the_catalog_is_filled_once() {
    assert_eq!(check_catalog_absent(false, "ks"), Ok(()));
    assert_eq!(
        check_catalog_absent(true, "ks"),
        Err(OpError::AlreadyExists(
            "Catalog keyspace 'ks' already exists. Run 'destroy' first, then re-run 'init'."
                .to_owned()
        ))
    );
    assert_eq!(bootstrap_encryption_key(true, "ks", "k"), None);
    assert_eq!(
        bootstrap_encryption_key(false, "ks", "k").unwrap().values,
        vec![text("encryption_key"), text("k")]
    );
    assert_eq!(bootstrap_default_account(true, "ks", "1"), None);
    assert_eq!(
        bootstrap_default_account(false, "ks", "1").unwrap().values,
        vec![text("1"), text("default")]
    );
    assert_eq!(select_accounts("ks").cql, "SELECT account_id FROM ks.accounts");
    assert_eq!(select_any_account("ks").cql, "SELECT account_id FROM ks.accounts LIMIT 1");
    assert!(select_encryption_key("ks").cql.ends_with("key = 'encryption_key'"));
    assert_eq!(
        migrated_account(&row(vec![("account_id", Cell::Text("1".to_owned()))])),
        Ok("1".to_owned())
    );
    assert!(migrated_account(&row(vec![])).is_err());
}

#[test]
fn administrators_come_from_the_environment_or_are_made() {
    assert_eq!(admin_username(None), "admin");
    assert_eq!(admin_username(Some("root")), "root");
    assert_eq!(admin_password(Some("e"), "g".to_owned()), "e");
    assert_eq!(admin_password(None, "g".to_owned()), "g");
    let made = bootstrap_admin_user(false, None, None, "g".to_owned());
    assert_eq!(made.generated_password, Some("g".to_owned()));
    assert!(!made.from_env && !made.already_existed);
    let given = bootstrap_admin_user(false, Some("r"), Some("e"), "e".to_owned());
    assert_eq!(given.generated_password, None);
    assert!(given.from_env);
    let half = bootstrap_admin_user(false, Some("r"), None, "g".to_owned());
    assert_eq!(half.generated_password, Some("g".to_owned()));
    let known = bootstrap_admin_user(true, None, None, "g".to_owned());
    assert_eq!(known.generated_password, None);
    assert!(known.already_existed);
    assert_eq!(select_admin("ks", "root").values, vec![text("root")]);
    assert_eq!(insert_admin("ks", "root", "h").values, vec![text("root"), text("h")]);
}

#[test]
fn every_keyspace_of_a_prefix_is_dropped() {
    let names = ["app_catalog", "app_account_1", "application", "other_catalog", "app_"];
    let mut rows: Vec<Row> =
        names.iter().map(|n| row(vec![("keyspace_name", Cell::Text((*n).to_owned()))])).collect();
    rows.push(row(vec![]));
    assert_eq!(
        drop_databases("app_catalog", &rows),
        vec!["app_catalog", "app_account_1", "app_"]
    );
    assert!(!select_keyspaces().cql.is_empty());
    let tables = vec![row(vec![("table_name", Cell::Text("t".to_owned()))]), row(vec![])];
    assert_eq!(list_table_names(&tables), vec!["t"]);
    assert!(select_table_names("ks").cql.ends_with(" ORDER BY table_name"));
}

#[test]
fn versions_and_sections() {
    let version = |v: &str| row(vec![("value", Cell::Text(v.to_owned()))]);
    assert_eq!(read_catalog_version(&vec![]), None);
    assert_eq!(
        read_catalog_version(&vec![version("1"), version("2")]),
        Some("2".to_owned())
    );
    assert_eq!(expected_catalog_version(), "0.0.3");
    assert!(select_catalog_version("ks").cql.ends_with("key = 'catalog_version'"));
    let b = boot(&no_args(), &file());
    assert_eq!(endpoint_info(&b.config), "h1:9043");
    assert_eq!(catalog_connection_url(&b.config), "h1:9043");
    let section = generate_backend_config_section(&b.config);
    assert!(section.starts_with("[storage.cassandra]\ncontact_points = [\"h1:9043\"]\n"));
    let parsed: toml::Table = toml::from_str(&section).unwrap();
    assert_eq!(
        parsed["storage"]["cassandra"]["max_connections"].as_integer(),
        Some(10)
    );
}
