use storage_cassandra::config::CassandraStorageConfig;

fn names(value: &toml::Value) -> Vec<String> {
    let mut out = Vec::new();
    for item in value.as_array().unwrap() {
        out.push(item.as_str().unwrap().to_string());
    }
    out
}

fn text(table: &toml::Table, key: &str) -> Option<String> {
    table.get(key).map(|v| v.as_str().unwrap().to_string())
}

fn number(table: &toml::Table, key: &str) -> Option<u32> {
    table.get(key).map(|v| v.as_integer().unwrap() as u32)
}

fn read_file(toml_str: &str) -> CassandraStorageConfig {
    let table: toml::Table = toml::from_str(toml_str).unwrap();
    CassandraStorageConfig::from_file(
        names(&table["contact_points"]),
        text(&table, "username"),
        text(&table, "password"),
        text(&table, "keyspace_prefix"),
        number(&table, "replication_factor"),
        text(&table, "datacenter"),
        number(&table, "max_connections"),
    )
}

#[test]
fn test_config_defaults() {
    let config = CassandraStorageConfig::new(vec!["localhost:9042".to_string()]);

    assert_eq!(config.keyspace_prefix, "extenddb");
    assert_eq!(config.replication_factor, 3);
    assert_eq!(config.datacenter, "datacenter1");
    assert_eq!(config.max_connections, 10);
    assert_eq!(config.username, None);
    assert_eq!(config.password, None);
}

#[test]
fn test_connection_config() {
    let config =
        CassandraStorageConfig::new(vec!["host1:9042".to_string(), "host2:9042".to_string()]);

    assert_eq!(config.connection_config(), "host1:9042,host2:9042/extenddb");
}

#[test]
fn test_connection_config_empty() {
    let config = CassandraStorageConfig::new(vec![]);
    // Empty contact points should still include keyspace
    assert_eq!(config.connection_config(), "/extenddb");
}

#[test]
fn test_toml_deserialization() {
    let toml_str = r#"
        contact_points = ["host1:9042", "host2:9042"]
        username = "cassandra"
        password = "secret"
        keyspace_prefix = "myapp"
        replication_factor = 5
        datacenter = "dc1"
        max_connections = 20
    "#;

    let config = read_file(toml_str);

    assert_eq!(config.contact_points, vec!["host1:9042", "host2:9042"]);
    assert_eq!(config.username, Some("cassandra".to_string()));
    assert_eq!(config.password, Some("secret".to_string()));
    assert_eq!(config.keyspace_prefix, "myapp");
    assert_eq!(config.replication_factor, 5);
    assert_eq!(config.datacenter, "dc1");
    assert_eq!(config.max_connections, 20);
}

#[test]
fn test_toml_deserialization_minimal() {
    let toml_str = r#"
        contact_points = ["localhost:9042"]
    "#;

    let config = read_file(toml_str);

    // Verify defaults are applied
    assert_eq!(config.keyspace_prefix, "extenddb");
    assert_eq!(config.replication_factor, 3);
    assert_eq!(config.datacenter, "datacenter1");
    assert_eq!(config.max_connections, 10);
    assert_eq!(config.username, None);
    assert_eq!(config.password, None);
}

#[test]
fn test_build_connection_string() {
    let mut config = CassandraStorageConfig::new(vec![
        "127.0.0.1:9042".to_string(),
        "127.0.0.2:9042".to_string(),
    ]);
    config.keyspace_prefix = "my_keyspace".to_string();
    config.rebuild_cached_connection_string();

    assert_eq!(
        config.cached_connection_string.as_ref().unwrap(),
        "127.0.0.1:9042,127.0.0.2:9042/my_keyspace"
    );
}

#[test]
fn test_build_connection_string_default_keyspace() {
    let config = CassandraStorageConfig::new(vec!["localhost:9042".to_string()]);

    assert_eq!(
        config.cached_connection_string.as_ref().unwrap(),
        "localhost:9042/extenddb"
    );
}

#[test]
fn test_parse_connection_string_with_keyspace() {
    let (contact_points, keyspace) = CassandraStorageConfig::parse_connection_string(
        "127.0.0.1:9042,127.0.0.2:9042/my_keyspace",
    );

    assert_eq!(contact_points.len(), 2);
    assert_eq!(contact_points[0], "127.0.0.1:9042");
    assert_eq!(contact_points[1], "127.0.0.2:9042");
    assert_eq!(keyspace, "my_keyspace");
}

#[test]
fn test_parse_connection_string_without_keyspace() {
    let (contact_points, keyspace) =
        CassandraStorageConfig::parse_connection_string("127.0.0.1:9042,127.0.0.2:9042");

    assert_eq!(contact_points.len(), 2);
    assert_eq!(contact_points[0], "127.0.0.1:9042");
    assert_eq!(contact_points[1], "127.0.0.2:9042");
    assert_eq!(keyspace, "extenddb"); // Default
}

#[test]
fn test_parse_connection_string_single_host() {
    let (contact_points, keyspace) =
        CassandraStorageConfig::parse_connection_string("localhost:9042/test_keyspace");

    assert_eq!(contact_points.len(), 1);
    assert_eq!(contact_points[0], "localhost:9042");
    assert_eq!(keyspace, "test_keyspace");
}

#[test]
fn test_parse_connection_string_with_whitespace() {
    let (contact_points, keyspace) = CassandraStorageConfig::parse_connection_string(
        "  127.0.0.1:9042  ,  127.0.0.2:9042  /  my_keyspace  ",
    );

    assert_eq!(contact_points.len(), 2);
    assert_eq!(contact_points[0], "127.0.0.1:9042");
    assert_eq!(contact_points[1], "127.0.0.2:9042");
    assert_eq!(keyspace, "my_keyspace");
}

#[test]
fn test_roundtrip_connection_string() {
    let mut config =
        CassandraStorageConfig::new(vec!["host1:9042".to_string(), "host2:9042".to_string()]);
    config.keyspace_prefix = "test_ks".to_string();
    config.rebuild_cached_connection_string();

    let conn_str = config.cached_connection_string.unwrap();

    let (contact_points, keyspace) = CassandraStorageConfig::parse_connection_string(&conn_str);

    assert_eq!(contact_points.len(), 2);
    assert_eq!(contact_points[0], "host1:9042");
    assert_eq!(contact_points[1], "host2:9042");
    assert_eq!(keyspace, "test_ks");
}

#[test]
fn a_list_without_hosts_does_not_parse_back() {
    let (contact_points, keyspace) = CassandraStorageConfig::parse_connection_string("/p");
    assert_eq!(contact_points, vec![""]);
    assert_eq!(keyspace, "p");
}

#[test]
fn only_the_first_slash_separates() {
    let (contact_points, keyspace) = CassandraStorageConfig::parse_connection_string("h/a/b");
    assert_eq!(contact_points, vec!["h"]);
    assert_eq!(keyspace, "a/b");
}

#[test]
fn white_space_beyond_ascii_is_trimmed() {
    let (contact_points, keyspace) =
        CassandraStorageConfig::parse_connection_string("\u{a0}h1\u{2003},\th2\n/\u{3000}p ");
    assert_eq!(contact_points, vec!["h1", "h2"]);
    assert_eq!(keyspace, "p");
}

#[test]
fn connection_strings_are_cached() {
    let mut config = read_file("contact_points = [\"h\"]");
    assert_eq!(config.connection_config(), "(no connection string)");
    config.ensure_cached_connection_string();
    assert_eq!(config.connection_config(), "h/extenddb");
    config.keyspace_prefix = "other".to_string();
    config.ensure_cached_connection_string();
    assert_eq!(config.connection_config(), "h/extenddb");
    config.rebuild_cached_connection_string();
    assert_eq!(config.connection_config(), "h/other");
    assert_eq!(config.build_connection_string(), "h/other");
    assert_eq!(config.clone(), config);
}

#[test]
fn instance_id_and_connection_limits() {
    let mut config = CassandraStorageConfig::new(vec!["h".to_string()]);
    assert_eq!(config.instance_id(), None);
    config.set_instance_id("node-7");
    assert_eq!(config.instance_id(), Some("node-7"));
    config.max_connections = 4;
    assert_eq!(config.max_connections(), 4);
    assert_eq!(config.max_catalog_connections(), 4);
}
