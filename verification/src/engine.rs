//! The storage engine: its keyspaces, and the decisions of connecting.
use vstd::prelude::*;
use crate::cassandra_util::Row;
use crate::config::CassandraStorageConfig;
use crate::cql::{stmt, stmt0, stmt1, text_value, CqlView, Statement};
use crate::error::{internal, is_internal, StorageError};
use crate::text::{
    all_ascii, cat2, cat3, cat7, contains_text, debug_text, debug_text_of, has_char, join, joined,
    nat_text, push_text, stands_at, u64_text, views,
};

verus! {

/// Cassandra storage engine: what it knows besides its connection.
#[derive(Debug, PartialEq, Eq)]
pub struct CassandraEngine {
    /// AWS region for ARN construction
    pub region: String,
    /// Keyspace prefix for catalog and account keyspaces
    pub keyspace_prefix: String,
    /// Replication factor for new keyspaces
    pub replication_factor: u32,
    /// Datacenter name for NetworkTopologyStrategy
    pub datacenter: String,
    /// Default GSI propagation delay in milliseconds (for async indexes)
    pub gsi_default_delay_ms: u64,
    /// Identifier from which the clock of the streams derives its node
    pub clock_instance: String,
    /// Stream record TTL in seconds (default: 30 hours = 108000)
    pub stream_retention_seconds: u32,
}

/// The catalog keyspace of a prefix.
pub open spec fn catalog_ks(prefix: Seq<char>) -> Seq<char> {
    prefix + "_catalog"@
}

/// The keyspace of an account under a prefix.
pub open spec fn account_ks(prefix: Seq<char>, account_id: Seq<char>) -> Seq<char> {
    prefix + "_account_"@ + account_id
}

/// The catalog keyspace of a prefix.
pub fn catalog_keyspace_of(prefix: &str) -> (r: String)
    ensures
        r@ == catalog_ks(prefix@),
{
    cat2(prefix, "_catalog")
}

/// The keyspace of an account under a prefix.
pub fn account_keyspace_of(prefix: &str, account_id: &str) -> (r: String)
    ensures
        r@ == account_ks(prefix@, account_id@),
{
    cat3(prefix, "_account_", account_id)
}

/// The statement that creates a keyspace.
pub open spec fn create_keyspace_cql(
    name: Seq<char>,
    datacenter: Seq<char>,
    factor: u32,
) -> Seq<char> {
    "CREATE KEYSPACE IF NOT EXISTS "@ + name
        + " WITH replication = {'class': 'NetworkTopologyStrategy', '"@ + datacenter + "': "@
        + nat_text(factor as nat) + "}"@
}

/// The statement that creates a keyspace.
pub fn create_keyspace_statement(name: &str, datacenter: &str, factor: u32) -> (r: Statement)
    ensures
        r@ == stmt(create_keyspace_cql(name@, datacenter@, factor), seq![]),
{
    let n = u64_text(factor as u64);
    stmt0(
        cat7(
            "CREATE KEYSPACE IF NOT EXISTS ",
            name,
            " WITH replication = {'class': 'NetworkTopologyStrategy', '",
            datacenter,
            "': ",
            n.as_str(),
            "}",
        ),
    )
}

impl CassandraEngine {
    /// The engine of a configuration.
    pub fn new(config: &CassandraStorageConfig, region: &str) -> (r: CassandraEngine)
        ensures
            r.region@ == region@,
            r.keyspace_prefix == config.keyspace_prefix,
            r.replication_factor == config.replication_factor,
            r.datacenter == config.datacenter,
            r.gsi_default_delay_ms == 10,
            r.clock_instance@ == (match config.instance_id {
                Some(s) => s@,
                None => "default"@,
            }),
            r.stream_retention_seconds == 108_000,
    {
        CassandraEngine {
            region: region.to_owned(),
            keyspace_prefix: config.keyspace_prefix.clone(),
            replication_factor: config.replication_factor,
            datacenter: config.datacenter.clone(),
            gsi_default_delay_ms: 10,
            clock_instance: match &config.instance_id {
                Some(s) => s.clone(),
                None => "default".to_owned(),
            },
            stream_retention_seconds: 108_000,
        }
    }

    /// Get the catalog keyspace name.
    pub fn catalog_keyspace(&self) -> (r: String)
        ensures
            r@ == catalog_ks(self.keyspace_prefix@),
    {
        catalog_keyspace_of(self.keyspace_prefix.as_str())
    }

    /// Get the account keyspace name for a given account ID.
    pub fn account_keyspace(&self, account_id: &str) -> (r: String)
        ensures
            r@ == account_ks(self.keyspace_prefix@, account_id@),
    {
        account_keyspace_of(self.keyspace_prefix.as_str(), account_id)
    }

    /// The statement that creates a keyspace with NetworkTopologyStrategy.
    pub fn create_keyspace(&self, keyspace_name: &str) -> (r: Statement)
        ensures
            r@ == stmt(
                create_keyspace_cql(keyspace_name@, self.datacenter@, self.replication_factor),
                seq![],
            ),
    {
        create_keyspace_statement(keyspace_name, self.datacenter.as_str(), self.replication_factor)
    }

    /// The statement that drops a keyspace.
    pub fn drop_keyspace(&self, keyspace_name: &str) -> (r: Statement)
        ensures
            r@ == stmt("DROP KEYSPACE IF EXISTS "@ + keyspace_name@, seq![]),
    {
        stmt0(cat2("DROP KEYSPACE IF EXISTS ", keyspace_name))
    }

    /// The statement that looks a keyspace up.
    pub fn keyspace_exists(&self, keyspace_name: &str) -> (r: Statement)
        ensures
            r@ == stmt(
                "SELECT keyspace_name FROM system_schema.keyspaces WHERE keyspace_name = ?"@,
                seq![CqlView::Text(keyspace_name@)],
            ),
    {
        stmt1(
            "SELECT keyspace_name FROM system_schema.keyspaces WHERE keyspace_name = ?".to_owned(),
            text_value(keyspace_name),
        )
    }

    /// A keyspace exists where the lookup found a row. A response without rows at
    /// all is an error.
    pub fn keyspace_found(rows: Option<Vec<Row>>) -> (r: Result<bool, StorageError>)
        ensures
            match rows {
                Some(v) => r == Ok::<bool, StorageError>(v@.len() > 0),
                None => r matches Err(e) && is_internal(e, "Failed to parse rows"@),
            },
    {
        match rows {
            Some(v) => Ok(v.len() > 0),
            None => Err(internal("Failed to parse rows")),
        }
    }

    /// Defense-in-depth: validate `account_id` before use in CQL identifiers.
    ///
    /// `account_id` is interpolated into CQL identifiers via keyspace names.
    /// Reject values that could break identifiers.
    pub fn validate_account_id(account_id: &str) -> (r: Result<(), StorageError>)
        ensures
            if account_id@.contains('"') || account_id@.contains('\0') || !is_ascii_text(
                account_id@,
            ) {
                r matches Err(e) && is_internal(
                    e,
                    "account_id contains invalid characters for use in CQL identifiers"@,
                )
            } else {
                r is Ok
            },
    {
        if has_char(account_id, '"') || has_char(account_id, '\0') || !all_ascii(account_id) {
            return Err(
                internal("account_id contains invalid characters for use in CQL identifiers"),
            );
        }
        Ok(())
    }

    /// The description of the backend.
    pub fn backend_info(&self) -> (r: String)
        ensures
            r@ == "keyspace_prefix="@ + self.keyspace_prefix@,
    {
        cat2("keyspace_prefix=", self.keyspace_prefix.as_str())
    }
}

/// All characters are ASCII.
pub open spec fn is_ascii_text(s: Seq<char>) -> bool {
    forall|i: int| 0 <= i < s.len() ==> (#[trigger] s[i]) as int <= 127
}

/// Different accounts have different keyspaces, and none is the catalog.
pub proof fn law_keyspaces_distinct(prefix: Seq<char>, a: Seq<char>, b: Seq<char>)
    ensures
        account_ks(prefix, a) == account_ks(prefix, b) <==> a == b,
        account_ks(prefix, a) != catalog_ks(prefix),
{
    reveal_strlit("_account_");
    reveal_strlit("_catalog");
    let n = prefix.len() + 9;
    if account_ks(prefix, a) == account_ks(prefix, b) {
        assert(account_ks(prefix, a).skip(n as int) =~= a);
        assert(account_ks(prefix, b).skip(n as int) =~= b);
    }
    let at = prefix.len() as int + 1;
    assert(account_ks(prefix, a)[at] == 'a');
    assert(catalog_ks(prefix)[at] == 'c');
}

/// The error is a failed connection with this message.
pub open spec fn is_connection(e: StorageError, m: Seq<char>) -> bool {
    e matches StorageError::Connection(t) && t@ == m
}

/// A connection needs a contact point.
pub fn check_contact_points(config: &CassandraStorageConfig) -> (r: Result<(), StorageError>)
    ensures
        if config.contact_points@.len() == 0 {
            r matches Err(e) && is_connection(e, "No contact points configured"@)
        } else {
            r is Ok
        },
{
    if config.contact_points.len() == 0 {
        Err(StorageError::Connection("No contact points configured".to_owned()))
    } else {
        Ok(())
    }
}

/// The user name and the password to authenticate with: both, or neither.
pub fn credentials(config: &CassandraStorageConfig) -> (r: Option<(&String, &String)>)
    ensures
        match r {
            Some((u, p)) => config.username == Some(*u) && config.password == Some(*p),
            None => config.username is None || config.password is None,
        },
{
    match (&config.username, &config.password) {
        (Some(u), Some(p)) => Some((u, p)),
        _ => None,
    }
}

/// The error of a cluster configuration that could not be built.
pub fn cluster_config_error(cause: &str) -> (e: StorageError)
    ensures
        is_connection(e, "Failed to build cluster config: "@ + cause@),
{
    StorageError::Connection(cat2("Failed to build cluster config: ", cause))
}

/// How long a connection may take, in seconds.
pub const CONNECTION_TIMEOUT_SECS: u64 = 10;

/// A list of strings in the notation of `{:?}`.
pub open spec fn debug_list(v: Seq<Seq<char>>) -> Seq<char> {
    "["@ + joined(v.map_values(|s: Seq<char>| debug_text_of(s)), ", "@) + "]"@
}

/// The error of a connection that took too long.
pub fn connection_timeout_error(config: &CassandraStorageConfig) -> (e: StorageError)
    ensures
        is_connection(
            e,
            "Connection timeout after 10s. Check that Cassandra is running and accessible at "@
                + debug_list(views(config.contact_points@))
                + ". If authentication is enabled, verify username/password are correct."@,
        ),
{
    let ghost f = |s: Seq<char>| debug_text_of(s);
    let mut quoted: Vec<String> = Vec::new();
    let mut i: usize = 0;
    while i < config.contact_points.len()
        invariant
            i <= config.contact_points@.len(),
            f == (|s: Seq<char>| debug_text_of(s)),
            views(quoted@) =~= views(config.contact_points@.take(i as int)).map_values(f),
        decreases config.contact_points@.len() - i,
    {
        push_text(&mut quoted, debug_text(config.contact_points[i].as_str()));
        proof {
            let v = config.contact_points@;
            assert(v.take(i + 1) =~= v.take(i as int).push(v[i as int]));
            assert(views(quoted@) =~= views(v.take(i + 1)).map_values(f));
        }
        i = i + 1;
    }
    proof {
        assert(config.contact_points@.take(i as int) =~= config.contact_points@);
        assert(views(quoted@) =~= views(config.contact_points@).map_values(f));
    }
    let list = join(&quoted, ", ");
    let all = cat3("[", list.as_str(), "]");
    StorageError::Connection(
        cat3(
            "Connection timeout after 10s. Check that Cassandra is running and accessible at ",
            all.as_str(),
            ". If authentication is enabled, verify username/password are correct.",
        ),
    )
}

/// The cause of a failed session speaks of authentication.
pub open spec fn speaks_of_authentication(cause: Seq<char>) -> bool {
    (exists|k: int| #[trigger] stands_at(cause, "authentication"@, k)) || (exists|k: int|
        #[trigger] stands_at(cause, "Authentication"@, k))
}

/// The error of a session that could not be built, with a hint where the cause
/// speaks of authentication.
pub fn session_error(cause: &str) -> (e: StorageError)
    ensures
        is_connection(
            e,
            if speaks_of_authentication(cause@) {
                "Authentication failed: "@ + cause@
                    + ". Verify username/password in config."@
            } else {
                "Failed to build session: "@ + cause@
            },
        ),
{
    if contains_text(cause, "authentication") || contains_text(cause, "Authentication") {
        StorageError::Connection(
            cat3("Authentication failed: ", cause, ". Verify username/password in config."),
        )
    } else {
        StorageError::Connection(cat2("Failed to build session: ", cause))
    }
}

} // verus!
