//! The catalog: settings, accounts, and diagnostics.
use vstd::prelude::*;
use crate::cassandra_util::{get_column, read_column, read_error, Cell, Row};
use crate::cql::{stmt, stmt0, stmt1, stmt2, text_value, CqlView, Statement};
use crate::engine::{
    account_keyspace_of, account_ks, catalog_keyspace_of, catalog_ks, create_keyspace_cql,
    create_keyspace_statement,
};
use crate::error::{FromDbError, OpError};
use crate::sorting::{is_stable_sort, sort_by_name};
use crate::text::{cat2, cat3, cat4};

verus! {

/// The catalog store: what it knows besides its connection.
#[derive(Debug, PartialEq, Eq)]
pub struct CassandraCatalogStore {
    pub keyspace_prefix: String,
    pub datacenter: String,
    pub replication_factor: u32,
    /// Cached encryption key (immutable after bootstrap). Avoids
    /// per-request DB query on access key and assume-role operations.
    pub encryption_key: Option<String>,
}

impl CassandraCatalogStore {
    /// A catalog store without an encryption key.
    pub fn new(keyspace_prefix: String, datacenter: String, replication_factor: u32) -> (r:
        CassandraCatalogStore)
        ensures
            r == (CassandraCatalogStore {
                keyspace_prefix,
                datacenter,
                replication_factor,
                encryption_key: None,
            }),
    {
        CassandraCatalogStore {
            keyspace_prefix,
            datacenter,
            replication_factor,
            encryption_key: None,
        }
    }

    /// A catalog store with a pre-loaded encryption key.
    pub fn with_encryption_key(
        keyspace_prefix: String,
        datacenter: String,
        replication_factor: u32,
        encryption_key: String,
    ) -> (r: CassandraCatalogStore)
        ensures
            r == (CassandraCatalogStore {
                keyspace_prefix,
                datacenter,
                replication_factor,
                encryption_key: Some(encryption_key),
            }),
    {
        CassandraCatalogStore {
            keyspace_prefix,
            datacenter,
            replication_factor,
            encryption_key: Some(encryption_key),
        }
    }

    /// Get the cached encryption key. Returns `None` if not loaded at startup.
    pub fn encryption_key(&self) -> (r: Option<&String>)
        ensures
            match r {
                Some(k) => self.encryption_key == Some(*k),
                None => self.encryption_key is None,
            },
    {
        match &self.encryption_key {
            Some(k) => Some(k),
            None => None,
        }
    }

    /// A copy of the cached encryption key.
    pub fn cached_encryption_key(&self) -> (r: Option<String>)
        ensures
            r == self.encryption_key,
    {
        match &self.encryption_key {
            Some(k) => Some(k.clone()),
            None => None,
        }
    }

    /// Get the catalog keyspace name.
    pub fn catalog_keyspace(&self) -> (r: String)
        ensures
            r@ == catalog_ks(self.keyspace_prefix@),
    {
        catalog_keyspace_of(self.keyspace_prefix.as_str())
    }

    /// Get the account keyspace name.
    pub fn account_keyspace(&self, account_id: &str) -> (r: String)
        ensures
            r@ == account_ks(self.keyspace_prefix@, account_id@),
    {
        account_keyspace_of(self.keyspace_prefix.as_str(), account_id)
    }

    /// The statement that looks the keyspace of an account up.
    pub fn select_account_keyspace(&self, account_id: &str) -> (r: Statement)
        ensures
            r@ == stmt(
                "SELECT keyspace_name FROM system_schema.keyspaces WHERE keyspace_name = ?"@,
                seq![CqlView::Text(account_ks(self.keyspace_prefix@, account_id@))],
            ),
    {
        let name = self.account_keyspace(account_id);
        stmt1(
            "SELECT keyspace_name FROM system_schema.keyspaces WHERE keyspace_name = ?".to_owned(),
            text_value(name.as_str()),
        )
    }

    /// Ensure an account keyspace exists (idempotent): the statement that creates it
    /// where it was not found. Its migrations run either way, since another caller
    /// may have created it and not finished them.
    pub fn ensure_account_keyspace(&self, account_id: &str, found: bool) -> (r: Option<Statement>)
        ensures
            if found {
                r is None
            } else {
                r is Some && r->0@ == stmt(
                    create_keyspace_cql(
                        account_ks(self.keyspace_prefix@, account_id@),
                        self.datacenter@,
                        self.replication_factor,
                    ),
                    seq![],
                )
            },
    {
        if found {
            return None;
        }
        let name = self.account_keyspace(account_id);
        Some(
            create_keyspace_statement(
                name.as_str(),
                self.datacenter.as_str(),
                self.replication_factor,
            ),
        )
    }

    /// The statement that drops an account keyspace (idempotent).
    pub fn drop_account_keyspace(&self, account_id: &str) -> (r: Statement)
        ensures
            r@ == stmt(
                "DROP KEYSPACE IF EXISTS "@ + account_ks(self.keyspace_prefix@, account_id@),
                seq![],
            ),
    {
        let name = self.account_keyspace(account_id);
        stmt0(cat2("DROP KEYSPACE IF EXISTS ", name.as_str()))
    }

    /// The statement that looks an account up. Used to emulate foreign key checks.
    pub fn account_exists(&self, account_id: &str) -> (r: Statement)
        ensures
            r@ == stmt(
                "SELECT account_id FROM "@ + catalog_ks(self.keyspace_prefix@)
                    + ".accounts WHERE account_id = ?"@,
                seq![CqlView::Text(account_id@)],
            ),
    {
        let ks = self.catalog_keyspace();
        stmt1(
            cat3("SELECT account_id FROM ", ks.as_str(), ".accounts WHERE account_id = ?"),
            text_value(account_id),
        )
    }

    /// The statement that looks a user up. Used to emulate foreign key checks.
    pub fn user_exists(&self, account_id: &str, user_name: &str) -> (r: Statement)
        ensures
            r@ == stmt(
                "SELECT user_name FROM "@ + catalog_ks(self.keyspace_prefix@)
                    + ".iam_users WHERE account_id = ? AND user_name = ?"@,
                seq![CqlView::Text(account_id@), CqlView::Text(user_name@)],
            ),
    {
        let ks = self.catalog_keyspace();
        stmt2(
            cat3(
                "SELECT user_name FROM ",
                ks.as_str(),
                ".iam_users WHERE account_id = ? AND user_name = ?",
            ),
            text_value(account_id),
            text_value(user_name),
        )
    }

    /// The statement that reads a setting.
    pub fn select_setting(&self, key: &str) -> (r: Statement)
        ensures
            r@ == stmt(
                "SELECT value FROM "@ + catalog_ks(self.keyspace_prefix@)
                    + ".settings WHERE key = ?"@,
                seq![CqlView::Text(key@)],
            ),
    {
        let ks = self.catalog_keyspace();
        stmt1(
            cat3("SELECT value FROM ", ks.as_str(), ".settings WHERE key = ?"),
            text_value(key),
        )
    }

    /// The statement that writes a setting.
    pub fn set_setting(&self, key: &str, value: &str) -> (r: Statement)
        ensures
            r@ == stmt(
                "INSERT INTO "@ + catalog_ks(self.keyspace_prefix@)
                    + ".settings (key, value) VALUES (?, ?)"@,
                seq![CqlView::Text(key@), CqlView::Text(value@)],
            ),
    {
        let ks = self.catalog_keyspace();
        stmt2(
            cat3("INSERT INTO ", ks.as_str(), ".settings (key, value) VALUES (?, ?)"),
            text_value(key),
            text_value(value),
        )
    }

    /// The statement that reads all settings.
    pub fn select_settings(&self) -> (r: Statement)
        ensures
            r@ == stmt(
                "SELECT key, value FROM "@ + catalog_ks(self.keyspace_prefix@) + ".settings"@,
                seq![],
            ),
    {
        let ks = self.catalog_keyspace();
        stmt0(cat3("SELECT key, value FROM ", ks.as_str(), ".settings"))
    }

    /// The statement that counts the tables.
    pub fn count_tables(&self) -> (r: Statement)
        ensures
            r@ == stmt(
                "SELECT COUNT(*) FROM "@ + catalog_ks(self.keyspace_prefix@) + ".tables"@,
                seq![],
            ),
    {
        let ks = self.catalog_keyspace();
        stmt0(cat3("SELECT COUNT(*) FROM ", ks.as_str(), ".tables"))
    }

    /// The statement that counts the indexes.
    pub fn count_indexes(&self) -> (r: Statement)
        ensures
            r@ == stmt(
                "SELECT COUNT(*) FROM "@ + catalog_ks(self.keyspace_prefix@) + ".indexes"@,
                seq![],
            ),
    {
        let ks = self.catalog_keyspace();
        stmt0(cat3("SELECT COUNT(*) FROM ", ks.as_str(), ".indexes"))
    }

    /// The statement that looks for any account.
    pub fn select_any_account(&self) -> (r: Statement)
        ensures
            r@ == stmt(
                "SELECT account_id FROM "@ + catalog_ks(self.keyspace_prefix@)
                    + ".accounts LIMIT 1"@,
                seq![],
            ),
    {
        let ks = self.catalog_keyspace();
        stmt0(cat3("SELECT account_id FROM ", ks.as_str(), ".accounts LIMIT 1"))
    }

    /// How the data connection is tested: by a query on the keyspace of the first
    /// account. Without an account there is nothing to test, which the text says.
    pub fn test_data_database_connection(&self, rows: &Vec<Row>) -> (r: Result<
        ConnectionTest,
        String,
    >)
        ensures
            if rows@.len() == 0 {
                r matches Ok(ConnectionTest::Nothing(t)) && t@ == "No account keyspaces exist yet"@
            } else {
                match rows@[0].cell("account_id"@) {
                    Cell::Text(id) => {
                        &&& r matches Ok(ConnectionTest::Query { keyspace, statement })
                        &&& keyspace@ == account_ks(self.keyspace_prefix@, id@)
                        &&& statement@ == stmt(
                            "SELECT COUNT(*) FROM "@ + keyspace@ + ".schema_history"@,
                            seq![],
                        )
                    },
                    _ => r matches Err(m) && m@ == read_error::<String>(rows@[0], "account_id"@),
                }
            },
    {
        if rows.len() == 0 {
            return Ok(ConnectionTest::Nothing("No account keyspaces exist yet".to_owned()));
        }
        let id: String = read_column(&rows[0], "account_id")?;
        let keyspace = self.account_keyspace(id.as_str());
        let statement = stmt0(cat3("SELECT COUNT(*) FROM ", keyspace.as_str(), ".schema_history"));
        Ok(ConnectionTest::Query { keyspace, statement })
    }
}

/// A test of the data connection.
#[derive(Debug, PartialEq, Eq)]
pub enum ConnectionTest {
    Nothing(String),
    Query { keyspace: String, statement: Statement },
}

/// The error of a keyspace that could not be tested.
pub fn connection_test_error(keyspace: &str, cause: &str) -> (r: String)
    ensures
        r@ == "Failed to query account keyspace "@ + keyspace@ + ": "@ + cause@,
{
    cat4("Failed to query account keyspace ", keyspace, ": ", cause)
}

/// The error of an account keyspace that could not be set up.
pub fn account_storage_error() -> (e: OpError)
    ensures
        e.carries("Failed to initialize account storage"@),
{
    OpError::Internal("Failed to initialize account storage".to_owned())
}

/// The error of an account keyspace that could not be dropped.
pub fn account_drop_error() -> (e: OpError)
    ensures
        e.carries("Failed to drop account storage"@),
{
    OpError::Internal("Failed to drop account storage".to_owned())
}

/// The value of a setting; `None` where it is not set.
pub fn get_setting(row: Option<&Row>) -> (r: Result<Option<String>, OpError>)
    ensures
        match row {
            None => r == Ok::<Option<String>, OpError>(None),
            Some(row) => match row.cell("value"@) {
                Cell::Text(s) => r == Ok::<Option<String>, OpError>(Some(s)),
                _ => r matches Err(e) && e.carries("Database error"@),
            },
        },
{
    match row {
        None => Ok(None),
        Some(row) => {
            let value: String = get_column(row, "value")?;
            Ok(Some(value))
        },
    }
}

/// The row holds the two texts.
pub open spec fn holds_pair(row: Row, a: Seq<char>, b: Seq<char>, p: (String, String)) -> bool {
    row.cell(a) == Cell::Text(p.0) && row.cell(b) == Cell::Text(p.1)
}

/// The rows hold the pairs, in their order.
pub open spec fn hold_pairs(
    rows: Seq<Row>,
    a: Seq<char>,
    b: Seq<char>,
    v: Seq<(String, String)>,
) -> bool {
    v.len() == rows.len() && forall|i: int|
        #![trigger rows[i]]
        #![trigger v[i]]
        0 <= i < v.len() ==> holds_pair(rows[i], a, b, v[i])
}

/// Both columns of the row are texts.
pub open spec fn pair_readable(row: Row, a: Seq<char>, b: Seq<char>) -> bool {
    row.cell(a) is Text && row.cell(b) is Text
}

/// The two text columns of every row, in their order. One row that cannot be read
/// fails them all.
pub fn read_pairs(rows: &Vec<Row>, a: &str, b: &str) -> (r: Result<Vec<(String, String)>, OpError>)
    ensures
        match r {
            Ok(v) => hold_pairs(rows@, a@, b@, v@),
            Err(e) => e.carries("Database error"@) && exists|i: int|
                0 <= i < rows@.len() && !pair_readable(#[trigger] rows@[i], a@, b@),
        },
{
    let mut out: Vec<(String, String)> = Vec::new();
    let mut i: usize = 0;
    while i < rows.len()
        invariant
            i <= rows@.len(),
            out@.len() == i,
            forall|k: int|
                #![trigger rows@[k]]
                #![trigger out@[k]]
                0 <= k < i ==> holds_pair(rows@[k], a@, b@, out@[k]),
        decreases rows@.len() - i,
    {
        let first: Result<String, OpError> = get_column(&rows[i], a);
        let second: Result<String, OpError> = get_column(&rows[i], b);
        match (first, second) {
            (Ok(x), Ok(y)) => {
                out.push((x, y));
            },
            (Err(e), _) => {
                assert(!pair_readable(rows@[i as int], a@, b@));
                return Err(e);
            },
            (_, Err(e)) => {
                assert(!pair_readable(rows@[i as int], a@, b@));
                return Err(e);
            },
        }
        i = i + 1;
    }
    Ok(out)
}

/// The settings in the order of their keys.
pub fn list_settings(rows: &Vec<Row>) -> (r: Result<Vec<(String, String)>, OpError>)
    ensures
        match r {
            Ok(v) => exists|read: Seq<(String, String)>|
                #[trigger] hold_pairs(rows@, "key"@, "value"@, read) && is_stable_sort(read, v@),
            Err(e) => e.carries("Database error"@) && exists|i: int|
                0 <= i < rows@.len() && !pair_readable(#[trigger] rows@[i], "key"@, "value"@),
        },
{
    let settings = read_pairs(rows, "key", "value")?;
    let ghost read = settings@;
    let sorted = sort_by_name(settings);
    proof {
        assert(hold_pairs(rows@, "key"@, "value"@, read));
        assert(is_stable_sort(read, sorted@));
    }
    Ok(sorted)
}

/// The number that a count query gave: zero without a row, and why it could not be
/// read.
pub fn read_count(rows: &Vec<Row>) -> (r: Result<i64, String>)
    ensures
        if rows@.len() == 0 {
            r == Ok::<i64, String>(0)
        } else {
            match rows@[0].cell("count"@) {
                Cell::BigInt(n) => r == Ok::<i64, String>(n),
                _ => r matches Err(m) && m@ == read_error::<i64>(rows@[0], "count"@),
            }
        },
{
    if rows.len() == 0 {
        return Ok(0);
    }
    read_column(&rows[0], "count")
}

/// Failed logins are not counted: no principal has any.
pub fn count_principal_failures(_principal: &str, _window_seconds: i64) -> (r: Result<i64, OpError>)
    ensures
        r == Ok::<i64, OpError>(0),
{
    Ok(0)
}

/// Failed logins are not counted: no address has any.
pub fn count_ip_failures(_source_ip: &str, _window_seconds: i64) -> (r: Result<i64, OpError>)
    ensures
        r == Ok::<i64, OpError>(0),
{
    Ok(0)
}

} // verus!
