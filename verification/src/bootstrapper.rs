//! Setting a backend up and tearing it down: how the configuration file and the
//! command line are merged, and what is created, checked and dropped.
use vstd::prelude::*;
use crate::cassandra_util::{get_column, get_optional, Cell, Row};
use crate::config::{connection_string, default_datacenter, CassandraStorageConfig};
use crate::cql::{stmt, stmt0, stmt1, stmt2, text_value, CqlView, Statement};
use crate::engine::{account_ks, catalog_keyspace_of, catalog_ks, CassandraEngine};
use crate::error::{is_internal, FromDbError, OpError, StorageError};
use crate::text::{
    cat2, cat3, cat4, cat5, cat6, chars_of, clone_strings, join, joined, nat_text, parse_u16,
    parse_u32, parsed_unsigned, pieces, push_text, split_char, starts_with_text, str_eq, trim_ends,
    u64_text, views, without_ends,
};

verus! {

/// The version of the catalog schema.
pub const CATALOG_VERSION: &'static str = "0.0.3";

/// The arguments of the command line that concern the backend.
#[derive(Debug, PartialEq, Eq)]
pub struct CliArgs {
    pub contact_points: Option<String>,
    pub admin_user: Option<String>,
    pub admin_password: Option<String>,
    pub keyspace_prefix: Option<String>,
    pub replication_factor: Option<String>,
    pub app_user: Option<String>,
    pub app_password: Option<String>,
}

/// How the bootstrapper connects and what it sets up.
#[derive(Debug, PartialEq, Eq)]
pub struct BootstrapConfig {
    pub host: String,
    pub port: u16,
    pub admin_user: String,
    pub admin_password: Option<String>,
    pub app_user: String,
    pub app_password: String,
    pub catalog_db: String,
    pub data_db: String,
}

/// Cassandra bootstrapper for init/destroy/migrate operations: the storage
/// configuration that it connects with, its engine, and what it sets up.
#[derive(Debug, PartialEq, Eq)]
pub struct CassandraBootstrapper {
    pub storage: CassandraStorageConfig,
    pub engine: CassandraEngine,
    pub config: BootstrapConfig,
}

/// The text, or another where there is none.
pub open spec fn text_or(t: Option<String>, other: Seq<char>) -> Seq<char> {
    match t {
        Some(s) => s@,
        None => other,
    }
}

fn clone_or(t: &Option<String>, other: &str) -> (r: String)
    ensures
        r@ == text_or(*t, other@),
{
    match t {
        Some(s) => s.clone(),
        None => other.to_owned(),
    }
}

/// The application user of a configuration file.
pub fn configured_user(config: &CassandraStorageConfig) -> (r: String)
    ensures
        r@ == text_or(config.username, "extenddb"@),
{
    clone_or(&config.username, "extenddb")
}

/// The application password of a configuration file.
pub fn configured_password(config: &CassandraStorageConfig) -> (r: String)
    ensures
        r@ == text_or(config.password, "extenddb-local-dev"@),
{
    clone_or(&config.password, "extenddb-local-dev")
}

fn same_texts(a: &Vec<String>, b: &Vec<String>) -> (r: bool)
    ensures
        r == (views(a@) == views(b@)),
{
    proof {
        if views(a@) == views(b@) {
            assert(views(a@).len() == views(b@).len());
        }
    }
    if a.len() != b.len() {
        return false;
    }
    let mut i: usize = 0;
    while i < a.len()
        invariant
            i <= a@.len(),
            a@.len() == b@.len(),
            forall|k: int| 0 <= k < i ==> a@[k]@ == b@[k]@,
        decreases a@.len() - i,
    {
        if !str_eq(a[i].as_str(), b[i].as_str()) {
            proof {
                assert(views(a@)[i as int] == a@[i as int]@);
                assert(views(b@)[i as int] == b@[i as int]@);
            }
            return false;
        }
        i = i + 1;
    }
    proof {
        assert(views(a@) =~= views(b@));
    }
    true
}

/// The contact points of the command line agree with those of the file.
pub open spec fn points_agree(cli: Option<String>, config: CassandraStorageConfig) -> bool {
    cli matches Some(s) ==> pieces(s@, ',') == views(config.contact_points@)
}

/// The error of contact points that differ.
pub open spec fn points_conflict(cli: Seq<char>, config: CassandraStorageConfig) -> Seq<char> {
    "--cassandra-contact-points '"@ + cli + "' conflicts with config file contact points '"@
        + joined(views(config.contact_points@), ","@) + "'"@
}

/// Contact points of the command line must be those of the file.
pub fn check_contact_points(cli: &Option<String>, config: &CassandraStorageConfig) -> (r: Result<
    (),
    StorageError,
>)
    ensures
        if points_agree(*cli, *config) {
            r is Ok
        } else {
            r matches Err(e) && is_internal(e, points_conflict(cli->0@, *config))
        },
{
    match cli {
        None => Ok(()),
        Some(s) => {
            let listed = split_char(s.as_str(), ',');
            if same_texts(&listed, &config.contact_points) {
                return Ok(());
            }
            let known = join(&config.contact_points, ",");
            Err(
                StorageError::Internal(
                    cat5(
                        "--cassandra-contact-points '",
                        s.as_str(),
                        "' conflicts with config file contact points '",
                        known.as_str(),
                        "'",
                    ),
                ),
            )
        },
    }
}

/// The keyspace prefix of the command line agrees with that of the file.
pub open spec fn prefix_agrees(cli: Option<String>, config: CassandraStorageConfig) -> bool {
    cli matches Some(s) ==> s@ == config.keyspace_prefix@
}

/// A keyspace prefix of the command line must be that of the file.
pub fn check_prefix(cli: &Option<String>, config: &CassandraStorageConfig) -> (r: Result<
    (),
    StorageError,
>)
    ensures
        if prefix_agrees(*cli, *config) {
            r is Ok
        } else {
            r matches Err(e) && is_internal(
                e,
                "--keyspace-prefix '"@ + cli->0@ + "' conflicts with config file keyspace prefix '"@
                    + config.keyspace_prefix@ + "'"@,
            )
        },
{
    match cli {
        None => Ok(()),
        Some(s) => {
            if str_eq(s.as_str(), config.keyspace_prefix.as_str()) {
                return Ok(());
            }
            Err(
                StorageError::Internal(
                    cat5(
                        "--keyspace-prefix '",
                        s.as_str(),
                        "' conflicts with config file keyspace prefix '",
                        config.keyspace_prefix.as_str(),
                        "'",
                    ),
                ),
            )
        },
    }
}

/// The replication factor that a text gives.
pub open spec fn factor_of(s: Seq<char>) -> Option<nat> {
    parsed_unsigned(s, u32::MAX as nat)
}

/// The replication factor of the command line agrees with that of the file.
pub open spec fn factor_agrees(cli: Option<String>, config: CassandraStorageConfig) -> bool {
    cli matches Some(s) ==> factor_of(s@) == Some(config.replication_factor as nat)
}

/// The error of a replication factor that is no number or differs.
pub open spec fn factor_error(cli: Seq<char>, config: CassandraStorageConfig) -> Seq<char> {
    match factor_of(cli) {
        None => "Invalid --replication-factor '"@ + cli + "': must be a positive integer"@,
        Some(n) => "--replication-factor "@ + nat_text(n)
            + " conflicts with config file replication_factor "@ + nat_text(
            config.replication_factor as nat,
        ),
    }
}

/// A replication factor of the command line must be that of the file.
pub fn check_factor(cli: &Option<String>, config: &CassandraStorageConfig) -> (r: Result<
    (),
    StorageError,
>)
    ensures
        if factor_agrees(*cli, *config) {
            r is Ok
        } else {
            r matches Err(e) && is_internal(e, factor_error(cli->0@, *config))
        },
{
    match cli {
        None => Ok(()),
        Some(s) => match parse_u32(s.as_str()) {
            None => Err(
                StorageError::Internal(
                    cat3(
                        "Invalid --replication-factor '",
                        s.as_str(),
                        "': must be a positive integer",
                    ),
                ),
            ),
            Some(n) => {
                if n == config.replication_factor {
                    return Ok(());
                }
                let given = u64_text(n as u64);
                let known = u64_text(config.replication_factor as u64);
                Err(
                    StorageError::Internal(
                        cat4(
                            "--replication-factor ",
                            given.as_str(),
                            " conflicts with config file replication_factor ",
                            known.as_str(),
                        ),
                    ),
                )
            },
        },
    }
}

/// The host and the port that a contact point names: two parts at a colon, the
/// second one a port number.
pub open spec fn endpoint_of(point: Seq<char>) -> Option<(Seq<char>, nat)> {
    let parts = pieces(point, ':');
    if parts.len() == 2 {
        match parsed_unsigned(parts[1], u16::MAX as nat) {
            Some(p) => Some((parts[0], p)),
            None => None,
        }
    } else {
        None
    }
}

/// The host and the port of the first contact point, or the local default.
pub open spec fn first_endpoint(points: Seq<Seq<char>>) -> (Seq<char>, nat) {
    if points.len() > 0 && endpoint_of(points[0]) is Some {
        endpoint_of(points[0])->0
    } else {
        ("localhost"@, 9042)
    }
}

/// The host and the port of the first contact point. One that is not of the form
/// `host:port` counts as none.
pub fn host_and_port(points: &Vec<String>) -> (r: (String, u16))
    ensures
        (r.0@, r.1 as nat) == first_endpoint(views(points@)),
{
    if points.len() > 0 {
        proof {
            assert(views(points@)[0] == points@[0]@);
        }
        let mut parts = split_char(points[0].as_str(), ':');
        if parts.len() == 2 {
            proof {
                assert(views(parts@)[0] == parts@[0]@);
                assert(views(parts@)[1] == parts@[1]@);
                assert(views(parts@).len() == 2);
            }
            match parse_u16(parts[1].as_str()) {
                Some(port) => {
                    let host = parts.remove(0);
                    return (host, port);
                },
                None => {},
            }
        } else {
            proof {
                assert(views(parts@).len() == parts@.len());
            }
        }
    }
    ("localhost".to_owned(), 9042)
}

/// What the configuration file gives, or the defaults of a single-node development
/// setup where there is no file.
#[derive(Debug, PartialEq, Eq)]
pub struct FileDefaults {
    pub contact_points: Vec<String>,
    pub app_user: String,
    pub app_password: String,
    pub keyspace_prefix: String,
    pub replication_factor: u32,
}

/// What a file gives.
pub open spec fn is_defaults_of(d: FileDefaults, file: Option<CassandraStorageConfig>) -> bool {
    match file {
        Some(c) => {
            &&& d.contact_points@ == c.contact_points@
            &&& d.app_user@ == text_or(c.username, "extenddb"@)
            &&& d.app_password@ == text_or(c.password, "extenddb-local-dev"@)
            &&& d.keyspace_prefix@ == c.keyspace_prefix@
            &&& d.replication_factor == c.replication_factor
        },
        None => {
            &&& views(d.contact_points@) == seq!["localhost:9042"@]
            &&& d.app_user@ == "extenddb"@
            &&& d.app_password@ == "extenddb-local-dev"@
            &&& d.keyspace_prefix@ == "extenddb"@
            &&& d.replication_factor == 1
        },
    }
}

/// What a file gives, or the defaults where there is none.
pub fn file_defaults(file: &Option<CassandraStorageConfig>) -> (r: FileDefaults)
    ensures
        is_defaults_of(r, *file),
{
    match file {
        Some(c) => FileDefaults {
            contact_points: clone_strings(&c.contact_points),
            app_user: configured_user(c),
            app_password: configured_password(c),
            keyspace_prefix: c.keyspace_prefix.clone(),
            replication_factor: c.replication_factor,
        },
        None => {
            let mut points: Vec<String> = Vec::new();
            push_text(&mut points, "localhost:9042".to_owned());
            proof {
                assert(views(points@) =~= seq!["localhost:9042"@]);
            }
            FileDefaults {
                contact_points: points,
                app_user: "extenddb".to_owned(),
                app_password: "extenddb-local-dev".to_owned(),
                keyspace_prefix: "extenddb".to_owned(),
                replication_factor: 1,
            }
        },
    }
}

/// The contact points after merging.
pub open spec fn merged_points(cli: CliArgs, d: FileDefaults) -> Seq<Seq<char>> {
    match cli.contact_points {
        Some(s) => pieces(s@, ','),
        None => views(d.contact_points@),
    }
}

/// The replication factor after merging: one where the argument is no number.
pub open spec fn merged_factor(cli: CliArgs, d: FileDefaults) -> nat {
    match cli.replication_factor {
        Some(s) => match factor_of(s@) {
            Some(n) => n,
            None => 1,
        },
        None => d.replication_factor as nat,
    }
}

/// The configurations follow from the arguments and the defaults: arguments win,
/// and the connection is made as the administrator.
pub open spec fn is_merged(
    cli: CliArgs,
    d: FileDefaults,
    env_user: Option<String>,
    config: CassandraStorageConfig,
    boot: BootstrapConfig,
) -> bool {
    let points = merged_points(cli, d);
    let prefix = text_or(cli.keyspace_prefix, d.keyspace_prefix@);
    let admin = text_or(cli.admin_user, text_or(env_user, "cassandra"@));
    &&& views(config.contact_points@) == points
    &&& config.username is Some && config.username->0@ == admin
    &&& config.password == cli.admin_password
    &&& config.keyspace_prefix@ == prefix
    &&& config.replication_factor == merged_factor(cli, d)
    &&& config.datacenter@ == "datacenter1"@
    &&& config.max_connections == 10
    &&& config.cached_connection_string is Some
    &&& config.cached_connection_string->0@ == connection_string(points, prefix)
    &&& config.instance_id is None
    &&& (boot.host@, boot.port as nat) == first_endpoint(points)
    &&& boot.admin_user@ == admin
    &&& boot.admin_password == cli.admin_password
    &&& boot.app_user@ == text_or(cli.app_user, d.app_user@)
    &&& boot.app_password@ == text_or(cli.app_password, d.app_password@)
    &&& boot.catalog_db@ == catalog_ks(prefix)
    &&& boot.data_db@ == ""@
}

fn clone_opt(t: &Option<String>) -> (r: Option<String>)
    ensures
        r == *t,
{
    match t {
        Some(s) => Some(s.clone()),
        None => None,
    }
}

/// Merge the arguments with the defaults.
pub fn merge(cli: &CliArgs, d: &FileDefaults, env_user: &Option<String>) -> (r: (
    CassandraStorageConfig,
    BootstrapConfig,
))
    ensures
        is_merged(*cli, *d, *env_user, r.0, r.1),
{
    let points = match &cli.contact_points {
        Some(s) => split_char(s.as_str(), ','),
        None => clone_strings(&d.contact_points),
    };
    let env_admin = clone_or(env_user, "cassandra");
    let admin = clone_or(&cli.admin_user, env_admin.as_str());
    let prefix = clone_or(&cli.keyspace_prefix, d.keyspace_prefix.as_str());
    let factor: u32 = match &cli.replication_factor {
        Some(s) => match parse_u32(s.as_str()) {
            Some(n) => n,
            None => 1,
        },
        None => d.replication_factor,
    };
    let (host, port) = host_and_port(&points);
    let boot = BootstrapConfig {
        host,
        port,
        admin_user: admin.clone(),
        admin_password: clone_opt(&cli.admin_password),
        app_user: clone_or(&cli.app_user, d.app_user.as_str()),
        app_password: clone_or(&cli.app_password, d.app_password.as_str()),
        catalog_db: catalog_keyspace_of(prefix.as_str()),
        data_db: "".to_owned(),
    };
    let mut config = CassandraStorageConfig {
        contact_points: points,
        username: Some(admin),
        password: clone_opt(&cli.admin_password),
        keyspace_prefix: prefix,
        replication_factor: factor,
        datacenter: default_datacenter(),
        max_connections: 10,
        cached_connection_string: None,
        instance_id: None,
    };
    config.ensure_cached_connection_string();
    (config, boot)
}

/// The checks of the application user and password, where a file was read: `None`
/// where there is no conflict.
#[derive(Debug, PartialEq, Eq)]
pub struct UserConflicts {
    pub user: Option<StorageError>,
    pub password: Option<StorageError>,
}

/// The first conflict between the arguments and the file, in the order in which
/// they are checked.
pub open spec fn first_conflict(
    cli: CliArgs,
    file: CassandraStorageConfig,
    users: UserConflicts,
    e: StorageError,
) -> bool {
    if !points_agree(cli.contact_points, file) {
        is_internal(e, points_conflict(cli.contact_points->0@, file))
    } else if users.user is Some {
        e == users.user->0
    } else if users.password is Some {
        e == users.password->0
    } else if !prefix_agrees(cli.keyspace_prefix, file) {
        is_internal(
            e,
            "--keyspace-prefix '"@ + cli.keyspace_prefix->0@
                + "' conflicts with config file keyspace prefix '"@ + file.keyspace_prefix@ + "'"@,
        )
    } else {
        is_internal(e, factor_error(cli.replication_factor->0@, file))
    }
}

/// Nothing on the command line contradicts the file.
pub open spec fn no_conflict(
    cli: CliArgs,
    file: CassandraStorageConfig,
    users: UserConflicts,
) -> bool {
    &&& points_agree(cli.contact_points, file)
    &&& users.user is None
    &&& users.password is None
    &&& prefix_agrees(cli.keyspace_prefix, file)
    &&& factor_agrees(cli.replication_factor, file)
}

impl CassandraBootstrapper {
    /// Create a new bootstrapper from Cassandra config.
    pub fn new(storage: CassandraStorageConfig, config: BootstrapConfig) -> (r:
        CassandraBootstrapper)
        ensures
            r.storage == storage,
            r.config == config,
            r.engine.region@ == "us-east-1"@,
            r.engine.keyspace_prefix == storage.keyspace_prefix,
            r.engine.replication_factor == storage.replication_factor,
            r.engine.datacenter == storage.datacenter,
    {
        let engine = CassandraEngine::new(&storage, "us-east-1");
        CassandraBootstrapper { storage, engine, config }
    }

    /// Create a bootstrapper from the command line and the configuration file. An
    /// argument that contradicts the file is an error; where there is no file, it
    /// overrides the default.
    pub fn from_config(
        cli: &CliArgs,
        file: &Option<CassandraStorageConfig>,
        users: UserConflicts,
        env_user: &Option<String>,
    ) -> (r: Result<CassandraBootstrapper, StorageError>)
        ensures
            match r {
                Ok(b) => {
                    &&& file is Some ==> no_conflict(*cli, file->0, users)
                    &&& exists|d: FileDefaults| #[trigger]
                        is_defaults_of(d, *file) && is_merged(
                            *cli,
                            d,
                            *env_user,
                            b.storage,
                            b.config,
                        )
                    &&& b.engine.region@ == "us-east-1"@
                    &&& b.engine.keyspace_prefix == b.storage.keyspace_prefix
                    &&& b.engine.replication_factor == b.storage.replication_factor
                    &&& b.engine.datacenter == b.storage.datacenter
                },
                Err(e) => file is Some && !no_conflict(*cli, file->0, users) && first_conflict(
                    *cli,
                    file->0,
                    users,
                    e,
                ),
            },
    {
        match file {
            Some(c) => {
                check_contact_points(&cli.contact_points, c)?;
                match users.user {
                    Some(e) => {
                        return Err(e);
                    },
                    None => {},
                }
                match users.password {
                    Some(e) => {
                        return Err(e);
                    },
                    None => {},
                }
                check_prefix(&cli.keyspace_prefix, c)?;
                check_factor(&cli.replication_factor, c)?;
            },
            None => {},
        }
        let d = file_defaults(file);
        let (storage, config) = merge(cli, &d, env_user);
        proof {
            assert(is_defaults_of(d, *file));
        }
        Ok(CassandraBootstrapper::new(storage, config))
    }
}

/// The statement that looks a role up.
pub fn select_role(user: &str) -> (r: Statement)
    ensures
        r@ == stmt(
            "SELECT role FROM system_auth.roles WHERE role = ?"@,
            seq![CqlView::Text(user@)],
        ),
{
    stmt1("SELECT role FROM system_auth.roles WHERE role = ?".to_owned(), text_value(user))
}

/// The marks that a password may hold besides ASCII letters and digits.
pub open spec fn password_marks() -> Seq<char> {
    "-_.,!@#$%^&*()+=~` "@
}

/// The character may stand in a password.
pub open spec fn allowed_in_password(c: char) -> bool {
    ||| 48 <= c as int <= 57
    ||| 65 <= c as int <= 90
    ||| 97 <= c as int <= 122
    ||| password_marks().contains(c)
}

fn is_alphanumeric(c: char) -> (r: bool)
    ensures
        r == (48 <= c as int <= 57 || 65 <= c as int <= 90 || 97 <= c as int <= 122),
{
    let n: u32 = c as u32;
    (48 <= n && n <= 57) || (65 <= n && n <= 90) || (97 <= n && n <= 122)
}

fn allowed(c: char, marks: &Vec<char>) -> (r: bool)
    requires
        marks@ == password_marks(),
    ensures
        r == allowed_in_password(c),
{
    if is_alphanumeric(c) {
        return true;
    }
    let mut i: usize = 0;
    while i < marks.len()
        invariant
            i <= marks@.len(),
            marks@ == password_marks(),
            forall|k: int| 0 <= k < i ==> marks@[k] != c,
        decreases marks@.len() - i,
    {
        if marks[i] == c {
            assert(marks@.contains(c));
            return true;
        }
        i = i + 1;
    }
    false
}

/// The error is a failed validation of a management operation.
pub open spec fn is_op_validation(e: OpError, m: Seq<char>) -> bool {
    e matches OpError::Validation(t) && t@ == m
}

/// Validate the character set of the application password, which stands in a
/// statement as it is.
pub fn check_app_password(password: &str) -> (r: Result<(), OpError>)
    ensures
        if forall|i: int| 0 <= i < password@.len() ==> allowed_in_password(#[trigger] password@[i]) {
            r is Ok
        } else {
            r matches Err(e) && is_op_validation(
                e,
                "Application password contains disallowed characters. Only ASCII letters, digits, and -_.,!@#$%^&*()+=~` space are permitted."@,
            )
        },
{
    let marks = chars_of("-_.,!@#$%^&*()+=~` ");
    let v = chars_of(password);
    let mut i: usize = 0;
    while i < v.len()
        invariant
            i <= v@.len(),
            v@ == password@,
            marks@ == password_marks(),
            forall|k: int| 0 <= k < i ==> allowed_in_password(#[trigger] password@[k]),
        decreases v@.len() - i,
    {
        if !allowed(v[i], &marks) {
            assert(!allowed_in_password(password@[i as int]));
            return Err(
                OpError::Validation(
                    "Application password contains disallowed characters. Only ASCII letters, digits, and -_.,!@#$%^&*()+=~` space are permitted.".to_owned(),
                ),
            );
        }
        i = i + 1;
    }
    Ok(())
}

/// Ensure that the application user exists: `None` where it does, else the
/// statement that creates it. A password with disallowed characters is refused.
pub fn ensure_app_user(exists_already: bool, user: &str, password: &str) -> (r: Result<
    Option<Statement>,
    OpError,
>)
    ensures
        if exists_already {
            r == Ok::<Option<Statement>, OpError>(None)
        } else if forall|i: int|
            0 <= i < password@.len() ==> allowed_in_password(#[trigger] password@[i]) {
            r is Ok && r->Ok_0 is Some && r->Ok_0->0@ == stmt(
                "CREATE ROLE IF NOT EXISTS '"@ + user@ + "' WITH PASSWORD = '"@ + password@
                    + "' AND LOGIN = true"@,
                seq![],
            )
        } else {
            r matches Err(e) && is_op_validation(
                e,
                "Application password contains disallowed characters. Only ASCII letters, digits, and -_.,!@#$%^&*()+=~` space are permitted."@,
            )
        },
{
    if exists_already {
        return Ok(None);
    }
    check_app_password(password)?;
    Ok(
        Some(
            stmt0(
                cat5(
                    "CREATE ROLE IF NOT EXISTS '",
                    user,
                    "' WITH PASSWORD = '",
                    password,
                    "' AND LOGIN = true",
                ),
            ),
        ),
    )
}

/// The quote of a statement cannot stand in an accepted password: it cannot end the
/// text that it stands in.
pub proof fn law_accepted_password_holds_no_quote(password: Seq<char>)
    requires
        forall|i: int| 0 <= i < password.len() ==> allowed_in_password(#[trigger] password[i]),
    ensures
        !password.contains('\''),
{
    reveal_strlit("-_.,!@#$%^&*()+=~` ");
    let marks = password_marks();
    assert forall|k: int| 0 <= k < marks.len() implies marks[k] != '\'' by {}
    if password.contains('\'') {
        let i = choose|i: int| 0 <= i < password.len() && password[i] == '\'';
        assert(allowed_in_password(password[i]));
    }
}

/// The statement that looks a membership up; `None` where both users are the same.
pub fn select_membership(config: &BootstrapConfig) -> (r: Option<Statement>)
    ensures
        if config.admin_user@ == config.app_user@ {
            r is None
        } else {
            r is Some && r->0@ == stmt(
                "SELECT role, member FROM system_auth.role_members WHERE role = ? AND member = ?"@,
                seq![CqlView::Text(config.app_user@), CqlView::Text(config.admin_user@)],
            )
        },
{
    if str_eq(config.admin_user.as_str(), config.app_user.as_str()) {
        return None;
    }
    Some(
        stmt2(
            "SELECT role, member FROM system_auth.role_members WHERE role = ? AND member = ?".to_owned(),
            text_value(config.app_user.as_str()),
            text_value(config.admin_user.as_str()),
        ),
    )
}

/// The statement that grants the role of the application to the administrator.
pub fn grant_app_role_to_admin(config: &BootstrapConfig) -> (r: Statement)
    ensures
        r@ == stmt(
            "GRANT '"@ + config.app_user@ + "' TO '"@ + config.admin_user@ + "'"@,
            seq![],
        ),
{
    stmt0(
        cat5(
            "GRANT '",
            config.app_user.as_str(),
            "' TO '",
            config.admin_user.as_str(),
            "'",
        ),
    )
}

/// The error of a grant that failed.
pub fn grant_error(config: &BootstrapConfig, cause: &str) -> (e: OpError)
    ensures
        e.carries(
            "Cannot grant "@ + config.app_user@ + " to "@ + config.admin_user@ + ": "@ + cause@,
        ),
{
    OpError::Internal(
        cat6(
            "Cannot grant ",
            config.app_user.as_str(),
            " to ",
            config.admin_user.as_str(),
            ": ",
            cause,
        ),
    )
}

/// The catalog keyspace must not exist yet.
pub fn check_catalog_absent(found: bool, keyspace: &str) -> (r: Result<(), OpError>)
    ensures
        if found {
            r matches Err(OpError::AlreadyExists(m)) && m@ == "Catalog keyspace '"@ + keyspace@
                + "' already exists. Run 'destroy' first, then re-run 'init'."@
        } else {
            r is Ok
        },
{
    if found {
        Err(
            OpError::AlreadyExists(
                cat3(
                    "Catalog keyspace '",
                    keyspace,
                    "' already exists. Run 'destroy' first, then re-run 'init'.",
                ),
            ),
        )
    } else {
        Ok(())
    }
}

/// The statement that lists the accounts.
pub fn select_accounts(catalog: &str) -> (r: Statement)
    ensures
        r@ == stmt("SELECT account_id FROM "@ + catalog@ + ".accounts"@, seq![]),
{
    stmt0(cat3("SELECT account_id FROM ", catalog, ".accounts"))
}

/// The account whose keyspace is migrated for a row.
pub fn migrated_account(row: &Row) -> (r: Result<String, OpError>)
    ensures
        match r {
            Ok(s) => row.cell("account_id"@) == Cell::Text(s),
            Err(e) => !(row.cell("account_id"@) is Text) && e.carries("Database error"@),
        },
{
    get_column(row, "account_id")
}

/// The statement that looks the encryption key up.
pub fn select_encryption_key(catalog: &str) -> (r: Statement)
    ensures
        r@ == stmt(
            "SELECT value FROM "@ + catalog@ + ".settings WHERE key = 'encryption_key'"@,
            seq![],
        ),
{
    stmt0(cat3("SELECT value FROM ", catalog, ".settings WHERE key = 'encryption_key'"))
}

/// Store a new encryption key, where there is none yet: a key is never replaced.
pub fn bootstrap_encryption_key(exists_already: bool, catalog: &str, key: &str) -> (r: Option<
    Statement,
>)
    ensures
        if exists_already {
            r is None
        } else {
            r is Some && r->0@ == stmt(
                "INSERT INTO "@ + catalog@ + ".settings (key, value) VALUES (?, ?)"@,
                seq![CqlView::Text("encryption_key"@), CqlView::Text(key@)],
            )
        },
{
    if exists_already {
        return None;
    }
    Some(
        stmt2(
            cat3("INSERT INTO ", catalog, ".settings (key, value) VALUES (?, ?)"),
            text_value("encryption_key"),
            text_value(key),
        ),
    )
}

/// The statement that looks for any account.
pub fn select_any_account(catalog: &str) -> (r: Statement)
    ensures
        r@ == stmt("SELECT account_id FROM "@ + catalog@ + ".accounts LIMIT 1"@, seq![]),
{
    stmt0(cat3("SELECT account_id FROM ", catalog, ".accounts LIMIT 1"))
}

/// Create the default account, where there is none at all.
pub fn bootstrap_default_account(has_accounts: bool, catalog: &str, account_id: &str) -> (r: Option<
    Statement,
>)
    ensures
        if has_accounts {
            r is None
        } else {
            r is Some && r->0@ == stmt(
                "INSERT INTO "@ + catalog@
                    + ".accounts (account_id, account_name, created_at) VALUES (?, ?, toTimestamp(now()))"@,
                seq![CqlView::Text(account_id@), CqlView::Text("default"@)],
            )
        },
{
    if has_accounts {
        return None;
    }
    Some(
        stmt2(
            cat3(
                "INSERT INTO ",
                catalog,
                ".accounts (account_id, account_name, created_at) VALUES (?, ?, toTimestamp(now()))",
            ),
            text_value(account_id),
            text_value("default"),
        ),
    )
}

/// What became of the administrator.
#[derive(Debug, PartialEq, Eq)]
pub struct AdminBootstrapResult {
    pub username: String,
    pub generated_password: Option<String>,
    pub already_existed: bool,
    pub from_env: bool,
}

/// The name of the administrator.
pub fn admin_username(env_user: Option<&str>) -> (r: String)
    ensures
        r@ == (match env_user {
            Some(u) => u@,
            None => "admin"@,
        }),
{
    match env_user {
        Some(u) => u.to_owned(),
        None => "admin".to_owned(),
    }
}

/// The statement that looks an administrator up.
pub fn select_admin(catalog: &str, username: &str) -> (r: Statement)
    ensures
        r@ == stmt(
            "SELECT admin_name FROM "@ + catalog@ + ".admin_users WHERE admin_name = ?"@,
            seq![CqlView::Text(username@)],
        ),
{
    stmt1(
        cat3("SELECT admin_name FROM ", catalog, ".admin_users WHERE admin_name = ?"),
        text_value(username),
    )
}

/// The statement that creates an administrator.
pub fn insert_admin(catalog: &str, username: &str, password_hash: &str) -> (r: Statement)
    ensures
        r@ == stmt(
            "INSERT INTO "@ + catalog@ + ".admin_users (admin_name, password_hash) VALUES (?, ?)"@,
            seq![CqlView::Text(username@), CqlView::Text(password_hash@)],
        ),
{
    stmt2(
        cat3("INSERT INTO ", catalog, ".admin_users (admin_name, password_hash) VALUES (?, ?)"),
        text_value(username),
        text_value(password_hash),
    )
}

/// The password of a new administrator: that of the environment, else the generated
/// one.
pub fn admin_password(env_password: Option<&str>, generated: String) -> (r: String)
    ensures
        r@ == (match env_password {
            Some(p) => p@,
            None => generated@,
        }),
{
    match env_password {
        Some(p) => p.to_owned(),
        None => generated,
    }
}

/// Report what became of the administrator. One that existed is left as it is; the
/// password of a new one is reported unless name and password both came from the
/// environment.
pub fn bootstrap_admin_user(
    exists_already: bool,
    env_user: Option<&str>,
    env_password: Option<&str>,
    password: String,
) -> (r: AdminBootstrapResult)
    ensures
        r.username@ == (match env_user {
            Some(u) => u@,
            None => "admin"@,
        }),
        r.already_existed == exists_already,
        r.from_env == (env_user is Some && env_password is Some),
        r.generated_password == (if exists_already || r.from_env {
            None
        } else {
            Some(password)
        }),
{
    let from_env = env_user.is_some() && env_password.is_some();
    AdminBootstrapResult {
        username: admin_username(env_user),
        generated_password: if exists_already || from_env {
            None
        } else {
            Some(password)
        },
        already_existed: exists_already,
        from_env,
    }
}

/// The statement that lists the tables.
pub fn select_table_names(catalog: &str) -> (r: Statement)
    ensures
        r@ == stmt("SELECT table_name FROM "@ + catalog@ + ".tables ORDER BY table_name"@, seq![]),
{
    stmt0(cat3("SELECT table_name FROM ", catalog, ".tables ORDER BY table_name"))
}

/// The texts of a column, of the rows that have one.
pub open spec fn column_texts(rows: Seq<Row>, column: Seq<char>) -> Seq<Seq<char>>
    decreases rows.len(),
{
    if rows.len() == 0 {
        Seq::empty()
    } else {
        let rest = column_texts(rows.drop_last(), column);
        match rows.last().cell(column) {
            Cell::Text(s) => rest.push(s@),
            _ => rest,
        }
    }
}

fn read_texts(rows: &Vec<Row>, column: &str) -> (r: Vec<String>)
    ensures
        views(r@) == column_texts(rows@, column@),
{
    let mut out: Vec<String> = Vec::new();
    let mut i: usize = 0;
    proof {
        assert(rows@.take(0) =~= Seq::empty());
        assert(views(out@) =~= Seq::empty());
    }
    while i < rows.len()
        invariant
            i <= rows@.len(),
            views(out@) == column_texts(rows@.take(i as int), column@),
        decreases rows@.len() - i,
    {
        proof {
            assert(rows@.take(i + 1).drop_last() =~= rows@.take(i as int));
        }
        match get_optional::<String>(&rows[i], column) {
            Some(s) => {
                push_text(&mut out, s);
            },
            None => {},
        }
        i = i + 1;
    }
    proof {
        assert(rows@.take(i as int) =~= rows@);
    }
    out
}

/// The names of the tables. Rows without a name are left out.
pub fn list_table_names(rows: &Vec<Row>) -> (r: Vec<String>)
    ensures
        views(r@) == column_texts(rows@, "table_name"@),
{
    read_texts(rows, "table_name")
}

/// What the names of all keyspaces of a catalog start with.
pub open spec fn owned_prefix(catalog: Seq<char>) -> Seq<char> {
    without_ends(catalog, "_catalog"@) + "_"@
}

/// The texts that start with a prefix.
pub open spec fn starting_with(names: Seq<Seq<char>>, prefix: Seq<char>) -> Seq<Seq<char>> {
    names.filter(|n: Seq<char>| prefix.is_prefix_of(n))
}

/// The keyspaces that are dropped with a catalog: all whose names start with its
/// prefix.
pub fn drop_databases(catalog: &str, rows: &Vec<Row>) -> (r: Vec<String>)
    ensures
        views(r@) == starting_with(
            column_texts(rows@, "keyspace_name"@),
            owned_prefix(catalog@),
        ),
{
    let stem = trim_ends(catalog, "_catalog");
    let prefix = cat2(stem.as_str(), "_");
    let ghost keep = |n: Seq<char>| prefix@.is_prefix_of(n);
    let names = read_texts(rows, "keyspace_name");
    let mut out: Vec<String> = Vec::new();
    let mut i: usize = 0;
    proof {
        assert(views(names@.take(0)) =~= Seq::empty());
        assert(views(out@) =~= Seq::empty());
        reveal(Seq::filter);
    }
    while i < names.len()
        invariant
            i <= names@.len(),
            keep == (|n: Seq<char>| prefix@.is_prefix_of(n)),
            views(out@) == views(names@.take(i as int)).filter(keep),
        decreases names@.len() - i,
    {
        proof {
            reveal(Seq::filter);
            let next = views(names@.take(i + 1));
            assert(next.drop_last() =~= views(names@.take(i as int)));
            assert(next.last() == names@[i as int]@);
        }
        if starts_with_text(names[i].as_str(), prefix.as_str()) {
            push_text(&mut out, names[i].clone());
        }
        i = i + 1;
    }
    proof {
        assert(names@.take(i as int) =~= names@);
    }
    out
}

proof fn lemma_stem_then_ends(p: Seq<char>, end: Seq<char>, tail: Seq<char>)
    requires
        end.len() > 0,
        tail.len() > 0,
        end[0] == '_',
        tail[0] == '_',
    ensures
        (without_ends(p, end) + "_"@).is_prefix_of(p + tail),
    decreases p.len(),
{
    reveal_strlit("_");
    let stem = without_ends(p, end);
    if end.is_suffix_of(p) {
        let head = p.take(p.len() - end.len());
        assert(end =~= p.subrange(p.len() - end.len(), p.len() as int));
        lemma_stem_then_ends(head, end, end + tail);
        assert(head + (end + tail) =~= p + tail);
    } else {
        assert((stem + "_"@) =~= (p + tail).subrange(0, p.len() as int + 1));
    }
}

/// Dropping the databases of a catalog reaches all of them: the catalog itself and
/// the keyspace of every account.
pub proof fn law_drop_reaches_every_keyspace(prefix: Seq<char>, account_id: Seq<char>)
    ensures
        owned_prefix(catalog_ks(prefix)).is_prefix_of(catalog_ks(prefix)),
        owned_prefix(catalog_ks(prefix)).is_prefix_of(account_ks(prefix, account_id)),
{
    reveal_strlit("_catalog");
    reveal_strlit("_account_");
    let end = "_catalog"@;
    let catalog = catalog_ks(prefix);
    assert(catalog.subrange(catalog.len() - end.len(), catalog.len() as int) =~= end);
    assert(catalog.take(catalog.len() - end.len()) =~= prefix);
    assert(without_ends(catalog, end) == without_ends(prefix, end));
    lemma_stem_then_ends(prefix, end, end);
    let tail = "_account_"@ + account_id;
    lemma_stem_then_ends(prefix, end, tail);
    assert(prefix + tail =~= account_ks(prefix, account_id));
}

/// The statement that lists all keyspaces.
pub fn select_keyspaces() -> (r: Statement)
    ensures
        r@ == stmt("SELECT keyspace_name FROM system_schema.keyspaces"@, seq![]),
{
    stmt0("SELECT keyspace_name FROM system_schema.keyspaces".to_owned())
}

/// The statement that reads the version of the catalog.
pub fn select_catalog_version(catalog: &str) -> (r: Statement)
    ensures
        r@ == stmt(
            "SELECT value FROM "@ + catalog@ + ".settings WHERE key = 'catalog_version'"@,
            seq![],
        ),
{
    stmt0(cat3("SELECT value FROM ", catalog, ".settings WHERE key = 'catalog_version'"))
}

/// The version of the catalog: that of the last row, where it has one.
pub fn read_catalog_version(rows: &Vec<Row>) -> (r: Option<String>)
    ensures
        r == (if rows@.len() > 0 {
            match rows@.last().cell("value"@) {
                Cell::Text(s) => Some(s),
                _ => None,
            }
        } else {
            None
        }),
{
    if rows.len() == 0 {
        return None;
    }
    get_optional(&rows[rows.len() - 1], "value")
}

/// The version of the catalog that this library works with.
pub fn expected_catalog_version() -> (r: String)
    ensures
        r@ == "0.0.3"@,
{
    CATALOG_VERSION.to_owned()
}

/// The address of the server.
pub open spec fn endpoint_text(config: BootstrapConfig) -> Seq<char> {
    config.host@ + ":"@ + nat_text(config.port as nat)
}

/// The address of the server.
pub fn endpoint_info(config: &BootstrapConfig) -> (r: String)
    ensures
        r@ == endpoint_text(*config),
{
    let port = u64_text(config.port as u64);
    cat3(config.host.as_str(), ":", port.as_str())
}

/// The address by which the catalog is connected.
pub fn catalog_connection_url(config: &BootstrapConfig) -> (r: String)
    ensures
        r@ == endpoint_text(*config),
{
    endpoint_info(config)
}

/// The section of the configuration file that describes the backend.
pub fn generate_backend_config_section(config: &BootstrapConfig) -> (r: String)
    ensures
        r@ == "[storage.cassandra]\ncontact_points = [\""@ + endpoint_text(*config)
            + "\"]\n# username = \"cassandra\"          # Application user\n# password = \"cassandra-password\" # Application password\nkeyspace_prefix = \"extenddb\"\nreplication_factor = 1           # Single node (use 3+ for production)\ndatacenter = \"datacenter1\"\nmax_connections = 10"@,
{
    let url = catalog_connection_url(config);
    cat3(
        "[storage.cassandra]\ncontact_points = [\"",
        url.as_str(),
        "\"]\n# username = \"cassandra\"          # Application user\n# password = \"cassandra-password\" # Application password\nkeyspace_prefix = \"extenddb\"\nreplication_factor = 1           # Single node (use 3+ for production)\ndatacenter = \"datacenter1\"\nmax_connections = 10",
    )
}

} // verus!
