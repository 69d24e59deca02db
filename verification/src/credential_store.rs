//! Credentials for request authentication: access keys and session credentials,
//! whose secrets are encrypted with AES-256-GCM.
use aes_gcm::aead::{Aead, Payload};
use aes_gcm::{Aes256Gcm, KeyInit};
use vstd::prelude::*;
use vstd::utf8::*;
use crate::cassandra_util::{
    datetime_in_range, get_column, timestamp_to_datetime, whole_seconds, BlobBytes, Cell, FromCell,
    Row,
};
use crate::cql::{stmt, stmt1, text_value, CqlView, Statement};
use crate::data::ledger_key::{base64_parse, base64_parse_of};
use crate::engine::{catalog_keyspace_of, catalog_ks};
use crate::error::DynamoDbError;
use crate::text::{cat2, cat3, nat_text, starts_with_text, u64_text};

verus! {

/// The credential store: what it knows besides its connection.
#[derive(Debug, PartialEq, Eq)]
pub struct CassandraCredentialStore {
    pub keyspace_prefix: String,
    pub encryption_key: String,
}

impl CassandraCredentialStore {
    /// A credential store with its encryption key.
    pub fn new(keyspace_prefix: String, encryption_key: String) -> (r: CassandraCredentialStore)
        ensures
            r == (CassandraCredentialStore { keyspace_prefix, encryption_key }),
    {
        CassandraCredentialStore { keyspace_prefix, encryption_key }
    }

    /// The catalog keyspace, which holds the credentials.
    pub fn catalog_keyspace(&self) -> (r: String)
        ensures
            r@ == catalog_ks(self.keyspace_prefix@),
    {
        catalog_keyspace_of(self.keyspace_prefix.as_str())
    }
}

/// What AES-256-GCM makes of a message under a key, a nonce and associated data: the
/// plain bytes, or the text of its error.
pub uninterp spec fn opened_of(
    key: Seq<u8>,
    nonce: Seq<u8>,
    msg: Seq<u8>,
    aad: Seq<u8>,
) -> Result<Seq<u8>, Seq<char>>;

/// `<aes_gcm::Aes256Gcm as aead::Aead>::decrypt` under the key and nonce: the plain
/// bytes, or the text of the error, which depend on the four byte strings alone.
/// Keys of other than 32 bytes and nonces of other than 12 would panic.
#[verifier::external_body]
fn open_sealed(key: &[u8], nonce: &[u8], msg: &[u8], aad: &[u8]) -> (r: Result<Vec<u8>, String>)
    requires
        key@.len() == 32,
        nonce@.len() == 12,
    ensures
        match r {
            Ok(b) => opened_of(key@, nonce@, msg@, aad@) is Ok && opened_of(
                key@,
                nonce@,
                msg@,
                aad@,
            )->Ok_0 == b@,
            Err(m) => opened_of(key@, nonce@, msg@, aad@) is Err && opened_of(
                key@,
                nonce@,
                msg@,
                aad@,
            )->Err_0 == m@,
        },
{
    let cipher = Aes256Gcm::new(aes_gcm::Key::<Aes256Gcm>::from_slice(key));
    cipher.decrypt(aes_gcm::Nonce::from_slice(nonce), Payload { msg, aad }).map_err(
        |e| e.to_string(),
    )
}

/// The text of the error that `String::from_utf8` gives for bytes that are no UTF-8.
pub uninterp spec fn utf8_error_of(bytes: Seq<u8>) -> Seq<char>;

/// `String::from_utf8`: the text whose UTF-8 bytes these are. Bytes that are no UTF-8
/// give the text of the error, which depends on them alone.
#[verifier::external_body]
fn utf8_text(bytes: Vec<u8>) -> (r: Result<String, String>)
    ensures
        match r {
            Ok(s) => valid_utf8(bytes@) && s@ == decode_utf8(bytes@),
            Err(m) => !valid_utf8(bytes@) && m@ == utf8_error_of(bytes@),
        },
{
    String::from_utf8(bytes).map_err(|e| e.to_string())
}

/// The bytes that open a sealed secret: with the associated data, or else without
/// any, as older secrets were sealed.
pub open spec fn opened_secret(sealed: Seq<u8>, key: Seq<u8>, aad: Seq<char>) -> Result<
    Seq<u8>,
    Seq<char>,
> {
    let nonce = sealed.take(12);
    let msg = sealed.skip(12);
    let with_aad = opened_of(key, nonce, msg, encode_utf8(aad));
    if with_aad is Ok {
        with_aad
    } else {
        opened_of(key, nonce, msg, Seq::empty())
    }
}

/// The secret that `nonce || ciphertext` holds under a key, or why it cannot be
/// read.
pub open spec fn secret_of(sealed: Seq<u8>, key: Result<Seq<u8>, Seq<char>>, aad: Seq<char>) -> Result<
    Seq<char>,
    Seq<char>,
> {
    if sealed.len() < 28 {
        Err(
            "ciphertext too short: "@ + nat_text(sealed.len())
                + " bytes (need at least 12-byte nonce + 16-byte auth tag)"@,
        )
    } else {
        match key {
            Err(m) => Err("decode encryption key: "@ + m),
            Ok(k) => match opened_secret(sealed, k, aad) {
                Err(m) => Err("decrypt failed both with AAD and without AAD: "@ + m),
                Ok(b) => if valid_utf8(b) {
                    Ok(decode_utf8(b))
                } else {
                    Err("decrypted secret is not valid UTF-8: "@ + utf8_error_of(b))
                },
            },
        }
    }
}

/// The result as views.
pub open spec fn result_view(r: Result<String, String>) -> Result<Seq<char>, Seq<char>> {
    match r {
        Ok(s) => Ok(s@),
        Err(m) => Err(m@),
    }
}

fn bytes_between(v: &Vec<u8>, from: usize, to: usize) -> (r: Vec<u8>)
    requires
        from <= to <= v@.len(),
    ensures
        r@ == v@.subrange(from as int, to as int),
{
    let mut out: Vec<u8> = Vec::new();
    let mut i: usize = from;
    while i < to
        invariant
            from <= i <= to <= v@.len(),
            out@ == v@.subrange(from as int, i as int),
        decreases to - i,
    {
        out.push(v[i]);
        i = i + 1;
        proof {
            assert(out@ =~= v@.subrange(from as int, i as int));
        }
    }
    out
}

/// The error of a secret that is too short.
fn too_short(len: usize) -> (r: String)
    ensures
        r@ == "ciphertext too short: "@ + nat_text(len as nat)
            + " bytes (need at least 12-byte nonce + 16-byte auth tag)"@,
{
    let n = u64_text(len as u64);
    cat3(
        "ciphertext too short: ",
        n.as_str(),
        " bytes (need at least 12-byte nonce + 16-byte auth tag)",
    )
}

/// Open a sealed secret with the bytes of its key.
pub fn open_secret(sealed: &Vec<u8>, key: &Vec<u8>, aad: &str) -> (r: Result<String, String>)
    requires
        sealed@.len() >= 28,
        key@.len() == 32,
    ensures
        result_view(r) == secret_of(sealed@, Ok(key@), aad@),
{
    let nonce = bytes_between(sealed, 0, 12);
    let msg = bytes_between(sealed, 12, sealed.len());
    proof {
        assert(sealed@.subrange(0, 12) =~= sealed@.take(12));
        assert(sealed@.subrange(12, sealed@.len() as int) =~= sealed@.skip(12));
    }
    let opened = match open_sealed(
        key.as_slice(),
        nonce.as_slice(),
        msg.as_slice(),
        aad.as_bytes(),
    ) {
        Ok(b) => b,
        Err(_) => {
            let none: Vec<u8> = Vec::new();
            proof {
                assert(none@ =~= Seq::empty());
            }
            match open_sealed(key.as_slice(), nonce.as_slice(), msg.as_slice(), none.as_slice()) {
                Ok(b) => b,
                Err(m) => {
                    return Err(
                        cat2("decrypt failed both with AAD and without AAD: ", m.as_str()),
                    );
                },
            }
        },
    };
    match utf8_text(opened) {
        Ok(s) => Ok(s),
        Err(m) => Err(cat2("decrypted secret is not valid UTF-8: ", m.as_str())),
    }
}

/// The encryption key has 32 bytes, where it can be read at all.
pub open spec fn usable_key(key_b64: Seq<char>) -> bool {
    base64_parse_of(key_b64) matches Ok(k) ==> k.len() == 32
}

/// Decrypt a secret key from `nonce || ciphertext` using the base64-encoded encryption key.
pub fn decrypt_secret(encrypted: &Vec<u8>, key_b64: &str, aad: &str) -> (r: Result<String, String>)
    requires
        encrypted@.len() >= 28 ==> usable_key(key_b64@),
    ensures
        result_view(r) == secret_of(encrypted@, base64_parse_of(key_b64@), aad@),
{
    if encrypted.len() < 28 {
        return Err(too_short(encrypted.len()));
    }
    match base64_parse(key_b64) {
        Err(m) => Err(cat2("decode encryption key: ", m.as_str())),
        Ok(key) => open_secret(encrypted, &key, aad),
    }
}

/// Decrypt a secret key, whatever the encryption key is: `None` where it has a wrong
/// length and would be needed.
pub fn try_decrypt_secret(encrypted: &Vec<u8>, key_b64: &str, aad: &str) -> (r: Option<
    Result<String, String>,
>)
    ensures
        match r {
            Some(s) => (encrypted@.len() >= 28 ==> usable_key(key_b64@)) && result_view(s)
                == secret_of(encrypted@, base64_parse_of(key_b64@), aad@),
            None => encrypted@.len() >= 28 && !usable_key(key_b64@),
        },
{
    if encrypted.len() >= 28 {
        match base64_parse(key_b64) {
            Ok(key) => {
                if key.len() != 32 {
                    return None;
                }
            },
            Err(_) => {},
        }
    }
    Some(decrypt_secret(encrypted, key_b64, aad))
}

/// The kinds of access keys, by what they start with.
#[derive(Clone, Copy, Debug, PartialEq, Eq, Structural)]
pub enum KeyKind {
    User,
    Session,
    Unknown,
}

/// The kind of an access key.
pub open spec fn kind_of(id: Seq<char>) -> KeyKind {
    if "AKIA"@.is_prefix_of(id) {
        KeyKind::User
    } else if "ASIA"@.is_prefix_of(id) {
        KeyKind::Session
    } else {
        KeyKind::Unknown
    }
}

/// Where a credential is looked up. An unknown kind has none.
pub fn lookup_credential(access_key_id: &str) -> (r: KeyKind)
    ensures
        r == kind_of(access_key_id@),
{
    if starts_with_text(access_key_id, "AKIA") {
        KeyKind::User
    } else if starts_with_text(access_key_id, "ASIA") {
        KeyKind::Session
    } else {
        KeyKind::Unknown
    }
}

/// The statement that reads an access key.
pub fn select_user_credential(catalog: &str, access_key_id: &str) -> (r: Statement)
    ensures
        r@ == stmt(
            "SELECT secret_key_encrypted, account_id, user_name, is_active FROM "@ + catalog@
                + ".access_keys WHERE access_key_id = ?"@,
            seq![CqlView::Text(access_key_id@)],
        ),
{
    stmt1(
        cat3(
            "SELECT secret_key_encrypted, account_id, user_name, is_active FROM ",
            catalog,
            ".access_keys WHERE access_key_id = ?",
        ),
        text_value(access_key_id),
    )
}

/// The statement that reads a session credential.
pub fn select_session_credential(catalog: &str, access_key_id: &str) -> (r: Statement)
    ensures
        r@ == stmt(
            "SELECT secret_key_encrypted, account_id, role_name, session_name, session_token, expires_at FROM "@
                + catalog@ + ".iam_sessions WHERE access_key_id = ? ALLOW FILTERING"@,
            seq![CqlView::Text(access_key_id@)],
        ),
{
    stmt1(
        cat3(
            "SELECT secret_key_encrypted, account_id, role_name, session_name, session_token, expires_at FROM ",
            catalog,
            ".iam_sessions WHERE access_key_id = ? ALLOW FILTERING",
        ),
        text_value(access_key_id),
    )
}

/// The error that every failure of a lookup is reported as.
pub open spec fn is_auth_failure(e: DynamoDbError) -> bool {
    e matches DynamoDbError::InternalServerError(m) && m@ == "Internal error during authentication"@
}

fn auth_failure() -> (e: DynamoDbError)
    ensures
        is_auth_failure(e),
{
    DynamoDbError::InternalServerError("Internal error during authentication".to_owned())
}

fn auth_column<T: FromCell>(row: &Row, column: &str) -> (r: Result<T, DynamoDbError>)
    ensures
        match r {
            Ok(v) => T::readable(row.cell(column@)) && v.held_by(row.cell(column@)),
            Err(e) => !T::readable(row.cell(column@)) && is_auth_failure(e),
        },
{
    match get_column::<T, DynamoDbError>(row, column) {
        Ok(v) => Ok(v),
        Err(_) => Err(auth_failure()),
    }
}

/// An access key as it is stored.
#[derive(Debug, PartialEq, Eq)]
pub struct UserKey {
    pub encrypted: Vec<u8>,
    pub account_id: String,
    pub user_name: String,
    pub is_active: bool,
}

/// The row holds the access key.
pub open spec fn holds_user_key(row: Row, k: UserKey) -> bool {
    &&& row.cell("secret_key_encrypted"@) matches Cell::Blob(b)
    &&& b@ == k.encrypted@
    &&& row.cell("account_id"@) == Cell::Text(k.account_id)
    &&& row.cell("user_name"@) == Cell::Text(k.user_name)
    &&& row.cell("is_active"@) == Cell::Boolean(k.is_active)
}

/// The row can be read as an access key.
pub open spec fn user_key_readable(row: Row) -> bool {
    row.cell("secret_key_encrypted"@) is Blob && row.cell("account_id"@) is Text && row.cell(
        "user_name"@,
    ) is Text && row.cell("is_active"@) is Boolean
}

/// The access key of the first row; `None` where there is none.
pub fn read_user_key(rows: &Vec<Row>) -> (r: Result<Option<UserKey>, DynamoDbError>)
    ensures
        match r {
            Ok(None) => rows@.len() == 0,
            Ok(Some(k)) => rows@.len() > 0 && user_key_readable(rows@[0]) && holds_user_key(
                rows@[0],
                k,
            ),
            Err(e) => rows@.len() > 0 && !user_key_readable(rows@[0]) && is_auth_failure(e),
        },
{
    if rows.len() == 0 {
        return Ok(None);
    }
    let row = &rows[0];
    let blob: BlobBytes = auth_column(row, "secret_key_encrypted")?;
    let account_id: String = auth_column(row, "account_id")?;
    let user_name: String = auth_column(row, "user_name")?;
    let is_active: bool = auth_column(row, "is_active")?;
    Ok(Some(UserKey { encrypted: blob.0, account_id, user_name, is_active }))
}

/// A session credential as it is stored; the expiry in whole seconds.
#[derive(Debug, PartialEq, Eq)]
pub struct SessionKey {
    pub encrypted: Vec<u8>,
    pub account_id: String,
    pub role_name: String,
    pub session_name: String,
    pub session_token: String,
    pub expires_at: i64,
}

/// The row holds the session credential.
pub open spec fn holds_session_key(row: Row, k: SessionKey) -> bool {
    &&& row.cell("secret_key_encrypted"@) matches Cell::Blob(b)
    &&& b@ == k.encrypted@
    &&& row.cell("account_id"@) == Cell::Text(k.account_id)
    &&& row.cell("role_name"@) == Cell::Text(k.role_name)
    &&& row.cell("session_name"@) == Cell::Text(k.session_name)
    &&& row.cell("session_token"@) == Cell::Text(k.session_token)
    &&& row.cell("expires_at"@) matches Cell::BigInt(ms)
    &&& k.expires_at == whole_seconds(ms)
}

/// The row can be read as a session credential.
pub open spec fn session_key_readable(row: Row) -> bool {
    &&& row.cell("secret_key_encrypted"@) is Blob
    &&& row.cell("account_id"@) is Text
    &&& row.cell("role_name"@) is Text
    &&& row.cell("session_name"@) is Text
    &&& row.cell("session_token"@) is Text
    &&& row.cell("expires_at"@) matches Cell::BigInt(ms)
    &&& datetime_in_range(whole_seconds(ms))
}

/// A session that ends at a second has expired at a time in nanoseconds.
pub open spec fn has_expired(expires_at: int, now_nanos: int) -> bool {
    expires_at * 1_000_000_000 < now_nanos
}

/// The error is that of an expired session.
pub open spec fn is_expired_token(e: DynamoDbError) -> bool {
    e matches DynamoDbError::ExpiredTokenException(m) && m@
        == "The security token included in the request is expired"@
}

/// The session credential of the first row; `None` where there is none. One that
/// has expired is an error, before its secret is opened.
pub fn read_session_key(rows: &Vec<Row>, now_nanos: i128) -> (r: Result<
    Option<SessionKey>,
    DynamoDbError,
>)
    ensures
        match r {
            Ok(None) => rows@.len() == 0,
            Ok(Some(k)) => rows@.len() > 0 && session_key_readable(rows@[0]) && holds_session_key(
                rows@[0],
                k,
            ) && !has_expired(k.expires_at as int, now_nanos as int),
            Err(e) => {
                &&& rows@.len() > 0
                &&& if session_key_readable(rows@[0]) {
                    is_expired_token(e) && (rows@[0].cell("expires_at"@) matches Cell::BigInt(ms)
                        && has_expired(whole_seconds(ms), now_nanos as int))
                } else {
                    is_auth_failure(e)
                }
            },
        },
{
    if rows.len() == 0 {
        return Ok(None);
    }
    let row = &rows[0];
    let blob: BlobBytes = auth_column(row, "secret_key_encrypted")?;
    let account_id: String = auth_column(row, "account_id")?;
    let role_name: String = auth_column(row, "role_name")?;
    let session_name: String = auth_column(row, "session_name")?;
    let session_token: String = auth_column(row, "session_token")?;
    let expires_at_ms: i64 = auth_column(row, "expires_at")?;
    let expires_at: i64 = match timestamp_to_datetime::<DynamoDbError>(expires_at_ms) {
        Ok(s) => s,
        Err(_) => {
            return Err(auth_failure());
        },
    };
    if (expires_at as i128) * 1_000_000_000 < now_nanos {
        return Err(
            DynamoDbError::ExpiredTokenException(
                "The security token included in the request is expired".to_owned(),
            ),
        );
    }
    Ok(
        Some(
            SessionKey {
                encrypted: blob.0,
                account_id,
                role_name,
                session_name,
                session_token,
                expires_at,
            },
        ),
    )
}

/// A credential by which a request can be authenticated; the expiry in seconds.
#[derive(Debug, PartialEq, Eq)]
pub struct StoredCredential {
    pub secret_key: String,
    pub account_id: String,
    pub principal_name: String,
    pub session_name: Option<String>,
    pub is_session: bool,
    pub session_token: Option<String>,
    pub is_active: bool,
    pub expires_at: Option<i64>,
}

/// The credential of an access key, with its opened secret. A secret that could not
/// be opened is an internal error.
pub fn lookup_user_credential(key: UserKey, secret: Result<String, String>) -> (r: Result<
    StoredCredential,
    DynamoDbError,
>)
    ensures
        match secret {
            Ok(s) => r == Ok::<StoredCredential, DynamoDbError>(
                (StoredCredential {
                    secret_key: s,
                    account_id: key.account_id,
                    principal_name: key.user_name,
                    session_name: None,
                    is_session: false,
                    session_token: None,
                    is_active: key.is_active,
                    expires_at: None,
                }),
            ),
            Err(_) => r matches Err(e) && is_auth_failure(e),
        },
{
    match secret {
        Ok(s) => Ok(
            StoredCredential {
                secret_key: s,
                account_id: key.account_id,
                principal_name: key.user_name,
                session_name: None,
                is_session: false,
                session_token: None,
                is_active: key.is_active,
                expires_at: None,
            },
        ),
        Err(_) => Err(auth_failure()),
    }
}

/// The credential of a session, with its opened secret. A secret that could not be
/// opened is an internal error.
pub fn lookup_session_credential(key: SessionKey, secret: Result<String, String>) -> (r: Result<
    StoredCredential,
    DynamoDbError,
>)
    ensures
        match secret {
            Ok(s) => r == Ok::<StoredCredential, DynamoDbError>(
                (StoredCredential {
                    secret_key: s,
                    account_id: key.account_id,
                    principal_name: key.role_name,
                    session_name: Some(key.session_name),
                    is_session: true,
                    session_token: Some(key.session_token),
                    is_active: true,
                    expires_at: Some(key.expires_at),
                }),
            ),
            Err(_) => r matches Err(e) && is_auth_failure(e),
        },
{
    match secret {
        Ok(s) => Ok(
            StoredCredential {
                secret_key: s,
                account_id: key.account_id,
                principal_name: key.role_name,
                session_name: Some(key.session_name),
                is_session: true,
                session_token: Some(key.session_token),
                is_active: true,
                expires_at: Some(key.expires_at),
            },
        ),
        Err(_) => Err(auth_failure()),
    }
}

/// The sealed secret that a row holds.
pub open spec fn sealed_of(row: Row) -> Seq<u8> {
    match row.cell("secret_key_encrypted"@) {
        Cell::Blob(b) => b@,
        _ => Seq::empty(),
    }
}

/// The row holds what the credential of an access key says besides its secret.
pub open spec fn is_user_credential(row: Row, c: StoredCredential) -> bool {
    &&& row.cell("account_id"@) == Cell::Text(c.account_id)
    &&& row.cell("user_name"@) == Cell::Text(c.principal_name)
    &&& row.cell("is_active"@) == Cell::Boolean(c.is_active)
    &&& c.session_name is None
    &&& !c.is_session
    &&& c.session_token is None
    &&& c.expires_at is None
}

/// The row holds what the credential of a session says besides its secret.
pub open spec fn is_session_credential(row: Row, c: StoredCredential) -> bool {
    &&& row.cell("account_id"@) == Cell::Text(c.account_id)
    &&& row.cell("role_name"@) == Cell::Text(c.principal_name)
    &&& c.session_name matches Some(n)
    &&& row.cell("session_name"@) == Cell::Text(n)
    &&& c.session_token matches Some(t)
    &&& row.cell("session_token"@) == Cell::Text(t)
    &&& c.is_session
    &&& c.is_active
    &&& row.cell("expires_at"@) matches Cell::BigInt(ms)
    &&& c.expires_at matches Some(e)
    &&& e == whole_seconds(ms)
}

/// The session of a row has expired at a time in nanoseconds.
pub open spec fn row_expired(row: Row, now_nanos: int) -> bool {
    row.cell("expires_at"@) matches Cell::BigInt(ms) && has_expired(whole_seconds(ms), now_nanos)
}

impl CassandraCredentialStore {
    /// The secret that a row holds, opened with the key of this store and the access
    /// key id as associated data, or why it cannot be.
    pub open spec fn secret_in(self, row: Row, access_key_id: Seq<char>) -> Result<
        Seq<char>,
        Seq<char>,
    > {
        secret_of(sealed_of(row), base64_parse_of(self.encryption_key@), access_key_id)
    }

    /// The key of this store has a wrong length, and the secret of the row needs it.
    pub open spec fn key_unfit(self, row: Row) -> bool {
        sealed_of(row).len() >= 28 && !usable_key(self.encryption_key@)
    }

    /// The credential of an access key, from the rows that were read for it; none
    /// without a row. The secret is opened with the key of this store and the access
    /// key id as associated data. A row that cannot be read and a secret that cannot
    /// be opened are internal errors. `None` where the key has a wrong length and
    /// would be needed.
    pub fn user_credential(&self, rows: &Vec<Row>, access_key_id: &str) -> (r: Option<
        Result<Option<StoredCredential>, DynamoDbError>,
    >)
        ensures
            match r {
                None => rows@.len() > 0 && user_key_readable(rows@[0]) && self.key_unfit(rows@[0]),
                Some(Ok(None)) => rows@.len() == 0,
                Some(Ok(Some(c))) => {
                    &&& rows@.len() > 0
                    &&& user_key_readable(rows@[0])
                    &&& !self.key_unfit(rows@[0])
                    &&& is_user_credential(rows@[0], c)
                    &&& self.secret_in(rows@[0], access_key_id@) == Ok::<Seq<char>, Seq<char>>(
                        c.secret_key@,
                    )
                },
                Some(Err(e)) => {
                    &&& rows@.len() > 0
                    &&& is_auth_failure(e)
                    &&& user_key_readable(rows@[0]) ==> !self.key_unfit(rows@[0])
                        && self.secret_in(rows@[0], access_key_id@) is Err
                },
            },
    {
        match read_user_key(rows) {
            Ok(None) => Some(Ok(None)),
            Ok(Some(key)) => {
                match try_decrypt_secret(
                    &key.encrypted,
                    self.encryption_key.as_str(),
                    access_key_id,
                ) {
                    None => None,
                    Some(secret) => Some(
                        match lookup_user_credential(key, secret) {
                            Ok(c) => Ok(Some(c)),
                            Err(e) => Err(e),
                        },
                    ),
                }
            },
            Err(e) => Some(Err(e)),
        }
    }

    /// The credential of a session, from the rows that were read for it; none without
    /// a row. An expired session is an error before its secret is opened, with the key
    /// of this store and the access key id as associated data. A row that cannot be
    /// read and a secret that cannot be opened are internal errors. `None` where the
    /// key has a wrong length and would be needed.
    pub fn session_credential(
        &self,
        rows: &Vec<Row>,
        access_key_id: &str,
        now_nanos: i128,
    ) -> (r: Option<Result<Option<StoredCredential>, DynamoDbError>>)
        ensures
            match r {
                None => rows@.len() > 0 && session_key_readable(rows@[0]) && !row_expired(
                    rows@[0],
                    now_nanos as int,
                ) && self.key_unfit(rows@[0]),
                Some(Ok(None)) => rows@.len() == 0,
                Some(Ok(Some(c))) => {
                    &&& rows@.len() > 0
                    &&& session_key_readable(rows@[0])
                    &&& !row_expired(rows@[0], now_nanos as int)
                    &&& !self.key_unfit(rows@[0])
                    &&& is_session_credential(rows@[0], c)
                    &&& self.secret_in(rows@[0], access_key_id@) == Ok::<Seq<char>, Seq<char>>(
                        c.secret_key@,
                    )
                },
                Some(Err(e)) => {
                    &&& rows@.len() > 0
                    &&& if !session_key_readable(rows@[0]) {
                        is_auth_failure(e)
                    } else if row_expired(rows@[0], now_nanos as int) {
                        is_expired_token(e)
                    } else {
                        is_auth_failure(e) && !self.key_unfit(rows@[0]) && self.secret_in(
                            rows@[0],
                            access_key_id@,
                        ) is Err
                    }
                },
            },
    {
        match read_session_key(rows, now_nanos) {
            Ok(None) => Some(Ok(None)),
            Ok(Some(key)) => {
                match try_decrypt_secret(
                    &key.encrypted,
                    self.encryption_key.as_str(),
                    access_key_id,
                ) {
                    None => None,
                    Some(secret) => Some(
                        match lookup_session_credential(key, secret) {
                            Ok(c) => Ok(Some(c)),
                            Err(e) => Err(e),
                        },
                    ),
                }
            },
            Err(e) => Some(Err(e)),
        }
    }
}

} // verus!
