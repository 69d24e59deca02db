//! Administrators of the server.
use vstd::prelude::*;
use crate::cassandra_util::{
    datetime_in_range, get_column, get_timestamp, whole_seconds, Cell, Row,
};
use crate::cql::{stmt, stmt0, stmt1, stmt2, text_value, CqlView, Statement};
use crate::error::{FromDbError, OpError};
use crate::sorting::{is_stable_sort, sort_by_name};
use crate::text::cat3;

verus! {

/// Whether `bcrypt` accepts a password for a hash.
pub uninterp spec fn bcrypt_accepts(password: Seq<char>, hash: Seq<char>) -> bool;

/// `bcrypt::verify`: whether the password belongs to the hash, which depends on the
/// two alone. A hash that cannot be read accepts none.
#[verifier::external_body]
fn bcrypt_verify(password: &str, hash: &str) -> (r: bool)
    ensures
        r == bcrypt_accepts(password@, hash@),
{
    bcrypt::verify(password, hash).unwrap_or(false)
}

/// The statement that looks an administrator up.
pub fn admin_exists(catalog: &str, admin_name: &str) -> (r: Statement)
    ensures
        r@ == stmt(
            "SELECT admin_name FROM "@ + catalog@ + ".admin_users WHERE admin_name = ?"@,
            seq![CqlView::Text(admin_name@)],
        ),
{
    stmt1(
        cat3("SELECT admin_name FROM ", catalog, ".admin_users WHERE admin_name = ?"),
        text_value(admin_name),
    )
}

/// The statement that creates an administrator, where there is none of that name.
pub fn create_admin(catalog: &str, admin_name: &str, password_hash: &str) -> (r: Statement)
    ensures
        r@ == stmt(
            "INSERT INTO "@ + catalog@
                + ".admin_users (admin_name, password_hash, created_at) VALUES (?, ?, toTimestamp(now())) IF NOT EXISTS"@,
            seq![CqlView::Text(admin_name@), CqlView::Text(password_hash@)],
        ),
{
    stmt2(
        cat3(
            "INSERT INTO ",
            catalog,
            ".admin_users (admin_name, password_hash, created_at) VALUES (?, ?, toTimestamp(now())) IF NOT EXISTS",
        ),
        text_value(admin_name),
        text_value(password_hash),
    )
}

/// The outcome of creating an administrator: a name that is taken is
/// `AlreadyExists`.
pub fn admin_created(rows: &Vec<Row>) -> (r: Result<(), OpError>)
    ensures
        if rows@.len() == 0 || rows@[0].cell("[applied]"@) == Cell::Boolean(true) {
            r is Ok
        } else if rows@[0].cell("[applied]"@) == Cell::Boolean(false) {
            r matches Err(OpError::AlreadyExists(m)) && m@ == "Admin user already exists"@
        } else {
            r matches Err(e) && e.carries("Database error"@)
        },
{
    if rows.len() == 0 {
        return Ok(());
    }
    let applied: bool = get_column(&rows[0], "[applied]")?;
    if applied {
        Ok(())
    } else {
        Err(OpError::AlreadyExists("Admin user already exists".to_owned()))
    }
}

/// The statement that lists the administrators.
pub fn select_admins(catalog: &str) -> (r: Statement)
    ensures
        r@ == stmt(
            "SELECT admin_name, created_at FROM "@ + catalog@ + ".admin_users"@,
            seq![],
        ),
{
    stmt0(cat3("SELECT admin_name, created_at FROM ", catalog, ".admin_users"))
}

/// The row can be read as an administrator.
pub open spec fn admin_readable(row: Row) -> bool {
    row.cell("admin_name"@) is Text && (row.cell("created_at"@) matches Cell::BigInt(ms)
        && datetime_in_range(whole_seconds(ms)))
}

/// The row holds the name and the creation time, in whole seconds.
pub open spec fn holds_admin(row: Row, e: (String, i64)) -> bool {
    row.cell("admin_name"@) == Cell::Text(e.0) && (row.cell("created_at"@) matches Cell::BigInt(ms)
        && e.1 == whole_seconds(ms))
}

/// The rows hold the administrators, in their order.
pub open spec fn hold_admins(rows: Seq<Row>, v: Seq<(String, i64)>) -> bool {
    v.len() == rows.len() && forall|i: int|
        #![trigger rows[i]]
        #![trigger v[i]]
        0 <= i < v.len() ==> admin_readable(rows[i]) && holds_admin(rows[i], v[i])
}

fn read_admins(rows: &Vec<Row>) -> (r: Result<Vec<(String, i64)>, OpError>)
    ensures
        match r {
            Ok(v) => hold_admins(rows@, v@),
            Err(e) => e.carries("Database error"@) && exists|i: int|
                0 <= i < rows@.len() && !admin_readable(#[trigger] rows@[i]),
        },
{
    let mut out: Vec<(String, i64)> = Vec::new();
    let mut i: usize = 0;
    while i < rows.len()
        invariant
            i <= rows@.len(),
            out@.len() == i,
            forall|k: int|
                #![trigger rows@[k]]
                #![trigger out@[k]]
                0 <= k < i ==> admin_readable(rows@[k]) && holds_admin(rows@[k], out@[k]),
        decreases rows@.len() - i,
    {
        let name: Result<String, OpError> = get_column(&rows[i], "admin_name");
        let created: Result<i64, OpError> = get_timestamp(&rows[i], "created_at");
        match (name, created) {
            (Ok(n), Ok(c)) => {
                out.push((n, c));
            },
            (Err(e), _) => {
                assert(!admin_readable(rows@[i as int]));
                return Err(e);
            },
            (_, Err(e)) => {
                assert(!admin_readable(rows@[i as int]));
                return Err(e);
            },
        }
        i = i + 1;
    }
    Ok(out)
}

/// The administrators with their creation times, in the order of their names.
pub fn list_admins(rows: &Vec<Row>) -> (r: Result<Vec<(String, i64)>, OpError>)
    ensures
        match r {
            Ok(v) => exists|read: Seq<(String, i64)>|
                #[trigger] hold_admins(rows@, read) && is_stable_sort(read, v@),
            Err(e) => e.carries("Database error"@) && exists|i: int|
                0 <= i < rows@.len() && !admin_readable(#[trigger] rows@[i]),
        },
{
    let admins = read_admins(rows)?;
    let ghost read = admins@;
    let sorted = sort_by_name(admins);
    proof {
        assert(hold_admins(rows@, read));
        assert(is_stable_sort(read, sorted@));
    }
    Ok(sorted)
}

/// An administrator must be known.
pub fn require_admin(found: bool) -> (r: Result<(), OpError>)
    ensures
        if found {
            r is Ok
        } else {
            r matches Err(OpError::NotFound(m)) && m@ == "Admin user not found"@
        },
{
    if found {
        Ok(())
    } else {
        Err(OpError::NotFound("Admin user not found".to_owned()))
    }
}

/// The statement that removes an administrator.
pub fn delete_admin(catalog: &str, admin_name: &str) -> (r: Statement)
    ensures
        r@ == stmt(
            "DELETE FROM "@ + catalog@ + ".admin_users WHERE admin_name = ?"@,
            seq![CqlView::Text(admin_name@)],
        ),
{
    stmt1(
        cat3("DELETE FROM ", catalog, ".admin_users WHERE admin_name = ?"),
        text_value(admin_name),
    )
}

/// The statement that changes the password of an administrator.
pub fn change_admin_password(catalog: &str, admin_name: &str, password_hash: &str) -> (r: Statement)
    ensures
        r@ == stmt(
            "UPDATE "@ + catalog@ + ".admin_users SET password_hash = ? WHERE admin_name = ?"@,
            seq![CqlView::Text(password_hash@), CqlView::Text(admin_name@)],
        ),
{
    stmt2(
        cat3("UPDATE ", catalog, ".admin_users SET password_hash = ? WHERE admin_name = ?"),
        text_value(password_hash),
        text_value(admin_name),
    )
}

/// The statement that reads the password hash of an administrator.
pub fn select_password_hash(catalog: &str, admin_name: &str) -> (r: Statement)
    ensures
        r@ == stmt(
            "SELECT password_hash FROM "@ + catalog@ + ".admin_users WHERE admin_name = ?"@,
            seq![CqlView::Text(admin_name@)],
        ),
{
    stmt1(
        cat3("SELECT password_hash FROM ", catalog, ".admin_users WHERE admin_name = ?"),
        text_value(admin_name),
    )
}

/// Verify a bcrypt password.
pub fn verify_bcrypt(password: &str, hash: &str) -> (r: bool)
    ensures
        r == bcrypt_accepts(password@, hash@),
{
    bcrypt_verify(password, hash)
}

/// The stored password hash; `None` where there is no such administrator.
pub fn stored_hash(row: Option<&Row>) -> (r: Result<Option<String>, OpError>)
    ensures
        match row {
            None => r == Ok::<Option<String>, OpError>(None),
            Some(row) => match row.cell("password_hash"@) {
                Cell::Text(h) => r == Ok::<Option<String>, OpError>(Some(h)),
                _ => r matches Err(e) && e.carries("Database error"@),
            },
        },
{
    match row {
        None => Ok(None),
        Some(row) => {
            let hash: String = get_column(row, "password_hash")?;
            Ok(Some(hash))
        },
    }
}

/// Whether the password is that of the administrator; `None` where there is no such
/// administrator.
pub fn verify_admin_password(row: Option<&Row>, password: &str) -> (r: Result<
    Option<bool>,
    OpError,
>)
    ensures
        match row {
            None => r == Ok::<Option<bool>, OpError>(None),
            Some(row) => match row.cell("password_hash"@) {
                Cell::Text(h) => r == Ok::<Option<bool>, OpError>(
                    Some(bcrypt_accepts(password@, h@)),
                ),
                _ => r matches Err(e) && e.carries("Database error"@),
            },
        },
{
    match stored_hash(row)? {
        None => Ok(None),
        Some(hash) => Ok(Some(verify_bcrypt(password, hash.as_str()))),
    }
}

} // verus!
