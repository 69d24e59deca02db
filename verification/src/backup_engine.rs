//! Backups as logical snapshots: immutable item JSON is stored in bounded
//! partitions in the owning account keyspace, while metadata and list access paths
//! are stored in the catalog keyspace.
use rand::Rng;
use vstd::prelude::*;
use crate::cassandra_util::{
    applied_column, elapsed_since_epoch, get_optional, max_duration_millis, millis_since,
    parse_column, read_error, Cell, FromCell, Row,
};
use crate::cql::{
    push_statement, push_value, statements_view, stmt, stmt1, stmt2, stmt3, stmt4, stmt5,
    text_value, values_view, CqlValue, CqlView, Statement, StatementView,
};
use crate::error::{internal, is_internal, is_validation, validation, StorageError};
use crate::model::{clone_schema, AttributeDefinition, KeySchemaElement, TableKeyInfo};
use crate::text::{
    cat2, cat3, cat4, cat7, hex8, hex8_text, i64_text, int_text, nat_text, str_eq, u128_text,
};

verus! {

/// Maximum number of item payloads stored in one Cassandra partition.
///
/// DynamoDB items are at most 400 KiB, so 64 items bound a partition to roughly
/// 25 MiB before Cassandra overhead.
pub const BACKUP_ITEMS_PER_BUCKET: i64 = 64;

/// How many items one page of a backup reads.
pub const BACKUP_SCAN_PAGE_SIZE: i64 = 1_000;

/// Current epoch milliseconds, used in backup identifiers and timestamps: 0 where the
/// clock lies before the epoch.
pub fn epoch_millis() -> (r: u128)
    ensures
        r <= max_duration_millis(),
{
    millis_since(elapsed_since_epoch())
}

/// `rand::Rng::random` for a `u32`: any number, left to chance.
#[verifier::external_body]
fn random_u32() -> (r: u32) {
    rand::rng().random::<u32>()
}

/// The identifier of a backup that was made at a time, with a suffix.
pub open spec fn backup_id_of(millis: nat, suffix: nat) -> Seq<char> {
    nat_text(millis) + "-"@ + hex8_text(suffix)
}

/// The identifier of a backup.
pub fn backup_id_text(millis: u128, suffix: u32) -> (r: String)
    ensures
        r@ == backup_id_of(millis as nat, suffix as nat),
{
    let m = u128_text(millis);
    let h = hex8(suffix);
    cat3(m.as_str(), "-", h.as_str())
}

/// Build the trailing `backup/<id>` component of a backup ARN: the time, and a
/// random suffix of eight digits.
pub fn backup_id() -> (r: String)
    ensures
        exists|millis: nat, suffix: nat|
            millis <= max_duration_millis() && suffix <= u32::MAX && r@
                == #[trigger] backup_id_of(millis, suffix),
{
    let millis = epoch_millis();
    let suffix = random_u32();
    let r = backup_id_text(millis, suffix);
    proof {
        assert(r@ == backup_id_of(millis as nat, suffix as nat));
    }
    r
}

/// How many partitions a number of items takes.
pub open spec fn buckets_for(item_count: int) -> int {
    if item_count <= 0 {
        0
    } else {
        (item_count + 63) / 64
    }
}

/// How many partitions a number of items takes.
pub fn bucket_count(item_count: i64) -> (r: i64)
    requires
        item_count <= i64::MAX - 64,
    ensures
        r == buckets_for(item_count as int),
        r >= 0,
{
    if item_count <= 0 {
        0
    } else {
        (item_count + BACKUP_ITEMS_PER_BUCKET - 1) / BACKUP_ITEMS_PER_BUCKET
    }
}

/// The partition of the item at position `index` of a backup.
pub open spec fn bucket_of(index: int) -> int {
    index / 64
}

/// A backup of `n` items writes each of them into one of the partitions that a
/// restore or a deletion visits, every partition that is visited holds an item, and
/// two items share one only where they lie less than 64 positions apart: no
/// partition holds more than 64.
pub proof fn law_buckets_hold_the_backup(n: int, i: int, j: int, b: int)
    requires
        0 <= i < n,
        0 <= j < n,
        0 <= b < buckets_for(n),
    ensures
        0 <= bucket_of(i) < buckets_for(n),
        0 <= b * 64 < n && bucket_of(b * 64) == b,
        bucket_of(i) == b <==> b * 64 <= i < b * 64 + 64,
        bucket_of(i) == bucket_of(j) ==> i - j < 64,
{
}

/// A backup as the catalog holds it.
#[derive(Debug, PartialEq, Eq)]
pub struct StoredBackup {
    pub backup_arn: String,
    pub account_id: String,
    pub backup_name: String,
    pub table_id: String,
    pub table_name: String,
    pub table_arn: String,
    pub backup_status: String,
    pub backup_type: String,
    pub backup_size_bytes: i64,
    pub item_count: i64,
    pub key_schema: String,
    pub attribute_definitions: String,
    pub billing_mode: String,
    pub provisioned_throughput: Option<String>,
    pub stream_specification: Option<String>,
    pub table_created_at: i64,
    pub created_at: i64,
}

/// What a request learns of a backup; the creation time is in milliseconds.
#[derive(Debug, PartialEq, Eq)]
pub struct BackupDetails {
    pub backup_arn: String,
    pub backup_name: String,
    pub backup_status: String,
    pub backup_type: String,
    pub backup_size_bytes: i64,
    pub created_at_millis: i64,
}

/// A backup in a list; the creation time is in milliseconds.
#[derive(Debug, PartialEq, Eq)]
pub struct BackupSummary {
    pub backup_arn: String,
    pub backup_name: String,
    pub table_name: String,
    pub table_arn: String,
    pub backup_status: String,
    pub backup_type: String,
    pub backup_size_bytes: i64,
    pub created_at_millis: i64,
}

/// The table that a backup was made of; the key schema is its JSON text, the
/// creation time is in milliseconds.
#[derive(Debug, PartialEq, Eq)]
pub struct SourceTableDetails {
    pub table_name: String,
    pub table_id: String,
    pub table_arn: String,
    pub key_schema: String,
    pub item_count: i64,
    pub table_size_bytes: i64,
    pub billing_mode: Option<String>,
    pub table_created_at_millis: i64,
}

/// The full description of a backup.
#[derive(Debug, PartialEq, Eq)]
pub struct BackupDescription {
    pub backup_details: BackupDetails,
    pub source_table_details: SourceTableDetails,
}

/// The text columns that a backup row must have, in the order in which they are read.
pub open spec fn required_texts() -> Seq<Seq<char>> {
    seq![
        "backup_arn"@,
        "account_id"@,
        "backup_name"@,
        "table_id"@,
        "table_name"@,
        "table_arn"@,
        "backup_status"@,
        "backup_type"@,
        "key_schema"@,
        "attribute_definitions"@,
        "billing_mode"@,
    ]
}

/// The number of a column, zero where it has none.
pub open spec fn bigint_or_zero(cell: Cell) -> i64 {
    match cell {
        Cell::BigInt(i) => i,
        _ => 0,
    }
}

/// The text of a column, where it has one.
pub open spec fn text_option(cell: Cell) -> Option<String> {
    match cell {
        Cell::Text(s) => Some(s),
        _ => None,
    }
}

/// The row holds the backup.
pub open spec fn holds_backup(row: Row, b: StoredBackup) -> bool {
    &&& row.cell("backup_arn"@) == Cell::Text(b.backup_arn)
    &&& row.cell("account_id"@) == Cell::Text(b.account_id)
    &&& row.cell("backup_name"@) == Cell::Text(b.backup_name)
    &&& row.cell("table_id"@) == Cell::Text(b.table_id)
    &&& row.cell("table_name"@) == Cell::Text(b.table_name)
    &&& row.cell("table_arn"@) == Cell::Text(b.table_arn)
    &&& row.cell("backup_status"@) == Cell::Text(b.backup_status)
    &&& row.cell("backup_type"@) == Cell::Text(b.backup_type)
    &&& b.backup_size_bytes == bigint_or_zero(row.cell("backup_size_bytes"@))
    &&& b.item_count == bigint_or_zero(row.cell("item_count"@))
    &&& row.cell("key_schema"@) == Cell::Text(b.key_schema)
    &&& row.cell("attribute_definitions"@) == Cell::Text(b.attribute_definitions)
    &&& row.cell("billing_mode"@) == Cell::Text(b.billing_mode)
    &&& b.provisioned_throughput == text_option(row.cell("provisioned_throughput"@))
    &&& b.stream_specification == text_option(row.cell("stream_specification"@))
    &&& row.cell("table_created_at"@) == Cell::BigInt(b.table_created_at)
    &&& row.cell("created_at"@) == Cell::BigInt(b.created_at)
}

/// The error that a column of a row gives.
pub open spec fn column_error<T: FromCell>(row: Row, column: Seq<char>) -> Seq<char> {
    "Parse "@ + column + ": "@ + read_error::<T>(row, column)
}

/// All required text columns before position `k` can be read.
pub open spec fn texts_read(row: Row, k: int) -> bool {
    forall|i: int| 0 <= i < k ==> row.cell(#[trigger] required_texts()[i]) is Text
}

/// The error is that of the first column that cannot be read.
pub open spec fn backup_row_error(row: Row, e: StorageError) -> bool {
    ||| exists|k: int|
        0 <= k < required_texts().len() && texts_read(row, k) && !(row.cell(
            #[trigger] required_texts()[k],
        ) is Text) && is_internal(e, column_error::<String>(row, required_texts()[k]))
    ||| texts_read(row, required_texts().len() as int) && !(row.cell("table_created_at"@) is BigInt)
        && is_internal(e, column_error::<i64>(row, "table_created_at"@))
    ||| texts_read(row, required_texts().len() as int) && row.cell("table_created_at"@) is BigInt
        && !(row.cell("created_at"@) is BigInt) && is_internal(e, column_error::<i64>(row, "created_at"@))
}

/// The row can be read as a backup.
pub open spec fn backup_readable(row: Row) -> bool {
    texts_read(row, required_texts().len() as int) && row.cell("table_created_at"@) is BigInt
        && row.cell("created_at"@) is BigInt
}

fn read_text(row: &Row, column: &str) -> (r: Result<String, StorageError>)
    ensures
        match r {
            Ok(s) => row.cell(column@) == Cell::Text(s),
            Err(e) => !(row.cell(column@) is Text) && is_internal(
                e,
                column_error::<String>(*row, column@),
            ),
        },
{
    let context = cat2("Parse ", column);
    parse_column(row, column, context.as_str())
}

fn read_bigint(row: &Row, column: &str) -> (r: Result<i64, StorageError>)
    ensures
        match r {
            Ok(i) => row.cell(column@) == Cell::BigInt(i),
            Err(e) => !(row.cell(column@) is BigInt) && is_internal(
                e,
                column_error::<i64>(*row, column@),
            ),
        },
{
    let context = cat2("Parse ", column);
    parse_column(row, column, context.as_str())
}

fn bigint_default(row: &Row, column: &str) -> (r: i64)
    ensures
        r == bigint_or_zero(row.cell(column@)),
{
    match get_optional::<i64>(row, column) {
        Some(i) => i,
        None => 0,
    }
}

fn read_texts(row: &Row) -> (r: Result<Vec<String>, StorageError>)
    ensures
        match r {
            Ok(v) => {
                &&& v@.len() == required_texts().len()
                &&& texts_read(*row, required_texts().len() as int)
                &&& forall|i: int|
                    #![trigger v@[i]]
                    0 <= i < v@.len() ==> row.cell(required_texts()[i]) == Cell::Text(v@[i])
            },
            Err(e) => !texts_read(*row, required_texts().len() as int) && backup_row_error(*row, e),
        },
{
    let mut out: Vec<String> = Vec::new();
    let mut i: usize = 0;
    while i < 11
        invariant
            i <= 11,
            out@.len() == i,
            texts_read(*row, i as int),
            forall|k: int|
                #![trigger out@[k]]
                0 <= k < i ==> row.cell(required_texts()[k]) == Cell::Text(out@[k]),
        decreases 11 - i,
    {
        let column = match i {
            0 => "backup_arn",
            1 => "account_id",
            2 => "backup_name",
            3 => "table_id",
            4 => "table_name",
            5 => "table_arn",
            6 => "backup_status",
            7 => "backup_type",
            8 => "key_schema",
            9 => "attribute_definitions",
            _ => "billing_mode",
        };
        assert(column@ == required_texts()[i as int]);
        match read_text(row, column) {
            Ok(s) => {
                out.push(s);
            },
            Err(e) => {
                assert(!(row.cell(required_texts()[i as int]) is Text));
                return Err(e);
            },
        }
        i = i + 1;
    }
    Ok(out)
}

impl StoredBackup {
    /// Read a backup from its row. The first column that cannot be read gives the
    /// error.
    pub fn from_row(row: &Row) -> (r: Result<StoredBackup, StorageError>)
        ensures
            match r {
                Ok(b) => backup_readable(*row) && holds_backup(*row, b),
                Err(e) => !backup_readable(*row) && backup_row_error(*row, e),
            },
    {
        let mut texts = read_texts(row)?;
        let ghost all = texts@;
        let table_created_at = read_bigint(row, "table_created_at")?;
        let created_at = read_bigint(row, "created_at")?;
        proof {
            assert(all[0] == texts@[0]);
            assert(all[1] == texts@[1]);
            assert(all[2] == texts@[2]);
            assert(all[3] == texts@[3]);
            assert(all[4] == texts@[4]);
            assert(all[5] == texts@[5]);
            assert(all[6] == texts@[6]);
            assert(all[7] == texts@[7]);
            assert(all[8] == texts@[8]);
            assert(all[9] == texts@[9]);
            assert(all[10] == texts@[10]);
        }
        let billing_mode = texts.remove(10);
        let attribute_definitions = texts.remove(9);
        let key_schema = texts.remove(8);
        let backup_type = texts.remove(7);
        let backup_status = texts.remove(6);
        let table_arn = texts.remove(5);
        let table_name = texts.remove(4);
        let table_id = texts.remove(3);
        let backup_name = texts.remove(2);
        let account_id = texts.remove(1);
        let backup_arn = texts.remove(0);
        let provisioned_throughput: Option<String> = get_optional(row, "provisioned_throughput");
        let stream_specification: Option<String> = get_optional(row, "stream_specification");
        Ok(
            StoredBackup {
                backup_arn,
                account_id,
                backup_name,
                table_id,
                table_name,
                table_arn,
                backup_status,
                backup_type,
                backup_size_bytes: bigint_default(row, "backup_size_bytes"),
                item_count: bigint_default(row, "item_count"),
                key_schema,
                attribute_definitions,
                billing_mode,
                provisioned_throughput,
                stream_specification,
                table_created_at,
                created_at,
            },
        )
    }

    /// What a request learns of the backup.
    pub fn details(&self) -> (r: BackupDetails)
        ensures
            r == details_of(*self),
    {
        BackupDetails {
            backup_arn: self.backup_arn.clone(),
            backup_name: self.backup_name.clone(),
            backup_status: self.backup_status.clone(),
            backup_type: self.backup_type.clone(),
            backup_size_bytes: self.backup_size_bytes,
            created_at_millis: self.created_at,
        }
    }

    /// The backup in a list.
    pub fn summary(&self) -> (r: BackupSummary)
        ensures
            r == summary_of(*self),
    {
        BackupSummary {
            backup_arn: self.backup_arn.clone(),
            backup_name: self.backup_name.clone(),
            table_name: self.table_name.clone(),
            table_arn: self.table_arn.clone(),
            backup_status: self.backup_status.clone(),
            backup_type: self.backup_type.clone(),
            backup_size_bytes: self.backup_size_bytes,
            created_at_millis: self.created_at,
        }
    }

    /// The full description of the backup.
    pub fn description(&self) -> (r: BackupDescription)
        ensures
            r == description_of(*self),
    {
        BackupDescription {
            backup_details: self.details(),
            source_table_details: SourceTableDetails {
                table_name: self.table_name.clone(),
                table_id: self.table_id.clone(),
                table_arn: self.table_arn.clone(),
                key_schema: self.key_schema.clone(),
                item_count: self.item_count,
                table_size_bytes: self.backup_size_bytes,
                billing_mode: Some(self.billing_mode.clone()),
                table_created_at_millis: self.table_created_at,
            },
        }
    }
}

/// What a request learns of a backup.
pub open spec fn details_of(b: StoredBackup) -> BackupDetails {
    BackupDetails {
        backup_arn: b.backup_arn,
        backup_name: b.backup_name,
        backup_status: b.backup_status,
        backup_type: b.backup_type,
        backup_size_bytes: b.backup_size_bytes,
        created_at_millis: b.created_at,
    }
}

/// A backup in a list.
pub open spec fn summary_of(b: StoredBackup) -> BackupSummary {
    BackupSummary {
        backup_arn: b.backup_arn,
        backup_name: b.backup_name,
        table_name: b.table_name,
        table_arn: b.table_arn,
        backup_status: b.backup_status,
        backup_type: b.backup_type,
        backup_size_bytes: b.backup_size_bytes,
        created_at_millis: b.created_at,
    }
}

/// The full description of a backup.
pub open spec fn description_of(b: StoredBackup) -> BackupDescription {
    BackupDescription {
        backup_details: details_of(b),
        source_table_details: SourceTableDetails {
            table_name: b.table_name,
            table_id: b.table_id,
            table_arn: b.table_arn,
            key_schema: b.key_schema,
            item_count: b.item_count,
            table_size_bytes: b.backup_size_bytes,
            billing_mode: Some(b.billing_mode),
            table_created_at_millis: b.table_created_at,
        },
    }
}

/// The statement that reads a backup.
pub fn select_backup(catalog: &str, account_id: &str, backup_arn: &str) -> (r: Statement)
    ensures
        r@ == stmt(
            "SELECT * FROM "@ + catalog@
                + ".backups_by_arn WHERE account_id = ? AND backup_arn = ?"@,
            seq![CqlView::Text(account_id@), CqlView::Text(backup_arn@)],
        ),
{
    stmt2(
        cat3(
            "SELECT * FROM ",
            catalog,
            ".backups_by_arn WHERE account_id = ? AND backup_arn = ?",
        ),
        text_value(account_id),
        text_value(backup_arn),
    )
}

/// The error is that of an unknown backup.
pub open spec fn is_backup_not_found(e: StorageError, backup_arn: Seq<char>) -> bool {
    is_validation(e, "Backup not found: "@ + backup_arn)
}

fn backup_not_found(backup_arn: &str) -> (e: StorageError)
    ensures
        is_backup_not_found(e, backup_arn@),
{
    StorageError::Validation(cat2("Backup not found: ", backup_arn))
}

/// The first row is a backup of the account.
pub open spec fn owned_backup(rows: Seq<Row>, account_id: Seq<char>) -> bool {
    rows.len() > 0 && (rows[0].cell("account_id"@) matches Cell::Text(a) && a@ == account_id)
}

/// The backup that the rows hold. One that is missing or belongs to another
/// account is not found.
pub fn load_backup(rows: &Vec<Row>, account_id: &str, backup_arn: &str) -> (r: Result<
    StoredBackup,
    StorageError,
>)
    ensures
        match r {
            Ok(b) => owned_backup(rows@, account_id@) && backup_readable(rows@[0])
                && holds_backup(rows@[0], b),
            Err(e) => if rows@.len() > 0 && !backup_readable(rows@[0]) {
                backup_row_error(rows@[0], e)
            } else {
                !owned_backup(rows@, account_id@) && is_backup_not_found(e, backup_arn@)
            },
        },
{
    if rows.len() == 0 {
        return Err(backup_not_found(backup_arn));
    }
    let backup = StoredBackup::from_row(&rows[0])?;
    if str_eq(backup.account_id.as_str(), account_id) {
        Ok(backup)
    } else {
        Err(backup_not_found(backup_arn))
    }
}

/// The row is an available backup.
pub open spec fn is_available(row: Row) -> bool {
    row.cell("backup_status"@) matches Cell::Text(s) && s@ == "AVAILABLE"@
}

/// The backup that the rows hold, where it is available. One that is being created
/// or deleted is not found.
pub fn load_available_backup(rows: &Vec<Row>, account_id: &str, backup_arn: &str) -> (r: Result<
    StoredBackup,
    StorageError,
>)
    ensures
        match r {
            Ok(b) => owned_backup(rows@, account_id@) && backup_readable(rows@[0])
                && holds_backup(rows@[0], b) && is_available(rows@[0]),
            Err(e) => if rows@.len() > 0 && !backup_readable(rows@[0]) {
                backup_row_error(rows@[0], e)
            } else {
                !(owned_backup(rows@, account_id@) && is_available(rows@[0]))
                    && is_backup_not_found(e, backup_arn@)
            },
        },
{
    let backup = load_backup(rows, account_id, backup_arn)?;
    if str_eq(backup.backup_status.as_str(), "AVAILABLE") {
        Ok(backup)
    } else {
        Err(backup_not_found(backup_arn))
    }
}

/// The statement that removes one partition of a backup's items.
pub open spec fn clean_bucket_stmt(
    account_keyspace: Seq<char>,
    backup_arn: Seq<char>,
    bucket: int,
) -> StatementView {
    stmt(
        "DELETE FROM "@ + account_keyspace
            + ".backup_items WHERE backup_arn = ? AND bucket = ?"@,
        seq![CqlView::Text(backup_arn), CqlView::Int(bucket as i32)],
    )
}

/// The statements that remove the items of a backup, one for each partition.
pub fn cleanup_backup_payload(account_keyspace: &str, backup_arn: &str, item_count: i64) -> (r: Vec<
    Statement,
>)
    requires
        item_count <= i64::MAX - 64,
    ensures
        statements_view(r@) == Seq::new(
            buckets_for(item_count as int) as nat,
            |b: int| clean_bucket_stmt(account_keyspace@, backup_arn@, b),
        ),
{
    let n = bucket_count(item_count);
    let mut out: Vec<Statement> = Vec::new();
    let mut b: i64 = 0;
    let ghost f = |b: int| clean_bucket_stmt(account_keyspace@, backup_arn@, b);
    proof {
        assert(statements_view(out@) =~= Seq::new(0, f));
    }
    while b < n
        invariant
            0 <= b <= n,
            f == (|b: int| clean_bucket_stmt(account_keyspace@, backup_arn@, b)),
            statements_view(out@) == Seq::new(b as nat, f),
        decreases n - b,
    {
        push_statement(
            &mut out,
            stmt2(
                cat3(
                    "DELETE FROM ",
                    account_keyspace,
                    ".backup_items WHERE backup_arn = ? AND bucket = ?",
                ),
                text_value(backup_arn),
                CqlValue::Int(
                    #[verifier::truncate]
                    (b as i32),
                ),
            ),
        );
        proof {
            assert(statements_view(out@) =~= Seq::new((b + 1) as nat, f));
        }
        b = b + 1;
    }
    out
}

/// The statements that remove a backup from the lists.
pub open spec fn index_row_stmts(catalog: Seq<char>, b: StoredBackup) -> Seq<StatementView> {
    seq![
        stmt(
            "DELETE FROM "@ + catalog
                + ".backups_by_account WHERE account_id = ? AND created_at = ? AND backup_arn = ?"@,
            seq![
                CqlView::Text(b.account_id@),
                CqlView::BigInt(b.created_at),
                CqlView::Text(b.backup_arn@),
            ],
        ),
        stmt(
            "DELETE FROM "@ + catalog
                + ".backups_by_table WHERE account_id = ? AND table_name = ? AND created_at = ? AND backup_arn = ?"@,
            seq![
                CqlView::Text(b.account_id@),
                CqlView::Text(b.table_name@),
                CqlView::BigInt(b.created_at),
                CqlView::Text(b.backup_arn@),
            ],
        ),
    ]
}

/// The statements that remove a backup from the lists.
pub fn remove_backup_index_rows(catalog: &str, backup: &StoredBackup) -> (r: Vec<Statement>)
    ensures
        statements_view(r@) == index_row_stmts(catalog@, *backup),
{
    let by_account = stmt3(
        cat3(
            "DELETE FROM ",
            catalog,
            ".backups_by_account WHERE account_id = ? AND created_at = ? AND backup_arn = ?",
        ),
        text_value(backup.account_id.as_str()),
        CqlValue::BigInt(backup.created_at),
        text_value(backup.backup_arn.as_str()),
    );
    let by_table = stmt4(
        cat3(
            "DELETE FROM ",
            catalog,
            ".backups_by_table WHERE account_id = ? AND table_name = ? AND created_at = ? AND backup_arn = ?",
        ),
        text_value(backup.account_id.as_str()),
        text_value(backup.table_name.as_str()),
        CqlValue::BigInt(backup.created_at),
        text_value(backup.backup_arn.as_str()),
    );
    let r = vec![by_account, by_table];
    proof {
        assert(statements_view(r@) =~= index_row_stmts(catalog@, *backup));
    }
    r
}

/// The statement that activates a restored table, where it is still the one that is
/// being created.
pub fn mark_table_active_after_restore(
    catalog: &str,
    account_id: &str,
    table_name: &str,
    table_id: &str,
    item_count: i64,
    table_size_bytes: i64,
) -> (r: Statement)
    ensures
        r@ == stmt(
            "UPDATE "@ + catalog@
                + ".tables SET table_status = 'ACTIVE', status_transition_at = NULL, item_count = ?, table_size_bytes = ? WHERE account_id = ? AND table_name = ? IF table_id = ? AND table_status = 'CREATING'"@,
            seq![
                CqlView::BigInt(item_count),
                CqlView::BigInt(table_size_bytes),
                CqlView::Text(account_id@),
                CqlView::Text(table_name@),
                CqlView::Text(table_id@),
            ],
        ),
{
    stmt5(
        cat3(
            "UPDATE ",
            catalog,
            ".tables SET table_status = 'ACTIVE', status_transition_at = NULL, item_count = ?, table_size_bytes = ? WHERE account_id = ? AND table_name = ? IF table_id = ? AND table_status = 'CREATING'",
        ),
        CqlValue::BigInt(item_count),
        CqlValue::BigInt(table_size_bytes),
        text_value(account_id),
        text_value(table_name),
        text_value(table_id),
    )
}

/// The outcome of activating a restored table.
pub fn restore_activated(rows: &Vec<Row>) -> (r: Result<(), StorageError>)
    ensures
        if rows@.len() == 0 || rows@[0].cell("[applied]"@) == Cell::Boolean(true) {
            r is Ok
        } else if rows@[0].cell("[applied]"@) == Cell::Boolean(false) {
            r matches Err(e) && is_internal(e, "Restore target changed before activation"@)
        } else {
            r matches Err(e) && is_internal(
                e,
                "Parse restore activation result: "@ + read_error::<bool>(
                    rows@[0],
                    "[applied]"@,
                ),
            )
        },
{
    if rows.len() == 0 {
        return Ok(());
    }
    match applied_column(&rows[0]) {
        Ok(b) => if b {
            Ok(())
        } else {
            Err(internal("Restore target changed before activation"))
        },
        Err(m) => Err(
            StorageError::Internal(cat2("Parse restore activation result: ", m.as_str())),
        ),
    }
}

/// The statement that looks a table up for its backups.
pub fn table_exists_for_backup(catalog: &str, account_id: &str, table_name: &str) -> (r: Statement)
    ensures
        r@ == stmt(
            "SELECT table_name FROM "@ + catalog@
                + ".tables WHERE account_id = ? AND table_name = ?"@,
            seq![CqlView::Text(account_id@), CqlView::Text(table_name@)],
        ),
{
    stmt2(
        cat3(
            "SELECT table_name FROM ",
            catalog,
            ".tables WHERE account_id = ? AND table_name = ?",
        ),
        text_value(account_id),
        text_value(table_name),
    )
}

/// A table without a row is not found.
pub fn require_table(rows: &Vec<Row>, table_name: &str) -> (r: Result<(), StorageError>)
    ensures
        if rows@.len() > 0 {
            r is Ok
        } else {
            r matches Err(StorageError::TableNotFound(m)) && m@ == "Table not found: "@ + table_name@
        },
{
    if rows.len() > 0 {
        Ok(())
    } else {
        Err(StorageError::TableNotFound(cat2("Table not found: ", table_name)))
    }
}

/// The name of a new backup.
pub fn backup_arn(region: &str, account_id: &str, table_name: &str, id: &str) -> (r: String)
    ensures
        r@ == "arn:aws:dynamodb:"@ + region@ + ":"@ + account_id@ + ":table/"@ + table_name@
            + "/backup/"@ + id@,
{
    let head = cat7("arn:aws:dynamodb:", region, ":", account_id, ":table/", table_name, "/backup/");
    cat2(head.as_str(), id)
}

/// The billing mode that a backup records.
pub fn recorded_billing_mode(has_billing_summary: bool) -> (r: &'static str)
    ensures
        r@ == (if has_billing_summary {
            "PAY_PER_REQUEST"@
        } else {
            "PROVISIONED"@
        }),
{
    if has_billing_summary {
        "PAY_PER_REQUEST"
    } else {
        "PROVISIONED"
    }
}

/// What a new backup records of its table: texts as they are stored.
#[derive(Debug, PartialEq, Eq)]
pub struct NewBackup {
    pub backup_arn: String,
    pub account_id: String,
    pub backup_name: String,
    pub table_id: String,
    pub table_name: String,
    pub table_arn: String,
    pub table_size_bytes: i64,
    pub key_schema: String,
    pub attribute_definitions: String,
    pub billing_mode: String,
    pub provisioned_throughput: String,
    pub stream_specification: Option<String>,
    pub table_created_at: i64,
    pub created_at: i64,
}

/// A text that may be null.
pub open spec fn nullable_text(t: Option<String>) -> CqlView {
    match t {
        Some(s) => CqlView::Text(s@),
        None => CqlView::Null,
    }
}

/// The statement that records a backup that is being created.
pub open spec fn insert_backup_stmt(catalog: Seq<char>, b: NewBackup) -> StatementView {
    stmt(
        "INSERT INTO "@ + catalog
            + ".backups_by_arn (backup_arn, account_id, backup_name, table_id, table_name, table_arn, backup_status, backup_type, backup_size_bytes, item_count, key_schema, attribute_definitions, billing_mode, provisioned_throughput, stream_specification, table_created_at, created_at) VALUES (?, ?, ?, ?, ?, ?, 'CREATING', 'USER', ?, 0, ?, ?, ?, ?, ?, ?, ?) IF NOT EXISTS"@,
        seq![
            CqlView::Text(b.backup_arn@),
            CqlView::Text(b.account_id@),
            CqlView::Text(b.backup_name@),
            CqlView::Text(b.table_id@),
            CqlView::Text(b.table_name@),
            CqlView::Text(b.table_arn@),
            CqlView::BigInt(b.table_size_bytes),
            CqlView::Text(b.key_schema@),
            CqlView::Text(b.attribute_definitions@),
            CqlView::Text(b.billing_mode@),
            CqlView::Text(b.provisioned_throughput@),
            nullable_text(b.stream_specification),
            CqlView::BigInt(b.table_created_at),
            CqlView::BigInt(b.created_at),
        ],
    )
}

/// The statement that records a backup that is being created.
pub fn insert_backup(catalog: &str, b: &NewBackup) -> (r: Statement)
    ensures
        r@ == insert_backup_stmt(catalog@, *b),
{
    let mut values: Vec<CqlValue> = Vec::new();
    push_value(&mut values, text_value(b.backup_arn.as_str()));
    push_value(&mut values, text_value(b.account_id.as_str()));
    push_value(&mut values, text_value(b.backup_name.as_str()));
    push_value(&mut values, text_value(b.table_id.as_str()));
    push_value(&mut values, text_value(b.table_name.as_str()));
    push_value(&mut values, text_value(b.table_arn.as_str()));
    push_value(&mut values, CqlValue::BigInt(b.table_size_bytes));
    push_value(&mut values, text_value(b.key_schema.as_str()));
    push_value(&mut values, text_value(b.attribute_definitions.as_str()));
    push_value(&mut values, text_value(b.billing_mode.as_str()));
    push_value(&mut values, text_value(b.provisioned_throughput.as_str()));
    let stream = match &b.stream_specification {
        Some(s) => text_value(s.as_str()),
        None => CqlValue::Null,
    };
    push_value(&mut values, stream);
    push_value(&mut values, CqlValue::BigInt(b.table_created_at));
    push_value(&mut values, CqlValue::BigInt(b.created_at));
    proof {
        assert(values_view(values@) =~= insert_backup_stmt(catalog@, *b).values);
    }
    Statement {
        cql: cat3(
            "INSERT INTO ",
            catalog,
            ".backups_by_arn (backup_arn, account_id, backup_name, table_id, table_name, table_arn, backup_status, backup_type, backup_size_bytes, item_count, key_schema, attribute_definitions, billing_mode, provisioned_throughput, stream_specification, table_created_at, created_at) VALUES (?, ?, ?, ?, ?, ?, 'CREATING', 'USER', ?, 0, ?, ?, ?, ?, ?, ?, ?) IF NOT EXISTS",
        ),
        values,
    }
}

/// How far a copy of items has come: how many items, and how many bytes of JSON.
#[derive(Clone, Copy, Debug, PartialEq, Eq, Structural)]
pub struct CopyProgress {
    pub item_count: i64,
    pub payload_size: i64,
}

/// The sum, or the bound that it would pass.
pub open spec fn saturating_sum(a: i64, b: i64) -> i64 {
    if a + b > i64::MAX {
        i64::MAX
    } else if a + b < i64::MIN {
        i64::MIN
    } else {
        (a + b) as i64
    }
}

fn saturating_plus(a: i64, b: i64) -> (r: i64)
    ensures
        r == saturating_sum(a, b),
{
    match a.checked_add(b) {
        Some(s) => s,
        None => if a > 0 {
            i64::MAX
        } else {
            i64::MIN
        },
    }
}

/// The bytes of an item's JSON.
pub open spec fn item_bytes(item_data: Seq<char>) -> i64 {
    vstd::utf8::encode_utf8(item_data).len() as i64
}

impl CopyProgress {
    /// Nothing was copied yet.
    pub fn new() -> (r: CopyProgress)
        ensures
            r.item_count == 0,
            r.payload_size == 0,
    {
        CopyProgress { item_count: 0, payload_size: 0 }
    }

    /// One item was copied.
    pub fn copied(self, item_data: &str) -> (r: CopyProgress)
        requires
            self.item_count < i64::MAX,
        ensures
            r.item_count == self.item_count + 1,
            r.payload_size == saturating_sum(self.payload_size, item_bytes(item_data@)),
    {
        let n = item_data.as_bytes().len();
        let bytes: i64 = #[verifier::truncate]
        (n as i64);
        CopyProgress {
            item_count: self.item_count + 1,
            payload_size: saturating_plus(self.payload_size, bytes),
        }
    }
}

/// The statement that stores the item at a position of a backup.
pub open spec fn backup_item_stmt(
    ks: Seq<char>,
    backup_arn: Seq<char>,
    index: i64,
    item_data: Seq<char>,
) -> StatementView {
    stmt(
        "INSERT INTO "@ + ks
            + ".backup_items (backup_arn, bucket, item_index, item_data) VALUES (?, ?, ?, ?)"@,
        seq![
            CqlView::Text(backup_arn),
            CqlView::Int(bucket_of(index as int) as i32),
            CqlView::BigInt(index),
            CqlView::Text(item_data),
        ],
    )
}

/// The statement that stores the item at a position of a backup.
pub fn insert_backup_item(
    account_keyspace: &str,
    backup_arn: &str,
    index: i64,
    item_data: &str,
) -> (r: Statement)
    requires
        index >= 0,
    ensures
        r@ == backup_item_stmt(account_keyspace@, backup_arn@, index, item_data@),
{
    let bucket: i64 = index / BACKUP_ITEMS_PER_BUCKET;
    stmt4(
        cat3(
            "INSERT INTO ",
            account_keyspace,
            ".backup_items (backup_arn, bucket, item_index, item_data) VALUES (?, ?, ?, ?)",
        ),
        text_value(backup_arn),
        CqlValue::Int(
            #[verifier::truncate]
            (bucket as i32),
        ),
        CqlValue::BigInt(index),
        text_value(item_data),
    )
}

/// Copy the next item into a backup: the statement that stores it at the position that
/// the copy has reached, and how far the copy has come then.
pub fn copy_backup_item(
    account_keyspace: &str,
    backup_arn: &str,
    progress: CopyProgress,
    item_data: &str,
) -> (r: (Statement, CopyProgress))
    requires
        0 <= progress.item_count < i64::MAX,
    ensures
        r.0@ == backup_item_stmt(
            account_keyspace@,
            backup_arn@,
            progress.item_count,
            item_data@,
        ),
        r.1.item_count == progress.item_count + 1,
        r.1.payload_size == saturating_sum(progress.payload_size, item_bytes(item_data@)),
{
    (
        insert_backup_item(account_keyspace, backup_arn, progress.item_count, item_data),
        progress.copied(item_data),
    )
}

/// The larger of two sizes.
pub open spec fn larger(a: i64, b: i64) -> i64 {
    if a >= b {
        a
    } else {
        b
    }
}

fn larger_of(a: i64, b: i64) -> (r: i64)
    ensures
        r == larger(a, b),
{
    if a >= b {
        a
    } else {
        b
    }
}

/// The size that a finished backup reports: that of the table, or of what was
/// copied, whichever is larger.
pub fn backup_size(table_size_bytes: i64, progress: CopyProgress) -> (r: i64)
    ensures
        r == larger(table_size_bytes, progress.payload_size),
{
    larger_of(table_size_bytes, progress.payload_size)
}

/// The three statements that publish a backup, in one logged batch: it enters both
/// lists and becomes available at once.
pub open spec fn publish_stmts(
    catalog: Seq<char>,
    b: NewBackup,
    size: i64,
    item_count: i64,
) -> Seq<StatementView> {
    seq![
        stmt(
            "INSERT INTO "@ + catalog
                + ".backups_by_account (account_id, created_at, backup_arn, backup_name, table_id, table_name, table_arn, backup_size_bytes) VALUES (?, ?, ?, ?, ?, ?, ?, ?)"@,
            seq![
                CqlView::Text(b.account_id@),
                CqlView::BigInt(b.created_at),
                CqlView::Text(b.backup_arn@),
                CqlView::Text(b.backup_name@),
                CqlView::Text(b.table_id@),
                CqlView::Text(b.table_name@),
                CqlView::Text(b.table_arn@),
                CqlView::BigInt(size),
            ],
        ),
        stmt(
            "INSERT INTO "@ + catalog
                + ".backups_by_table (account_id, table_name, created_at, backup_arn, backup_name, table_id, table_arn, backup_size_bytes) VALUES (?, ?, ?, ?, ?, ?, ?, ?)"@,
            seq![
                CqlView::Text(b.account_id@),
                CqlView::Text(b.table_name@),
                CqlView::BigInt(b.created_at),
                CqlView::Text(b.backup_arn@),
                CqlView::Text(b.backup_name@),
                CqlView::Text(b.table_id@),
                CqlView::Text(b.table_arn@),
                CqlView::BigInt(size),
            ],
        ),
        stmt(
            "UPDATE "@ + catalog
                + ".backups_by_arn SET backup_status = 'AVAILABLE', backup_size_bytes = ?, item_count = ? WHERE account_id = ? AND backup_arn = ?"@,
            seq![
                CqlView::BigInt(size),
                CqlView::BigInt(item_count),
                CqlView::Text(b.account_id@),
                CqlView::Text(b.backup_arn@),
            ],
        ),
    ]
}

/// The statements that publish a backup.
pub fn publish_backup(catalog: &str, b: &NewBackup, size: i64, item_count: i64) -> (r: Vec<
    Statement,
>)
    ensures
        statements_view(r@) == publish_stmts(catalog@, *b, size, item_count),
{
    let mut first: Vec<CqlValue> = Vec::new();
    push_value(&mut first, text_value(b.account_id.as_str()));
    push_value(&mut first, CqlValue::BigInt(b.created_at));
    push_value(&mut first, text_value(b.backup_arn.as_str()));
    push_value(&mut first, text_value(b.backup_name.as_str()));
    push_value(&mut first, text_value(b.table_id.as_str()));
    push_value(&mut first, text_value(b.table_name.as_str()));
    push_value(&mut first, text_value(b.table_arn.as_str()));
    push_value(&mut first, CqlValue::BigInt(size));
    let mut second: Vec<CqlValue> = Vec::new();
    push_value(&mut second, text_value(b.account_id.as_str()));
    push_value(&mut second, text_value(b.table_name.as_str()));
    push_value(&mut second, CqlValue::BigInt(b.created_at));
    push_value(&mut second, text_value(b.backup_arn.as_str()));
    push_value(&mut second, text_value(b.backup_name.as_str()));
    push_value(&mut second, text_value(b.table_id.as_str()));
    push_value(&mut second, text_value(b.table_arn.as_str()));
    push_value(&mut second, CqlValue::BigInt(size));
    proof {
        let e = publish_stmts(catalog@, *b, size, item_count);
        assert(values_view(first@) =~= e[0].values);
        assert(values_view(second@) =~= e[1].values);
    }
    let by_account = Statement {
        cql: cat3(
            "INSERT INTO ",
            catalog,
            ".backups_by_account (account_id, created_at, backup_arn, backup_name, table_id, table_name, table_arn, backup_size_bytes) VALUES (?, ?, ?, ?, ?, ?, ?, ?)",
        ),
        values: first,
    };
    let by_table = Statement {
        cql: cat3(
            "INSERT INTO ",
            catalog,
            ".backups_by_table (account_id, table_name, created_at, backup_arn, backup_name, table_id, table_arn, backup_size_bytes) VALUES (?, ?, ?, ?, ?, ?, ?, ?)",
        ),
        values: second,
    };
    let publish = stmt4(
        cat3(
            "UPDATE ",
            catalog,
            ".backups_by_arn SET backup_status = 'AVAILABLE', backup_size_bytes = ?, item_count = ? WHERE account_id = ? AND backup_arn = ?",
        ),
        CqlValue::BigInt(size),
        CqlValue::BigInt(item_count),
        text_value(b.account_id.as_str()),
        text_value(b.backup_arn.as_str()),
    );
    let r = vec![by_account, by_table, publish];
    proof {
        assert(statements_view(r@) =~= publish_stmts(catalog@, *b, size, item_count));
    }
    r
}

/// The statement that removes the record of a backup.
pub fn delete_backup_metadata(catalog: &str, account_id: &str, backup_arn: &str) -> (r: Statement)
    ensures
        r@ == stmt(
            "DELETE FROM "@ + catalog@ + ".backups_by_arn WHERE account_id = ? AND backup_arn = ?"@,
            seq![CqlView::Text(account_id@), CqlView::Text(backup_arn@)],
        ),
{
    stmt2(
        cat3("DELETE FROM ", catalog, ".backups_by_arn WHERE account_id = ? AND backup_arn = ?"),
        text_value(account_id),
        text_value(backup_arn),
    )
}

/// What creating a backup does, in this order.
#[derive(Clone, Copy, Debug, PartialEq, Eq, Structural)]
pub enum BackupPhase {
    Record,
    Copy,
    Publish,
    Available,
}

/// What is cleaned up after a failure.
#[derive(Clone, Copy, Debug, PartialEq, Eq, Structural)]
pub struct BackupCleanup {
    pub index_rows: bool,
    pub payload: bool,
    pub metadata: bool,
}

/// Move the creation of a backup on: to the next phase where the last one went
/// well, else to what has to be cleaned up before its error is reported. A backup
/// becomes available only after it was recorded, copied and published; one that
/// could not be copied or published leaves neither items nor a record behind.
pub fn create_backup(phase: BackupPhase, succeeded: bool) -> (r: Result<
    BackupPhase,
    BackupCleanup,
>)
    ensures
        r == (if succeeded {
            Ok::<BackupPhase, BackupCleanup>(
                match phase {
                    BackupPhase::Record => BackupPhase::Copy,
                    BackupPhase::Copy => BackupPhase::Publish,
                    BackupPhase::Publish => BackupPhase::Available,
                    BackupPhase::Available => BackupPhase::Available,
                },
            )
        } else {
            Err::<BackupPhase, BackupCleanup>(
                (BackupCleanup {
                    index_rows: phase == BackupPhase::Publish,
                    payload: phase == BackupPhase::Copy || phase == BackupPhase::Publish,
                    metadata: phase == BackupPhase::Copy || phase == BackupPhase::Publish,
                }),
            )
        }),
{
    if succeeded {
        Ok(
            match phase {
                BackupPhase::Record => BackupPhase::Copy,
                BackupPhase::Copy => BackupPhase::Publish,
                BackupPhase::Publish => BackupPhase::Available,
                BackupPhase::Available => BackupPhase::Available,
            },
        )
    } else {
        let started = match phase {
            BackupPhase::Copy | BackupPhase::Publish => true,
            _ => false,
        };
        let published = match phase {
            BackupPhase::Publish => true,
            _ => false,
        };
        Err(BackupCleanup { index_rows: published, payload: started, metadata: started })
    }
}

/// What the request for a new backup learns.
pub fn created_details(b: NewBackup, size: i64) -> (r: BackupDetails)
    ensures
        r.backup_arn == b.backup_arn,
        r.backup_name == b.backup_name,
        r.backup_status@ == "AVAILABLE"@,
        r.backup_type@ == "USER"@,
        r.backup_size_bytes == size,
        r.created_at_millis == b.created_at,
{
    BackupDetails {
        backup_arn: b.backup_arn,
        backup_name: b.backup_name,
        backup_status: "AVAILABLE".to_owned(),
        backup_type: "USER".to_owned(),
        backup_size_bytes: size,
        created_at_millis: b.created_at,
    }
}

/// The statement that lists backups, of one table or of all.
pub fn select_backups(catalog: &str, account_id: &str, table_name: Option<&str>) -> (r: Statement)
    ensures
        r@ == (match table_name {
            Some(t) => stmt(
                "SELECT backup_arn, backup_name, table_name, table_arn, backup_size_bytes, created_at FROM "@
                    + catalog@ + ".backups_by_table WHERE account_id = ? AND table_name = ?"@,
                seq![CqlView::Text(account_id@), CqlView::Text(t@)],
            ),
            None => stmt(
                "SELECT backup_arn, backup_name, table_name, table_arn, backup_size_bytes, created_at FROM "@
                    + catalog@ + ".backups_by_account WHERE account_id = ?"@,
                seq![CqlView::Text(account_id@)],
            ),
        }),
{
    match table_name {
        Some(t) => stmt2(
            cat3(
                "SELECT backup_arn, backup_name, table_name, table_arn, backup_size_bytes, created_at FROM ",
                catalog,
                ".backups_by_table WHERE account_id = ? AND table_name = ?",
            ),
            text_value(account_id),
            text_value(t),
        ),
        None => stmt1(
            cat3(
                "SELECT backup_arn, backup_name, table_name, table_arn, backup_size_bytes, created_at FROM ",
                catalog,
                ".backups_by_account WHERE account_id = ?",
            ),
            text_value(account_id),
        ),
    }
}

/// The backup that a list row names.
pub fn listed_arn(row: &Row) -> (r: Result<String, StorageError>)
    ensures
        match r {
            Ok(s) => row.cell("backup_arn"@) == Cell::Text(s),
            Err(e) => !(row.cell("backup_arn"@) is Text) && is_internal(
                e,
                column_error::<String>(*row, "backup_arn"@),
            ),
        },
{
    read_text(row, "backup_arn")
}

/// Whether a backup that a list names appears in the answer. A stale row from an
/// interrupted create or delete must never advertise an unavailable backup: one that
/// is not found is left out, any other error fails the list.
pub fn list_entry(loaded: Result<StoredBackup, StorageError>) -> (r: Result<
    Option<BackupSummary>,
    StorageError,
>)
    ensures
        match loaded {
            Ok(b) => r == Ok::<Option<BackupSummary>, StorageError>(Some(summary_of(b))),
            Err(StorageError::Validation(_)) => r == Ok::<Option<BackupSummary>, StorageError>(
                None,
            ),
            Err(e) => r == Err::<Option<BackupSummary>, StorageError>(e),
        },
{
    match loaded {
        Ok(b) => Ok(Some(b.summary())),
        Err(StorageError::Validation(_)) => Ok(None),
        Err(e) => Err(e),
    }
}

/// The backup may be deleted: it is available, or a deletion was interrupted.
pub open spec fn is_deletable(b: StoredBackup) -> bool {
    b.backup_status@ == "AVAILABLE"@ || b.backup_status@ == "DELETING"@
}

/// The statement that sets the status of a backup.
pub open spec fn mark_backup_stmt(
    catalog: Seq<char>,
    status: Seq<char>,
    account_id: Seq<char>,
    backup_arn: Seq<char>,
) -> StatementView {
    stmt(
        "UPDATE "@ + catalog + ".backups_by_arn SET backup_status = '"@ + status
            + "' WHERE account_id = ? AND backup_arn = ?"@,
        seq![CqlView::Text(account_id), CqlView::Text(backup_arn)],
    )
}

fn mark_backup(catalog: &str, status: &str, account_id: &str, backup_arn: &str) -> (r: Statement)
    ensures
        r@ == mark_backup_stmt(catalog@, status@, account_id@, backup_arn@),
{
    let head = cat3("UPDATE ", catalog, ".backups_by_arn SET backup_status = '");
    stmt2(
        cat3(head.as_str(), status, "' WHERE account_id = ? AND backup_arn = ?"),
        text_value(account_id),
        text_value(backup_arn),
    )
}

/// Delete a backup: mark it as being deleted, take it off the lists, remove its
/// items, and mark it as deleted. An interrupted deletion can be repeated; a backup
/// in any other state is not found.
pub fn delete_backup(
    catalog: &str,
    account_keyspace: &str,
    account_id: &str,
    backup_arn: &str,
    backup: &StoredBackup,
) -> (r: Result<Vec<Statement>, StorageError>)
    requires
        backup.item_count <= i64::MAX - 64,
    ensures
        match r {
            Ok(v) => is_deletable(*backup) && statements_view(v@) == seq![
                mark_backup_stmt(catalog@, "DELETING"@, account_id@, backup_arn@),
            ] + index_row_stmts(catalog@, *backup) + Seq::new(
                buckets_for(backup.item_count as int) as nat,
                |b: int| clean_bucket_stmt(account_keyspace@, backup_arn@, b),
            ) + seq![mark_backup_stmt(catalog@, "DELETED"@, account_id@, backup_arn@)],
            Err(e) => !is_deletable(*backup) && is_backup_not_found(e, backup_arn@),
        },
{
    if !str_eq(backup.backup_status.as_str(), "AVAILABLE") && !str_eq(
        backup.backup_status.as_str(),
        "DELETING",
    ) {
        return Err(backup_not_found(backup_arn));
    }
    let mut out: Vec<Statement> = Vec::new();
    push_statement(&mut out, mark_backup(catalog, "DELETING", account_id, backup_arn));
    let mut rows = remove_backup_index_rows(catalog, backup);
    let ghost index_part = statements_view(rows@);
    let ghost head = statements_view(out@);
    out.append(&mut rows);
    proof {
        assert(statements_view(out@) =~= head + index_part);
    }
    let mut payload = cleanup_backup_payload(account_keyspace, backup_arn, backup.item_count);
    let ghost payload_part = statements_view(payload@);
    let ghost middle = statements_view(out@);
    out.append(&mut payload);
    proof {
        assert(statements_view(out@) =~= middle + payload_part);
    }
    push_statement(&mut out, mark_backup(catalog, "DELETED", account_id, backup_arn));
    proof {
        assert(statements_view(out@) =~= seq![
            mark_backup_stmt(catalog@, "DELETING"@, account_id@, backup_arn@),
        ] + index_part + payload_part + seq![
            mark_backup_stmt(catalog@, "DELETED"@, account_id@, backup_arn@),
        ]);
    }
    Ok(out)
}

/// The answer to a deletion: the description of the backup as it was, but for its
/// status.
pub fn deleted_description(backup: &StoredBackup) -> (r: BackupDescription)
    ensures
        r.backup_details.backup_status@ == "DELETED"@,
        r == (BackupDescription {
            backup_details: BackupDetails {
                backup_status: r.backup_details.backup_status,
                ..details_of(*backup)
            },
            ..description_of(*backup)
        }),
{
    let BackupDescription { backup_details, source_table_details } = backup.description();
    let mut details = backup_details;
    details.backup_status = "DELETED".to_owned();
    BackupDescription { backup_details: details, source_table_details }
}

/// How a table is billed.
#[derive(Clone, Copy, Debug, PartialEq, Eq, Structural)]
pub enum BillingMode {
    PayPerRequest,
    Provisioned,
}

/// The billing mode of a restored table.
pub fn restored_billing_mode(recorded: &str) -> (r: BillingMode)
    ensures
        r == (if recorded@ == "PAY_PER_REQUEST"@ {
            BillingMode::PayPerRequest
        } else {
            BillingMode::Provisioned
        }),
{
    if str_eq(recorded, "PAY_PER_REQUEST") {
        BillingMode::PayPerRequest
    } else {
        BillingMode::Provisioned
    }
}

/// The capacity of a table.
#[derive(Clone, Copy, Debug, PartialEq, Eq, Structural)]
pub struct ProvisionedThroughput {
    pub read_capacity_units: i64,
    pub write_capacity_units: i64,
}

/// A capacity that is not positive is replaced by five units.
pub open spec fn positive_units(units: i64) -> i64 {
    if units <= 0 {
        5
    } else {
        units
    }
}

/// The capacity of a restored table: the recorded one, five units where none was
/// recorded or it is not positive.
pub fn restored_throughput(recorded: Option<ProvisionedThroughput>) -> (r: ProvisionedThroughput)
    ensures
        r == (match recorded {
            Some(t) => ProvisionedThroughput {
                read_capacity_units: positive_units(t.read_capacity_units),
                write_capacity_units: positive_units(t.write_capacity_units),
            },
            None => ProvisionedThroughput { read_capacity_units: 5, write_capacity_units: 5 },
        }),
        r.read_capacity_units > 0,
        r.write_capacity_units > 0,
{
    match recorded {
        Some(t) => ProvisionedThroughput {
            read_capacity_units: if t.read_capacity_units <= 0 {
                5
            } else {
                t.read_capacity_units
            },
            write_capacity_units: if t.write_capacity_units <= 0 {
                5
            } else {
                t.write_capacity_units
            },
        },
        None => ProvisionedThroughput { read_capacity_units: 5, write_capacity_units: 5 },
    }
}

/// The key information by which items are put into a restored table: the recorded
/// keys and definitions, without any index.
pub fn restored_key_info(
    target_table_name: &str,
    account_id: &str,
    table_id: &str,
    key_schema: Vec<KeySchemaElement>,
    attribute_definitions: Vec<AttributeDefinition>,
    stream_specification: Option<String>,
) -> (r: TableKeyInfo)
    ensures
        r.table_name@ == target_table_name@,
        r.account_id@ == account_id@,
        r.table_id@ == table_id@,
        r.key_schema@ == key_schema@,
        r.base_key_schema@ == key_schema@,
        r.attribute_definitions == attribute_definitions,
        !r.has_lsi,
        r.global_secondary_indexes@.len() == 0,
        r.local_secondary_indexes@.len() == 0,
        r.stream_specification == stream_specification,
{
    let base_key_schema = clone_schema(&key_schema);
    TableKeyInfo {
        table_name: target_table_name.to_owned(),
        account_id: account_id.to_owned(),
        table_id: table_id.to_owned(),
        key_schema,
        base_key_schema,
        attribute_definitions,
        has_lsi: false,
        global_secondary_indexes: Vec::new(),
        local_secondary_indexes: Vec::new(),
        stream_specification,
    }
}

/// The statement that reads one partition of a backup's items.
pub fn select_backup_items(account_keyspace: &str, backup_arn: &str, bucket: i64) -> (r: Statement)
    ensures
        r@ == stmt(
            "SELECT item_data FROM "@ + account_keyspace@
                + ".backup_items WHERE backup_arn = ? AND bucket = ?"@,
            seq![CqlView::Text(backup_arn@), CqlView::Int(bucket as i32)],
        ),
{
    stmt2(
        cat3(
            "SELECT item_data FROM ",
            account_keyspace,
            ".backup_items WHERE backup_arn = ? AND bucket = ?",
        ),
        text_value(backup_arn),
        CqlValue::Int(
            #[verifier::truncate]
            (bucket as i32),
        ),
    )
}

/// The JSON of a stored item.
pub fn backup_item(row: &Row) -> (r: Result<String, StorageError>)
    ensures
        match r {
            Ok(s) => row.cell("item_data"@) == Cell::Text(s),
            Err(e) => !(row.cell("item_data"@) is Text) && is_internal(
                e,
                "Parse backup item: "@ + read_error::<String>(*row, "item_data"@),
            ),
        },
{
    let r: Result<String, StorageError> = parse_column(row, "item_data", "Parse backup item");
    proof {
        reveal_strlit("Parse backup item: ");
        reveal_strlit("Parse backup item");
        reveal_strlit(": ");
        assert("Parse backup item: "@ =~= "Parse backup item"@ + ": "@);
    }
    r
}

/// Finish a restore: it must have brought back as many items as the backup has.
/// Gives the size that the table reports.
pub fn restore_table_from_backup(backup: &StoredBackup, restored: CopyProgress) -> (r: Result<
    (i64, i64),
    StorageError,
>)
    ensures
        if restored.item_count == backup.item_count {
            r == Ok::<(i64, i64), StorageError>(
                (restored.item_count, larger(backup.backup_size_bytes, restored.payload_size)),
            )
        } else {
            r matches Err(e) && is_internal(
                e,
                "Backup item count mismatch: expected "@ + int_text(backup.item_count as int)
                    + ", restored "@ + int_text(restored.item_count as int),
            )
        },
{
    if restored.item_count != backup.item_count {
        let expected = i64_text(backup.item_count);
        let found = i64_text(restored.item_count);
        return Err(
            StorageError::Internal(
                cat4(
                    "Backup item count mismatch: expected ",
                    expected.as_str(),
                    ", restored ",
                    found.as_str(),
                ),
            ),
        );
    }
    Ok((restored.item_count, larger_of(backup.backup_size_bytes, restored.payload_size)))
}

/// What a restore does once its target table exists: it fills the table from one
/// partition of the backup after the other, then makes it accessible.
#[derive(Clone, Copy, Debug, PartialEq, Eq, Structural)]
pub enum RestorePhase {
    Fill(i64),
    Activate { item_count: i64, size: i64 },
    Restored,
}

/// The phase before partition `bucket` is read, or none where the partitions were
/// all read and held another number of items than the backup has.
pub open spec fn bucket_phase(backup: StoredBackup, bucket: int, progress: CopyProgress) -> Option<
    RestorePhase,
> {
    if bucket < buckets_for(backup.item_count as int) {
        Some(RestorePhase::Fill(bucket as i64))
    } else if progress.item_count == backup.item_count {
        Some(
            RestorePhase::Activate {
                item_count: progress.item_count,
                size: larger(backup.backup_size_bytes, progress.payload_size),
            },
        )
    } else {
        None
    }
}

/// The phase after one that went well.
pub open spec fn restore_step(
    backup: StoredBackup,
    phase: RestorePhase,
    progress: CopyProgress,
) -> Option<RestorePhase> {
    match phase {
        RestorePhase::Fill(bucket) => bucket_phase(backup, bucket + 1, progress),
        RestorePhase::Activate { item_count, size } => Some(RestorePhase::Restored),
        RestorePhase::Restored => Some(RestorePhase::Restored),
    }
}

/// A phase that a restore of the backup can be in.
pub open spec fn restore_phase_wf(backup: StoredBackup, phase: RestorePhase) -> bool {
    phase matches RestorePhase::Fill(bucket) ==> 0 <= bucket < buckets_for(
        backup.item_count as int,
    )
}

fn enter_bucket(backup: &StoredBackup, bucket: i64, progress: CopyProgress) -> (r: Result<
    RestorePhase,
    StorageError,
>)
    requires
        backup.item_count <= i64::MAX - 64,
        bucket >= 0,
    ensures
        match r {
            Ok(p) => bucket_phase(*backup, bucket as int, progress) == Some(p)
                && restore_phase_wf(*backup, p),
            Err(e) => bucket_phase(*backup, bucket as int, progress) is None && is_internal(
                e,
                "Backup item count mismatch: expected "@ + int_text(backup.item_count as int)
                    + ", restored "@ + int_text(progress.item_count as int),
            ),
        },
{
    if bucket < bucket_count(backup.item_count) {
        return Ok(RestorePhase::Fill(bucket));
    }
    match restore_table_from_backup(backup, progress) {
        Ok(t) => Ok(RestorePhase::Activate { item_count: t.0, size: t.1 }),
        Err(e) => Err(e),
    }
}

/// Begin to fill the target table of a restore.
pub fn start_restore(backup: &StoredBackup) -> (r: Result<RestorePhase, StorageError>)
    requires
        backup.item_count <= i64::MAX - 64,
    ensures
        match r {
            Ok(p) => restore_run(*backup, Seq::empty()) == Some(p) && restore_phase_wf(*backup, p),
            Err(e) => restore_run(*backup, Seq::empty()) is None && is_internal(
                e,
                "Backup item count mismatch: expected "@ + int_text(backup.item_count as int)
                    + ", restored "@ + int_text(0),
            ),
        },
{
    enter_bucket(backup, 0, CopyProgress::new())
}

/// Move a restore on. After an error the target table is removed and the error is
/// reported: that of the phase, or that the partitions held another number of items
/// than the backup has.
pub fn restore_next(
    backup: &StoredBackup,
    phase: RestorePhase,
    outcome: Result<CopyProgress, StorageError>,
) -> (r: Result<RestorePhase, StorageError>)
    requires
        backup.item_count <= i64::MAX - 64,
        restore_phase_wf(*backup, phase),
    ensures
        match outcome {
            Ok(progress) => match r {
                Ok(p) => restore_step(*backup, phase, progress) == Some(p) && restore_phase_wf(
                    *backup,
                    p,
                ),
                Err(e) => restore_step(*backup, phase, progress) is None && is_internal(
                    e,
                    "Backup item count mismatch: expected "@ + int_text(backup.item_count as int)
                        + ", restored "@ + int_text(progress.item_count as int),
                ),
            },
            Err(failed) => r == Err::<RestorePhase, StorageError>(failed),
        },
{
    match outcome {
        Ok(progress) => match phase {
            RestorePhase::Fill(bucket) => enter_bucket(backup, bucket + 1, progress),
            RestorePhase::Activate { item_count, size } => Ok(RestorePhase::Restored),
            RestorePhase::Restored => Ok(RestorePhase::Restored),
        },
        Err(e) => Err(e),
    }
}

/// The phase that a restore is in after some outcomes, or none once its target table
/// was removed. An outcome is how far the copy has come, or none where it failed.
pub open spec fn restore_run(backup: StoredBackup, outcomes: Seq<Option<CopyProgress>>) -> Option<
    RestorePhase,
>
    decreases outcomes.len(),
{
    if outcomes.len() == 0 {
        bucket_phase(backup, 0, (CopyProgress { item_count: 0, payload_size: 0 }))
    } else {
        match (restore_run(backup, outcomes.drop_last()), outcomes.last()) {
            (Some(phase), Some(progress)) => restore_step(backup, phase, progress),
            _ => None,
        }
    }
}

/// Where a restore stands says what went before: while it fills the table, every
/// partition before this one was read; once it may activate the table, all of them.
proof fn lemma_restore_run(backup: StoredBackup, outcomes: Seq<Option<CopyProgress>>)
    requires
        backup.item_count <= i64::MAX - 64,
    ensures
        restore_run(backup, outcomes) is Some ==> forall|k: int|
            0 <= k < outcomes.len() ==> (#[trigger] outcomes[k]) is Some,
        match restore_run(backup, outcomes) {
            Some(RestorePhase::Fill(bucket)) => bucket == outcomes.len() && bucket < buckets_for(
                backup.item_count as int,
            ),
            Some(RestorePhase::Activate { item_count, size }) => outcomes.len() == buckets_for(
                backup.item_count as int,
            ) && item_count == backup.item_count && (outcomes.len() > 0 ==> item_count
                == outcomes.last()->0.item_count),
            Some(RestorePhase::Restored) => outcomes.len() > buckets_for(backup.item_count as int)
                && (buckets_for(backup.item_count as int) > 0 ==> outcomes[buckets_for(
                backup.item_count as int,
            ) - 1]->0.item_count == backup.item_count),
            None => true,
        },
    decreases outcomes.len(),
{
    if outcomes.len() > 0 {
        let before = outcomes.drop_last();
        lemma_restore_run(backup, before);
        if restore_run(backup, outcomes) is Some {
            assert forall|k: int| 0 <= k < outcomes.len() implies (#[trigger] outcomes[k])
                is Some by {
                if k < outcomes.len() - 1 {
                    assert(before[k] is Some);
                }
            }
        }
    }
}

/// A restored table becomes accessible only after every partition of the backup was
/// read into it without an error, these held as many items as the backup has, and
/// the activation went well.
pub proof fn law_restored_means_complete(backup: StoredBackup, outcomes: Seq<Option<CopyProgress>>)
    requires
        backup.item_count <= i64::MAX - 64,
        restore_run(backup, outcomes) == Some(RestorePhase::Restored),
    ensures
        outcomes.len() > buckets_for(backup.item_count as int),
        forall|k: int| 0 <= k < outcomes.len() ==> (#[trigger] outcomes[k]) is Some,
        backup.item_count > 0 ==> outcomes[buckets_for(backup.item_count as int)
            - 1]->0.item_count == backup.item_count,
{
    lemma_restore_run(backup, outcomes);
}

/// A failure at any point removes the target table for good: no later outcome makes
/// it accessible.
pub proof fn law_failed_restore_is_removed(
    backup: StoredBackup,
    outcomes: Seq<Option<CopyProgress>>,
    k: int,
)
    requires
        0 <= k < outcomes.len(),
        outcomes[k] is None,
    ensures
        restore_run(backup, outcomes) is None,
    decreases outcomes.len(),
{
    if k < outcomes.len() - 1 {
        law_failed_restore_is_removed(backup, outcomes.drop_last(), k);
    }
}

/// The statement that reads whether point-in-time recovery is on.
pub fn select_continuous_backups(catalog: &str, account_id: &str, table_name: &str) -> (r:
    Statement)
    ensures
        r@ == stmt(
            "SELECT pitr_enabled FROM "@ + catalog@
                + ".continuous_backups WHERE account_id = ? AND table_name = ?"@,
            seq![CqlView::Text(account_id@), CqlView::Text(table_name@)],
        ),
{
    stmt2(
        cat3(
            "SELECT pitr_enabled FROM ",
            catalog,
            ".continuous_backups WHERE account_id = ? AND table_name = ?",
        ),
        text_value(account_id),
        text_value(table_name),
    )
}

/// What is known of the continuous backups of a table. The restorable range, in
/// milliseconds, spans the last 35 days where recovery is on.
#[derive(Debug, PartialEq, Eq)]
pub struct ContinuousBackups {
    pub continuous_backups_status: String,
    pub point_in_time_recovery_status: String,
    pub is_restorable: bool,
}

/// The setting of point-in-time recovery: off where it was never set.
pub open spec fn pitr_enabled(rows: Seq<Row>) -> bool {
    rows.len() > 0 && rows[0].cell("pitr_enabled"@) == Cell::Boolean(true)
}

/// Describe the continuous backups of a table from its setting.
pub fn describe_continuous_backups(rows: &Vec<Row>) -> (r: ContinuousBackups)
    ensures
        r.continuous_backups_status@ == "ENABLED"@,
        r.point_in_time_recovery_status@ == (if pitr_enabled(rows@) {
            "ENABLED"@
        } else {
            "DISABLED"@
        }),
        r.is_restorable == pitr_enabled(rows@),
{
    let enabled = if rows.len() == 0 {
        false
    } else {
        match get_optional::<bool>(&rows[0], "pitr_enabled") {
            Some(b) => b,
            None => false,
        }
    };
    ContinuousBackups {
        continuous_backups_status: "ENABLED".to_owned(),
        point_in_time_recovery_status: if enabled {
            "ENABLED".to_owned()
        } else {
            "DISABLED".to_owned()
        },
        is_restorable: enabled,
    }
}

/// The statement that sets point-in-time recovery.
pub fn update_continuous_backups(
    catalog: &str,
    account_id: &str,
    table_name: &str,
    pitr_enabled: bool,
) -> (r: Statement)
    ensures
        r@ == stmt(
            "INSERT INTO "@ + catalog@
                + ".continuous_backups (account_id, table_name, pitr_enabled) VALUES (?, ?, ?)"@,
            seq![
                CqlView::Text(account_id@),
                CqlView::Text(table_name@),
                CqlView::Boolean(pitr_enabled),
            ],
        ),
{
    stmt3(
        cat3(
            "INSERT INTO ",
            catalog,
            ".continuous_backups (account_id, table_name, pitr_enabled) VALUES (?, ?, ?)",
        ),
        text_value(account_id),
        text_value(table_name),
        CqlValue::Boolean(pitr_enabled),
    )
}

/// A restore to a point in time is refused.
pub fn restore_table_to_point_in_time() -> (e: StorageError)
    ensures
        is_validation(e, "Point-in-time recovery restore is not yet supported"@),
{
    validation("Point-in-time recovery restore is not yet supported")
}

} // verus!
