//! Creating tables: the catalog rows, the stream shards, the data tables, and the
//! description that is answered.
use vstd::prelude::*;
use crate::engine::CassandraEngine;
use crate::backup_engine::{BillingMode, ProvisionedThroughput};
use crate::cassandra_util::{applied_column, read_error, Cell, Row};
use crate::cql::{
    push_value, stmt, stmt0, stmt3, text_value, values_view, CqlValue, CqlView, Statement,
    StatementView,
};
use crate::data::ddl::{
    create_data_table, create_data_table_cql, create_index_stmt, sort_keys,
};
use crate::error::{is_internal, StorageError};
use crate::ids::{new_uuid, uuid_text, uuid_text_of};
use crate::model::{AttributeDefinition, KeySchemaElement, Projection};
use crate::text::{
    cat2, cat3, cat4, cat5, cat7, cat9, i64_text, int_text, join, joined, nat_text, push_text,
    u64_text, views,
};

verus! {

/// How many shards a stream has.
pub const SHARDS_PER_STREAM: u64 = 4;

/// A number in decimal, with zeros in front up to twelve digits.
pub open spec fn padded12(n: nat) -> Seq<char> {
    let t = nat_text(n);
    if t.len() >= 12 {
        t
    } else {
        Seq::new((12 - t.len()) as nat, |i: int| '0') + t
    }
}

fn pad12(n: u64) -> (r: String)
    ensures
        r@ == padded12(n as nat),
{
    let digits = u64_text(n);
    let len = digits.as_str().unicode_len();
    let mut s = String::new();
    let mut k: usize = len;
    proof {
        assert(s@ =~= Seq::new(0, |i: int| '0'));
    }
    while k < 12
        invariant
            len == nat_text(n as nat).len(),
            len <= k,
            k <= 12 || k == len,
            s@ == Seq::new((k - len) as nat, |i: int| '0'),
        decreases 12 - k,
    {
        s.push('0');
        proof {
            assert(s@ =~= Seq::new((k + 1 - len) as nat, |i: int| '0'));
        }
        k = k + 1;
    }
    s.append(digits.as_str());
    proof {
        assert(s@ =~= padded12(n as nat));
    }
    s
}

/// The identifier of a shard.
pub open spec fn shard_id_of(table_id: Seq<char>, i: nat) -> Seq<char> {
    "shardId-"@ + table_id + "-"@ + padded12(i)
}

/// The row of a shard, as it stands in the batch.
pub open spec fn shard_row(
    account_keyspace: Seq<char>,
    table_id: Seq<char>,
    zero_sequence: Seq<char>,
    now_ms: i64,
    i: nat,
) -> Seq<char> {
    "INSERT INTO "@ + account_keyspace
        + ".stream_shards (shard_id, table_id, starting_sequence_number, created_at) VALUES ('"@
        + shard_id_of(table_id, i) + "', '"@ + table_id + "', '"@ + zero_sequence + "', "@
        + int_text(now_ms as int) + ")"@
}

fn shard_insert(
    account_keyspace: &str,
    table_id: &str,
    zero_sequence: &str,
    now_ms: i64,
    i: u64,
) -> (r: String)
    ensures
        r@ == shard_row(account_keyspace@, table_id@, zero_sequence@, now_ms, i as nat),
{
    let number = pad12(i);
    let id = cat4("shardId-", table_id, "-", number.as_str());
    let at = i64_text(now_ms);
    let head = cat7(
        "INSERT INTO ",
        account_keyspace,
        ".stream_shards (shard_id, table_id, starting_sequence_number, created_at) VALUES ('",
        id.as_str(),
        "', '",
        table_id,
        "', '",
    );
    cat5(head.as_str(), zero_sequence, "', ", at.as_str(), ")")
}

/// The statements of the batch that starts a stream: the label of the table, and
/// its shards.
pub open spec fn stream_batch_parts(
    catalog: Seq<char>,
    label: Seq<char>,
    account_id: Seq<char>,
    table_name: Seq<char>,
    account_keyspace: Seq<char>,
    table_id: Seq<char>,
    zero_sequence: Seq<char>,
    now_ms: i64,
) -> Seq<Seq<char>> {
    seq![
        "UPDATE "@ + catalog + ".tables SET stream_label = '"@ + label + "' WHERE account_id = '"@
            + account_id + "' AND table_name = '"@ + table_name + "'"@,
    ] + Seq::new(
        SHARDS_PER_STREAM as nat,
        |i: int| shard_row(account_keyspace, table_id, zero_sequence, now_ms, i as nat),
    )
}

/// The batch that initializes the stream shards of a table atomically: it writes the
/// shard rows into the account keyspace and sets the stream label in the catalog.
///
/// Values stand in the text because a logged batch over several tables takes no
/// parameters.
pub fn init_stream_shards(
    catalog: &str,
    label: &str,
    account_id: &str,
    table_name: &str,
    account_keyspace: &str,
    table_id: &str,
    zero_sequence: &str,
    now_ms: i64,
) -> (r: Statement)
    ensures
        r@ == stmt(
            "BEGIN BATCH\n"@ + joined(
                stream_batch_parts(
                    catalog@,
                    label@,
                    account_id@,
                    table_name@,
                    account_keyspace@,
                    table_id@,
                    zero_sequence@,
                    now_ms,
                ),
                ";\n"@,
            ) + "\nAPPLY BATCH"@,
            seq![],
        ),
{
    let ghost f = |i: int|
        shard_row(account_keyspace@, table_id@, zero_sequence@, now_ms, i as nat);
    let update = cat9(
        "UPDATE ",
        catalog,
        ".tables SET stream_label = '",
        label,
        "' WHERE account_id = '",
        account_id,
        "' AND table_name = '",
        table_name,
        "'",
    );
    let mut parts: Vec<String> = Vec::new();
    push_text(&mut parts, update);
    let ghost head = views(parts@);
    proof {
        assert(head =~= head + Seq::new(0, f));
    }
    let mut i: u64 = 0;
    while i < SHARDS_PER_STREAM
        invariant
            i <= SHARDS_PER_STREAM,
            f == (|i: int|
                shard_row(account_keyspace@, table_id@, zero_sequence@, now_ms, i as nat)),
            views(parts@) == head + Seq::new(i as nat, f),
        decreases SHARDS_PER_STREAM - i,
    {
        push_text(
            &mut parts,
            shard_insert(account_keyspace, table_id, zero_sequence, now_ms, i),
        );
        proof {
            assert(views(parts@) =~= head + Seq::new((i + 1) as nat, f));
        }
        i = i + 1;
    }
    proof {
        assert(views(parts@) =~= stream_batch_parts(
            catalog@,
            label@,
            account_id@,
            table_name@,
            account_keyspace@,
            table_id@,
            zero_sequence@,
            now_ms,
        ));
    }
    let body = join(&parts, ";\n");
    stmt0(cat3("BEGIN BATCH\n", body.as_str(), "\nAPPLY BATCH"))
}

/// A new random identifier of a table or an index, as text.
pub fn new_identifier() -> (r: String)
    ensures
        exists|b: Seq<u8>|
            b.len() == 16 && b[6] / 16 == 4 && b[8] / 64 == 2 && r@ == #[trigger] uuid_text_of(b),
{
    let id = new_uuid();
    let r = uuid_text(&id);
    proof {
        assert(r@ == uuid_text_of(id@));
    }
    r
}

/// The stored text of a billing mode.
pub fn billing_text(mode: BillingMode) -> (r: &'static str)
    ensures
        r@ == billing_text_of(mode),
{
    match mode {
        BillingMode::Provisioned => "PROVISIONED",
        BillingMode::PayPerRequest => "PAY_PER_REQUEST",
    }
}

/// The stored text of a billing mode.
pub open spec fn billing_text_of(mode: BillingMode) -> Seq<char> {
    match mode {
        BillingMode::Provisioned => "PROVISIONED"@,
        BillingMode::PayPerRequest => "PAY_PER_REQUEST"@,
    }
}

/// The status of a table.
#[derive(Clone, Copy, Debug, PartialEq, Eq, Structural)]
pub enum TableStatus {
    Active,
    Creating,
}

/// The stored text of a status.
pub open spec fn status_text_of(s: TableStatus) -> Seq<char> {
    match s {
        TableStatus::Active => "ACTIVE"@,
        TableStatus::Creating => "CREATING"@,
    }
}

/// The stored text of a status.
pub fn status_text(s: TableStatus) -> (r: &'static str)
    ensures
        r@ == status_text_of(s),
{
    match s {
        TableStatus::Active => "ACTIVE",
        TableStatus::Creating => "CREATING",
    }
}

/// The status with which a table starts, and the time at which it becomes active.
pub open spec fn start_of(schedule_activation: bool, activation_at: Option<i64>) -> (
    TableStatus,
    Option<i64>,
) {
    if !schedule_activation {
        (TableStatus::Creating, None)
    } else if activation_at is None {
        (TableStatus::Active, None)
    } else {
        (TableStatus::Creating, activation_at)
    }
}

/// The status with which a table starts, and the time at which it becomes active.
/// A restore target has none: only the restore may publish it, after its items were
/// verified. `activation_at` is `None` where the configured delay is zero.
pub fn initial_status(schedule_activation: bool, activation_at: Option<i64>) -> (r: (
    TableStatus,
    Option<i64>,
))
    ensures
        r == start_of(schedule_activation, activation_at),
{
    if !schedule_activation {
        (TableStatus::Creating, None)
    } else {
        match activation_at {
            None => (TableStatus::Active, None),
            Some(t) => (TableStatus::Creating, Some(t)),
        }
    }
}

/// A table that is created for a restore is not accessible on its own: it is not
/// active and no transition is scheduled, whatever delay is configured. Any other
/// table is active at once or has a transition scheduled.
pub proof fn law_restore_target_is_inaccessible(activation_at: Option<i64>)
    ensures
        start_of(false, activation_at) == (TableStatus::Creating, None::<i64>),
        start_of(true, activation_at).0 == TableStatus::Active
            || start_of(true, activation_at).1 is Some,
{
}

/// The poller of the control plane is woken where a transition was scheduled.
pub fn wakes_poller(schedule_activation: bool, status_transition_at: Option<i64>) -> (r: bool)
    ensures
        r == (schedule_activation && status_transition_at is Some),
{
    schedule_activation && status_transition_at.is_some()
}

/// A table needs the keyspace of its account.
pub fn require_account_keyspace(found: bool, account_keyspace: &str) -> (r: Result<
    (),
    StorageError,
>)
    ensures
        if found {
            r is Ok
        } else {
            r matches Err(e) && is_internal(
                e,
                "Account keyspace '"@ + account_keyspace@
                    + "' does not exist. Account must be provisioned first."@,
            )
        },
{
    if found {
        Ok(())
    } else {
        Err(
            StorageError::Internal(
                cat3(
                    "Account keyspace '",
                    account_keyspace,
                    "' does not exist. Account must be provisioned first.",
                ),
            ),
        )
    }
}

/// What the catalog records of a new table: JSON texts where it stores JSON.
#[derive(Debug, PartialEq, Eq)]
pub struct NewTable {
    pub account_id: String,
    pub table_name: String,
    pub table_id: String,
    pub table_arn: String,
    pub key_schema_json: String,
    pub attribute_definitions_json: String,
    pub billing_mode: BillingMode,
    pub provisioned_throughput_json: Option<String>,
    pub stream_specification_json: Option<String>,
    pub status: TableStatus,
    pub created_at: i64,
    pub deletion_protection: bool,
    pub status_transition_at: Option<i64>,
}

/// A text, left unset where there is none.
pub open spec fn settable(t: Option<String>) -> CqlView {
    match t {
        Some(s) => CqlView::Text(s@),
        None => CqlView::NotSet,
    }
}

fn settable_value(t: &Option<String>) -> (r: CqlValue)
    ensures
        r@ == settable(*t),
{
    match t {
        Some(s) => text_value(s.as_str()),
        None => CqlValue::NotSet,
    }
}

/// The statement that claims the name of a table in the catalog.
pub open spec fn insert_table_stmt(catalog: Seq<char>, t: NewTable) -> StatementView {
    stmt(
        "INSERT INTO "@ + catalog
            + ".tables (account_id, table_name, table_id, table_arn, key_schema, attribute_definitions, billing_mode, provisioned_throughput, stream_specification, table_status, created_at, deletion_protection_enabled, status_transition_at) VALUES (?, ?, ?, ?, ?, ?, ?, ?, ?, ?, ?, ?, ?) IF NOT EXISTS"@,
        seq![
            CqlView::Text(t.account_id@),
            CqlView::Text(t.table_name@),
            CqlView::Text(t.table_id@),
            CqlView::Text(t.table_arn@),
            CqlView::Text(t.key_schema_json@),
            CqlView::Text(t.attribute_definitions_json@),
            CqlView::Text(billing_text_of(t.billing_mode)),
            settable(t.provisioned_throughput_json),
            settable(t.stream_specification_json),
            CqlView::Text(status_text_of(t.status)),
            CqlView::BigInt(t.created_at),
            CqlView::Boolean(t.deletion_protection),
            match t.status_transition_at {
                Some(at) => CqlView::BigInt(at),
                None => CqlView::Null,
            },
        ],
    )
}

/// The statement that claims the name of a table in the catalog.
pub fn insert_table(catalog: &str, t: &NewTable) -> (r: Statement)
    ensures
        r@ == insert_table_stmt(catalog@, *t),
{
    let mut values: Vec<CqlValue> = Vec::new();
    push_value(&mut values, text_value(t.account_id.as_str()));
    push_value(&mut values, text_value(t.table_name.as_str()));
    push_value(&mut values, text_value(t.table_id.as_str()));
    push_value(&mut values, text_value(t.table_arn.as_str()));
    push_value(&mut values, text_value(t.key_schema_json.as_str()));
    push_value(&mut values, text_value(t.attribute_definitions_json.as_str()));
    push_value(&mut values, text_value(billing_text(t.billing_mode)));
    push_value(&mut values, settable_value(&t.provisioned_throughput_json));
    push_value(&mut values, settable_value(&t.stream_specification_json));
    push_value(&mut values, text_value(status_text(t.status)));
    push_value(&mut values, CqlValue::BigInt(t.created_at));
    push_value(&mut values, CqlValue::Boolean(t.deletion_protection));
    let transition = match t.status_transition_at {
        Some(at) => CqlValue::BigInt(at),
        None => CqlValue::Null,
    };
    push_value(&mut values, transition);
    proof {
        assert(values_view(values@) =~= insert_table_stmt(catalog@, *t).values);
    }
    Statement {
        cql: cat3(
            "INSERT INTO ",
            catalog,
            ".tables (account_id, table_name, table_id, table_arn, key_schema, attribute_definitions, billing_mode, provisioned_throughput, stream_specification, table_status, created_at, deletion_protection_enabled, status_transition_at) VALUES (?, ?, ?, ?, ?, ?, ?, ?, ?, ?, ?, ?, ?) IF NOT EXISTS",
        ),
        values,
    }
}

/// The outcome of claiming a name: one that is taken is `TableAlreadyExists`.
pub fn table_inserted(rows: &Vec<Row>, table_name: &str) -> (r: Result<(), StorageError>)
    ensures
        if rows@.len() == 0 || rows@[0].cell("[applied]"@) == Cell::Boolean(true) {
            r is Ok
        } else if rows@[0].cell("[applied]"@) == Cell::Boolean(false) {
            r matches Err(StorageError::TableAlreadyExists(n)) && n@ == table_name@
        } else {
            r matches Err(e) && is_internal(
                e,
                "Failed to parse [applied]: "@ + read_error::<bool>(
                    rows@[0],
                    "[applied]"@,
                ),
            )
        },
{
    if rows.len() == 0 {
        return Ok(());
    }
    match applied_column(&rows[0]) {
        Ok(b) => if b {
            Ok(())
        } else {
            Err(StorageError::TableAlreadyExists(table_name.to_owned()))
        },
        Err(m) => Err(StorageError::Internal(cat2("Failed to parse [applied]: ", m.as_str()))),
    }
}

/// An index of a new table. The throughput is that of a GSI; an LSI has none.
#[derive(Debug, PartialEq, Eq)]
pub struct NewIndex {
    pub index_id: String,
    pub index_name: String,
    pub key_schema: Vec<KeySchemaElement>,
    pub key_schema_json: String,
    pub projection_json: String,
    pub throughput_json: Option<String>,
}

/// A tag of a new table.
#[derive(Debug, PartialEq, Eq)]
pub struct Tag {
    pub key: String,
    pub value: String,
}

/// What a step of setting a table up does.
#[derive(Clone, Copy, Debug, PartialEq, Eq, Structural)]
pub enum SetupKind {
    GsiRow,
    LsiRow,
    TagRow,
    StreamShards,
    DataTable,
    IndexTable,
}

/// A step of setting a table up.
#[derive(Debug, PartialEq, Eq)]
pub struct SetupStep {
    pub kind: SetupKind,
    pub statement: Statement,
}

/// The steps as kinds and statements.
pub open spec fn steps_view(steps: Seq<SetupStep>) -> Seq<(SetupKind, StatementView)> {
    steps.map_values(|s: SetupStep| (s.kind, s.statement@))
}

/// The statement that records an index.
pub open spec fn insert_index_stmt(
    catalog: Seq<char>,
    table_id: Seq<char>,
    is_gsi: bool,
    x: NewIndex,
) -> StatementView {
    stmt(
        "INSERT INTO "@ + catalog
            + ".indexes (table_id, index_name, index_id, index_type, key_schema, projection, index_status, provisioned_throughput) VALUES (?, ?, ?, "@
            + (if is_gsi {
            "'GSI'"@
        } else {
            "'LSI'"@
        }) + ", ?, ?, 'ACTIVE', ?)"@,
        seq![
            CqlView::Text(table_id),
            CqlView::Text(x.index_name@),
            CqlView::Text(x.index_id@),
            CqlView::Text(x.key_schema_json@),
            CqlView::Text(x.projection_json@),
            if is_gsi {
                settable(x.throughput_json)
            } else {
                CqlView::NotSet
            },
        ],
    )
}

fn insert_index(catalog: &str, table_id: &str, is_gsi: bool, x: &NewIndex) -> (r: Statement)
    ensures
        r@ == insert_index_stmt(catalog@, table_id@, is_gsi, *x),
{
    let mut values: Vec<CqlValue> = Vec::new();
    push_value(&mut values, text_value(table_id));
    push_value(&mut values, text_value(x.index_name.as_str()));
    push_value(&mut values, text_value(x.index_id.as_str()));
    push_value(&mut values, text_value(x.key_schema_json.as_str()));
    push_value(&mut values, text_value(x.projection_json.as_str()));
    let throughput = if is_gsi {
        settable_value(&x.throughput_json)
    } else {
        CqlValue::NotSet
    };
    push_value(&mut values, throughput);
    proof {
        assert(values_view(values@) =~= insert_index_stmt(catalog@, table_id@, is_gsi, *x).values);
    }
    let kind = if is_gsi {
        "'GSI'"
    } else {
        "'LSI'"
    };
    Statement {
        cql: cat5(
            "INSERT INTO ",
            catalog,
            ".indexes (table_id, index_name, index_id, index_type, key_schema, projection, index_status, provisioned_throughput) VALUES (?, ?, ?, ",
            kind,
            ", ?, ?, 'ACTIVE', ?)",
        ),
        values,
    }
}

/// The statement that records a tag.
pub open spec fn insert_tag_stmt(catalog: Seq<char>, table_arn: Seq<char>, t: Tag) -> StatementView {
    stmt(
        "INSERT INTO "@ + catalog + ".tags (resource_arn, tag_key, tag_value) VALUES (?, ?, ?)"@,
        seq![CqlView::Text(table_arn), CqlView::Text(t.key@), CqlView::Text(t.value@)],
    )
}

fn push_step(steps: &mut Vec<SetupStep>, kind: SetupKind, statement: Statement)
    ensures
        steps_view(final(steps)@) == steps_view(old(steps)@).push((kind, statement@)),
{
    steps.push(SetupStep { kind, statement });
    proof {
        assert(steps_view(steps@) =~= steps_view(old(steps)@).push((kind, statement@)));
    }
}

/// The rows of the indexes of a table.
pub open spec fn index_row_steps(
    catalog: Seq<char>,
    table_id: Seq<char>,
    is_gsi: bool,
    indexes: Seq<NewIndex>,
) -> Seq<(SetupKind, StatementView)> {
    indexes.map_values(
        |x: NewIndex|
            (
                if is_gsi {
                    SetupKind::GsiRow
                } else {
                    SetupKind::LsiRow
                },
                insert_index_stmt(catalog, table_id, is_gsi, x),
            ),
    )
}

fn push_index_rows(
    steps: &mut Vec<SetupStep>,
    catalog: &str,
    table_id: &str,
    is_gsi: bool,
    indexes: &Vec<NewIndex>,
)
    ensures
        steps_view(final(steps)@) == steps_view(old(steps)@) + index_row_steps(
            catalog@,
            table_id@,
            is_gsi,
            indexes@,
        ),
{
    let ghost start = steps_view(steps@);
    let kind = if is_gsi {
        SetupKind::GsiRow
    } else {
        SetupKind::LsiRow
    };
    let mut i: usize = 0;
    proof {
        assert(indexes@.take(0) =~= Seq::empty());
        assert(start =~= start + index_row_steps(
            catalog@,
            table_id@,
            is_gsi,
            indexes@.take(0),
        ));
    }
    while i < indexes.len()
        invariant
            i <= indexes@.len(),
            kind == (if is_gsi {
                SetupKind::GsiRow
            } else {
                SetupKind::LsiRow
            }),
            steps_view(steps@) == start + index_row_steps(
                catalog@,
                table_id@,
                is_gsi,
                indexes@.take(i as int),
            ),
        decreases indexes@.len() - i,
    {
        push_step(steps, kind, insert_index(catalog, table_id, is_gsi, &indexes[i]));
        proof {
            assert(indexes@.take(i + 1) =~= indexes@.take(i as int).push(indexes@[i as int]));
            assert(steps_view(steps@) =~= start + index_row_steps(
                catalog@,
                table_id@,
                is_gsi,
                indexes@.take(i + 1),
            ));
        }
        i = i + 1;
    }
    proof {
        assert(indexes@.take(i as int) =~= indexes@);
    }
}

/// The rows of the tags of a table.
pub open spec fn tag_steps(catalog: Seq<char>, table_arn: Seq<char>, tags: Seq<Tag>) -> Seq<
    (SetupKind, StatementView),
> {
    tags.map_values(|t: Tag| (SetupKind::TagRow, insert_tag_stmt(catalog, table_arn, t)))
}

fn push_tags(steps: &mut Vec<SetupStep>, catalog: &str, table_arn: &str, tags: &Vec<Tag>)
    ensures
        steps_view(final(steps)@) == steps_view(old(steps)@) + tag_steps(
            catalog@,
            table_arn@,
            tags@,
        ),
{
    let ghost start = steps_view(steps@);
    let mut i: usize = 0;
    proof {
        assert(tags@.take(0) =~= Seq::empty());
        assert(start =~= start + tag_steps(catalog@, table_arn@, tags@.take(0)));
    }
    while i < tags.len()
        invariant
            i <= tags@.len(),
            steps_view(steps@) == start + tag_steps(catalog@, table_arn@, tags@.take(i as int)),
        decreases tags@.len() - i,
    {
        let row = stmt3(
            cat3(
                "INSERT INTO ",
                catalog,
                ".tags (resource_arn, tag_key, tag_value) VALUES (?, ?, ?)",
            ),
            text_value(table_arn),
            text_value(tags[i].key.as_str()),
            text_value(tags[i].value.as_str()),
        );
        push_step(steps, SetupKind::TagRow, row);
        proof {
            assert(tags@.take(i + 1) =~= tags@.take(i as int).push(tags@[i as int]));
            assert(steps_view(steps@) =~= start + tag_steps(
                catalog@,
                table_arn@,
                tags@.take(i + 1),
            ));
        }
        i = i + 1;
    }
    proof {
        assert(tags@.take(i as int) =~= tags@);
    }
}

/// The data tables of the indexes of a table.
pub open spec fn index_table_steps(
    account_keyspace: Seq<char>,
    indexes: Seq<NewIndex>,
    key_schema: Seq<KeySchemaElement>,
    attr_defs: Seq<AttributeDefinition>,
) -> Seq<(SetupKind, StatementView)> {
    indexes.map_values(
        |x: NewIndex|
            (
                SetupKind::IndexTable,
                create_index_stmt(
                    account_keyspace,
                    x.index_id@,
                    sort_keys(x.key_schema@, attr_defs),
                    sort_keys(key_schema, attr_defs),
                ),
            ),
    )
}

fn push_index_tables(
    steps: &mut Vec<SetupStep>,
    account_keyspace: &str,
    indexes: &Vec<NewIndex>,
    key_schema: &Vec<KeySchemaElement>,
    attr_defs: &Vec<AttributeDefinition>,
)
    ensures
        steps_view(final(steps)@) == steps_view(old(steps)@) + index_table_steps(
            account_keyspace@,
            indexes@,
            key_schema@,
            attr_defs@,
        ),
{
    let ghost start = steps_view(steps@);
    let mut i: usize = 0;
    proof {
        assert(indexes@.take(0) =~= Seq::empty());
        assert(start =~= start + index_table_steps(
            account_keyspace@,
            indexes@.take(0),
            key_schema@,
            attr_defs@,
        ));
    }
    while i < indexes.len()
        invariant
            i <= indexes@.len(),
            steps_view(steps@) == start + index_table_steps(
                account_keyspace@,
                indexes@.take(i as int),
                key_schema@,
                attr_defs@,
            ),
        decreases indexes@.len() - i,
    {
        let table = CassandraEngine::create_index_data_table(
            account_keyspace,
            indexes[i].index_id.as_str(),
            indexes[i].key_schema.as_slice(),
            attr_defs.as_slice(),
            key_schema.as_slice(),
            attr_defs.as_slice(),
        );
        push_step(steps, SetupKind::IndexTable, table);
        proof {
            assert(indexes@.take(i + 1) =~= indexes@.take(i as int).push(indexes@[i as int]));
            assert(steps_view(steps@) =~= start + index_table_steps(
                account_keyspace@,
                indexes@.take(i + 1),
                key_schema@,
                attr_defs@,
            ));
        }
        i = i + 1;
    }
    proof {
        assert(indexes@.take(i as int) =~= indexes@);
    }
}

/// Where a table is created and what it consists of, besides its catalog row. The
/// stream batch is there where the stream is enabled.
#[derive(Debug, PartialEq, Eq)]
pub struct TableSetup {
    pub catalog: String,
    pub account_keyspace: String,
    pub table_id: String,
    pub table_arn: String,
    pub key_schema: Vec<KeySchemaElement>,
    pub attribute_definitions: Vec<AttributeDefinition>,
    pub gsis: Vec<NewIndex>,
    pub lsis: Vec<NewIndex>,
    pub tags: Vec<Tag>,
    pub stream_batch: Option<Statement>,
}

/// The steps that set a table up once its name is claimed, in their order: the rows
/// of its indexes and tags, its stream, its data table, and those of its indexes.
pub open spec fn setup_steps(s: TableSetup) -> Seq<(SetupKind, StatementView)> {
    index_row_steps(s.catalog@, s.table_id@, true, s.gsis@) + index_row_steps(
        s.catalog@,
        s.table_id@,
        false,
        s.lsis@,
    ) + tag_steps(s.catalog@, s.table_arn@, s.tags@) + (match s.stream_batch {
        Some(b) => seq![(SetupKind::StreamShards, b@)],
        None => Seq::empty(),
    }) + seq![
        (
            SetupKind::DataTable,
            stmt(
                create_data_table_cql(
                    s.account_keyspace@,
                    s.table_id@,
                    sort_keys(s.key_schema@, s.attribute_definitions@),
                ),
                seq![],
            ),
        ),
    ] + index_table_steps(
        s.account_keyspace@,
        s.gsis@,
        s.key_schema@,
        s.attribute_definitions@,
    ) + index_table_steps(s.account_keyspace@, s.lsis@, s.key_schema@, s.attribute_definitions@)
}

/// Plan how a table is set up once its name is claimed.
pub fn create_table_impl_inner(s: TableSetup) -> (r: Vec<SetupStep>)
    ensures
        steps_view(r@) == setup_steps(s),
{
    let TableSetup {
        catalog,
        account_keyspace,
        table_id,
        table_arn,
        key_schema,
        attribute_definitions,
        gsis,
        lsis,
        tags,
        stream_batch,
    } = s;
    let mut steps: Vec<SetupStep> = Vec::new();
    proof {
        assert(steps_view(steps@) =~= Seq::empty());
    }
    push_index_rows(&mut steps, catalog.as_str(), table_id.as_str(), true, &gsis);
    push_index_rows(&mut steps, catalog.as_str(), table_id.as_str(), false, &lsis);
    push_tags(&mut steps, catalog.as_str(), table_arn.as_str(), &tags);
    match stream_batch {
        Some(b) => {
            push_step(&mut steps, SetupKind::StreamShards, b);
        },
        None => {},
    }
    let table = create_data_table(
        account_keyspace.as_str(),
        table_id.as_str(),
        key_schema.as_slice(),
        attribute_definitions.as_slice(),
    );
    push_step(&mut steps, SetupKind::DataTable, table);
    push_index_tables(
        &mut steps,
        account_keyspace.as_str(),
        &gsis,
        &key_schema,
        &attribute_definitions,
    );
    push_index_tables(
        &mut steps,
        account_keyspace.as_str(),
        &lsis,
        &key_schema,
        &attribute_definitions,
    );
    proof {
        assert(steps_view(steps@) =~= setup_steps(s));
    }
    steps
}

/// The error of a step that failed.
pub fn setup_error(kind: SetupKind, cause: &str) -> (e: StorageError)
    ensures
        is_internal(
            e,
            (match kind {
                SetupKind::GsiRow => "Failed to insert GSI: "@,
                SetupKind::LsiRow => "Failed to insert LSI: "@,
                SetupKind::TagRow => "Failed to insert tag: "@,
                SetupKind::StreamShards => "Failed to initialize stream shards: "@,
                SetupKind::DataTable => "Failed to create data table: "@,
                SetupKind::IndexTable => "Failed to create index table: "@,
            }) + cause@,
        ),
{
    let what = match kind {
        SetupKind::GsiRow => "Failed to insert GSI: ",
        SetupKind::LsiRow => "Failed to insert LSI: ",
        SetupKind::TagRow => "Failed to insert tag: ",
        SetupKind::StreamShards => "Failed to initialize stream shards: ",
        SetupKind::DataTable => "Failed to create data table: ",
        SetupKind::IndexTable => "Failed to create index table: ",
    };
    StorageError::Internal(cat2(what, cause))
}

/// A GSI of the request, with its name in the answer.
#[derive(Debug, PartialEq, Eq)]
pub struct GsiInput {
    pub index_name: String,
    pub key_schema: Vec<KeySchemaElement>,
    pub projection: Projection,
    pub throughput: Option<ProvisionedThroughput>,
    pub index_arn: String,
}

/// An LSI of the request, with its name in the answer.
#[derive(Debug, PartialEq, Eq)]
pub struct LsiInput {
    pub index_name: String,
    pub key_schema: Vec<KeySchemaElement>,
    pub projection: Projection,
    pub index_arn: String,
}

/// A GSI in the answer.
#[derive(Debug, PartialEq, Eq)]
pub struct GsiDescription {
    pub index_name: String,
    pub key_schema: Vec<KeySchemaElement>,
    pub projection: Projection,
    pub index_status: String,
    pub throughput: ProvisionedThroughput,
    pub index_size_bytes: i64,
    pub item_count: i64,
    pub index_arn: String,
}

/// An LSI in the answer.
#[derive(Debug, PartialEq, Eq)]
pub struct LsiDescription {
    pub index_name: String,
    pub key_schema: Vec<KeySchemaElement>,
    pub projection: Projection,
    pub index_size_bytes: i64,
    pub item_count: i64,
    pub index_arn: String,
}

/// The capacity that is reported: zero where none was asked for.
pub open spec fn units_or_zero(t: Option<ProvisionedThroughput>) -> ProvisionedThroughput {
    match t {
        Some(u) => u,
        None => ProvisionedThroughput { read_capacity_units: 0, write_capacity_units: 0 },
    }
}

/// The capacity that is reported: zero where none was asked for.
pub fn reported_throughput(t: Option<ProvisionedThroughput>) -> (r: ProvisionedThroughput)
    ensures
        r == units_or_zero(t),
{
    match t {
        Some(u) => u,
        None => ProvisionedThroughput { read_capacity_units: 0, write_capacity_units: 0 },
    }
}

/// The description of a new GSI: active and empty.
pub fn describe_gsi(g: GsiInput) -> (r: GsiDescription)
    ensures
        r.index_status@ == "ACTIVE"@,
        r == (GsiDescription {
            index_name: g.index_name,
            key_schema: g.key_schema,
            projection: g.projection,
            index_status: r.index_status,
            throughput: units_or_zero(g.throughput),
            index_size_bytes: 0,
            item_count: 0,
            index_arn: g.index_arn,
        }),
{
    let throughput = reported_throughput(g.throughput);
    GsiDescription {
        index_name: g.index_name,
        key_schema: g.key_schema,
        projection: g.projection,
        index_status: "ACTIVE".to_owned(),
        throughput,
        index_size_bytes: 0,
        item_count: 0,
        index_arn: g.index_arn,
    }
}

/// The description of a new LSI: empty.
pub fn describe_lsi(l: LsiInput) -> (r: LsiDescription)
    ensures
        r == (LsiDescription {
            index_name: l.index_name,
            key_schema: l.key_schema,
            projection: l.projection,
            index_size_bytes: 0,
            item_count: 0,
            index_arn: l.index_arn,
        }),
{
    LsiDescription {
        index_name: l.index_name,
        key_schema: l.key_schema,
        projection: l.projection,
        index_size_bytes: 0,
        item_count: 0,
        index_arn: l.index_arn,
    }
}

/// What the answer to a creation says of the table itself. Times are in
/// milliseconds.
#[derive(Debug, PartialEq, Eq)]
pub struct TableSummary {
    pub table_status: TableStatus,
    pub created_at_millis: i64,
    pub table_size_bytes: i64,
    pub item_count: i64,
    pub throughput: ProvisionedThroughput,
    pub pay_per_request_since_millis: Option<i64>,
    pub deletion_protection_enabled: bool,
}

/// Summarize a new table: it is empty, and reports since when it is billed per
/// request where it is.
pub fn summarize_table(t: &NewTable, throughput: Option<ProvisionedThroughput>) -> (r: TableSummary)
    ensures
        r == (TableSummary {
            table_status: t.status,
            created_at_millis: t.created_at,
            table_size_bytes: 0,
            item_count: 0,
            throughput: units_or_zero(throughput),
            pay_per_request_since_millis: if t.billing_mode == BillingMode::PayPerRequest {
                Some(t.created_at)
            } else {
                None
            },
            deletion_protection_enabled: t.deletion_protection,
        }),
{
    TableSummary {
        table_status: t.status,
        created_at_millis: t.created_at,
        table_size_bytes: 0,
        item_count: 0,
        throughput: reported_throughput(throughput),
        pay_per_request_since_millis: match t.billing_mode {
            BillingMode::PayPerRequest => Some(t.created_at),
            BillingMode::Provisioned => None,
        },
        deletion_protection_enabled: t.deletion_protection,
    }
}

} // verus!
