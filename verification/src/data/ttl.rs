//! The TTL expiration queue.
//!
//! DynamoDB TTL cannot use Cassandra native row TTL because native expiry
//! bypasses secondary-index cleanup and DynamoDB Streams. Valid timestamps are
//! indexed into day-bucketed, 64-way sharded partitions and are deleted through
//! the normal item mutation path.
use vstd::prelude::*;
use crate::cassandra_util::{
    applied_column, get_column, get_optional, read_error, text_of, trunc_div, trunc_quotient, Cell,
    Row,
};
use crate::cql::{
    push_statement, push_value, statements_view, stmt, stmt1, stmt2, stmt3, stmt4, stmt5,
    text_value, uuid_value, values_view, CqlValue, CqlView, Statement, StatementView,
};
use crate::error::{internal, is_internal, is_transient, StorageError};
use crate::ids::{crc32, crc32_of, new_uuid};
use crate::model::{AttributeValue, AttributeView, Item, KeySchemaElement, TableKeyInfo};
use crate::text::joined;
use crate::text::{
    cat2, cat3, cat4, cat5, debug_text, debug_text_of, hex8, hex8_text, i64_text, int_text, nat_text, parse_i64, parsed_i64,
    str_eq, u64_text,
};
use vstd::utf8::encode_utf8;
use crate::command::{
    cell_passes, lemma_joined_2, lemma_joined_push, read_stmt, row_passes, compare, test_texts, Cells,
    Read, Sign,
};

verus! {

/// The number of shards of a day bucket.
pub const TTL_SHARDS: i32 = 64;

/// The seconds of a day bucket.
pub const TTL_BUCKET_SECONDS: i64 = 86_400;

/// Upper bound on registry partitions a single sweep cycle will visit.
///
/// The registry holds one row per `(day bucket, shard)` ever written, so
/// without a cap the per-cycle query fan-out grows linearly with the age of
/// the table. Partitions are rotated between cycles, so capping bounds the
/// cost of a cycle without starving any partition.
pub const TTL_MAX_PARTITIONS_PER_CYCLE: usize = 512;

/// The TTL setting of a table: the attribute, and the generation (a UUID) of its
/// queue partitions.
#[derive(Debug, PartialEq, Eq)]
pub struct TtlConfig {
    pub attribute: String,
    pub generation: Vec<u8>,
}

/// The key of a queue row.
#[derive(Debug, PartialEq, Eq)]
pub struct TtlEntry {
    pub bucket: i64,
    pub expires_at: i64,
    pub shard: i32,
    pub key_hash: String,
    pub key_data: String,
}

/// The state of a queue row.
#[derive(Clone, Copy, Debug, PartialEq, Eq, Structural)]
pub enum TtlWorkState {
    Pending,
    Claimed,
    ClaimAborting,
    EffectsApplying,
    EffectsApplied,
}

/// The state that a persisted value stands for; `None` where it is unknown.
pub open spec fn state_of(value: Option<Seq<char>>) -> Option<TtlWorkState> {
    match value {
        None => Some(TtlWorkState::Pending),
        Some(v) => if v == "CLAIMED"@ {
            Some(TtlWorkState::Claimed)
        } else if v == "CLAIM_ABORTING"@ {
            Some(TtlWorkState::ClaimAborting)
        } else if v == "EFFECTS_APPLYING"@ {
            Some(TtlWorkState::EffectsApplying)
        } else if v == "EFFECTS_APPLIED"@ {
            Some(TtlWorkState::EffectsApplied)
        } else if v == "PENDING"@ {
            Some(TtlWorkState::Pending)
        } else {
            None
        },
    }
}

/// The characters of an optional text.
pub open spec fn opt_str(value: Option<&str>) -> Option<Seq<char>> {
    match value {
        Some(v) => Some(v@),
        None => None,
    }
}

impl TtlWorkState {
    /// Parse a persisted state string.
    ///
    /// An unrecognised value is an error rather than a silent downgrade to
    /// `PENDING`: a row written by a newer state machine must not be re-claimed
    /// and re-executed by an older one.
    pub fn parse(value: Option<&str>) -> (r: Result<TtlWorkState, StorageError>)
        ensures
            match r {
                Ok(s) => state_of(opt_str(value)) == Some(s),
                Err(e) => state_of(opt_str(value)) is None && is_internal(
                    e,
                    "Unknown TTL work state "@ + debug_text_of(value->0@),
                ),
            },
    {
        match value {
            None => Ok(TtlWorkState::Pending),
            Some(v) => if str_eq(v, "CLAIMED") {
                Ok(TtlWorkState::Claimed)
            } else if str_eq(v, "CLAIM_ABORTING") {
                Ok(TtlWorkState::ClaimAborting)
            } else if str_eq(v, "EFFECTS_APPLYING") {
                Ok(TtlWorkState::EffectsApplying)
            } else if str_eq(v, "EFFECTS_APPLIED") {
                Ok(TtlWorkState::EffectsApplied)
            } else if str_eq(v, "PENDING") {
                Ok(TtlWorkState::Pending)
            } else {
                Err(
                    StorageError::Internal(
                        cat2("Unknown TTL work state ", debug_text(v).as_str()),
                    ),
                )
            },
        }
    }
}

/// A persisted state reads as pending only where it is absent or says so: no other
/// state, known or unknown, is downgraded.
pub proof fn law_state_not_downgraded(value: Option<Seq<char>>)
    ensures
        state_of(value) == Some(TtlWorkState::Pending) <==> (value is None || value->0
            == "PENDING"@),
{
    reveal_strlit("PENDING");
    reveal_strlit("CLAIMED");
    reveal_strlit("CLAIM_ABORTING");
    reveal_strlit("EFFECTS_APPLYING");
    reveal_strlit("EFFECTS_APPLIED");
    assert("PENDING"@[0] == 'P');
    assert("CLAIMED"@[0] == 'C');
    assert("CLAIM_ABORTING"@[0] == 'C');
    assert("EFFECTS_APPLYING"@[0] == 'E');
    assert("EFFECTS_APPLIED"@[0] == 'E');
}

/// What the stream record of an expiration carries.
#[derive(Debug, PartialEq, Eq)]
pub struct TtlStreamPlan {
    pub event_id: String,
    pub sequence_number: String,
    pub created_at_ms: i64,
    pub region: String,
    pub view_type: String,
}

/// What claimed expiration work carries.
#[derive(Debug, PartialEq, Eq)]
pub struct TtlWorkData {
    pub old_item: Item,
    pub delete_timestamp_ms: i64,
    pub stream: Option<TtlStreamPlan>,
}

/// A queue row.
#[derive(Debug, PartialEq, Eq)]
pub struct TtlWorkRow {
    pub entry: TtlEntry,
    pub state: TtlWorkState,
    pub work_id: Option<Vec<u8>>,
    pub work_data: Option<TtlWorkData>,
}

/// The expiration time of an item: its TTL attribute, where that is a number that
/// reads as a positive 64-bit integer.
pub open spec fn expiry(item: Map<Seq<char>, AttributeView>, attribute: Seq<char>) -> Option<i64> {
    if item.dom().contains(attribute) {
        match item[attribute] {
            AttributeView::N(text) => match parsed_i64(text) {
                Some(v) => if v > 0 {
                    Some(v)
                } else {
                    None
                },
                None => None,
            },
            _ => None,
        }
    } else {
        None
    }
}

/// The expiration time of an item, in seconds.
pub fn ttl_epoch_seconds(item: &Item, attribute: &str) -> (r: Option<i64>)
    ensures
        r == expiry(item@, attribute@),
{
    match item.get(attribute) {
        Some(AttributeValue::N(value)) => match parse_i64(value.as_str()) {
            Some(v) => if v > 0 {
                Some(v)
            } else {
                None
            },
            None => None,
        },
        _ => None,
    }
}

/// The first key attribute that the item lacks, if any.
pub open spec fn missing_key(
    item: Map<Seq<char>, AttributeView>,
    schema: Seq<KeySchemaElement>,
) -> Option<Seq<char>>
    decreases schema.len(),
{
    if schema.len() == 0 {
        None
    } else if !item.dom().contains(schema[0].attribute_name@) {
        Some(schema[0].attribute_name@)
    } else {
        missing_key(item, schema.drop_first())
    }
}

/// The item is the key of another one: its key attributes and nothing else.
pub open spec fn is_key_of(
    key: Map<Seq<char>, AttributeView>,
    item: Map<Seq<char>, AttributeView>,
    schema: Seq<KeySchemaElement>,
) -> bool {
    key == item.restrict(crate::data::index::key_names(schema))
}

fn extract_ttl_key(item: &Item, schema: &Vec<KeySchemaElement>, what: &str) -> (r: Result<
    Item,
    StorageError,
>)
    ensures
        match r {
            Ok(key) => missing_key(item@, schema@) is None && is_key_of(key@, item@, schema@),
            Err(e) => missing_key(item@, schema@) is Some && is_internal(
                e,
                what@ + missing_key(item@, schema@)->0,
            ),
        },
{
    let mut key = Item::new();
    let mut i: usize = 0;
    proof {
        assert(schema@.skip(0) =~= schema@);
        assert(key@ =~= item@.restrict(crate::data::index::key_names(schema@.take(0))));
    }
    while i < schema.len()
        invariant
            i <= schema@.len(),
            missing_key(item@, schema@) == missing_key(item@, schema@.skip(i as int)),
            key@ == item@.restrict(crate::data::index::key_names(schema@.take(i as int))),
        decreases schema@.len() - i,
    {
        let ghost name = schema@[i as int].attribute_name@;
        match item.get(schema[i].attribute_name.as_str()) {
            Some(v) => {
                key.insert(schema[i].attribute_name.clone(), v.clone());
            },
            None => {
                return Err(
                    StorageError::Internal(cat2(what, schema[i].attribute_name.as_str())),
                );
            },
        }
        proof {
            let a = crate::data::index::key_names(schema@.take(i as int));
            let b = crate::data::index::key_names(schema@.take(i + 1));
            assert forall|n: Seq<char>| b.contains(n) == a.insert(name).contains(n) by {
                if b.contains(n) {
                    let k = choose|k: int|
                        0 <= k < i + 1 && (#[trigger] schema@.take(i + 1)[k]).attribute_name@ == n;
                    if k < i {
                        assert(schema@.take(i as int)[k].attribute_name@ == n);
                    }
                }
                if a.contains(n) {
                    let k = choose|k: int|
                        0 <= k < i && (#[trigger] schema@.take(i as int)[k]).attribute_name@ == n;
                    assert(schema@.take(i + 1)[k].attribute_name@ == n);
                }
                assert(schema@.take(i + 1)[i as int].attribute_name@ == name);
            }
            assert(b =~= a.insert(name));
            assert(key@ =~= item@.restrict(b));
            assert(schema@.skip(i as int).drop_first() =~= schema@.skip(i + 1));
        }
        i = i + 1;
    }
    proof {
        assert(schema@.take(i as int) =~= schema@);
    }
    Ok(key)
}

/// The key of an item that expires: `None` where it does not, an error where it
/// lacks a key attribute.
pub fn ttl_key(key_info: &TableKeyInfo, item: &Item, ttl_attribute: &str) -> (r: Result<
    Option<Item>,
    StorageError,
>)
    ensures
        match r {
            Ok(None) => expiry(item@, ttl_attribute@) is None,
            Ok(Some(key)) => expiry(item@, ttl_attribute@) is Some && missing_key(
                item@,
                key_info.key_schema@,
            ) is None && is_key_of(key@, item@, key_info.key_schema@),
            Err(e) => expiry(item@, ttl_attribute@) is Some && missing_key(
                item@,
                key_info.key_schema@,
            ) is Some && is_internal(
                e,
                "TTL item missing key attribute "@ + missing_key(
                    item@,
                    key_info.key_schema@,
                )->0,
            ),
        },
{
    match ttl_epoch_seconds(item, ttl_attribute) {
        None => Ok(None),
        Some(_) => match extract_ttl_key(
            item,
            &key_info.key_schema,
            "TTL item missing key attribute ",
        ) {
            Ok(key) => Ok(Some(key)),
            Err(e) => Err(e),
        },
    }
}

/// The shard of a key, by the checksum of its JSON text.
pub open spec fn shard_of(key_data: Seq<char>) -> int {
    crc32_of(encode_utf8(key_data)) as int % 64
}

/// The entry is that of an expiration time and of the JSON text of a key.
pub open spec fn is_entry(e: TtlEntry, expires_at: i64, key_data: Seq<char>) -> bool {
    &&& e.expires_at == expires_at
    &&& e.bucket == expires_at as int / 86_400
    &&& e.shard == shard_of(key_data)
    &&& e.key_hash@ == hex8_text(crc32_of(encode_utf8(key_data)) as nat)
    &&& e.key_data@ == key_data
}

fn shard_for(key_data: &str) -> (r: i32)
    ensures
        r == shard_of(key_data@),
        0 <= r < TTL_SHARDS,
{
    (crc32(key_data.as_bytes()) % 64) as i32
}

/// The queue entry of an expiration time and of the JSON text of a key.
pub fn entry_for_key(expires_at: i64, key_data: &str) -> (r: TtlEntry)
    requires
        expires_at > 0,
    ensures
        is_entry(r, expires_at, key_data@),
{
    let hash: u32 = crc32(key_data.as_bytes());
    TtlEntry {
        bucket: expires_at / TTL_BUCKET_SECONDS,
        expires_at,
        shard: (hash % 64) as i32,
        key_hash: hex8(hash),
        key_data: key_data.to_owned(),
    }
}

/// The queue entry of an item, given the JSON text of its key: `None` where the
/// item does not expire, an error where it lacks a key attribute.
pub fn entry_for_item(
    key_info: &TableKeyInfo,
    item: &Item,
    ttl_attribute: &str,
    key_data: &str,
) -> (r: Result<Option<TtlEntry>, StorageError>)
    ensures
        match r {
            Ok(None) => expiry(item@, ttl_attribute@) is None,
            Ok(Some(e)) => expiry(item@, ttl_attribute@) is Some && missing_key(
                item@,
                key_info.key_schema@,
            ) is None && is_entry(e, expiry(item@, ttl_attribute@)->0, key_data@),
            Err(e) => expiry(item@, ttl_attribute@) is Some && missing_key(
                item@,
                key_info.key_schema@,
            ) is Some && is_internal(
                e,
                "TTL item missing key attribute "@ + missing_key(
                    item@,
                    key_info.key_schema@,
                )->0,
            ),
        },
{
    match ttl_epoch_seconds(item, ttl_attribute) {
        None => Ok(None),
        Some(expires_at) => {
            let _key = extract_ttl_key(
                item,
                &key_info.key_schema,
                "TTL item missing key attribute ",
            )?;
            Ok(Some(entry_for_key(expires_at, key_data)))
        },
    }
}

/// Every entry lies in one of the shards, in the bucket of its day.
pub proof fn law_entry_placement(e: TtlEntry, expires_at: i64, key_data: Seq<char>)
    requires
        expires_at > 0,
        is_entry(e, expires_at, key_data),
    ensures
        0 <= e.shard < TTL_SHARDS,
        e.bucket * TTL_BUCKET_SECONDS <= e.expires_at < (e.bucket + 1) * TTL_BUCKET_SECONDS,
{
}

/// The two entries address the same queue row.
pub open spec fn same_key(left: TtlEntry, right: TtlEntry) -> bool {
    &&& left.bucket == right.bucket
    &&& left.expires_at == right.expires_at
    &&& left.shard == right.shard
    &&& left.key_hash@ == right.key_hash@
    &&& left.key_data@ == right.key_data@
}

/// Whether two entries address the same queue row.
pub fn same_queue_key(left: &TtlEntry, right: &TtlEntry) -> (r: bool)
    ensures
        r == same_key(*left, *right),
{
    left.bucket == right.bucket && left.expires_at == right.expires_at && left.shard == right.shard
        && str_eq(left.key_hash.as_str(), right.key_hash.as_str()) && str_eq(
        left.key_data.as_str(),
        right.key_data.as_str(),
    )
}

/// Entries of items share a queue row exactly where they agree on the expiration
/// time and on the key.
pub proof fn law_same_key_iff_same_time_and_key(
    a: TtlEntry,
    a_time: i64,
    a_key: Seq<char>,
    b: TtlEntry,
    b_time: i64,
    b_key: Seq<char>,
)
    requires
        is_entry(a, a_time, a_key),
        is_entry(b, b_time, b_key),
    ensures
        same_key(a, b) <==> a_time == b_time && a_key == b_key,
{
}

/// The values that address a queue row.
pub open spec fn entry_key(table_id: Seq<char>, generation: Seq<u8>, e: TtlEntry) -> Seq<CqlView> {
    seq![
        CqlView::Text(table_id),
        CqlView::Uuid(generation),
        CqlView::BigInt(e.bucket),
        CqlView::Int(e.shard),
        CqlView::BigInt(e.expires_at),
        CqlView::Text(e.key_hash@),
        CqlView::Text(e.key_data@),
    ]
}

fn push_entry_key(values: &mut Vec<CqlValue>, table_id: &str, generation: &Vec<u8>, e: &TtlEntry)
    ensures
        values_view(final(values)@) == values_view(old(values)@) + entry_key(
            table_id@,
            generation@,
            *e,
        ),
{
    let ghost start = values_view(values@);
    push_value(values, text_value(table_id));
    push_value(values, uuid_value(generation));
    push_value(values, CqlValue::BigInt(e.bucket));
    push_value(values, CqlValue::Int(e.shard));
    push_value(values, CqlValue::BigInt(e.expires_at));
    push_value(values, text_value(e.key_hash.as_str()));
    push_value(values, text_value(e.key_data.as_str()));
    proof {
        assert(values_view(values@) =~= start + entry_key(table_id@, generation@, *e));
    }
}

fn entry_stmt(cql: String, table_id: &str, generation: &Vec<u8>, e: &TtlEntry) -> (r: Statement)
    ensures
        r@ == stmt(cql@, entry_key(table_id@, generation@, *e)),
{
    let mut values: Vec<CqlValue> = Vec::new();
    push_entry_key(&mut values, table_id, generation, e);
    proof {
        assert(values_view(values@) =~= entry_key(table_id@, generation@, *e));
    }
    Statement { cql, values }
}

fn entry_work_stmt(
    cql: String,
    table_id: &str,
    generation: &Vec<u8>,
    e: &TtlEntry,
    work_id: &Vec<u8>,
) -> (r: Statement)
    ensures
        r@ == stmt(
            cql@,
            entry_key(table_id@, generation@, *e).push(CqlView::Uuid(work_id@)),
        ),
{
    let mut values: Vec<CqlValue> = Vec::new();
    push_entry_key(&mut values, table_id, generation, e);
    push_value(&mut values, uuid_value(work_id));
    proof {
        assert(values_view(values@) =~= entry_key(table_id@, generation@, *e).push(
            CqlView::Uuid(work_id@),
        ));
    }
    Statement { cql, values }
}

/// The statement that removes a queue row.
pub open spec fn delete_entry_stmt(
    ks: Seq<char>,
    table_id: Seq<char>,
    generation: Seq<u8>,
    e: TtlEntry,
) -> StatementView {
    stmt(
        "DELETE FROM "@ + ks
            + ".ttl_expirations WHERE table_id = ? AND generation = ? AND bucket = ? AND shard = ? AND expires_at = ? AND key_hash = ? AND key_data = ?"@,
        entry_key(table_id, generation, e),
    )
}

/// The statement that registers the bucket of an entry.
pub open spec fn register_stmt(
    ks: Seq<char>,
    table_id: Seq<char>,
    generation: Seq<u8>,
    e: TtlEntry,
) -> StatementView {
    stmt(
        "INSERT INTO "@ + ks
            + ".ttl_expiration_buckets (table_id, generation, bucket, shard) VALUES (?, ?, ?, ?)"@,
        seq![
            CqlView::Text(table_id),
            CqlView::Uuid(generation),
            CqlView::BigInt(e.bucket),
            CqlView::Int(e.shard),
        ],
    )
}

/// The statement that adds a pending queue row.
pub open spec fn insert_entry_stmt(
    ks: Seq<char>,
    table_id: Seq<char>,
    generation: Seq<u8>,
    e: TtlEntry,
) -> StatementView {
    stmt(
        "INSERT INTO "@ + ks
            + ".ttl_expirations (table_id, generation, bucket, shard, expires_at, key_hash, key_data, state, work_id, work_data) VALUES (?, ?, ?, ?, ?, ?, ?, 'PENDING', null, null)"@,
        entry_key(table_id, generation, e),
    )
}

fn register_bucket(ks: &str, table_id: &str, generation: &Vec<u8>, e: &TtlEntry) -> (r: Statement)
    ensures
        r@ == register_stmt(ks@, table_id@, generation@, *e),
{
    stmt4(
        cat3(
            "INSERT INTO ",
            ks,
            ".ttl_expiration_buckets (table_id, generation, bucket, shard) VALUES (?, ?, ?, ?)",
        ),
        text_value(table_id),
        uuid_value(generation),
        CqlValue::BigInt(e.bucket),
        CqlValue::Int(e.shard),
    )
}

/// The entry stays where it is.
pub open spec fn entry_unchanged(old_entry: Option<TtlEntry>, new_entry: Option<TtlEntry>) -> bool {
    old_entry is Some && new_entry is Some && same_key(old_entry->0, new_entry->0)
}

/// The queue mutations of a write: remove the old entry unless the new one is the
/// same row, then register the bucket of the new entry and add it.
pub open spec fn queue_stmts(
    ks: Seq<char>,
    table_id: Seq<char>,
    generation: Seq<u8>,
    old_entry: Option<TtlEntry>,
    new_entry: Option<TtlEntry>,
) -> Seq<StatementView> {
    (if old_entry is Some && !entry_unchanged(old_entry, new_entry) {
        seq![delete_entry_stmt(ks, table_id, generation, old_entry->0)]
    } else {
        Seq::empty()
    }) + (match new_entry {
        Some(e) => seq![
            register_stmt(ks, table_id, generation, e),
            insert_entry_stmt(ks, table_id, generation, e),
        ],
        None => Seq::empty(),
    })
}

/// Append the queue mutations of a write to its batch.
pub fn add_ttl_queue_mutations(
    batch: &mut Vec<Statement>,
    account_keyspace: &str,
    table_id: &str,
    generation: &Vec<u8>,
    old_entry: Option<TtlEntry>,
    new_entry: Option<TtlEntry>,
)
    ensures
        statements_view(final(batch)@) == statements_view(old(batch)@) + queue_stmts(
            account_keyspace@,
            table_id@,
            generation@,
            old_entry,
            new_entry,
        ),
{
    let ghost start = statements_view(batch@);
    let unchanged = match (&old_entry, &new_entry) {
        (Some(old), Some(new)) => same_queue_key(old, new),
        _ => false,
    };
    if !unchanged {
        match &old_entry {
            Some(old) => {
                let cql = cat3(
                    "DELETE FROM ",
                    account_keyspace,
                    ".ttl_expirations WHERE table_id = ? AND generation = ? AND bucket = ? AND shard = ? AND expires_at = ? AND key_hash = ? AND key_data = ?",
                );
                push_statement(batch, entry_stmt(cql, table_id, generation, old));
            },
            None => {},
        }
    }
    match &new_entry {
        Some(new) => {
            push_statement(batch, register_bucket(account_keyspace, table_id, generation, new));
            let cql = cat3(
                "INSERT INTO ",
                account_keyspace,
                ".ttl_expirations (table_id, generation, bucket, shard, expires_at, key_hash, key_data, state, work_id, work_data) VALUES (?, ?, ?, ?, ?, ?, ?, 'PENDING', null, null)",
            );
            push_statement(batch, entry_stmt(cql, table_id, generation, new));
        },
        None => {},
    }
    proof {
        assert(statements_view(batch@) =~= start + queue_stmts(
            account_keyspace@,
            table_id@,
            generation@,
            old_entry,
            new_entry,
        ));
    }
}

/// A write that leaves the expiration time and the key as they are deletes nothing
/// from the queue; one that changes them removes the old queue row before it adds
/// the new one.
pub proof fn law_queue_mutations(
    ks: Seq<char>,
    table_id: Seq<char>,
    generation: Seq<u8>,
    old_entry: TtlEntry,
    new_entry: TtlEntry,
)
    ensures
        ({
            let s = queue_stmts(ks, table_id, generation, Some(old_entry), Some(new_entry));
            if same_key(old_entry, new_entry) {
                s == seq![
                    register_stmt(ks, table_id, generation, new_entry),
                    insert_entry_stmt(ks, table_id, generation, new_entry),
                ]
            } else {
                s == seq![
                    delete_entry_stmt(ks, table_id, generation, old_entry),
                    register_stmt(ks, table_id, generation, new_entry),
                    insert_entry_stmt(ks, table_id, generation, new_entry),
                ]
            }
        }),
{
    let s = queue_stmts(ks, table_id, generation, Some(old_entry), Some(new_entry));
    if same_key(old_entry, new_entry) {
        assert(s =~= seq![
            register_stmt(ks, table_id, generation, new_entry),
            insert_entry_stmt(ks, table_id, generation, new_entry),
        ]);
    } else {
        assert(s =~= seq![
            delete_entry_stmt(ks, table_id, generation, old_entry),
            register_stmt(ks, table_id, generation, new_entry),
            insert_entry_stmt(ks, table_id, generation, new_entry),
        ]);
    }
}

/// The statement that adds a row to the reconciliation outbox.
pub open spec fn outbox_stmt(
    ks: Seq<char>,
    partition: int,
    table_id: Seq<char>,
    account_id: Seq<char>,
    table_name: Seq<char>,
    key_data: Seq<char>,
) -> StatementView {
    stmt(
        "INSERT INTO "@ + ks
            + ".ttl_reconcile_pending (worker_partition, id, table_id, account_id, table_name, key_data) VALUES (?, now(), ?, ?, ?, ?)"@,
        seq![
            CqlView::Int(partition as i32),
            CqlView::Text(table_id),
            CqlView::Text(account_id),
            CqlView::Text(table_name),
            CqlView::Text(key_data),
        ],
    )
}

fn outbox_insert(
    ks: &str,
    partition: i32,
    table_id: &str,
    account_id: &str,
    table_name: &str,
    key_data: &str,
) -> (r: Statement)
    ensures
        r@ == outbox_stmt(ks@, partition as int, table_id@, account_id@, table_name@, key_data@),
{
    stmt5(
        cat3(
            "INSERT INTO ",
            ks,
            ".ttl_reconcile_pending (worker_partition, id, table_id, account_id, table_name, key_data) VALUES (?, now(), ?, ?, ?, ?)",
        ),
        CqlValue::Int(partition),
        text_value(table_id),
        text_value(account_id),
        text_value(table_name),
        text_value(key_data),
    )
}

/// The key of an item whose write needs a reconciliation row: `None` where the
/// item does not expire, an error where it lacks a key attribute.
pub fn reconciliation_key(key_info: &TableKeyInfo, item: &Item, ttl_attribute: &str) -> (r: Result<
    Option<Item>,
    StorageError,
>)
    ensures
        match r {
            Ok(None) => expiry(item@, ttl_attribute@) is None,
            Ok(Some(key)) => expiry(item@, ttl_attribute@) is Some && missing_key(
                item@,
                key_info.key_schema@,
            ) is None && is_key_of(key@, item@, key_info.key_schema@),
            Err(e) => expiry(item@, ttl_attribute@) is Some && missing_key(
                item@,
                key_info.key_schema@,
            ) is Some && is_internal(
                e,
                "TTL reconciliation item missing key attribute "@ + missing_key(
                    item@,
                    key_info.key_schema@,
                )->0,
            ),
        },
{
    match ttl_epoch_seconds(item, ttl_attribute) {
        None => Ok(None),
        Some(_) => match extract_ttl_key(
            item,
            &key_info.key_schema,
            "TTL reconciliation item missing key attribute ",
        ) {
            Ok(key) => Ok(Some(key)),
            Err(e) => Err(e),
        },
    }
}

/// Add the durable reconciliation-outbox row for a write, when one is needed: the
/// JSON text of the key of an item that expires.
///
/// The outbox is not a duplicate of the in-batch queue mutations. The queue
/// table takes concurrent Paxos writes from the expiration worker: a worker
/// that claimed the same queue key can supersede the batch's insert by cell
/// timestamp, and its abort path row-deletes with a tombstone that erases the
/// batch's insert outright. The outbox row survives until a quorum-authoritative
/// reconciliation restores both the bucket registration and queue row.
pub fn add_ttl_reconciliation_mutation(
    batch: &mut Vec<Statement>,
    account_keyspace: &str,
    key_info: &TableKeyInfo,
    key_data: Option<&String>,
)
    ensures
        statements_view(final(batch)@) == (match key_data {
            Some(k) => statements_view(old(batch)@).push(
                outbox_stmt(
                    account_keyspace@,
                    shard_of(k@),
                    key_info.table_id@,
                    key_info.account_id@,
                    key_info.table_name@,
                    k@,
                ),
            ),
            None => statements_view(old(batch)@),
        }),
{
    match key_data {
        Some(k) => {
            let s = outbox_insert(
                account_keyspace,
                shard_for(k.as_str()),
                key_info.table_id.as_str(),
                key_info.account_id.as_str(),
                key_info.table_name.as_str(),
                k.as_str(),
            );
            push_statement(batch, s);
        },
        None => {},
    }
}

/// A durable marker for one queue-row destroy attempt.
#[derive(Debug, PartialEq, Eq)]
pub struct TtlRepairGuard {
    pub worker_partition: i32,
    pub repair_id: Vec<u8>,
    pub table_id: String,
    pub account_id: String,
    pub table_name: String,
    pub key_data: String,
}

/// The guard marks a destroy attempt on a key of the table.
pub open spec fn guards(
    g: TtlRepairGuard,
    key_info: TableKeyInfo,
    key_data: Seq<char>,
    repair_id: Seq<u8>,
) -> bool {
    &&& g.worker_partition == shard_of(key_data)
    &&& g.repair_id@ == repair_id
    &&& g.table_id@ == key_info.table_id@
    &&& g.account_id@ == key_info.account_id@
    &&& g.table_name@ == key_info.table_name@
    &&& g.key_data@ == key_data
}

/// The batch that records a repair marker: the registry row and the marker.
pub open spec fn record_stmts(
    ks: Seq<char>,
    generation: Seq<u8>,
    g: TtlRepairGuard,
) -> Seq<StatementView> {
    seq![
        stmt(
            "INSERT INTO "@ + ks
                + ".ttl_repair_inflight_partitions (worker_partition) VALUES (?)"@,
            seq![CqlView::Int(g.worker_partition)],
        ),
        stmt(
            "INSERT INTO "@ + ks
                + ".ttl_repair_inflight (worker_partition, repair_id, table_id, account_id, table_name, generation, key_data, created_at) VALUES (?, ?, ?, ?, ?, ?, ?, toTimestamp(now()))"@,
            seq![
                CqlView::Int(g.worker_partition),
                CqlView::Uuid(g.repair_id@),
                CqlView::Text(g.table_id@),
                CqlView::Text(g.account_id@),
                CqlView::Text(g.table_name@),
                CqlView::Uuid(generation),
                CqlView::Text(g.key_data@),
            ],
        ),
    ]
}

/// Build the batch that durably records that a key may need its queue entry
/// rebuilt, before a queue-row destroy is attempted, with a fresh marker id.
///
/// The id is new for each attempt: a marker shared between two concurrent destroy
/// attempts would let the completion of one delete the marker that guards the
/// other.
pub fn record_ttl_repair(
    account_keyspace: &str,
    key_info: &TableKeyInfo,
    generation: &Vec<u8>,
    key_data: &str,
) -> (r: (Vec<Statement>, TtlRepairGuard))
    ensures
        guards(r.1, *key_info, key_data@, r.1.repair_id@),
        r.1.repair_id@.len() == 16,
        statements_view(r.0@) == record_stmts(account_keyspace@, generation@, r.1),
{
    record_ttl_repair_as(account_keyspace, key_info, generation, key_data, new_uuid())
}

/// Build the batch that records a repair marker with the given id.
pub fn record_ttl_repair_as(
    account_keyspace: &str,
    key_info: &TableKeyInfo,
    generation: &Vec<u8>,
    key_data: &str,
    repair_id: Vec<u8>,
) -> (r: (Vec<Statement>, TtlRepairGuard))
    ensures
        guards(r.1, *key_info, key_data@, repair_id@),
        statements_view(r.0@) == record_stmts(account_keyspace@, generation@, r.1),
{
    let worker_partition: i32 = shard_for(key_data);
    let mut batch: Vec<Statement> = Vec::new();
    push_statement(
        &mut batch,
        stmt1(
            cat3(
                "INSERT INTO ",
                account_keyspace,
                ".ttl_repair_inflight_partitions (worker_partition) VALUES (?)",
            ),
            CqlValue::Int(worker_partition),
        ),
    );
    let mut values: Vec<CqlValue> = Vec::new();
    push_value(&mut values, CqlValue::Int(worker_partition));
    push_value(&mut values, uuid_value(&repair_id));
    push_value(&mut values, text_value(key_info.table_id.as_str()));
    push_value(&mut values, text_value(key_info.account_id.as_str()));
    push_value(&mut values, text_value(key_info.table_name.as_str()));
    push_value(&mut values, uuid_value(generation));
    push_value(&mut values, text_value(key_data));
    let marker = Statement {
        cql: cat3(
            "INSERT INTO ",
            account_keyspace,
            ".ttl_repair_inflight (worker_partition, repair_id, table_id, account_id, table_name, generation, key_data, created_at) VALUES (?, ?, ?, ?, ?, ?, ?, toTimestamp(now()))",
        ),
        values,
    };
    let guard = TtlRepairGuard {
        worker_partition,
        repair_id,
        table_id: key_info.table_id.clone(),
        account_id: key_info.account_id.clone(),
        table_name: key_info.table_name.clone(),
        key_data: key_data.to_owned(),
    };
    proof {
        assert(marker@ =~= record_stmts(account_keyspace@, generation@, guard)[1]);
    }
    push_statement(&mut batch, marker);
    proof {
        assert(statements_view(batch@) =~= record_stmts(account_keyspace@, generation@, guard));
    }
    (batch, guard)
}

/// The statement that hands a repair to the outbox.
pub open spec fn handoff_stmt(ks: Seq<char>, g: TtlRepairGuard) -> StatementView {
    outbox_stmt(
        ks,
        g.worker_partition as int,
        g.table_id@,
        g.account_id@,
        g.table_name@,
        g.key_data@,
    )
}

/// The statement that removes a repair marker.
pub open spec fn unmark_stmt(ks: Seq<char>, g: TtlRepairGuard) -> StatementView {
    stmt(
        "DELETE FROM "@ + ks
            + ".ttl_repair_inflight WHERE worker_partition = ? AND repair_id = ?"@,
        seq![CqlView::Int(g.worker_partition), CqlView::Uuid(g.repair_id@)],
    )
}

impl TtlRepairGuard {
    /// Hand a definitively completed destroy to the normal reconciliation
    /// outbox, then remove the non-dischargeable inflight marker: the two
    /// statements, to be run in this order.
    ///
    /// The ordering is the safety property: every crash point leaves at least
    /// one quorum-durable obligation. If marker deletion fails, both records
    /// remain and reconciliation is merely repeated.
    pub fn complete(&self, account_keyspace: &str) -> (r: Vec<Statement>)
        ensures
            statements_view(r@) == seq![
                handoff_stmt(account_keyspace@, *self),
                unmark_stmt(account_keyspace@, *self),
            ],
    {
        let mut out: Vec<Statement> = Vec::new();
        push_statement(
            &mut out,
            outbox_insert(
                account_keyspace,
                self.worker_partition,
                self.table_id.as_str(),
                self.account_id.as_str(),
                self.table_name.as_str(),
                self.key_data.as_str(),
            ),
        );
        push_statement(
            &mut out,
            stmt2(
                cat3(
                    "DELETE FROM ",
                    account_keyspace,
                    ".ttl_repair_inflight WHERE worker_partition = ? AND repair_id = ?",
                ),
                CqlValue::Int(self.worker_partition),
                uuid_value(&self.repair_id),
            ),
        );
        proof {
            assert(statements_view(out@) =~= seq![
                handoff_stmt(account_keyspace@, *self),
                unmark_stmt(account_keyspace@, *self),
            ]);
        }
        out
    }
}

/// A queue-row destroy under a repair marker: the batch that records the marker,
/// the conditional destroy, and the statements that complete the handoff. They are
/// run in this order; where the outcome of one is unknown the rest is not run.
#[derive(Debug, PartialEq, Eq)]
pub struct GuardedDestroy {
    pub record: Vec<Statement>,
    pub destroy: Statement,
    pub complete: Vec<Statement>,
}

/// The statements of a guarded destroy in the order in which they run.
pub open spec fn destroy_order(d: GuardedDestroy) -> Seq<StatementView> {
    statements_view(d.record@).push(d.destroy@) + statements_view(d.complete@)
}

/// The destroy is guarded by a marker on the key.
pub open spec fn is_guarded(
    d: GuardedDestroy,
    ks: Seq<char>,
    key_info: TableKeyInfo,
    generation: Seq<u8>,
    key_data: Seq<char>,
    destroy: StatementView,
) -> bool {
    exists|g: TtlRepairGuard|
        #[trigger] guards(g, key_info, key_data, g.repair_id@) && statements_view(d.record@)
            == record_stmts(ks, generation, g) && d.destroy@ == destroy && statements_view(
            d.complete@,
        ) == seq![handoff_stmt(ks, g), unmark_stmt(ks, g)]
}

/// Wherever a guarded destroy stops, an obligation to repair is left: before the
/// destroy runs its marker is recorded, the marker is removed by the last statement
/// only, and by then the repair has been handed to the outbox.
pub proof fn law_destroy_leaves_an_obligation(
    ks: Seq<char>,
    generation: Seq<u8>,
    g: TtlRepairGuard,
    d: GuardedDestroy,
    ran: int,
)
    requires
        statements_view(d.record@) == record_stmts(ks, generation, g),
        statements_view(d.complete@) == seq![handoff_stmt(ks, g), unmark_stmt(ks, g)],
        d.destroy@ != unmark_stmt(ks, g),
        0 <= ran <= destroy_order(d).len(),
    ensures
        destroy_order(d)[2] == d.destroy@,
        ran > 2 ==> destroy_order(d).take(ran).contains(record_stmts(ks, generation, g)[1]),
        destroy_order(d).take(ran).contains(unmark_stmt(ks, g)) ==> ran == destroy_order(d).len()
            && destroy_order(d).take(ran).contains(handoff_stmt(ks, g)),
{
    let all = destroy_order(d);
    let done = all.take(ran);
    let marker = record_stmts(ks, generation, g)[1];
    assert(all.len() == 5);
    assert(all[0] == record_stmts(ks, generation, g)[0]);
    assert(all[1] == marker);
    assert(all[2] == d.destroy@);
    assert(all[3] == handoff_stmt(ks, g));
    assert(all[4] == unmark_stmt(ks, g));
    reveal_strlit("INSERT INTO ");
    reveal_strlit("DELETE FROM ");
    assert(all[0].cql[0] == 'I');
    assert(marker.cql[0] == 'I');
    assert(handoff_stmt(ks, g).cql[0] == 'I');
    assert(unmark_stmt(ks, g).cql[0] == 'D');
    if ran > 2 {
        assert(done[1] == marker);
    }
    if done.contains(unmark_stmt(ks, g)) {
        let i = choose|i: int| 0 <= i < done.len() && done[i] == unmark_stmt(ks, g);
        assert(i == 4);
        assert(done[3] == handoff_stmt(ks, g));
    }
}

fn guard_destroy(
    account_keyspace: &str,
    key_info: &TableKeyInfo,
    generation: &Vec<u8>,
    key_data: &str,
    destroy: Statement,
) -> (r: GuardedDestroy)
    ensures
        is_guarded(r, account_keyspace@, *key_info, generation@, key_data@, destroy@),
{
    let (record, guard) = record_ttl_repair(account_keyspace, key_info, generation, key_data);
    let complete = guard.complete(account_keyspace);
    let r = GuardedDestroy { record, destroy, complete };
    proof {
        assert(guards(guard, *key_info, key_data@, guard.repair_id@));
    }
    r
}

/// The statement that confirms the registration of the bucket of an entry.
pub open spec fn confirm_stmt(
    ks: Seq<char>,
    table_id: Seq<char>,
    generation: Seq<u8>,
    e: TtlEntry,
) -> StatementView {
    stmt(
        "SELECT shard FROM "@ + ks
            + ".ttl_expiration_buckets WHERE table_id = ? AND generation = ? AND bucket = ? AND shard = ?"@,
        seq![
            CqlView::Text(table_id),
            CqlView::Uuid(generation),
            CqlView::BigInt(e.bucket),
            CqlView::Int(e.shard),
        ],
    )
}

/// Restore the registration of the bucket of an entry: write it, then read it back.
pub fn ensure_ttl_bucket_registration(
    account_keyspace: &str,
    table_id: &str,
    generation: &Vec<u8>,
    entry: &TtlEntry,
) -> (r: (Statement, Statement))
    ensures
        r.0@ == register_stmt(account_keyspace@, table_id@, generation@, *entry),
        r.1@ == confirm_stmt(account_keyspace@, table_id@, generation@, *entry),
{
    let confirm = stmt4(
        cat3(
            "SELECT shard FROM ",
            account_keyspace,
            ".ttl_expiration_buckets WHERE table_id = ? AND generation = ? AND bucket = ? AND shard = ?",
        ),
        text_value(table_id),
        uuid_value(generation),
        CqlValue::BigInt(entry.bucket),
        CqlValue::Int(entry.shard),
    );
    (register_bucket(account_keyspace, table_id, generation, entry), confirm)
}

/// Where the restoration of a queue row stands.
///
/// Discoverability is restored before the fast path and confirmed again after the
/// queue row is known durable, so that a concurrent empty-partition retirement
/// cannot be the last mutation.
#[derive(Clone, Copy, Debug, PartialEq, Eq, Structural)]
pub enum InsertTtlState {
    /// The bucket registration is being restored.
    Registering,
    /// The queue row is being looked up.
    Prechecking,
    /// The queue row is being inserted, if it does not exist.
    Inserting,
    /// The bucket registration is being confirmed.
    Confirming,
}

/// The statements of a state.
pub open spec fn insert_ttl_stmts(
    state: InsertTtlState,
    ks: Seq<char>,
    table_id: Seq<char>,
    generation: Seq<u8>,
    e: TtlEntry,
) -> Seq<StatementView> {
    match state {
        InsertTtlState::Prechecking => seq![
            stmt(
                "SELECT state FROM "@ + ks
                    + ".ttl_expirations WHERE table_id = ? AND generation = ? AND bucket = ? AND shard = ? AND expires_at = ? AND key_hash = ? AND key_data = ?"@,
                entry_key(table_id, generation, e),
            ),
        ],
        InsertTtlState::Inserting => seq![
            stmt(
                "INSERT INTO "@ + ks
                    + ".ttl_expirations (table_id, generation, bucket, shard, expires_at, key_hash, key_data, state) VALUES (?, ?, ?, ?, ?, ?, ?, 'PENDING') IF NOT EXISTS"@,
                entry_key(table_id, generation, e),
            ),
        ],
        _ => seq![
            register_stmt(ks, table_id, generation, e),
            confirm_stmt(ks, table_id, generation, e),
        ],
    }
}

/// The statements to run in a state; the rows of the last one decide what follows.
pub fn insert_ttl_entry(
    state: InsertTtlState,
    account_keyspace: &str,
    table_id: &str,
    generation: &Vec<u8>,
    entry: &TtlEntry,
) -> (r: Vec<Statement>)
    ensures
        statements_view(r@) == insert_ttl_stmts(
            state,
            account_keyspace@,
            table_id@,
            generation@,
            *entry,
        ),
{
    let mut out: Vec<Statement> = Vec::new();
    match state {
        InsertTtlState::Prechecking => {
            let cql = cat3(
                "SELECT state FROM ",
                account_keyspace,
                ".ttl_expirations WHERE table_id = ? AND generation = ? AND bucket = ? AND shard = ? AND expires_at = ? AND key_hash = ? AND key_data = ?",
            );
            push_statement(&mut out, entry_stmt(cql, table_id, generation, entry));
        },
        InsertTtlState::Inserting => {
            let cql = cat3(
                "INSERT INTO ",
                account_keyspace,
                ".ttl_expirations (table_id, generation, bucket, shard, expires_at, key_hash, key_data, state) VALUES (?, ?, ?, ?, ?, ?, ?, 'PENDING') IF NOT EXISTS",
            );
            push_statement(&mut out, entry_stmt(cql, table_id, generation, entry));
        },
        _ => {
            let (register, confirm) = ensure_ttl_bucket_registration(
                account_keyspace,
                table_id,
                generation,
                entry,
            );
            push_statement(&mut out, register);
            push_statement(&mut out, confirm);
        },
    }
    proof {
        assert(statements_view(out@) =~= insert_ttl_stmts(
            state,
            account_keyspace@,
            table_id@,
            generation@,
            *entry,
        ));
    }
    out
}

/// The persisted state of a row.
pub open spec fn row_state(row: Row) -> Option<Seq<char>> {
    text_of(row.cell("state"@))
}

/// What follows a state, by the rows that its last statement gave: the next state,
/// or `None` where the restoration is complete.
///
/// Claimed work owns its key and may row-delete it while crashing before its
/// compensating reconcile. Reporting success there would remove the outbox row
/// that repairs exactly that, so the outcome stays retryable.
pub fn insert_ttl_entry_next(state: InsertTtlState, rows: &Vec<Row>) -> (r: Result<
    Option<InsertTtlState>,
    StorageError,
>)
    ensures
        match state {
            InsertTtlState::Registering | InsertTtlState::Confirming => if rows@.len() == 0 {
                r matches Err(e) && is_transient(
                    e,
                    "TTL bucket restoration is not yet visible at quorum"@,
                )
            } else if state == InsertTtlState::Registering {
                r == Ok::<Option<InsertTtlState>, StorageError>(Some(InsertTtlState::Prechecking))
            } else {
                r == Ok::<Option<InsertTtlState>, StorageError>(None)
            },
            InsertTtlState::Prechecking => if rows@.len() == 0 {
                r == Ok::<Option<InsertTtlState>, StorageError>(Some(InsertTtlState::Inserting))
            } else {
                match state_of(row_state(rows@[0])) {
                    Some(TtlWorkState::Pending) => r == Ok::<
                        Option<InsertTtlState>,
                        StorageError,
                    >(Some(InsertTtlState::Confirming)),
                    Some(_) => r matches Err(e) && is_transient(
                        e,
                        "TTL reconciliation deferred by in-flight expiration work"@,
                    ),
                    None => r matches Err(e) && is_internal(
                        e,
                        "Unknown TTL work state "@ + debug_text_of(row_state(rows@[0])->0),
                    ),
                }
            },
            InsertTtlState::Inserting => if rows@.len() == 0 {
                r matches Err(e) && is_internal(e, "TTL reconcile LWT returned no result"@)
            } else {
                match rows@[0].cell("[applied]"@) {
                    Cell::Boolean(applied) => if applied || row_state(rows@[0]) == Some(
                        "PENDING"@,
                    ) {
                        r == Ok::<Option<InsertTtlState>, StorageError>(
                            Some(InsertTtlState::Confirming),
                        )
                    } else {
                        r matches Err(e) && is_transient(
                            e,
                            "TTL reconciliation deferred by in-flight expiration work"@,
                        )
                    },
                    _ => r matches Err(e) && is_internal(
                        e,
                        "Parse TTL reconcile result: "@ + read_error::<bool>(rows@[0], "[applied]"@),
                    ),
                }
            },
        },
{
    match state {
        InsertTtlState::Registering | InsertTtlState::Confirming => {
            if rows.len() == 0 {
                Err(
                    StorageError::Transient(
                        "TTL bucket restoration is not yet visible at quorum".to_owned(),
                    ),
                )
            } else if state == InsertTtlState::Registering {
                Ok(Some(InsertTtlState::Prechecking))
            } else {
                Ok(None)
            }
        },
        InsertTtlState::Prechecking => {
            if rows.len() == 0 {
                return Ok(Some(InsertTtlState::Inserting));
            }
            let text: Option<String> = get_optional(&rows[0], "state");
            let parsed = match &text {
                Some(t) => TtlWorkState::parse(Some(t.as_str())),
                None => TtlWorkState::parse(None),
            };
            match parsed {
                Err(e) => Err(e),
                Ok(s) => if s == TtlWorkState::Pending {
                    Ok(Some(InsertTtlState::Confirming))
                } else {
                    Err(
                        StorageError::Transient(
                            "TTL reconciliation deferred by in-flight expiration work".to_owned(),
                        ),
                    )
                },
            }
        },
        InsertTtlState::Inserting => {
            if rows.len() == 0 {
                return Err(internal("TTL reconcile LWT returned no result"));
            }
            match applied_column(&rows[0]) {
                Err(m) => Err(
                    StorageError::Internal(cat2("Parse TTL reconcile result: ", m.as_str())),
                ),
                Ok(applied) => {
                    let text: Option<String> = get_optional(&rows[0], "state");
                    let pending = match &text {
                        Some(t) => str_eq(t.as_str(), "PENDING"),
                        None => false,
                    };
                    if applied || pending {
                        Ok(Some(InsertTtlState::Confirming))
                    } else {
                        Err(
                            StorageError::Transient(
                                "TTL reconciliation deferred by in-flight expiration work".to_owned(),
                            ),
                        )
                    }
                },
            }
        },
    }
}

/// The statement that claims pending work.
pub fn claim_ttl_work(
    account_keyspace: &str,
    table_id: &str,
    generation: &Vec<u8>,
    entry: &TtlEntry,
    work_id: &Vec<u8>,
    work_json: &str,
) -> (r: Statement)
    ensures
        r@ == stmt(
            "UPDATE "@ + account_keyspace@
                + ".ttl_expirations SET state = 'CLAIMED', work_id = ?, work_data = ? WHERE table_id = ? AND generation = ? AND bucket = ? AND shard = ? AND expires_at = ? AND key_hash = ? AND key_data = ? IF state = 'PENDING'"@,
            seq![CqlView::Uuid(work_id@), CqlView::Text(work_json@)] + entry_key(
                table_id@,
                generation@,
                *entry,
            ),
        ),
{
    let mut values: Vec<CqlValue> = Vec::new();
    push_value(&mut values, uuid_value(work_id));
    push_value(&mut values, text_value(work_json));
    push_entry_key(&mut values, table_id, generation, entry);
    proof {
        assert(values_view(values@) =~= seq![CqlView::Uuid(work_id@), CqlView::Text(work_json@)]
            + entry_key(table_id@, generation@, *entry));
    }
    Statement {
        cql: cat3(
            "UPDATE ",
            account_keyspace,
            ".ttl_expirations SET state = 'CLAIMED', work_id = ?, work_data = ? WHERE table_id = ? AND generation = ? AND bucket = ? AND shard = ? AND expires_at = ? AND key_hash = ? AND key_data = ? IF state = 'PENDING'",
        ),
        values,
    }
}

/// A change of state of claimed work.
#[derive(Clone, Copy, Debug, PartialEq, Eq, Structural)]
pub enum TtlTransition {
    EffectsApplying,
    EffectsApplied,
    ClaimAborting,
}

/// The text of a change of state, with the state that it starts from.
pub open spec fn transition_text(t: TtlTransition, ks: Seq<char>) -> Seq<char> {
    let (to, from) = match t {
        TtlTransition::EffectsApplying => ("EFFECTS_APPLYING"@, "CLAIMED"@),
        TtlTransition::EffectsApplied => ("EFFECTS_APPLIED"@, "EFFECTS_APPLYING"@),
        TtlTransition::ClaimAborting => ("CLAIM_ABORTING"@, "CLAIMED"@),
    };
    "UPDATE "@ + ks + ".ttl_expirations SET state = '"@ + to
        + "' WHERE table_id = ? AND generation = ? AND bucket = ? AND shard = ? AND expires_at = ? AND key_hash = ? AND key_data = ? IF state = '"@
        + from + "' AND work_id = ?"@
}

fn transition(
    t: TtlTransition,
    account_keyspace: &str,
    table_id: &str,
    generation: &Vec<u8>,
    row: &TtlWorkRow,
) -> (r: Option<Statement>)
    ensures
        match row.work_id {
            None => r is None,
            Some(w) => r matches Some(s) && s@ == stmt(
                transition_text(t, account_keyspace@),
                entry_key(table_id@, generation@, row.entry).push(CqlView::Uuid(w@)),
            ),
        },
{
    let (to, from) = match t {
        TtlTransition::EffectsApplying => ("EFFECTS_APPLYING", "CLAIMED"),
        TtlTransition::EffectsApplied => ("EFFECTS_APPLIED", "EFFECTS_APPLYING"),
        TtlTransition::ClaimAborting => ("CLAIM_ABORTING", "CLAIMED"),
    };
    match &row.work_id {
        None => None,
        Some(w) => {
            let head = cat4("UPDATE ", account_keyspace, ".ttl_expirations SET state = '", to);
            let cql = cat4(
                head.as_str(),
                "' WHERE table_id = ? AND generation = ? AND bucket = ? AND shard = ? AND expires_at = ? AND key_hash = ? AND key_data = ? IF state = '",
                from,
                "' AND work_id = ?",
            );
            Some(entry_work_stmt(cql, table_id, generation, &row.entry, w))
        },
    }
}

/// The statement that marks claimed work as applying its effects; `None`, which
/// counts as not applied, for work without an id.
pub fn mark_ttl_effects_applying(
    account_keyspace: &str,
    table_id: &str,
    generation: &Vec<u8>,
    row: &TtlWorkRow,
) -> (r: Option<Statement>)
    ensures
        match row.work_id {
            None => r is None,
            Some(w) => r matches Some(s) && s@ == stmt(
                transition_text(TtlTransition::EffectsApplying, account_keyspace@),
                entry_key(table_id@, generation@, row.entry).push(CqlView::Uuid(w@)),
            ),
        },
{
    transition(TtlTransition::EffectsApplying, account_keyspace, table_id, generation, row)
}

/// The statement that marks the effects of work as applied; `None`, which counts
/// as not applied, for work without an id.
pub fn mark_ttl_effects_applied(
    account_keyspace: &str,
    table_id: &str,
    generation: &Vec<u8>,
    row: &TtlWorkRow,
) -> (r: Option<Statement>)
    ensures
        match row.work_id {
            None => r is None,
            Some(w) => r matches Some(s) && s@ == stmt(
                transition_text(TtlTransition::EffectsApplied, account_keyspace@),
                entry_key(table_id@, generation@, row.entry).push(CqlView::Uuid(w@)),
            ),
        },
{
    transition(TtlTransition::EffectsApplied, account_keyspace, table_id, generation, row)
}

/// The statement that marks claimed work as aborting; `None`, which counts as not
/// applied, for work without an id.
pub fn mark_ttl_claim_aborting(
    account_keyspace: &str,
    table_id: &str,
    generation: &Vec<u8>,
    row: &TtlWorkRow,
) -> (r: Option<Statement>)
    ensures
        match row.work_id {
            None => r is None,
            Some(w) => r matches Some(s) && s@ == stmt(
                transition_text(TtlTransition::ClaimAborting, account_keyspace@),
                entry_key(table_id@, generation@, row.entry).push(CqlView::Uuid(w@)),
            ),
        },
{
    transition(TtlTransition::ClaimAborting, account_keyspace, table_id, generation, row)
}

/// The statement that removes the queue row of work in a state.
pub open spec fn destroy_work_stmt(
    ks: Seq<char>,
    table_id: Seq<char>,
    generation: Seq<u8>,
    e: TtlEntry,
    state: Seq<char>,
    work_id: Seq<u8>,
) -> StatementView {
    stmt(
        "DELETE FROM "@ + ks
            + ".ttl_expirations WHERE table_id = ? AND generation = ? AND bucket = ? AND shard = ? AND expires_at = ? AND key_hash = ? AND key_data = ? IF state = '"@
            + state + "' AND work_id = ?"@,
        entry_key(table_id, generation, e).push(CqlView::Uuid(work_id)),
    )
}

fn destroy_work(
    account_keyspace: &str,
    table_id: &str,
    generation: &Vec<u8>,
    entry: &TtlEntry,
    state: &str,
    work_id: &Vec<u8>,
) -> (r: Statement)
    ensures
        r@ == destroy_work_stmt(
            account_keyspace@,
            table_id@,
            generation@,
            *entry,
            state@,
            work_id@,
        ),
{
    let cql = cat5(
        "DELETE FROM ",
        account_keyspace,
        ".ttl_expirations WHERE table_id = ? AND generation = ? AND bucket = ? AND shard = ? AND expires_at = ? AND key_hash = ? AND key_data = ? IF state = '",
        state,
        "' AND work_id = ?",
    );
    entry_work_stmt(cql, table_id, generation, entry, work_id)
}

/// The statement that removes the queue row of completed work; `None`, which
/// counts as not applied, for work without an id. On its own it is only correct
/// for a retired generation, into whose partitions active writers do not insert.
pub fn complete_ttl_work(
    account_keyspace: &str,
    table_id: &str,
    generation: &Vec<u8>,
    row: &TtlWorkRow,
) -> (r: Option<Statement>)
    ensures
        match row.work_id {
            None => r is None,
            Some(w) => r matches Some(s) && s@ == destroy_work_stmt(
                account_keyspace@,
                table_id@,
                generation@,
                row.entry,
                "EFFECTS_APPLIED"@,
                w@,
            ),
        },
{
    match &row.work_id {
        None => None,
        Some(w) => Some(
            destroy_work(account_keyspace, table_id, generation, &row.entry, "EFFECTS_APPLIED", w),
        ),
    }
}

/// Complete active-generation work under a durable repair handoff. Work without an
/// id destroys nothing, but its repair is still recorded and handed over: the
/// statements are the record and the completion alone, and the outcome counts as
/// not applied.
pub fn complete_live_ttl_work(
    account_keyspace: &str,
    key_info: &TableKeyInfo,
    generation: &Vec<u8>,
    row: &TtlWorkRow,
) -> (r: (Vec<Statement>, Option<Statement>, Vec<Statement>))
    ensures
        exists|g: TtlRepairGuard|
            #[trigger] guards(g, *key_info, row.entry.key_data@, g.repair_id@) && statements_view(
                r.0@,
            ) == record_stmts(account_keyspace@, generation@, g) && statements_view(r.2@) == seq![
                handoff_stmt(account_keyspace@, g),
                unmark_stmt(account_keyspace@, g),
            ],
        match row.work_id {
            None => r.1 is None,
            Some(w) => r.1 matches Some(s) && s@ == destroy_work_stmt(
                account_keyspace@,
                key_info.table_id@,
                generation@,
                row.entry,
                "EFFECTS_APPLIED"@,
                w@,
            ),
        },
{
    let (record, guard) = record_ttl_repair(
        account_keyspace,
        key_info,
        generation,
        row.entry.key_data.as_str(),
    );
    let destroy = complete_ttl_work(account_keyspace, key_info.table_id.as_str(), generation, row);
    let complete = guard.complete(account_keyspace);
    proof {
        assert(guards(guard, *key_info, row.entry.key_data@, guard.repair_id@));
    }
    (record, destroy, complete)
}

/// The statement that removes a pending queue row.
pub open spec fn retire_stmt(
    ks: Seq<char>,
    table_id: Seq<char>,
    generation: Seq<u8>,
    e: TtlEntry,
) -> StatementView {
    stmt(
        "DELETE FROM "@ + ks
            + ".ttl_expirations WHERE table_id = ? AND generation = ? AND bucket = ? AND shard = ? AND expires_at = ? AND key_hash = ? AND key_data = ? IF state = 'PENDING'"@,
        entry_key(table_id, generation, e),
    )
}

/// The raw conditional retire, without the repair record. Only correct for a
/// retired generation: current-config writers never insert into its partition
/// (the generation is part of the partition key), and a stale-config writer's
/// own outbox row reconciles into the current generation regardless of what
/// happens to its dead row here.
pub fn retire_pending_row(
    account_keyspace: &str,
    table_id: &str,
    generation: &Vec<u8>,
    entry: &TtlEntry,
) -> (r: Statement)
    ensures
        r@ == retire_stmt(account_keyspace@, table_id@, generation@, *entry),
{
    let cql = cat3(
        "DELETE FROM ",
        account_keyspace,
        ".ttl_expirations WHERE table_id = ? AND generation = ? AND bucket = ? AND shard = ? AND expires_at = ? AND key_hash = ? AND key_data = ? IF state = 'PENDING'",
    );
    entry_stmt(cql, table_id, generation, entry)
}

/// Retire pending work of the active generation under a repair marker.
pub fn retire_pending_ttl_work(
    account_keyspace: &str,
    key_info: &TableKeyInfo,
    generation: &Vec<u8>,
    entry: &TtlEntry,
) -> (r: GuardedDestroy)
    ensures
        is_guarded(
            r,
            account_keyspace@,
            *key_info,
            generation@,
            entry.key_data@,
            retire_stmt(account_keyspace@, key_info.table_id@, generation@, *entry),
        ),
{
    let destroy = retire_pending_row(
        account_keyspace,
        key_info.table_id.as_str(),
        generation,
        entry,
    );
    guard_destroy(account_keyspace, key_info, generation, entry.key_data.as_str(), destroy)
}

/// Remove aborted work under a repair marker; `None`, which counts as not applied,
/// for work without an id.
pub fn abort_claimed_ttl_work(
    account_keyspace: &str,
    key_info: &TableKeyInfo,
    generation: &Vec<u8>,
    row: &TtlWorkRow,
) -> (r: Option<GuardedDestroy>)
    ensures
        match row.work_id {
            None => r is None,
            Some(w) => r matches Some(d) && is_guarded(
                d,
                account_keyspace@,
                *key_info,
                generation@,
                row.entry.key_data@,
                destroy_work_stmt(
                    account_keyspace@,
                    key_info.table_id@,
                    generation@,
                    row.entry,
                    "CLAIM_ABORTING"@,
                    w@,
                ),
            ),
        },
{
    match &row.work_id {
        None => None,
        Some(w) => {
            let destroy = destroy_work(
                account_keyspace,
                key_info.table_id.as_str(),
                generation,
                &row.entry,
                "CLAIM_ABORTING",
                w,
            );
            Some(
                guard_destroy(
                    account_keyspace,
                    key_info,
                    generation,
                    row.entry.key_data.as_str(),
                    destroy,
                ),
            )
        },
    }
}

/// Whether a conditional statement on the queue was applied.
pub fn work_lwt_applied(rows: &Vec<Row>) -> (r: Result<bool, StorageError>)
    ensures
        if rows@.len() == 0 {
            r matches Err(e) && is_internal(e, "TTL work LWT returned no result"@)
        } else {
            match rows@[0].cell("[applied]"@) {
                Cell::Boolean(b) => r == Ok::<bool, StorageError>(b),
                _ => r matches Err(e) && is_internal(
                    e,
                    "Parse TTL work result: "@ + read_error::<bool>(rows@[0], "[applied]"@),
                ),
            }
        },
{
    if rows.len() == 0 {
        return Err(internal("TTL work LWT returned no result"));
    }
    match applied_column(&rows[0]) {
        Ok(b) => Ok(b),
        Err(m) => Err(StorageError::Internal(cat2("Parse TTL work result: ", m.as_str()))),
    }
}

/// Remove a `(bucket, shard)` registration from the bucket registry.
///
/// `guard_timestamp` must be a microsecond timestamp captured *before* the
/// caller observed the partition to be empty. Passing it makes the delete lose
/// to any queue insert that commits afterwards. `None` skips the guard and is only
/// correct when the generation is being retired and no further inserts can target
/// it.
pub fn retire_bucket_registration(
    account_keyspace: &str,
    table_id: &str,
    generation: &Vec<u8>,
    bucket: i64,
    shard: i32,
    guard_timestamp: Option<i64>,
) -> (r: Statement)
    ensures
        r@ == stmt(
            "DELETE FROM "@ + account_keyspace@ + ".ttl_expiration_buckets"@ + (
            match guard_timestamp {
                Some(t) => " USING TIMESTAMP "@ + int_text(t as int),
                None => ""@,
            }) + " WHERE table_id = ? AND generation = ? AND bucket = ? AND shard = ?"@,
            seq![
                CqlView::Text(table_id@),
                CqlView::Uuid(generation@),
                CqlView::BigInt(bucket),
                CqlView::Int(shard),
            ],
        ),
{
    let using = match guard_timestamp {
        Some(t) => cat2(" USING TIMESTAMP ", i64_text(t).as_str()),
        None => "".to_owned(),
    };
    stmt4(
        cat5(
            "DELETE FROM ",
            account_keyspace,
            ".ttl_expiration_buckets",
            using.as_str(),
            " WHERE table_id = ? AND generation = ? AND bucket = ? AND shard = ?",
        ),
        text_value(table_id),
        uuid_value(generation),
        CqlValue::BigInt(bucket),
        CqlValue::Int(shard),
    )
}

/// The day bucket of a time.
pub open spec fn bucket_of(now: i64) -> int {
    trunc_quotient(now as int, 86_400)
}

/// The statement that reads the registered partitions that may hold due work.
pub open spec fn due_buckets_stmt(
    ks: Seq<char>,
    table_id: Seq<char>,
    generation: Seq<u8>,
    now: i64,
) -> StatementView {
    stmt(
        "SELECT bucket, shard FROM "@ + ks
            + ".ttl_expiration_buckets WHERE table_id = ? AND generation = ? AND bucket <= ?"@,
        seq![
            CqlView::Text(table_id),
            CqlView::Uuid(generation),
            CqlView::BigInt(bucket_of(now) as i64),
        ],
    )
}

/// The statement that reads the registered partitions that may hold due work.
pub fn select_due_buckets(
    account_keyspace: &str,
    table_id: &str,
    generation: &Vec<u8>,
    now: i64,
) -> (r: Statement)
    ensures
        r@ == due_buckets_stmt(account_keyspace@, table_id@, generation@, now),
{
    stmt3(
        cat3(
            "SELECT bucket, shard FROM ",
            account_keyspace,
            ".ttl_expiration_buckets WHERE table_id = ? AND generation = ? AND bucket <= ?",
        ),
        text_value(table_id),
        uuid_value(generation),
        CqlValue::BigInt(trunc_div(now, TTL_BUCKET_SECONDS)),
    )
}

/// Begin to load the work that is due, up to a limit: the statement that reads the
/// registered partitions. With a limit of zero nothing is read.
pub fn load_due_ttl_work(
    account_keyspace: &str,
    table_id: &str,
    generation: &Vec<u8>,
    now: i64,
    limit: usize,
) -> (r: Option<Statement>)
    ensures
        match r {
            Some(s) => limit > 0 && s@ == due_buckets_stmt(
                account_keyspace@,
                table_id@,
                generation@,
                now,
            ),
            None => limit == 0,
        },
{
    if limit == 0 {
        return None;
    }
    Some(select_due_buckets(account_keyspace, table_id, generation, now))
}

/// Whether the work of a generation is read on: while fewer rows than the limit were
/// collected.
pub fn reads_more_work(collected: usize, limit: usize) -> (r: bool)
    ensures
        r == (collected < limit),
{
    collected < limit
}

/// The partition that a registry row names.
pub open spec fn partition_of(row: Row) -> Option<(i64, i32)> {
    match (row.cell("bucket"@), row.cell("shard"@)) {
        (Cell::BigInt(b), Cell::Int(s)) => Some((b, s)),
        _ => None,
    }
}

/// The partitions that registry rows name, in order. One unreadable row fails them
/// all.
pub fn generation_partitions(rows: &Vec<Row>) -> (r: Result<Vec<(i64, i32)>, StorageError>)
    ensures
        match r {
            Ok(v) => v@.len() == rows@.len() && forall|i: int|
                0 <= i < v@.len() ==> partition_of(#[trigger] rows@[i]) == Some(v@[i]),
            Err(e) => is_internal(e, "Database error"@) && exists|i: int|
                0 <= i < rows@.len() && partition_of(#[trigger] rows@[i]) is None,
        },
{
    let mut out: Vec<(i64, i32)> = Vec::new();
    let mut i: usize = 0;
    while i < rows.len()
        invariant
            i <= rows@.len(),
            out@.len() == i,
            forall|k: int| 0 <= k < i ==> partition_of(#[trigger] rows@[k]) == Some(out@[k]),
        decreases rows@.len() - i,
    {
        let bucket = match get_column::<i64, StorageError>(&rows[i], "bucket") {
            Ok(b) => b,
            Err(e) => {
                assert(partition_of(rows@[i as int]) is None);
                return Err(e);
            },
        };
        let shard = match get_column::<i32, StorageError>(&rows[i], "shard") {
            Ok(s) => s,
            Err(e) => {
                assert(partition_of(rows@[i as int]) is None);
                return Err(e);
            },
        };
        out.push((bucket, shard));
        i = i + 1;
    }
    Ok(out)
}

/// How far the partitions are rotated at a time: by one each minute.
pub open spec fn rotation(now: i64, count: int) -> int {
    (trunc_quotient(now as int, 60) as usize) as int % count
}

/// The partitions of a sweep: rotated, and at most a fixed number of them.
pub open spec fn swept(partitions: Seq<(i64, i32)>, now: i64) -> Seq<(i64, i32)> {
    if partitions.len() == 0 {
        partitions
    } else {
        let k = rotation(now, partitions.len() as int);
        let rotated = partitions.skip(k) + partitions.take(k);
        if rotated.len() > TTL_MAX_PARTITIONS_PER_CYCLE {
            rotated.take(TTL_MAX_PARTITIONS_PER_CYCLE as int)
        } else {
            rotated
        }
    }
}

/// Choose the partitions that a sweep visits.
pub fn due_partitions(partitions: Vec<(i64, i32)>, now: i64) -> (r: Vec<(i64, i32)>)
    ensures
        r@ == swept(partitions@, now),
        r@.len() <= TTL_MAX_PARTITIONS_PER_CYCLE,
{
    let count: usize = partitions.len();
    if count == 0 {
        return partitions;
    }
    let minutes: usize = #[verifier::truncate]
    (trunc_div(now, 60) as usize);
    let k: usize = minutes % count;
    let mut out: Vec<(i64, i32)> = Vec::new();
    let ghost rotated = partitions@.skip(k as int) + partitions@.take(k as int);
    let mut i: usize = 0;
    while i < count && i < TTL_MAX_PARTITIONS_PER_CYCLE
        invariant
            count == partitions@.len(),
            k < count,
            i <= count,
            i <= TTL_MAX_PARTITIONS_PER_CYCLE,
            rotated == partitions@.skip(k as int) + partitions@.take(k as int),
            out@ == rotated.take(i as int),
        decreases count - i,
    {
        let from: usize = if i < count - k {
            k + i
        } else {
            i - (count - k)
        };
        out.push(partitions[from]);
        i = i + 1;
        proof {
            assert(out@ =~= rotated.take(i as int));
        }
    }
    proof {
        assert(out@ =~= swept(partitions@, now));
    }
    out
}

/// A sweep visits no partition that is not registered, and where the registry is
/// no longer than the cap it visits every one.
pub proof fn law_sweep_visits_registered(partitions: Seq<(i64, i32)>, now: i64, p: (i64, i32))
    ensures
        swept(partitions, now).contains(p) ==> partitions.contains(p),
        partitions.len() <= TTL_MAX_PARTITIONS_PER_CYCLE && partitions.contains(p) ==> swept(
            partitions,
            now,
        ).contains(p),
{
    if partitions.len() > 0 {
        let n = partitions.len() as int;
        let k = rotation(now, n);
        assert(0 <= k < n);
        let s = swept(partitions, now);
        if s.contains(p) {
            let i = choose|i: int| 0 <= i < s.len() && s[i] == p;
            if i < n - k {
                assert(partitions[k + i] == p);
            } else {
                assert(partitions[i - (n - k)] == p);
            }
        }
        if n <= TTL_MAX_PARTITIONS_PER_CYCLE && partitions.contains(p) {
            let j = choose|j: int| 0 <= j < n && partitions[j] == p;
            if j >= k {
                assert(s[j - k] == p);
            } else {
                assert(s[n - k + j] == p);
            }
        }
    }
}

/// The time some minutes later.
pub open spec fn minutes_later(now: i64, minutes: int) -> i64 {
    (now + 60 * minutes) as i64
}

/// The rotation starves no partition, however many are registered: within as many
/// minutes as there are partitions, each of them comes first in a sweep. The times
/// and their minutes have to fit in the machine's integers.
pub proof fn law_rotation_starves_no_partition(
    partitions: Seq<(i64, i32)>,
    now: i64,
    p: (i64, i32),
)
    requires
        partitions.contains(p),
        now >= 0,
        now + 60 * partitions.len() <= i64::MAX,
        now / 60 + partitions.len() <= usize::MAX,
    ensures
        exists|d: int|
            0 <= d < partitions.len() && (#[trigger] swept(
                partitions,
                minutes_later(now, d),
            )).contains(p) && swept(partitions, minutes_later(now, d))[0] == p,
{
    let n = partitions.len() as int;
    let j = choose|j: int| 0 <= j < n && partitions[j] == p;
    let m = now as int / 60;
    let r = m % n;
    let d = if j >= r {
        j - r
    } else {
        j - r + n
    };
    assert(0 <= d < n && (m + d) % n == j) by (nonlinear_arith)
        requires
            n > 0,
            0 <= j < n,
            m >= 0,
            r == m % n,
            d == if j >= r {
                j - r
            } else {
                j - r + n
            },
    {
        let q = m / n;
        assert(m == q * n + r && 0 <= r < n);
        if j >= r {
            assert(m + d == q * n + j);
        } else {
            assert(m + d == (q + 1) * n + j);
        }
        vstd::arithmetic::div_mod::lemma_fundamental_div_mod_converse(
            m + d,
            n,
            if j >= r {
                q
            } else {
                q + 1
            },
            j,
        );
    }
    let t = minutes_later(now, d);
    assert(t == now + 60 * d);
    assert(trunc_quotient(t as int, 60) == m + d);
    assert(rotation(t, n) == j);
    let s = swept(partitions, t);
    assert((partitions.skip(j) + partitions.take(j))[0] == partitions[j]);
    assert(s[0] == p);
    assert(s.contains(p));
}

/// The share of a partition: the remaining rows spread evenly over the remaining
/// partitions, rounded up.
pub open spec fn share(remaining: int, left: int) -> int {
    (remaining + left - 1) / left
}

/// The number of rows to read from the partition at `index`, given how many were
/// collected: `None` where the limit is reached or no partition is left.
pub fn next_due_partition(
    partitions: &Vec<(i64, i32)>,
    index: usize,
    collected: usize,
    limit: usize,
) -> (r: Option<(i64, i32, usize)>)
    requires
        collected <= limit,
    ensures
        match r {
            None => index >= partitions@.len() || collected == limit,
            Some((bucket, shard, n)) => {
                &&& index < partitions@.len()
                &&& (bucket, shard) == partitions@[index as int]
                &&& n == share(limit - collected, partitions@.len() - index)
                &&& 1 <= n <= limit - collected
            },
        },
{
    if index >= partitions.len() || collected == limit {
        return None;
    }
    let remaining: usize = limit - collected;
    let left: usize = partitions.len() - index;
    proof {
        lemma_share(remaining as int, left as int);
    }
    let q: usize = remaining / left;
    let n: usize = if remaining % left == 0 {
        q
    } else {
        q + 1
    };
    let (bucket, shard) = partitions[index];
    Some((bucket, shard, n))
}

proof fn lemma_share(remaining: int, left: int)
    requires
        remaining >= 1,
        left >= 1,
    ensures
        share(remaining, left) == if remaining % left == 0 {
            remaining / left
        } else {
            remaining / left + 1
        },
        1 <= share(remaining, left) <= remaining,
        remaining / left < remaining || remaining % left == 0,
{
    let q = remaining / left;
    let m = remaining % left;
    assert(remaining == q * left + m && 0 <= m < left && q >= 0) by (nonlinear_arith)
        requires
            left >= 1,
            remaining >= 1,
            q == remaining / left,
            m == remaining % left,
    ;
    if m == 0 {
        assert((q * left + left - 1) / left == q) by (nonlinear_arith)
            requires
                left >= 1,
        ;
        assert(1 <= q <= remaining) by (nonlinear_arith)
            requires
                remaining == q * left,
                left >= 1,
                remaining >= 1,
                q >= 0,
        ;
    } else {
        assert((q * left + m + left - 1) / left == q + 1) by (nonlinear_arith)
            requires
                left >= 1,
                0 < m < left,
        ;
        assert(q + 1 <= remaining) by (nonlinear_arith)
            requires
                remaining == q * left + m,
                0 < m < left,
                q >= 0,
        ;
    }
}

/// The columns of a queue read.
pub open spec fn work_select(ks: Seq<char>) -> Seq<char> {
    "SELECT expires_at, key_hash, key_data, state, work_id, work_data FROM "@ + ks
        + ".ttl_expirations WHERE table_id = ? AND generation = ? AND bucket = ? AND shard = ?"@
}

/// The statement that reads the due work of a partition.
pub open spec fn due_work_stmt(
    ks: Seq<char>,
    table_id: Seq<char>,
    generation: Seq<u8>,
    bucket: i64,
    shard: i32,
    now: i64,
    limit: nat,
) -> StatementView {
    stmt(
        work_select(ks) + " AND expires_at <= ? LIMIT "@ + nat_text(limit),
        seq![
            CqlView::Text(table_id),
            CqlView::Uuid(generation),
            CqlView::BigInt(bucket),
            CqlView::Int(shard),
            CqlView::BigInt(now),
        ],
    )
}

/// The read of the registered partitions of a generation up to a bucket.
pub open spec fn registry_read(
    ks: Seq<char>,
    table_id: Seq<char>,
    generation: Seq<u8>,
    last: i64,
) -> Read {
    Read {
        columns: "bucket, shard"@,
        target: ks + ".ttl_expiration_buckets"@,
        tests: seq![
            compare("table_id"@, Sign::Equal, CqlView::Text(table_id)),
            compare("generation"@, Sign::Equal, CqlView::Uuid(generation)),
            compare("bucket"@, Sign::AtMost, CqlView::BigInt(last)),
        ],
        order: Seq::empty(),
        limit: None,
    }
}

/// The read of the work of a partition that expires by a time.
pub open spec fn work_read(
    ks: Seq<char>,
    table_id: Seq<char>,
    generation: Seq<u8>,
    bucket: i64,
    shard: i32,
    until: i64,
    limit: nat,
) -> Read {
    Read {
        columns: "expires_at, key_hash, key_data, state, work_id, work_data"@,
        target: ks + ".ttl_expirations"@,
        tests: seq![
            compare("table_id"@, Sign::Equal, CqlView::Text(table_id)),
            compare("generation"@, Sign::Equal, CqlView::Uuid(generation)),
            compare("bucket"@, Sign::Equal, CqlView::BigInt(bucket)),
            compare("shard"@, Sign::Equal, CqlView::Int(shard)),
            compare("expires_at"@, Sign::AtMost, CqlView::BigInt(until)),
        ],
        order: Seq::empty(),
        limit: Some(nat_text(limit)),
    }
}

/// The row that registers a partition.
pub open spec fn registration(
    table_id: Seq<char>,
    generation: Seq<u8>,
    bucket: i64,
    shard: i32,
) -> Cells {
    map![
        "table_id"@ => CqlView::Text(table_id),
        "generation"@ => CqlView::Uuid(generation),
        "bucket"@ => CqlView::BigInt(bucket),
        "shard"@ => CqlView::Int(shard),
    ]
}

/// The queue row of an entry, as far as reads test it.
pub open spec fn queue_row(table_id: Seq<char>, generation: Seq<u8>, e: TtlEntry) -> Cells {
    registration(table_id, generation, e.bucket, e.shard).insert(
        "expires_at"@,
        CqlView::BigInt(e.expires_at),
    )
}

proof fn lemma_queue_columns()
    ensures
        "table_id"@ != "generation"@,
        "table_id"@ != "bucket"@,
        "table_id"@ != "shard"@,
        "table_id"@ != "expires_at"@,
        "generation"@ != "bucket"@,
        "generation"@ != "shard"@,
        "generation"@ != "expires_at"@,
        "bucket"@ != "shard"@,
        "bucket"@ != "expires_at"@,
        "shard"@ != "expires_at"@,
{
    reveal_strlit("table_id");
    reveal_strlit("generation");
    reveal_strlit("bucket");
    reveal_strlit("shard");
    reveal_strlit("expires_at");
    assert("generation"@[0] == 'g' && "expires_at"@[0] == 'e');
    assert("table_id"@.len() == 8 && "bucket"@.len() == 6 && "shard"@.len() == 5);
    assert("generation"@.len() == 10 && "expires_at"@.len() == 10);
}

#[verifier::spinoff_prover]
#[verifier::rlimit(80)]
proof fn lemma_registry_text(ks: Seq<char>, table_id: Seq<char>, generation: Seq<u8>, now: i64)
    ensures
        read_stmt(registry_read(ks, table_id, generation, bucket_of(now) as i64))
            == due_buckets_stmt(ks, table_id, generation, now),
{
    let r = registry_read(ks, table_id, generation, bucket_of(now) as i64);
    let a = "table_id"@ + " "@ + "="@ + " ?"@;
    let b = "generation"@ + " "@ + "="@ + " ?"@;
    let c = "bucket"@ + " "@ + "<="@ + " ?"@;
    assert(test_texts(r.tests) =~= seq![a, b].push(c));
    lemma_joined_2(a, b, " AND "@);
    lemma_joined_push(seq![a, b], c, " AND "@);
    reveal_strlit("SELECT bucket, shard FROM ");
    reveal_strlit("SELECT ");
    reveal_strlit("bucket, shard");
    reveal_strlit(" FROM ");
    assert("SELECT bucket, shard FROM "@ =~= "SELECT "@ + "bucket, shard"@ + " FROM "@);
    let tests = a + " AND "@ + b + " AND "@ + c;
    let tail =
        ".ttl_expiration_buckets WHERE table_id = ? AND generation = ? AND bucket <= ?"@;
    assert(tail =~= ".ttl_expiration_buckets"@ + " WHERE "@ + tests) by {
        reveal_strlit(
            ".ttl_expiration_buckets WHERE table_id = ? AND generation = ? AND bucket <= ?",
        );
        reveal_strlit(".ttl_expiration_buckets");
        reveal_strlit(" WHERE ");
        reveal_strlit("table_id");
        reveal_strlit("generation");
        reveal_strlit("bucket");
        reveal_strlit(" ");
        reveal_strlit("=");
        reveal_strlit("<=");
        reveal_strlit(" ?");
        reveal_strlit(" AND ");
    }
    let s = read_stmt(r);
    let d = due_buckets_stmt(ks, table_id, generation, now);
    assert(s.cql =~= d.cql);
    assert(s.values =~= d.values);
}

#[verifier::spinoff_prover]
#[verifier::rlimit(60)]
proof fn lemma_work_literals()
    ensures
        "SELECT expires_at, key_hash, key_data, state, work_id, work_data FROM "@ == "SELECT "@
            + "expires_at, key_hash, key_data, state, work_id, work_data"@ + " FROM "@,
        ".ttl_expirations WHERE table_id = ? AND generation = ? AND bucket = ? AND shard = ?"@
            == ".ttl_expirations"@ + " WHERE "@ + (("table_id"@ + " "@ + "="@ + " ?"@) + " AND "@
            + ("generation"@ + " "@ + "="@ + " ?"@) + " AND "@ + ("bucket"@ + " "@ + "="@ + " ?"@)
            + " AND "@ + ("shard"@ + " "@ + "="@ + " ?"@)),
        " AND expires_at <= ? LIMIT "@ == " AND "@ + ("expires_at"@ + " "@ + "<="@ + " ?"@)
            + " LIMIT "@,
{
    assert("SELECT expires_at, key_hash, key_data, state, work_id, work_data FROM "@ =~= "SELECT "@
        + "expires_at, key_hash, key_data, state, work_id, work_data"@ + " FROM "@) by {
        reveal_strlit("SELECT expires_at, key_hash, key_data, state, work_id, work_data FROM ");
        reveal_strlit("SELECT ");
        reveal_strlit("expires_at, key_hash, key_data, state, work_id, work_data");
        reveal_strlit(" FROM ");
    }
    assert(".ttl_expirations WHERE table_id = ? AND generation = ? AND bucket = ? AND shard = ?"@
        =~= ".ttl_expirations"@ + " WHERE "@ + (("table_id"@ + " "@ + "="@ + " ?"@) + " AND "@ + (
    "generation"@ + " "@ + "="@ + " ?"@) + " AND "@ + ("bucket"@ + " "@ + "="@ + " ?"@) + " AND "@
        + ("shard"@ + " "@ + "="@ + " ?"@))) by {
        reveal_strlit(
            ".ttl_expirations WHERE table_id = ? AND generation = ? AND bucket = ? AND shard = ?",
        );
        reveal_strlit(".ttl_expirations");
        reveal_strlit(" WHERE ");
        reveal_strlit("table_id");
        reveal_strlit("generation");
        reveal_strlit("bucket");
        reveal_strlit("shard");
        reveal_strlit(" ");
        reveal_strlit("=");
        reveal_strlit(" ?");
        reveal_strlit(" AND ");
    }
    assert(" AND expires_at <= ? LIMIT "@ =~= " AND "@ + ("expires_at"@ + " "@ + "<="@ + " ?"@)
        + " LIMIT "@) by {
        reveal_strlit(" AND expires_at <= ? LIMIT ");
        reveal_strlit(" AND ");
        reveal_strlit("expires_at");
        reveal_strlit(" ");
        reveal_strlit("<=");
        reveal_strlit(" ?");
        reveal_strlit(" LIMIT ");
    }
}

proof fn lemma_work_concat(
    f: Seq<char>,
    ks: Seq<char>,
    t: Seq<char>,
    w: Seq<char>,
    tests: Seq<char>,
    x: Seq<char>,
    e: Seq<char>,
    l: Seq<char>,
    n: Seq<char>,
)
    ensures
        f + (ks + t) + w + (tests + x + e) + Seq::<char>::empty() + (l + n) == f + ks + (t + w
            + tests) + (x + e + l) + n,
{
    assert(f + (ks + t) + w + (tests + x + e) + Seq::<char>::empty() + (l + n) =~= f + ks + t + w
        + tests + x + e + l + n);
    assert(f + ks + (t + w + tests) + (x + e + l) + n =~= f + ks + t + w + tests + x + e + l + n);
}

proof fn lemma_work_text(
    ks: Seq<char>,
    table_id: Seq<char>,
    generation: Seq<u8>,
    bucket: i64,
    shard: i32,
    now: i64,
    limit: nat,
)
    ensures
        read_stmt(work_read(ks, table_id, generation, bucket, shard, now, limit)) == due_work_stmt(
            ks,
            table_id,
            generation,
            bucket,
            shard,
            now,
            limit,
        ),
{
    let r = work_read(ks, table_id, generation, bucket, shard, now, limit);
    let a = "table_id"@ + " "@ + "="@ + " ?"@;
    let b = "generation"@ + " "@ + "="@ + " ?"@;
    let c = "bucket"@ + " "@ + "="@ + " ?"@;
    let d = "shard"@ + " "@ + "="@ + " ?"@;
    let e = "expires_at"@ + " "@ + "<="@ + " ?"@;
    assert(test_texts(r.tests) =~= seq![a, b].push(c).push(d).push(e));
    lemma_joined_2(a, b, " AND "@);
    lemma_joined_push(seq![a, b], c, " AND "@);
    lemma_joined_push(seq![a, b].push(c), d, " AND "@);
    lemma_joined_push(seq![a, b].push(c).push(d), e, " AND "@);
    lemma_work_literals();
    let cols = "expires_at, key_hash, key_data, state, work_id, work_data"@;
    let tests = a + " AND "@ + b + " AND "@ + c + " AND "@ + d;
    let n = nat_text(limit);
    let f = "SELECT "@ + cols + " FROM "@;
    let tail = ".ttl_expirations"@ + " WHERE "@ + tests;
    assert(joined(test_texts(r.tests), " AND "@) == tests + " AND "@ + e);
    lemma_work_concat(f, ks, ".ttl_expirations"@, " WHERE "@, tests, " AND "@, e, " LIMIT "@, n);
    let s = read_stmt(r);
    let w = due_work_stmt(ks, table_id, generation, bucket, shard, now, limit);
    assert(s.cql == w.cql);
    assert(s.values =~= w.values);
}

/// A sweep finds what is due. Its registry read selects the partition of a bucket
/// exactly where the bucket has begun by then; so it selects the partition of every
/// entry that is due. In that partition, the read of due work selects an entry exactly
/// where its time has come.
pub proof fn law_due_entries_are_found(
    ks: Seq<char>,
    table_id: Seq<char>,
    generation: Seq<u8>,
    e: TtlEntry,
    key_data: Seq<char>,
    now: i64,
    bucket: i64,
    shard: i32,
    limit: nat,
)
    requires
        is_entry(e, e.expires_at, key_data),
        e.expires_at > 0,
        now >= 0,
    ensures
        ({
            let r = registry_read(ks, table_id, generation, bucket_of(now) as i64);
            &&& read_stmt(r) == due_buckets_stmt(ks, table_id, generation, now)
            &&& row_passes(r.tests, registration(table_id, generation, bucket, shard))
                <==> bucket * TTL_BUCKET_SECONDS <= now
            &&& e.expires_at <= now ==> row_passes(
                r.tests,
                registration(table_id, generation, e.bucket, e.shard),
            )
        }),
        ({
            let w = work_read(ks, table_id, generation, e.bucket, e.shard, now, limit);
            &&& read_stmt(w) == due_work_stmt(
                ks,
                table_id,
                generation,
                e.bucket,
                e.shard,
                now,
                limit,
            )
            &&& row_passes(w.tests, queue_row(table_id, generation, e)) <==> e.expires_at <= now
        }),
{
    lemma_queue_columns();
    lemma_registry_text(ks, table_id, generation, now);
    lemma_work_text(ks, table_id, generation, e.bucket, e.shard, now, limit);
    let last = bucket_of(now) as i64;
    assert(bucket_of(now) == now as int / 86_400);
    let r = registry_read(ks, table_id, generation, last);
    let row = registration(table_id, generation, bucket, shard);
    assert(cell_passes(r.tests[0], row) && cell_passes(r.tests[1], row));
    assert(cell_passes(r.tests[2], row) <==> bucket <= last);
    let mine = registration(table_id, generation, e.bucket, e.shard);
    assert(cell_passes(r.tests[0], mine) && cell_passes(r.tests[1], mine));
    assert(cell_passes(r.tests[2], mine) <==> e.bucket <= last);
    let w = work_read(ks, table_id, generation, e.bucket, e.shard, now, limit);
    let q = queue_row(table_id, generation, e);
    assert(cell_passes(w.tests[0], q) && cell_passes(w.tests[1], q) && cell_passes(w.tests[2], q)
        && cell_passes(w.tests[3], q));
    assert(cell_passes(w.tests[4], q) <==> e.expires_at <= now);
}

/// The statement that reads the due work of a partition.
pub fn select_due_work(
    account_keyspace: &str,
    table_id: &str,
    generation: &Vec<u8>,
    bucket: i64,
    shard: i32,
    now: i64,
    partition_limit: usize,
) -> (r: Statement)
    ensures
        r@ == due_work_stmt(
            account_keyspace@,
            table_id@,
            generation@,
            bucket,
            shard,
            now,
            partition_limit as nat,
        ),
{
    let head = cat3(
        "SELECT expires_at, key_hash, key_data, state, work_id, work_data FROM ",
        account_keyspace,
        ".ttl_expirations WHERE table_id = ? AND generation = ? AND bucket = ? AND shard = ?",
    );
    let n = u64_text(partition_limit as u64);
    stmt5(
        cat3(head.as_str(), " AND expires_at <= ? LIMIT ", n.as_str()),
        text_value(table_id),
        uuid_value(generation),
        CqlValue::BigInt(bucket),
        CqlValue::Int(shard),
        CqlValue::BigInt(now),
    )
}

/// A partition is drained: it lies in a past day and gave no row.
///
/// A fully past day bucket that yields nothing at quorum is drained: every entry
/// it could hold is already due.
pub fn is_drained(bucket: i64, now: i64, rows: usize) -> (r: bool)
    ensures
        r == (rows == 0 && bucket < bucket_of(now)),
{
    rows == 0 && bucket < trunc_div(now, TTL_BUCKET_SECONDS)
}

/// The entry that a queue row of a partition names.
pub open spec fn row_names_entry(row: Row, bucket: i64, shard: i32, e: TtlEntry) -> bool {
    &&& e.bucket == bucket
    &&& e.shard == shard
    &&& row.cell("expires_at"@) == Cell::BigInt(e.expires_at)
    &&& row.cell("key_hash"@) == Cell::Text(e.key_hash)
    &&& row.cell("key_data"@) == Cell::Text(e.key_data)
}

/// The row has the columns of an entry.
pub open spec fn row_has_entry(row: Row) -> bool {
    &&& row.cell("expires_at"@) is BigInt
    &&& row.cell("key_hash"@) is Text
    &&& row.cell("key_data"@) is Text
}

fn row_entry(row: &Row, bucket: i64, shard: i32) -> (r: Result<TtlEntry, StorageError>)
    ensures
        match r {
            Ok(e) => row_has_entry(*row) && row_names_entry(*row, bucket, shard, e),
            Err(e) => !row_has_entry(*row) && is_internal(e, "Database error"@),
        },
{
    let expires_at: i64 = get_column(row, "expires_at")?;
    let key_hash: String = get_column(row, "key_hash")?;
    let key_data: String = get_column(row, "key_data")?;
    Ok(TtlEntry { bucket, expires_at, shard, key_hash, key_data })
}

/// Read a queue row of a partition, given its decoded work data.
pub fn work_row(
    row: &Row,
    bucket: i64,
    shard: i32,
    work_data: Option<Result<TtlWorkData, String>>,
) -> (r: Result<TtlWorkRow, StorageError>)
    ensures
        match r {
            Ok(w) => {
                &&& row_has_entry(*row)
                &&& row_names_entry(*row, bucket, shard, w.entry)
                &&& state_of(row_state(*row)) == Some(w.state)
                &&& match w.work_id {
                    Some(id) => row.cell("work_id"@) matches Cell::Uuid(b) && b@ == id@,
                    None => !(row.cell("work_id"@) is Uuid),
                }
                &&& match work_data {
                    None => w.work_data is None,
                    Some(Ok(d)) => w.work_data == Some(d),
                    Some(Err(_)) => false,
                }
            },
            Err(e) => if !row_has_entry(*row) {
                is_internal(e, "Database error"@)
            } else if state_of(row_state(*row)) is None {
                is_internal(
                    e,
                    "Unknown TTL work state "@ + debug_text_of(row_state(*row)->0),
                )
            } else {
                work_data matches Some(Err(m)) && is_internal(e, "Parse TTL work data: "@ + m@)
            },
        },
{
    let entry = row_entry(row, bucket, shard)?;
    let text: Option<String> = get_optional(row, "state");
    let parsed = match &text {
        Some(t) => TtlWorkState::parse(Some(t.as_str())),
        None => TtlWorkState::parse(None),
    };
    let state = match parsed {
        Ok(s) => s,
        Err(e) => {
            return Err(e);
        },
    };
    let work_id: Option<Vec<u8>> = get_optional(row, "work_id");
    let work_data = match work_data {
        None => None,
        Some(Ok(d)) => Some(d),
        Some(Err(m)) => {
            return Err(StorageError::Internal(cat2("Parse TTL work data: ", m.as_str())));
        },
    };
    Ok(TtlWorkRow { entry, state, work_id, work_data })
}

/// The statement that reads all work of a partition, due or not. A sweep over a
/// retired generation does not filter by time, because cleanup has to account for
/// work that was claimed before the generation was retired.
pub fn load_generation_work(
    account_keyspace: &str,
    table_id: &str,
    generation: &Vec<u8>,
    bucket: i64,
    shard: i32,
) -> (r: Statement)
    ensures
        r@ == stmt(
            work_select(account_keyspace@),
            seq![
                CqlView::Text(table_id@),
                CqlView::Uuid(generation@),
                CqlView::BigInt(bucket),
                CqlView::Int(shard),
            ],
        ),
{
    stmt4(
        cat3(
            "SELECT expires_at, key_hash, key_data, state, work_id, work_data FROM ",
            account_keyspace,
            ".ttl_expirations WHERE table_id = ? AND generation = ? AND bucket = ? AND shard = ?",
        ),
        text_value(table_id),
        uuid_value(generation),
        CqlValue::BigInt(bucket),
        CqlValue::Int(shard),
    )
}

/// The statement that reads the registered partitions of a generation.
pub fn select_generation_buckets(
    account_keyspace: &str,
    table_id: &str,
    generation: &Vec<u8>,
) -> (r: Statement)
    ensures
        r@ == stmt(
            "SELECT bucket, shard FROM "@ + account_keyspace@
                + ".ttl_expiration_buckets WHERE table_id = ? AND generation = ?"@,
            seq![CqlView::Text(table_id@), CqlView::Uuid(generation@)],
        ),
{
    stmt2(
        cat3(
            "SELECT bucket, shard FROM ",
            account_keyspace,
            ".ttl_expiration_buckets WHERE table_id = ? AND generation = ?",
        ),
        text_value(table_id),
        uuid_value(generation),
    )
}

/// The statement that reads the rows of a partition that is being cleared.
pub fn select_clear_rows(
    account_keyspace: &str,
    table_id: &str,
    generation: &Vec<u8>,
    bucket: i64,
    shard: i32,
) -> (r: Statement)
    ensures
        r@ == stmt(
            "SELECT expires_at, key_hash, key_data, state FROM "@ + account_keyspace@
                + ".ttl_expirations WHERE table_id = ? AND generation = ? AND bucket = ? AND shard = ?"@,
            seq![
                CqlView::Text(table_id@),
                CqlView::Uuid(generation@),
                CqlView::BigInt(bucket),
                CqlView::Int(shard),
            ],
        ),
{
    stmt4(
        cat3(
            "SELECT expires_at, key_hash, key_data, state FROM ",
            account_keyspace,
            ".ttl_expirations WHERE table_id = ? AND generation = ? AND bucket = ? AND shard = ?",
        ),
        text_value(table_id),
        uuid_value(generation),
        CqlValue::BigInt(bucket),
        CqlValue::Int(shard),
    )
}

/// How far the clearing of a generation has come: whether the current partition
/// and all partitions so far are drained.
#[derive(Clone, Copy, Debug, PartialEq, Eq, Structural)]
pub struct ClearProgress {
    pub partition_drained: bool,
    pub fully_drained: bool,
}

/// Decide on a row of a partition that is being cleared: a pending row is to be
/// retired, any other stays.
///
/// Only `PENDING` rows are removed. A row in `CLAIMED`, `CLAIM_ABORTING`,
/// `EFFECTS_APPLYING`, or `EFFECTS_APPLIED` owns durable state — a base-row
/// claim, and possibly must-complete or already-applied index and stream
/// effects — so deleting it would strand that state with nothing left to
/// drive recovery.
pub fn clear_ttl_row(row: &Row, bucket: i64, shard: i32) -> (r: Result<
    Option<TtlEntry>,
    StorageError,
>)
    ensures
        match r {
            Ok(Some(e)) => state_of(row_state(*row)) == Some(TtlWorkState::Pending)
                && row_has_entry(*row) && row_names_entry(*row, bucket, shard, e),
            Ok(None) => state_of(row_state(*row)) is Some && state_of(row_state(*row))->0
                != TtlWorkState::Pending,
            Err(e) => if state_of(row_state(*row)) is None {
                is_internal(
                    e,
                    "Unknown TTL work state "@ + debug_text_of(row_state(*row)->0),
                )
            } else {
                state_of(row_state(*row)) == Some(TtlWorkState::Pending) && !row_has_entry(*row)
                    && is_internal(e, "Database error"@)
            },
        },
{
    let text: Option<String> = get_optional(row, "state");
    let parsed = match &text {
        Some(t) => TtlWorkState::parse(Some(t.as_str())),
        None => TtlWorkState::parse(None),
    };
    match parsed {
        Err(e) => Err(e),
        Ok(s) => if s == TtlWorkState::Pending {
            match row_entry(row, bucket, shard) {
                Ok(e) => Ok(Some(e)),
                Err(e) => Err(e),
            }
        } else {
            Ok(None)
        },
    }
}

impl ClearProgress {
    /// Nothing has been found that stays.
    pub fn new() -> (r: ClearProgress)
        ensures
            r.partition_drained && r.fully_drained,
    {
        ClearProgress { partition_drained: true, fully_drained: true }
    }

    /// Start the next partition.
    pub fn next_partition(self) -> (r: ClearProgress)
        ensures
            r.partition_drained,
            r.fully_drained == self.fully_drained,
    {
        ClearProgress { partition_drained: true, fully_drained: self.fully_drained }
    }

    /// A row was kept, or its conditional retire was applied or not. A row that was
    /// claimed between the read and the delete is left for the drain pass.
    pub fn row_done(self, removed: bool) -> (r: ClearProgress)
        ensures
            r.partition_drained == (self.partition_drained && removed),
            r.fully_drained == (self.fully_drained && removed),
    {
        ClearProgress {
            partition_drained: self.partition_drained && removed,
            fully_drained: self.fully_drained && removed,
        }
    }
}

/// The progress after a list of row outcomes.
pub open spec fn progress_after(start: ClearProgress, removed: Seq<bool>) -> ClearProgress
    decreases removed.len(),
{
    if removed.len() == 0 {
        start
    } else {
        let p = progress_after(start, removed.drop_last());
        ClearProgress {
            partition_drained: p.partition_drained && removed.last(),
            fully_drained: p.fully_drained && removed.last(),
        }
    }
}

/// A partition counts as drained exactly where every one of its rows was removed,
/// and the generation stays drained only then.
pub proof fn law_drained_iff_all_removed(start: ClearProgress, removed: Seq<bool>)
    requires
        start.partition_drained,
    ensures
        progress_after(start, removed).partition_drained <==> (forall|i: int|
            0 <= i < removed.len() ==> #[trigger] removed[i]),
        progress_after(start, removed).fully_drained == (start.fully_drained && progress_after(
            start,
            removed,
        ).partition_drained),
    decreases removed.len(),
{
    if removed.len() > 0 {
        let r = removed.drop_last();
        law_drained_iff_all_removed(start, r);
        if forall|i: int| 0 <= i < removed.len() ==> #[trigger] removed[i] {
            assert forall|i: int| 0 <= i < r.len() implies #[trigger] r[i] by {
                assert(r[i] == removed[i]);
            }
            assert(removed[removed.len() - 1]);
        }
        if progress_after(start, removed).partition_drained {
            assert forall|i: int| 0 <= i < removed.len() implies #[trigger] removed[i] by {
                if i < r.len() {
                    assert(r[i]);
                }
            }
        }
    }
}

/// The statement that reads every registered partition of a table.
pub fn select_all_buckets(account_keyspace: &str, table_id: &str) -> (r: Statement)
    ensures
        r@ == stmt(
            "SELECT generation, bucket, shard FROM "@ + account_keyspace@
                + ".ttl_expiration_buckets WHERE table_id = ?"@,
            seq![CqlView::Text(table_id@)],
        ),
{
    stmt1(
        cat3(
            "SELECT generation, bucket, shard FROM ",
            account_keyspace,
            ".ttl_expiration_buckets WHERE table_id = ?",
        ),
        text_value(table_id),
    )
}

/// The statement that empties the partition that a registry row names, whatever
/// its state.
pub fn clear_ttl_partition(account_keyspace: &str, table_id: &str, row: &Row) -> (r: Result<
    Statement,
    StorageError,
>)
    ensures
        match r {
            Ok(s) => row.cell("generation"@) matches Cell::Uuid(g) && partition_of(*row) is Some
                && s@ == stmt(
                "DELETE FROM "@ + account_keyspace@
                    + ".ttl_expirations WHERE table_id = ? AND generation = ? AND bucket = ? AND shard = ?"@,
                seq![
                    CqlView::Text(table_id@),
                    CqlView::Uuid(g@),
                    CqlView::BigInt((partition_of(*row)->0).0),
                    CqlView::Int((partition_of(*row)->0).1),
                ],
            ),
            Err(e) => is_internal(e, "Database error"@) && (!(row.cell("generation"@) is Uuid)
                || partition_of(*row) is None),
        },
{
    let generation: Vec<u8> = get_column(row, "generation")?;
    let bucket: i64 = get_column(row, "bucket")?;
    let shard: i32 = get_column(row, "shard")?;
    Ok(
        stmt4(
            cat3(
                "DELETE FROM ",
                account_keyspace,
                ".ttl_expirations WHERE table_id = ? AND generation = ? AND bucket = ? AND shard = ?",
            ),
            text_value(table_id),
            uuid_value(&generation),
            CqlValue::BigInt(bucket),
            CqlValue::Int(shard),
        ),
    )
}

/// The statement that removes every registration of a table, after its partitions
/// have been emptied.
pub fn clear_ttl_entries(account_keyspace: &str, table_id: &str) -> (r: Statement)
    ensures
        r@ == stmt(
            "DELETE FROM "@ + account_keyspace@ + ".ttl_expiration_buckets WHERE table_id = ?"@,
            seq![CqlView::Text(table_id@)],
        ),
{
    stmt1(
        cat3("DELETE FROM ", account_keyspace, ".ttl_expiration_buckets WHERE table_id = ?"),
        text_value(table_id),
    )
}

} // verus!
