//! Deleting an item, on request or by expiration.
use vstd::prelude::*;
use crate::cassandra_util::{get_optional, trunc_div, trunc_quotient, Cell, Row};
use crate::command::{
    address, after_set, bind, bounds, equations, guard_text, held, lemma_joined_1, row_at,
    run_either, set_cell, term_text, written, Command, Guard, Slot, Table, Term,
};
use crate::cql::{
    push_value, statements_view, stmt, stmt2, stmt3, text_value, uuid_value, values_view, CqlValue,
    CqlView, Statement, StatementView,
};
use crate::data::base_row::{
    concurrent_owner_error, delete_row, delete_stmt, image_text, is_claim_conflict,
    is_txn_conflict, key_binds, owner_of, push_key, row_image, row_owner, where_clause, where_text,
    RowKey,
};
use crate::data::claim::{
    claim_stmt, claim_ttl_item, StepOutcome, WriteFacts, TTL_WORK_CLAIM_SECONDS,
};
use crate::data::condition::{check_image, Verdict};
use crate::data::effects::{
    effect_stmts, effects_wf, is_plain, plan_write, push_effects, SideEffects, WritePlan,
};
use crate::error::StorageError;
use crate::model::{opt_item, same_bytes, Item, TableKeyInfo};
use crate::text::{cat5, cat6, joined, str_eq};

verus! {

/// What the stored image says about a delete: there is nothing to delete, or the
/// row is deleted, whose image is given.
#[derive(Debug, PartialEq, Eq)]
pub enum DeleteDecision {
    Nothing,
    Delete(Option<Item>),
}

/// The bytes of an optional identifier.
pub open spec fn opt_bytes(b: Option<&Vec<u8>>) -> Option<Seq<u8>> {
    match b {
        Some(b) => Some(b@),
        None => None,
    }
}

fn same_owner(a: Option<&Vec<u8>>, b: Option<&Vec<u8>>) -> (r: bool)
    ensures
        r == (opt_bytes(a) == opt_bytes(b)),
{
    match (a, b) {
        (None, None) => true,
        (Some(x), Some(y)) => same_bytes(x, y),
        _ => false,
    }
}

/// The row is not the one that its holder expects: another owner, or another image.
pub open spec fn is_stolen(
    old_item: Option<Item>,
    owner: Option<Seq<u8>>,
    allowed: Option<Seq<u8>>,
    expected: Item,
) -> bool {
    owner != allowed || opt_item(old_item) != Some(expected@)
}

/// Decide on a delete, from the stored image and its owner, the owner and image
/// that the caller expects, and the outcome of the condition.
///
/// A caller that expects an image fails where the row has moved. Any other owner
/// refuses the delete. A condition that holds on an absent item deletes nothing.
pub fn decide_delete(
    old_item: Option<Item>,
    owner: Option<&Vec<u8>>,
    allowed: Option<&Vec<u8>>,
    expected: Option<&Item>,
    ttl_enabled: bool,
    verdict: Verdict,
) -> (r: Result<DeleteDecision, StorageError>)
    ensures
        if expected matches Some(e) && is_stolen(old_item, opt_bytes(owner), opt_bytes(allowed), *e) {
            r == Err::<DeleteDecision, StorageError>(StorageError::ConditionFailed(old_item))
        } else if expected is None && owner is Some {
            r matches Err(e) && if ttl_enabled {
                is_claim_conflict(e)
            } else {
                is_txn_conflict(e)
            }
        } else {
            match verdict {
                Some(Ok(false)) => r == Err::<DeleteDecision, StorageError>(
                    StorageError::ConditionFailed(old_item),
                ),
                Some(Err(m)) => r == Err::<DeleteDecision, StorageError>(
                    StorageError::Validation(m),
                ),
                Some(Ok(true)) => r == Ok::<DeleteDecision, StorageError>(
                    if old_item is None {
                        DeleteDecision::Nothing
                    } else {
                        DeleteDecision::Delete(old_item)
                    },
                ),
                None => r == Ok::<DeleteDecision, StorageError>(DeleteDecision::Delete(old_item)),
            }
        },
{
    match expected {
        Some(e) => {
            let same_image = match &old_item {
                Some(o) => o.same(e),
                None => false,
            };
            if !same_owner(owner, allowed) || !same_image {
                return Err(StorageError::ConditionFailed(old_item));
            }
        },
        None => {
            if owner.is_some() {
                return Err(concurrent_owner_error(ttl_enabled));
            }
        },
    }
    let conditional = verdict.is_some();
    match check_image(verdict, old_item) {
        Err(e) => Err(e),
        Ok(image) => if conditional && image.is_none() {
            Ok(DeleteDecision::Nothing)
        } else {
            Ok(DeleteDecision::Delete(image))
        },
    }
}

/// The shape of a delete: it takes a claim on a TTL-enabled table unless it was
/// given one, and records the deletion in the partition where there was an item.
pub fn delete_facts(item_exists: bool, ttl_enabled: bool, given_claim: bool) -> (r: WriteFacts)
    ensures
        r.claims == (ttl_enabled && !given_claim),
        r.holds_claim == (ttl_enabled || given_claim),
        r.marks_partition == item_exists,
        !r.prepares_first,
{
    WriteFacts {
        claims: ttl_enabled && !given_claim,
        holds_claim: ttl_enabled || given_claim,
        marks_partition: item_exists,
        prepares_first: false,
    }
}

/// Plan the commit of a delete.
pub fn delete_item_impl_inner(
    account_keyspace: &str,
    table: &str,
    key: &RowKey,
    key_info: &TableKeyInfo,
    effects: SideEffects,
    holds_claim: bool,
) -> (r: WritePlan)
    requires
        effects_wf(effects),
    ensures
        match r {
            WritePlan::Direct(s) => is_plain(effects) && !holds_claim && s@ == delete_stmt(
                account_keyspace@,
                table@,
                *key,
            ),
            WritePlan::Batch { statements, timestamped } => {
                &&& !is_plain(effects) || holds_claim
                &&& timestamped == holds_claim
                &&& statements_view(statements@) == seq![
                    delete_stmt(account_keyspace@, table@, *key),
                ] + effect_stmts(account_keyspace@, *key_info, effects)
            },
        },
{
    let base = delete_row(account_keyspace, table, key);
    plan_write(base, account_keyspace, key_info, effects, holds_claim)
}

/// The time of a deletion in milliseconds, from that of the write in microseconds.
pub fn deletion_time_ms(mutation_timestamp: i64) -> (r: i64)
    ensures
        r == trunc_quotient(mutation_timestamp as int, 1000),
{
    trunc_div(mutation_timestamp, 1000)
}

/// The statement that sets the deletion time of a partition where there is none.
pub open spec fn mark_null_stmt(ks: Seq<char>, table: Seq<char>, pk: Seq<char>, at: i64) -> StatementView {
    stmt(
        "UPDATE "@ + ks + "."@ + table
            + " SET partition_max_delete_timestamp = ? WHERE pk = ? IF partition_max_delete_timestamp = null"@,
        seq![CqlView::BigInt(at), CqlView::Text(pk)],
    )
}

/// The statement that raises the deletion time of a partition where it is lower.
pub open spec fn raise_stmt(ks: Seq<char>, table: Seq<char>, pk: Seq<char>, at: i64) -> StatementView {
    stmt(
        "UPDATE "@ + ks + "."@ + table
            + " SET partition_max_delete_timestamp = ? WHERE pk = ? IF partition_max_delete_timestamp < ?"@,
        seq![CqlView::BigInt(at), CqlView::Text(pk), CqlView::BigInt(at)],
    )
}

/// Record a deletion time in a partition in two conditional steps: set it where
/// there is none, then raise it where it is lower. Stale transactions can then not
/// re-create items that were deleted after they started.
pub fn update_partition_max_delete_timestamp_at(
    keyspace: &str,
    table: &str,
    pk: &str,
    now_ms: i64,
) -> (r: (Statement, Statement))
    ensures
        r.0@ == mark_null_stmt(keyspace@, table@, pk@, now_ms),
        r.1@ == raise_stmt(keyspace@, table@, pk@, now_ms),
{
    let unset = stmt2(
        cat5(
            "UPDATE ",
            keyspace,
            ".",
            table,
            " SET partition_max_delete_timestamp = ? WHERE pk = ? IF partition_max_delete_timestamp = null",
        ),
        CqlValue::BigInt(now_ms),
        text_value(pk),
    );
    let higher = stmt3(
        cat5(
            "UPDATE ",
            keyspace,
            ".",
            table,
            " SET partition_max_delete_timestamp = ? WHERE pk = ? IF partition_max_delete_timestamp < ?",
        ),
        CqlValue::BigInt(now_ms),
        text_value(pk),
        CqlValue::BigInt(now_ms),
    );
    (unset, higher)
}

/// Set the deletion time of a partition, under a guard.
pub open spec fn deletion_time_command(
    target: Seq<char>,
    pk: Seq<char>,
    at: i64,
    guard: Guard,
) -> Command {
    Command::Update {
        target,
        key: seq![bind("pk"@, CqlView::Text(pk))],
        cells: seq![bind("partition_max_delete_timestamp"@, CqlView::BigInt(at))],
        guard,
    }
}

/// The guard that a partition has no deletion time.
pub open spec fn no_deletion_time() -> Guard {
    Guard::If(seq![(Slot { column: "partition_max_delete_timestamp"@, term: Term::Null })])
}

#[verifier::spinoff_prover]
#[verifier::rlimit(60)]
proof fn lemma_deletion_time_literals()
    ensures
        " SET partition_max_delete_timestamp = ? WHERE pk = ?"@ == " SET "@ + (
        "partition_max_delete_timestamp"@ + " = "@ + "?"@) + " WHERE "@ + ("pk"@ + " = "@ + "?"@),
        " IF partition_max_delete_timestamp = null"@ == " IF "@ + (
        "partition_max_delete_timestamp"@ + " = "@ + "null"@),
        " IF partition_max_delete_timestamp < ?"@ == " IF "@ + "partition_max_delete_timestamp"@
            + " < ?"@,
{
    reveal_strlit(" SET partition_max_delete_timestamp = ? WHERE pk = ?");
    reveal_strlit(" IF partition_max_delete_timestamp = null");
    reveal_strlit(" IF partition_max_delete_timestamp < ?");
    reveal_strlit(" SET ");
    reveal_strlit("partition_max_delete_timestamp");
    reveal_strlit(" = ");
    reveal_strlit("?");
    reveal_strlit(" WHERE ");
    reveal_strlit("pk");
    reveal_strlit(" IF ");
    reveal_strlit("null");
    reveal_strlit(" < ?");
    assert(" SET partition_max_delete_timestamp = ? WHERE pk = ?"@ =~= " SET "@ + (
    "partition_max_delete_timestamp"@ + " = "@ + "?"@) + " WHERE "@ + ("pk"@ + " = "@ + "?"@));
    assert(" IF partition_max_delete_timestamp = null"@ =~= " IF "@ + (
    "partition_max_delete_timestamp"@ + " = "@ + "null"@));
    assert(" IF partition_max_delete_timestamp < ?"@ =~= " IF "@ + "partition_max_delete_timestamp"@
        + " < ?"@);
}

#[verifier::spinoff_prover]
#[verifier::rlimit(60)]
proof fn lemma_step_literals()
    ensures
        " SET partition_max_delete_timestamp = ? WHERE pk = ? IF partition_max_delete_timestamp = null"@
            == " SET partition_max_delete_timestamp = ? WHERE pk = ?"@
            + " IF partition_max_delete_timestamp = null"@,
        " SET partition_max_delete_timestamp = ? WHERE pk = ? IF partition_max_delete_timestamp < ?"@
            == " SET partition_max_delete_timestamp = ? WHERE pk = ?"@
            + " IF partition_max_delete_timestamp < ?"@,
{
    reveal_strlit(
        " SET partition_max_delete_timestamp = ? WHERE pk = ? IF partition_max_delete_timestamp = null",
    );
    reveal_strlit(
        " SET partition_max_delete_timestamp = ? WHERE pk = ? IF partition_max_delete_timestamp < ?",
    );
    reveal_strlit(" SET partition_max_delete_timestamp = ? WHERE pk = ?");
    reveal_strlit(" IF partition_max_delete_timestamp = null");
    reveal_strlit(" IF partition_max_delete_timestamp < ?");
    assert(" SET partition_max_delete_timestamp = ? WHERE pk = ? IF partition_max_delete_timestamp = null"@
        =~= " SET partition_max_delete_timestamp = ? WHERE pk = ?"@
        + " IF partition_max_delete_timestamp = null"@);
    assert(" SET partition_max_delete_timestamp = ? WHERE pk = ? IF partition_max_delete_timestamp < ?"@
        =~= " SET partition_max_delete_timestamp = ? WHERE pk = ?"@
        + " IF partition_max_delete_timestamp < ?"@);
}

proof fn lemma_one_slot(s: Slot, sep: Seq<char>)
    ensures
        joined(equations(seq![s]), sep) == s.column + " = "@ + term_text(s),
        bounds(seq![s]) == (match s.term {
            Term::Bound(v) => seq![v],
            _ => Seq::empty(),
        }),
{
    let x = s.column + " = "@ + term_text(s);
    assert(equations(seq![s]) =~= seq![x]);
    lemma_joined_1(x, sep);
    assert(seq![s].drop_last() =~= Seq::<Slot>::empty());
    assert(bounds(seq![s].drop_last()) =~= Seq::<CqlView>::empty());
    assert(bounds(seq![s]) =~= match s.term {
        Term::Bound(v) => seq![v],
        _ => Seq::empty(),
    });
}

#[verifier::spinoff_prover]
#[verifier::rlimit(60)]
proof fn lemma_deletion_time_texts(ks: Seq<char>, table: Seq<char>, pk: Seq<char>, at: i64)
    ensures
        written(deletion_time_command(ks + "."@ + table, pk, at, no_deletion_time()))
            == mark_null_stmt(ks, table, pk, at),
        written(
            deletion_time_command(
                ks + "."@ + table,
                pk,
                at,
                Guard::Below("partition_max_delete_timestamp"@, at),
            ),
        ) == raise_stmt(ks, table, pk, at),
{
    lemma_deletion_time_literals();
    lemma_step_literals();
    let cell = bind("partition_max_delete_timestamp"@, CqlView::BigInt(at));
    let key = bind("pk"@, CqlView::Text(pk));
    let unset = Slot { column: "partition_max_delete_timestamp"@, term: Term::Null };
    lemma_one_slot(cell, ", "@);
    lemma_one_slot(key, " AND "@);
    lemma_one_slot(unset, " AND "@);
    let name = ks + "."@ + table;
    let head = "UPDATE "@ + ks + "."@ + table;
    let low = Guard::Below("partition_max_delete_timestamp"@, at);
    let a = written(deletion_time_command(name, pk, at, no_deletion_time()));
    let b = written(deletion_time_command(name, pk, at, low));
    let x = cell.column + " = "@ + term_text(cell);
    let y = key.column + " = "@ + term_text(key);
    let body = " SET "@ + x + " WHERE "@ + y;
    assert("UPDATE "@ + name =~= head);
    assert("UPDATE "@ + name + " SET "@ + x + " WHERE "@ + y + guard_text(no_deletion_time())
        =~= head + (body + guard_text(no_deletion_time())));
    assert("UPDATE "@ + name + " SET "@ + x + " WHERE "@ + y + guard_text(low) =~= head + (body
        + guard_text(low)));
    assert(a.cql == mark_null_stmt(ks, table, pk, at).cql);
    assert(b.cql == raise_stmt(ks, table, pk, at).cql);
    assert(a.values =~= mark_null_stmt(ks, table, pk, at).values);
    assert(b.values =~= raise_stmt(ks, table, pk, at).values);
}

/// The deletion time of a partition only grows: after the two steps it is the later of
/// the one that was there and the one recorded, or the one recorded where there was
/// none. No other partition is touched.
pub proof fn law_deletion_time_only_grows(
    ks: Seq<char>,
    table: Seq<char>,
    pk: Seq<char>,
    at: i64,
    t: Table,
)
    requires
        ({
            let row = row_at(t, map!["pk"@ => CqlView::Text(pk)]);
            let before = held(row, "partition_max_delete_timestamp"@);
            before is Null || before is BigInt
        }),
    ensures
        ({
            let target = ks + "."@ + table;
            let column = "partition_max_delete_timestamp"@;
            let first = deletion_time_command(target, pk, at, no_deletion_time());
            let second = deletion_time_command(target, pk, at, Guard::Below(column, at));
            let a = map!["pk"@ => CqlView::Text(pk)];
            let after = run_either(first, second, t);
            &&& written(first) == mark_null_stmt(ks, table, pk, at)
            &&& written(second) == raise_stmt(ks, table, pk, at)
            &&& held(row_at(after, a), column) == CqlView::BigInt(
                match held(row_at(t, a), column) {
                    CqlView::BigInt(n) => if n > at {
                        n
                    } else {
                        at
                    },
                    _ => at,
                },
            )
            &&& after.remove(a) == t.remove(a)
        }),
{
    lemma_deletion_time_texts(ks, table, pk, at);
    let target = ks + "."@ + table;
    let column = "partition_max_delete_timestamp"@;
    let first = deletion_time_command(target, pk, at, no_deletion_time());
    let second = deletion_time_command(target, pk, at, Guard::Below(column, at));
    let a = map!["pk"@ => CqlView::Text(pk)];
    let key = bind("pk"@, CqlView::Text(pk));
    let cell = bind(column, CqlView::BigInt(at));
    let unset = Slot { column, term: Term::Null };
    assert(seq![key].drop_last() =~= Seq::<Slot>::empty());
    assert(address(seq![key].drop_last()) =~= Map::<Seq<char>, CqlView>::empty());
    assert(address(seq![key]) =~= a);
    assert(seq![cell].drop_last() =~= Seq::<Slot>::empty());
    assert(after_set(row_at(t, a), seq![cell]) == set_cell(
        after_set(row_at(t, a), Seq::empty()),
        column,
        CqlView::BigInt(at),
    ));
    assert(seq![unset][0] == unset);
    assert(run_either(first, second, t).remove(a) =~= t.remove(a));
}

/// The outcome of the first marking step. A response that cannot be read counts as
/// applied.
pub fn mark_outcome(rows: &Vec<Row>) -> (r: StepOutcome)
    ensures
        r == (if rows@.len() > 0 && rows@[0].cell("[applied]"@) == Cell::Boolean(false) {
            StepOutcome::NotApplied
        } else {
            StepOutcome::Done
        }),
{
    if rows.len() == 0 {
        return StepOutcome::Done;
    }
    match get_optional::<bool>(&rows[0], "[applied]") {
        Some(b) => if b {
            StepOutcome::Done
        } else {
            StepOutcome::NotApplied
        },
        None => StepOutcome::Done,
    }
}

/// The statement by which expiration work takes the base row.
pub fn claim_ttl_work_item(
    keyspace: &str,
    table: &str,
    key: &RowKey,
    expected: &str,
    work_id: &Vec<u8>,
    claimed_at: i64,
) -> (r: Statement)
    ensures
        r@ == claim_stmt(
            keyspace@,
            table@,
            *key,
            Some(expected@),
            work_id@,
            claimed_at,
            Some(TTL_WORK_CLAIM_SECONDS),
        ),
{
    claim_ttl_item(
        keyspace,
        table,
        key,
        Some(expected),
        work_id,
        claimed_at,
        Some(TTL_WORK_CLAIM_SECONDS),
    )
}

/// Whether work that could not take the base row holds it already: the row carries
/// its id and exactly the expected image.
pub fn ensure_ttl_work_claim(row: &Option<Row>, expected: &str, work_id: &Vec<u8>) -> (r: bool)
    ensures
        r == (owner_of(*row) == Some(work_id@) && image_text(*row) == Some(expected@)),
{
    let owned = match row_owner(row) {
        Some(o) => same_bytes(&o, work_id),
        None => false,
    };
    let same_image = match row_image(row) {
        Some(t) => str_eq(t.as_str(), expected),
        None => false,
    };
    owned && same_image
}

/// Who deletes an expired item, as its stream record names it: the kind and the
/// principal.
pub fn ttl_user_identity() -> (r: (String, String))
    ensures
        r.0@ == "Service"@,
        r.1@ == "dynamodb.amazonaws.com"@,
{
    ("Service".to_owned(), "dynamodb.amazonaws.com".to_owned())
}

/// The side effects of an expiration, without the base row: the batch to run, where
/// there is anything in it to run, and whether index workers are woken after it.
pub fn apply_ttl_delete_effects(
    account_keyspace: &str,
    key_info: &TableKeyInfo,
    effects: SideEffects,
) -> (r: (Option<Vec<Statement>>, bool))
    requires
        effects_wf(effects),
    ensures
        match r.0 {
            Some(batch) => (effects.indexes@.len() > 0 || effects.stream is Some)
                && statements_view(batch@) == effect_stmts(account_keyspace@, *key_info, effects),
            None => effects.indexes@.len() == 0 && effects.stream is None,
        },
        r.1 == (effects.indexes@.len() > 0),
{
    let has_indexes = effects.indexes.len() > 0;
    if !has_indexes && effects.stream.is_none() {
        return (None, false);
    }
    let mut batch: Vec<Statement> = Vec::new();
    push_effects(&mut batch, account_keyspace, key_info, effects);
    proof {
        assert(statements_view(batch@) =~= effect_stmts(account_keyspace@, *key_info, effects));
    }
    (Some(batch), has_indexes)
}

/// The statement that deletes an expired row: only while the work still owns it and
/// the image is exactly the expected one.
pub fn delete_ttl_base_exact(
    keyspace: &str,
    table: &str,
    key: &RowKey,
    expected: &str,
    work_id: &Vec<u8>,
) -> (r: Statement)
    ensures
        r@ == stmt(
            "DELETE FROM "@ + keyspace@ + "."@ + table@ + where_text(*key)
                + " IF prepared_txn_id = ? AND item_data = ?"@,
            key_binds(*key) + seq![CqlView::Uuid(work_id@), CqlView::Text(expected@)],
        ),
{
    let tail = where_clause(key);
    let mut values: Vec<CqlValue> = Vec::new();
    push_key(&mut values, key);
    push_value(&mut values, uuid_value(work_id));
    push_value(&mut values, text_value(expected));
    proof {
        assert(values_view(values@) =~= key_binds(*key) + seq![
            CqlView::Uuid(work_id@),
            CqlView::Text(expected@),
        ]);
    }
    Statement {
        cql: cat6(
            "DELETE FROM ",
            keyspace,
            ".",
            table,
            tail.as_str(),
            " IF prepared_txn_id = ? AND item_data = ?",
        ),
        values,
    }
}

} // verus!
