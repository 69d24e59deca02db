//! Transactional writes: a two-phase commit over conditional statements. All items
//! are marked first; then either every change is applied or every mark is taken off.
use vstd::prelude::*;
use crate::cassandra_util::{get_column, get_optional, Cell, Row};
use crate::cql::{sk_col, sk_column, stmt, stmt2, stmt4, text_value, CqlValue, CqlView, Statement};
use crate::data::base_row::RowKey;
use crate::data::condition::Verdict;
use crate::data::ledger_key::{ledger_reads, same_sort_key, sk_text_of, sort_key_text};
use crate::data::transact_get::{check_accounts, is_conflict, one_account};
use crate::data::transaction_ledger::LedgerOp;
use crate::data::transaction_rows::{
    check_lwt_applied, check_partition_max_delete_timestamp, deleted_later, is_validation_reason,
    took_effect,
};
use crate::error::{is_internal, is_validation, validation, CancellationReason, StorageError};
use crate::model::{sk_type_of, Item};
use crate::text::{cat3, str_eq};

verus! {

/// The operations of a transactional write.
#[derive(Clone, Copy, Debug, PartialEq, Eq, Structural)]
pub enum OpKind {
    Put,
    Delete,
    Update,
    Check,
}

/// The name of an operation in the ledger.
pub open spec fn op_text(kind: OpKind) -> Seq<char> {
    match kind {
        OpKind::Put => "PUT"@,
        OpKind::Delete => "DELETE"@,
        OpKind::Update => "UPDATE"@,
        OpKind::Check => "CHECK"@,
    }
}

impl OpKind {
    /// The name of the operation in the ledger.
    pub fn as_str(&self) -> (r: &'static str)
        ensures
            r@ == op_text(*self),
    {
        match self {
            OpKind::Put => "PUT",
            OpKind::Delete => "DELETE",
            OpKind::Update => "UPDATE",
            OpKind::Check => "CHECK",
        }
    }
}

/// Check the accounts of a transaction and of its idempotency token. An empty
/// transaction has nothing to do, which is `Ok(false)`.
pub fn begin_transaction(accounts: &Vec<String>, idempotency_account: Option<&str>) -> (r: Result<
    bool,
    StorageError,
>)
    ensures
        if accounts@.len() == 0 {
            r == Ok::<bool, StorageError>(false)
        } else if !one_account(accounts@) {
            r matches Err(e) && is_validation(e, "Cross-account transactions not supported"@)
        } else if idempotency_account is Some && idempotency_account->0@ != accounts@[0]@ {
            r matches Err(e) && is_validation(
                e,
                "Idempotency account does not match transaction account"@,
            )
        } else {
            r == Ok::<bool, StorageError>(true)
        },
{
    if accounts.len() == 0 {
        return Ok(false);
    }
    check_accounts(accounts)?;
    match idempotency_account {
        Some(a) => if !str_eq(a, accounts[0].as_str()) {
            Err(validation("Idempotency account does not match transaction account"))
        } else {
            Ok(true)
        },
        None => Ok(true),
    }
}

/// One operation of a transaction as the ledger records it first: its kind, its
/// table, its row, and the item of a put.
#[derive(Debug, PartialEq, Eq)]
pub struct OpRecord {
    pub kind: OpKind,
    pub table_id: String,
    pub key: RowKey,
    pub item_text: String,
}

/// The sort key is of its declared type.
pub open spec fn key_typed(key: RowKey) -> bool {
    key.sk matches Some(b) ==> b.sk_type == sk_type_of(b.value@)
}

/// The ledger operation names the row, and its sort key reads back as it was.
pub open spec fn names_row(op: LedgerOp, key: RowKey) -> bool {
    &&& op.pk@ == key.pk@
    &&& match key.sk {
        Some(b) => {
            &&& op.sk_col is Some
            &&& op.sk_val is Some
            &&& op.sk_col->0@ == sk_col(b.sk_type)
            &&& op.sk_val->0@ == sk_text_of(b.value@)
            &&& ledger_reads(op.sk_col->0@, op.sk_val->0@) is Some
            &&& same_sort_key(ledger_reads(op.sk_col->0@, op.sk_val->0@)->0, b.value@)
        },
        None => op.sk_col is None && op.sk_val is None,
    }
}

/// The ledger operation records the operation before anything is prepared.
pub open spec fn records(op: LedgerOp, r: OpRecord) -> bool {
    &&& op.op@ == op_text(r.kind)
    &&& op.table_id@ == r.table_id@
    &&& names_row(op, r.key)
    &&& match op.item_data {
        Some(s) => r.kind == OpKind::Put && s@ == r.item_text@,
        None => r.kind != OpKind::Put,
    }
}

fn initial_ledger_op(r: &OpRecord) -> (op: LedgerOp)
    requires
        key_typed(r.key),
    ensures
        records(op, *r),
{
    let (col, val) = match &r.key.sk {
        Some(b) => (Some(sk_column(b.sk_type).to_owned()), Some(sort_key_text(&b.value))),
        None => (None, None),
    };
    let item_data = match r.kind {
        OpKind::Put => Some(r.item_text.clone()),
        _ => None,
    };
    LedgerOp {
        op: r.kind.as_str().to_owned(),
        table_id: r.table_id.clone(),
        pk: r.key.pk.clone(),
        sk_col: col,
        sk_val: val,
        item_data,
    }
}

/// Build initial `LedgerOp`s from the request ops.
///
/// Written to the ledger before PREPARE starts. Contains pk/sk so a crash
/// during PREPARE can be rolled back. `item_data` for UPDATE is `None` here
/// and filled in after PREPARE succeeds (before transitioning to COMMITTING).
pub fn initial_ledger_ops(ops: &Vec<OpRecord>) -> (r: Vec<LedgerOp>)
    requires
        forall|i: int| 0 <= i < ops@.len() ==> key_typed((#[trigger] ops@[i]).key),
    ensures
        r@.len() == ops@.len(),
        forall|i: int| #![trigger r@[i]] 0 <= i < r@.len() ==> records(r@[i], ops@[i]),
{
    let mut out: Vec<LedgerOp> = Vec::new();
    let mut i: usize = 0;
    while i < ops.len()
        invariant
            i <= ops@.len(),
            out@.len() == i,
            forall|k: int| 0 <= k < ops@.len() ==> key_typed((#[trigger] ops@[k]).key),
            forall|k: int| #![trigger out@[k]] 0 <= k < i ==> records(out@[k], ops@[k]),
        decreases ops@.len() - i,
    {
        out.push(initial_ledger_op(&ops[i]));
        i = i + 1;
    }
    out
}

/// The operation with the item that preparing computed, where it computed one.
pub open spec fn filled(op: LedgerOp, computed: Option<String>) -> LedgerOp {
    LedgerOp {
        item_data: match computed {
            Some(s) => Some(s),
            None => op.item_data,
        },
        ..op
    }
}

/// Fill in the items that preparing computed.
pub fn fill_item_data(ops: Vec<LedgerOp>, computed: Vec<Option<String>>) -> (r: Vec<LedgerOp>)
    requires
        ops@.len() == computed@.len(),
    ensures
        r@.len() == ops@.len(),
        forall|i: int| #![trigger r@[i]] 0 <= i < r@.len() ==> r@[i] == filled(ops@[i], computed@[i]),
{
    let ghost all = ops@;
    let ghost items = computed@;
    let mut rest = ops;
    let mut given = computed;
    let mut out: Vec<LedgerOp> = Vec::new();
    while rest.len() > 0
        invariant
            all.len() == items.len(),
            out@.len() + rest@.len() == all.len(),
            given@.len() == rest@.len(),
            rest@ == all.skip(out@.len() as int),
            given@ == items.skip(out@.len() as int),
            forall|i: int|
                #![trigger out@[i]]
                0 <= i < out@.len() ==> out@[i] == filled(all[i], items[i]),
        decreases rest@.len(),
    {
        let ghost k = out@.len() as int;
        assert(rest@[0] == all[k]);
        assert(given@[0] == items[k]);
        let op = rest.remove(0);
        let item = given.remove(0);
        proof {
            assert(rest@ =~= all.skip(k + 1));
            assert(given@ =~= items.skip(k + 1));
        }
        let LedgerOp { op: name, table_id, pk, sk_col: col, sk_val, item_data } = op;
        let item_data = match item {
            Some(s) => Some(s),
            None => item_data,
        };
        out.push(LedgerOp { op: name, table_id, pk, sk_col: col, sk_val, item_data });
    }
    out
}

/// The statement that looks an idempotency token up.
pub fn select_token(keyspace: &str, account_id: &str, token: &str) -> (r: Statement)
    ensures
        r@ == stmt(
            "SELECT fingerprint FROM "@ + keyspace@
                + ".idempotency_tokens_by_account WHERE account_id = ? AND \"token\" = ?"@,
            seq![CqlView::Text(account_id@), CqlView::Text(token@)],
        ),
{
    stmt2(
        cat3(
            "SELECT fingerprint FROM ",
            keyspace,
            ".idempotency_tokens_by_account WHERE account_id = ? AND \"token\" = ?",
        ),
        text_value(account_id),
        text_value(token),
    )
}

/// The statement that reserves an idempotency token.
pub fn insert_token(
    keyspace: &str,
    account_id: &str,
    token: &str,
    fingerprint: &str,
    now: i64,
) -> (r: Statement)
    ensures
        r@ == stmt(
            "INSERT INTO "@ + keyspace@
                + ".idempotency_tokens_by_account (account_id, \"token\", fingerprint, created_at) VALUES (?, ?, ?, ?) IF NOT EXISTS"@,
            seq![
                CqlView::Text(account_id@),
                CqlView::Text(token@),
                CqlView::Text(fingerprint@),
                CqlView::BigInt(now),
            ],
        ),
{
    stmt4(
        cat3(
            "INSERT INTO ",
            keyspace,
            ".idempotency_tokens_by_account (account_id, \"token\", fingerprint, created_at) VALUES (?, ?, ?, ?) IF NOT EXISTS",
        ),
        text_value(account_id),
        text_value(token),
        text_value(fingerprint),
        CqlValue::BigInt(now),
    )
}

/// Where the check of an idempotency token stands: it is looked up, reserved where
/// it is unknown, and looked up once more where another request won the race.
#[derive(Clone, Copy, Debug, PartialEq, Eq, Structural)]
pub enum TokenStep {
    Lookup,
    Reserve,
    Recheck,
}

/// Another request won the race for a token.
pub open spec fn race_lost(rows: Seq<Row>) -> bool {
    rows.len() > 0 && rows[0].cell("[applied]"@) == Cell::Boolean(false)
}

/// The outcome of a lookup that found a row: the same request is a replay, another
/// one is a mismatch.
pub open spec fn token_taken(row: Row, fingerprint: Seq<char>, e: StorageError) -> bool {
    match row.cell("fingerprint"@) {
        Cell::Text(f) => if f@ == fingerprint {
            e == StorageError::IdempotentReplay
        } else {
            e == StorageError::IdempotentMismatch
        },
        _ => is_internal(e, "Database error"@),
    }
}

/// The step after one of the check of a token; `None` when the transaction may go
/// on. A token that is taken is an error.
pub fn check_idempotency_token(step: TokenStep, rows: &Vec<Row>, fingerprint: &str) -> (r: Result<
    Option<TokenStep>,
    StorageError,
>)
    ensures
        match step {
            TokenStep::Lookup => if rows@.len() == 0 {
                r == Ok::<Option<TokenStep>, StorageError>(Some(TokenStep::Reserve))
            } else {
                r matches Err(e) && token_taken(rows@[0], fingerprint@, e)
            },
            TokenStep::Reserve => r == Ok::<Option<TokenStep>, StorageError>(
                if race_lost(rows@) {
                    Some(TokenStep::Recheck)
                } else {
                    None
                },
            ),
            TokenStep::Recheck => if rows@.len() == 0 {
                r == Ok::<Option<TokenStep>, StorageError>(None)
            } else {
                r matches Err(e) && token_taken(rows@[0], fingerprint@, e)
            },
        },
{
    match step {
        TokenStep::Reserve => {
            if rows.len() == 0 {
                return Ok(None);
            }
            match get_optional::<bool>(&rows[0], "[applied]") {
                Some(b) => if b {
                    Ok(None)
                } else {
                    Ok(Some(TokenStep::Recheck))
                },
                None => Ok(None),
            }
        },
        _ => {
            if rows.len() == 0 {
                return match step {
                    TokenStep::Lookup => Ok(Some(TokenStep::Reserve)),
                    _ => Ok(None),
                };
            }
            let stored: String = get_column(&rows[0], "fingerprint")?;
            if str_eq(stored.as_str(), fingerprint) {
                Err(StorageError::IdempotentReplay)
            } else {
                Err(StorageError::IdempotentMismatch)
            }
        },
    }
}

/// The condition does not stand in the way.
pub open spec fn condition_holds(verdict: Verdict) -> bool {
    verdict is None || verdict == Some(Ok::<bool, String>(true))
}

/// Evaluate a condition expression, returning a CancellationReason on failure. A
/// failed condition reports the existing item where it was asked for.
pub fn eval_condition(verdict: Verdict, return_all_old: bool, existing: Option<Item>) -> (r: Result<
    (),
    CancellationReason,
>)
    ensures
        match verdict {
            None => r is Ok,
            Some(Ok(true)) => r is Ok,
            Some(Ok(false)) => r == Err::<(), CancellationReason>(
                CancellationReason::ConditionCheckFailed(
                    if return_all_old {
                        existing
                    } else {
                        None
                    },
                ),
            ),
            Some(Err(m)) => r == Err::<(), CancellationReason>(
                CancellationReason::ValidationError(m),
            ),
        },
{
    match verdict {
        None => Ok(()),
        Some(Ok(passed)) => {
            if passed {
                return Ok(());
            }
            let item = if return_all_old {
                existing
            } else {
                None
            };
            Err(CancellationReason::ConditionCheckFailed(item))
        },
        Some(Err(m)) => Err(CancellationReason::ValidationError(m)),
    }
}

/// What decides about the preparation of an operation: its kind, the time of the
/// transaction, and whether a failed condition reports the item.
#[derive(Clone, Copy, Debug, PartialEq, Eq, Structural)]
pub struct PrepareRequest {
    pub kind: OpKind,
    pub txn_timestamp: i64,
    pub return_all_old: bool,
}

/// What comes next in preparing an operation: check its key, read the item,
/// evaluate the condition, apply the update, check the deletion time of the
/// partition, mark the row (as a new one, or as it is), and write the new item out.
#[derive(Debug, PartialEq, Eq)]
pub enum PrepareState {
    Validate,
    Fetch,
    Evaluate { existing: Option<Item> },
    Apply { is_new: bool },
    CheckPartition,
    Mark { is_new: bool },
    Serialize,
}

/// The answer to a statement: it could not be built, it failed, or it gave rows,
/// where these could be read.
#[derive(Debug, PartialEq, Eq)]
pub enum Answer {
    Invalid(String),
    Failed,
    Rows(Option<Vec<Row>>),
}

/// What a step of preparing gave.
#[derive(Debug, PartialEq, Eq)]
pub enum PrepareEvent {
    Validated(Option<String>),
    Fetched(Result<Option<Item>, String>),
    Evaluated(Verdict),
    Applied(Option<String>),
    PartitionRead(Answer),
    Marked(Answer),
    Serialized(Result<String, String>),
}

/// How preparing goes on: another step, or the outcome of the operation.
#[derive(Debug, PartialEq, Eq)]
pub enum PrepareStep {
    Next(PrepareState),
    Prepared(Option<String>),
    Refused(CancellationReason),
}

/// The event answers the step.
pub open spec fn answers(state: PrepareState, event: PrepareEvent) -> bool {
    match state {
        PrepareState::Validate => event is Validated,
        PrepareState::Fetch => event is Fetched,
        PrepareState::Evaluate { .. } => event is Evaluated,
        PrepareState::Apply { .. } => event is Applied,
        PrepareState::CheckPartition => event is PartitionRead,
        PrepareState::Mark { .. } => event is Marked,
        PrepareState::Serialize => event is Serialized,
    }
}

/// The state in which a row is to be marked: a new row only after the partition was
/// checked.
pub open spec fn before_mark(is_new: bool) -> PrepareState {
    if is_new {
        PrepareState::CheckPartition
    } else {
        PrepareState::Mark { is_new: false }
    }
}

/// The rows of a partition allow a new item.
pub open spec fn partition_allows(a: Answer, ts: i64) -> bool {
    a matches Answer::Rows(Some(rows)) && !deleted_later(rows@, ts)
}

/// The reason that an answer gives against an operation.
pub open spec fn answer_refuses(a: Answer, ts: i64, marking: bool, reason: CancellationReason) -> bool {
    match a {
        Answer::Invalid(m) => reason == CancellationReason::ValidationError(m),
        Answer::Failed => is_validation_reason(reason, "Database error"@),
        Answer::Rows(None) => is_validation_reason(reason, "Database error"@),
        Answer::Rows(Some(rows)) => if marking {
            is_conflict(reason)
        } else {
            is_validation_reason(reason, "Item was deleted at a later timestamp"@)
        },
    }
}

/// The rows of a mark show that it took effect.
pub open spec fn mark_applied(a: Answer) -> bool {
    a matches Answer::Rows(Some(rows)) && took_effect(Some(&rows))
}

/// The step follows from the state and the event.
pub open spec fn prepare_moves(
    q: PrepareRequest,
    state: PrepareState,
    event: PrepareEvent,
    step: PrepareStep,
) -> bool {
    match (state, event) {
        (PrepareState::Validate, PrepareEvent::Validated(None)) => step == PrepareStep::Next(
            PrepareState::Fetch,
        ),
        (PrepareState::Validate, PrepareEvent::Validated(Some(m))) => step == PrepareStep::Refused(
            CancellationReason::ValidationError(m),
        ),
        (PrepareState::Fetch, PrepareEvent::Fetched(Ok(existing))) => step == PrepareStep::Next(
            PrepareState::Evaluate { existing },
        ),
        (PrepareState::Fetch, PrepareEvent::Fetched(Err(m))) => step == PrepareStep::Refused(
            CancellationReason::ValidationError(m),
        ),
        (PrepareState::Evaluate { existing }, PrepareEvent::Evaluated(verdict)) => match verdict {
            Some(Ok(false)) => step == PrepareStep::Refused(
                CancellationReason::ConditionCheckFailed(
                    if q.return_all_old {
                        existing
                    } else {
                        None
                    },
                ),
            ),
            Some(Err(m)) => step == PrepareStep::Refused(CancellationReason::ValidationError(m)),
            _ => match q.kind {
                OpKind::Put => step == PrepareStep::Next(before_mark(existing is None)),
                OpKind::Delete => step == PrepareStep::Next(PrepareState::Mark { is_new: false }),
                OpKind::Update => step == PrepareStep::Next(
                    PrepareState::Apply { is_new: existing is None },
                ),
                OpKind::Check => step == PrepareStep::Prepared(None),
            },
        },
        (PrepareState::Apply { is_new }, PrepareEvent::Applied(None)) => step
            == PrepareStep::Next(before_mark(is_new)),
        (PrepareState::Apply { .. }, PrepareEvent::Applied(Some(m))) => step
            == PrepareStep::Refused(CancellationReason::ValidationError(m)),
        (PrepareState::CheckPartition, PrepareEvent::PartitionRead(a)) => if partition_allows(
            a,
            q.txn_timestamp,
        ) {
            step == PrepareStep::Next(PrepareState::Mark { is_new: true })
        } else {
            step matches PrepareStep::Refused(reason) && answer_refuses(
                a,
                q.txn_timestamp,
                false,
                reason,
            )
        },
        (PrepareState::Mark { .. }, PrepareEvent::Marked(a)) => if mark_applied(a) {
            if q.kind == OpKind::Update {
                step == PrepareStep::Next(PrepareState::Serialize)
            } else {
                step == PrepareStep::Prepared(None)
            }
        } else {
            step matches PrepareStep::Refused(reason) && answer_refuses(
                a,
                q.txn_timestamp,
                true,
                reason,
            )
        },
        (PrepareState::Serialize, PrepareEvent::Serialized(Ok(text))) => step
            == PrepareStep::Prepared(Some(text)),
        (PrepareState::Serialize, PrepareEvent::Serialized(Err(m))) => step
            == PrepareStep::Refused(CancellationReason::ValidationError(m)),
        _ => false,
    }
}

fn answered(a: Answer) -> (r: Result<Vec<Row>, CancellationReason>)
    ensures
        match r {
            Ok(rows) => a == Answer::Rows(Some(rows)),
            Err(reason) => !(a matches Answer::Rows(Some(_))) && answer_refuses(
                a,
                0,
                false,
                reason,
            ) && answer_refuses(a, 0, true, reason),
        },
{
    match a {
        Answer::Invalid(m) => Err(CancellationReason::ValidationError(m)),
        Answer::Failed => Err(CancellationReason::ValidationError("Database error".to_owned())),
        Answer::Rows(None) => Err(
            CancellationReason::ValidationError("Database error".to_owned()),
        ),
        Answer::Rows(Some(rows)) => Ok(rows),
    }
}

/// Prepare a single transactional operation, step by step.
///
/// The outcome is `Prepared(Some(item_data_json))` for UPDATE (the post-mutation
/// state), `Prepared(None)` for PUT/DELETE/CHECK, or `Refused(reason)` on failure.
pub fn prepare_single_operation(
    request: PrepareRequest,
    state: PrepareState,
    event: PrepareEvent,
) -> (r: PrepareStep)
    requires
        answers(state, event),
    ensures
        prepare_moves(request, state, event, r),
{
    match (state, event) {
        (PrepareState::Validate, PrepareEvent::Validated(check)) => match check {
            None => PrepareStep::Next(PrepareState::Fetch),
            Some(m) => PrepareStep::Refused(CancellationReason::ValidationError(m)),
        },
        (PrepareState::Fetch, PrepareEvent::Fetched(found)) => match found {
            Ok(existing) => PrepareStep::Next(PrepareState::Evaluate { existing }),
            Err(m) => PrepareStep::Refused(CancellationReason::ValidationError(m)),
        },
        (PrepareState::Evaluate { existing }, PrepareEvent::Evaluated(verdict)) => {
            let is_new = existing.is_none();
            match eval_condition(verdict, request.return_all_old, existing) {
                Err(reason) => PrepareStep::Refused(reason),
                Ok(_) => match request.kind {
                    OpKind::Put => PrepareStep::Next(
                        if is_new {
                            PrepareState::CheckPartition
                        } else {
                            PrepareState::Mark { is_new: false }
                        },
                    ),
                    OpKind::Delete => PrepareStep::Next(PrepareState::Mark { is_new: false }),
                    OpKind::Update => PrepareStep::Next(PrepareState::Apply { is_new }),
                    OpKind::Check => PrepareStep::Prepared(None),
                },
            }
        },
        (PrepareState::Apply { is_new }, PrepareEvent::Applied(check)) => match check {
            None => PrepareStep::Next(
                if is_new {
                    PrepareState::CheckPartition
                } else {
                    PrepareState::Mark { is_new: false }
                },
            ),
            Some(m) => PrepareStep::Refused(CancellationReason::ValidationError(m)),
        },
        (PrepareState::CheckPartition, PrepareEvent::PartitionRead(a)) => match answered(a) {
            Err(reason) => PrepareStep::Refused(reason),
            Ok(rows) => match check_partition_max_delete_timestamp(&rows, request.txn_timestamp) {
                Ok(_) => PrepareStep::Next(PrepareState::Mark { is_new: true }),
                Err(reason) => PrepareStep::Refused(reason),
            },
        },
        (PrepareState::Mark { is_new: _ }, PrepareEvent::Marked(a)) => match answered(a) {
            Err(reason) => PrepareStep::Refused(reason),
            Ok(rows) => match check_lwt_applied(Some(&rows)) {
                Ok(_) => match request.kind {
                    OpKind::Update => PrepareStep::Next(PrepareState::Serialize),
                    _ => PrepareStep::Prepared(None),
                },
                Err(reason) => PrepareStep::Refused(reason),
            },
        },
        (PrepareState::Serialize, PrepareEvent::Serialized(text)) => match text {
            Ok(t) => PrepareStep::Prepared(Some(t)),
            Err(m) => PrepareStep::Refused(CancellationReason::ValidationError(m)),
        },
        _ => PrepareStep::Prepared(None),
    }
}

/// The states and events are a run of preparing an operation that ends in
/// `result`: each step follows from the one before.
pub open spec fn prepare_run(
    q: PrepareRequest,
    states: Seq<PrepareState>,
    events: Seq<PrepareEvent>,
    result: Option<String>,
) -> bool {
    &&& states.len() == events.len()
    &&& states.len() > 0
    &&& states[0] == PrepareState::Validate
    &&& forall|i: int|
        0 <= i < states.len() - 1 ==> prepare_moves(
            q,
            states[i],
            #[trigger] events[i],
            PrepareStep::Next(states[i + 1]),
        )
    &&& prepare_moves(q, states.last(), events.last(), PrepareStep::Prepared(result))
}

/// The operation would create its item.
pub open spec fn creates(kind: OpKind, existing: Option<Item>) -> bool {
    existing is None && (kind == OpKind::Put || kind == OpKind::Update)
}

/// An operation counts as prepared only where its key is valid, its item could be
/// read and its condition holds; where an update could be applied; where no later
/// deletion forbids a new item; and, unless it is a mere check, where the row was
/// marked. An update, and nothing else, hands its new item on.
pub proof fn law_prepared_means_checked(
    q: PrepareRequest,
    states: Seq<PrepareState>,
    events: Seq<PrepareEvent>,
    result: Option<String>,
)
    requires
        prepare_run(q, states, events, result),
    ensures
        events.len() >= 3,
        events[0] == PrepareEvent::Validated(None),
        events[1] is Fetched && events[1]->Fetched_0 is Ok,
        events[2] is Evaluated && condition_holds(events[2]->Evaluated_0),
        q.kind == OpKind::Update ==> events.len() > 3 && events[3] == PrepareEvent::Applied(None),
        creates(q.kind, events[1]->Fetched_0->Ok_0) ==> exists|i: int|
            3 <= i < events.len() && (#[trigger] events[i] matches PrepareEvent::PartitionRead(a)
                && partition_allows(a, q.txn_timestamp)),
        q.kind != OpKind::Check ==> exists|i: int|
            3 <= i < events.len() && (#[trigger] events[i] matches PrepareEvent::Marked(a)
                && mark_applied(a)),
        q.kind == OpKind::Check ==> events.len() == 3,
        result is Some <==> q.kind == OpKind::Update,
{
    assert(events.len() > 1);
    assert(prepare_moves(q, states[0], events[0], PrepareStep::Next(states[1])));
    assert(events.len() > 2);
    assert(prepare_moves(q, states[1], events[1], PrepareStep::Next(states[2])));
    let existing = events[1]->Fetched_0->Ok_0;
    if q.kind != OpKind::Check {
        assert(events.len() > 3);
        assert(prepare_moves(q, states[2], events[2], PrepareStep::Next(states[3])));
        let k: int = if q.kind == OpKind::Update {
            assert(events.len() > 4);
            assert(prepare_moves(q, states[3], events[3], PrepareStep::Next(states[4])));
            4
        } else {
            3
        };
        let m: int = if creates(q.kind, existing) {
            assert(events.len() > k + 1);
            assert(prepare_moves(q, states[k], events[k], PrepareStep::Next(states[k + 1])));
            assert(events[k] is PartitionRead);
            k + 1
        } else {
            k
        };
        assert(states[m] is Mark);
        if q.kind == OpKind::Update {
            assert(events.len() > m + 1);
            assert(prepare_moves(q, states[m], events[m], PrepareStep::Next(states[m + 1])));
        }
        assert(events[m] is Marked);
    }
}

/// The reason of an operation: none where it was prepared.
pub open spec fn reason_of(outcome: Result<Option<String>, CancellationReason>) -> CancellationReason {
    match outcome {
        Ok(_) => CancellationReason::NoReason,
        Err(r) => r,
    }
}

/// The outcome of the PREPARE phase: where every operation was prepared, the items
/// that were computed; else a reason for every operation.
pub fn execute_prepare_phase(outcomes: Vec<Result<Option<String>, CancellationReason>>) -> (r: Result<
    Vec<Option<String>>,
    Vec<CancellationReason>,
>)
    ensures
        match r {
            Ok(items) => {
                &&& items@.len() == outcomes@.len()
                &&& forall|i: int|
                    #![trigger outcomes@[i]]
                    #![trigger items@[i]]
                    0 <= i < outcomes@.len() ==> outcomes@[i] == Ok::<
                        Option<String>,
                        CancellationReason,
                    >(items@[i])
            },
            Err(reasons) => {
                &&& exists|i: int| 0 <= i < outcomes@.len() && (#[trigger] outcomes@[i]) is Err
                &&& reasons@.len() == outcomes@.len()
                &&& forall|i: int|
                    #![trigger outcomes@[i]]
                    #![trigger reasons@[i]]
                    0 <= i < outcomes@.len() ==> reasons@[i] == reason_of(outcomes@[i])
            },
        },
{
    let ghost all = outcomes@;
    let mut rest = outcomes;
    let mut reasons: Vec<CancellationReason> = Vec::new();
    let mut computed: Vec<Option<String>> = Vec::new();
    let mut any_failed = false;
    while rest.len() > 0
        invariant
            all == outcomes@,
            reasons@.len() == computed@.len(),
            reasons@.len() + rest@.len() == all.len(),
            rest@ == all.skip(reasons@.len() as int),
            forall|i: int|
                #![trigger all[i]]
                #![trigger reasons@[i]]
                0 <= i < reasons@.len() ==> reasons@[i] == reason_of(all[i]),
            forall|i: int|
                #![trigger all[i]]
                #![trigger computed@[i]]
                0 <= i < reasons@.len() && all[i] is Ok ==> all[i] == Ok::<
                    Option<String>,
                    CancellationReason,
                >(computed@[i]),
            any_failed == exists|i: int| 0 <= i < reasons@.len() && (#[trigger] all[i]) is Err,
        decreases rest@.len(),
    {
        let ghost k = reasons@.len() as int;
        assert(rest@[0] == all[k]);
        let outcome = rest.remove(0);
        proof {
            assert(rest@ =~= all.skip(k + 1));
        }
        match outcome {
            Ok(item) => {
                reasons.push(CancellationReason::NoReason);
                computed.push(item);
            },
            Err(reason) => {
                any_failed = true;
                reasons.push(reason);
                computed.push(None);
            },
        }
    }
    if any_failed {
        Err(reasons)
    } else {
        Ok(computed)
    }
}

/// What a transactional write does next: write the ledger, prepare each operation,
/// then either save the operations, mark the ledger as committing, keep the old
/// images, commit and reconcile each operation and forget the transaction; or mark
/// it as cancelling, roll each operation back and forget it.
#[derive(Clone, Copy, Debug, PartialEq, Eq, Structural)]
pub enum TxnPhase {
    WriteLedger,
    Prepare { next: usize, refused: bool },
    SaveOps,
    MarkCommitting,
    Capture(usize),
    Commit(usize),
    Reconcile(usize),
    ForgetCommitted,
    MarkCancelling,
    Rollback(usize),
    ForgetCancelled,
    Committed,
    Cancelled,
}

/// The phase is one of a transaction of `n` operations.
pub open spec fn phase_wf(p: TxnPhase, n: usize) -> bool {
    match p {
        TxnPhase::Prepare { next, .. } => next < n,
        TxnPhase::Capture(i) => i < n,
        TxnPhase::Commit(i) => i < n,
        TxnPhase::Reconcile(i) => i < n,
        TxnPhase::Rollback(i) => i < n,
        _ => true,
    }
}

/// The phase after one that went well; `refused` says that the operation which was
/// just prepared was refused.
pub open spec fn phase_after(p: TxnPhase, n: usize, refused: bool) -> TxnPhase {
    match p {
        TxnPhase::WriteLedger => TxnPhase::Prepare { next: 0, refused: false },
        TxnPhase::Prepare { next, refused: before } => if next + 1 < n {
            TxnPhase::Prepare { next: (next + 1) as usize, refused: before || refused }
        } else if before || refused {
            TxnPhase::MarkCancelling
        } else {
            TxnPhase::SaveOps
        },
        TxnPhase::SaveOps => TxnPhase::MarkCommitting,
        TxnPhase::MarkCommitting => TxnPhase::Capture(0),
        TxnPhase::Capture(i) => if i + 1 < n {
            TxnPhase::Capture((i + 1) as usize)
        } else {
            TxnPhase::Commit(0)
        },
        TxnPhase::Commit(i) => if i + 1 < n {
            TxnPhase::Commit((i + 1) as usize)
        } else {
            TxnPhase::Reconcile(0)
        },
        TxnPhase::Reconcile(i) => if i + 1 < n {
            TxnPhase::Reconcile((i + 1) as usize)
        } else {
            TxnPhase::ForgetCommitted
        },
        TxnPhase::ForgetCommitted => TxnPhase::Committed,
        TxnPhase::MarkCancelling => TxnPhase::Rollback(0),
        TxnPhase::Rollback(i) => if i + 1 < n {
            TxnPhase::Rollback((i + 1) as usize)
        } else {
            TxnPhase::ForgetCancelled
        },
        TxnPhase::ForgetCancelled => TxnPhase::Cancelled,
        TxnPhase::Committed => TxnPhase::Committed,
        TxnPhase::Cancelled => TxnPhase::Cancelled,
    }
}

/// Move a transactional write on after a phase that went well. A phase that fails
/// ends the write with its error, and leaves the rest to recovery.
pub fn transact_write_items_impl(phase: TxnPhase, n: usize, refused: bool) -> (r: TxnPhase)
    requires
        n > 0,
        phase_wf(phase, n),
    ensures
        r == phase_after(phase, n, refused),
        phase_wf(r, n),
{
    match phase {
        TxnPhase::WriteLedger => TxnPhase::Prepare { next: 0, refused: false },
        TxnPhase::Prepare { next, refused: before } => if next + 1 < n {
            TxnPhase::Prepare { next: next + 1, refused: before || refused }
        } else if before || refused {
            TxnPhase::MarkCancelling
        } else {
            TxnPhase::SaveOps
        },
        TxnPhase::SaveOps => TxnPhase::MarkCommitting,
        TxnPhase::MarkCommitting => TxnPhase::Capture(0),
        TxnPhase::Capture(i) => if i + 1 < n {
            TxnPhase::Capture(i + 1)
        } else {
            TxnPhase::Commit(0)
        },
        TxnPhase::Commit(i) => if i + 1 < n {
            TxnPhase::Commit(i + 1)
        } else {
            TxnPhase::Reconcile(0)
        },
        TxnPhase::Reconcile(i) => if i + 1 < n {
            TxnPhase::Reconcile(i + 1)
        } else {
            TxnPhase::ForgetCommitted
        },
        TxnPhase::ForgetCommitted => TxnPhase::Committed,
        TxnPhase::MarkCancelling => TxnPhase::Rollback(0),
        TxnPhase::Rollback(i) => if i + 1 < n {
            TxnPhase::Rollback(i + 1)
        } else {
            TxnPhase::ForgetCancelled
        },
        TxnPhase::ForgetCancelled => TxnPhase::Cancelled,
        TxnPhase::Committed => TxnPhase::Committed,
        TxnPhase::Cancelled => TxnPhase::Cancelled,
    }
}

/// One of the first `m` operations was refused.
pub open spec fn any_refused(refusals: Seq<bool>, m: int) -> bool {
    exists|i: int| 0 <= i < m && #[trigger] refusals[i]
}

/// The phase after `k` steps that went well, where `refusals` says of each
/// operation whether it was refused.
pub open spec fn phase_at(refusals: Seq<bool>, k: nat) -> TxnPhase
    decreases k,
{
    if k == 0 {
        TxnPhase::WriteLedger
    } else {
        let p = phase_at(refusals, (k - 1) as nat);
        phase_after(
            p,
            refusals.len() as usize,
            match p {
                TxnPhase::Prepare { next, .. } => refusals[next as int],
                _ => false,
            },
        )
    }
}

/// The phases of a transaction of `n` operations, in closed form.
pub open spec fn scheduled(n: int, cancelled: bool, refusals: Seq<bool>, k: int) -> TxnPhase {
    if k == 0 {
        TxnPhase::WriteLedger
    } else if k <= n {
        TxnPhase::Prepare { next: (k - 1) as usize, refused: any_refused(refusals, k - 1) }
    } else if cancelled {
        if k == n + 1 {
            TxnPhase::MarkCancelling
        } else if k <= 2 * n + 1 {
            TxnPhase::Rollback((k - n - 2) as usize)
        } else if k == 2 * n + 2 {
            TxnPhase::ForgetCancelled
        } else {
            TxnPhase::Cancelled
        }
    } else if k == n + 1 {
        TxnPhase::SaveOps
    } else if k == n + 2 {
        TxnPhase::MarkCommitting
    } else if k <= 2 * n + 2 {
        TxnPhase::Capture((k - n - 3) as usize)
    } else if k <= 3 * n + 2 {
        TxnPhase::Commit((k - 2 * n - 3) as usize)
    } else if k <= 4 * n + 2 {
        TxnPhase::Reconcile((k - 3 * n - 3) as usize)
    } else if k == 4 * n + 3 {
        TxnPhase::ForgetCommitted
    } else {
        TxnPhase::Committed
    }
}

proof fn lemma_schedule(refusals: Seq<bool>, k: nat)
    requires
        0 < refusals.len() <= usize::MAX,
    ensures
        phase_at(refusals, k) == scheduled(
            refusals.len() as int,
            any_refused(refusals, refusals.len() as int),
            refusals,
            k as int,
        ),
    decreases k,
{
    let n = refusals.len() as int;
    if k > 0 {
        lemma_schedule(refusals, (k - 1) as nat);
        if 2 <= k <= n + 1 {
            let m = k - 2;
            assert(any_refused(refusals, m + 1) == (any_refused(refusals, m) || refusals[m])) by {
                if refusals[m] {
                    assert(any_refused(refusals, m + 1));
                }
                if any_refused(refusals, m) {
                    let i = choose|i: int| 0 <= i < m && #[trigger] refusals[i];
                    assert(refusals[i]);
                }
            }
        }
    }
}

/// A transaction is all or nothing. It commits an operation only where none was
/// refused, after all were prepared and the ledger was marked as committing; it
/// rolls one back only where one was refused. Where none was refused it commits
/// every operation and ends committed, else it rolls every one back and ends
/// cancelled.
pub proof fn law_all_or_nothing(refusals: Seq<bool>, k: nat, i: int)
    requires
        0 < refusals.len() <= usize::MAX,
        0 <= i < refusals.len(),
    ensures
        ({
            let n = refusals.len();
            let refused = any_refused(refusals, n as int);
            &&& phase_at(refusals, k) is Commit ==> !refused && k > n + 2 && phase_at(
                refusals,
                n + 2,
            ) == TxnPhase::MarkCommitting
            &&& phase_at(refusals, k) is Rollback ==> refused && k > n + 1 && phase_at(
                refusals,
                n + 1,
            ) == TxnPhase::MarkCancelling
            &&& phase_at(refusals, (1 + i) as nat) matches TxnPhase::Prepare { next, .. }
            &&& next == i
            &&& !refused ==> phase_at(refusals, (2 * n + 3 + i) as nat) == TxnPhase::Commit(
                i as usize,
            ) && phase_at(refusals, 4 * n + 4) == TxnPhase::Committed
            &&& refused ==> phase_at(refusals, (n + 2 + i) as nat) == TxnPhase::Rollback(i as usize)
                && phase_at(refusals, 2 * n + 3) == TxnPhase::Cancelled
        }),
{
    let n = refusals.len();
    lemma_schedule(refusals, k);
    lemma_schedule(refusals, n + 1);
    lemma_schedule(refusals, n + 2);
    lemma_schedule(refusals, (1 + i) as nat);
    lemma_schedule(refusals, (2 * n + 3 + i) as nat);
    lemma_schedule(refusals, 4 * n + 4);
    lemma_schedule(refusals, (n + 2 + i) as nat);
    lemma_schedule(refusals, 2 * n + 3);
}

/// The image of an item after a commit, for the expiration queue.
#[derive(Clone, Copy, Debug, PartialEq, Eq, Structural)]
pub enum NewImage {
    /// The item of the request.
    Requested,
    /// The stored item, to be read again.
    Stored,
    /// No item.
    Absent,
}

/// What the expiration queue is reconciled with after an operation was committed: a
/// put with its item, an update with the stored one, a deletion with none. A check
/// changes nothing, which is `None`.
pub fn reconciled_image(kind: OpKind) -> (r: Option<NewImage>)
    ensures
        r == (match kind {
            OpKind::Put => Some(NewImage::Requested),
            OpKind::Update => Some(NewImage::Stored),
            OpKind::Delete => Some(NewImage::Absent),
            OpKind::Check => None,
        }),
{
    match kind {
        OpKind::Put => Some(NewImage::Requested),
        OpKind::Update => Some(NewImage::Stored),
        OpKind::Delete => Some(NewImage::Absent),
        OpKind::Check => None,
    }
}

} // verus!
