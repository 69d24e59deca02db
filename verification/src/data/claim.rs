//! Base-row claims: how a write on a TTL-enabled table takes, holds and gives back
//! the exact claim that serializes it against expiration, and how contention is
//! retried.
use rand::Rng;
use vstd::prelude::*;
use crate::engine::CassandraEngine;
use crate::cassandra_util::{applied_column, read_error, Cell, Row};
use crate::cql::{
    push_value, stmt, text_value, uuid_value, values_view, CqlValue, CqlView, Statement,
    StatementView,
};
use crate::data::base_row::{
    claim_conflict, is_claim_conflict, key_binds, push_key, where_clause, where_text, RowKey,
};
use crate::error::{internal, is_internal, StorageError};
use crate::ids::new_uuid;
use crate::model::Item;
use crate::text::{cat2, cat3, cat6, cat7, nat_text, u64_text};

verus! {

/// Lifetime of the base-row claim an ordinary request holds while it commits
/// its logged batch.
pub const TTL_REQUEST_CLAIM_SECONDS: u32 = 120;

/// Lifetime of the base-row claim the expiration worker holds across its
/// deletion phases.
pub const TTL_WORK_CLAIM_SECONDS: u32 = 900;

/// Bounded retries for acquiring a base-row claim.
pub const TTL_CLAIM_MAX_RETRIES: u32 = 8;

/// The shortest backoff window of a contended claim, in milliseconds.
pub const TTL_CLAIM_BASE_DELAY_MS: u64 = 4;

/// How often the backoff window of a contended claim doubles at most.
pub const TTL_CLAIM_EXP_CAP: u32 = 6;

/// A number doubled `n` times.
pub open spec fn doubled(base: nat, n: nat) -> nat
    decreases n,
{
    if n == 0 {
        base
    } else {
        2 * doubled(base, (n - 1) as nat)
    }
}

/// The backoff window of an attempt: it doubles with each attempt up to a cap.
pub open spec fn window(base: nat, attempt: nat, cap: nat) -> nat {
    doubled(
        base,
        if attempt < cap {
            attempt
        } else {
            cap
        },
    )
}

proof fn lemma_doubled_bound(base: nat, n: nat, top: nat)
    requires
        n <= top,
    ensures
        doubled(base, n) <= doubled(base, top),
        base <= doubled(base, n),
    decreases top,
{
    if n < top {
        lemma_doubled_bound(base, n, (top - 1) as nat);
    } else if n > 0 {
        lemma_doubled_bound(base, (n - 1) as nat, (n - 1) as nat);
    }
}

/// A window is never empty.
pub proof fn lemma_window_positive(base: nat, attempt: nat, cap: nat)
    requires
        base > 0,
    ensures
        window(base, attempt, cap) >= base,
{
    let n = if attempt < cap {
        attempt
    } else {
        cap
    };
    lemma_doubled_bound(base, n, n);
}

/// The backoff window of an attempt.
pub fn backoff_window(base: u64, attempt: u32, cap: u32) -> (r: u64)
    requires
        base <= 1024,
        cap <= 16,
    ensures
        r == window(base as nat, attempt as nat, cap as nat),
        base <= r,
{
    let n: u32 = if attempt < cap {
        attempt
    } else {
        cap
    };
    let mut w: u64 = base;
    let mut i: u32 = 0;
    proof {
        lemma_window_fits(base as nat, n as nat);
        lemma_doubled_bound(base as nat, 0, n as nat);
    }
    while i < n
        invariant
            i <= n <= 16,
            w == doubled(base as nat, i as nat),
            doubled(base as nat, n as nat) <= 67_108_864,
        decreases n - i,
    {
        proof {
            lemma_doubled_bound(base as nat, (i + 1) as nat, n as nat);
        }
        w = 2 * w;
        i = i + 1;
    }
    w
}

proof fn lemma_window_fits(base: nat, n: nat)
    requires
        base <= 1024,
        n <= 16,
    ensures
        doubled(base, n) <= 67_108_864,
{
    lemma_doubled_bound(base, n, 16);
    reveal_with_fuel(doubled, 17);
}

/// `rand::Rng::random` for a `u64`: any number, left to chance.
#[verifier::external_body]
pub(crate) fn random_u64() -> (r: u64) {
    rand::rng().random::<u64>()
}

/// A sleep within a window, from a random number.
pub fn backoff_ms(random: u64, window_ms: u64) -> (r: u64)
    ensures
        r == random % (if window_ms == 0 {
            1
        } else {
            window_ms
        }),
        window_ms > 0 ==> r < window_ms,
{
    let w: u64 = if window_ms == 0 {
        1
    } else {
        window_ms
    };
    random % w
}

/// How long to sleep before retrying a contended claim: a jittered time in an
/// exponentially widening window.
pub fn ttl_claim_backoff(attempt: u32) -> (r: u64)
    ensures
        r < window(4, attempt as nat, 6),
{
    let w: u64 = backoff_window(TTL_CLAIM_BASE_DELAY_MS, attempt, TTL_CLAIM_EXP_CAP);
    backoff_ms(random_u64(), w)
}

/// The backoff window of a claim starts at four milliseconds and never exceeds 256.
pub proof fn law_claim_window(attempt: nat)
    ensures
        4 <= window(4, attempt, 6) <= 256,
{
    let n = if attempt < 6 {
        attempt
    } else {
        6
    };
    lemma_doubled_bound(4, n, 6);
    reveal_with_fuel(doubled, 7);
}

/// A write is tried again: it met a conflict, and it was not the last attempt.
pub open spec fn retries(attempt: u32, result: Result<Option<Item>, StorageError>) -> bool {
    result matches Err(StorageError::TransactionConflict(_)) && attempt < TTL_CLAIM_MAX_RETRIES
}

/// Whether a write that ended this way is tried again.
///
/// On a TTL-enabled table the base-row claim can be lost to a concurrent
/// writer. That is ordinary contention, not a client error, so the whole
/// read-claim-commit sequence is retried against a freshly read image
/// before the conflict is surfaced. Every other outcome is returned as it is.
pub fn should_retry(attempt: u32, result: &Result<Option<Item>, StorageError>) -> (r: bool)
    ensures
        r == retries(attempt, *result),
{
    match result {
        Err(StorageError::TransactionConflict(_)) => attempt < TTL_CLAIM_MAX_RETRIES,
        _ => false,
    }
}

/// The statement that takes a claim on a row whose image is as expected; without an
/// image the row must be absent.
pub open spec fn claim_stmt(
    ks: Seq<char>,
    table: Seq<char>,
    key: RowKey,
    expected: Option<Seq<char>>,
    claim: Seq<u8>,
    claimed_at: i64,
    ttl_seconds: Option<u32>,
) -> StatementView {
    let using = match ttl_seconds {
        Some(s) => "USING TTL "@ + nat_text(s as nat) + " "@,
        None => ""@,
    };
    let head = "UPDATE "@ + ks + "."@ + table + " "@ + using
        + "SET prepared_txn_id = ?, prepared_txn_timestamp = ?"@ + where_text(key);
    let binds = seq![CqlView::Uuid(claim), CqlView::BigInt(claimed_at)] + key_binds(key);
    match expected {
        Some(e) => stmt(
            head + " IF prepared_txn_id = null AND item_data = ?"@,
            binds.push(CqlView::Text(e)),
        ),
        None => stmt(head + " IF prepared_txn_id = null AND item_data = null"@, binds),
    }
}

/// The text of an optional string.
pub open spec fn opt_text(t: Option<&str>) -> Option<Seq<char>> {
    match t {
        Some(s) => Some(s@),
        None => None,
    }
}

/// The statement that takes a claim on a row: on the exact image where one is
/// given, on an absent row otherwise.
pub fn claim_ttl_item(
    keyspace: &str,
    table: &str,
    key: &RowKey,
    expected: Option<&str>,
    claim: &Vec<u8>,
    claimed_at: i64,
    ttl_seconds: Option<u32>,
) -> (r: Statement)
    ensures
        r@ == claim_stmt(
            keyspace@,
            table@,
            *key,
            opt_text(expected),
            claim@,
            claimed_at,
            ttl_seconds,
        ),
{
    let using = match ttl_seconds {
        Some(s) => cat3("USING TTL ", u64_text(s as u64).as_str(), " "),
        None => "".to_owned(),
    };
    let tail = where_clause(key);
    let head = cat6("UPDATE ", keyspace, ".", table, " ", using.as_str());
    let head = cat3(
        head.as_str(),
        "SET prepared_txn_id = ?, prepared_txn_timestamp = ?",
        tail.as_str(),
    );
    let mut values: Vec<CqlValue> = Vec::new();
    push_value(&mut values, uuid_value(claim));
    push_value(&mut values, CqlValue::BigInt(claimed_at));
    push_key(&mut values, key);
    let ghost binds = seq![CqlView::Uuid(claim@), CqlView::BigInt(claimed_at)] + key_binds(*key);
    proof {
        assert(values_view(values@) =~= binds);
    }
    match expected {
        Some(e) => {
            push_value(&mut values, text_value(e));
            Statement {
                cql: cat2(head.as_str(), " IF prepared_txn_id = null AND item_data = ?"),
                values,
            }
        },
        None => Statement {
            cql: cat2(head.as_str(), " IF prepared_txn_id = null AND item_data = null"),
            values,
        },
    }
}

impl CassandraEngine {
    /// Take the exact base-row claim that serializes an ordinary write against TTL
    /// expiration of the same item: a fresh claim id and the statement that takes it.
    pub fn acquire_ttl_mutation_claim(
        keyspace: &str,
        table: &str,
        key: &RowKey,
        expected: Option<&str>,
        claimed_at: i64,
    ) -> (r: (Vec<u8>, Statement))
        ensures
            r.0@.len() == 16,
            r.1@ == claim_stmt(
                keyspace@,
                table@,
                *key,
                opt_text(expected),
                r.0@,
                claimed_at,
                Some(TTL_REQUEST_CLAIM_SECONDS),
            ),
    {
        let claim = new_uuid();
        let s = claim_ttl_item(
            keyspace,
            table,
            key,
            expected,
            &claim,
            claimed_at,
            Some(TTL_REQUEST_CLAIM_SECONDS),
        );
        (claim, s)
    }
}

/// The statement that gives a claim back, if it is still held.
pub open spec fn release_stmt(
    ks: Seq<char>,
    table: Seq<char>,
    key: RowKey,
    claim: Seq<u8>,
) -> StatementView {
    stmt(
        "UPDATE "@ + ks + "."@ + table
            + " SET prepared_txn_id = null, prepared_txn_timestamp = null"@ + where_text(key)
            + " IF prepared_txn_id = ?"@,
        key_binds(key).push(CqlView::Uuid(claim)),
    )
}

/// The statement that releases an exact claim; it touches no row that another owner
/// holds.
pub fn release_ttl_claim(keyspace: &str, table: &str, key: &RowKey, claim: &Vec<u8>) -> (r:
    Statement)
    ensures
        r@ == release_stmt(keyspace@, table@, *key, claim@),
{
    let tail = where_clause(key);
    let mut values: Vec<CqlValue> = Vec::new();
    push_key(&mut values, key);
    push_value(&mut values, uuid_value(claim));
    proof {
        assert(values_view(values@) =~= key_binds(*key).push(CqlView::Uuid(claim@)));
    }
    Statement {
        cql: cat7(
            "UPDATE ",
            keyspace,
            ".",
            table,
            " SET prepared_txn_id = null, prepared_txn_timestamp = null",
            tail.as_str(),
            " IF prepared_txn_id = ?",
        ),
        values,
    }
}

impl CassandraEngine {
    /// Release a claim, if one is held. The statement is run a second time where the
    /// first run fails, because a dropped release makes the key unwritable until the
    /// claim expires.
    pub fn release_ttl_mutation_claim(
        keyspace: &str,
        table: &str,
        key: &RowKey,
        claim: Option<&Vec<u8>>,
    ) -> (r: Option<Statement>)
        ensures
            match claim {
                Some(c) => r matches Some(s) && s@ == release_stmt(keyspace@, table@, *key, c@),
                None => r is None,
            },
    {
        match claim {
            Some(c) => Some(release_ttl_claim(keyspace, table, key, c)),
            None => None,
        }
    }
}

/// Whether a claim was taken.
pub fn ttl_lwt_applied(rows: &Vec<Row>) -> (r: Result<bool, StorageError>)
    ensures
        if rows@.len() == 0 {
            r matches Err(e) && is_internal(e, "TTL claim returned no LWT result"@)
        } else {
            match rows@[0].cell("[applied]"@) {
                Cell::Boolean(b) => r == Ok::<bool, StorageError>(b),
                _ => r matches Err(e) && is_internal(
                    e,
                    "Parse TTL claim result: "@ + read_error::<bool>(rows@[0], "[applied]"@),
                ),
            }
        },
{
    if rows.len() == 0 {
        return Err(internal("TTL claim returned no LWT result"));
    }
    match applied_column(&rows[0]) {
        Ok(b) => Ok(b),
        Err(m) => Err(StorageError::Internal(cat2("Parse TTL claim result: ", m.as_str()))),
    }
}

/// How a step of a write ended. A conditional step that did not apply did not fail.
#[derive(Debug, PartialEq, Eq)]
pub enum StepOutcome {
    Done,
    NotApplied,
    Failed(StorageError),
}

/// What a write consists of.
#[derive(Clone, Copy, Debug, PartialEq, Eq, Structural)]
pub struct WriteFacts {
    /// The write takes a claim of its own.
    pub claims: bool,
    /// The write holds a claim while it commits: its own or one that it was given.
    pub holds_claim: bool,
    /// The write records the deletion in its partition first.
    pub marks_partition: bool,
    /// The batch is prepared before the claim is taken, rather than after.
    pub prepares_first: bool,
}

/// Where a write stands.
#[derive(Debug, PartialEq, Eq)]
pub enum WriteState {
    /// The statements of the batch are being prepared.
    Prepare,
    /// The claim is being taken.
    Claim,
    /// The deletion time of the partition is being set, if it has none.
    MarkUnset,
    /// The deletion time of the partition is being raised.
    MarkHigher,
    /// The write is being committed.
    Commit,
    /// The claim is being given back, with the outcome of the commit.
    Release(Result<(), StorageError>),
    /// The claim is being given back once more.
    ReleaseAgain(Result<(), StorageError>),
    /// The write is over.
    Finished(Result<(), StorageError>),
}

/// The state after the claim has been taken.
pub open spec fn after_claim(f: WriteFacts) -> WriteState {
    if f.marks_partition {
        WriteState::MarkUnset
    } else {
        after_mark(f)
    }
}

/// The state after the partition has been marked.
pub open spec fn after_mark(f: WriteFacts) -> WriteState {
    if f.prepares_first {
        WriteState::Commit
    } else {
        WriteState::Prepare
    }
}

/// The state that a write starts in.
pub open spec fn first_state(f: WriteFacts) -> WriteState {
    if f.prepares_first {
        WriteState::Prepare
    } else if f.claims {
        WriteState::Claim
    } else {
        after_claim(f)
    }
}

/// The outcome of a step, as the outcome of the write.
pub open spec fn outcome_result(o: StepOutcome) -> Result<(), StorageError> {
    match o {
        StepOutcome::Failed(e) => Err(e),
        _ => Ok(()),
    }
}

/// The next state of a write is `n`.
///
/// A claim that cannot be taken is a conflict. A step that fails before the commit
/// ends the write. From the commit on, a held claim is given back whatever
/// happened, and the outcome of the commit is the outcome of the write.
pub open spec fn follows(f: WriteFacts, s: WriteState, o: StepOutcome, n: WriteState) -> bool {
    match s {
        WriteState::Prepare => match o {
            StepOutcome::Failed(e) => n == WriteState::Finished(Err(e)),
            _ => n == if f.prepares_first && f.claims {
                WriteState::Claim
            } else if f.prepares_first {
                after_claim(f)
            } else {
                WriteState::Commit
            },
        },
        WriteState::Claim => match o {
            StepOutcome::Done => n == after_claim(f),
            StepOutcome::NotApplied => n matches WriteState::Finished(Err(e)) && is_claim_conflict(
                e,
            ),
            StepOutcome::Failed(e) => n == WriteState::Finished(Err(e)),
        },
        WriteState::MarkUnset => match o {
            StepOutcome::Done => n == after_mark(f),
            StepOutcome::NotApplied => n == WriteState::MarkHigher,
            StepOutcome::Failed(e) => n == WriteState::Finished(Err(e)),
        },
        WriteState::MarkHigher => match o {
            StepOutcome::Failed(e) => n == WriteState::Finished(Err(e)),
            _ => n == after_mark(f),
        },
        WriteState::Commit => n == if f.holds_claim {
            WriteState::Release(outcome_result(o))
        } else {
            WriteState::Finished(outcome_result(o))
        },
        WriteState::Release(r) => n == match o {
            StepOutcome::Failed(_) => WriteState::ReleaseAgain(r),
            _ => WriteState::Finished(r),
        },
        WriteState::ReleaseAgain(r) => n == WriteState::Finished(r),
        WriteState::Finished(r) => n == WriteState::Finished(r),
    }
}

fn marked(f: WriteFacts) -> (r: WriteState)
    ensures
        r == after_mark(f),
{
    if f.prepares_first {
        WriteState::Commit
    } else {
        WriteState::Prepare
    }
}

fn claimed(f: WriteFacts) -> (r: WriteState)
    ensures
        r == after_claim(f),
{
    if f.marks_partition {
        WriteState::MarkUnset
    } else {
        marked(f)
    }
}

/// The state that a write starts in.
pub fn start_write(f: WriteFacts) -> (r: WriteState)
    ensures
        r == first_state(f),
{
    if f.prepares_first {
        WriteState::Prepare
    } else if f.claims {
        WriteState::Claim
    } else {
        claimed(f)
    }
}

/// The state that follows a step of a write.
pub fn next_write(f: WriteFacts, s: WriteState, o: StepOutcome) -> (r: WriteState)
    ensures
        follows(f, s, o, r),
{
    match s {
        WriteState::Prepare => match o {
            StepOutcome::Failed(e) => WriteState::Finished(Err(e)),
            _ => if f.prepares_first {
                if f.claims {
                    WriteState::Claim
                } else {
                    claimed(f)
                }
            } else {
                WriteState::Commit
            },
        },
        WriteState::Claim => match o {
            StepOutcome::Done => claimed(f),
            StepOutcome::NotApplied => WriteState::Finished(Err(claim_conflict())),
            StepOutcome::Failed(e) => WriteState::Finished(Err(e)),
        },
        WriteState::MarkUnset => match o {
            StepOutcome::Done => marked(f),
            StepOutcome::NotApplied => WriteState::MarkHigher,
            StepOutcome::Failed(e) => WriteState::Finished(Err(e)),
        },
        WriteState::MarkHigher => match o {
            StepOutcome::Failed(e) => WriteState::Finished(Err(e)),
            _ => marked(f),
        },
        WriteState::Commit => {
            let result = match o {
                StepOutcome::Failed(e) => Err(e),
                _ => Ok(()),
            };
            if f.holds_claim {
                WriteState::Release(result)
            } else {
                WriteState::Finished(result)
            }
        },
        WriteState::Release(r) => match o {
            StepOutcome::Failed(_) => WriteState::ReleaseAgain(r),
            _ => WriteState::Finished(r),
        },
        WriteState::ReleaseAgain(r) => WriteState::Finished(r),
        WriteState::Finished(r) => WriteState::Finished(r),
    }
}

/// A run of a write: every state follows from the one before it.
pub open spec fn is_run(f: WriteFacts, states: Seq<WriteState>, outcomes: Seq<StepOutcome>) -> bool {
    &&& states.len() == outcomes.len() + 1
    &&& states[0] == first_state(f)
    &&& forall|i: int|
        0 <= i < outcomes.len() ==> #[trigger] follows(f, states[i], outcomes[i], states[i + 1])
}

/// On a table where a write takes a claim, it commits only after the claim was
/// taken: no run reaches the commit without having passed the step that takes the
/// claim with success.
pub proof fn law_commit_after_claim(
    f: WriteFacts,
    states: Seq<WriteState>,
    outcomes: Seq<StepOutcome>,
    i: int,
)
    requires
        f.claims,
        is_run(f, states, outcomes),
        0 <= i < states.len(),
        states[i] is Commit,
    ensures
        exists|k: int|
            0 <= k < i && #[trigger] states[k] is Claim && outcomes[k] is Done,
{
    lemma_claim_passed(f, states, outcomes, i);
}

/// Past the claim step, in the order of a write.
spec fn past_claim(f: WriteFacts, s: WriteState) -> bool {
    s is MarkUnset || s is MarkHigher || s is Commit || (s is Prepare && !f.prepares_first)
}

proof fn lemma_claim_passed(
    f: WriteFacts,
    states: Seq<WriteState>,
    outcomes: Seq<StepOutcome>,
    i: int,
)
    requires
        f.claims,
        is_run(f, states, outcomes),
        0 <= i < states.len(),
        past_claim(f, states[i]),
    ensures
        exists|k: int|
            0 <= k < i && #[trigger] states[k] is Claim && outcomes[k] is Done,
    decreases i,
{
    if i > 0 {
        let s = states[i - 1];
        assert(follows(f, states[i - 1], outcomes[i - 1], states[i - 1 + 1]));
        if s is Claim {
            assert(states[i - 1] is Claim && outcomes[i - 1] is Done);
        } else {
            assert(past_claim(f, s));
            lemma_claim_passed(f, states, outcomes, i - 1);
        }
    }
}

/// Once a write that holds a claim has been committed, successfully or not, the
/// claim is given back, and the outcome of the write is that of the commit.
pub proof fn law_claim_given_back(
    f: WriteFacts,
    commit: StepOutcome,
    after: WriteState,
    release: StepOutcome,
    then_state: WriteState,
)
    requires
        f.holds_claim,
        follows(f, WriteState::Commit, commit, after),
        follows(f, after, release, then_state),
    ensures
        after == WriteState::Release(outcome_result(commit)),
        then_state == WriteState::Finished(outcome_result(commit)) || then_state
            == WriteState::ReleaseAgain(outcome_result(commit)),
        release is Failed <==> then_state is ReleaseAgain,
{
}

} // verus!
