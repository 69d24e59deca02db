//! The side effects of a write: index changes, queue rows and the stream record
//! that commit together with it.
use vstd::prelude::*;
use crate::cql::{
    push_statement, statements_view, stmt, stmt0, Statement, StatementView,
};
use crate::data::index::{
    deferred, opt_item_ref, plan_deferred, plan_sync, step_index, sync_indexes, sync_steps,
    write_stmts, IndexMeta, IndexRowKey, IndexWrite,
};
use crate::data::ttl::{
    add_ttl_queue_mutations, add_ttl_reconciliation_mutation, outbox_stmt, queue_stmts, shard_of,
    TtlEntry,
};
use crate::model::{Item, TableKeyInfo};

verus! {

/// How a write changes the expiration queue: the queue generation, the key text of
/// the reconciliation row where one is needed, and the entries of the old and the
/// new item.
#[derive(Debug, PartialEq, Eq)]
pub struct TtlChange {
    pub generation: Vec<u8>,
    pub outbox_key: Option<String>,
    pub old_entry: Option<TtlEntry>,
    pub new_entry: Option<TtlEntry>,
}

/// The side effects of a write: the indexes of the table with the planned changes
/// to the synchronous ones, the queue rows of the deferred ones, the queue change on
/// a TTL-enabled table, and the stream record statement.
#[derive(Debug, PartialEq, Eq)]
pub struct SideEffects {
    pub indexes: Vec<IndexMeta>,
    pub index_writes: Vec<IndexWrite>,
    pub pending: Vec<Statement>,
    pub ttl: Option<TtlChange>,
    pub stream: Option<String>,
}

/// Every planned change names an index of the table.
pub open spec fn effects_wf(e: SideEffects) -> bool {
    forall|k: int|
        0 <= k < e.index_writes@.len() ==> step_index((#[trigger] e.index_writes@[k]).step)
            < e.indexes@.len()
}

/// What an index change needs to be written: the key of its row, and the JSON text
/// of the projected item for an insertion.
#[derive(Debug, PartialEq, Eq)]
pub struct ChangedRow {
    pub key: IndexRowKey,
    pub item_json: String,
}

/// Put the side effects of a write together. Each change that the synchronous
/// indexes need takes the row at its place, and each deferred index has one queue
/// row; nothing comes of rows that are too few or too many.
pub fn side_effects(
    indexes: Vec<IndexMeta>,
    old_item: Option<&Item>,
    new_item: Option<&Item>,
    system_default_delay: u64,
    rows: Vec<ChangedRow>,
    pending: Vec<Statement>,
    ttl: Option<TtlChange>,
    stream: Option<String>,
) -> (r: Option<SideEffects>)
    ensures
        ({
            let steps = sync_steps(
                indexes@,
                opt_item_ref(old_item),
                opt_item_ref(new_item),
                system_default_delay,
            );
            match r {
                Some(e) => {
                    &&& rows@.len() == steps.len()
                    &&& pending@.len() == deferred(indexes@, system_default_delay).len()
                    &&& effects_wf(e)
                    &&& e.indexes == indexes
                    &&& e.index_writes@ == Seq::new(
                        steps.len(),
                        |k: int|
                            IndexWrite {
                                step: steps[k],
                                key: rows@[k].key,
                                item_json: rows@[k].item_json,
                            },
                    )
                    &&& e.pending == pending
                    &&& e.ttl == ttl
                    &&& e.stream == stream
                },
                None => rows@.len() != steps.len() || pending@.len() != deferred(
                    indexes@,
                    system_default_delay,
                ).len(),
            }
        }),
{
    let steps = plan_sync(&indexes, old_item, new_item, system_default_delay);
    if rows.len() != steps.len() || pending.len() != plan_deferred(
        &indexes,
        system_default_delay,
    ).len() {
        return None;
    }
    let mut index_writes: Vec<IndexWrite> = Vec::new();
    let ghost all = rows@;
    for row in it: rows
        invariant
            it.seq() == all,
            all.len() == steps@.len(),
            index_writes@.len() == it.index(),
            forall|j: int|
                0 <= j < index_writes@.len() ==> (#[trigger] index_writes@[j]) == (IndexWrite {
                    step: steps@[j],
                    key: all[j].key,
                    item_json: all[j].item_json,
                }),
    {
        let ChangedRow { key, item_json } = row;
        let k: usize = index_writes.len();
        index_writes.push(IndexWrite { step: steps[k], key, item_json });
    }
    Some(SideEffects { indexes, index_writes, pending, ttl, stream })
}

/// The statements of a queue change.
pub open spec fn ttl_stmts(ks: Seq<char>, key_info: TableKeyInfo, c: TtlChange) -> Seq<
    StatementView,
> {
    (match c.outbox_key {
        Some(k) => seq![
            outbox_stmt(
                ks,
                shard_of(k@),
                key_info.table_id@,
                key_info.account_id@,
                key_info.table_name@,
                k@,
            ),
        ],
        None => Seq::empty(),
    }) + queue_stmts(ks, key_info.table_id@, c.generation@, c.old_entry, c.new_entry)
}

/// The statements of the side effects, in the order in which they join a batch.
pub open spec fn effect_stmts(ks: Seq<char>, key_info: TableKeyInfo, e: SideEffects) -> Seq<
    StatementView,
> {
    write_stmts(ks, e.indexes@, e.index_writes@) + statements_view(e.pending@) + (match e.ttl {
        Some(c) => ttl_stmts(ks, key_info, c),
        None => Seq::empty(),
    }) + (match e.stream {
        Some(s) => seq![stmt(s@, seq![])],
        None => Seq::empty(),
    })
}

/// Append the side effects of a write to its batch.
pub fn push_effects(
    batch: &mut Vec<Statement>,
    account_keyspace: &str,
    key_info: &TableKeyInfo,
    effects: SideEffects,
)
    requires
        effects_wf(effects),
    ensures
        statements_view(final(batch)@) == statements_view(old(batch)@) + effect_stmts(
            account_keyspace@,
            *key_info,
            effects,
        ),
{
    let ghost start = statements_view(batch@);
    let SideEffects { indexes, index_writes, pending, ttl, stream } = effects;
    sync_indexes(batch, account_keyspace, &indexes, &index_writes);
    let ghost synced = statements_view(batch@);
    let mut pending = pending;
    let ghost queued = statements_view(pending@);
    batch.append(&mut pending);
    proof {
        assert(statements_view(batch@) =~= synced + queued);
    }
    let ghost before_ttl = statements_view(batch@);
    match ttl {
        Some(c) => {
            let TtlChange { generation, outbox_key, old_entry, new_entry } = c;
            add_ttl_reconciliation_mutation(
                batch,
                account_keyspace,
                key_info,
                outbox_key.as_ref(),
            );
            add_ttl_queue_mutations(
                batch,
                account_keyspace,
                key_info.table_id.as_str(),
                &generation,
                old_entry,
                new_entry,
            );
            proof {
                assert(statements_view(batch@) =~= before_ttl + ttl_stmts(
                    account_keyspace@,
                    *key_info,
                    c,
                ));
            }
        },
        None => {
            proof {
                assert(before_ttl + Seq::<StatementView>::empty() =~= before_ttl);
            }
        },
    }
    match stream {
        Some(s) => {
            push_statement(batch, stmt0(s));
        },
        None => {},
    }
    proof {
        assert(statements_view(batch@) =~= start + effect_stmts(
            account_keyspace@,
            *key_info,
            effects,
        ));
    }
}

/// How a write is committed: by one statement on its own, or by a logged batch,
/// which carries the time of the write where a claim is held.
#[derive(Debug, PartialEq, Eq)]
pub enum WritePlan {
    Direct(Statement),
    Batch { statements: Vec<Statement>, timestamped: bool },
}

/// The write needs no batch: the table has no index and no TTL, and nothing is
/// captured for a stream.
pub open spec fn is_plain(e: SideEffects) -> bool {
    e.indexes@.len() == 0 && e.stream is None && e.ttl is None
}

/// Plan the commit of a base-table statement with its side effects.
pub fn plan_write(
    base: Statement,
    account_keyspace: &str,
    key_info: &TableKeyInfo,
    effects: SideEffects,
    holds_claim: bool,
) -> (r: WritePlan)
    requires
        effects_wf(effects),
    ensures
        match r {
            WritePlan::Direct(s) => is_plain(effects) && !holds_claim && s == base,
            WritePlan::Batch { statements, timestamped } => {
                &&& !is_plain(effects) || holds_claim
                &&& timestamped == holds_claim
                &&& statements_view(statements@) == seq![base@] + effect_stmts(
                    account_keyspace@,
                    *key_info,
                    effects,
                )
            },
        },
{
    if effects.indexes.len() == 0 && effects.stream.is_none() && effects.ttl.is_none()
        && !holds_claim {
        return WritePlan::Direct(base);
    }
    let mut statements: Vec<Statement> = Vec::new();
    push_statement(&mut statements, base);
    proof {
        assert(statements_view(statements@) =~= seq![base@]);
    }
    push_effects(&mut statements, account_keyspace, key_info, effects);
    WritePlan::Batch { statements, timestamped: holds_claim }
}

/// The item that a write reports: the old one, where it was asked for.
pub fn reported(return_old: bool, old_item: Option<Item>) -> (r: Option<Item>)
    ensures
        r == (if return_old {
            old_item
        } else {
            None
        }),
{
    if return_old {
        old_item
    } else {
        None
    }
}

} // verus!
