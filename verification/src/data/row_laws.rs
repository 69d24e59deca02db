//! What the statements on the rows of a data table do to them.
use vstd::prelude::*;
use crate::command::{
    address, after_set, applies, bind, bounds, columns_of, equations, guard_text, held,
    lemma_joined_1, lemma_joined_2, lemma_joined_push, row_at, run, run_either, set_cell, term_text,
    term_value, terms_of, written, Cells, Command, Guard, Slot, Table, Term,
};
use crate::cql::{sk_bind, sk_col, stmt, CqlView};
use crate::data::base_row::{
    delete_stmt, insert_stmt, key_binds, select_stmt, where_text, RowKey,
};
use crate::data::transaction_rows::{
    commit_delete_stmt, commit_write_stmt, prepare_stmt, rollback_clear_stmt, rollback_delete_stmt,
};
use crate::data::claim::{claim_stmt, release_stmt};
use crate::data::update_item::occ_stmt;
use crate::text::{joined, nat_text};

verus! {

/// The columns that address the row of a key, with their values.
pub open spec fn key_slots(key: RowKey) -> Seq<Slot> {
    match key.sk {
        Some(b) => seq![
            bind("pk"@, CqlView::Text(key.pk@)),
            bind(sk_col(b.sk_type), sk_bind(b.value@)),
        ],
        None => seq![bind("pk"@, CqlView::Text(key.pk@))],
    }
}

/// The address of the row of a key.
pub open spec fn row_address(key: RowKey) -> Cells {
    address(key_slots(key))
}

/// The guard that a transaction holds the row.
pub open spec fn held_by_txn(txn_id: Seq<u8>) -> Guard {
    Guard::If(seq![bind("prepared_txn_id"@, CqlView::Uuid(txn_id))])
}

/// Prepare a row: write a new item where there is no row, marked as made by preparing;
/// mark an existing one where nobody holds it.
pub open spec fn prepare_command(
    target: Seq<char>,
    key: RowKey,
    txn_id: Seq<u8>,
    ts: i64,
    new_item: Option<Seq<char>>,
) -> Command {
    match new_item {
        Some(item) => Command::Insert {
            target,
            key: key_slots(key),
            cells: seq![
                bind("item_data"@, CqlView::Text(item)),
                bind("prepared_txn_id"@, CqlView::Uuid(txn_id)),
                bind("prepared_txn_timestamp"@, CqlView::BigInt(ts)),
                (Slot { column: "created_to_prepare"@, term: Term::Truth(true) }),
            ],
            guard: Guard::NotExists,
        },
        None => Command::Update {
            target,
            key: key_slots(key),
            cells: seq![
                bind("prepared_txn_id"@, CqlView::Uuid(txn_id)),
                bind("prepared_txn_timestamp"@, CqlView::BigInt(ts)),
            ],
            guard: Guard::If(seq![(Slot { column: "prepared_txn_id"@, term: Term::Null })]),
        },
    }
}

/// Remove the row that preparing made.
pub open spec fn remove_command(target: Seq<char>, key: RowKey, txn_id: Seq<u8>) -> Command {
    Command::Delete {
        target,
        key: key_slots(key),
        guard: Guard::If(
            seq![
                bind("prepared_txn_id"@, CqlView::Uuid(txn_id)),
                (Slot { column: "created_to_prepare"@, term: Term::Truth(true) }),
            ],
        ),
    }
}

/// Take the mark off a row.
pub open spec fn clear_command(target: Seq<char>, key: RowKey, txn_id: Seq<u8>) -> Command {
    Command::Update {
        target,
        key: key_slots(key),
        cells: seq![(Slot { column: "prepared_txn_id"@, term: Term::Null })],
        guard: held_by_txn(txn_id),
    }
}

/// Store an item and take the mark off.
pub open spec fn commit_command(
    target: Seq<char>,
    key: RowKey,
    item: Seq<char>,
    ts: i64,
    txn_id: Seq<u8>,
) -> Command {
    Command::Update {
        target,
        key: key_slots(key),
        cells: seq![
            bind("item_data"@, CqlView::Text(item)),
            (Slot { column: "prepared_txn_id"@, term: Term::CapitalNull }),
            (Slot { column: "version"@, term: Term::Next }),
            bind("last_committed_txn_timestamp"@, CqlView::BigInt(ts)),
        ],
        guard: held_by_txn(txn_id),
    }
}

/// Delete the row that a transaction holds.
pub open spec fn commit_delete_command(target: Seq<char>, key: RowKey, txn_id: Seq<u8>) -> Command {
    Command::Delete { target, key: key_slots(key), guard: held_by_txn(txn_id) }
}

/// Write an item.
pub open spec fn put_command(target: Seq<char>, key: RowKey, item: Seq<char>) -> Command {
    Command::Insert {
        target,
        key: key_slots(key),
        cells: seq![bind("item_data"@, CqlView::Text(item))],
        guard: Guard::Always,
    }
}

/// Remove a row.
pub open spec fn delete_command(target: Seq<char>, key: RowKey) -> Command {
    Command::Delete { target, key: key_slots(key), guard: Guard::Always }
}

/// The full name of a table.
pub open spec fn full_name(ks: Seq<char>, table: Seq<char>) -> Seq<char> {
    ks + "."@ + table
}

proof fn lemma_row_columns()
    ensures
        "item_data"@.len() == 9,
        "prepared_txn_id"@.len() == 15,
        "prepared_txn_timestamp"@.len() == 22,
        "created_to_prepare"@.len() == 18,
        "version"@.len() == 7,
        "last_committed_txn_timestamp"@.len() == 28,
        "pk"@.len() == 2,
{
    reveal_strlit("item_data");
    reveal_strlit("prepared_txn_id");
    reveal_strlit("prepared_txn_timestamp");
    reveal_strlit("created_to_prepare");
    reveal_strlit("version");
    reveal_strlit("last_committed_txn_timestamp");
    reveal_strlit("pk");
}

#[verifier::spinoff_prover]
#[verifier::rlimit(60)]
proof fn lemma_key_text(key: RowKey)
    ensures
        " WHERE "@ + joined(equations(key_slots(key)), " AND "@) == where_text(key),
        bounds(key_slots(key)) == key_binds(key),
{
    let k = key_slots(key);
    let a = "pk"@ + " = "@ + "?"@;
    reveal_with_fuel(bounds, 3);
    match key.sk {
        Some(b) => {
            let col = sk_col(b.sk_type);
            let c = col + " = "@ + "?"@;
            assert(equations(k) =~= seq![a, c]);
            lemma_joined_2(a, c, " AND "@);
            assert(k.drop_last() =~= seq![k[0]]);
            assert(k.drop_last().drop_last() =~= Seq::empty());
            assert(bounds(k) =~= key_binds(key));
            assert(" WHERE pk = ? AND "@ =~= " WHERE "@ + a + " AND "@) by {
                reveal_strlit(" WHERE pk = ? AND ");
                reveal_strlit(" WHERE ");
                reveal_strlit("pk");
                reveal_strlit(" = ");
                reveal_strlit("?");
                reveal_strlit(" AND ");
            }
            assert(" = ?"@ =~= " = "@ + "?"@) by {
                reveal_strlit(" = ?");
                reveal_strlit(" = ");
                reveal_strlit("?");
            }
            assert(" WHERE "@ + (a + " AND "@ + c) =~= " WHERE pk = ? AND "@ + col + " = ?"@);
        },
        None => {
            assert(equations(k) =~= seq![a]);
            lemma_joined_1(a, " AND "@);
            assert(k.drop_last() =~= Seq::empty());
            assert(bounds(k) =~= key_binds(key));
            assert(" WHERE pk = ?"@ =~= " WHERE "@ + a) by {
                reveal_strlit(" WHERE pk = ?");
                reveal_strlit(" WHERE ");
                reveal_strlit("pk");
                reveal_strlit(" = ");
                reveal_strlit("?");
            }
        },
    }
}

proof fn lemma_bounds_push(slots: Seq<Slot>, s: Slot)
    ensures
        bounds(slots.push(s)) == match s.term {
            Term::Bound(v) => bounds(slots).push(v),
            _ => bounds(slots),
        },
{
    assert(slots.push(s).drop_last() =~= slots);
}

proof fn lemma_held_by_txn(txn_id: Seq<u8>)
    ensures
        guard_text(held_by_txn(txn_id)) == " IF prepared_txn_id = ?"@,
        bounds(seq![bind("prepared_txn_id"@, CqlView::Uuid(txn_id))]) == seq![CqlView::Uuid(txn_id)],
{
    let g = seq![bind("prepared_txn_id"@, CqlView::Uuid(txn_id))];
    let e = "prepared_txn_id"@ + " = "@ + "?"@;
    assert(equations(g) =~= seq![e]);
    lemma_joined_1(e, " AND "@);
    assert(" IF prepared_txn_id = ?"@ =~= " IF "@ + e) by {
        reveal_strlit(" IF prepared_txn_id = ?");
        reveal_strlit(" IF ");
        reveal_strlit("prepared_txn_id");
        reveal_strlit(" = ");
        reveal_strlit("?");
    }
    assert(g =~= Seq::<Slot>::empty().push(g[0]));
    lemma_bounds_push(Seq::empty(), g[0]);
    assert(bounds(g) =~= seq![CqlView::Uuid(txn_id)]);
}

#[verifier::spinoff_prover]
#[verifier::rlimit(60)]
proof fn lemma_remove_text(ks: Seq<char>, table: Seq<char>, key: RowKey, txn_id: Seq<u8>)
    ensures
        written(remove_command(full_name(ks, table), key, txn_id)) == rollback_delete_stmt(
            ks,
            table,
            key,
            txn_id,
        ),
{
    lemma_key_text(key);
    let c = remove_command(full_name(ks, table), key, txn_id);
    let a = bind("prepared_txn_id"@, CqlView::Uuid(txn_id));
    let b = Slot { column: "created_to_prepare"@, term: Term::Truth(true) };
    let g = seq![a, b];
    let ta = "prepared_txn_id"@ + " = "@ + "?"@;
    let tb = "created_to_prepare"@ + " = "@ + "true"@;
    assert(equations(g) =~= seq![ta, tb]);
    lemma_joined_2(ta, tb, " AND "@);
    assert(" IF prepared_txn_id = ? AND created_to_prepare = true"@ =~= " IF "@ + (ta + " AND "@
        + tb)) by {
        reveal_strlit(" IF prepared_txn_id = ? AND created_to_prepare = true");
        reveal_strlit(" IF ");
        reveal_strlit("prepared_txn_id");
        reveal_strlit("created_to_prepare");
        reveal_strlit(" = ");
        reveal_strlit("?");
        reveal_strlit("true");
        reveal_strlit(" AND ");
    }
    assert(g =~= Seq::<Slot>::empty().push(a).push(b));
    lemma_bounds_push(Seq::empty(), a);
    lemma_bounds_push(Seq::<Slot>::empty().push(a), b);
    let w = written(c);
    let d = rollback_delete_stmt(ks, table, key, txn_id);
    assert(w.cql =~= d.cql);
    assert(w.values =~= d.values);
}

#[verifier::spinoff_prover]
#[verifier::rlimit(60)]
proof fn lemma_clear_text(ks: Seq<char>, table: Seq<char>, key: RowKey, txn_id: Seq<u8>)
    ensures
        written(clear_command(full_name(ks, table), key, txn_id)) == rollback_clear_stmt(
            ks,
            table,
            key,
            txn_id,
        ),
{
    lemma_key_text(key);
    lemma_held_by_txn(txn_id);
    let c = clear_command(full_name(ks, table), key, txn_id);
    let a = Slot { column: "prepared_txn_id"@, term: Term::Null };
    let cells = seq![a];
    let ta = "prepared_txn_id"@ + " = "@ + "null"@;
    assert(equations(cells) =~= seq![ta]);
    lemma_joined_1(ta, ", "@);
    assert(" SET prepared_txn_id = null"@ =~= " SET "@ + ta) by {
        reveal_strlit(" SET prepared_txn_id = null");
        reveal_strlit(" SET ");
        reveal_strlit("prepared_txn_id");
        reveal_strlit(" = ");
        reveal_strlit("null");
    }
    assert(cells =~= Seq::<Slot>::empty().push(a));
    lemma_bounds_push(Seq::empty(), a);
    let w = written(c);
    let d = rollback_clear_stmt(ks, table, key, txn_id);
    assert(w.cql =~= d.cql);
    assert(w.values =~= d.values);
}

#[verifier::spinoff_prover]
#[verifier::rlimit(60)]
proof fn lemma_commit_delete_text(ks: Seq<char>, table: Seq<char>, key: RowKey, txn_id: Seq<u8>)
    ensures
        written(commit_delete_command(full_name(ks, table), key, txn_id)) == commit_delete_stmt(
            ks,
            table,
            key,
            txn_id,
        ),
{
    lemma_key_text(key);
    lemma_held_by_txn(txn_id);
    let w = written(commit_delete_command(full_name(ks, table), key, txn_id));
    let d = commit_delete_stmt(ks, table, key, txn_id);
    assert(w.cql =~= d.cql);
    assert(w.values =~= d.values);
}

#[verifier::spinoff_prover]
#[verifier::rlimit(60)]
proof fn lemma_delete_text(ks: Seq<char>, table: Seq<char>, key: RowKey)
    ensures
        written(delete_command(full_name(ks, table), key)) == delete_stmt(ks, table, key),
{
    lemma_key_text(key);
    let w = written(delete_command(full_name(ks, table), key));
    let d = delete_stmt(ks, table, key);
    assert(w.cql =~= d.cql);
    assert(w.values =~= d.values);
}

#[verifier::spinoff_prover]
#[verifier::rlimit(60)]
proof fn lemma_commit_text(
    ks: Seq<char>,
    table: Seq<char>,
    key: RowKey,
    item: Seq<char>,
    ts: i64,
    txn_id: Seq<u8>,
)
    ensures
        written(commit_command(full_name(ks, table), key, item, ts, txn_id)) == commit_write_stmt(
            ks,
            table,
            key,
            item,
            ts,
            txn_id,
        ),
{
    lemma_key_text(key);
    lemma_held_by_txn(txn_id);
    let a = bind("item_data"@, CqlView::Text(item));
    let b = Slot { column: "prepared_txn_id"@, term: Term::CapitalNull };
    let c = Slot { column: "version"@, term: Term::Next };
    let d = bind("last_committed_txn_timestamp"@, CqlView::BigInt(ts));
    let cells = seq![a, b, c, d];
    let ta = "item_data"@ + " = "@ + "?"@;
    let tb = "prepared_txn_id"@ + " = "@ + "NULL"@;
    let tc = "version"@ + " = "@ + ("version"@ + " + 1"@);
    let td = "last_committed_txn_timestamp"@ + " = "@ + "?"@;
    assert(equations(cells) =~= seq![ta, tb].push(tc).push(td));
    lemma_joined_2(ta, tb, ", "@);
    lemma_joined_push(seq![ta, tb], tc, ", "@);
    lemma_joined_push(seq![ta, tb].push(tc), td, ", "@);
    assert(" SET item_data = ?, prepared_txn_id = NULL, version = version + 1, last_committed_txn_timestamp = ?"@
        =~= " SET "@ + (ta + ", "@ + tb + ", "@ + tc + ", "@ + td)) by {
        reveal_strlit(
            " SET item_data = ?, prepared_txn_id = NULL, version = version + 1, last_committed_txn_timestamp = ?",
        );
        reveal_strlit(" SET ");
        reveal_strlit("item_data");
        reveal_strlit("prepared_txn_id");
        reveal_strlit("version");
        reveal_strlit("last_committed_txn_timestamp");
        reveal_strlit(" = ");
        reveal_strlit("?");
        reveal_strlit("NULL");
        reveal_strlit(" + 1");
        reveal_strlit(", ");
    }
    let e = Seq::<Slot>::empty();
    assert(cells =~= e.push(a).push(b).push(c).push(d));
    lemma_bounds_push(e, a);
    lemma_bounds_push(e.push(a), b);
    lemma_bounds_push(e.push(a).push(b), c);
    lemma_bounds_push(e.push(a).push(b).push(c), d);
    let w = written(commit_command(full_name(ks, table), key, item, ts, txn_id));
    let x = commit_write_stmt(ks, table, key, item, ts, txn_id);
    assert(w.cql =~= x.cql);
    assert(w.values =~= x.values);
}

#[verifier::spinoff_prover]
#[verifier::rlimit(60)]
proof fn lemma_mark_text(ks: Seq<char>, table: Seq<char>, key: RowKey, txn_id: Seq<u8>, ts: i64)
    ensures
        written(prepare_command(full_name(ks, table), key, txn_id, ts, None)) == prepare_stmt(
            ks,
            table,
            key,
            txn_id,
            ts,
            None,
        ),
{
    lemma_key_text(key);
    let a = bind("prepared_txn_id"@, CqlView::Uuid(txn_id));
    let b = bind("prepared_txn_timestamp"@, CqlView::BigInt(ts));
    let cells = seq![a, b];
    let ta = "prepared_txn_id"@ + " = "@ + "?"@;
    let tb = "prepared_txn_timestamp"@ + " = "@ + "?"@;
    assert(equations(cells) =~= seq![ta, tb]);
    lemma_joined_2(ta, tb, ", "@);
    assert(" SET prepared_txn_id = ?, prepared_txn_timestamp = ?"@ =~= " SET "@ + (ta + ", "@
        + tb)) by {
        reveal_strlit(" SET prepared_txn_id = ?, prepared_txn_timestamp = ?");
        reveal_strlit(" SET ");
        reveal_strlit("prepared_txn_id");
        reveal_strlit("prepared_txn_timestamp");
        reveal_strlit(" = ");
        reveal_strlit("?");
        reveal_strlit(", ");
    }
    let g = Slot { column: "prepared_txn_id"@, term: Term::Null };
    let tg = "prepared_txn_id"@ + " = "@ + "null"@;
    assert(equations(seq![g]) =~= seq![tg]);
    lemma_joined_1(tg, " AND "@);
    assert(" IF prepared_txn_id = null"@ =~= " IF "@ + tg) by {
        reveal_strlit(" IF prepared_txn_id = null");
        reveal_strlit(" IF ");
        reveal_strlit("prepared_txn_id");
        reveal_strlit(" = ");
        reveal_strlit("null");
    }
    let e = Seq::<Slot>::empty();
    assert(cells =~= e.push(a).push(b));
    lemma_bounds_push(e, a);
    lemma_bounds_push(e.push(a), b);
    assert(seq![g] =~= e.push(g));
    lemma_bounds_push(e, g);
    let w = written(prepare_command(full_name(ks, table), key, txn_id, ts, None));
    let x = prepare_stmt(ks, table, key, txn_id, ts, None);
    assert(w.cql =~= x.cql);
    assert(w.values =~= x.values);
}

/// The columns of a new item behind those of its key.
#[verifier::opaque]
spec fn new_columns() -> Seq<char> {
    ", "@ + "item_data"@ + ", "@ + "prepared_txn_id"@ + ", "@ + "prepared_txn_timestamp"@ + ", "@
        + "created_to_prepare"@
}

/// The values of a new item behind those of its key.
#[verifier::opaque]
spec fn new_marks() -> Seq<char> {
    ", "@ + "?"@ + ", "@ + "?"@ + ", "@ + "?"@ + ", "@ + "true"@
}

#[verifier::spinoff_prover]
#[verifier::rlimit(60)]
proof fn lemma_tail_text()
    ensures
        " (pk, item_data, prepared_txn_id, prepared_txn_timestamp, created_to_prepare) VALUES (?, ?, ?, ?, true) IF NOT EXISTS"@ == " ("@ + "pk"@ + new_columns() + ") VALUES ("@ + "?"@ + new_marks() + ")"@
            + " IF NOT EXISTS"@,
{
    reveal(new_columns);
    reveal(new_marks);
    reveal_strlit(
        " (pk, item_data, prepared_txn_id, prepared_txn_timestamp, created_to_prepare) VALUES (?, ?, ?, ?, true) IF NOT EXISTS",
    );
    reveal_strlit("pk");
    reveal_strlit(" (");
    reveal_strlit(", ");
    reveal_strlit(")");
    reveal_strlit("?");
    reveal_strlit("true");
    reveal_strlit(") VALUES (");
    reveal_strlit(" IF NOT EXISTS");
    reveal_strlit("item_data");
    reveal_strlit("prepared_txn_id");
    reveal_strlit("prepared_txn_timestamp");
    reveal_strlit("created_to_prepare");
    assert(" (pk, item_data, prepared_txn_id, prepared_txn_timestamp, created_to_prepare) VALUES (?, ?, ?, ?, true) IF NOT EXISTS"@ =~= " ("@ + "pk"@ + new_columns() + ") VALUES ("@ + "?"@ + new_marks()
        + ")"@ + " IF NOT EXISTS"@);
}

#[verifier::spinoff_prover]
#[verifier::rlimit(60)]
proof fn lemma_sorted_tail_text()
    ensures
        " (pk, "@ == " ("@ + "pk"@ + ", "@,
        ", item_data, prepared_txn_id, prepared_txn_timestamp, created_to_prepare) VALUES (?, ?, ?, ?, ?, true) IF NOT EXISTS"@ == new_columns() + ") VALUES ("@ + "?"@ + ", "@ + "?"@ + new_marks() + ")"@
            + " IF NOT EXISTS"@,
{
    reveal(new_columns);
    reveal(new_marks);
    reveal_strlit(" (pk, ");
    reveal_strlit(
        ", item_data, prepared_txn_id, prepared_txn_timestamp, created_to_prepare) VALUES (?, ?, ?, ?, ?, true) IF NOT EXISTS",
    );
    reveal_strlit("pk");
    reveal_strlit(" (");
    reveal_strlit(", ");
    reveal_strlit(")");
    reveal_strlit("?");
    reveal_strlit("true");
    reveal_strlit(") VALUES (");
    reveal_strlit(" IF NOT EXISTS");
    reveal_strlit("item_data");
    reveal_strlit("prepared_txn_id");
    reveal_strlit("prepared_txn_timestamp");
    reveal_strlit("created_to_prepare");
    assert(" (pk, "@ =~= " ("@ + "pk"@ + ", "@);
    assert(", item_data, prepared_txn_id, prepared_txn_timestamp, created_to_prepare) VALUES (?, ?, ?, ?, ?, true) IF NOT EXISTS"@ =~= new_columns() + ") VALUES ("@ + "?"@ + ", "@ + "?"@ + new_marks() + ")"@
        + " IF NOT EXISTS"@);
}

#[verifier::spinoff_prover]
#[verifier::rlimit(60)]
proof fn lemma_joined_more(
    parts: Seq<Seq<char>>,
    a: Seq<char>,
    b: Seq<char>,
    c: Seq<char>,
    d: Seq<char>,
    sep: Seq<char>,
)
    requires
        parts.len() > 0,
    ensures
        joined(parts + seq![a, b, c, d], sep) == joined(parts, sep) + (sep + a + sep + b + sep + c
            + sep + d),
{
    assert(parts + seq![a, b, c, d] =~= parts.push(a).push(b).push(c).push(d));
    lemma_joined_push(parts, a, sep);
    lemma_joined_push(parts.push(a), b, sep);
    lemma_joined_push(parts.push(a).push(b), c, sep);
    lemma_joined_push(parts.push(a).push(b).push(c), d, sep);
    let j = joined(parts, sep);
    assert(j + sep + a + sep + b + sep + c + sep + d =~= j + (sep + a + sep + b + sep + c + sep
        + d));
}

#[verifier::spinoff_prover]
#[verifier::rlimit(60)]
proof fn lemma_new_parts(key: RowKey, cells: Seq<Slot>)
    requires
        cells.len() == 4,
        columns_of(cells) == seq![
            "item_data"@,
            "prepared_txn_id"@,
            "prepared_txn_timestamp"@,
            "created_to_prepare"@,
        ],
        terms_of(cells) == seq!["?"@, "?"@, "?"@, "true"@],
    ensures
        joined(columns_of(key_slots(key) + cells), ", "@) == (match key.sk {
            Some(b) => "pk"@ + ", "@ + sk_col(b.sk_type),
            None => "pk"@,
        }) + new_columns(),
        joined(terms_of(key_slots(key) + cells), ", "@) == (match key.sk {
            Some(b) => "?"@ + ", "@ + "?"@,
            None => "?"@,
        }) + new_marks(),
{
    reveal(new_columns);
    reveal(new_marks);
    let k = key_slots(key);
    assert(columns_of(k + cells) =~= columns_of(k) + columns_of(cells));
    assert(terms_of(k + cells) =~= terms_of(k) + terms_of(cells));
    lemma_joined_more(
        columns_of(k),
        "item_data"@,
        "prepared_txn_id"@,
        "prepared_txn_timestamp"@,
        "created_to_prepare"@,
        ", "@,
    );
    lemma_joined_more(terms_of(k), "?"@, "?"@, "?"@, "true"@, ", "@);
    match key.sk {
        Some(b) => {
            assert(columns_of(k) =~= seq!["pk"@, sk_col(b.sk_type)]);
            assert(terms_of(k) =~= seq!["?"@, "?"@]);
            lemma_joined_2("pk"@, sk_col(b.sk_type), ", "@);
            lemma_joined_2("?"@, "?"@, ", "@);
        },
        None => {
            assert(columns_of(k) =~= seq!["pk"@]);
            assert(terms_of(k) =~= seq!["?"@]);
        },
    }
}

#[verifier::spinoff_prover]
#[verifier::rlimit(60)]
proof fn lemma_new_text(
    ks: Seq<char>,
    table: Seq<char>,
    key: RowKey,
    txn_id: Seq<u8>,
    ts: i64,
    item: Seq<char>,
)
    ensures
        written(prepare_command(full_name(ks, table), key, txn_id, ts, Some(item)))
            == prepare_stmt(ks, table, key, txn_id, ts, Some(item)),
{
    lemma_key_text(key);
    let a = bind("item_data"@, CqlView::Text(item));
    let b = bind("prepared_txn_id"@, CqlView::Uuid(txn_id));
    let c = bind("prepared_txn_timestamp"@, CqlView::BigInt(ts));
    let d = Slot { column: "created_to_prepare"@, term: Term::Truth(true) };
    let k = key_slots(key);
    let cells = seq![a, b, c, d];
    assert(k + cells =~= k.push(a).push(b).push(c).push(d));
    lemma_bounds_push(k, a);
    lemma_bounds_push(k.push(a), b);
    lemma_bounds_push(k.push(a).push(b), c);
    lemma_bounds_push(k.push(a).push(b).push(c), d);
    assert(columns_of(cells) =~= seq![
        "item_data"@,
        "prepared_txn_id"@,
        "prepared_txn_timestamp"@,
        "created_to_prepare"@,
    ]);
    assert(terms_of(cells) =~= seq!["?"@, "?"@, "?"@, "true"@]);
    lemma_new_parts(key, cells);
    let w = written(prepare_command(full_name(ks, table), key, txn_id, ts, Some(item)));
    let x = prepare_stmt(ks, table, key, txn_id, ts, Some(item));
    match key.sk {
        Some(_) => {
            lemma_sorted_tail_text();
        },
        None => {
            lemma_tail_text();
        },
    }
    assert(w.cql =~= x.cql);
    assert(w.values =~= x.values);
}

proof fn lemma_set_push(row: Option<Cells>, slots: Seq<Slot>, s: Slot)
    ensures
        after_set(row, slots.push(s)) == set_cell(
            after_set(row, slots),
            s.column,
            term_value(row, s),
        ),
{
    assert(slots.push(s).drop_last() =~= slots);
}

/// Rolling back undoes preparing. A new item that was prepared where there was no row
/// is gone after the rollback, and the table is as it was, with or without a sort key.
/// A row that was there keeps its item and has no owner again, and no other row is
/// touched. A row that another transaction holds, or that exists already, is not
/// prepared, and neither the attempt nor its rollback changes the table. The law
/// leaves out existing rows that still carry the mark of having been made by
/// preparing.
pub proof fn law_rollback_undoes_prepare(
    ks: Seq<char>,
    table: Seq<char>,
    key: RowKey,
    txn_id: Seq<u8>,
    ts: i64,
    new_item: Option<Seq<char>>,
    t: Table,
)
    requires
        held(row_at(t, row_address(key)), "created_to_prepare"@) != CqlView::Boolean(true),
        held(row_at(t, row_address(key)), "prepared_txn_id"@) != CqlView::Uuid(txn_id),
        new_item is None ==> t.dom().contains(row_address(key)),
    ensures
        ({
            let target = full_name(ks, table);
            let prepare = prepare_command(target, key, txn_id, ts, new_item);
            let remove = remove_command(target, key, txn_id);
            let clear = clear_command(target, key, txn_id);
            let a = row_address(key);
            let before = row_at(t, a);
            let prepared = run(prepare, t);
            let after = run_either(remove, clear, prepared);
            &&& written(prepare) == prepare_stmt(ks, table, key, txn_id, ts, new_item)
            &&& written(remove) == rollback_delete_stmt(ks, table, key, txn_id)
            &&& written(clear) == rollback_clear_stmt(ks, table, key, txn_id)
            &&& applies(prepare, t) <==> (if new_item is Some {
                before is None
            } else {
                held(before, "prepared_txn_id"@) == CqlView::Null
            })
            &&& applies(prepare, t) ==> held(row_at(prepared, a), "prepared_txn_id"@)
                == CqlView::Uuid(txn_id)
            &&& applies(prepare, t) && new_item is Some ==> held(row_at(prepared, a), "item_data"@)
                == CqlView::Text(new_item->0) && applies(remove, prepared)
            &&& !applies(prepare, t) || new_item is Some ==> after == t
            &&& row_at(after, a) is Some <==> before is Some
            &&& held(row_at(after, a), "item_data"@) == held(before, "item_data"@)
            &&& applies(prepare, t) ==> held(row_at(after, a), "prepared_txn_id"@) == CqlView::Null
            &&& after.remove(a) == t.remove(a)
        }),
{
    lemma_row_columns();
    lemma_remove_text(ks, table, key, txn_id);
    lemma_clear_text(ks, table, key, txn_id);
    let target = full_name(ks, table);
    let prepare = prepare_command(target, key, txn_id, ts, new_item);
    let remove = remove_command(target, key, txn_id);
    let clear = clear_command(target, key, txn_id);
    let a = row_address(key);
    let before = row_at(t, a);
    let prepared = run(prepare, t);
    let after = run_either(remove, clear, prepared);
    let none = Slot { column: "prepared_txn_id"@, term: Term::Null };
    let mine = bind("prepared_txn_id"@, CqlView::Uuid(txn_id));
    let made = Slot { column: "created_to_prepare"@, term: Term::Truth(true) };
    let e = Seq::<Slot>::empty();
    match new_item {
        Some(item) => {
            lemma_new_text(ks, table, key, txn_id, ts, item);
            let x = bind("item_data"@, CqlView::Text(item));
            let z = bind("prepared_txn_timestamp"@, CqlView::BigInt(ts));
            assert(seq![x, mine, z, made] =~= e.push(x).push(mine).push(z).push(made));
            lemma_set_push(before, e, x);
            lemma_set_push(before, e.push(x), mine);
            lemma_set_push(before, e.push(x).push(mine), z);
            lemma_set_push(before, e.push(x).push(mine).push(z), made);
        },
        None => {
            lemma_mark_text(ks, table, key, txn_id, ts);
            let z = bind("prepared_txn_timestamp"@, CqlView::BigInt(ts));
            assert(seq![mine, z] =~= e.push(mine).push(z));
            lemma_set_push(before, e, mine);
            lemma_set_push(before, e.push(mine), z);
            assert(seq![none][0] == none);
            assert(applies(prepare, t) <==> held(before, "prepared_txn_id"@) == CqlView::Null) by {
                if held(before, "prepared_txn_id"@) == CqlView::Null {
                    assert forall|i: int| 0 <= i < seq![none].len() implies held(
                        before,
                        (#[trigger] seq![none][i]).column,
                    ) == term_value(before, seq![none][i]) by {}
                }
            }
        },
    }
    let row = row_at(prepared, a);
    let guard = seq![mine, made];
    assert(guard[0] == mine && guard[1] == made);
    assert(applies(remove, prepared) <==> held(row, "prepared_txn_id"@) == CqlView::Uuid(txn_id)
        && held(row, "created_to_prepare"@) == CqlView::Boolean(true));
    assert(seq![mine][0] == mine);
    assert(applies(clear, prepared) <==> held(row, "prepared_txn_id"@) == CqlView::Uuid(txn_id));
    assert(seq![none] =~= e.push(none));
    lemma_set_push(row, e, none);
    assert(after.remove(a) =~= t.remove(a));
    if !applies(prepare, t) || new_item is Some {
        assert(after =~= t);
    }
}

/// Committing stores what was prepared, and only the transaction that holds the row can
/// commit it: then the row holds the item, has no owner and carries the commit time, or
/// it is gone where a deletion is committed. Nothing else is touched.
pub proof fn law_commit_takes_the_held_row(
    ks: Seq<char>,
    table: Seq<char>,
    key: RowKey,
    item: Seq<char>,
    ts: i64,
    txn_id: Seq<u8>,
    t: Table,
)
    ensures
        ({
            let target = full_name(ks, table);
            let commit = commit_command(target, key, item, ts, txn_id);
            let delete = commit_delete_command(target, key, txn_id);
            let a = row_address(key);
            let before = row_at(t, a);
            let holds = held(before, "prepared_txn_id"@) == CqlView::Uuid(txn_id);
            let row = row_at(run(commit, t), a);
            &&& written(commit) == commit_write_stmt(ks, table, key, item, ts, txn_id)
            &&& written(delete) == commit_delete_stmt(ks, table, key, txn_id)
            &&& applies(commit, t) <==> holds
            &&& applies(delete, t) <==> holds
            &&& holds ==> held(row, "item_data"@) == CqlView::Text(item)
            &&& holds ==> held(row, "prepared_txn_id"@) == CqlView::Null
            &&& holds ==> held(row, "last_committed_txn_timestamp"@) == CqlView::BigInt(ts)
            &&& holds && (held(before, "version"@) matches CqlView::BigInt(n) && n < i64::MAX)
                ==> held(row, "version"@) == CqlView::BigInt(
                (held(before, "version"@)->BigInt_0 + 1) as i64,
            )
            &&& run(commit, t).remove(a) == t.remove(a)
            &&& run(delete, t) == (if holds {
                t.remove(a)
            } else {
                t
            })
            &&& !holds ==> run(commit, t) == t
        }),
{
    lemma_row_columns();
    lemma_commit_text(ks, table, key, item, ts, txn_id);
    lemma_commit_delete_text(ks, table, key, txn_id);
    let target = full_name(ks, table);
    let commit = commit_command(target, key, item, ts, txn_id);
    let a = row_address(key);
    let before = row_at(t, a);
    let mine = bind("prepared_txn_id"@, CqlView::Uuid(txn_id));
    assert(seq![mine][0] == mine);
    let w = bind("item_data"@, CqlView::Text(item));
    let x = Slot { column: "prepared_txn_id"@, term: Term::CapitalNull };
    let y = Slot { column: "version"@, term: Term::Next };
    let z = bind("last_committed_txn_timestamp"@, CqlView::BigInt(ts));
    let e = Seq::<Slot>::empty();
    assert(seq![w, x, y, z] =~= e.push(w).push(x).push(y).push(z));
    lemma_set_push(before, e, w);
    lemma_set_push(before, e.push(w), x);
    lemma_set_push(before, e.push(w).push(x), y);
    lemma_set_push(before, e.push(w).push(x).push(y), z);
    assert(run(commit, t).remove(a) =~= t.remove(a));
}

/// The condition that a row's item is the expected one, or that it has none.
pub open spec fn expected_slot(expected: Option<Seq<char>>) -> Slot {
    match expected {
        Some(e) => bind("item_data"@, CqlView::Text(e)),
        None => (Slot { column: "item_data"@, term: Term::Null }),
    }
}

/// The condition that a row's version is the one that was read, or that it has none.
pub open spec fn version_slot(version: Option<i64>) -> Slot {
    match version {
        Some(v) => bind("version"@, CqlView::BigInt(v)),
        None => (Slot { column: "version"@, term: Term::Null }),
    }
}

/// The version after the one that was read; the first where there was none.
pub open spec fn next_version(version: Option<i64>) -> i64 {
    match version {
        Some(v) => (v + 1) as i64,
        None => 1,
    }
}

/// Take a row: its item must be the expected one, or none, and nobody may hold it.
pub open spec fn claim_command(
    target: Seq<char>,
    key: RowKey,
    expected: Option<Seq<char>>,
    claim: Seq<u8>,
    at: i64,
) -> Command {
    Command::Update {
        target,
        key: key_slots(key),
        cells: seq![
            bind("prepared_txn_id"@, CqlView::Uuid(claim)),
            bind("prepared_txn_timestamp"@, CqlView::BigInt(at)),
        ],
        guard: Guard::If(
            seq![
                (Slot { column: "prepared_txn_id"@, term: Term::Null }),
                expected_slot(expected),
            ],
        ),
    }
}

/// Give a row back.
pub open spec fn release_command(target: Seq<char>, key: RowKey, claim: Seq<u8>) -> Command {
    Command::Update {
        target,
        key: key_slots(key),
        cells: seq![
            (Slot { column: "prepared_txn_id"@, term: Term::Null }),
            (Slot { column: "prepared_txn_timestamp"@, term: Term::Null }),
        ],
        guard: held_by_txn(claim),
    }
}

/// The table of a claim, with the seconds after which the claim lapses.
pub open spec fn claim_target(
    ks: Seq<char>,
    table: Seq<char>,
    ttl_seconds: Option<u32>,
) -> Seq<char> {
    match ttl_seconds {
        Some(s) => full_name(ks, table) + (" "@ + "USING TTL "@ + nat_text(s as nat)),
        None => full_name(ks, table),
    }
}

/// Write the next version of an item that was read at a version, where nobody holds it.
pub open spec fn next_version_command(
    target: Seq<char>,
    key: RowKey,
    item: Seq<char>,
    version: Option<i64>,
) -> Command {
    Command::Update {
        target,
        key: key_slots(key),
        cells: seq![
            bind("item_data"@, CqlView::Text(item)),
            bind("version"@, CqlView::BigInt(next_version(version))),
        ],
        guard: Guard::If(
            seq![
                version_slot(version),
                (Slot { column: "prepared_txn_id"@, term: Term::Null }),
            ],
        ),
    }
}

/// The guard of two columns, written out.
#[verifier::spinoff_prover]
#[verifier::rlimit(60)]
proof fn lemma_guard_2(a: Slot, b: Slot)
    ensures
        guard_text(Guard::If(seq![a, b])) == " IF "@ + (a.column + " = "@ + term_text(a) + " AND "@
            + (b.column + " = "@ + term_text(b))),
        bounds(seq![a, b]) == bounds(seq![a]) + bounds(seq![b]),
        bounds(seq![a]) == (match a.term {
            Term::Bound(v) => seq![v],
            _ => Seq::empty(),
        }),
        bounds(seq![b]) == (match b.term {
            Term::Bound(v) => seq![v],
            _ => Seq::empty(),
        }),
{
    let x = a.column + " = "@ + term_text(a);
    let y = b.column + " = "@ + term_text(b);
    assert(equations(seq![a, b]) =~= seq![x, y]);
    lemma_joined_2(x, y, " AND "@);
    let e = Seq::<Slot>::empty();
    assert(seq![a] =~= e.push(a));
    assert(seq![b] =~= e.push(b));
    assert(seq![a, b] =~= e.push(a).push(b));
    lemma_bounds_push(e, a);
    lemma_bounds_push(e, b);
    lemma_bounds_push(e.push(a), b);
    assert(bounds(seq![a]) =~= match a.term {
        Term::Bound(v) => seq![v],
        _ => Seq::empty(),
    });
    assert(bounds(seq![b]) =~= match b.term {
        Term::Bound(v) => seq![v],
        _ => Seq::empty(),
    });
    assert(bounds(seq![a, b]) =~= bounds(seq![a]) + bounds(seq![b]));
}

/// The assignments of two columns, written out.
#[verifier::spinoff_prover]
#[verifier::rlimit(60)]
proof fn lemma_set_2(a: Slot, b: Slot)
    ensures
        joined(equations(seq![a, b]), ", "@) == a.column + " = "@ + term_text(a) + ", "@ + (b.column
            + " = "@ + term_text(b)),
{
    let x = a.column + " = "@ + term_text(a);
    let y = b.column + " = "@ + term_text(b);
    assert(equations(seq![a, b]) =~= seq![x, y]);
    lemma_joined_2(x, y, ", "@);
}

#[verifier::spinoff_prover]
#[verifier::rlimit(60)]
proof fn lemma_claim_literals()
    ensures
        "SET prepared_txn_id = ?, prepared_txn_timestamp = ?"@ == "SET "@ + ("prepared_txn_id"@
            + " = "@ + "?"@ + ", "@ + ("prepared_txn_timestamp"@ + " = "@ + "?"@)),
        " SET prepared_txn_id = null, prepared_txn_timestamp = null"@ == " SET "@ + (
        "prepared_txn_id"@ + " = "@ + "null"@ + ", "@ + ("prepared_txn_timestamp"@ + " = "@
            + "null"@)),
        " IF prepared_txn_id = null AND item_data = ?"@ == " IF "@ + ("prepared_txn_id"@ + " = "@
            + "null"@ + " AND "@ + ("item_data"@ + " = "@ + "?"@)),
        " IF prepared_txn_id = null AND item_data = null"@ == " IF "@ + ("prepared_txn_id"@ + " = "@
            + "null"@ + " AND "@ + ("item_data"@ + " = "@ + "null"@)),
        " SET "@ == " "@ + "SET "@,
        ""@ == Seq::<char>::empty(),
{
    reveal_strlit("SET prepared_txn_id = ?, prepared_txn_timestamp = ?");
    reveal_strlit(" SET prepared_txn_id = null, prepared_txn_timestamp = null");
    reveal_strlit(" IF prepared_txn_id = null AND item_data = ?");
    reveal_strlit(" IF prepared_txn_id = null AND item_data = null");
    reveal_strlit("prepared_txn_id");
    reveal_strlit("prepared_txn_timestamp");
    reveal_strlit("item_data");
    reveal_strlit(" = ");
    reveal_strlit("?");
    reveal_strlit("null");
    reveal_strlit(", ");
    reveal_strlit(" AND ");
    reveal_strlit(" IF ");
    reveal_strlit(" SET ");
    reveal_strlit("SET ");
    reveal_strlit(" ");
    reveal_strlit("");
    assert(""@ =~= Seq::<char>::empty());
    assert(" SET "@ =~= " "@ + "SET "@);
    assert("SET prepared_txn_id = ?, prepared_txn_timestamp = ?"@ =~= "SET "@ + ("prepared_txn_id"@
        + " = "@ + "?"@ + ", "@ + ("prepared_txn_timestamp"@ + " = "@ + "?"@)));
    assert(" SET prepared_txn_id = null, prepared_txn_timestamp = null"@ =~= " SET "@ + (
    "prepared_txn_id"@ + " = "@ + "null"@ + ", "@ + ("prepared_txn_timestamp"@ + " = "@ + "null"@)));
    assert(" IF prepared_txn_id = null AND item_data = ?"@ =~= " IF "@ + ("prepared_txn_id"@ + " = "@
        + "null"@ + " AND "@ + ("item_data"@ + " = "@ + "?"@)));
    assert(" IF prepared_txn_id = null AND item_data = null"@ =~= " IF "@ + ("prepared_txn_id"@
        + " = "@ + "null"@ + " AND "@ + ("item_data"@ + " = "@ + "null"@)));
}

#[verifier::spinoff_prover]
#[verifier::rlimit(60)]
proof fn lemma_claim_text(
    ks: Seq<char>,
    table: Seq<char>,
    key: RowKey,
    expected: Option<Seq<char>>,
    claim: Seq<u8>,
    at: i64,
    ttl_seconds: Option<u32>,
)
    ensures
        written(claim_command(claim_target(ks, table, ttl_seconds), key, expected, claim, at))
            == claim_stmt(ks, table, key, expected, claim, at, ttl_seconds),
        written(release_command(full_name(ks, table), key, claim)) == release_stmt(
            ks,
            table,
            key,
            claim,
        ),
{
    lemma_key_text(key);
    lemma_held_by_txn(claim);
    lemma_claim_literals();
    let a = bind("prepared_txn_id"@, CqlView::Uuid(claim));
    let b = bind("prepared_txn_timestamp"@, CqlView::BigInt(at));
    let g = Slot { column: "prepared_txn_id"@, term: Term::Null };
    let h = expected_slot(expected);
    let n = Slot { column: "prepared_txn_timestamp"@, term: Term::Null };
    lemma_set_2(a, b);
    lemma_guard_2(a, b);
    lemma_guard_2(g, h);
    lemma_set_2(g, n);
    lemma_guard_2(g, n);
    let target = claim_target(ks, table, ttl_seconds);
    let w = written(claim_command(target, key, expected, claim, at));
    let x = claim_stmt(ks, table, key, expected, claim, at, ttl_seconds);
    let set = joined(equations(seq![a, b]), ", "@);
    let tail = " WHERE "@ + joined(equations(key_slots(key)), " AND "@);
    let guard = guard_text(Guard::If(seq![g, h]));
    let head = match ttl_seconds {
        Some(s) => "UPDATE "@ + ks + "."@ + table + " "@ + ("USING TTL "@ + nat_text(s as nat)
            + " "@),
        None => "UPDATE "@ + ks + "."@ + table + " "@ + ""@,
    };
    assert("UPDATE "@ + target + " "@ =~= head);
    assert("UPDATE "@ + target + " SET "@ + set =~= head + ("SET "@ + set)) by {
        assert("UPDATE "@ + target + (" "@ + "SET "@) + set =~= ("UPDATE "@ + target + " "@) + ("SET "@
            + set));
    }
    let u = head + ("SET "@ + set);
    assert(w.cql =~= u + tail + guard);
    assert(w.cql == x.cql);
    assert(w.values =~= x.values);
    let rw = written(release_command(full_name(ks, table), key, claim));
    let rx = release_stmt(ks, table, key, claim);
    let rs = joined(equations(seq![g, n]), ", "@);
    let name = full_name(ks, table);
    assert(rw.cql =~= ("UPDATE "@ + name) + (" SET "@ + rs) + tail + " IF prepared_txn_id = ?"@);
    assert("UPDATE "@ + name =~= "UPDATE "@ + ks + "."@ + table);
    assert(rw.cql == rx.cql);
    assert(rw.values =~= rx.values);
}

/// A claim holds a row for one owner at a time, and giving it back frees the row. It is
/// taken exactly where nobody holds the row and its item is the expected one; the item
/// stays. Only the holder can give it back, and then the row has no owner and the same
/// item. No other row is touched.
pub proof fn law_claims_exclude_each_other(
    ks: Seq<char>,
    table: Seq<char>,
    key: RowKey,
    expected: Option<Seq<char>>,
    claim: Seq<u8>,
    other: Seq<u8>,
    at: i64,
    ttl_seconds: Option<u32>,
    t: Table,
)
    requires
        claim != other,
    ensures
        ({
            let target = claim_target(ks, table, ttl_seconds);
            let take = claim_command(target, key, expected, claim, at);
            let again = claim_command(target, key, expected, other, at);
            let release = release_command(full_name(ks, table), key, claim);
            let foreign = release_command(full_name(ks, table), key, other);
            let a = row_address(key);
            let before = row_at(t, a);
            let taken = run(take, t);
            let freed = run(release, taken);
            &&& written(take) == claim_stmt(ks, table, key, expected, claim, at, ttl_seconds)
            &&& written(release) == release_stmt(ks, table, key, claim)
            &&& applies(take, t) <==> held(before, "prepared_txn_id"@) == CqlView::Null && held(
                before,
                "item_data"@,
            ) == (match expected {
                Some(e) => CqlView::Text(e),
                None => CqlView::Null,
            })
            &&& applies(take, t) ==> held(row_at(taken, a), "prepared_txn_id"@) == CqlView::Uuid(
                claim,
            ) && held(row_at(taken, a), "item_data"@) == held(before, "item_data"@) && !applies(
                again,
                taken,
            ) && !applies(foreign, taken) && applies(release, taken)
            &&& applies(take, t) ==> held(row_at(freed, a), "prepared_txn_id"@) == CqlView::Null
                && held(row_at(freed, a), "item_data"@) == held(before, "item_data"@)
            &&& !applies(take, t) ==> taken == t
            &&& freed.remove(a) == t.remove(a)
        }),
{
    lemma_row_columns();
    lemma_claim_text(ks, table, key, expected, claim, at, ttl_seconds);
    let target = claim_target(ks, table, ttl_seconds);
    let take = claim_command(target, key, expected, claim, at);
    let again = claim_command(target, key, expected, other, at);
    let release = release_command(full_name(ks, table), key, claim);
    let foreign = release_command(full_name(ks, table), key, other);
    let a = row_address(key);
    let before = row_at(t, a);
    let taken = run(take, t);
    let freed = run(release, taken);
    let x = bind("prepared_txn_id"@, CqlView::Uuid(claim));
    let y = bind("prepared_txn_timestamp"@, CqlView::BigInt(at));
    let g = Slot { column: "prepared_txn_id"@, term: Term::Null };
    let n = Slot { column: "prepared_txn_timestamp"@, term: Term::Null };
    let h = expected_slot(expected);
    let e = Seq::<Slot>::empty();
    assert(seq![x, y] =~= e.push(x).push(y));
    lemma_set_push(before, e, x);
    lemma_set_push(before, e.push(x), y);
    assert(seq![g, h][0] == g && seq![g, h][1] == h);
    let row = row_at(taken, a);
    assert(seq![x][0] == x);
    let z = bind("prepared_txn_id"@, CqlView::Uuid(other));
    assert(seq![z][0] == z);
    assert(applies(release, taken) <==> held(row, "prepared_txn_id"@) == CqlView::Uuid(claim));
    assert(applies(foreign, taken) <==> held(row, "prepared_txn_id"@) == CqlView::Uuid(other));
    assert(seq![g, n] =~= e.push(g).push(n));
    lemma_set_push(row, e, g);
    lemma_set_push(row, e.push(g), n);
    assert(freed.remove(a) =~= t.remove(a));
}

#[verifier::spinoff_prover]
#[verifier::rlimit(60)]
proof fn lemma_version_literals()
    ensures
        " SET item_data = ?, version = ?"@ == " SET "@ + ("item_data"@ + " = "@ + "?"@ + ", "@ + (
        "version"@ + " = "@ + "?"@)),
        " IF version = ? AND prepared_txn_id = null"@ == " IF "@ + ("version"@ + " = "@ + "?"@
            + " AND "@ + ("prepared_txn_id"@ + " = "@ + "null"@)),
        " IF version = null AND prepared_txn_id = null"@ == " IF "@ + ("version"@ + " = "@ + "null"@
            + " AND "@ + ("prepared_txn_id"@ + " = "@ + "null"@)),
{
    reveal_strlit(" SET item_data = ?, version = ?");
    reveal_strlit(" IF version = ? AND prepared_txn_id = null");
    reveal_strlit(" IF version = null AND prepared_txn_id = null");
    reveal_strlit("prepared_txn_id");
    reveal_strlit("version");
    reveal_strlit("item_data");
    reveal_strlit(" = ");
    reveal_strlit("?");
    reveal_strlit("null");
    reveal_strlit(", ");
    reveal_strlit(" AND ");
    reveal_strlit(" IF ");
    reveal_strlit(" SET ");
    assert(" SET item_data = ?, version = ?"@ =~= " SET "@ + ("item_data"@ + " = "@ + "?"@ + ", "@ + (
    "version"@ + " = "@ + "?"@)));
    assert(" IF version = ? AND prepared_txn_id = null"@ =~= " IF "@ + ("version"@ + " = "@ + "?"@
        + " AND "@ + ("prepared_txn_id"@ + " = "@ + "null"@)));
    assert(" IF version = null AND prepared_txn_id = null"@ =~= " IF "@ + ("version"@ + " = "@
        + "null"@ + " AND "@ + ("prepared_txn_id"@ + " = "@ + "null"@)));
}

#[verifier::spinoff_prover]
#[verifier::rlimit(60)]
proof fn lemma_version_text(
    ks: Seq<char>,
    table: Seq<char>,
    key: RowKey,
    item: Seq<char>,
    version: Option<i64>,
)
    ensures
        written(next_version_command(full_name(ks, table), key, item, version)) == occ_stmt(
            ks,
            table,
            key,
            item,
            version,
            true,
        ),
{
    lemma_key_text(key);
    lemma_version_literals();
    let a = bind("item_data"@, CqlView::Text(item));
    let b = bind("version"@, CqlView::BigInt(next_version(version)));
    let g = version_slot(version);
    let h = Slot { column: "prepared_txn_id"@, term: Term::Null };
    lemma_set_2(a, b);
    lemma_guard_2(a, b);
    lemma_guard_2(g, h);
    let name = full_name(ks, table);
    let w = written(next_version_command(name, key, item, version));
    let x = occ_stmt(ks, table, key, item, version, true);
    let set = joined(equations(seq![a, b]), ", "@);
    let tail = " WHERE "@ + joined(equations(key_slots(key)), " AND "@);
    assert(w.cql =~= ("UPDATE "@ + name) + (" SET "@ + set) + tail + guard_text(
        Guard::If(seq![g, h]),
    ));
    assert("UPDATE "@ + name =~= "UPDATE "@ + ks + "."@ + table);
    assert(w.cql == x.cql);
    assert(w.values =~= x.values);
}

/// Of two updates that start from the same version of an item, only the first is
/// written: an update applies exactly where the row still has the version that was read
/// and nobody holds it, and then it stores its item and moves the version on. No other
/// row is touched.
pub proof fn law_lost_updates_are_refused(
    ks: Seq<char>,
    table: Seq<char>,
    key: RowKey,
    item: Seq<char>,
    other: Seq<char>,
    version: Option<i64>,
    t: Table,
)
    requires
        version matches Some(v) ==> v < i64::MAX,
    ensures
        ({
            let first = next_version_command(full_name(ks, table), key, item, version);
            let second = next_version_command(full_name(ks, table), key, other, version);
            let a = row_address(key);
            let before = row_at(t, a);
            let after = run(first, t);
            &&& written(first) == occ_stmt(ks, table, key, item, version, true)
            &&& applies(first, t) <==> held(before, "prepared_txn_id"@) == CqlView::Null && held(
                before,
                "version"@,
            ) == (match version {
                Some(v) => CqlView::BigInt(v),
                None => CqlView::Null,
            })
            &&& applies(first, t) ==> held(row_at(after, a), "item_data"@) == CqlView::Text(item)
                && held(row_at(after, a), "version"@) == CqlView::BigInt(
                match version {
                    Some(v) => (v + 1) as i64,
                    None => 1,
                },
            ) && !applies(second, after)
            &&& !applies(first, t) ==> after == t
            &&& after.remove(a) == t.remove(a)
        }),
{
    lemma_row_columns();
    lemma_version_text(ks, table, key, item, version);
    let first = next_version_command(full_name(ks, table), key, item, version);
    let a = row_address(key);
    let before = row_at(t, a);
    let x = bind("item_data"@, CqlView::Text(item));
    let y = bind("version"@, CqlView::BigInt(next_version(version)));
    let g = version_slot(version);
    let h = Slot { column: "prepared_txn_id"@, term: Term::Null };
    let e = Seq::<Slot>::empty();
    assert(seq![x, y] =~= e.push(x).push(y));
    lemma_set_push(before, e, x);
    lemma_set_push(before, e.push(x), y);
    assert(seq![g, h][0] == g && seq![g, h][1] == h);
    let after = run(first, t);
    assert(after.remove(a) =~= t.remove(a));
}

#[verifier::spinoff_prover]
#[verifier::rlimit(60)]
proof fn lemma_put_literals()
    ensures
        " (pk, item_data) VALUES (?, ?)"@ == " ("@ + ("pk"@ + ", "@ + "item_data"@) + ") VALUES ("@
            + ("?"@ + ", "@ + "?"@) + ")"@,
        " (pk, "@ == " ("@ + "pk"@ + ", "@,
        ", item_data) VALUES (?, ?, ?)"@ == ", "@ + "item_data"@ + ") VALUES ("@ + ("?"@ + ", "@
            + "?"@ + ", "@ + "?"@) + ")"@,
{
    reveal_strlit(" (pk, item_data) VALUES (?, ?)");
    reveal_strlit(" (pk, ");
    reveal_strlit(", item_data) VALUES (?, ?, ?)");
    reveal_strlit(" (");
    reveal_strlit("pk");
    reveal_strlit(", ");
    reveal_strlit("item_data");
    reveal_strlit(") VALUES (");
    reveal_strlit("?");
    reveal_strlit(")");
    assert(" (pk, item_data) VALUES (?, ?)"@ =~= " ("@ + ("pk"@ + ", "@ + "item_data"@)
        + ") VALUES ("@ + ("?"@ + ", "@ + "?"@) + ")"@);
    assert(" (pk, "@ =~= " ("@ + "pk"@ + ", "@);
    assert(", item_data) VALUES (?, ?, ?)"@ =~= ", "@ + "item_data"@ + ") VALUES ("@ + ("?"@ + ", "@
        + "?"@ + ", "@ + "?"@) + ")"@);
}

#[verifier::spinoff_prover]
#[verifier::rlimit(60)]
proof fn lemma_put_text(ks: Seq<char>, table: Seq<char>, key: RowKey, item: Seq<char>)
    ensures
        written(put_command(full_name(ks, table), key, item)) == insert_stmt(ks, table, key, item),
{
    lemma_put_literals();
    lemma_key_text(key);
    let name = full_name(ks, table);
    let c = bind("item_data"@, CqlView::Text(item));
    let k = key_slots(key);
    let all = k + seq![c];
    let w = written(put_command(name, key, item));
    let x = insert_stmt(ks, table, key, item);
    assert(all =~= k.push(c));
    lemma_bounds_push(k, c);
    assert(w.values =~= x.values);
    assert("INSERT INTO "@ + name =~= "INSERT INTO "@ + ks + "."@ + table);
    let head = "INSERT INTO "@ + name;
    match key.sk {
        Some(b) => {
            let col = sk_col(b.sk_type);
            assert(columns_of(all) =~= seq!["pk"@, col].push("item_data"@));
            assert(terms_of(all) =~= seq!["?"@, "?"@].push("?"@));
            lemma_joined_2("pk"@, col, ", "@);
            lemma_joined_push(seq!["pk"@, col], "item_data"@, ", "@);
            lemma_joined_2("?"@, "?"@, ", "@);
            lemma_joined_push(seq!["?"@, "?"@], "?"@, ", "@);
            let marks = "?"@ + ", "@ + "?"@ + ", "@ + "?"@;
            lemma_concat(head, " ("@, "pk"@, ", "@, col, "item_data"@, ") VALUES ("@, marks, ")"@);
            assert(w.cql =~= x.cql);
        },
        None => {
            assert(columns_of(all) =~= seq!["pk"@, "item_data"@]);
            assert(terms_of(all) =~= seq!["?"@, "?"@]);
            lemma_joined_2("pk"@, "item_data"@, ", "@);
            lemma_joined_2("?"@, "?"@, ", "@);
            let cols = "pk"@ + ", "@ + "item_data"@;
            let marks = "?"@ + ", "@ + "?"@;
            assert(head + " ("@ + cols + ") VALUES ("@ + marks + ")"@ =~= head + (" ("@ + cols
                + ") VALUES ("@ + marks + ")"@));
            assert(w.cql =~= x.cql);
        },
    }
}

proof fn lemma_concat(
    head: Seq<char>,
    open: Seq<char>,
    pk: Seq<char>,
    sep: Seq<char>,
    col: Seq<char>,
    item: Seq<char>,
    values: Seq<char>,
    marks: Seq<char>,
    close: Seq<char>,
)
    ensures
        head + open + (pk + sep + col + sep + item) + values + marks + close == head + (open + pk
            + sep) + col + (sep + item + values + marks + close),
{
    assert(head + open + (pk + sep + col + sep + item) + values + marks + close =~= head + (open + pk
        + sep) + col + (sep + item + values + marks + close));
}

/// An item that was put is the one that its row holds, and deleting it leaves no row. A
/// read of the key asks for that same row, and no other row is touched.
pub proof fn law_put_then_delete(
    ks: Seq<char>,
    table: Seq<char>,
    columns: Seq<char>,
    key: RowKey,
    item: Seq<char>,
    t: Table,
)
    ensures
        ({
            let put = put_command(full_name(ks, table), key, item);
            let delete = delete_command(full_name(ks, table), key);
            let a = row_address(key);
            &&& written(put) == insert_stmt(ks, table, key, item)
            &&& written(delete) == delete_stmt(ks, table, key)
            &&& select_stmt(ks, table, columns, key) == stmt(
                "SELECT "@ + columns + " FROM "@ + full_name(ks, table) + (" WHERE "@ + joined(
                    equations(key_slots(key)),
                    " AND "@,
                )),
                bounds(key_slots(key)),
            )
            &&& held(row_at(run(put, t), a), "item_data"@) == CqlView::Text(item)
            &&& run(put, t).remove(a) == t.remove(a)
            &&& row_at(run(delete, t), a) is None
            &&& run(delete, run(put, t)) == t.remove(a)
        }),
{
    lemma_put_text(ks, table, key, item);
    lemma_delete_text(ks, table, key);
    lemma_key_text(key);
    let put = put_command(full_name(ks, table), key, item);
    let a = row_address(key);
    let c = bind("item_data"@, CqlView::Text(item));
    let e = Seq::<Slot>::empty();
    assert(seq![c] =~= e.push(c));
    lemma_set_push(row_at(t, a), e, c);
    assert(run(put, t).remove(a) =~= t.remove(a));
    assert(select_stmt(ks, table, columns, key).cql =~= "SELECT "@ + columns + " FROM "@ + full_name(
        ks,
        table,
    ) + where_text(key));
}

} // verus!
