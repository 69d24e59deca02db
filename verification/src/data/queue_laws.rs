//! What the statements on the expiration queue do to its rows.
use vstd::prelude::*;
use crate::command::{
    address, after_set, applies, bind, bounds, columns_of, equations, guard_text, held,
    lemma_joined_1, lemma_joined_2, lemma_joined_push, row_at, run, set_cell, term_text,
    term_value, terms_of, written, Cells, Command, Guard, Slot, Table, Term,
};
use crate::cql::CqlView;
use crate::data::ttl::{
    delete_entry_stmt, entry_key, insert_entry_stmt, queue_row, register_stmt, registration,
    retire_stmt, TtlEntry,
};
use crate::text::joined;

verus! {

/// The columns that address the registration of a bucket, with their values.
pub open spec fn bucket_slots(table_id: Seq<char>, generation: Seq<u8>, e: TtlEntry) -> Seq<Slot> {
    Seq::empty().push(bind("table_id"@, CqlView::Text(table_id))).push(
        bind("generation"@, CqlView::Uuid(generation)),
    ).push(bind("bucket"@, CqlView::BigInt(e.bucket))).push(bind("shard"@, CqlView::Int(e.shard)))
}

/// The columns that address the queue row of an entry, with their values.
pub open spec fn entry_slots(table_id: Seq<char>, generation: Seq<u8>, e: TtlEntry) -> Seq<Slot> {
    bucket_slots(table_id, generation, e).push(
        bind("expires_at"@, CqlView::BigInt(e.expires_at)),
    ).push(bind("key_hash"@, CqlView::Text(e.key_hash@))).push(
        bind("key_data"@, CqlView::Text(e.key_data@)),
    )
}

/// The condition or the assignment that a queue row is pending.
pub open spec fn pending_slot() -> Slot {
    Slot { column: "state"@, term: Term::Quoted("PENDING"@) }
}

/// A slot that holds null.
pub open spec fn null_slot(column: Seq<char>) -> Slot {
    Slot { column, term: Term::Null }
}

/// Queue an entry: its row is pending and no work is on it.
pub open spec fn queue_command(
    ks: Seq<char>,
    table_id: Seq<char>,
    generation: Seq<u8>,
    e: TtlEntry,
) -> Command {
    Command::Insert {
        target: ks + ".ttl_expirations"@,
        key: entry_slots(table_id, generation, e),
        cells: Seq::empty().push(pending_slot()).push(null_slot("work_id"@)).push(
            null_slot("work_data"@),
        ),
        guard: Guard::Always,
    }
}

/// Take an entry out of the queue.
pub open spec fn unqueue_command(
    ks: Seq<char>,
    table_id: Seq<char>,
    generation: Seq<u8>,
    e: TtlEntry,
) -> Command {
    Command::Delete {
        target: ks + ".ttl_expirations"@,
        key: entry_slots(table_id, generation, e),
        guard: Guard::Always,
    }
}

/// Take an entry out of the queue where it is pending.
pub open spec fn retire_command(
    ks: Seq<char>,
    table_id: Seq<char>,
    generation: Seq<u8>,
    e: TtlEntry,
) -> Command {
    Command::Delete {
        target: ks + ".ttl_expirations"@,
        key: entry_slots(table_id, generation, e),
        guard: Guard::If(seq![pending_slot()]),
    }
}

/// Register the bucket of an entry.
pub open spec fn register_command(
    ks: Seq<char>,
    table_id: Seq<char>,
    generation: Seq<u8>,
    e: TtlEntry,
) -> Command {
    Command::Insert {
        target: ks + ".ttl_expiration_buckets"@,
        key: bucket_slots(table_id, generation, e),
        cells: Seq::empty(),
        guard: Guard::Always,
    }
}

#[verifier::spinoff_prover]
#[verifier::rlimit(60)]
proof fn lemma_equation_literals()
    ensures
        "table_id = ? AND generation = ? AND bucket = ? AND shard = ?"@ == ("table_id"@ + " = "@ + "?"@) + " AND "@ + ("generation"@ + " = "@ + "?"@) + " AND "@ + ("bucket"@ + " = "@ + "?"@) + " AND "@ + ("shard"@ + " = "@ + "?"@),
        "expires_at = ? AND key_hash = ? AND key_data = ?"@ == ("expires_at"@ + " = "@ + "?"@) + " AND "@ + ("key_hash"@ + " = "@ + "?"@) + " AND "@ + ("key_data"@ + " = "@ + "?"@),
{
    reveal_strlit("table_id = ? AND generation = ? AND bucket = ? AND shard = ?");
    reveal_strlit("table_id");
    reveal_strlit(" = ");
    reveal_strlit("?");
    reveal_strlit(" AND ");
    reveal_strlit("generation");
    reveal_strlit("bucket");
    reveal_strlit("shard");
    reveal_strlit("expires_at = ? AND key_hash = ? AND key_data = ?");
    reveal_strlit("expires_at");
    reveal_strlit("key_hash");
    reveal_strlit("key_data");
    assert("table_id = ? AND generation = ? AND bucket = ? AND shard = ?"@ =~= ("table_id"@ + " = "@ + "?"@) + " AND "@ + ("generation"@ + " = "@ + "?"@) + " AND "@ + ("bucket"@ + " = "@ + "?"@) + " AND "@ + ("shard"@ + " = "@ + "?"@));
    assert("expires_at = ? AND key_hash = ? AND key_data = ?"@ =~= ("expires_at"@ + " = "@ + "?"@) + " AND "@ + ("key_hash"@ + " = "@ + "?"@) + " AND "@ + ("key_data"@ + " = "@ + "?"@));
}

#[verifier::spinoff_prover]
#[verifier::rlimit(60)]
proof fn lemma_column_literals()
    ensures
        "table_id, generation, bucket, shard"@ == "table_id"@ + ", "@ + "generation"@ + ", "@ + "bucket"@ + ", "@ + "shard"@,
        "expires_at, key_hash, key_data"@ == "expires_at"@ + ", "@ + "key_hash"@ + ", "@ + "key_data"@,
        "state, work_id, work_data"@ == "state"@ + ", "@ + "work_id"@ + ", "@ + "work_data"@,
{
    reveal_strlit("table_id, generation, bucket, shard");
    reveal_strlit("table_id");
    reveal_strlit(", ");
    reveal_strlit("generation");
    reveal_strlit("bucket");
    reveal_strlit("shard");
    reveal_strlit("expires_at, key_hash, key_data");
    reveal_strlit("expires_at");
    reveal_strlit("key_hash");
    reveal_strlit("key_data");
    reveal_strlit("state, work_id, work_data");
    reveal_strlit("state");
    reveal_strlit("work_id");
    reveal_strlit("work_data");
    assert("table_id, generation, bucket, shard"@ =~= "table_id"@ + ", "@ + "generation"@ + ", "@ + "bucket"@ + ", "@ + "shard"@);
    assert("expires_at, key_hash, key_data"@ =~= "expires_at"@ + ", "@ + "key_hash"@ + ", "@ + "key_data"@);
    assert("state, work_id, work_data"@ =~= "state"@ + ", "@ + "work_id"@ + ", "@ + "work_data"@);
}

#[verifier::spinoff_prover]
#[verifier::rlimit(60)]
proof fn lemma_mark_literals()
    ensures
        "?, ?, ?, ?"@ == "?"@ + ", "@ + "?"@ + ", "@ + "?"@ + ", "@ + "?"@,
        "?, ?, ?"@ == "?"@ + ", "@ + "?"@ + ", "@ + "?"@,
        "'PENDING', null, null"@ == ("'"@ + "PENDING"@ + "'"@) + ", "@ + "null"@ + ", "@ + "null"@,
{
    reveal_strlit("?, ?, ?, ?");
    reveal_strlit("?");
    reveal_strlit(", ");
    reveal_strlit("?, ?, ?");
    reveal_strlit("'PENDING', null, null");
    reveal_strlit("'");
    reveal_strlit("PENDING");
    reveal_strlit("null");
    assert("?, ?, ?, ?"@ =~= "?"@ + ", "@ + "?"@ + ", "@ + "?"@ + ", "@ + "?"@);
    assert("?, ?, ?"@ =~= "?"@ + ", "@ + "?"@ + ", "@ + "?"@);
    assert("'PENDING', null, null"@ =~= ("'"@ + "PENDING"@ + "'"@) + ", "@ + "null"@ + ", "@ + "null"@);
}

#[verifier::spinoff_prover]
#[verifier::rlimit(60)]
proof fn lemma_where_literal()
    ensures
        ".ttl_expirations WHERE table_id = ? AND generation = ? AND bucket = ? AND shard = ? AND expires_at = ? AND key_hash = ? AND key_data = ?"@ == ".ttl_expirations"@ + (" WHERE "@ + ("table_id = ? AND generation = ? AND bucket = ? AND shard = ?"@ + " AND "@ + "expires_at = ? AND key_hash = ? AND key_data = ?"@)),
{
    reveal_strlit(".ttl_expirations WHERE table_id = ? AND generation = ? AND bucket = ? AND shard = ? AND expires_at = ? AND key_hash = ? AND key_data = ?");
    reveal_strlit(".ttl_expirations");
    reveal_strlit(" WHERE ");
    reveal_strlit("table_id = ? AND generation = ? AND bucket = ? AND shard = ?");
    reveal_strlit(" AND ");
    reveal_strlit("expires_at = ? AND key_hash = ? AND key_data = ?");
    assert(".ttl_expirations WHERE table_id = ? AND generation = ? AND bucket = ? AND shard = ? AND expires_at = ? AND key_hash = ? AND key_data = ?"@ =~= ".ttl_expirations"@ + (" WHERE "@ + ("table_id = ? AND generation = ? AND bucket = ? AND shard = ?"@ + " AND "@ + "expires_at = ? AND key_hash = ? AND key_data = ?"@)));
}

#[verifier::spinoff_prover]
#[verifier::rlimit(60)]
proof fn lemma_retire_literal()
    ensures
        ".ttl_expirations WHERE table_id = ? AND generation = ? AND bucket = ? AND shard = ? AND expires_at = ? AND key_hash = ? AND key_data = ? IF state = 'PENDING'"@ == ".ttl_expirations WHERE table_id = ? AND generation = ? AND bucket = ? AND shard = ? AND expires_at = ? AND key_hash = ? AND key_data = ?"@ + (" IF "@ + ("state"@ + " = "@ + ("'"@ + "PENDING"@ + "'"@))),
{
    reveal_strlit(".ttl_expirations WHERE table_id = ? AND generation = ? AND bucket = ? AND shard = ? AND expires_at = ? AND key_hash = ? AND key_data = ? IF state = 'PENDING'");
    reveal_strlit(".ttl_expirations WHERE table_id = ? AND generation = ? AND bucket = ? AND shard = ? AND expires_at = ? AND key_hash = ? AND key_data = ?");
    reveal_strlit(" IF ");
    reveal_strlit("state");
    reveal_strlit(" = ");
    reveal_strlit("'");
    reveal_strlit("PENDING");
    assert(".ttl_expirations WHERE table_id = ? AND generation = ? AND bucket = ? AND shard = ? AND expires_at = ? AND key_hash = ? AND key_data = ? IF state = 'PENDING'"@ =~= ".ttl_expirations WHERE table_id = ? AND generation = ? AND bucket = ? AND shard = ? AND expires_at = ? AND key_hash = ? AND key_data = ?"@ + (" IF "@ + ("state"@ + " = "@ + ("'"@ + "PENDING"@ + "'"@))));
}

#[verifier::spinoff_prover]
#[verifier::rlimit(60)]
proof fn lemma_queue_literal()
    ensures
        ".ttl_expirations (table_id, generation, bucket, shard, expires_at, key_hash, key_data, state, work_id, work_data) VALUES (?, ?, ?, ?, ?, ?, ?, 'PENDING', null, null)"@ == ".ttl_expirations"@ + (" ("@ + ("table_id, generation, bucket, shard"@ + ", "@ + "expires_at, key_hash, key_data"@ + ", "@ + "state, work_id, work_data"@) + ") VALUES ("@ + ("?, ?, ?, ?"@ + ", "@ + "?, ?, ?"@ + ", "@ + "'PENDING', null, null"@) + ")"@),
{
    reveal_strlit(".ttl_expirations (table_id, generation, bucket, shard, expires_at, key_hash, key_data, state, work_id, work_data) VALUES (?, ?, ?, ?, ?, ?, ?, 'PENDING', null, null)");
    reveal_strlit(".ttl_expirations");
    reveal_strlit(" (");
    reveal_strlit("table_id, generation, bucket, shard");
    reveal_strlit(", ");
    reveal_strlit("expires_at, key_hash, key_data");
    reveal_strlit("state, work_id, work_data");
    reveal_strlit(") VALUES (");
    reveal_strlit("?, ?, ?, ?");
    reveal_strlit("?, ?, ?");
    reveal_strlit("'PENDING', null, null");
    reveal_strlit(")");
    assert(".ttl_expirations (table_id, generation, bucket, shard, expires_at, key_hash, key_data, state, work_id, work_data) VALUES (?, ?, ?, ?, ?, ?, ?, 'PENDING', null, null)"@ =~= ".ttl_expirations"@ + (" ("@ + ("table_id, generation, bucket, shard"@ + ", "@ + "expires_at, key_hash, key_data"@ + ", "@ + "state, work_id, work_data"@) + ") VALUES ("@ + ("?, ?, ?, ?"@ + ", "@ + "?, ?, ?"@ + ", "@ + "'PENDING', null, null"@) + ")"@));
}

#[verifier::spinoff_prover]
#[verifier::rlimit(60)]
proof fn lemma_register_literal()
    ensures
        ".ttl_expiration_buckets (table_id, generation, bucket, shard) VALUES (?, ?, ?, ?)"@ == ".ttl_expiration_buckets"@ + (" ("@ + "table_id, generation, bucket, shard"@ + ") VALUES ("@ + "?, ?, ?, ?"@ + ")"@),
{
    reveal_strlit(".ttl_expiration_buckets (table_id, generation, bucket, shard) VALUES (?, ?, ?, ?)");
    reveal_strlit(".ttl_expiration_buckets");
    reveal_strlit(" (");
    reveal_strlit("table_id, generation, bucket, shard");
    reveal_strlit(") VALUES (");
    reveal_strlit("?, ?, ?, ?");
    reveal_strlit(")");
    assert(".ttl_expiration_buckets (table_id, generation, bucket, shard) VALUES (?, ?, ?, ?)"@ =~= ".ttl_expiration_buckets"@ + (" ("@ + "table_id, generation, bucket, shard"@ + ") VALUES ("@ + "?, ?, ?, ?"@ + ")"@));
}

/// Four parts.
proof fn lemma_joined_4(p: Seq<Seq<char>>, sep: Seq<char>)
    requires
        p.len() == 4,
    ensures
        joined(p, sep) == p[0] + sep + p[1] + sep + p[2] + sep + p[3],
{
    lemma_joined_2(p[0], p[1], sep);
    lemma_joined_push(seq![p[0], p[1]], p[2], sep);
    lemma_joined_push(seq![p[0], p[1]].push(p[2]), p[3], sep);
    assert(p =~= seq![p[0], p[1]].push(p[2]).push(p[3]));
}

/// Three parts after others.
#[verifier::spinoff_prover]
#[verifier::rlimit(60)]
proof fn lemma_joined_3_more(p: Seq<Seq<char>>, a: Seq<char>, b: Seq<char>, c: Seq<char>, sep: Seq<char>)
    requires
        p.len() > 0,
    ensures
        joined(p.push(a).push(b).push(c), sep) == joined(p, sep) + sep + (a + sep + b + sep + c),
{
    lemma_joined_push(p, a, sep);
    lemma_joined_push(p.push(a), b, sep);
    lemma_joined_push(p.push(a).push(b), c, sep);
    assert(joined(p, sep) + sep + a + sep + b + sep + c =~= joined(p, sep) + sep + (a + sep + b + sep
        + c));
}

proof fn lemma_bound_push(slots: Seq<Slot>, s: Slot)
    ensures
        bounds(slots.push(s)) == (match s.term {
            Term::Bound(v) => bounds(slots).push(v),
            _ => bounds(slots),
        }),
{
    assert(slots.push(s).drop_last() =~= slots);
}

/// The texts and values of the columns that address a registration.
#[verifier::spinoff_prover]
#[verifier::rlimit(60)]
proof fn lemma_bucket_slots(table_id: Seq<char>, generation: Seq<u8>, e: TtlEntry)
    ensures
        ({
            let k = bucket_slots(table_id, generation, e);
            &&& k.len() == 4
            &&& joined(equations(k), " AND "@) == "table_id = ? AND generation = ? AND bucket = ? AND shard = ?"@
            &&& joined(columns_of(k), ", "@) == "table_id, generation, bucket, shard"@
            &&& joined(terms_of(k), ", "@) == "?, ?, ?, ?"@
            &&& bounds(k) == seq![
                CqlView::Text(table_id),
                CqlView::Uuid(generation),
                CqlView::BigInt(e.bucket),
                CqlView::Int(e.shard),
            ]
        }),
{
    lemma_equation_literals();
    lemma_column_literals();
    lemma_mark_literals();
    let k = bucket_slots(table_id, generation, e);
    lemma_joined_4(equations(k), " AND "@);
    lemma_joined_4(columns_of(k), ", "@);
    lemma_joined_4(terms_of(k), ", "@);
    let z = Seq::<Slot>::empty();
    lemma_bound_push(z, k[0]);
    lemma_bound_push(z.push(k[0]), k[1]);
    lemma_bound_push(z.push(k[0]).push(k[1]), k[2]);
    lemma_bound_push(z.push(k[0]).push(k[1]).push(k[2]), k[3]);
    assert(bounds(z) =~= Seq::<CqlView>::empty());
    assert(bounds(k) =~= seq![
        CqlView::Text(table_id),
        CqlView::Uuid(generation),
        CqlView::BigInt(e.bucket),
        CqlView::Int(e.shard),
    ]);
}

/// The texts and values of three more columns.
#[verifier::spinoff_prover]
#[verifier::rlimit(60)]
proof fn lemma_slots_more(k: Seq<Slot>, a: Slot, b: Slot, c: Slot)
    requires
        k.len() > 0,
    ensures
        ({
            let more = k.push(a).push(b).push(c);
            &&& joined(equations(more), " AND "@) == joined(equations(k), " AND "@) + " AND "@ + ((
            a.column + " = "@ + term_text(a)) + " AND "@ + (b.column + " = "@ + term_text(b))
                + " AND "@ + (c.column + " = "@ + term_text(c)))
            &&& joined(columns_of(more), ", "@) == joined(columns_of(k), ", "@) + ", "@ + (a.column
                + ", "@ + b.column + ", "@ + c.column)
            &&& joined(terms_of(more), ", "@) == joined(terms_of(k), ", "@) + ", "@ + (term_text(a)
                + ", "@ + term_text(b) + ", "@ + term_text(c))
        }),
{
    let more = k.push(a).push(b).push(c);
    let x = a.column + " = "@ + term_text(a);
    let y = b.column + " = "@ + term_text(b);
    let z = c.column + " = "@ + term_text(c);
    assert(equations(more) =~= equations(k).push(x).push(y).push(z));
    assert(columns_of(more) =~= columns_of(k).push(a.column).push(b.column).push(c.column));
    assert(terms_of(more) =~= terms_of(k).push(term_text(a)).push(term_text(b)).push(term_text(c)));
    lemma_joined_3_more(equations(k), x, y, z, " AND "@);
    lemma_joined_3_more(columns_of(k), a.column, b.column, c.column, ", "@);
    lemma_joined_3_more(terms_of(k), term_text(a), term_text(b), term_text(c), ", "@);
}

/// The texts and values of the columns that address a queue row.
#[verifier::spinoff_prover]
#[verifier::rlimit(60)]
proof fn lemma_entry_slots(table_id: Seq<char>, generation: Seq<u8>, e: TtlEntry)
    ensures
        ({
            let k = entry_slots(table_id, generation, e);
            &&& joined(equations(k), " AND "@) == "table_id = ? AND generation = ? AND bucket = ? AND shard = ?"@ + " AND "@ + "expires_at = ? AND key_hash = ? AND key_data = ?"@
            &&& joined(columns_of(k), ", "@) == "table_id, generation, bucket, shard"@ + ", "@ + "expires_at, key_hash, key_data"@
            &&& joined(terms_of(k), ", "@) == "?, ?, ?, ?"@ + ", "@ + "?, ?, ?"@
            &&& bounds(k) == entry_key(table_id, generation, e)
        }),
{
    lemma_bucket_slots(table_id, generation, e);
    lemma_equation_literals();
    lemma_column_literals();
    lemma_mark_literals();
    let b = bucket_slots(table_id, generation, e);
    let k = entry_slots(table_id, generation, e);
    lemma_slots_more(b, k[4], k[5], k[6]);
    assert(k =~= b.push(k[4]).push(k[5]).push(k[6]));
    lemma_bound_push(b, k[4]);
    lemma_bound_push(b.push(k[4]), k[5]);
    lemma_bound_push(b.push(k[4]).push(k[5]), k[6]);
    assert(bounds(k) =~= entry_key(table_id, generation, e));
}

#[verifier::spinoff_prover]
#[verifier::rlimit(60)]
proof fn lemma_removal_texts(ks: Seq<char>, table_id: Seq<char>, generation: Seq<u8>, e: TtlEntry)
    ensures
        written(unqueue_command(ks, table_id, generation, e)) == delete_entry_stmt(
            ks,
            table_id,
            generation,
            e,
        ),
        written(retire_command(ks, table_id, generation, e)) == retire_stmt(
            ks,
            table_id,
            generation,
            e,
        ),
{
    lemma_entry_slots(table_id, generation, e);
    lemma_where_literal();
    lemma_retire_literal();
    let p = pending_slot();
    let x = p.column + " = "@ + term_text(p);
    assert(equations(seq![p]) =~= seq![x]);
    lemma_joined_1(x, " AND "@);
    assert(seq![p] =~= Seq::<Slot>::empty().push(p));
    lemma_bound_push(Seq::empty(), p);
    let a = written(unqueue_command(ks, table_id, generation, e));
    let d = delete_entry_stmt(ks, table_id, generation, e);
    let name = ".ttl_expirations"@;
    let rest = "table_id = ? AND generation = ? AND bucket = ? AND shard = ?"@ + " AND "@ + "expires_at = ? AND key_hash = ? AND key_data = ?"@;
    assert("DELETE FROM "@ + (ks + name) + " WHERE "@ + rest =~= "DELETE FROM "@ + ks + (name + (
    " WHERE "@ + rest)));
    assert(a.cql =~= d.cql);
    assert(a.values =~= d.values);
    let r = written(retire_command(ks, table_id, generation, e));
    let s = retire_stmt(ks, table_id, generation, e);
    let guard = " IF "@ + x;
    assert(guard_text(Guard::If(seq![p])) == guard);
    let all = ".ttl_expirations WHERE table_id = ? AND generation = ? AND bucket = ? AND shard = ? AND expires_at = ? AND key_hash = ? AND key_data = ?"@;
    assert("DELETE FROM "@ + ks + all + guard =~= "DELETE FROM "@ + ks + (all + guard));
    assert(r.cql == d.cql + guard);
    assert(r.cql =~= s.cql);
    assert(r.values =~= s.values);
}

#[verifier::spinoff_prover]
#[verifier::rlimit(60)]
proof fn lemma_addition_texts(ks: Seq<char>, table_id: Seq<char>, generation: Seq<u8>, e: TtlEntry)
    ensures
        written(queue_command(ks, table_id, generation, e)) == insert_entry_stmt(
            ks,
            table_id,
            generation,
            e,
        ),
        written(register_command(ks, table_id, generation, e)) == register_stmt(
            ks,
            table_id,
            generation,
            e,
        ),
{
    lemma_entry_slots(table_id, generation, e);
    lemma_bucket_slots(table_id, generation, e);
    lemma_column_literals();
    lemma_mark_literals();
    lemma_queue_literal();
    lemma_register_literal();
    let k = entry_slots(table_id, generation, e);
    let p = pending_slot();
    let i = null_slot("work_id"@);
    let j = null_slot("work_data"@);
    let cells = Seq::empty().push(p).push(i).push(j);
    let all = k.push(p).push(i).push(j);
    assert(k + cells =~= all);
    lemma_slots_more(k, p, i, j);
    lemma_bound_push(k, p);
    lemma_bound_push(k.push(p), i);
    lemma_bound_push(k.push(p).push(i), j);
    let a = written(queue_command(ks, table_id, generation, e));
    let d = insert_entry_stmt(ks, table_id, generation, e);
    lemma_insert_concat(
        "INSERT INTO "@,
        ks,
        ".ttl_expirations"@,
        " ("@,
        joined(columns_of(all), ", "@),
        ") VALUES ("@,
        joined(terms_of(all), ", "@),
        ")"@,
    );
    assert(a.cql == d.cql);
    assert(a.values =~= d.values);
    let b = bucket_slots(table_id, generation, e);
    assert(b + Seq::<Slot>::empty() =~= b);
    lemma_insert_concat(
        "INSERT INTO "@,
        ks,
        ".ttl_expiration_buckets"@,
        " ("@,
        joined(columns_of(b), ", "@),
        ") VALUES ("@,
        joined(terms_of(b), ", "@),
        ")"@,
    );
    let r = written(register_command(ks, table_id, generation, e));
    let s = register_stmt(ks, table_id, generation, e);
    assert(r.cql == s.cql);
    assert(r.values =~= s.values);
}

proof fn lemma_insert_concat(
    head: Seq<char>,
    ks: Seq<char>,
    name: Seq<char>,
    open: Seq<char>,
    columns: Seq<char>,
    middle: Seq<char>,
    terms: Seq<char>,
    close: Seq<char>,
)
    ensures
        head + (ks + name) + open + columns + middle + terms + close + Seq::<char>::empty() == head
            + ks + (name + (open + columns + middle + terms + close)),
{
    assert(head + (ks + name) + open + columns + middle + terms + close + Seq::<char>::empty()
        =~= head + ks + (name + (open + columns + middle + terms + close)));
}

proof fn lemma_address_push(slots: Seq<Slot>, s: Slot)
    ensures
        address(slots.push(s)) == address(slots).insert(s.column, term_value(None, s)),
{
    assert(slots.push(s).drop_last() =~= slots);
}

proof fn lemma_set_push(row: Option<Cells>, slots: Seq<Slot>, s: Slot)
    ensures
        after_set(row, slots.push(s)) == set_cell(
            after_set(row, slots),
            s.column,
            term_value(row, s),
        ),
{
    assert(slots.push(s).drop_last() =~= slots);
}

proof fn lemma_entry_columns()
    ensures
        "key_hash"@[0] == 'k',
        "key_data"@[0] == 'k',
        "table_id"@[0] == 't',
        "generation"@[0] == 'g',
        "bucket"@[0] == 'b',
        "shard"@[0] == 's',
        "expires_at"@[0] == 'e',
        "state"@.len() == 5,
        "work_id"@.len() == 7,
        "work_data"@.len() == 9,
{
    reveal_strlit("key_hash");
    reveal_strlit("key_data");
    reveal_strlit("table_id");
    reveal_strlit("generation");
    reveal_strlit("bucket");
    reveal_strlit("shard");
    reveal_strlit("expires_at");
    reveal_strlit("state");
    reveal_strlit("work_id");
    reveal_strlit("work_data");
}

/// The addresses of a registration and of a queue row hold what reads test.
proof fn lemma_addresses(table_id: Seq<char>, generation: Seq<u8>, e: TtlEntry)
    ensures
        address(bucket_slots(table_id, generation, e)) == registration(
            table_id,
            generation,
            e.bucket,
            e.shard,
        ),
        queue_row(table_id, generation, e).submap_of(address(entry_slots(table_id, generation, e))),
{
    lemma_entry_columns();
    let z = Seq::<Slot>::empty();
    let k = entry_slots(table_id, generation, e);
    let b = bucket_slots(table_id, generation, e);
    lemma_address_push(z, k[0]);
    lemma_address_push(z.push(k[0]), k[1]);
    lemma_address_push(z.push(k[0]).push(k[1]), k[2]);
    lemma_address_push(z.push(k[0]).push(k[1]).push(k[2]), k[3]);
    lemma_address_push(b, k[4]);
    lemma_address_push(b.push(k[4]), k[5]);
    lemma_address_push(b.push(k[4]).push(k[5]), k[6]);
    assert(address(b) =~= registration(table_id, generation, e.bucket, e.shard));
}

/// A queued entry has a pending row without work at the place where reads of due work
/// look for it, and its bucket is registered where reads of due buckets look for it.
/// Taking the entry out removes exactly that row. A retired entry goes only while it is
/// pending. No other row is touched.
pub proof fn law_queue_rows(
    ks: Seq<char>,
    table_id: Seq<char>,
    generation: Seq<u8>,
    e: TtlEntry,
    t: Table,
)
    ensures
        ({
            let add = queue_command(ks, table_id, generation, e);
            let drop = unqueue_command(ks, table_id, generation, e);
            let retire = retire_command(ks, table_id, generation, e);
            let register = register_command(ks, table_id, generation, e);
            let a = address(entry_slots(table_id, generation, e));
            let place = registration(table_id, generation, e.bucket, e.shard);
            let queued = run(add, t);
            &&& written(add) == insert_entry_stmt(ks, table_id, generation, e)
            &&& written(drop) == delete_entry_stmt(ks, table_id, generation, e)
            &&& written(retire) == retire_stmt(ks, table_id, generation, e)
            &&& written(register) == register_stmt(ks, table_id, generation, e)
            &&& queue_row(table_id, generation, e).submap_of(a)
            &&& row_at(queued, a) is Some
            &&& held(row_at(queued, a), "state"@) == CqlView::Text("PENDING"@)
            &&& held(row_at(queued, a), "work_id"@) == CqlView::Null
            &&& held(row_at(queued, a), "work_data"@) == CqlView::Null
            &&& queued.remove(a) == t.remove(a)
            &&& run(drop, t) == t.remove(a)
            &&& run(drop, queued) == t.remove(a)
            &&& applies(retire, t) <==> held(row_at(t, a), "state"@) == CqlView::Text("PENDING"@)
            &&& applies(retire, t) ==> run(retire, t) == t.remove(a)
            &&& !applies(retire, t) ==> run(retire, t) == t
            &&& run(retire, queued) == t.remove(a)
            &&& row_at(run(register, t), place) is Some
            &&& run(register, t).remove(place) == t.remove(place)
        }),
{
    lemma_entry_columns();
    lemma_removal_texts(ks, table_id, generation, e);
    lemma_addition_texts(ks, table_id, generation, e);
    lemma_addresses(table_id, generation, e);
    let add = queue_command(ks, table_id, generation, e);
    let drop = unqueue_command(ks, table_id, generation, e);
    let register = register_command(ks, table_id, generation, e);
    let a = address(entry_slots(table_id, generation, e));
    let place = registration(table_id, generation, e.bucket, e.shard);
    let p = pending_slot();
    let i = null_slot("work_id"@);
    let j = null_slot("work_data"@);
    let z = Seq::<Slot>::empty();
    lemma_set_push(row_at(t, a), z, p);
    lemma_set_push(row_at(t, a), z.push(p), i);
    lemma_set_push(row_at(t, a), z.push(p).push(i), j);
    assert(seq![p][0] == p);
    let queued = run(add, t);
    assert(queued.remove(a) =~= t.remove(a));
    assert(run(register, t).remove(place) =~= t.remove(place));
}

} // verus!
