//! What the two statements of a resumed query on an index select.
use vstd::prelude::*;
use crate::command::{
    compare, held, lemma_joined_2, order_texts, passes, read_stmt, sign_text, test_texts,
    test_values, Cells, Read, Sign, Test,
};
use crate::cql::{sk_bind, sk_col, CqlView};
use crate::data::query::{
    active_condition, beyond, direction, first_stmt, head_text, page_size, second_head, start_sk,
    tie_base_pk, QueryRequest,
};
use crate::data::query_laws::{
    head_tests, lemma_condition_text, lemma_head, lemma_one_more, partition_test,
};
use crate::model::{ScalarAttributeType, SortKeyView};
use crate::text::{joined, nat_text};

verus! {

/// A row passes all tests, under an order of values.
pub open spec fn row_meets(
    tests: Seq<Test>,
    less: spec_fn(CqlView, CqlView) -> bool,
    row: Cells,
) -> bool {
    forall|i: int|
        0 <= i < tests.len() ==> passes(
            (#[trigger] tests[i]).sign,
            less,
            held(Some(row), tests[i].column),
            tests[i].value,
        )
}

/// A value comes later in the direction of a query.
pub open spec fn later(
    forward: bool,
    less: spec_fn(CqlView, CqlView) -> bool,
    v: CqlView,
    than: CqlView,
) -> bool {
    if forward {
        less(than, v)
    } else {
        less(v, than)
    }
}

/// The sign of what comes later in the direction of a query.
pub open spec fn later_sign(forward: bool) -> Sign {
    if forward {
        Sign::Above
    } else {
        Sign::Below
    }
}

/// The rest of the rows that share the index sort key of the start key.
pub open spec fn tied_read(
    q: QueryRequest,
    t: ScalarAttributeType,
    s: CqlView,
    base_pk: Seq<char>,
) -> Read {
    Read {
        columns: "item_data"@,
        target: q.keyspace@ + "."@ + q.table@,
        tests: seq![partition_test(q)] + seq![compare(sk_col(t), Sign::Equal, s)] + seq![
            compare("base_pk"@, later_sign(q.forward), CqlView::Text(base_pk)),
        ],
        order: seq![(sk_col(t), q.forward), ("base_pk"@, q.forward)],
        limit: Some(nat_text(page_size(q.limit) + 1)),
    }
}

/// The rows beyond the index sort key of the start key.
pub open spec fn beyond_read(
    q: QueryRequest,
    t: ScalarAttributeType,
    s: CqlView,
    n: Seq<char>,
) -> Read {
    Read {
        columns: "item_data"@,
        target: q.keyspace@ + "."@ + q.table@,
        tests: seq![partition_test(q)] + seq![compare(sk_col(t), later_sign(q.forward), s)],
        order: seq![(sk_col(t), q.forward), ("base_pk"@, q.forward)],
        limit: Some(n),
    }
}

#[verifier::spinoff_prover]
#[verifier::rlimit(60)]
proof fn lemma_tie_literals()
    ensures
        " = ? AND base_pk "@ == " "@ + "="@ + " ?"@ + " AND "@ + "base_pk"@ + " "@,
        " ? ORDER BY "@ == " ?"@ + " ORDER BY "@,
        ", base_pk "@ == ", "@ + "base_pk"@ + " "@,
{
    reveal_strlit(" = ? AND base_pk ");
    reveal_strlit(" ");
    reveal_strlit("=");
    reveal_strlit(" ?");
    reveal_strlit(" AND ");
    reveal_strlit("base_pk");
    reveal_strlit(" ? ORDER BY ");
    reveal_strlit(" ORDER BY ");
    reveal_strlit(", base_pk ");
    reveal_strlit(", ");
    assert(" = ? AND base_pk "@ =~= " "@ + "="@ + " ?"@ + " AND "@ + "base_pk"@ + " "@);
    assert(" ? ORDER BY "@ =~= " ?"@ + " ORDER BY "@);
    assert(", base_pk "@ =~= ", "@ + "base_pk"@ + " "@);
}

proof fn lemma_order_text(col: Seq<char>, forward: bool)
    ensures
        joined(order_texts(seq![(col, forward), ("base_pk"@, forward)]), ", "@) == col + " "@
            + direction(forward) + ", "@ + ("base_pk"@ + " "@ + direction(forward)),
{
    let d = direction(forward);
    assert(order_texts(seq![(col, forward), ("base_pk"@, forward)]) =~= seq![
        col + " "@ + d,
        "base_pk"@ + " "@ + d,
    ]);
    lemma_joined_2(col + " "@ + d, "base_pk"@ + " "@ + d, ", "@);
}

#[verifier::spinoff_prover]
#[verifier::rlimit(60)]
proof fn lemma_tied_concat(
    f: Seq<char>,
    j: Seq<char>,
    x: Seq<char>,
    col: Seq<char>,
    sp: Seq<char>,
    eq: Seq<char>,
    mark: Seq<char>,
    bp: Seq<char>,
    op: Seq<char>,
    by: Seq<char>,
    dir: Seq<char>,
    comma: Seq<char>,
    lim: Seq<char>,
    n: Seq<char>,
)
    ensures
        f + (j + x + (col + sp + eq + mark) + x + (bp + sp + op + mark)) + (by + (col + sp + dir
            + comma + (bp + sp + dir))) + (lim + n) == f + j + x + col + (sp + eq + mark + x + bp
            + sp) + op + (mark + by) + col + sp + dir + (comma + bp + sp) + dir + lim + n,
{
    let a = f + j + x + col + (sp + eq + mark + x + bp + sp) + op;
    assert(f + (j + x + (col + sp + eq + mark) + x + (bp + sp + op + mark)) =~= a + mark);
    let b = col + sp + dir + comma + (bp + sp + dir);
    assert((a + mark) + (by + b) =~= a + (mark + by) + col + sp + dir + (comma + bp + sp) + dir);
    let c = a + (mark + by) + col + sp + dir + (comma + bp + sp) + dir;
    assert(c + (lim + n) =~= c + lim + n);
}

#[verifier::spinoff_prover]
#[verifier::rlimit(60)]
proof fn lemma_beyond_concat(
    f: Seq<char>,
    j: Seq<char>,
    x: Seq<char>,
    col: Seq<char>,
    sp: Seq<char>,
    mark: Seq<char>,
    bp: Seq<char>,
    op: Seq<char>,
    by: Seq<char>,
    dir: Seq<char>,
    comma: Seq<char>,
    lim: Seq<char>,
    n: Seq<char>,
)
    ensures
        f + (j + x + (col + sp + op + mark)) + (by + (col + sp + dir + comma + (bp + sp + dir))) + (
        lim + n) == f + j + x + col + sp + op + mark + by + col + sp + dir + (comma + bp + sp) + dir
            + lim + n,
{
    let a = f + j + x + col + sp + op + mark;
    assert(f + (j + x + (col + sp + op + mark)) =~= a);
    let b = col + sp + dir + comma + (bp + sp + dir);
    assert(a + (by + b) =~= a + by + col + sp + dir + (comma + bp + sp) + dir);
    let c = a + by + col + sp + dir + (comma + bp + sp) + dir;
    assert(c + (lim + n) =~= c + lim + n);
}

#[verifier::spinoff_prover]
#[verifier::rlimit(60)]
proof fn lemma_tied_texts(
    q: QueryRequest,
    t: ScalarAttributeType,
    s: SortKeyView,
    base_pk: Seq<char>,
    n: Seq<char>,
)
    requires
        q.sk == Some(t),
        q.base_sk is None,
        start_sk(q) == Some(s),
        tie_base_pk(q) == Some(base_pk),
        active_condition(q) is None,
    ensures
        first_stmt(q) == Some(read_stmt(tied_read(q, t, sk_bind(s), base_pk))),
        second_head(q) matches Some(head) && {
            let r = read_stmt(beyond_read(q, t, sk_bind(s), n));
            r.cql == head.cql + n && r.values == head.values
        },
{
    let col = sk_col(t);
    let v = sk_bind(s);
    let p = seq![partition_test(q)];
    let op = beyond(q.forward);
    let dir = direction(q.forward);
    assert(sign_text(later_sign(q.forward)) == op);
    lemma_tie_literals();
    lemma_order_text(col, q.forward);
    lemma_condition_text(q, t);
    assert(head_tests(q, col) =~= p);
    let j = joined(test_texts(p), " AND "@);
    assert(" WHERE pk = ?"@ + Seq::<char>::empty() =~= " WHERE pk = ?"@);
    lemma_head(q, j, Seq::empty());
    assert(head_text(q) + Seq::<char>::empty() =~= head_text(q));
    let f = "SELECT "@ + "item_data"@ + " FROM "@ + (q.keyspace@ + "."@ + q.table@) + " WHERE "@;
    assert(f + j == head_text(q));
    let a = compare(col, Sign::Equal, v);
    let b = compare("base_pk"@, later_sign(q.forward), CqlView::Text(base_pk));
    let c = compare(col, later_sign(q.forward), v);
    lemma_one_more(p, a);
    lemma_one_more(p + seq![a], b);
    lemma_one_more(p, c);
    let m = nat_text(page_size(q.limit) + 1);
    lemma_tied_concat(
        f,
        j,
        " AND "@,
        col,
        " "@,
        "="@,
        " ?"@,
        "base_pk"@,
        op,
        " ORDER BY "@,
        dir,
        ", "@,
        " LIMIT "@,
        m,
    );
    lemma_beyond_concat(
        f,
        j,
        " AND "@,
        col,
        " "@,
        " ?"@,
        "base_pk"@,
        op,
        " ORDER BY "@,
        dir,
        ", "@,
        " LIMIT "@,
        n,
    );
    let first = read_stmt(tied_read(q, t, v, base_pk));
    let second = read_stmt(beyond_read(q, t, v, n));
    assert(test_values(p) =~= seq![CqlView::Text(q.pk@)]);
    assert(first.values =~= seq![CqlView::Text(q.pk@), v, CqlView::Text(base_pk)]);
    assert(second.values =~= seq![CqlView::Text(q.pk@), v]);
    assert(first.cql == first_stmt(q)->0.cql);
    assert(second.cql == second_head(q)->0.cql + n);
}

/// The two statements of a resumed query on an index of a table without a sort key find
/// every row strictly after the start key, by index sort key and then by base key, in
/// either direction, and no other row; and they find none twice.
pub proof fn law_tied_pages(
    q: QueryRequest,
    t: ScalarAttributeType,
    s: SortKeyView,
    base_pk: Seq<char>,
    n: Seq<char>,
    less: spec_fn(CqlView, CqlView) -> bool,
    row: Cells,
)
    requires
        q.sk == Some(t),
        q.base_sk is None,
        start_sk(q) == Some(s),
        tie_base_pk(q) == Some(base_pk),
        active_condition(q) is None,
        forall|a: CqlView, b: CqlView| #[trigger] less(a, b) ==> !less(b, a),
    ensures
        ({
            let first = tied_read(q, t, sk_bind(s), base_pk);
            let second = beyond_read(q, t, sk_bind(s), n);
            let pk = held(Some(row), "pk"@);
            let v = held(Some(row), sk_col(t));
            let b = held(Some(row), "base_pk"@);
            let mine = !less(pk, CqlView::Text(q.pk@)) && !less(CqlView::Text(q.pk@), pk);
            let same = !less(v, sk_bind(s)) && !less(sk_bind(s), v);
            &&& first_stmt(q) == Some(read_stmt(first))
            &&& second_head(q) matches Some(head) && read_stmt(second).cql == head.cql + n
                && read_stmt(second).values == head.values
            &&& (row_meets(first.tests, less, row) || row_meets(second.tests, less, row)) <==> mine
                && (later(q.forward, less, v, sk_bind(s)) || same && later(
                q.forward,
                less,
                b,
                CqlView::Text(base_pk),
            ))
            &&& !(row_meets(first.tests, less, row) && row_meets(second.tests, less, row))
        }),
{
    lemma_tied_texts(q, t, s, base_pk, n);
    let first = tied_read(q, t, sk_bind(s), base_pk);
    let second = beyond_read(q, t, sk_bind(s), n);
    assert(first.tests.len() == 3 && second.tests.len() == 2);
    assert(first.tests[0] == partition_test(q));
    assert(first.tests[1] == compare(sk_col(t), Sign::Equal, sk_bind(s)));
    assert(first.tests[2] == compare("base_pk"@, later_sign(q.forward), CqlView::Text(base_pk)));
    assert(second.tests[0] == partition_test(q));
    assert(second.tests[1] == compare(sk_col(t), later_sign(q.forward), sk_bind(s)));
}

} // verus!
