//! What the statements of a query select.
use vstd::prelude::*;
use crate::command::{
    compare, in_order, lemma_joined_1, lemma_joined_push, passes, passes_on, picked, read_stmt,
    selected, sign_text, test_texts, test_values, order_texts, Read, Sign, Test,
};
use crate::cql::{sk_bind, sk_col, CqlView};
use crate::data::query::{
    active_condition, beyond, condition_text, condition_values, direction, head_text, op_text,
    page_size, prefix_bound, single_stmt, single_values, start_sk, takes_two_queries, CompareOp,
    QueryRequest, SortKeyCondition,
};
use crate::model::{ScalarAttributeType, SortKeyView};
use crate::text::{joined, nat_text};

verus! {

/// A sort key value meets a condition, under the order of its column.
pub open spec fn meets(
    c: Option<SortKeyCondition>,
    less: spec_fn(CqlView, CqlView) -> bool,
    v: CqlView,
) -> bool {
    match c {
        None => true,
        Some(SortKeyCondition::Compare { op, value }) => {
            let b = sk_bind(value@);
            match op {
                CompareOp::Eq => !less(v, b) && !less(b, v),
                CompareOp::Ne => less(v, b) || less(b, v),
                CompareOp::Lt => less(v, b),
                CompareOp::Le => !less(b, v),
                CompareOp::Gt => less(b, v),
                CompareOp::Ge => !less(v, b),
            }
        },
        Some(SortKeyCondition::Between { low, high }) => !less(v, sk_bind(low@)) && !less(
            sk_bind(high@),
            v,
        ),
        Some(SortKeyCondition::BeginsWith { prefix }) => !less(v, sk_bind(prefix@)) && (
        prefix_bound(prefix@) matches Some(upper) ==> less(v, sk_bind(upper))),
    }
}

/// The rows of a partition that meet the condition of a query, in its order, each by
/// its sort key value.
pub open spec fn whole_result(
    q: QueryRequest,
    less: spec_fn(CqlView, CqlView) -> bool,
    values: Seq<CqlView>,
) -> Seq<CqlView> {
    let found = picked(values, |v: CqlView| meets(active_condition(q), less, v));
    if q.forward {
        found
    } else {
        found.reverse()
    }
}

/// The sign of a comparison.
pub open spec fn sign_of(op: CompareOp) -> Sign {
    match op {
        CompareOp::Eq => Sign::Equal,
        CompareOp::Ne => Sign::Unequal,
        CompareOp::Lt => Sign::Below,
        CompareOp::Le => Sign::AtMost,
        CompareOp::Gt => Sign::Above,
        CompareOp::Ge => Sign::AtLeast,
    }
}

/// The tests of a sort key condition.
pub open spec fn condition_tests(col: Seq<char>, c: Option<SortKeyCondition>) -> Seq<Test> {
    match c {
        None => Seq::empty(),
        Some(SortKeyCondition::Compare { op, value }) => seq![
            compare(col, sign_of(op), sk_bind(value@)),
        ],
        Some(SortKeyCondition::Between { low, high }) => seq![
            compare(col, Sign::AtLeast, sk_bind(low@)),
            compare(col, Sign::AtMost, sk_bind(high@)),
        ],
        Some(SortKeyCondition::BeginsWith { prefix }) => match prefix_bound(prefix@) {
            Some(upper) => seq![
                compare(col, Sign::AtLeast, sk_bind(prefix@)),
                compare(col, Sign::Below, sk_bind(upper)),
            ],
            None => seq![compare(col, Sign::AtLeast, sk_bind(prefix@))],
        },
    }
}

/// The test of the start key.
pub open spec fn start_tests(q: QueryRequest, col: Seq<char>) -> Seq<Test> {
    match start_sk(q) {
        Some(s) => seq![
            compare(
                col,
                if q.forward {
                    Sign::Above
                } else {
                    Sign::Below
                },
                sk_bind(s),
            ),
        ],
        None => Seq::empty(),
    }
}

/// The test of the partition key.
pub open spec fn partition_test(q: QueryRequest) -> Test {
    compare("pk"@, Sign::Equal, CqlView::Text(q.pk@))
}

/// What the statement of a query on a sort key reads.
pub open spec fn query_read(q: QueryRequest, t: ScalarAttributeType) -> Read {
    let col = sk_col(t);
    Read {
        columns: "item_data"@,
        target: q.keyspace@ + "."@ + q.table@,
        tests: seq![partition_test(q)] + condition_tests(col, active_condition(q)) + start_tests(
            q,
            col,
        ),
        order: seq![(col, q.forward)],
        limit: Some(nat_text(page_size(q.limit) + 1)),
    }
}

#[verifier::spinoff_prover]
#[verifier::rlimit(60)]
proof fn lemma_test_text(t: Test)
    ensures
        test_texts(seq![t]) == seq![t.column + " "@ + sign_text(t.sign) + " ?"@],
{
    assert(test_texts(seq![t]) =~= seq![t.column + " "@ + sign_text(t.sign) + " ?"@]);
}

#[verifier::spinoff_prover]
#[verifier::rlimit(60)]
pub(crate) proof fn lemma_one_more(tests: Seq<Test>, t: Test)
    requires
        tests.len() > 0,
    ensures
        joined(test_texts(tests + seq![t]), " AND "@) == joined(test_texts(tests), " AND "@)
            + " AND "@ + (t.column + " "@ + sign_text(t.sign) + " ?"@),
        test_values(tests + seq![t]) == test_values(tests).push(t.value),
{
    assert(test_texts(tests + seq![t]) =~= test_texts(tests).push(
        t.column + " "@ + sign_text(t.sign) + " ?"@,
    ));
    lemma_joined_push(
        test_texts(tests),
        t.column + " "@ + sign_text(t.sign) + " ?"@,
        " AND "@,
    );
    assert(test_values(tests + seq![t]) =~= test_values(tests).push(t.value));
}

#[verifier::spinoff_prover]
#[verifier::rlimit(60)]
proof fn lemma_signs()
    ensures
        " >= ? AND "@ == " "@ + ">="@ + " ?"@ + " AND "@,
        " <= ?"@ == " "@ + "<="@ + " ?"@,
        " < ?"@ == " "@ + "<"@ + " ?"@,
        " >= ?"@ == " "@ + ">="@ + " ?"@,
        " WHERE pk = ?"@ == " WHERE "@ + ("pk"@ + " "@ + "="@ + " ?"@),
        "SELECT item_data FROM "@ == "SELECT "@ + "item_data"@ + " FROM "@,
{
    reveal_strlit(" >= ? AND ");
    reveal_strlit(" <= ?");
    reveal_strlit(" < ?");
    reveal_strlit(" >= ?");
    reveal_strlit(" ");
    reveal_strlit(">=");
    reveal_strlit("<=");
    reveal_strlit("<");
    reveal_strlit("=");
    reveal_strlit(" ?");
    reveal_strlit(" AND ");
    reveal_strlit(" WHERE pk = ?");
    reveal_strlit(" WHERE ");
    reveal_strlit("pk");
    reveal_strlit("SELECT item_data FROM ");
    reveal_strlit("SELECT ");
    reveal_strlit("item_data");
    reveal_strlit(" FROM ");
    assert(" >= ? AND "@ =~= " "@ + ">="@ + " ?"@ + " AND "@);
    assert(" <= ?"@ =~= " "@ + "<="@ + " ?"@);
    assert(" < ?"@ =~= " "@ + "<"@ + " ?"@);
    assert(" >= ?"@ =~= " "@ + ">="@ + " ?"@);
    assert(" WHERE pk = ?"@ =~= " WHERE "@ + ("pk"@ + " "@ + "="@ + " ?"@));
    assert("SELECT item_data FROM "@ =~= "SELECT "@ + "item_data"@ + " FROM "@);
}

/// The tests of the partition and of the condition.
pub open spec fn head_tests(q: QueryRequest, col: Seq<char>) -> Seq<Test> {
    seq![partition_test(q)] + condition_tests(col, active_condition(q))
}

proof fn lemma_one_test(w: Seq<char>, j: Seq<char>, x: Seq<char>, col: Seq<char>, sign: Seq<char>)
    ensures
        w + (j + x + (col + " "@ + sign + " ?"@)) == (w + j) + (x + col + " "@ + sign + " ?"@),
{
    assert(w + (j + x + (col + " "@ + sign + " ?"@)) =~= (w + j) + (x + col + " "@ + sign
        + " ?"@));
}

#[verifier::spinoff_prover]
#[verifier::rlimit(60)]
proof fn lemma_two_tests(
    w: Seq<char>,
    j: Seq<char>,
    x: Seq<char>,
    col: Seq<char>,
    a: Seq<char>,
    b: Seq<char>,
    q: Seq<char>,
    sp: Seq<char>,
)
    ensures
        w + (j + x + (col + sp + a + q) + x + (col + sp + b + q)) == (w + j) + (x + col + (sp + a
            + q + x) + col + (sp + b + q)),
{
    let l = w + (j + x + (col + sp + a + q) + x + (col + sp + b + q));
    let r = (w + j) + (x + col + (sp + a + q + x) + col + (sp + b + q));
    let u = col + sp + a + q;
    let v = col + sp + b + q;
    assert(l =~= w + j + x + u + x + v);
    assert(x + col + (sp + a + q + x) + col + (sp + b + q) =~= x + u + x + v);
    assert((w + j) + (x + u + x + v) =~= w + j + x + u + x + v);
}

#[verifier::spinoff_prover]
#[verifier::rlimit(60)]
pub(crate) proof fn lemma_condition_text(q: QueryRequest, t: ScalarAttributeType)
    requires
        q.sk == Some(t),
    ensures
        " WHERE "@ + joined(test_texts(head_tests(q, sk_col(t))), " AND "@) == " WHERE pk = ?"@ + (
        match active_condition(q) {
            Some(c) => condition_text(sk_col(t), c),
            None => Seq::empty(),
        }),
        test_values(head_tests(q, sk_col(t))) == seq![CqlView::Text(q.pk@)] + (
        match active_condition(q) {
            Some(c) => condition_values(c),
            None => Seq::empty(),
        }).map_values(|s: SortKeyView| sk_bind(s)),
{
    let f = |s: SortKeyView| sk_bind(s);
    let col = sk_col(t);
    let p = partition_test(q);
    let base = seq![p];
    lemma_signs();
    lemma_test_text(p);
    lemma_joined_1("pk"@ + " "@ + "="@ + " ?"@, " AND "@);
    assert(test_values(base) =~= seq![CqlView::Text(q.pk@)]);
    let tests = head_tests(q, col);
    let have = " WHERE "@ + joined(test_texts(tests), " AND "@);
    match active_condition(q) {
        None => {
            assert(tests =~= base);
            assert(have == " WHERE pk = ?"@);
            assert(have + Seq::<char>::empty() =~= have);
            assert(test_values(tests) =~= seq![CqlView::Text(q.pk@)] + Seq::<
                SortKeyView,
            >::empty().map_values(f));
        },
        Some(c) => {
            match c {
                SortKeyCondition::Compare { op, value } => {
                    let a = compare(col, sign_of(op), sk_bind(value@));
                    assert(tests =~= base + seq![a]);
                    lemma_one_more(base, a);
                    assert(sign_text(sign_of(op)) == op_text(op));
                    lemma_one_test(
                        " WHERE "@,
                        joined(test_texts(base), " AND "@),
                        " AND "@,
                        col,
                        op_text(op),
                    );
                },
                SortKeyCondition::Between { low, high } => {
                    let a = compare(col, Sign::AtLeast, sk_bind(low@));
                    let b = compare(col, Sign::AtMost, sk_bind(high@));
                    assert(tests =~= base + seq![a] + seq![b]);
                    lemma_one_more(base, a);
                    lemma_one_more(base + seq![a], b);
                    lemma_two_tests(
                        " WHERE "@,
                        joined(test_texts(base), " AND "@),
                        " AND "@,
                        col,
                        ">="@,
                        "<="@,
                        " ?"@,
                        " "@,
                    );
                },
                SortKeyCondition::BeginsWith { prefix } => {
                    let a = compare(col, Sign::AtLeast, sk_bind(prefix@));
                    lemma_one_more(base, a);
                    match prefix_bound(prefix@) {
                        Some(upper) => {
                            let b = compare(col, Sign::Below, sk_bind(upper));
                            assert(tests =~= base + seq![a] + seq![b]);
                            lemma_one_more(base + seq![a], b);
                            lemma_two_tests(
                        " WHERE "@,
                        joined(test_texts(base), " AND "@),
                        " AND "@,
                        col,
                        ">="@,
                        "<"@,
                        " ?"@,
                        " "@,
                    );
                        },
                        None => {
                            assert(tests =~= base + seq![a]);
                            lemma_one_test(
                                " WHERE "@,
                                joined(test_texts(base), " AND "@),
                                " AND "@,
                                col,
                                ">="@,
                            );
                            assert(" AND "@ + col + " "@ + ">="@ + " ?"@ =~= " AND "@ + col + (" "@
                                + ">="@ + " ?"@));
                        },
                    }
                },
            }
            assert(have == " WHERE pk = ?"@ + condition_text(col, c));
            assert(test_values(tests) =~= seq![CqlView::Text(q.pk@)] + condition_values(
                c,
            ).map_values(f));
        },
    }
}

#[verifier::spinoff_prover]
#[verifier::rlimit(60)]
pub(crate) proof fn lemma_head(q: QueryRequest, j: Seq<char>, cond: Seq<char>)
    requires
        " WHERE "@ + j == " WHERE pk = ?"@ + cond,
    ensures
        "SELECT "@ + "item_data"@ + " FROM "@ + (q.keyspace@ + "."@ + q.table@) + " WHERE "@ + j
            == "SELECT item_data FROM "@ + q.keyspace@ + "."@ + q.table@ + " WHERE pk = ?"@ + cond,
{
    lemma_signs();
    let f = "SELECT "@ + "item_data"@ + " FROM "@;
    let t = q.keyspace@ + "."@ + q.table@;
    assert(f + t + " WHERE "@ + j =~= f + t + (" WHERE "@ + j));
    assert(f + t + (" WHERE pk = ?"@ + cond) =~= f + q.keyspace@ + "."@ + q.table@
        + " WHERE pk = ?"@ + cond);
}

#[verifier::spinoff_prover]
#[verifier::rlimit(60)]
proof fn lemma_order(head: Seq<char>, col: Seq<char>, dir: Seq<char>, n: Seq<char>)
    ensures
        head + (" ORDER BY "@ + (col + " "@ + dir)) + (" LIMIT "@ + n) == head + " ORDER BY "@ + col
            + " "@ + dir + " LIMIT "@ + n,
{
    assert(head + (" ORDER BY "@ + (col + " "@ + dir)) + (" LIMIT "@ + n) =~= head + " ORDER BY "@
        + col + " "@ + dir + " LIMIT "@ + n);
}

#[verifier::spinoff_prover]
#[verifier::rlimit(60)]
proof fn lemma_tail(
    f: Seq<char>,
    j: Seq<char>,
    x: Seq<char>,
    col: Seq<char>,
    sign: Seq<char>,
    dir: Seq<char>,
    n: Seq<char>,
)
    ensures
        f + (j + x + (col + " "@ + sign + " ?"@)) + (" ORDER BY "@ + (col + " "@ + dir)) + (
        " LIMIT "@ + n) == f + j + x + col + " "@ + sign + " ?"@ + " ORDER BY "@ + col + " "@ + dir
            + " LIMIT "@ + n,
{
    assert(f + (j + x + (col + " "@ + sign + " ?"@)) =~= f + j + x + col + " "@ + sign + " ?"@);
    lemma_order(f + j + x + col + " "@ + sign + " ?"@, col, dir, n);
}

#[verifier::spinoff_prover]
#[verifier::rlimit(60)]
proof fn lemma_query_text(q: QueryRequest, t: ScalarAttributeType)
    requires
        q.sk == Some(t),
    ensures
        read_stmt(query_read(q, t)) == single_stmt(q),
{
    let f = |s: SortKeyView| sk_bind(s);
    let col = sk_col(t);
    let r = query_read(q, t);
    let h = head_tests(q, col);
    lemma_signs();
    lemma_condition_text(q, t);
    let cond = match active_condition(q) {
        Some(c) => condition_values(c),
        None => Seq::empty(),
    };
    let j = joined(test_texts(h), " AND "@);
    assert(order_texts(r.order) =~= seq![col + " "@ + direction(q.forward)]);
    lemma_joined_1(col + " "@ + direction(q.forward), ", "@);
    let target = q.keyspace@ + "."@ + q.table@;
    let head = "SELECT "@ + "item_data"@ + " FROM "@ + target + " WHERE "@ + j;
    lemma_head(q, j, match active_condition(q) {
        Some(c) => condition_text(col, c),
        None => Seq::empty(),
    });
    assert(head == head_text(q)) by {
        if active_condition(q) is None {
            let select = "SELECT item_data FROM "@ + q.keyspace@ + "."@ + q.table@
                + " WHERE pk = ?"@;
            assert(select + Seq::<char>::empty() =~= select);
        }
    }
    let n = nat_text(page_size(q.limit) + 1);
    let s = read_stmt(r);
    let x = single_stmt(q);
    match start_sk(q) {
        Some(v) => {
            let b = start_tests(q, col)[0];
            assert(r.tests =~= h + seq![b]);
            lemma_one_more(h, b);
            assert(sign_text(b.sign) == beyond(q.forward));
            lemma_tail(
                "SELECT "@ + "item_data"@ + " FROM "@ + target + " WHERE "@,
                j,
                " AND "@,
                col,
                beyond(q.forward),
                direction(q.forward),
                n,
            );
            assert(s.cql == x.cql);
            assert(single_values(q).map_values(f) =~= cond.map_values(f).push(sk_bind(v)));
        },
        None => {
            assert(r.tests =~= h);
            lemma_order(head, col, direction(q.forward), n);
            assert(s.cql == x.cql);
            assert(single_values(q) =~= cond);
        },
    }
    assert(s.values =~= x.values);
}

proof fn lemma_picked_same(
    values: Seq<CqlView>,
    f: spec_fn(CqlView) -> bool,
    g: spec_fn(CqlView) -> bool,
)
    requires
        forall|v: CqlView| #[trigger] f(v) == g(v),
    ensures
        picked(values, f) == picked(values, g),
    decreases values.len(),
{
    if values.len() > 0 {
        lemma_picked_same(values.drop_last(), f, g);
    }
}

/// Choosing twice is choosing by both.
proof fn lemma_picked_both(
    values: Seq<CqlView>,
    f: spec_fn(CqlView) -> bool,
    g: spec_fn(CqlView) -> bool,
)
    ensures
        picked(values, |v: CqlView| f(v) && g(v)) == picked(picked(values, f), g),
    decreases values.len(),
{
    if values.len() > 0 {
        let rest = values.drop_last();
        lemma_picked_both(rest, f, g);
        if f(values.last()) {
            assert(picked(rest, f).push(values.last()).drop_last() =~= picked(rest, f));
        }
    }
}

#[verifier::spinoff_prover]
#[verifier::rlimit(60)]
proof fn lemma_picked_in_order(
    less: spec_fn(CqlView, CqlView) -> bool,
    values: Seq<CqlView>,
    f: spec_fn(CqlView) -> bool,
)
    requires
        in_order(less, values),
    ensures
        in_order(less, picked(values, f)),
        forall|i: int|
            0 <= i < picked(values, f).len() ==> values.contains(#[trigger] picked(values, f)[i]),
    decreases values.len(),
{
    if values.len() > 0 {
        let rest = values.drop_last();
        lemma_picked_in_order(less, rest, f);
        let p = picked(values, f);
        let pr = picked(rest, f);
        assert forall|i: int| 0 <= i < p.len() implies values.contains(#[trigger] p[i]) by {
            if i < pr.len() {
                assert(rest.contains(pr[i]));
                let k = choose|k: int| 0 <= k < rest.len() && rest[k] == pr[i];
                assert(values[k] == p[i]);
            } else {
                assert(values[values.len() - 1] == p[i]);
            }
        }
        assert forall|i: int, j: int| 0 <= i < j < p.len() implies less(
            #[trigger] p[i],
            #[trigger] p[j],
        ) by {
            if j < pr.len() {
                assert(less(pr[i], pr[j]));
            } else {
                assert(rest.contains(pr[i]));
                let k = choose|k: int| 0 <= k < rest.len() && rest[k] == pr[i];
                assert(less(values[k], values[values.len() - 1]));
            }
        }
    }
}

/// From values in order, choosing those above one of them leaves what stands behind it,
/// and choosing those below leaves what stands before it.
proof fn lemma_picked_beyond(
    less: spec_fn(CqlView, CqlView) -> bool,
    values: Seq<CqlView>,
    k: int,
    s: CqlView,
)
    requires
        in_order(less, values),
        0 <= k < values.len() ==> s == values[k],
        k >= values.len() ==> forall|i: int|
            0 <= i < values.len() ==> less(#[trigger] values[i], s),
        k >= 0,
    ensures
        picked(values, |v: CqlView| less(s, v)) == if k < values.len() {
            values.skip(k + 1)
        } else {
            Seq::empty()
        },
        picked(values, |v: CqlView| less(v, s)) == if k < values.len() {
            values.take(k)
        } else {
            values
        },
    decreases values.len(),
{
    let above = |v: CqlView| less(s, v);
    let below = |v: CqlView| less(v, s);
    if values.len() > 0 {
        let n = values.len() - 1;
        let rest = values.drop_last();
        if k == n {
            assert forall|i: int| 0 <= i < rest.len() implies less(#[trigger] rest[i], s) by {
                assert(less(values[i], values[n]));
            }
        }
        assert(in_order(less, rest)) by {
            assert forall|i: int, j: int| 0 <= i < j < rest.len() implies less(
                #[trigger] rest[i],
                #[trigger] rest[j],
            ) by {
                assert(less(values[i], values[j]));
            }
        }
        lemma_picked_beyond(less, rest, k, s);
        let last = values[n];
        if k < n {
            assert(less(values[k], last));
            assert(!less(last, s));
            assert(picked(values, above) =~= values.skip(k + 1));
            assert(picked(values, below) =~= values.take(k));
        } else if k == n {
            assert(picked(values, above) =~= values.skip(k + 1));
            assert(picked(values, below) =~= values.take(k));
        } else {
            assert(less(last, s));
            if less(s, last) {
                assert(less(s, s));
            }
            assert(picked(values, above) =~= Seq::empty());
            assert(picked(values, below) =~= values);
        }
    } else {
        assert(picked(values, above) =~= Seq::empty());
        assert(picked(values, below) =~= values);
    }
}

proof fn lemma_pk_apart(t: ScalarAttributeType)
    ensures
        sk_col(t) != "pk"@,
{
    reveal_strlit("sk_s");
    reveal_strlit("sk_n");
    reveal_strlit("sk_b");
    reveal_strlit("pk");
    assert(sk_col(t).len() == 4 && "pk"@.len() == 2);
}

proof fn lemma_tests_mean(
    q: QueryRequest,
    t: ScalarAttributeType,
    less: spec_fn(CqlView, CqlView) -> bool,
    v: CqlView,
)
    requires
        q.sk == Some(t),
    ensures
        passes_on(query_read(q, t).tests, sk_col(t), less, v) == (meets(
            active_condition(q),
            less,
            v,
        ) && (match start_sk(q) {
            Some(s) => if q.forward {
                less(sk_bind(s), v)
            } else {
                less(v, sk_bind(s))
            },
            None => true,
        })),
{
    lemma_pk_apart(t);
    let col = sk_col(t);
    let tests = query_read(q, t).tests;
    let c = condition_tests(col, active_condition(q));
    let st = start_tests(q, col);
    assert(tests.len() == 1 + c.len() + st.len());
    assert(tests[0] == partition_test(q));
    if c.len() > 0 {
        assert(tests[1] == c[0]);
    }
    if c.len() > 1 {
        assert(tests[2] == c[1]);
    }
    if st.len() > 0 {
        assert(tests[c.len() as int + 1] == st[0]);
    }
    let m = meets(active_condition(q), less, v) && (match start_sk(q) {
        Some(s) => if q.forward {
            less(sk_bind(s), v)
        } else {
            less(v, sk_bind(s))
        },
        None => true,
    });
    if m {
        assert forall|i: int| 0 <= i < tests.len() && tests[i].column == col implies passes(
            (#[trigger] tests[i]).sign,
            less,
            v,
            tests[i].value,
        ) by {
            if 1 <= i < 1 + c.len() {
                assert(tests[i] == c[i - 1]);
            }
        }
    }
}

/// The pages of a query on a sort key, put together, are its whole result, each row
/// once and in order, whichever way it runs: the first page starts with it, and a page
/// that resumes after a row goes on with exactly the rows behind that row. The whole
/// result is every row of the partition that meets the condition, in the order of the
/// query. The statement asks for one row more than the page holds. The law is on reads
/// by one statement.
pub proof fn law_query_pages(
    q: QueryRequest,
    t: ScalarAttributeType,
    less: spec_fn(CqlView, CqlView) -> bool,
    values: Seq<CqlView>,
    i: int,
)
    requires
        q.sk == Some(t),
        !takes_two_queries(q),
        in_order(less, values),
        start_sk(q) is Some ==> 0 <= i < whole_result(q, less, values).len() && whole_result(
            q,
            less,
            values,
        )[i] == sk_bind(start_sk(q)->0),
    ensures
        read_stmt(query_read(q, t)) == single_stmt(q),
        query_read(q, t).limit == Some(nat_text(page_size(q.limit) + 1)),
        query_read(q, t).tests[0] == partition_test(q),
        selected(query_read(q, t), sk_col(t), less, values) == if start_sk(q) is Some {
            whole_result(q, less, values).skip(i + 1)
        } else {
            whole_result(q, less, values)
        },
{
    lemma_query_text(q, t);
    let r = query_read(q, t);
    let col = sk_col(t);
    let met = |v: CqlView| meets(active_condition(q), less, v);
    let all = |v: CqlView| passes_on(r.tests, col, less, v);
    let m = picked(values, met);
    lemma_picked_in_order(less, values, met);
    assert forall|v: CqlView| #[trigger]
        all(v) == (met(v) && (match start_sk(q) {
            Some(s) => if q.forward {
                less(sk_bind(s), v)
            } else {
                less(v, sk_bind(s))
            },
            None => true,
        })) by {
        lemma_tests_mean(q, t, less, v);
    }
    match start_sk(q) {
        None => {
            lemma_picked_same(values, all, met);
        },
        Some(s) => {
            let b = sk_bind(s);
            let n = m.len() as int;
            if q.forward {
                let g = |v: CqlView| less(b, v);
                lemma_picked_both(values, met, g);
                lemma_picked_same(values, all, |v: CqlView| met(v) && g(v));
                lemma_picked_beyond(less, m, i, b);
            } else {
                let g = |v: CqlView| less(v, b);
                assert(m.reverse()[i] == m[n - 1 - i]);
                lemma_picked_both(values, met, g);
                lemma_picked_same(values, all, |v: CqlView| met(v) && g(v));
                lemma_picked_beyond(less, m, n - 1 - i, b);
                assert(m.take(n - 1 - i).reverse() =~= m.reverse().skip(i + 1));
            }
        },
    }
}

} // verus!
