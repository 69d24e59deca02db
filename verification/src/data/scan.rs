//! Scan planning: a full read walks the token ring, resumes in two queries, and
//! splits the ring into segments for a parallel scan.
use vstd::prelude::*;
use crate::cql::{
    push_value, sk_bind, sk_col, sk_column, sk_to_value, stmt, stmt0, stmt1, stmt2, text_value,
    values_view, CqlValue, CqlView, Statement, StatementView,
};
use crate::data::query::{page_limit, page_size};
use crate::error::{is_validation, validation, StorageError};
use crate::model::{AttributeValue, Item, ScalarAttributeType, SortKeyBind};
use crate::text::{
    cat2, cat3, cat4, cat5, join, joined, nat_text, placeholder_list, placeholders, push_text,
    u64_text, views,
};

verus! {

/// The size of the token ring.
pub open spec fn ring() -> int {
    0x1_0000_0000_0000_0000
}

/// The lowest token of a segment.
pub open spec fn segment_lower(segment: int, total: int) -> int {
    i64::MIN + (ring() / total) * segment
}

/// The highest token of a segment; the last one takes what the division leaves.
pub open spec fn segment_upper(segment: int, total: int) -> int {
    if segment == total - 1 {
        i64::MAX as int
    } else {
        i64::MIN + (ring() / total) * (segment + 1) - 1
    }
}

/// A scan is split: there are several segments, and the number is one of them.
pub open spec fn is_segmented(segment: Option<i64>, total_segments: Option<i64>) -> bool {
    &&& segment is Some
    &&& total_segments is Some
    &&& total_segments->0 > 1
    &&& 0 <= segment->0 < total_segments->0
}

proof fn lemma_segment_range(segment: int, total: int)
    requires
        1 < total <= i64::MAX,
        0 <= segment < total,
    ensures
        i64::MIN <= segment_lower(segment, total) <= i64::MAX,
        i64::MIN <= segment_upper(segment, total) <= i64::MAX,
        segment_lower(segment, total) <= segment_upper(segment, total),
        2 <= ring() / total,
        0 <= (ring() / total) * segment <= ring(),
        0 <= (ring() / total) * (segment + 1) <= ring(),
{
    let span = ring() / total;
    assert(span >= 2 && span * total <= ring()) by (nonlinear_arith)
        requires
            1 < total <= 0x7fff_ffff_ffff_ffff,
            span == 0x1_0000_0000_0000_0000int / total,
            ring() == 0x1_0000_0000_0000_0000int,
    ;
    assert(0 <= span * segment && span * (segment + 1) <= span * total && span * (segment + 1)
        == span * segment + span) by (nonlinear_arith)
        requires
            span >= 2,
            0 <= segment < total,
    ;
}

/// Compute the inclusive `[lower, upper]` token bounds for a parallel-scan
/// segment, or `None` when the whole ring should be scanned.
///
/// Returns `None` when segment/total are absent or `total_segments == 1`
/// (single segment covers the entire ring, so no token predicate is needed).
pub fn segment_token_bounds(segment: Option<i64>, total_segments: Option<i64>) -> (r: Option<
    (i64, i64),
>)
    ensures
        match r {
            Some((lower, upper)) => is_segmented(segment, total_segments) && lower
                == segment_lower(segment->0 as int, total_segments->0 as int) && upper
                == segment_upper(segment->0 as int, total_segments->0 as int),
            None => !is_segmented(segment, total_segments),
        },
{
    match (segment, total_segments) {
        (Some(s), Some(t)) => {
            if t > 1 && s >= 0 && s < t {
                proof {
                    lemma_segment_range(s as int, t as int);
                }
                let span: u128 = 0x1_0000_0000_0000_0000u128 / (t as u128);
                let offset: u128 = span * (s as u128);
                let next: u128 = span * ((s + 1) as u128);
                let low: i128 = offset as i128 - 0x8000_0000_0000_0000i128;
                let lower: i64 = low as i64;
                let upper: i64 = if s == t - 1 {
                    i64::MAX
                } else {
                    (next as i128 - 0x8000_0000_0000_0000i128 - 1) as i64
                };
                Some((lower, upper))
            } else {
                None
            }
        },
        _ => None,
    }
}

/// The segments of a parallel scan follow one another without a gap, from the
/// lowest to the highest token.
pub proof fn law_segments_contiguous(segment: int, total: int)
    requires
        1 < total <= i64::MAX,
        0 <= segment < total,
    ensures
        segment_lower(0, total) == i64::MIN,
        segment_upper(total - 1, total) == i64::MAX,
        segment_lower(segment, total) <= segment_upper(segment, total),
        segment < total - 1 ==> segment_lower(segment + 1, total) == segment_upper(segment, total)
            + 1,
{
    lemma_segment_range(segment, total);
    assert((ring() / total) * 0 == 0) by (nonlinear_arith);
}

/// The token lies in the segment.
pub open spec fn in_segment(token: int, segment: int, total: int) -> bool {
    segment_lower(segment, total) <= token <= segment_upper(segment, total)
}

proof fn lemma_segments_ordered(a: int, b: int, total: int)
    requires
        1 < total <= i64::MAX,
        0 <= a < b < total,
    ensures
        segment_upper(a, total) < segment_lower(b, total),
{
    let span = ring() / total;
    lemma_segment_range(a, total);
    assert(span * (a + 1) <= span * b) by (nonlinear_arith)
        requires
            span >= 2,
            a + 1 <= b,
    ;
}

/// Every token lies in exactly one segment of a parallel scan.
pub proof fn law_segments_partition(token: int, total: int)
    requires
        1 < total <= i64::MAX,
        i64::MIN <= token <= i64::MAX,
    ensures
        exists|s: int| 0 <= s < total && #[trigger] in_segment(token, s, total),
        forall|s: int, t: int|
            0 <= s < total && 0 <= t < total && #[trigger] in_segment(token, s, total)
                && #[trigger] in_segment(token, t, total) ==> s == t,
{
    lemma_token_has_segment(token, total, total - 1);
    assert forall|s: int, t: int|
        0 <= s < total && 0 <= t < total && #[trigger] in_segment(token, s, total)
            && #[trigger] in_segment(token, t, total) implies s == t by {
        if s < t {
            lemma_segments_ordered(s, t, total);
        } else if t < s {
            lemma_segments_ordered(t, s, total);
        }
    }
}

proof fn lemma_token_has_segment(token: int, total: int, last: int)
    requires
        1 < total <= i64::MAX,
        0 <= last < total,
        i64::MIN <= token <= segment_upper(last, total),
    ensures
        exists|s: int| 0 <= s < total && #[trigger] in_segment(token, s, total),
    decreases last,
{
    law_segments_contiguous(last, total);
    if segment_lower(last, total) <= token {
        assert(in_segment(token, last, total));
    } else {
        assert(last > 0) by {
            law_segments_contiguous(0, total);
        }
        law_segments_contiguous(last - 1, total);
        lemma_token_has_segment(token, total, last - 1);
    }
}

/// The start of every scan statement.
pub open spec fn scan_head(keyspace: Seq<char>, table: Seq<char>) -> Seq<char> {
    "SELECT item_data FROM "@ + keyspace + "."@ + table
}

/// The statement of the first page: the whole ring, or the tokens of the segment.
pub fn first_page(
    keyspace: &str,
    table: &str,
    segment: Option<i64>,
    total_segments: Option<i64>,
    limit: Option<i64>,
) -> (r: Statement)
    ensures
        r@ == (if is_segmented(segment, total_segments) {
            stmt(
                scan_head(keyspace@, table@) + " WHERE token(pk) >= ? AND token(pk) <= ?"@
                    + " LIMIT "@ + nat_text(page_size(limit) + 1),
                seq![
                    CqlView::BigInt(
                        segment_lower(segment->0 as int, total_segments->0 as int) as i64,
                    ),
                    CqlView::BigInt(
                        segment_upper(segment->0 as int, total_segments->0 as int) as i64,
                    ),
                ],
            )
        } else {
            stmt(
                scan_head(keyspace@, table@) + " LIMIT "@ + nat_text(page_size(limit) + 1),
                seq![],
            )
        }),
{
    let head = cat4("SELECT item_data FROM ", keyspace, ".", table);
    let n = u64_text(page_limit(limit) + 1);
    match segment_token_bounds(segment, total_segments) {
        Some((lo, hi)) => stmt2(
            cat4(
                head.as_str(),
                " WHERE token(pk) >= ? AND token(pk) <= ?",
                " LIMIT ",
                n.as_str(),
            ),
            CqlValue::BigInt(lo),
            CqlValue::BigInt(hi),
        ),
        None => stmt0(cat3(head.as_str(), " LIMIT ", n.as_str())),
    }
}

/// A clustering "greater-than" predicate over columns.
pub open spec fn clustering_text(cols: Seq<Seq<char>>) -> Seq<char> {
    if cols.len() == 1 {
        cols[0] + " > ?"@
    } else {
        "("@ + joined(cols, ", "@) + ") > ("@ + placeholders(cols.len()) + ")"@
    }
}

/// Render a clustering "greater-than" predicate with bound-parameter
/// placeholders. Uses a plain `col > ?` comparison for a single column and the
/// multi-column tuple form `(c1, c2) > (?, ?)` for two or more columns.
pub fn format_clustering_comparison(cols: &Vec<String>) -> (r: String)
    ensures
        r@ == clustering_text(views(cols@)),
{
    if cols.len() == 1 {
        cat2(cols[0].as_str(), " > ?")
    } else {
        cat5(
            "(",
            join(cols, ", ").as_str(),
            ") > (",
            placeholder_list(cols.len()).as_str(),
            ")",
        )
    }
}

/// The attribute that a sort key of a start key is read from.
pub enum StartSortKey {
    /// The table or index has no sort key.
    Absent,
    /// The attribute of that name and type.
    Attribute(AttributeValue, ScalarAttributeType),
}

/// Find the sort key attribute of a start key. A start key without it is invalid.
pub fn start_sort_key(
    sk: Option<(&str, ScalarAttributeType)>,
    is_index: bool,
    start_key: &Item,
) -> (r: Result<StartSortKey, StorageError>)
    ensures
        match sk {
            None => r == Ok::<StartSortKey, StorageError>(StartSortKey::Absent),
            Some((name, t)) => match r {
                Ok(StartSortKey::Attribute(v, u)) => start_key@.dom().contains(name@)
                    && start_key@[name@] == v@ && u == t,
                Ok(StartSortKey::Absent) => false,
                Err(e) => !start_key@.dom().contains(name@) && is_validation(
                    e,
                    if is_index {
                        "The provided starting key is invalid: missing index sort key"@
                    } else {
                        "The provided starting key is invalid: missing sort key"@
                    },
                ),
            },
        },
{
    match sk {
        None => Ok(StartSortKey::Absent),
        Some((name, t)) => match start_key.get(name) {
            Some(v) => Ok(StartSortKey::Attribute(v.clone(), t)),
            None => if is_index {
                Err(validation("The provided starting key is invalid: missing index sort key"))
            } else {
                Err(validation("The provided starting key is invalid: missing sort key"))
            },
        },
    }
}

/// Where a scan resumes: the sort key of the start key, and for an index the base
/// partition key and the base sort key.
#[derive(Debug, PartialEq, Eq)]
pub enum ResumeKey {
    Table { sk: Option<SortKeyBind> },
    Index { sk: Option<SortKeyBind>, base_pk: String, base_sk: Option<SortKeyBind> },
}

/// The clustering columns to move past, and their values; `None` where a
/// partition holds a single row.
pub open spec fn resume_columns(k: ResumeKey) -> Option<(Seq<Seq<char>>, Seq<CqlView>)> {
    match k {
        ResumeKey::Table { sk: None } => None,
        ResumeKey::Table { sk: Some(b) } => Some((seq![sk_col(b.sk_type)], seq![sk_bind(b.value@)])),
        ResumeKey::Index { sk, base_pk, base_sk } => {
            let (cols, vals) = match sk {
                Some(b) => (seq![sk_col(b.sk_type)], seq![sk_bind(b.value@)]),
                None => (Seq::<Seq<char>>::empty(), Seq::<CqlView>::empty()),
            };
            let cols = cols.push("base_pk"@);
            let vals = vals.push(CqlView::Text(base_pk@));
            Some(
                match base_sk {
                    Some(b) => (
                        cols.push("base_"@ + sk_col(b.sk_type)),
                        vals.push(sk_bind(b.value@)),
                    ),
                    None => (cols, vals),
                },
            )
        },
    }
}

/// Build the clustering-comparison predicate for query 1 of pagination
/// (the part after `pk = ? AND`), plus the bound values it references.
///
/// Returns `None` when the partition has no clustering columns to advance
/// past (hash-only base table), in which case query 1 is skipped.
///
/// - Base table with sort key: `sk_col > ?`.
/// - Index scan: a multi-column clustering tuple comparison
///   `(idx_sk?, base_pk, base_sk?) > (?, …)`.
pub fn build_resume_clustering(key: &ResumeKey) -> (r: Option<(String, Vec<CqlValue>)>)
    ensures
        match r {
            Some((text, values)) => {
                &&& resume_columns(*key) is Some
                &&& text@ == clustering_text((resume_columns(*key)->0).0)
                &&& values_view(values@) == (resume_columns(*key)->0).1
            },
            None => resume_columns(*key) is None,
        },
{
    let mut cols: Vec<String> = Vec::new();
    let mut binds: Vec<CqlValue> = Vec::new();
    match key {
        ResumeKey::Table { sk } => match sk {
            None => {
                return None;
            },
            Some(b) => {
                push_text(&mut cols, sk_column(b.sk_type).to_owned());
                push_value(&mut binds, sk_to_value(&b.value));
            },
        },
        ResumeKey::Index { sk, base_pk, base_sk } => {
            match sk {
                Some(b) => {
                    push_text(&mut cols, sk_column(b.sk_type).to_owned());
                    push_value(&mut binds, sk_to_value(&b.value));
                },
                None => {},
            }
            push_text(&mut cols, "base_pk".to_owned());
            push_value(&mut binds, text_value(base_pk.as_str()));
            match base_sk {
                Some(b) => {
                    push_text(&mut cols, cat2("base_", sk_column(b.sk_type)));
                    push_value(&mut binds, sk_to_value(&b.value));
                },
                None => {},
            }
        },
    }
    proof {
        assert(views(cols@) =~= (resume_columns(*key)->0).0);
        assert(values_view(binds@) =~= (resume_columns(*key)->0).1);
    }
    Some((format_clustering_comparison(&cols), binds))
}

/// The query that finishes the partition of the start key.
pub open spec fn finish_stmt(
    keyspace: Seq<char>,
    table: Seq<char>,
    pk: Seq<char>,
    key: ResumeKey,
    limit: Option<i64>,
) -> Option<StatementView> {
    match resume_columns(key) {
        Some((cols, vals)) => Some(
            stmt(
                scan_head(keyspace, table) + " WHERE pk = ? AND "@ + clustering_text(cols)
                    + " LIMIT "@ + nat_text(page_size(limit) + 1),
                seq![CqlView::Text(pk)] + vals,
            ),
        ),
        None => None,
    }
}

/// The first query of a resumed scan: the rest of the partition of the start key.
pub fn finish_partition(
    keyspace: &str,
    table: &str,
    pk: &str,
    key: &ResumeKey,
    limit: Option<i64>,
) -> (r: Option<Statement>)
    ensures
        match r {
            Some(s) => finish_stmt(keyspace@, table@, pk@, *key, limit) == Some(s@),
            None => finish_stmt(keyspace@, table@, pk@, *key, limit) is None,
        },
{
    match build_resume_clustering(key) {
        None => None,
        Some((predicate, clustering)) => {
            let head = cat4("SELECT item_data FROM ", keyspace, ".", table);
            let n = u64_text(page_limit(limit) + 1);
            let mut values: Vec<CqlValue> = Vec::new();
            let mut clustering = clustering;
            let ghost vals = values_view(clustering@);
            values.push(text_value(pk));
            values.append(&mut clustering);
            proof {
                assert(values_view(values@) =~= seq![CqlView::Text(pk@)] + vals);
            }
            Some(
                Statement {
                    cql: cat5(
                        head.as_str(),
                        " WHERE pk = ? AND ",
                        predicate.as_str(),
                        " LIMIT ",
                        n.as_str(),
                    ),
                    values,
                },
            )
        },
    }
}

/// The second query of a resumed scan: the partitions after that of the start
/// key in token order, up to the end of the segment; only where the first query
/// left room on the page.
pub fn next_partitions(
    keyspace: &str,
    table: &str,
    pk: &str,
    segment: Option<i64>,
    total_segments: Option<i64>,
    limit: Option<i64>,
    fetched: usize,
) -> (r: Option<Statement>)
    ensures
        match r {
            Some(s) => {
                let rest = nat_text((page_size(limit) + 1 - fetched) as nat);
                &&& fetched < page_size(limit) + 1
                &&& s@ == if is_segmented(segment, total_segments) {
                    stmt(
                        scan_head(keyspace@, table@) + " WHERE token(pk) > token(?)"@
                            + " AND token(pk) <= ?"@ + " LIMIT "@ + rest,
                        seq![
                            CqlView::Text(pk@),
                            CqlView::BigInt(
                                segment_upper(segment->0 as int, total_segments->0 as int) as i64,
                            ),
                        ],
                    )
                } else {
                    stmt(
                        scan_head(keyspace@, table@) + " WHERE token(pk) > token(?)"@ + ""@
                            + " LIMIT "@ + rest,
                        seq![CqlView::Text(pk@)],
                    )
                }
            },
            None => fetched >= page_size(limit) + 1,
        },
{
    let wanted: u64 = page_limit(limit) + 1;
    if fetched as u64 >= wanted {
        return None;
    }
    let rest = u64_text(wanted - fetched as u64);
    let head = cat4("SELECT item_data FROM ", keyspace, ".", table);
    match segment_token_bounds(segment, total_segments) {
        Some((_lo, hi)) => Some(
            stmt2(
                cat5(
                    head.as_str(),
                    " WHERE token(pk) > token(?)",
                    " AND token(pk) <= ?",
                    " LIMIT ",
                    rest.as_str(),
                ),
                text_value(pk),
                CqlValue::BigInt(hi),
            ),
        ),
        None => Some(
            stmt1(
                cat5(
                    head.as_str(),
                    " WHERE token(pk) > token(?)",
                    "",
                    " LIMIT ",
                    rest.as_str(),
                ),
                text_value(pk),
            ),
        ),
    }
}

} // verus!
