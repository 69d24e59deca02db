use storage_cassandra::cql::{CqlValue, Statement};
use storage_cassandra::data::index::IndexMeta;
use storage_cassandra::data::query::{
    binary_upper_bound, check_sort_condition, finish_page, page_limit, query_impl,
    resolve_expr_to_av, resolve_target, second_query, start_attributes, string_upper_bound,
    CompareOp, KeyOperand, QueryPlan, QueryRequest, SortKeyCondition, StartKey,
};
use storage_cassandra::data::scan::{
    build_resume_clustering, finish_partition, first_page, format_clustering_comparison,
    next_partitions, segment_token_bounds, start_sort_key, ResumeKey, StartSortKey,
};
use storage_cassandra::error::StorageError;
use storage_cassandra::model::{
    AttributeDefinition, AttributeValue, Decimal, Item, KeySchemaElement, KeyType, Projection,
    ProjectionType, ScalarAttributeType, SortKeyBind, SortKeyValue, TableKeyInfo,
};

fn s(v: &str) -> SortKeyValue {
    SortKeyValue::S(v.to_owned())
}

fn n(v: &str) -> SortKeyValue {
    SortKeyValue::N(Decimal::new(v.to_owned(), 0).unwrap())
}

fn text(v: &str) -> CqlValue {
    CqlValue::Text(v.to_owned())
}

fn request() -> QueryRequest {
    QueryRequest {
        keyspace: "ks".to_owned(),
        table: "items_t".to_owned(),
        pk: "p".to_owned(),
        is_index: false,
        is_lsi: false,
        sk: Some(ScalarAttributeType::S),
        base_sk: None,
        condition: None,
        start: None,
        forward: true,
        limit: Some(10),
    }
}

fn single(q: &QueryRequest) -> Statement {
    match query_impl(q) {
        Ok(QueryPlan::Single(s)) => s,
        other => panic!("{other:?}"),
    }
}

fn paged(q: &QueryRequest) -> (Option<Statement>, Option<Statement>) {
    match query_impl(q) {
        Ok(QueryPlan::Paged { first, second }) => (first, second),
        other => panic!("{other:?}"),
    }
}

fn start(sk: Option<SortKeyValue>, base_pk: Option<&str>, base_sk: Option<SortKeyValue>) -> StartKey {
    StartKey { sk, base_pk: base_pk.map(|t| t.to_owned()), base_sk }
}

fn element(name: &str, key_type: KeyType) -> KeySchemaElement {
    KeySchemaElement { attribute_name: name.to_owned(), key_type }
}

fn def(name: &str, t: ScalarAttributeType) -> AttributeDefinition {
    AttributeDefinition { attribute_name: name.to_owned(), attribute_type: t }
}

fn key_info() -> TableKeyInfo {
    TableKeyInfo {
        table_name: "tab".to_owned(),
        account_id: "acct".to_owned(),
        table_id: "t-1".to_owned(),
        key_schema: vec![element("pk", KeyType::Hash), element("sk", KeyType::Range)],
        base_key_schema: vec![element("pk", KeyType::Hash), element("sk", KeyType::Range)],
        attribute_definitions: vec![
            def("pk", ScalarAttributeType::S),
            def("sk", ScalarAttributeType::N),
            def("g", ScalarAttributeType::S),
        ],
        has_lsi: false,
        global_secondary_indexes: vec![],
        local_secondary_indexes: vec![],
        stream_specification: None,
    }
}

fn index(kind: &str) -> IndexMeta {
    IndexMeta {
        index_name: "i".to_owned(),
        index_id: "i-1".to_owned(),
        index_type: kind.to_owned(),
        key_schema: vec![element("g", KeyType::Hash)],
        projection: Projection { projection_type: ProjectionType::All, non_key_attributes: None },
        propagation_delay_ms: None,
    }
}

#[test]
fn prefix_bounds() {
    assert_eq!(string_upper_bound("ab"), "ab\u{10FFFF}");
    assert_eq!(string_upper_bound(""), "\u{10FFFF}");
    assert_eq!(binary_upper_bound(&vec![1, 2]), Some(vec![1, 3]));
    assert_eq!(binary_upper_bound(&vec![1, 255]), Some(vec![2, 0]));
    assert_eq!(binary_upper_bound(&vec![255, 255]), None);
    assert_eq!(binary_upper_bound(&vec![]), None);
}

#[test]
fn prefix_ranges_hold_their_prefix() {
    let bound = string_upper_bound("ab");
    for x in ["ab", "abc", "ab\u{7fff}z"] {
        assert!("ab" <= x && x < bound.as_str());
    }
    for x in ["aa", "ac", "b"] {
        assert!(!("ab" <= x && x < bound.as_str()));
    }
    let low = vec![1u8, 255];
    let high = binary_upper_bound(&low).unwrap();
    assert!(low <= vec![1, 255, 9] && vec![1, 255, 9] < high);
    assert!(!(vec![2u8, 0] < high));
}

#[test]
fn operands_must_be_placeholders() {
    let value = AttributeValue::S("x".to_owned());
    assert_eq!(
        resolve_expr_to_av(KeyOperand::Placeholder(Ok(value.clone()))),
        Ok(value)
    );
    assert!(matches!(
        resolve_expr_to_av(KeyOperand::Placeholder(Err("no".to_owned()))),
        Err(StorageError::Validation(_))
    ));
    assert_eq!(
        resolve_expr_to_av(KeyOperand::Other),
        Err(StorageError::Internal("expected placeholder in key condition".to_owned()))
    );
}

#[test]
fn a_query_without_condition() {
    let st = single(&request());
    assert_eq!(
        st.cql,
        "SELECT item_data FROM ks.items_t WHERE pk = ? ORDER BY sk_s ASC LIMIT 11"
    );
    assert_eq!(st.values, vec![text("p")]);
    let mut q = request();
    q.sk = None;
    q.limit = None;
    let st = single(&q);
    assert_eq!(st.cql, "SELECT item_data FROM ks.items_t WHERE pk = ? LIMIT 1000001");
    q.limit = Some(-5);
    assert_eq!(single(&q).cql, "SELECT item_data FROM ks.items_t WHERE pk = ? LIMIT 1");
}

#[test]
fn comparisons_and_ranges() {
    for (op, sign) in [
        (CompareOp::Eq, "="),
        (CompareOp::Ne, "!="),
        (CompareOp::Lt, "<"),
        (CompareOp::Le, "<="),
        (CompareOp::Gt, ">"),
        (CompareOp::Ge, ">="),
    ] {
        let mut q = request();
        q.condition = Some(SortKeyCondition::Compare { op, value: s("v") });
        q.forward = false;
        let st = single(&q);
        assert_eq!(
            st.cql,
            format!(
                "SELECT item_data FROM ks.items_t WHERE pk = ? AND sk_s {sign} ? \
                 ORDER BY sk_s DESC LIMIT 11"
            )
        );
        assert_eq!(st.values, vec![text("p"), text("v")]);
    }
    let mut q = request();
    q.condition = Some(SortKeyCondition::Between { low: s("a"), high: s("b") });
    q.start = Some(start(Some(s("m")), None, None));
    let st = single(&q);
    assert_eq!(
        st.cql,
        "SELECT item_data FROM ks.items_t WHERE pk = ? AND sk_s >= ? AND sk_s <= ? \
         AND sk_s > ? ORDER BY sk_s ASC LIMIT 11"
    );
    assert_eq!(st.values, vec![text("p"), text("a"), text("b"), text("m")]);
    let mut q = request();
    q.condition = Some(SortKeyCondition::BeginsWith { prefix: s("ab") });
    let st = single(&q);
    assert_eq!(
        st.cql,
        "SELECT item_data FROM ks.items_t WHERE pk = ? AND sk_s >= ? AND sk_s < ? \
         ORDER BY sk_s ASC LIMIT 11"
    );
    assert_eq!(st.values, vec![text("p"), text("ab"), text("ab\u{10FFFF}")]);
}

#[test]
fn a_prefix_of_maximal_bytes_has_no_upper_clause() {
    let mut q = request();
    q.sk = Some(ScalarAttributeType::B);
    q.condition = Some(SortKeyCondition::BeginsWith { prefix: SortKeyValue::B(vec![255, 255]) });
    let st = single(&q);
    assert_eq!(
        st.cql,
        "SELECT item_data FROM ks.items_t WHERE pk = ? AND sk_b >= ? ORDER BY sk_b ASC LIMIT 11"
    );
    assert_eq!(st.values, vec![text("p"), CqlValue::Blob(vec![255, 255])]);
    q.condition = Some(SortKeyCondition::BeginsWith { prefix: SortKeyValue::B(vec![1, 255]) });
    let st = single(&q);
    assert!(st.cql.contains(" AND sk_b >= ? AND sk_b < ? "));
    let bounds = vec![CqlValue::Blob(vec![1, 255]), CqlValue::Blob(vec![2, 0])];
    assert_eq!(st.values[1..], bounds[..]);
}

#[test]
fn numbers_have_no_prefix() {
    let mut q = request();
    q.sk = Some(ScalarAttributeType::N);
    q.condition = Some(SortKeyCondition::BeginsWith { prefix: n("1") });
    assert_eq!(
        query_impl(&q).err(),
        Some(StorageError::Validation(
            "BeginsWith is not supported for numeric sort keys".to_owned()
        ))
    );
    assert!(check_sort_condition(&q).is_err());
    assert!(check_sort_condition(&request()).is_ok());
}

#[test]
fn values_of_two_types_clash() {
    let mut q = request();
    q.condition = Some(SortKeyCondition::Between { low: s("a"), high: n("1") });
    assert_eq!(
        query_impl(&q).err(),
        Some(StorageError::Internal("Type mismatch in query parameters".to_owned()))
    );
}

#[test]
fn a_table_without_sort_key_has_no_second_page() {
    let mut q = request();
    q.sk = None;
    q.start = Some(start(None, None, None));
    assert_eq!(query_impl(&q), Ok(QueryPlan::Empty));
}

#[test]
fn an_index_with_base_sort_key_takes_two_statements() {
    let mut q = request();
    q.is_index = true;
    q.is_lsi = true;
    q.base_sk = Some(ScalarAttributeType::S);
    q.start = Some(start(Some(s("m")), Some("bp"), Some(s("bs"))));
    q.forward = false;
    let (first, second) = paged(&q);
    let first = first.unwrap();
    assert_eq!(
        first.cql,
        "SELECT item_data FROM ks.items_t WHERE pk = ? AND sk_s = ? AND base_pk = ? \
         AND base_sk_s < ? ORDER BY sk_s DESC, base_pk DESC, base_sk_s DESC LIMIT 11"
    );
    assert_eq!(first.values, vec![text("p"), text("m"), text("bp"), text("bs")]);
    let second = second_query(second.unwrap(), q.limit, 4).unwrap();
    assert_eq!(
        second.cql,
        "SELECT item_data FROM ks.items_t WHERE pk = ? AND sk_s < ? \
         ORDER BY sk_s DESC, base_pk DESC, base_sk_s DESC LIMIT 7"
    );
    assert_eq!(second.values, vec![text("p"), text("m")]);
    let (_, second) = paged(&q);
    assert_eq!(second_query(second.unwrap(), q.limit, 11), None);
}

#[test]
fn an_index_without_base_sort_key() {
    let mut q = request();
    q.is_index = true;
    q.start = Some(start(Some(s("m")), Some("bp"), None));
    let (first, second) = paged(&q);
    assert_eq!(
        first.unwrap().cql,
        "SELECT item_data FROM ks.items_t WHERE pk = ? AND sk_s = ? AND base_pk > ? \
         ORDER BY sk_s ASC, base_pk ASC LIMIT 11"
    );
    assert!(second.unwrap().cql.starts_with(
        "SELECT item_data FROM ks.items_t WHERE pk = ? AND sk_s > ? \
         ORDER BY sk_s ASC, base_pk ASC LIMIT "
    ));
}

#[test]
fn a_hash_only_index_pages_by_the_base_key() {
    let mut q = request();
    q.is_index = true;
    q.sk = None;
    q.start = Some(start(None, Some("bp"), None));
    let st = single(&q);
    assert_eq!(
        st.cql,
        "SELECT item_data FROM ks.items_t WHERE pk = ? AND base_pk > ? LIMIT 11"
    );
    assert_eq!(st.values, vec![text("p"), text("bp")]);
    q.start = Some(start(None, None, None));
    assert_eq!(query_impl(&q), Ok(QueryPlan::Empty));
    q.base_sk = Some(ScalarAttributeType::S);
    q.start = Some(start(None, Some("bp"), Some(s("bs"))));
    let (first, second) = paged(&q);
    assert_eq!(
        first.unwrap().cql,
        "SELECT item_data FROM ks.items_t WHERE pk = ? AND base_pk = ? AND base_sk_s > ? \
         ORDER BY base_pk ASC, base_sk_s ASC LIMIT 11"
    );
    assert_eq!(second, None);
}

#[test]
fn targets_and_start_keys() {
    let info = key_info();
    let base = resolve_target(&info, None);
    assert_eq!(base.table, "items_t_1");
    assert_eq!(base.sk, Some(("sk".to_owned(), ScalarAttributeType::N)));
    assert_eq!(base.base_sk, None);
    let idx = resolve_target(&info, Some(&index("LSI")));
    assert_eq!(idx.table, "index_i_1");
    assert!(idx.is_index && idx.is_lsi);
    assert_eq!(idx.sk, None);
    assert_eq!(idx.base_sk, Some(("sk".to_owned(), ScalarAttributeType::N)));
    assert!(!resolve_target(&info, Some(&index("GSI"))).is_lsi);
    let mut key = Item::new();
    key.insert("pk".to_owned(), AttributeValue::S("p".to_owned()));
    key.insert("sk".to_owned(), AttributeValue::N("7".to_owned()));
    let attrs = start_attributes(&info, &base, &key);
    assert_eq!(attrs.sk, Some(AttributeValue::N("7".to_owned())));
    assert_eq!(attrs.base_pk, None);
    let attrs = start_attributes(&info, &idx, &key);
    assert_eq!(attrs.sk, None);
    assert_eq!(attrs.base_pk, Some(AttributeValue::S("p".to_owned())));
    assert_eq!(attrs.base_sk, Some(AttributeValue::N("7".to_owned())));
}

fn numbered(count: usize) -> Vec<Item> {
    let mut out = Vec::new();
    for i in 0..count {
        let mut it = Item::new();
        it.insert("i".to_owned(), AttributeValue::N(format!("{i}")));
        out.push(it);
    }
    out
}

#[test]
fn pages_are_cut_at_the_limit() {
    let page = finish_page(numbered(3), Some(2));
    assert_eq!(page.items.len(), 2);
    assert!(page.resume_after.unwrap().same(&numbered(2)[1]));
    let page = finish_page(numbered(2), Some(2));
    assert_eq!(page.items.len(), 2);
    assert!(page.resume_after.is_none());
    let page = finish_page(numbered(2), Some(0));
    assert!(page.items.is_empty());
    assert!(page.resume_after.is_none());
    assert_eq!(page_limit(None), 1_000_000);
    assert_eq!(page_limit(Some(-1)), 0);
}

#[test]
fn segments_split_the_ring() {
    assert_eq!(segment_token_bounds(None, None), None);
    assert_eq!(segment_token_bounds(Some(0), Some(1)), None);
    assert_eq!(segment_token_bounds(Some(4), Some(4)), None);
    assert_eq!(segment_token_bounds(Some(-1), Some(4)), None);
    assert_eq!(segment_token_bounds(Some(0), Some(2)), Some((i64::MIN, -1)));
    assert_eq!(segment_token_bounds(Some(1), Some(2)), Some((0, i64::MAX)));
    let mut next = i64::MIN as i128;
    for k in 0..7 {
        let (lo, hi) = segment_token_bounds(Some(k), Some(7)).unwrap();
        assert_eq!(lo as i128, next);
        next = hi as i128 + 1;
    }
    assert_eq!(next, i64::MAX as i128 + 1);
}

#[test]
fn first_pages_of_a_scan() {
    let whole = first_page("ks", "items_t", None, None, Some(5));
    assert_eq!(whole.cql, "SELECT item_data FROM ks.items_t LIMIT 6");
    assert!(whole.values.is_empty());
    let half = first_page("ks", "items_t", Some(1), Some(2), None);
    assert_eq!(
        half.cql,
        "SELECT item_data FROM ks.items_t WHERE token(pk) >= ? AND token(pk) <= ? LIMIT 1000001"
    );
    assert_eq!(half.values, vec![CqlValue::BigInt(0), CqlValue::BigInt(i64::MAX)]);
}

#[test]
fn clustering_comparisons() {
    let one = vec!["a".to_owned()];
    assert_eq!(format_clustering_comparison(&one), "a > ?");
    let three = vec!["a".to_owned(), "b".to_owned(), "c".to_owned()];
    assert_eq!(format_clustering_comparison(&three), "(a, b, c) > (?, ?, ?)");
}

fn bind(v: SortKeyValue) -> SortKeyBind {
    SortKeyBind { sk_type: v.scalar_type(), value: v }
}

#[test]
fn a_scan_resumes_in_its_partition() {
    let table = ResumeKey::Table { sk: Some(bind(n("7"))) };
    let st = finish_partition("ks", "items_t", "p", &table, Some(5)).unwrap();
    assert_eq!(
        st.cql,
        "SELECT item_data FROM ks.items_t WHERE pk = ? AND sk_n > ? LIMIT 6"
    );
    assert_eq!(
        st.values,
        vec![text("p"), CqlValue::Decimal { unscaled: "7".to_owned(), scale: 0 }]
    );
    assert!(build_resume_clustering(&ResumeKey::Table { sk: None }).is_none());
    let idx = ResumeKey::Index {
        sk: Some(bind(s("m"))),
        base_pk: "bp".to_owned(),
        base_sk: Some(bind(s("bs"))),
    };
    let (predicate, values) = build_resume_clustering(&idx).unwrap();
    assert_eq!(predicate, "(sk_s, base_pk, base_sk_s) > (?, ?, ?)");
    assert_eq!(values, vec![text("m"), text("bp"), text("bs")]);
    let hash_only = ResumeKey::Index { sk: None, base_pk: "bp".to_owned(), base_sk: None };
    assert_eq!(build_resume_clustering(&hash_only).unwrap().0, "base_pk > ?");
}

#[test]
fn a_scan_goes_on_with_later_partitions() {
    let st = next_partitions("ks", "items_t", "p", None, None, Some(5), 2).unwrap();
    assert_eq!(
        st.cql,
        "SELECT item_data FROM ks.items_t WHERE token(pk) > token(?) LIMIT 4"
    );
    assert_eq!(st.values, vec![text("p")]);
    let st = next_partitions("ks", "items_t", "p", Some(0), Some(2), Some(5), 0).unwrap();
    assert_eq!(
        st.cql,
        "SELECT item_data FROM ks.items_t WHERE token(pk) > token(?) AND token(pk) <= ? LIMIT 6"
    );
    assert_eq!(st.values, vec![text("p"), CqlValue::BigInt(-1)]);
    assert!(next_partitions("ks", "items_t", "p", None, None, Some(5), 6).is_none());
}

#[test]
fn start_keys_need_their_sort_key() {
    let empty = Item::new();
    let sk = Some(("sk", ScalarAttributeType::N));
    assert_eq!(
        start_sort_key(sk, false, &empty).err(),
        Some(StorageError::Validation(
            "The provided starting key is invalid: missing sort key".to_owned()
        ))
    );
    assert_eq!(
        start_sort_key(sk, true, &empty).err(),
        Some(StorageError::Validation(
            "The provided starting key is invalid: missing index sort key".to_owned()
        ))
    );
    assert!(matches!(start_sort_key(None, true, &empty), Ok(StartSortKey::Absent)));
    let mut key = Item::new();
    key.insert("sk".to_owned(), AttributeValue::N("7".to_owned()));
    assert!(matches!(
        start_sort_key(sk, false, &key),
        Ok(StartSortKey::Attribute(AttributeValue::N(_), ScalarAttributeType::N))
    ));
}
