//! Names and DDL of the per-table data tables, and the table metadata that data
//! operations start from.
use vstd::prelude::*;
use crate::engine::CassandraEngine;
use crate::cql::{sk_col, sk_col_n, sk_column, sk_column_n, stmt, stmt0, stmt2, text_value, CqlView, Statement, StatementView};
use crate::data::index::IndexMeta;
use crate::error::{is_internal, StorageError};
use crate::model::{
    clone_schema, AttributeDefinition, IndexInfo, IndexType, KeySchemaElement, KeyType,
    ScalarAttributeType, TableKeyInfo,
};
use crate::text::{
    cat2, cat3, cat4, cat5, cat7, cat9, join, joined, nat_text, push_text, replace_char, replaced,
    str_eq, u64_text, views,
};
use crate::command::{columns_of, lemma_joined_2, lemma_joined_push};
use crate::data::base_row::RowKey;
use crate::data::index::{index_slots, IndexRowKey};
use crate::data::row_laws::key_slots;

verus! {

/// The name of the data table of a table.
pub open spec fn data_table(table_id: Seq<char>) -> Seq<char> {
    "items_"@ + replaced(table_id, '-', '_')
}

/// The name of the data table of an index.
pub open spec fn index_table(index_id: Seq<char>) -> Seq<char> {
    "index_"@ + replaced(index_id, '-', '_')
}

/// CQL table name for a DynamoDB table in an account keyspace.
pub fn data_table_name(table_id: &str) -> (r: String)
    ensures
        r@ == data_table(table_id@),
{
    cat2("items_", replace_char(table_id, '-', '_').as_str())
}

/// CQL table name for a GSI/LSI data table.
pub fn index_table_name(index_id: &str) -> (r: String)
    ensures
        r@ == index_table(index_id@),
{
    cat2("index_", replace_char(index_id, '-', '_').as_str())
}

/// Table names hold no hyphen, and no data table shares its name with an index
/// table.
pub proof fn law_table_names(table_id: Seq<char>, index_id: Seq<char>)
    ensures
        !data_table(table_id).contains('-'),
        !index_table(index_id).contains('-'),
        data_table(table_id) != index_table(index_id),
{
    reveal_strlit("items_");
    reveal_strlit("index_");
    assert(data_table(table_id)[1] == 't');
    assert(index_table(index_id)[1] == 'n');
}

proof fn lemma_prefixed_injective(p: Seq<char>, a: Seq<char>, b: Seq<char>)
    ensures
        p + replaced(a, '-', '_') == p + replaced(b, '-', '_') <==> replaced(a, '-', '_')
            == replaced(b, '-', '_'),
        !a.contains('_') && !b.contains('_') && p + replaced(a, '-', '_') == p + replaced(
            b,
            '-',
            '_',
        ) ==> a == b,
{
    let ra = replaced(a, '-', '_');
    let rb = replaced(b, '-', '_');
    if p + ra == p + rb {
        assert((p + ra).len() == (p + rb).len());
        assert forall|i: int| 0 <= i < ra.len() implies ra[i] == rb[i] by {
            assert((p + ra)[p.len() + i] == (p + rb)[p.len() + i]);
        }
        assert(ra =~= rb);
        if !a.contains('_') && !b.contains('_') {
            assert forall|i: int| 0 <= i < a.len() implies a[i] == b[i] by {
                assert(ra[i] == rb[i]);
                assert(a.contains(a[i]) && b.contains(b[i]));
            }
            assert(a =~= b);
        }
    }
}

/// Two tables share a data table name exactly where their ids differ in nothing
/// but hyphens against underscores.
pub proof fn law_data_table_injective(a: Seq<char>, b: Seq<char>)
    ensures
        data_table(a) == data_table(b) <==> replaced(a, '-', '_') == replaced(b, '-', '_'),
        !a.contains('_') && !b.contains('_') && data_table(a) == data_table(b) ==> a == b,
{
    lemma_prefixed_injective("items_"@, a, b);
}

/// Two indexes share a data table name exactly where their ids differ in nothing
/// but hyphens against underscores.
pub proof fn law_index_table_injective(a: Seq<char>, b: Seq<char>)
    ensures
        index_table(a) == index_table(b) <==> replaced(a, '-', '_') == replaced(b, '-', '_'),
        !a.contains('_') && !b.contains('_') && index_table(a) == index_table(b) ==> a == b,
{
    lemma_prefixed_injective("index_"@, a, b);
}

/// The declared type of an attribute: its first definition.
pub open spec fn def_type(defs: Seq<AttributeDefinition>, name: Seq<char>) -> Option<
    ScalarAttributeType,
>
    decreases defs.len(),
{
    if defs.len() == 0 {
        None
    } else if defs[0].attribute_name@ == name {
        Some(defs[0].attribute_type)
    } else {
        def_type(defs.drop_first(), name)
    }
}

/// The declared type of an attribute.
pub fn find_def(defs: &[AttributeDefinition], name: &str) -> (r: Option<ScalarAttributeType>)
    ensures
        r == def_type(defs@, name@),
{
    let mut i: usize = 0;
    proof {
        assert(defs@.skip(0) =~= defs@);
    }
    while i < defs.len()
        invariant
            i <= defs@.len(),
            def_type(defs@, name@) == def_type(defs@.skip(i as int), name@),
        decreases defs@.len() - i,
    {
        if str_eq(defs[i].attribute_name.as_str(), name) {
            return Some(defs[i].attribute_type);
        }
        proof {
            assert(defs@.skip(i as int).drop_first() =~= defs@.skip(i + 1));
        }
        i = i + 1;
    }
    None
}

/// The sort keys of a schema: its RANGE elements that have a definition, in
/// order.
pub open spec fn sort_keys(schema: Seq<KeySchemaElement>, defs: Seq<AttributeDefinition>) -> Seq<
    (Seq<char>, ScalarAttributeType),
>
    decreases schema.len(),
{
    if schema.len() == 0 {
        Seq::empty()
    } else {
        let rest = sort_keys(schema.drop_last(), defs);
        let last = schema.last();
        match (last.key_type, def_type(defs, last.attribute_name@)) {
            (KeyType::Range, Some(t)) => rest.push((last.attribute_name@, t)),
            _ => rest,
        }
    }
}

/// Sort keys, each name by its characters.
pub open spec fn keys_view(v: Seq<(&str, ScalarAttributeType)>) -> Seq<
    (Seq<char>, ScalarAttributeType),
> {
    v.map_values(|k: (&str, ScalarAttributeType)| (k.0@, k.1))
}

/// Look up all RANGE key attribute definitions from the key schema (preserving order).
pub fn all_sort_key_info<'a>(
    key_schema: &'a [KeySchemaElement],
    attr_defs: &'a [AttributeDefinition],
) -> (r: Vec<(&'a str, ScalarAttributeType)>)
    ensures
        keys_view(r@) == sort_keys(key_schema@, attr_defs@),
        r@.len() <= key_schema@.len(),
{
    let mut out: Vec<(&'a str, ScalarAttributeType)> = Vec::new();
    let mut i: usize = 0;
    proof {
        assert(keys_view(out@) =~= sort_keys(key_schema@.take(0), attr_defs@));
    }
    while i < key_schema.len()
        invariant
            i <= key_schema@.len(),
            out@.len() <= i,
            keys_view(out@) == sort_keys(key_schema@.take(i as int), attr_defs@),
        decreases key_schema@.len() - i,
    {
        let ghost before = out@;
        if key_schema[i].key_type == KeyType::Range {
            match find_def(attr_defs, key_schema[i].attribute_name.as_str()) {
                Some(t) => {
                    out.push((key_schema[i].attribute_name.as_str(), t));
                },
                None => {},
            }
        }
        i = i + 1;
        proof {
            assert(key_schema@.take(i as int).drop_last() =~= key_schema@.take(i - 1));
            assert(keys_view(out@) =~= sort_keys(key_schema@.take(i as int), attr_defs@));
        }
    }
    proof {
        assert(key_schema@.take(i as int) =~= key_schema@);
    }
    out
}

/// The first RANGE element of a schema, with the type of its attribute: `None`
/// where there is none or it has no definition.
pub open spec fn first_sort_key(
    schema: Seq<KeySchemaElement>,
    defs: Seq<AttributeDefinition>,
) -> Option<(Seq<char>, ScalarAttributeType)>
    decreases schema.len(),
{
    if schema.len() == 0 {
        None
    } else if schema[0].key_type == KeyType::Range {
        match def_type(defs, schema[0].attribute_name@) {
            Some(t) => Some((schema[0].attribute_name@, t)),
            None => None,
        }
    } else {
        first_sort_key(schema.drop_first(), defs)
    }
}

/// The sort key of a schema.
pub fn sk_info(key_schema: &[KeySchemaElement], attr_defs: &[AttributeDefinition]) -> (r: Option<
    (String, ScalarAttributeType),
>)
    ensures
        match r {
            Some((name, t)) => first_sort_key(key_schema@, attr_defs@) == Some((name@, t)),
            None => first_sort_key(key_schema@, attr_defs@) is None,
        },
{
    let mut i: usize = 0;
    proof {
        assert(key_schema@.skip(0) =~= key_schema@);
    }
    while i < key_schema.len()
        invariant
            i <= key_schema@.len(),
            first_sort_key(key_schema@, attr_defs@) == first_sort_key(
                key_schema@.skip(i as int),
                attr_defs@,
            ),
        decreases key_schema@.len() - i,
    {
        if key_schema[i].key_type == KeyType::Range {
            return match find_def(attr_defs, key_schema[i].attribute_name.as_str()) {
                Some(t) => Some((key_schema[i].attribute_name.clone(), t)),
                None => None,
            };
        }
        proof {
            assert(key_schema@.skip(i as int).drop_first() =~= key_schema@.skip(i + 1));
        }
        i = i + 1;
    }
    None
}

/// The three column definitions of the sort key at position `i`.
pub open spec fn position_defs(prefix: Seq<char>, i: nat) -> Seq<Seq<char>> {
    if i == 0 {
        seq![prefix + "sk_s text"@, prefix + "sk_n decimal"@, prefix + "sk_b blob"@]
    } else {
        seq![
            prefix + "sk"@ + nat_text(i + 1) + "_s text"@,
            prefix + "sk"@ + nat_text(i + 1) + "_n decimal"@,
            prefix + "sk"@ + nat_text(i + 1) + "_b blob"@,
        ]
    }
}

/// The column definitions of `n` sort keys.
pub open spec fn sk_defs(prefix: Seq<char>, n: nat) -> Seq<Seq<char>>
    decreases n,
{
    if n == 0 {
        Seq::empty()
    } else {
        sk_defs(prefix, (n - 1) as nat) + position_defs(prefix, (n - 1) as nat)
    }
}

/// The key columns of a list of sort keys.
pub open spec fn sk_cols(prefix: Seq<char>, keys: Seq<(Seq<char>, ScalarAttributeType)>) -> Seq<
    Seq<char>,
> {
    Seq::new(keys.len(), |i: int| prefix + sk_col_n(i as nat, keys[i].1))
}

fn push_sk_defs(out: &mut Vec<String>, prefix: &str, n: usize)
    ensures
        views(final(out)@) == views(old(out)@) + sk_defs(prefix@, n as nat),
{
    let ghost start = views(out@);
    let mut i: usize = 0;
    proof {
        assert(start + sk_defs(prefix@, 0) =~= start);
    }
    while i < n
        invariant
            i <= n,
            views(out@) == start + sk_defs(prefix@, i as nat),
        decreases n - i,
    {
        let ghost before = views(out@);
        if i == 0 {
            push_text(out, cat2(prefix, "sk_s text"));
            push_text(out, cat2(prefix, "sk_n decimal"));
            push_text(out, cat2(prefix, "sk_b blob"));
        } else {
            let number = u64_text((i + 1) as u64);
            push_text(out, cat4(prefix, "sk", number.as_str(), "_s text"));
            push_text(out, cat4(prefix, "sk", number.as_str(), "_n decimal"));
            push_text(out, cat4(prefix, "sk", number.as_str(), "_b blob"));
        }
        proof {
            assert(views(out@) =~= before + position_defs(prefix@, i as nat));
            assert(before + position_defs(prefix@, i as nat) =~= start + sk_defs(
                prefix@,
                (i + 1) as nat,
            ));
        }
        i = i + 1;
    }
}

fn push_sk_cols(out: &mut Vec<String>, prefix: &str, keys: &Vec<(&str, ScalarAttributeType)>)
    ensures
        views(final(out)@) == views(old(out)@) + sk_cols(prefix@, keys_view(keys@)),
{
    let ghost start = views(out@);
    let ghost cols = sk_cols(prefix@, keys_view(keys@));
    let mut i: usize = 0;
    proof {
        assert(start + cols.take(0) =~= start);
    }
    while i < keys.len()
        invariant
            i <= keys@.len(),
            cols == sk_cols(prefix@, keys_view(keys@)),
            views(out@) == start + cols.take(i as int),
        decreases keys@.len() - i,
    {
        push_text(out, cat2(prefix, sk_column_n(i, keys[i].1).as_str()));
        i = i + 1;
        proof {
            assert(views(out@) =~= start + cols.take(i as int));
        }
    }
    proof {
        assert(cols.take(i as int) =~= cols);
    }
}

/// The columns of a data table that do not belong to its key.
pub open spec fn tail_columns() -> Seq<Seq<char>> {
    seq![
        "partition_max_delete_timestamp bigint STATIC"@,
        "item_data text"@,
        "prepared_txn_id uuid"@,
        "prepared_txn_timestamp bigint"@,
        "last_committed_txn_timestamp bigint"@,
        "created_to_prepare boolean"@,
    ]
}

/// The statement that creates the data table of a table with the given sort keys.
pub open spec fn create_data_table_cql(
    keyspace: Seq<char>,
    table_id: Seq<char>,
    keys: Seq<(Seq<char>, ScalarAttributeType)>,
) -> Seq<char> {
    if keys.len() == 0 {
        "CREATE TABLE "@ + keyspace + "."@ + data_table(table_id)
            + " (pk text PRIMARY KEY, partition_max_delete_timestamp bigint, item_data text, prepared_txn_id uuid, prepared_txn_timestamp bigint, last_committed_txn_timestamp bigint, created_to_prepare boolean)"@
    } else if keys.len() == 1 {
        "CREATE TABLE "@ + keyspace + "."@ + data_table(table_id)
            + " (pk text, partition_max_delete_timestamp bigint STATIC, sk_s text, sk_n decimal, sk_b blob, item_data text, prepared_txn_id uuid, prepared_txn_timestamp bigint, last_committed_txn_timestamp bigint, created_to_prepare boolean, PRIMARY KEY (pk, "@
            + sk_col(keys[0].1) + "))"@
    } else {
        "CREATE TABLE "@ + keyspace + "."@ + data_table(table_id) + " ("@ + joined(
            seq!["pk text"@] + sk_defs(""@, keys.len()) + tail_columns(),
            ", "@,
        ) + ", PRIMARY KEY ("@ + joined(seq!["pk"@] + sk_cols(""@, keys), ", "@) + "))"@
    }
}

/// The statement that creates the per-table data table. Its shape follows the
/// key schema: no, one or several sort keys.
pub fn create_data_table(
    account_keyspace: &str,
    table_id: &str,
    key_schema: &[KeySchemaElement],
    attr_defs: &[AttributeDefinition],
) -> (r: Statement)
    ensures
        r@ == stmt(
            create_data_table_cql(
                account_keyspace@,
                table_id@,
                sort_keys(key_schema@, attr_defs@),
            ),
            seq![],
        ),
{
    let table = data_table_name(table_id);
    let keys = all_sort_key_info(key_schema, attr_defs);
    if keys.len() == 0 {
        stmt0(
            cat5(
                "CREATE TABLE ",
                account_keyspace,
                ".",
                table.as_str(),
                " (pk text PRIMARY KEY, partition_max_delete_timestamp bigint, item_data text, prepared_txn_id uuid, prepared_txn_timestamp bigint, last_committed_txn_timestamp bigint, created_to_prepare boolean)",
            ),
        )
    } else if keys.len() == 1 {
        stmt0(
            cat7(
                "CREATE TABLE ",
                account_keyspace,
                ".",
                table.as_str(),
                " (pk text, partition_max_delete_timestamp bigint STATIC, sk_s text, sk_n decimal, sk_b blob, item_data text, prepared_txn_id uuid, prepared_txn_timestamp bigint, last_committed_txn_timestamp bigint, created_to_prepare boolean, PRIMARY KEY (pk, ",
                sk_column(keys[0].1),
                "))",
            ),
        )
    } else {
        let mut columns: Vec<String> = Vec::new();
        push_text(&mut columns, "pk text".to_owned());
        push_sk_defs(&mut columns, "", keys.len());
        let ghost head = views(columns@);
        push_text(&mut columns, "partition_max_delete_timestamp bigint STATIC".to_owned());
        push_text(&mut columns, "item_data text".to_owned());
        push_text(&mut columns, "prepared_txn_id uuid".to_owned());
        push_text(&mut columns, "prepared_txn_timestamp bigint".to_owned());
        push_text(&mut columns, "last_committed_txn_timestamp bigint".to_owned());
        push_text(&mut columns, "created_to_prepare boolean".to_owned());
        let mut key_columns: Vec<String> = Vec::new();
        push_text(&mut key_columns, "pk".to_owned());
        push_sk_cols(&mut key_columns, "", &keys);
        proof {
            assert(head =~= seq!["pk text"@] + sk_defs(""@, keys@.len()));
            assert(views(columns@) =~= head + tail_columns());
            assert(views(key_columns@) =~= seq!["pk"@] + sk_cols(""@, keys_view(keys@)));
        }
        stmt0(
            cat9(
                "CREATE TABLE ",
                account_keyspace,
                ".",
                table.as_str(),
                " (",
                join(&columns, ", ").as_str(),
                ", PRIMARY KEY (",
                join(&key_columns, ", ").as_str(),
                "))",
            ),
        )
    }
}

/// The statement that drops the per-table data table.
pub fn drop_data_table(account_keyspace: &str, table_id: &str) -> (r: Statement)
    ensures
        r@ == stmt(
            "DROP TABLE IF EXISTS "@ + account_keyspace@ + "."@ + data_table(table_id@),
            seq![],
        ),
{
    stmt0(
        cat4("DROP TABLE IF EXISTS ", account_keyspace, ".", data_table_name(table_id).as_str()),
    )
}

/// What `drop_index_data_table` returns.
pub open spec fn drop_index_stmt(account_keyspace: Seq<char>, index_id: Seq<char>) -> StatementView {
    stmt("DROP TABLE IF EXISTS "@ + account_keyspace + "."@ + index_table(index_id), seq![])
}

impl CassandraEngine {
    /// The statement that drops a GSI/LSI data table.
    pub fn drop_index_data_table(account_keyspace: &str, index_id: &str) -> (r: Statement)
        ensures
            r@ == drop_index_stmt(account_keyspace@, index_id@),
    {
        stmt0(
            cat4("DROP TABLE IF EXISTS ", account_keyspace, ".", index_table_name(index_id).as_str()),
        )
    }
}

/// The statement that creates the data table of an index with the given sort keys,
/// on a table with the given sort keys.
pub open spec fn create_index_stmt(
    keyspace: Seq<char>,
    index_id: Seq<char>,
    idx: Seq<(Seq<char>, ScalarAttributeType)>,
    base: Seq<(Seq<char>, ScalarAttributeType)>,
) -> StatementView {
    stmt(
        "CREATE TABLE "@ + keyspace + "."@ + index_table(index_id) + " ("@ + joined(
            seq!["pk text"@] + sk_defs(""@, idx.len()) + seq!["base_pk text"@] + sk_defs(
                "base_"@,
                base.len(),
            ) + seq!["item_data text"@],
            ", "@,
        ) + ", PRIMARY KEY ((pk), "@ + joined(
            sk_cols(""@, idx) + seq!["base_pk"@] + sk_cols("base_"@, base),
            ", "@,
        ) + "))"@,
        seq![],
    )
}

impl CassandraEngine {
    /// The statement that creates a GSI/LSI data table: partition key `pk`, then the
    /// index sort keys, the base partition key and the base sort keys as clustering
    /// columns.
    pub fn create_index_data_table(
        account_keyspace: &str,
        index_id: &str,
        index_key_schema: &[KeySchemaElement],
        attr_defs: &[AttributeDefinition],
        base_key_schema: &[KeySchemaElement],
        base_attr_defs: &[AttributeDefinition],
    ) -> (r: Statement)
        ensures
            r@ == create_index_stmt(
                account_keyspace@,
                index_id@,
                sort_keys(index_key_schema@, attr_defs@),
                sort_keys(base_key_schema@, base_attr_defs@),
            ),
    {
        let table = index_table_name(index_id);
        let base_keys = all_sort_key_info(base_key_schema, base_attr_defs);
        let index_keys = all_sort_key_info(index_key_schema, attr_defs);
        let ghost idx = sort_keys(index_key_schema@, attr_defs@);
        let ghost base = sort_keys(base_key_schema@, base_attr_defs@);
        let mut columns: Vec<String> = Vec::new();
        push_text(&mut columns, "pk text".to_owned());
        push_sk_defs(&mut columns, "", index_keys.len());
        push_text(&mut columns, "base_pk text".to_owned());
        push_sk_defs(&mut columns, "base_", base_keys.len());
        push_text(&mut columns, "item_data text".to_owned());
        let mut clustering: Vec<String> = Vec::new();
        push_sk_cols(&mut clustering, "", &index_keys);
        push_text(&mut clustering, "base_pk".to_owned());
        push_sk_cols(&mut clustering, "base_", &base_keys);
        proof {
            assert(idx.len() == index_keys@.len() && base.len() == base_keys@.len());
            assert(views(columns@) =~= seq!["pk text"@] + sk_defs(""@, idx.len())
                + seq!["base_pk text"@] + sk_defs("base_"@, base.len()) + seq!["item_data text"@]);
            assert(views(clustering@) =~= sk_cols(""@, idx) + seq!["base_pk"@] + sk_cols(
                "base_"@,
                base,
            ));
        }
        stmt0(
            cat9(
                "CREATE TABLE ",
                account_keyspace,
                ".",
                table.as_str(),
                " (",
                join(&columns, ", ").as_str(),
                ", PRIMARY KEY ((pk), ",
                join(&clustering, ", ").as_str(),
                "))",
            ),
        )
    }
}

/// A column of a table: its name, its type, and whether the rows of a partition share
/// its value.
pub struct ColumnDef {
    pub name: Seq<char>,
    pub cql_type: Seq<char>,
    pub is_static: bool,
}

/// A column definition.
pub open spec fn column_def(name: Seq<char>, cql_type: Seq<char>, is_static: bool) -> ColumnDef {
    ColumnDef { name, cql_type, is_static }
}

/// The ways to write a primary key: behind its only column, as a list whose first
/// column is the partition column, or with the partition column in brackets.
pub enum KeyStyle {
    Inline,
    Plain,
    Nested,
}

/// The creation of a table: its columns, the column that rows are partitioned by, and
/// the columns that the rows of a partition are told apart and ordered by.
pub struct Creation {
    pub target: Seq<char>,
    pub columns: Seq<ColumnDef>,
    pub partition: Seq<char>,
    pub clustering: Seq<Seq<char>>,
    pub style: KeyStyle,
}

/// How a column definition is written.
pub open spec fn def_text(d: ColumnDef) -> Seq<char> {
    d.name + " "@ + d.cql_type + if d.is_static {
        " STATIC"@
    } else {
        Seq::empty()
    }
}

/// How column definitions are written.
pub open spec fn def_texts(columns: Seq<ColumnDef>) -> Seq<Seq<char>> {
    columns.map_values(|d: ColumnDef| def_text(d))
}

/// How the creation of a table is written. A table with its primary key behind a column
/// has that column first.
pub open spec fn creation_text(c: Creation) -> Seq<char> {
    let head = "CREATE TABLE "@ + c.target + " ("@;
    match c.style {
        KeyStyle::Inline => head + joined(
            seq![c.partition + " "@ + c.columns[0].cql_type + " PRIMARY KEY"@] + def_texts(
                c.columns.drop_first(),
            ),
            ", "@,
        ) + ")"@,
        KeyStyle::Plain => head + joined(def_texts(c.columns), ", "@) + ", PRIMARY KEY ("@
            + joined(seq![c.partition] + c.clustering, ", "@) + "))"@,
        KeyStyle::Nested => head + joined(def_texts(c.columns), ", "@) + ", PRIMARY KEY (("@
            + c.partition + "), "@ + joined(c.clustering, ", "@) + "))"@,
    }
}

/// The type of the column that holds keys of a type.
pub open spec fn key_cql_type(t: ScalarAttributeType) -> Seq<char> {
    match t {
        ScalarAttributeType::S => "text"@,
        ScalarAttributeType::N => "decimal"@,
        ScalarAttributeType::B => "blob"@,
    }
}

/// The columns of the sort key at a position, one for each type.
pub open spec fn position_columns(prefix: Seq<char>, i: nat) -> Seq<ColumnDef> {
    seq![
        column_def(prefix + sk_col_n(i, ScalarAttributeType::S), "text"@, false),
        column_def(prefix + sk_col_n(i, ScalarAttributeType::N), "decimal"@, false),
        column_def(prefix + sk_col_n(i, ScalarAttributeType::B), "blob"@, false),
    ]
}

/// The columns of `n` sort keys.
pub open spec fn sort_columns(prefix: Seq<char>, n: nat) -> Seq<ColumnDef>
    decreases n,
{
    if n == 0 {
        Seq::empty()
    } else {
        sort_columns(prefix, (n - 1) as nat) + position_columns(prefix, (n - 1) as nat)
    }
}

/// The columns of a data table that hold the item and its marks.
pub open spec fn item_columns() -> Seq<ColumnDef> {
    seq![
        column_def("item_data"@, "text"@, false),
        column_def("prepared_txn_id"@, "uuid"@, false),
        column_def("prepared_txn_timestamp"@, "bigint"@, false),
        column_def("last_committed_txn_timestamp"@, "bigint"@, false),
        column_def("created_to_prepare"@, "boolean"@, false),
    ]
}

/// The creation of the data table of a table with the given sort keys.
pub open spec fn data_creation(
    keyspace: Seq<char>,
    table_id: Seq<char>,
    keys: Seq<(Seq<char>, ScalarAttributeType)>,
) -> Creation {
    let pk = seq![column_def("pk"@, "text"@, false)];
    let deleted = seq![
        column_def("partition_max_delete_timestamp"@, "bigint"@, keys.len() > 0),
    ];
    Creation {
        target: keyspace + "."@ + data_table(table_id),
        columns: if keys.len() <= 1 {
            pk + deleted + sort_columns(Seq::empty(), keys.len()) + item_columns()
        } else {
            pk + sort_columns(Seq::empty(), keys.len()) + deleted + item_columns()
        },
        partition: "pk"@,
        clustering: sk_cols(Seq::empty(), keys),
        style: if keys.len() == 0 {
            KeyStyle::Inline
        } else {
            KeyStyle::Plain
        },
    }
}

/// The creation of the data table of an index with the given sort keys, on a table with
/// the given sort keys.
pub open spec fn index_creation(
    keyspace: Seq<char>,
    index_id: Seq<char>,
    idx: Seq<(Seq<char>, ScalarAttributeType)>,
    base: Seq<(Seq<char>, ScalarAttributeType)>,
) -> Creation {
    Creation {
        target: keyspace + "."@ + index_table(index_id),
        columns: seq![column_def("pk"@, "text"@, false)] + sort_columns(Seq::empty(), idx.len())
            + seq![column_def("base_pk"@, "text"@, false)] + sort_columns("base_"@, base.len())
            + seq![column_def("item_data"@, "text"@, false)],
        partition: "pk"@,
        clustering: sk_cols(Seq::empty(), idx) + seq!["base_pk"@] + sk_cols("base_"@, base),
        style: KeyStyle::Nested,
    }
}

#[verifier::rlimit(40)]
proof fn lemma_def_texts()
    ensures
        def_text(column_def("pk"@, "text"@, false)) == "pk text"@,
        def_text(column_def("partition_max_delete_timestamp"@, "bigint"@, true)) == "partition_max_delete_timestamp bigint STATIC"@,
        def_text(column_def("item_data"@, "text"@, false)) == "item_data text"@,
        def_text(column_def("prepared_txn_id"@, "uuid"@, false)) == "prepared_txn_id uuid"@,
        def_text(column_def("prepared_txn_timestamp"@, "bigint"@, false)) == "prepared_txn_timestamp bigint"@,
        def_text(column_def("last_committed_txn_timestamp"@, "bigint"@, false)) == "last_committed_txn_timestamp bigint"@,
        def_text(column_def("created_to_prepare"@, "boolean"@, false)) == "created_to_prepare boolean"@,
        def_text(column_def("base_pk"@, "text"@, false)) == "base_pk text"@,
        def_text(column_def("partition_max_delete_timestamp"@, "bigint"@, false)) == "partition_max_delete_timestamp bigint"@,
{
    reveal_strlit("base_pk");
    reveal_strlit("bigint");
    reveal_strlit("boolean");
    reveal_strlit("created_to_prepare");
    reveal_strlit("item_data");
    reveal_strlit("last_committed_txn_timestamp");
    reveal_strlit("partition_max_delete_timestamp");
    reveal_strlit("pk");
    reveal_strlit("prepared_txn_id");
    reveal_strlit("prepared_txn_timestamp");
    reveal_strlit("text");
    reveal_strlit("uuid");
    reveal_strlit("pk text");
    reveal_strlit("partition_max_delete_timestamp bigint STATIC");
    reveal_strlit("item_data text");
    reveal_strlit("prepared_txn_id uuid");
    reveal_strlit("prepared_txn_timestamp bigint");
    reveal_strlit("last_committed_txn_timestamp bigint");
    reveal_strlit("created_to_prepare boolean");
    reveal_strlit("base_pk text");
    reveal_strlit("partition_max_delete_timestamp bigint");
    reveal_strlit(" ");
    reveal_strlit(" STATIC");
    assert(def_text(column_def("pk"@, "text"@, false)) =~= "pk text"@);
    assert(def_text(column_def("partition_max_delete_timestamp"@, "bigint"@, true)) =~= "partition_max_delete_timestamp bigint STATIC"@);
    assert(def_text(column_def("item_data"@, "text"@, false)) =~= "item_data text"@);
    assert(def_text(column_def("prepared_txn_id"@, "uuid"@, false)) =~= "prepared_txn_id uuid"@);
    assert(def_text(column_def("prepared_txn_timestamp"@, "bigint"@, false)) =~= "prepared_txn_timestamp bigint"@);
    assert(def_text(column_def("last_committed_txn_timestamp"@, "bigint"@, false)) =~= "last_committed_txn_timestamp bigint"@);
    assert(def_text(column_def("created_to_prepare"@, "boolean"@, false)) =~= "created_to_prepare boolean"@);
    assert(def_text(column_def("base_pk"@, "text"@, false)) =~= "base_pk text"@);
    assert(def_text(column_def("partition_max_delete_timestamp"@, "bigint"@, false)) =~= "partition_max_delete_timestamp bigint"@);
}

#[verifier::spinoff_prover]
#[verifier::rlimit(60)]
proof fn lemma_position_texts(prefix: Seq<char>, i: nat)
    ensures
        def_texts(position_columns(prefix, i)) == position_defs(prefix, i),
{
    reveal_strlit("text");
    reveal_strlit("decimal");
    reveal_strlit("blob");
    reveal_strlit(" ");
    reveal_strlit("sk_s");
    reveal_strlit("sk_n");
    reveal_strlit("sk_b");
    reveal_strlit("_s");
    reveal_strlit("_n");
    reveal_strlit("_b");
    reveal_strlit("sk_s text");
    reveal_strlit("sk_n decimal");
    reveal_strlit("sk_b blob");
    reveal_strlit("_s text");
    reveal_strlit("_n decimal");
    reveal_strlit("_b blob");
    let c = position_columns(prefix, i);
    let d = position_defs(prefix, i);
    assert("sk_s text"@ =~= "sk_s"@ + " "@ + "text"@);
    assert("sk_n decimal"@ =~= "sk_n"@ + " "@ + "decimal"@);
    assert("sk_b blob"@ =~= "sk_b"@ + " "@ + "blob"@);
    assert("_s text"@ =~= "_s"@ + " "@ + "text"@);
    assert("_n decimal"@ =~= "_n"@ + " "@ + "decimal"@);
    assert("_b blob"@ =~= "_b"@ + " "@ + "blob"@);
    assert(def_text(c[0]) =~= d[0]);
    assert(def_text(c[1]) =~= d[1]);
    assert(def_text(c[2]) =~= d[2]);
    assert(def_texts(c) =~= d);
}

proof fn lemma_sort_texts(prefix: Seq<char>, n: nat)
    ensures
        def_texts(sort_columns(prefix, n)) == sk_defs(prefix, n),
    decreases n,
{
    if n > 0 {
        let m = (n - 1) as nat;
        lemma_sort_texts(prefix, m);
        lemma_position_texts(prefix, m);
        assert(def_texts(sort_columns(prefix, n)) =~= def_texts(sort_columns(prefix, m))
            + def_texts(position_columns(prefix, m)));
    } else {
        assert(def_texts(sort_columns(prefix, n)) =~= sk_defs(prefix, n));
    }
}

proof fn lemma_item_texts()
    ensures
        def_texts(item_columns()) == seq![
            "item_data text"@,
            "prepared_txn_id uuid"@,
            "prepared_txn_timestamp bigint"@,
            "last_committed_txn_timestamp bigint"@,
            "created_to_prepare boolean"@,
        ],
{
    lemma_def_texts();
    assert(def_texts(item_columns()) =~= seq![
        "item_data text"@,
        "prepared_txn_id uuid"@,
        "prepared_txn_timestamp bigint"@,
        "last_committed_txn_timestamp bigint"@,
        "created_to_prepare boolean"@,
    ]);
}

/// Joining two lists of parts.
proof fn lemma_joined_add(a: Seq<Seq<char>>, b: Seq<Seq<char>>, sep: Seq<char>)
    requires
        a.len() > 0,
        b.len() > 0,
    ensures
        joined(a + b, sep) == joined(a, sep) + sep + joined(b, sep),
    decreases b.len(),
{
    assert((a + b).drop_last() =~= a + b.drop_last());
    assert((a + b).last() == b.last());
    if b.len() == 1 {
        assert(a + b.drop_last() =~= a);
    } else {
        lemma_joined_add(a, b.drop_last(), sep);
        let x = joined(a, sep);
        let y = joined(b.drop_last(), sep);
        assert(x + sep + y + sep + b.last() =~= x + sep + (y + sep + b.last()));
    }
}

#[verifier::spinoff_prover]
#[verifier::rlimit(60)]
proof fn lemma_item_joined()
    ensures
        joined(seq!["item_data text"@, "prepared_txn_id uuid"@, "prepared_txn_timestamp bigint"@, "last_committed_txn_timestamp bigint"@, "created_to_prepare boolean"@], ", "@)
            == "item_data text, prepared_txn_id uuid, prepared_txn_timestamp bigint, last_committed_txn_timestamp bigint, created_to_prepare boolean"@,
{
    let a = seq!["item_data text"@, "prepared_txn_id uuid"@];
    let sep = ", "@;
    let all = seq!["item_data text"@, "prepared_txn_id uuid"@, "prepared_txn_timestamp bigint"@, "last_committed_txn_timestamp bigint"@, "created_to_prepare boolean"@];
    assert(all =~= a.push("prepared_txn_timestamp bigint"@).push("last_committed_txn_timestamp bigint"@).push("created_to_prepare boolean"@));
    lemma_joined_2("item_data text"@, "prepared_txn_id uuid"@, sep);
    lemma_joined_push(a, "prepared_txn_timestamp bigint"@, sep);
    lemma_joined_push(a.push("prepared_txn_timestamp bigint"@), "last_committed_txn_timestamp bigint"@, sep);
    lemma_joined_push(a.push("prepared_txn_timestamp bigint"@).push("last_committed_txn_timestamp bigint"@), "created_to_prepare boolean"@, sep);
    reveal_strlit("item_data text");
    reveal_strlit("prepared_txn_id uuid");
    reveal_strlit("prepared_txn_timestamp bigint");
    reveal_strlit("last_committed_txn_timestamp bigint");
    reveal_strlit("created_to_prepare boolean");
    reveal_strlit(", ");
    reveal_strlit("item_data text, prepared_txn_id uuid, prepared_txn_timestamp bigint, last_committed_txn_timestamp bigint, created_to_prepare boolean");
    assert("item_data text"@ + sep + "prepared_txn_id uuid"@ + sep + "prepared_txn_timestamp bigint"@ + sep + "last_committed_txn_timestamp bigint"@ + sep
        + "created_to_prepare boolean"@ =~= "item_data text, prepared_txn_id uuid, prepared_txn_timestamp bigint, last_committed_txn_timestamp bigint, created_to_prepare boolean"@);
}

#[verifier::rlimit(40)]
proof fn lemma_one_key_literal()
    ensures
        " (pk text, partition_max_delete_timestamp bigint STATIC, sk_s text, sk_n decimal, sk_b blob, item_data text, prepared_txn_id uuid, prepared_txn_timestamp bigint, last_committed_txn_timestamp bigint, created_to_prepare boolean, PRIMARY KEY (pk, "@ == " (pk text, partition_max_delete_timestamp bigint STATIC, sk_s text, sk_n decimal, sk_b blob, "@ + "item_data text, prepared_txn_id uuid, prepared_txn_timestamp bigint, last_committed_txn_timestamp bigint, created_to_prepare boolean"@ + ", PRIMARY KEY (pk, "@,
{
    reveal_strlit(" (pk text, partition_max_delete_timestamp bigint STATIC, sk_s text, sk_n decimal, sk_b blob, item_data text, prepared_txn_id uuid, prepared_txn_timestamp bigint, last_committed_txn_timestamp bigint, created_to_prepare boolean, PRIMARY KEY (pk, ");
    reveal_strlit(" (pk text, partition_max_delete_timestamp bigint STATIC, sk_s text, sk_n decimal, sk_b blob, ");
    reveal_strlit("item_data text, prepared_txn_id uuid, prepared_txn_timestamp bigint, last_committed_txn_timestamp bigint, created_to_prepare boolean");
    reveal_strlit(", PRIMARY KEY (pk, ");
    assert(" (pk text, partition_max_delete_timestamp bigint STATIC, sk_s text, sk_n decimal, sk_b blob, item_data text, prepared_txn_id uuid, prepared_txn_timestamp bigint, last_committed_txn_timestamp bigint, created_to_prepare boolean, PRIMARY KEY (pk, "@ =~= " (pk text, partition_max_delete_timestamp bigint STATIC, sk_s text, sk_n decimal, sk_b blob, "@ + "item_data text, prepared_txn_id uuid, prepared_txn_timestamp bigint, last_committed_txn_timestamp bigint, created_to_prepare boolean"@ + ", PRIMARY KEY (pk, "@);
}

#[verifier::spinoff_prover]
#[verifier::rlimit(60)]
proof fn lemma_no_key_literal()
    ensures
        " (pk text PRIMARY KEY, partition_max_delete_timestamp bigint, item_data text, prepared_txn_id uuid, prepared_txn_timestamp bigint, last_committed_txn_timestamp bigint, created_to_prepare boolean)"@ == " (pk text PRIMARY KEY, partition_max_delete_timestamp bigint, "@ + "item_data text, prepared_txn_id uuid, prepared_txn_timestamp bigint, last_committed_txn_timestamp bigint, created_to_prepare boolean"@ + ")"@,
{
    reveal_strlit(" (pk text PRIMARY KEY, partition_max_delete_timestamp bigint, item_data text, prepared_txn_id uuid, prepared_txn_timestamp bigint, last_committed_txn_timestamp bigint, created_to_prepare boolean)");
    reveal_strlit(" (pk text PRIMARY KEY, partition_max_delete_timestamp bigint, ");
    reveal_strlit("item_data text, prepared_txn_id uuid, prepared_txn_timestamp bigint, last_committed_txn_timestamp bigint, created_to_prepare boolean");
    reveal_strlit(")");
    assert(" (pk text PRIMARY KEY, partition_max_delete_timestamp bigint, item_data text, prepared_txn_id uuid, prepared_txn_timestamp bigint, last_committed_txn_timestamp bigint, created_to_prepare boolean)"@ =~= " (pk text PRIMARY KEY, partition_max_delete_timestamp bigint, "@ + "item_data text, prepared_txn_id uuid, prepared_txn_timestamp bigint, last_committed_txn_timestamp bigint, created_to_prepare boolean"@ + ")"@);
}

#[verifier::spinoff_prover]
#[verifier::rlimit(60)]
proof fn lemma_one_key_head()
    ensures
        " (pk text, partition_max_delete_timestamp bigint STATIC, sk_s text, sk_n decimal, sk_b blob, "@ == " ("@ + joined(seq!["pk text"@, "partition_max_delete_timestamp bigint STATIC"@, "sk_s text"@, "sk_n decimal"@, "sk_b blob"@], ", "@) + ", "@,
        ", PRIMARY KEY (pk, "@ == ", PRIMARY KEY ("@ + "pk"@ + ", "@,
{
    let a = seq!["pk text"@, "partition_max_delete_timestamp bigint STATIC"@];
    let sep = ", "@;
    let all = seq!["pk text"@, "partition_max_delete_timestamp bigint STATIC"@, "sk_s text"@, "sk_n decimal"@, "sk_b blob"@];
    assert(all =~= a.push("sk_s text"@).push("sk_n decimal"@).push("sk_b blob"@));
    lemma_joined_2("pk text"@, "partition_max_delete_timestamp bigint STATIC"@, sep);
    lemma_joined_push(a, "sk_s text"@, sep);
    lemma_joined_push(a.push("sk_s text"@), "sk_n decimal"@, sep);
    lemma_joined_push(a.push("sk_s text"@).push("sk_n decimal"@), "sk_b blob"@, sep);
    reveal_strlit("pk text");
    reveal_strlit("partition_max_delete_timestamp bigint STATIC");
    reveal_strlit("sk_s text");
    reveal_strlit("sk_n decimal");
    reveal_strlit("sk_b blob");
    reveal_strlit(", ");
    reveal_strlit(" (");
    reveal_strlit(" (pk text, partition_max_delete_timestamp bigint STATIC, sk_s text, sk_n decimal, sk_b blob, ");
    reveal_strlit(", PRIMARY KEY (pk, ");
    reveal_strlit(", PRIMARY KEY (");
    reveal_strlit("pk");
    assert(" (pk text, partition_max_delete_timestamp bigint STATIC, sk_s text, sk_n decimal, sk_b blob, "@ =~= " ("@ + ("pk text"@ + sep + "partition_max_delete_timestamp bigint STATIC"@ + sep + "sk_s text"@ + sep
        + "sk_n decimal"@ + sep + "sk_b blob"@) + sep);
    assert(", PRIMARY KEY (pk, "@ =~= ", PRIMARY KEY ("@ + "pk"@ + sep);
}

#[verifier::spinoff_prover]
#[verifier::rlimit(60)]
proof fn lemma_no_key_head()
    ensures
        " (pk text PRIMARY KEY, partition_max_delete_timestamp bigint, "@ == " ("@ + joined(seq!["pk text PRIMARY KEY"@, "partition_max_delete_timestamp bigint"@], ", "@) + ", "@,
        "pk"@ + " "@ + "text"@ + " PRIMARY KEY"@ == "pk text PRIMARY KEY"@,
{
    lemma_joined_2("pk text PRIMARY KEY"@, "partition_max_delete_timestamp bigint"@, ", "@);
    reveal_strlit("pk text PRIMARY KEY");
    reveal_strlit("partition_max_delete_timestamp bigint");
    reveal_strlit(", ");
    reveal_strlit(" (");
    reveal_strlit(" (pk text PRIMARY KEY, partition_max_delete_timestamp bigint, ");
    reveal_strlit("pk");
    reveal_strlit(" ");
    reveal_strlit("text");
    reveal_strlit(" PRIMARY KEY");
    assert("pk"@ + " "@ + "text"@ + " PRIMARY KEY"@ =~= "pk text PRIMARY KEY"@);
    assert(" (pk text PRIMARY KEY, partition_max_delete_timestamp bigint, "@ =~= " ("@ + ("pk text PRIMARY KEY"@ + ", "@ + "partition_max_delete_timestamp bigint"@) + ", "@);
}

proof fn lemma_concat_6(
    a: Seq<char>,
    ks: Seq<char>,
    dot: Seq<char>,
    t: Seq<char>,
    o: Seq<char>,
    h: Seq<char>,
    sep: Seq<char>,
    i: Seq<char>,
    z: Seq<char>,
)
    ensures
        a + (ks + dot + t) + o + (h + sep + i) + z == a + ks + dot + t + (o + h + sep + i + z),
{
    assert(a + (ks + dot + t) + o + (h + sep + i) + z =~= a + ks + dot + t + o + h + sep + i + z);
    assert(a + ks + dot + t + (o + h + sep + i + z) =~= a + ks + dot + t + o + h + sep + i + z);
}

proof fn lemma_concat_9(
    name: Seq<char>,
    o: Seq<char>,
    h: Seq<char>,
    sep: Seq<char>,
    i: Seq<char>,
    k: Seq<char>,
    pk: Seq<char>,
    col: Seq<char>,
    z: Seq<char>,
)
    ensures
        name + o + (h + sep + i) + k + (pk + sep + col) + z == name + ((o + h + sep) + i + (k + pk
            + sep)) + col + z,
{
    assert(name + o + (h + sep + i) + k + (pk + sep + col) + z =~= name + o + h + sep + i + k + pk
        + sep + col + z);
    assert(name + ((o + h + sep) + i + (k + pk + sep)) + col + z =~= name + o + h + sep + i + k + pk
        + sep + col + z);
}

#[verifier::spinoff_prover]
#[verifier::rlimit(100)]
proof fn lemma_creation_text(
    keyspace: Seq<char>,
    table_id: Seq<char>,
    keys: Seq<(Seq<char>, ScalarAttributeType)>,
)
    ensures
        creation_text(data_creation(keyspace, table_id, keys)) == create_data_table_cql(
            keyspace,
            table_id,
            keys,
        ),
{
    let c = data_creation(keyspace, table_id, keys);
    let items = seq!["item_data text"@, "prepared_txn_id uuid"@, "prepared_txn_timestamp bigint"@, "last_committed_txn_timestamp bigint"@, "created_to_prepare boolean"@];
    reveal_strlit("");
    assert(""@ =~= Seq::<char>::empty());
    lemma_def_texts();
    lemma_item_texts();
    lemma_item_joined();
    lemma_sort_texts(""@, keys.len());
    let s = def_texts(sort_columns(""@, keys.len()));
    if keys.len() == 0 {
        lemma_no_key_literal();
        lemma_no_key_head();
        let h = seq!["pk text PRIMARY KEY"@, "partition_max_delete_timestamp bigint"@];
        assert(sort_columns(""@, 0) =~= Seq::empty());
        assert(def_texts(c.columns.drop_first()) =~= seq!["partition_max_delete_timestamp bigint"@] + items);
        assert(seq!["pk text PRIMARY KEY"@] + (seq!["partition_max_delete_timestamp bigint"@] + items) =~= h + items);
        lemma_joined_add(h, items, ", "@);
        lemma_concat_6(
            "CREATE TABLE "@,
            keyspace,
            "."@,
            data_table(table_id),
            " ("@,
            joined(h, ", "@),
            ", "@,
            joined(items, ", "@),
            ")"@,
        );
        assert(creation_text(c) == create_data_table_cql(keyspace, table_id, keys));
    } else if keys.len() == 1 {
        lemma_one_key_literal();
        lemma_one_key_head();
        let h = seq!["pk text"@, "partition_max_delete_timestamp bigint STATIC"@, "sk_s text"@, "sk_n decimal"@, "sk_b blob"@];
        reveal_with_fuel(sort_columns, 2);
        lemma_position_texts(""@, 0);
        let p = position_columns(""@, 0);
        assert(sort_columns(""@, 1) =~= p);
        let d = position_defs(""@, 0);
        assert(d[0] =~= "sk_s text"@ && d[1] =~= "sk_n decimal"@ && d[2] =~= "sk_b blob"@);
        assert(def_texts(c.columns) =~= seq!["pk text"@, "partition_max_delete_timestamp bigint STATIC"@] + def_texts(p) + items);
        assert(seq!["pk text"@, "partition_max_delete_timestamp bigint STATIC"@] + def_texts(p) =~= h);
        lemma_joined_add(h, items, ", "@);
        let col = sk_col(keys[0].1);
        assert(c.clustering =~= seq![col]) by {
            assert(c.clustering[0] =~= col);
        }
        assert(seq!["pk"@] + c.clustering =~= seq!["pk"@, col]);
        lemma_joined_2("pk"@, col, ", "@);
        lemma_concat_9(
            "CREATE TABLE "@ + keyspace + "."@ + data_table(table_id),
            " ("@,
            joined(h, ", "@),
            ", "@,
            joined(items, ", "@),
            ", PRIMARY KEY ("@,
            "pk"@,
            col,
            "))"@,
        );
        let name = "CREATE TABLE "@ + keyspace + "."@ + data_table(table_id);
        assert("CREATE TABLE "@ + c.target =~= name);
        assert(creation_text(c) == create_data_table_cql(keyspace, table_id, keys));
    } else {
        assert(def_texts(c.columns) =~= seq!["pk text"@] + s + seq!["partition_max_delete_timestamp bigint STATIC"@] + items);
        assert(seq!["pk text"@] + s + seq!["partition_max_delete_timestamp bigint STATIC"@] + items =~= seq!["pk text"@] + sk_defs(
            ""@,
            keys.len(),
        ) + tail_columns());
        assert(creation_text(c) =~= create_data_table_cql(keyspace, table_id, keys));
    }
}

#[verifier::spinoff_prover]
#[verifier::rlimit(60)]
proof fn lemma_index_creation_text(
    keyspace: Seq<char>,
    index_id: Seq<char>,
    idx: Seq<(Seq<char>, ScalarAttributeType)>,
    base: Seq<(Seq<char>, ScalarAttributeType)>,
)
    ensures
        stmt(creation_text(index_creation(keyspace, index_id, idx, base)), seq![])
            == create_index_stmt(keyspace, index_id, idx, base),
{
    let c = index_creation(keyspace, index_id, idx, base);
    reveal_strlit("");
    assert(""@ =~= Seq::<char>::empty());
    lemma_def_texts();
    lemma_sort_texts(""@, idx.len());
    lemma_sort_texts("base_"@, base.len());
    assert(def_texts(c.columns) =~= seq!["pk text"@] + sk_defs(""@, idx.len()) + seq![
        "base_pk text"@,
    ] + sk_defs("base_"@, base.len()) + seq!["item_data text"@]);
    reveal_strlit(", PRIMARY KEY ((pk), ");
    reveal_strlit(", PRIMARY KEY ((");
    reveal_strlit("pk");
    reveal_strlit("), ");
    assert(", PRIMARY KEY ((pk), "@ =~= ", PRIMARY KEY (("@ + "pk"@ + "), "@);
    assert(creation_text(c) =~= create_index_stmt(keyspace, index_id, idx, base).cql);
}

proof fn lemma_sort_column_defined(prefix: Seq<char>, n: nat, i: nat, t: ScalarAttributeType)
    requires
        i < n,
    ensures
        sort_columns(prefix, n).contains(
            column_def(prefix + sk_col_n(i, t), key_cql_type(t), false),
        ),
    decreases n,
{
    let m = (n - 1) as nat;
    let d = column_def(prefix + sk_col_n(i, t), key_cql_type(t), false);
    let a = sort_columns(prefix, m);
    let b = position_columns(prefix, m);
    if i == m {
        let k: int = match t {
            ScalarAttributeType::S => 0,
            ScalarAttributeType::N => 1,
            ScalarAttributeType::B => 2,
        };
        assert((a + b)[a.len() + k] == d);
    } else {
        lemma_sort_column_defined(prefix, m, i, t);
        let k = choose|k: int| 0 <= k < a.len() && a[k] == d;
        assert((a + b)[k] == d);
    }
}

/// A data table is laid out as the statements on it address it. It is partitioned by
/// `pk` and the rows of a partition are told apart and ordered by the sort keys, in the
/// order of the schema, whether there is none, one or several. Each of these columns
/// has the type of its key, as do the columns that the statements read and write. So
/// the key of a row names all columns of the primary key, in order.
pub proof fn law_data_table_layout(
    keyspace: Seq<char>,
    table_id: Seq<char>,
    schema: Seq<KeySchemaElement>,
    defs: Seq<AttributeDefinition>,
    key: RowKey,
    i: int,
)
    requires
        0 <= i < sort_keys(schema, defs).len(),
    ensures
        ({
            let keys = sort_keys(schema, defs);
            let c = data_creation(keyspace, table_id, keys);
            &&& creation_text(c) == create_data_table_cql(keyspace, table_id, keys)
            &&& c.partition == "pk"@
            &&& c.columns.contains(column_def("pk"@, "text"@, false))
            &&& c.clustering.len() == keys.len()
            &&& c.clustering[i] == sk_col_n(i as nat, keys[i].1)
            &&& c.columns.contains(column_def(c.clustering[i], key_cql_type(keys[i].1), false))
            &&& c.columns.contains(
                column_def("partition_max_delete_timestamp"@, "bigint"@, true),
            )
            &&& c.columns.contains(column_def("item_data"@, "text"@, false))
            &&& c.columns.contains(column_def("prepared_txn_id"@, "uuid"@, false))
            &&& c.columns.contains(column_def("prepared_txn_timestamp"@, "bigint"@, false))
            &&& c.columns.contains(column_def("last_committed_txn_timestamp"@, "bigint"@, false))
            &&& c.columns.contains(column_def("created_to_prepare"@, "boolean"@, false))
            &&& keys.len() == 1 && key.sk is Some && key.sk->0.sk_type == keys[0].1 ==> columns_of(
                key_slots(key),
            ) == seq![c.partition] + c.clustering
        }),
{
    let keys = sort_keys(schema, defs);
    let c = data_creation(keyspace, table_id, keys);
    let e = Seq::<char>::empty();
    lemma_creation_text(keyspace, table_id, keys);
    assert(c.clustering[i] =~= sk_col_n(i as nat, keys[i].1));
    assert(e + sk_col_n(i as nat, keys[i].1) =~= sk_col_n(i as nat, keys[i].1));
    lemma_sort_column_defined(e, keys.len(), i as nat, keys[i].1);
    let s = sort_columns(e, keys.len());
    let d = column_def(c.clustering[i], key_cql_type(keys[i].1), false);
    let k = choose|k: int| 0 <= k < s.len() && s[k] == d;
    let n = s.len() as int;
    if keys.len() == 1 {
        assert(c.columns[0] == column_def("pk"@, "text"@, false));
        assert(c.columns[1] == column_def("partition_max_delete_timestamp"@, "bigint"@, true));
        assert(c.columns[2 + k] == d);
        if key.sk is Some && key.sk->0.sk_type == keys[0].1 {
            assert(c.clustering[0] =~= sk_col(keys[0].1));
            assert(columns_of(key_slots(key)) =~= seq![c.partition] + c.clustering);
        }
    } else {
        assert(c.columns[0] == column_def("pk"@, "text"@, false));
        assert(c.columns[1 + k] == d);
        assert(c.columns[1 + n] == column_def(
            "partition_max_delete_timestamp"@,
            "bigint"@,
            true,
        ));
    }
    assert(c.columns[2 + n] == item_columns()[0]);
    assert(c.columns[3 + n] == item_columns()[1]);
    assert(c.columns[4 + n] == item_columns()[2]);
    assert(c.columns[5 + n] == item_columns()[3]);
    assert(c.columns[6 + n] == item_columns()[4]);
}

/// The data table of a table without a sort key has `pk` as its whole primary key, and
/// the columns that the statements on it read and write.
pub proof fn law_unsorted_table_layout(
    keyspace: Seq<char>,
    table_id: Seq<char>,
    schema: Seq<KeySchemaElement>,
    defs: Seq<AttributeDefinition>,
    key: RowKey,
)
    requires
        sort_keys(schema, defs).len() == 0,
    ensures
        ({
            let keys = sort_keys(schema, defs);
            let c = data_creation(keyspace, table_id, keys);
            &&& creation_text(c) == create_data_table_cql(keyspace, table_id, keys)
            &&& c.partition == "pk"@
            &&& c.clustering.len() == 0
            &&& key.sk is None ==> columns_of(key_slots(key)) == seq![c.partition]
            &&& c.columns[0] == column_def("pk"@, "text"@, false)
            &&& c.columns.contains(
                column_def("partition_max_delete_timestamp"@, "bigint"@, false),
            )
            &&& c.columns.contains(column_def("item_data"@, "text"@, false))
            &&& c.columns.contains(column_def("prepared_txn_id"@, "uuid"@, false))
            &&& c.columns.contains(column_def("prepared_txn_timestamp"@, "bigint"@, false))
            &&& c.columns.contains(column_def("last_committed_txn_timestamp"@, "bigint"@, false))
            &&& c.columns.contains(column_def("created_to_prepare"@, "boolean"@, false))
        }),
{
    let keys = sort_keys(schema, defs);
    let c = data_creation(keyspace, table_id, keys);
    lemma_creation_text(keyspace, table_id, keys);
    assert(sort_columns(Seq::empty(), 0) =~= Seq::empty());
    assert(c.columns[1] == column_def("partition_max_delete_timestamp"@, "bigint"@, false));
    assert(c.columns[2] == item_columns()[0]);
    assert(c.columns[3] == item_columns()[1]);
    assert(c.columns[4] == item_columns()[2]);
    assert(c.columns[5] == item_columns()[3]);
    assert(c.columns[6] == item_columns()[4]);
    if key.sk is None {
        assert(columns_of(key_slots(key)) =~= seq![c.partition]);
    }
}

/// An index table is laid out as the statements on it address it: partitioned by `pk`,
/// its rows told apart and ordered by the sort keys of the index, then the partition key
/// and the sort keys of the base table. The key of an index row whose columns have the
/// types of these keys names all columns of the primary key, in order.
pub proof fn law_index_table_layout(
    keyspace: Seq<char>,
    index_id: Seq<char>,
    idx: Seq<(Seq<char>, ScalarAttributeType)>,
    base: Seq<(Seq<char>, ScalarAttributeType)>,
    key: IndexRowKey,
)
    requires
        key.index_sks@.len() == idx.len(),
        key.base_sks@.len() == base.len(),
        forall|i: int| 0 <= i < idx.len() ==> (#[trigger] key.index_sks@[i]).sk_type == idx[i].1,
        forall|i: int| 0 <= i < base.len() ==> (#[trigger] key.base_sks@[i]).sk_type == base[i].1,
    ensures
        ({
            let c = index_creation(keyspace, index_id, idx, base);
            &&& stmt(creation_text(c), seq![]) == create_index_stmt(keyspace, index_id, idx, base)
            &&& c.partition == "pk"@
            &&& columns_of(index_slots(key)) == seq![c.partition] + c.clustering
            &&& c.columns.contains(column_def("pk"@, "text"@, false))
            &&& c.columns.contains(column_def("base_pk"@, "text"@, false))
            &&& c.columns.contains(column_def("item_data"@, "text"@, false))
        }),
{
    let c = index_creation(keyspace, index_id, idx, base);
    lemma_index_creation_text(keyspace, index_id, idx, base);
    reveal_strlit("");
    assert(""@ =~= Seq::<char>::empty());
    assert(columns_of(index_slots(key)) =~= seq![c.partition] + c.clustering);
    let n = sort_columns(Seq::empty(), idx.len()).len() as int;
    assert(c.columns[0] == column_def("pk"@, "text"@, false));
    assert(c.columns[1 + n] == column_def("base_pk"@, "text"@, false));
    assert(c.columns[c.columns.len() - 1] == column_def("item_data"@, "text"@, false));
}

/// The statement that reads the metadata row of a table.
pub fn select_table(catalog_keyspace: &str, account_id: &str, table_name: &str) -> (r: Statement)
    ensures
        r@ == stmt(
            "SELECT key_schema, attribute_definitions, table_status, table_id, stream_specification FROM "@
                + catalog_keyspace@ + ".tables WHERE account_id = ? AND table_name = ?"@,
            seq![CqlView::Text(account_id@), CqlView::Text(table_name@)],
        ),
{
    stmt2(
        cat3(
            "SELECT key_schema, attribute_definitions, table_status, table_id, stream_specification FROM ",
            catalog_keyspace,
            ".tables WHERE account_id = ? AND table_name = ?",
        ),
        text_value(account_id),
        text_value(table_name),
    )
}

/// The metadata row of a table. Each column is the driver's error text or its
/// value; a JSON column is further the decoder's error text or the decoded value.
pub struct TableRow {
    pub key_schema: Result<Result<Vec<KeySchemaElement>, String>, String>,
    pub attribute_definitions: Result<Result<Vec<AttributeDefinition>, String>, String>,
    pub table_status: Result<String, String>,
    pub table_id: Result<String, String>,
    pub stream_specification: Option<Result<String, String>>,
}

/// The error of a metadata row: the first unreadable column, then a table that
/// is not active, then the first column whose JSON does not decode.
pub open spec fn table_row_error(table_name: Seq<char>, row: TableRow, e: StorageError) -> bool {
    if let Err(m) = row.key_schema {
        is_internal(e, "Parse key_schema: "@ + m@)
    } else if let Err(m) = row.attribute_definitions {
        is_internal(e, "Parse attribute_definitions: "@ + m@)
    } else if let Err(m) = row.table_status {
        is_internal(e, "Parse table_status: "@ + m@)
    } else if let Err(m) = row.table_id {
        is_internal(e, "Parse table_id: "@ + m@)
    } else if row.table_status->Ok_0@ != "ACTIVE"@ {
        e matches StorageError::TableNotActive(n) && n@ == table_name
    } else if let Err(m) = row.key_schema->Ok_0 {
        e == StorageError::Internal(m)
    } else if let Err(m) = row.attribute_definitions->Ok_0 {
        e == StorageError::Internal(m)
    } else if let Some(Err(m)) = row.stream_specification {
        e == StorageError::Internal(m)
    } else {
        false
    }
}

/// The row gives table metadata: every column reads and decodes, and the table
/// is active.
pub open spec fn table_row_usable(row: TableRow) -> bool {
    &&& row.key_schema matches Ok(Ok(_))
    &&& row.attribute_definitions matches Ok(Ok(_))
    &&& row.table_status matches Ok(s)
    &&& s@ == "ACTIVE"@
    &&& row.table_id is Ok
    &&& !(row.stream_specification matches Some(Err(_)))
}

/// The index information of a metadata entry.
pub open spec fn index_info(m: IndexMeta, t: IndexType) -> IndexInfo {
    IndexInfo {
        index_name: m.index_name,
        index_id: m.index_id,
        index_type: t,
        key_schema: m.key_schema,
        projection: m.projection,
    }
}

/// The indexes whose type column reads `tag`, in order.
pub open spec fn indexes_of_type(metas: Seq<IndexMeta>, tag: Seq<char>, t: IndexType) -> Seq<
    IndexInfo,
>
    decreases metas.len(),
{
    if metas.len() == 0 {
        Seq::empty()
    } else {
        let rest = indexes_of_type(metas.drop_last(), tag, t);
        if metas.last().index_type@ == tag {
            rest.push(index_info(metas.last(), t))
        } else {
            rest
        }
    }
}

/// Split indexes into global and local ones; an index of an unknown type is left
/// out.
fn split_indexes(metas: Vec<IndexMeta>) -> (r: (Vec<IndexInfo>, Vec<IndexInfo>))
    ensures
        r.0@ == indexes_of_type(metas@, "GSI"@, IndexType::Gsi),
        r.1@ == indexes_of_type(metas@, "LSI"@, IndexType::Lsi),
{
    proof {
        reveal_strlit("GSI");
        reveal_strlit("LSI");
        assert("GSI"@[0] != "LSI"@[0]);
    }
    let ghost all = metas@;
    let mut rest = metas;
    let mut gsi: Vec<IndexInfo> = Vec::new();
    let mut lsi: Vec<IndexInfo> = Vec::new();
    let ghost mut done: int = 0;
    proof {
        assert(all.skip(0) =~= all);
    }
    while rest.len() > 0
        invariant
            0 <= done <= all.len(),
            rest@ == all.skip(done),
            "GSI"@ != "LSI"@,
            gsi@ == indexes_of_type(all.take(done), "GSI"@, IndexType::Gsi),
            lsi@ == indexes_of_type(all.take(done), "LSI"@, IndexType::Lsi),
        decreases rest@.len(),
    {
        let meta = rest.remove(0);
        proof {
            assert(all.take(done + 1).drop_last() =~= all.take(done));
            assert(rest@ =~= all.skip(done + 1));
        }
        if str_eq(meta.index_type.as_str(), "GSI") {
            gsi.push(
                IndexInfo {
                    index_name: meta.index_name,
                    index_id: meta.index_id,
                    index_type: IndexType::Gsi,
                    key_schema: meta.key_schema,
                    projection: meta.projection,
                },
            );
        } else if str_eq(meta.index_type.as_str(), "LSI") {
            lsi.push(
                IndexInfo {
                    index_name: meta.index_name,
                    index_id: meta.index_id,
                    index_type: IndexType::Lsi,
                    key_schema: meta.key_schema,
                    projection: meta.projection,
                },
            );
        }
        proof {
            done = done + 1;
        }
    }
    proof {
        assert(all.take(done) =~= all);
    }
    (gsi, lsi)
}

/// The metadata of a table, from its catalog row and its index entries.
///
/// A missing row is `TableNotFound`, a table that is not active
/// `TableNotActive`.
pub fn fetch_table_key_info(
    account_id: &str,
    table_name: &str,
    row: Option<TableRow>,
    indexes: Vec<IndexMeta>,
) -> (r: Result<TableKeyInfo, StorageError>)
    ensures
        r is Ok <==> (row is Some && table_row_usable(row->0)),
        match r {
            Ok(info) => {
                &&& info.table_name@ == table_name@
                &&& info.account_id@ == account_id@
                &&& info.table_id == row->0.table_id->Ok_0
                &&& info.key_schema@ == row->0.key_schema->Ok_0->Ok_0@
                &&& info.base_key_schema@ == info.key_schema@
                &&& info.attribute_definitions@ == row->0.attribute_definitions->Ok_0->Ok_0@
                &&& info.global_secondary_indexes@ == indexes_of_type(
                    indexes@,
                    "GSI"@,
                    IndexType::Gsi,
                )
                &&& info.local_secondary_indexes@ == indexes_of_type(
                    indexes@,
                    "LSI"@,
                    IndexType::Lsi,
                )
                &&& info.has_lsi == (info.local_secondary_indexes@.len() > 0)
                &&& match row->0.stream_specification {
                    Some(Ok(s)) => info.stream_specification == Some(s),
                    _ => info.stream_specification is None,
                }
            },
            Err(e) => match row {
                None => e matches StorageError::TableNotFound(n) && n@ == table_name@,
                Some(row) => table_row_error(table_name@, row, e),
            },
        },
{
    let row = match row {
        Some(row) => row,
        None => {
            return Err(StorageError::TableNotFound(table_name.to_owned()));
        },
    };
    let schema = match row.key_schema {
        Ok(s) => s,
        Err(m) => {
            return Err(StorageError::Internal(cat2("Parse key_schema: ", m.as_str())));
        },
    };
    let defs = match row.attribute_definitions {
        Ok(d) => d,
        Err(m) => {
            return Err(StorageError::Internal(cat2("Parse attribute_definitions: ", m.as_str())));
        },
    };
    let status = match row.table_status {
        Ok(s) => s,
        Err(m) => {
            return Err(StorageError::Internal(cat2("Parse table_status: ", m.as_str())));
        },
    };
    let table_id = match row.table_id {
        Ok(t) => t,
        Err(m) => {
            return Err(StorageError::Internal(cat2("Parse table_id: ", m.as_str())));
        },
    };
    if !str_eq(status.as_str(), "ACTIVE") {
        return Err(StorageError::TableNotActive(table_name.to_owned()));
    }
    let key_schema = match schema {
        Ok(s) => s,
        Err(m) => {
            return Err(StorageError::Internal(m));
        },
    };
    let attribute_definitions = match defs {
        Ok(d) => d,
        Err(m) => {
            return Err(StorageError::Internal(m));
        },
    };
    let stream_specification = match row.stream_specification {
        Some(Ok(s)) => Some(s),
        Some(Err(m)) => {
            return Err(StorageError::Internal(m));
        },
        None => None,
    };
    let (global_secondary_indexes, local_secondary_indexes) = split_indexes(indexes);
    let has_lsi = local_secondary_indexes.len() > 0;
    Ok(
        TableKeyInfo {
            table_name: table_name.to_owned(),
            account_id: account_id.to_owned(),
            table_id,
            base_key_schema: clone_schema(&key_schema),
            key_schema,
            attribute_definitions,
            has_lsi,
            global_secondary_indexes,
            local_secondary_indexes,
            stream_specification,
        },
    )
}

} // verus!
