//! GSI/LSI index operations: index metadata, item projection, the statements
//! that keep synchronous indexes in step with a write, and the queue rows of the
//! deferred ones.
use vstd::prelude::*;
use crate::engine::CassandraEngine;
use crate::cassandra_util::{bigint_of, get_column, get_optional, Cell, Row};
use crate::cql::{
    push_statement, push_value, sk_bind, sk_col_n, sk_column_n, sk_to_value, statements_view, stmt,
    stmt1, stmt2, text_value, values_view, CqlValue, CqlView, Statement, StatementView,
};
use crate::data::ddl::{drop_index_stmt, index_table, index_table_name};
use crate::error::{internal, is_internal, StorageError};
use crate::gsi_queue::{partition_for, worker_of};
use crate::model::{
    clone_schema, AttributeValue, AttributeView, Item, KeySchemaElement, Projection, ProjectionType,
    ScalarAttributeType, SortKeyValue,
};
use crate::text::{
    cat2, cat3, cat4, cat6, join, joined, placeholder_list, placeholders, push_text, str_eq, views,
};
use crate::command::{
    address, address_of, after_set, bind, bounds, columns_of, equations, held, row_at, run,
    terms_of, written, Command, Guard, Slot, Table, Term,
};

verus! {

/// Metadata for a single index, used during write-path GSI/LSI sync.
#[derive(Debug, PartialEq, Eq)]
pub struct IndexMeta {
    pub index_name: String,
    pub index_id: String,
    pub index_type: String,
    pub key_schema: Vec<KeySchemaElement>,
    pub projection: Projection,
    /// Per-GSI propagation delay in milliseconds. `None` means use system
    /// default. `Some(0)` means synchronous.
    pub propagation_delay_ms: Option<i32>,
}

impl Clone for IndexMeta {
    fn clone(&self) -> (r: IndexMeta)
        ensures
            r.key_schema@ == self.key_schema@,
            r.projection.projection_type == self.projection.projection_type,
            match self.projection.non_key_attributes {
                Some(names) => r.projection.non_key_attributes is Some
                    && r.projection.non_key_attributes->0@ == names@,
                None => r.projection.non_key_attributes is None,
            },
            r == (IndexMeta { key_schema: r.key_schema, projection: r.projection, ..*self }),
    {
        IndexMeta {
            index_name: self.index_name.clone(),
            index_id: self.index_id.clone(),
            index_type: self.index_type.clone(),
            key_schema: clone_schema(&self.key_schema),
            projection: self.projection.clone(),
            propagation_delay_ms: self.propagation_delay_ms,
        }
    }
}

/// The statement that reads all index metadata of a table.
pub fn select_indexes(table_id: &str, catalog_keyspace: &str) -> (r: Statement)
    ensures
        r@ == stmt(
            "SELECT index_name, index_id, index_type, key_schema, projection, propagation_delay_ms FROM "@
                + catalog_keyspace@ + ".indexes WHERE table_id = ?"@,
            seq![CqlView::Text(table_id@)],
        ),
{
    stmt1(
        cat3(
            "SELECT index_name, index_id, index_type, key_schema, projection, propagation_delay_ms FROM ",
            catalog_keyspace,
            ".indexes WHERE table_id = ?",
        ),
        text_value(table_id),
    )
}

/// The statement that reads the metadata of one index.
pub fn select_index(table_id: &str, index_name: &str, catalog_keyspace: &str) -> (r: Statement)
    ensures
        r@ == stmt(
            "SELECT index_id, index_type, key_schema, projection, propagation_delay_ms FROM "@
                + catalog_keyspace@ + ".indexes WHERE table_id = ? AND index_name = ?"@,
            seq![CqlView::Text(table_id@), CqlView::Text(index_name@)],
        ),
{
    stmt2(
        cat3(
            "SELECT index_id, index_type, key_schema, projection, propagation_delay_ms FROM ",
            catalog_keyspace,
            ".indexes WHERE table_id = ? AND index_name = ?",
        ),
        text_value(table_id),
        text_value(index_name),
    )
}

/// An index row together with its two decoded JSON columns; `None` where a column
/// is unreadable or its JSON does not decode.
pub struct IndexRow {
    pub row: Row,
    pub key_schema: Option<Vec<KeySchemaElement>>,
    pub projection: Option<Projection>,
}

/// The columns that every index lookup reads are there.
pub open spec fn index_row_usable(r: IndexRow) -> bool {
    &&& r.row.cell("index_id"@) is Text
    &&& r.row.cell("index_type"@) is Text
    &&& r.key_schema is Some
    &&& r.projection is Some
}

/// The metadata is what the row holds, under the given name.
pub open spec fn index_row_gives(r: IndexRow, name: Seq<char>, m: IndexMeta) -> bool {
    &&& m.index_name@ == name
    &&& r.row.cell("index_id"@) == Cell::Text(m.index_id)
    &&& r.row.cell("index_type"@) == Cell::Text(m.index_type)
    &&& r.key_schema == Some(m.key_schema)
    &&& r.projection == Some(m.projection)
    &&& m.propagation_delay_ms == match r.row.cell("propagation_delay_ms"@) {
        Cell::Int(i) => Some(i),
        _ => None,
    }
}

fn index_meta(name: String, r: IndexRow) -> (res: Result<IndexMeta, StorageError>)
    ensures
        match res {
            Ok(m) => index_row_usable(r) && index_row_gives(r, name@, m),
            Err(e) => !index_row_usable(r) && is_internal(e, "Database error"@),
        },
{
    let index_id: String = get_column(&r.row, "index_id")?;
    let index_type: String = get_column(&r.row, "index_type")?;
    let propagation_delay_ms: Option<i32> = get_optional(&r.row, "propagation_delay_ms");
    match (r.key_schema, r.projection) {
        (Some(key_schema), Some(projection)) => Ok(
            IndexMeta {
                index_name: name,
                index_id,
                index_type,
                key_schema,
                projection,
                propagation_delay_ms,
            },
        ),
        _ => Err(internal("Database error")),
    }
}

/// All index metadata of a table, in row order. One unusable row fails them all.
pub fn fetch_indexes_for_table(rows: Vec<IndexRow>) -> (r: Result<Vec<IndexMeta>, StorageError>)
    ensures
        match r {
            Ok(v) => v@.len() == rows@.len() && forall|i: int|
                0 <= i < v@.len() ==> (#[trigger] rows@[i]).row.cell("index_name"@) == Cell::Text(
                    v@[i].index_name,
                ) && index_row_usable(rows@[i]) && index_row_gives(
                    rows@[i],
                    v@[i].index_name@,
                    v@[i],
                ),
            Err(e) => is_internal(e, "Database error"@) && exists|i: int|
                0 <= i < rows@.len() && !((#[trigger] rows@[i]).row.cell("index_name"@) is Text
                    && index_row_usable(rows@[i])),
        },
{
    let ghost all = rows@;
    let mut rest = rows;
    let mut out: Vec<IndexMeta> = Vec::new();
    proof {
        assert(all.skip(0) =~= all);
    }
    while rest.len() > 0
        invariant
            all == rows@,
            out@.len() + rest@.len() == all.len(),
            rest@ == all.skip(out@.len() as int),
            forall|i: int|
                0 <= i < out@.len() ==> (#[trigger] all[i]).row.cell("index_name"@) == Cell::Text(
                    out@[i].index_name,
                ) && index_row_usable(all[i]) && index_row_gives(
                    all[i],
                    out@[i].index_name@,
                    out@[i],
                ),
        decreases rest@.len(),
    {
        let ghost k = out@.len() as int;
        let row = rest.remove(0);
        proof {
            assert(row == rows@[k]);
            assert(rest@ =~= all.skip(k + 1));
        }
        let name: String = get_column(&row.row, "index_name")?;
        let meta = index_meta(name.clone(), row)?;
        let meta = IndexMeta { index_name: name, ..meta };
        out.push(meta);
    }
    Ok(out)
}

/// The metadata of one index; `IndexNotFound` where it has no row.
pub fn fetch_index_by_name(index_name: &str, row: Option<IndexRow>) -> (r: Result<
    IndexMeta,
    StorageError,
>)
    ensures
        match r {
            Ok(m) => row is Some && index_row_usable(row->0) && index_row_gives(
                row->0,
                index_name@,
                m,
            ),
            Err(e) => match row {
                None => e matches StorageError::IndexNotFound(m) && m@ == "Index "@ + index_name@
                    + " not found"@,
                Some(row) => !index_row_usable(row) && is_internal(e, "Database error"@),
            },
        },
{
    match row {
        None => Err(StorageError::IndexNotFound(cat3("Index ", index_name, " not found"))),
        Some(row) => index_meta(index_name.to_owned(), row),
    }
}

/// The attribute names of a key schema.
pub open spec fn key_names(schema: Seq<KeySchemaElement>) -> Set<Seq<char>> {
    Set::new(
        |n: Seq<char>|
            exists|i: int| 0 <= i < schema.len() && (#[trigger] schema[i]).attribute_name@ == n,
    )
}

/// The names in a list.
pub open spec fn name_set(names: Seq<String>) -> Set<Seq<char>> {
    Set::new(|n: Seq<char>| exists|i: int| 0 <= i < names.len() && (#[trigger] names[i])@ == n)
}

/// The attributes that an index stores of an item.
pub open spec fn projected_names(
    index_ks: Seq<KeySchemaElement>,
    base_ks: Seq<KeySchemaElement>,
    projection: Projection,
) -> Set<Seq<char>> {
    match projection.projection_type {
        ProjectionType::All => Set::full(),
        ProjectionType::KeysOnly => key_names(base_ks).union(key_names(index_ks)),
        ProjectionType::Include => key_names(base_ks).union(key_names(index_ks)).union(
            match projection.non_key_attributes {
                Some(names) => name_set(names@),
                None => Set::empty(),
            },
        ),
    }
}

fn copy_keys(out: &mut Item, item: &Item, ks: &[KeySchemaElement])
    ensures
        final(out)@ == old(out)@.union_prefer_right(item@.restrict(key_names(ks@))),
{
    let ghost start = out@;
    let mut i: usize = 0;
    proof {
        assert(start.union_prefer_right(item@.restrict(key_names(ks@.take(0)))) =~= start);
    }
    while i < ks.len()
        invariant
            i <= ks@.len(),
            out@ == start.union_prefer_right(item@.restrict(key_names(ks@.take(i as int)))),
        decreases ks@.len() - i,
    {
        let ghost before = out@;
        let ghost name = ks@[i as int].attribute_name@;
        if let Some(v) = item.get(ks[i].attribute_name.as_str()) {
            out.insert(ks[i].attribute_name.clone(), v.clone());
        }
        proof {
            let a = key_names(ks@.take(i as int));
            let b = key_names(ks@.take(i + 1));
            assert(b =~= a.insert(name)) by {
                assert forall|n: Seq<char>| b.contains(n) == a.insert(name).contains(n) by {
                    if b.contains(n) {
                        let k = choose|k: int|
                            0 <= k < i + 1 && (#[trigger] ks@.take(i + 1)[k]).attribute_name@ == n;
                        if k < i {
                            assert(ks@.take(i as int)[k].attribute_name@ == n);
                        }
                    }
                    if a.contains(n) {
                        let k = choose|k: int|
                            0 <= k < i && (#[trigger] ks@.take(i as int)[k]).attribute_name@ == n;
                        assert(ks@.take(i + 1)[k].attribute_name@ == n);
                    }
                    assert(ks@.take(i + 1)[i as int].attribute_name@ == name);
                }
            }
            assert(out@ =~= start.union_prefer_right(item@.restrict(b)));
        }
        i = i + 1;
    }
    proof {
        assert(ks@.take(i as int) =~= ks@);
    }
}

fn copy_names(out: &mut Item, item: &Item, names: &Vec<String>)
    ensures
        final(out)@ == old(out)@.union_prefer_right(item@.restrict(name_set(names@))),
{
    let ghost start = out@;
    let mut i: usize = 0;
    proof {
        assert(start.union_prefer_right(item@.restrict(name_set(names@.take(0)))) =~= start);
    }
    while i < names.len()
        invariant
            i <= names@.len(),
            out@ == start.union_prefer_right(item@.restrict(name_set(names@.take(i as int)))),
        decreases names@.len() - i,
    {
        let ghost name = names@[i as int]@;
        if let Some(v) = item.get(names[i].as_str()) {
            out.insert(names[i].clone(), v.clone());
        }
        proof {
            let a = name_set(names@.take(i as int));
            let b = name_set(names@.take(i + 1));
            assert(b =~= a.insert(name)) by {
                assert forall|n: Seq<char>| b.contains(n) == a.insert(name).contains(n) by {
                    if b.contains(n) {
                        let k = choose|k: int|
                            0 <= k < i + 1 && (#[trigger] names@.take(i + 1)[k])@ == n;
                        if k < i {
                            assert(names@.take(i as int)[k]@ == n);
                        }
                    }
                    if a.contains(n) {
                        let k = choose|k: int|
                            0 <= k < i && (#[trigger] names@.take(i as int)[k])@ == n;
                        assert(names@.take(i + 1)[k]@ == n);
                    }
                    assert(names@.take(i + 1)[i as int]@ == name);
                }
            }
            assert(out@ =~= start.union_prefer_right(item@.restrict(b)));
        }
        i = i + 1;
    }
    proof {
        assert(names@.take(i as int) =~= names@);
    }
}

/// Project an item according to an index's projection configuration.
///
/// The projected item holds exactly the attributes of the item that the
/// projection names, with their values.
pub fn project_item_for_index(
    item: &Item,
    index_ks: &[KeySchemaElement],
    base_ks: &[KeySchemaElement],
    projection: &Projection,
) -> (r: Item)
    ensures
        r@ == item@.restrict(projected_names(index_ks@, base_ks@, *projection)),
{
    let ghost names = projected_names(index_ks@, base_ks@, *projection);
    match &projection.projection_type {
        ProjectionType::All => {
            let r = item.clone();
            proof {
                assert(r@ =~= item@.restrict(names));
            }
            r
        },
        ProjectionType::KeysOnly => {
            let mut r = Item::new();
            copy_keys(&mut r, item, base_ks);
            copy_keys(&mut r, item, index_ks);
            proof {
                assert(r@ =~= item@.restrict(names));
            }
            r
        },
        ProjectionType::Include => {
            let mut r = Item::new();
            copy_keys(&mut r, item, base_ks);
            copy_keys(&mut r, item, index_ks);
            match &projection.non_key_attributes {
                Some(attrs) => {
                    copy_names(&mut r, item, attrs);
                },
                None => {},
            }
            proof {
                assert(r@ =~= item@.restrict(names));
            }
            r
        },
    }
}

/// The item has every key attribute of the schema.
pub open spec fn has_keys(item: Map<Seq<char>, AttributeView>, ks: Seq<KeySchemaElement>) -> bool {
    forall|i: int| 0 <= i < ks.len() ==> item.dom().contains((#[trigger] ks[i]).attribute_name@)
}

/// Check if an item has all the key attributes required by an index.
pub fn item_has_index_keys(item: &Item, index_ks: &[KeySchemaElement]) -> (r: bool)
    ensures
        r == has_keys(item@, index_ks@),
{
    let mut i: usize = 0;
    while i < index_ks.len()
        invariant
            i <= index_ks@.len(),
            forall|k: int|
                0 <= k < i ==> item@.dom().contains((#[trigger] index_ks@[k]).attribute_name@),
        decreases index_ks@.len() - i,
    {
        if !item.contains_key(index_ks[i].attribute_name.as_str()) {
            assert(!item@.dom().contains(index_ks@[i as int].attribute_name@));
            return false;
        }
        i = i + 1;
    }
    true
}

/// A projected item keeps every key of the base table and of the index, and
/// nothing that the item does not have.
pub proof fn law_projection_keeps_keys(
    item: Map<Seq<char>, AttributeView>,
    index_ks: Seq<KeySchemaElement>,
    base_ks: Seq<KeySchemaElement>,
    projection: Projection,
)
    ensures
        ({
            let p = item.restrict(projected_names(index_ks, base_ks, projection));
            &&& has_keys(item, index_ks) ==> has_keys(p, index_ks)
            &&& has_keys(item, base_ks) ==> has_keys(p, base_ks)
            &&& p.submap_of(item)
        }),
{
    let names = projected_names(index_ks, base_ks, projection);
    let p = item.restrict(names);
    assert forall|i: int| 0 <= i < index_ks.len() implies names.contains(
        (#[trigger] index_ks[i]).attribute_name@,
    ) by {}
    assert forall|i: int| 0 <= i < base_ks.len() implies names.contains(
        (#[trigger] base_ks[i]).attribute_name@,
    ) by {}
}

/// The delay of an index: its own where it is set and not negative, else the
/// system default.
pub open spec fn delay_of(own: Option<i32>, system_default: u64) -> u64 {
    match own {
        Some(ms) => if ms >= 0 {
            ms as u64
        } else {
            system_default
        },
        None => system_default,
    }
}

/// Compute the effective propagation delay for an index.
pub fn effective_delay(idx: &IndexMeta, system_default: u64) -> (r: u64)
    ensures
        r == delay_of(idx.propagation_delay_ms, system_default),
{
    match idx.propagation_delay_ms {
        Some(ms) => if ms >= 0 {
            ms as u64
        } else {
            system_default
        },
        None => system_default,
    }
}

/// The index is updated together with the base table: a local index always, a
/// global one where it has no delay.
pub open spec fn is_synchronous(idx: IndexMeta, system_default: u64) -> bool {
    idx.index_type@ == "LSI"@ || delay_of(idx.propagation_delay_ms, system_default) == 0
}

/// The index is updated through the queue.
pub open spec fn is_deferred(idx: IndexMeta, system_default: u64) -> bool {
    idx.index_type@ != "LSI"@ && delay_of(idx.propagation_delay_ms, system_default) != 0
}

/// Every index is either synchronous or deferred, and never both.
pub proof fn law_index_routing(idx: IndexMeta, system_default: u64)
    ensures
        is_synchronous(idx, system_default) != is_deferred(idx, system_default),
{
}

/// One change to an index table: remove the row of the old item or add the row of
/// the new one. The number is the position of the index.
#[derive(Clone, Copy, Debug, PartialEq, Eq, Structural)]
pub enum SyncStep {
    DeleteOld(usize),
    InsertNew(usize),
}

/// The changes that one synchronous index needs.
pub open spec fn steps_for(
    i: usize,
    idx: IndexMeta,
    old_item: Option<Map<Seq<char>, AttributeView>>,
    new_item: Option<Map<Seq<char>, AttributeView>>,
) -> Seq<SyncStep> {
    (if old_item is Some && has_keys(old_item->0, idx.key_schema@) {
        seq![SyncStep::DeleteOld(i)]
    } else {
        Seq::empty()
    }) + (if new_item is Some && has_keys(new_item->0, idx.key_schema@) {
        seq![SyncStep::InsertNew(i)]
    } else {
        Seq::empty()
    })
}

/// The changes that the synchronous indexes of a table need, in index order.
pub open spec fn sync_steps(
    indexes: Seq<IndexMeta>,
    old_item: Option<Map<Seq<char>, AttributeView>>,
    new_item: Option<Map<Seq<char>, AttributeView>>,
    system_default: u64,
) -> Seq<SyncStep>
    decreases indexes.len(),
{
    if indexes.len() == 0 {
        Seq::empty()
    } else {
        let rest = sync_steps(indexes.drop_last(), old_item, new_item, system_default);
        if is_synchronous(indexes.last(), system_default) {
            rest + steps_for((indexes.len() - 1) as usize, indexes.last(), old_item, new_item)
        } else {
            rest
        }
    }
}

/// What an optional borrowed item holds.
pub open spec fn opt_item_ref(i: Option<&Item>) -> Option<Map<Seq<char>, AttributeView>> {
    match i {
        Some(i) => Some(i@),
        None => None,
    }
}

/// Plan the index changes of a write: each synchronous index loses the row of the
/// old item and gains the row of the new one, where the item has its keys.
pub fn plan_sync(
    indexes: &Vec<IndexMeta>,
    old_item: Option<&Item>,
    new_item: Option<&Item>,
    system_default_delay: u64,
) -> (r: Vec<SyncStep>)
    ensures
        r@ == sync_steps(
            indexes@,
            opt_item_ref(old_item),
            opt_item_ref(new_item),
            system_default_delay,
        ),
        forall|k: int|
            0 <= k < r@.len() ==> match #[trigger] r@[k] {
                SyncStep::DeleteOld(i) => i < indexes@.len() && old_item is Some,
                SyncStep::InsertNew(i) => i < indexes@.len() && new_item is Some,
            },
{
    let mut out: Vec<SyncStep> = Vec::new();
    let ghost old_view = opt_item_ref(old_item);
    let ghost new_view = opt_item_ref(new_item);
    let mut i: usize = 0;
    while i < indexes.len()
        invariant
            i <= indexes@.len(),
            old_view == opt_item_ref(old_item),
            new_view == opt_item_ref(new_item),
            out@ == sync_steps(
                indexes@.take(i as int),
                old_view,
                new_view,
                system_default_delay,
            ),
            forall|k: int|
                0 <= k < out@.len() ==> match #[trigger] out@[k] {
                    SyncStep::DeleteOld(j) => j < indexes@.len() && old_item is Some,
                    SyncStep::InsertNew(j) => j < indexes@.len() && new_item is Some,
                },
        decreases indexes@.len() - i,
    {
        let ghost before = out@;
        proof {
            assert(indexes@.take(i + 1).drop_last() =~= indexes@.take(i as int));
        }
        if str_eq(indexes[i].index_type.as_str(), "LSI") || effective_delay(
            &indexes[i],
            system_default_delay,
        ) == 0 {
            match old_item {
                Some(old) => if item_has_index_keys(old, indexes[i].key_schema.as_slice()) {
                    out.push(SyncStep::DeleteOld(i));
                },
                None => {},
            }
            match new_item {
                Some(new) => if item_has_index_keys(new, indexes[i].key_schema.as_slice()) {
                    out.push(SyncStep::InsertNew(i));
                },
                None => {},
            }
            proof {
                assert(out@ =~= before + steps_for(i, indexes@[i as int], old_view, new_view));
            }
        }
        i = i + 1;
    }
    proof {
        assert(indexes@.take(i as int) =~= indexes@);
    }
    out
}

/// One sort key column of an index row: its type, and its value where the item
/// has the attribute.
#[derive(Debug, PartialEq, Eq)]
pub struct KeyColumn {
    pub sk_type: ScalarAttributeType,
    pub value: Option<SortKeyValue>,
}

/// The key of an index row: the partition key texts under the index and the base
/// schema, and the sort keys of both.
#[derive(Debug, PartialEq, Eq)]
pub struct IndexRowKey {
    pub index_pk: String,
    pub base_pk: String,
    pub index_sks: Vec<KeyColumn>,
    pub base_sks: Vec<KeyColumn>,
}

/// The attributes of an item that fill the sort key columns, in order, each with
/// the type of its column.
pub fn sort_key_attributes(item: &Item, keys: &Vec<(&str, ScalarAttributeType)>) -> (r: Vec<
    (ScalarAttributeType, Option<AttributeValue>),
>)
    ensures
        r@.len() == keys@.len(),
        forall|i: int|
            0 <= i < keys@.len() ==> (#[trigger] r@[i]).0 == keys@[i].1 && match r@[i].1 {
                Some(v) => item@.dom().contains(keys@[i].0@) && item@[keys@[i].0@] == v@,
                None => !item@.dom().contains(keys@[i].0@),
            },
{
    let mut out: Vec<(ScalarAttributeType, Option<AttributeValue>)> = Vec::new();
    let mut i: usize = 0;
    while i < keys.len()
        invariant
            i <= keys@.len(),
            out@.len() == i,
            forall|k: int|
                0 <= k < i ==> (#[trigger] out@[k]).0 == keys@[k].1 && match out@[k].1 {
                    Some(v) => item@.dom().contains(keys@[k].0@) && item@[keys@[k].0@] == v@,
                    None => !item@.dom().contains(keys@[k].0@),
                },
        decreases keys@.len() - i,
    {
        let value = match item.get(keys[i].0) {
            Some(v) => Some(v.clone()),
            None => None,
        };
        out.push((keys[i].1, value));
        i = i + 1;
    }
    out
}

/// The value of a key column; a column without one is left unset.
pub open spec fn column_bind(c: KeyColumn) -> CqlView {
    match c.value {
        Some(v) => sk_bind(v@),
        None => CqlView::NotSet,
    }
}

/// The names of key columns.
pub open spec fn column_names(prefix: Seq<char>, cols: Seq<KeyColumn>) -> Seq<Seq<char>> {
    Seq::new(cols.len(), |i: int| prefix + sk_col_n(i as nat, cols[i].sk_type))
}

/// The equality tests of key columns.
pub open spec fn column_tests(prefix: Seq<char>, cols: Seq<KeyColumn>) -> Seq<Seq<char>> {
    Seq::new(cols.len(), |i: int| prefix + sk_col_n(i as nat, cols[i].sk_type) + " = ?"@)
}

/// The values of key columns.
pub open spec fn column_binds(cols: Seq<KeyColumn>) -> Seq<CqlView> {
    cols.map_values(|c: KeyColumn| column_bind(c))
}

fn push_columns(
    names: &mut Vec<String>,
    values: &mut Vec<CqlValue>,
    prefix: &str,
    cols: &Vec<KeyColumn>,
    as_tests: bool,
)
    ensures
        views(final(names)@) == views(old(names)@) + (if as_tests {
            column_tests(prefix@, cols@)
        } else {
            column_names(prefix@, cols@)
        }),
        values_view(final(values)@) == values_view(old(values)@) + column_binds(cols@),
{
    let ghost names0 = views(names@);
    let ghost values0 = values_view(values@);
    let ghost texts = if as_tests {
        column_tests(prefix@, cols@)
    } else {
        column_names(prefix@, cols@)
    };
    let ghost binds = column_binds(cols@);
    let mut i: usize = 0;
    proof {
        assert(names0 + texts.take(0) =~= names0);
        assert(values0 + binds.take(0) =~= values0);
    }
    while i < cols.len()
        invariant
            i <= cols@.len(),
            texts == (if as_tests {
                column_tests(prefix@, cols@)
            } else {
                column_names(prefix@, cols@)
            }),
            binds == column_binds(cols@),
            views(names@) == names0 + texts.take(i as int),
            values_view(values@) == values0 + binds.take(i as int),
        decreases cols@.len() - i,
    {
        let col = sk_column_n(i, cols[i].sk_type);
        if as_tests {
            push_text(names, cat3(prefix, col.as_str(), " = ?"));
        } else {
            push_text(names, cat2(prefix, col.as_str()));
        }
        let value = match &cols[i].value {
            Some(v) => sk_to_value(v),
            None => CqlValue::NotSet,
        };
        push_value(values, value);
        i = i + 1;
        proof {
            assert(views(names@) =~= names0 + texts.take(i as int));
            assert(values_view(values@) =~= values0 + binds.take(i as int));
        }
    }
    proof {
        assert(texts.take(i as int) =~= texts);
        assert(binds.take(i as int) =~= binds);
    }
}

/// The statement that removes an index row, by all its key columns.
pub open spec fn delete_row_stmt(
    account_keyspace: Seq<char>,
    idx_table: Seq<char>,
    key: IndexRowKey,
) -> StatementView {
    stmt(
        "DELETE FROM "@ + account_keyspace + "."@ + idx_table + " WHERE "@ + joined(
            seq!["pk = ?"@] + column_tests(""@, key.index_sks@) + seq!["base_pk = ?"@]
                + column_tests("base_"@, key.base_sks@),
            " AND "@,
        ),
        seq![CqlView::Text(key.index_pk@)] + column_binds(key.index_sks@) + seq![
            CqlView::Text(key.base_pk@),
        ] + column_binds(key.base_sks@),
    )
}

/// The statement that adds an index row.
pub open spec fn insert_row_stmt(
    account_keyspace: Seq<char>,
    idx_table: Seq<char>,
    key: IndexRowKey,
    item_json: Seq<char>,
) -> StatementView {
    let cols = seq!["pk"@] + column_names(""@, key.index_sks@) + seq!["base_pk"@] + column_names(
        "base_"@,
        key.base_sks@,
    ) + seq!["item_data"@];
    stmt(
        "INSERT INTO "@ + account_keyspace + "."@ + idx_table + " ("@ + joined(cols, ", "@)
            + ") VALUES ("@ + placeholders(cols.len()) + ")"@,
        seq![CqlView::Text(key.index_pk@)] + column_binds(key.index_sks@) + seq![
            CqlView::Text(key.base_pk@),
        ] + column_binds(key.base_sks@) + seq![CqlView::Text(item_json)],
    )
}

/// Delete a row from an index table using index keys and base table keys.
pub fn delete_index_row_multi(account_keyspace: &str, idx_table: &str, key: &IndexRowKey) -> (r:
    Statement)
    ensures
        r@ == delete_row_stmt(account_keyspace@, idx_table@, *key),
{
    let mut tests: Vec<String> = Vec::new();
    let mut values: Vec<CqlValue> = Vec::new();
    push_text(&mut tests, "pk = ?".to_owned());
    push_value(&mut values, text_value(key.index_pk.as_str()));
    push_columns(&mut tests, &mut values, "", &key.index_sks, true);
    push_text(&mut tests, "base_pk = ?".to_owned());
    push_value(&mut values, text_value(key.base_pk.as_str()));
    push_columns(&mut tests, &mut values, "base_", &key.base_sks, true);
    proof {
        assert(views(tests@) =~= seq!["pk = ?"@] + column_tests(""@, key.index_sks@)
            + seq!["base_pk = ?"@] + column_tests("base_"@, key.base_sks@));
        assert(values_view(values@) =~= seq![CqlView::Text(key.index_pk@)] + column_binds(
            key.index_sks@,
        ) + seq![CqlView::Text(key.base_pk@)] + column_binds(key.base_sks@));
    }
    Statement {
        cql: cat6(
            "DELETE FROM ",
            account_keyspace,
            ".",
            idx_table,
            " WHERE ",
            join(&tests, " AND ").as_str(),
        ),
        values,
    }
}

/// Insert a row into an index table with multi-part key support.
pub fn insert_index_row_multi(
    account_keyspace: &str,
    idx_table: &str,
    key: &IndexRowKey,
    item_json: &str,
) -> (r: Statement)
    ensures
        r@ == insert_row_stmt(account_keyspace@, idx_table@, *key, item_json@),
{
    let mut cols: Vec<String> = Vec::new();
    let mut values: Vec<CqlValue> = Vec::new();
    push_text(&mut cols, "pk".to_owned());
    push_value(&mut values, text_value(key.index_pk.as_str()));
    push_columns(&mut cols, &mut values, "", &key.index_sks, false);
    push_text(&mut cols, "base_pk".to_owned());
    push_value(&mut values, text_value(key.base_pk.as_str()));
    push_columns(&mut cols, &mut values, "base_", &key.base_sks, false);
    push_text(&mut cols, "item_data".to_owned());
    push_value(&mut values, text_value(item_json));
    let ghost names = seq!["pk"@] + column_names(""@, key.index_sks@) + seq!["base_pk"@]
        + column_names("base_"@, key.base_sks@) + seq!["item_data"@];
    proof {
        assert(views(cols@) =~= names);
        assert(views(cols@).len() == cols@.len());
        assert(values_view(values@) =~= seq![CqlView::Text(key.index_pk@)] + column_binds(
            key.index_sks@,
        ) + seq![CqlView::Text(key.base_pk@)] + column_binds(key.base_sks@) + seq![
            CqlView::Text(item_json@),
        ]);
    }
    let marks = placeholder_list(cols.len());
    let head = cat6(
        "INSERT INTO ",
        account_keyspace,
        ".",
        idx_table,
        " (",
        join(&cols, ", ").as_str(),
    );
    Statement { cql: cat4(head.as_str(), ") VALUES (", marks.as_str(), ")"), values }
}

/// Sort key columns, each with its value.
pub open spec fn sort_slots(prefix: Seq<char>, cols: Seq<KeyColumn>) -> Seq<Slot> {
    Seq::new(
        cols.len(),
        |i: int| bind(prefix + sk_col_n(i as nat, cols[i].sk_type), column_bind(cols[i])),
    )
}

/// The columns that address an index row, with their values.
pub open spec fn index_slots(key: IndexRowKey) -> Seq<Slot> {
    seq![bind("pk"@, CqlView::Text(key.index_pk@))] + sort_slots(""@, key.index_sks@) + seq![
        bind("base_pk"@, CqlView::Text(key.base_pk@)),
    ] + sort_slots("base_"@, key.base_sks@)
}

/// Add the row of an item to an index table.
pub open spec fn add_command(target: Seq<char>, key: IndexRowKey, item_json: Seq<char>) -> Command {
    Command::Insert {
        target,
        key: index_slots(key),
        cells: seq![bind("item_data"@, CqlView::Text(item_json))],
        guard: Guard::Always,
    }
}

/// Remove the row of an item from an index table.
pub open spec fn drop_command(target: Seq<char>, key: IndexRowKey) -> Command {
    Command::Delete { target, key: index_slots(key), guard: Guard::Always }
}

/// The value of a bound slot.
pub open spec fn bound_of(s: Slot) -> CqlView {
    match s.term {
        Term::Bound(v) => v,
        _ => CqlView::Null,
    }
}

proof fn lemma_all_bound(slots: Seq<Slot>)
    requires
        forall|i: int| 0 <= i < slots.len() ==> (#[trigger] slots[i]).term is Bound,
    ensures
        bounds(slots) == slots.map_values(|s: Slot| bound_of(s)),
    decreases slots.len(),
{
    let f = |s: Slot| bound_of(s);
    if slots.len() > 0 {
        let rest = slots.drop_last();
        assert forall|i: int| 0 <= i < rest.len() implies (#[trigger] rest[i]).term is Bound by {
            assert(rest[i] == slots[i]);
        }
        lemma_all_bound(rest);
        assert(slots.last() == slots[slots.len() - 1]);
        assert(bounds(slots) =~= slots.map_values(f));
    } else {
        assert(bounds(slots) =~= slots.map_values(f));
    }
}

#[verifier::spinoff_prover]
#[verifier::rlimit(60)]
proof fn lemma_index_slots(key: IndexRowKey)
    ensures
        forall|i: int| 0 <= i < index_slots(key).len() ==> (#[trigger] index_slots(key)[i]).term is Bound,
        bounds(index_slots(key)) == seq![CqlView::Text(key.index_pk@)] + column_binds(
            key.index_sks@,
        ) + seq![CqlView::Text(key.base_pk@)] + column_binds(key.base_sks@),
        columns_of(index_slots(key)) == seq!["pk"@] + column_names(""@, key.index_sks@)
            + seq!["base_pk"@] + column_names("base_"@, key.base_sks@),
        equations(index_slots(key)) == seq!["pk = ?"@] + column_tests(""@, key.index_sks@)
            + seq!["base_pk = ?"@] + column_tests("base_"@, key.base_sks@),
{
    let k = index_slots(key);
    lemma_all_bound(k);
    assert(bounds(k) =~= seq![CqlView::Text(key.index_pk@)] + column_binds(key.index_sks@) + seq![
        CqlView::Text(key.base_pk@),
    ] + column_binds(key.base_sks@));
    assert(columns_of(k) =~= seq!["pk"@] + column_names(""@, key.index_sks@) + seq!["base_pk"@]
        + column_names("base_"@, key.base_sks@));
    reveal_strlit(" = ?");
    reveal_strlit(" = ");
    reveal_strlit("?");
    reveal_strlit("pk = ?");
    reveal_strlit("pk");
    reveal_strlit("base_pk = ?");
    reveal_strlit("base_pk");
    assert("pk = ?"@ =~= "pk"@ + " = "@ + "?"@);
    assert("base_pk = ?"@ =~= "base_pk"@ + " = "@ + "?"@);
    let want = seq!["pk = ?"@] + column_tests(""@, key.index_sks@) + seq!["base_pk = ?"@]
        + column_tests("base_"@, key.base_sks@);
    let n = key.index_sks@.len() as int;
    assert forall|i: int| 0 <= i < k.len() implies equations(k)[i] == want[i] by {
        assert(equations(k)[i] == k[i].column + " = "@ + "?"@);
        assert(k[i].column + " = "@ + "?"@ =~= k[i].column + " = ?"@);
        if 0 < i <= n {
            assert(want[i] == column_tests(""@, key.index_sks@)[i - 1]);
        } else if i > n + 1 {
            assert(want[i] == column_tests("base_"@, key.base_sks@)[i - n - 2]);
        }
    }
    assert(equations(k) =~= want);
}

#[verifier::spinoff_prover]
#[verifier::rlimit(60)]
proof fn lemma_index_texts(
    ks: Seq<char>,
    table: Seq<char>,
    key: IndexRowKey,
    item_json: Seq<char>,
)
    ensures
        written(add_command(ks + "."@ + table, key, item_json)) == insert_row_stmt(
            ks,
            table,
            key,
            item_json,
        ),
        written(drop_command(ks + "."@ + table, key)) == delete_row_stmt(ks, table, key),
{
    lemma_index_slots(key);
    let k = index_slots(key);
    let target = ks + "."@ + table;
    let d = written(drop_command(target, key));
    let x = delete_row_stmt(ks, table, key);
    assert(d.cql =~= x.cql);
    assert(d.values =~= x.values);
    let item = bind("item_data"@, CqlView::Text(item_json));
    let all = k + seq![item];
    let cols = seq!["pk"@] + column_names(""@, key.index_sks@) + seq!["base_pk"@] + column_names(
        "base_"@,
        key.base_sks@,
    ) + seq!["item_data"@];
    assert(columns_of(all) =~= columns_of(k) + seq!["item_data"@]);
    assert(columns_of(all) =~= cols);
    assert(terms_of(all) =~= Seq::new(cols.len(), |i: int| "?"@)) by {
        assert forall|i: int| 0 <= i < all.len() implies terms_of(all)[i] == "?"@ by {
            if i < k.len() {
                assert(all[i] == k[i]);
            }
        }
    }
    assert(all.drop_last() =~= k);
    let w = written(add_command(target, key, item_json));
    let y = insert_row_stmt(ks, table, key, item_json);
    assert(w.cql =~= y.cql);
    assert(w.values =~= y.values);
}

proof fn lemma_address_keeps(key: Seq<Slot>, more: Seq<Slot>, column: Seq<char>)
    requires
        forall|i: int| 0 <= i < more.len() ==> (#[trigger] more[i]).column != column,
    ensures
        address(key + more).dom().contains(column) == address(key).dom().contains(column),
        address(key).dom().contains(column) ==> address(key + more)[column] == address(key)[column],
    decreases more.len(),
{
    if more.len() == 0 {
        assert(key + more =~= key);
    } else {
        let rest = more.drop_last();
        assert forall|i: int| 0 <= i < rest.len() implies (#[trigger] rest[i]).column != column by {
            assert(rest[i] == more[i]);
        }
        lemma_address_keeps(key, rest, column);
        assert((key + more).drop_last() =~= key + rest);
        assert((key + more).last() == more[more.len() - 1]);
    }
}

proof fn lemma_sort_columns(prefix: Seq<char>, cols: Seq<KeyColumn>, i: int)
    requires
        0 <= i < cols.len(),
    ensures
        sort_slots(prefix, cols)[i].column.len() >= prefix.len() + 2,
        forall|j: int| 0 <= j < prefix.len() ==> sort_slots(prefix, cols)[i].column[j] == prefix[j],
        sort_slots(prefix, cols)[i].column[prefix.len() as int] == 's',
{
    reveal_strlit("sk_s");
    reveal_strlit("sk_n");
    reveal_strlit("sk_b");
    reveal_strlit("sk");
    let c = sk_col_n(i as nat, cols[i].sk_type);
    assert(c.len() >= 2 && c[0] == 's');
    assert(sort_slots(prefix, cols)[i].column == prefix + c);
}

#[verifier::spinoff_prover]
#[verifier::rlimit(60)]
proof fn lemma_index_address(key: IndexRowKey)
    ensures
        address(index_slots(key)).dom().contains("pk"@),
        address(index_slots(key))["pk"@] == CqlView::Text(key.index_pk@),
        address(index_slots(key)).dom().contains("base_pk"@),
        address(index_slots(key))["base_pk"@] == CqlView::Text(key.base_pk@),
{
    reveal_strlit("pk");
    reveal_strlit("base_pk");
    reveal_strlit("");
    reveal_strlit("base_");
    let a = seq![bind("pk"@, CqlView::Text(key.index_pk@))];
    let b = sort_slots(""@, key.index_sks@);
    let m = bind("base_pk"@, CqlView::Text(key.base_pk@));
    let c = seq![m];
    let d = sort_slots("base_"@, key.base_sks@);
    reveal_with_fuel(address, 2);
    assert(a.drop_last() =~= Seq::empty());
    assert(address(a)["pk"@] == CqlView::Text(key.index_pk@));
    assert forall|i: int| 0 <= i < b.len() implies (#[trigger] b[i]).column != "pk"@ by {
        lemma_sort_columns(""@, key.index_sks@, i);
        assert("pk"@[0] == 'p');
    }
    assert forall|i: int| 0 <= i < d.len() implies (#[trigger] d[i]).column != "pk"@
        && d[i].column != "base_pk"@ by {
        lemma_sort_columns("base_"@, key.base_sks@, i);
        assert("base_pk"@[5] == 'p' && "base_"@.len() == 5);
    }
    lemma_address_keeps(a, b, "pk"@);
    assert("base_pk"@.len() == 7 && "pk"@.len() == 2);
    assert forall|i: int| 0 <= i < c.len() implies (#[trigger] c[i]).column != "pk"@ by {
        assert(c[i] == m);
    }
    lemma_address_keeps(a + b, c, "pk"@);
    lemma_address_keeps(a + b + c, d, "pk"@);
    assert((a + b + c).drop_last() =~= a + b);
    assert((a + b + c).last() == m);
    lemma_address_keeps(a + b + c, d, "base_pk"@);
    assert(index_slots(key) == a + b + c + d);
}

/// The deletion of an index row addresses the row that the insertion of the same key
/// wrote: under the partition key of the index, and the partition key of the base
/// table. So a row that was added and then removed by its key leaves the index table
/// without it, and as it was where it was not there before. The rows of other
/// partition keys, of the index or of the base table, are left alone.
pub proof fn law_index_row_is_removed(
    ks: Seq<char>,
    table: Seq<char>,
    key: IndexRowKey,
    other: IndexRowKey,
    item_json: Seq<char>,
    t: Table,
)
    ensures
        ({
            let target = ks + "."@ + table;
            let add = add_command(target, key, item_json);
            let remove = drop_command(target, key);
            let a = address_of(add);
            let b = address_of(drop_command(target, other));
            &&& written(add) == insert_row_stmt(ks, table, key, item_json)
            &&& written(remove) == delete_row_stmt(ks, table, key)
            &&& address_of(remove) == a
            &&& held(Some(a), "pk"@) == CqlView::Text(key.index_pk@)
            &&& held(Some(a), "base_pk"@) == CqlView::Text(key.base_pk@)
            &&& run(add, t).dom().contains(a)
            &&& held(row_at(run(add, t), a), "item_data"@) == CqlView::Text(item_json)
            &&& run(remove, run(add, t)) == t.remove(a)
            &&& !t.dom().contains(a) ==> run(remove, run(add, t)) == t
            &&& key.index_pk@ != other.index_pk@ || key.base_pk@ != other.base_pk@ ==> a != b
                && row_at(run(remove, t), b) == row_at(t, b) && row_at(run(add, t), b) == row_at(
                t,
                b,
            )
        }),
{
    lemma_index_texts(ks, table, key, item_json);
    lemma_index_address(key);
    lemma_index_address(other);
    let target = ks + "."@ + table;
    let add = add_command(target, key, item_json);
    let remove = drop_command(target, key);
    let a = address_of(add);
    let item = bind("item_data"@, CqlView::Text(item_json));
    let cells = seq![item];
    assert(cells.drop_last() =~= Seq::empty());
    reveal_with_fuel(after_set, 2);
    assert(run(remove, run(add, t)) =~= t.remove(a));
    if !t.dom().contains(a) {
        assert(t.remove(a) =~= t);
    }
}

/// An index change with the row key that it needs, and the JSON text of the
/// projected item for an insertion.
#[derive(Debug, PartialEq, Eq)]
pub struct IndexWrite {
    pub step: SyncStep,
    pub key: IndexRowKey,
    pub item_json: String,
}

/// The position of the index that a step changes.
pub open spec fn step_index(s: SyncStep) -> usize {
    match s {
        SyncStep::DeleteOld(i) => i,
        SyncStep::InsertNew(i) => i,
    }
}

/// The statement of an index change.
pub open spec fn write_stmt(
    account_keyspace: Seq<char>,
    indexes: Seq<IndexMeta>,
    w: IndexWrite,
) -> StatementView {
    let table = index_table(indexes[step_index(w.step) as int].index_id@);
    match w.step {
        SyncStep::DeleteOld(_) => delete_row_stmt(account_keyspace, table, w.key),
        SyncStep::InsertNew(_) => insert_row_stmt(account_keyspace, table, w.key, w.item_json@),
    }
}

/// The statements of a list of index changes, in order.
pub open spec fn write_stmts(
    account_keyspace: Seq<char>,
    indexes: Seq<IndexMeta>,
    writes: Seq<IndexWrite>,
) -> Seq<StatementView> {
    writes.map_values(|w: IndexWrite| write_stmt(account_keyspace, indexes, w))
}

/// Synchronously update index tables: append the statements of the planned
/// changes to the batch of the base table write.
pub fn sync_indexes(
    batch: &mut Vec<Statement>,
    account_keyspace: &str,
    indexes: &Vec<IndexMeta>,
    writes: &Vec<IndexWrite>,
)
    requires
        forall|k: int|
            0 <= k < writes@.len() ==> step_index((#[trigger] writes@[k]).step) < indexes@.len(),
    ensures
        statements_view(final(batch)@) == statements_view(old(batch)@) + write_stmts(
            account_keyspace@,
            indexes@,
            writes@,
        ),
{
    let ghost start = statements_view(batch@);
    let ghost all = write_stmts(account_keyspace@, indexes@, writes@);
    let mut k: usize = 0;
    proof {
        assert(start + all.take(0) =~= start);
    }
    while k < writes.len()
        invariant
            k <= writes@.len(),
            all == write_stmts(account_keyspace@, indexes@, writes@),
            forall|j: int|
                0 <= j < writes@.len() ==> step_index((#[trigger] writes@[j]).step)
                    < indexes@.len(),
            statements_view(batch@) == start + all.take(k as int),
        decreases writes@.len() - k,
    {
        let w = &writes[k];
        assert(step_index(writes@[k as int].step) < indexes@.len());
        let s = match w.step {
            SyncStep::DeleteOld(i) => {
                let table = index_table_name(indexes[i].index_id.as_str());
                delete_index_row_multi(account_keyspace, table.as_str(), &w.key)
            },
            SyncStep::InsertNew(i) => {
                let table = index_table_name(indexes[i].index_id.as_str());
                insert_index_row_multi(
                    account_keyspace,
                    table.as_str(),
                    &w.key,
                    w.item_json.as_str(),
                )
            },
        };
        push_statement(batch, s);
        k = k + 1;
        proof {
            assert(statements_view(batch@) =~= start + all.take(k as int));
        }
    }
    proof {
        assert(all.take(k as int) =~= all);
    }
}

/// The deferred indexes of a table, each by its position and delay, in order.
pub open spec fn deferred(indexes: Seq<IndexMeta>, system_default: u64) -> Seq<(usize, u64)>
    decreases indexes.len(),
{
    if indexes.len() == 0 {
        Seq::empty()
    } else {
        let rest = deferred(indexes.drop_last(), system_default);
        if is_deferred(indexes.last(), system_default) {
            rest.push(
                (
                    (indexes.len() - 1) as usize,
                    delay_of(indexes.last().propagation_delay_ms, system_default),
                ),
            )
        } else {
            rest
        }
    }
}

/// The deferred indexes of a table, each with its delay. A write enqueues one
/// queue row for each of them.
pub fn plan_deferred(indexes: &Vec<IndexMeta>, system_default_delay: u64) -> (r: Vec<(usize, u64)>)
    ensures
        r@ == deferred(indexes@, system_default_delay),
        forall|k: int| 0 <= k < r@.len() ==> (#[trigger] r@[k]).0 < indexes@.len() && r@[k].1 > 0,
{
    let mut out: Vec<(usize, u64)> = Vec::new();
    let mut i: usize = 0;
    while i < indexes.len()
        invariant
            i <= indexes@.len(),
            out@ == deferred(indexes@.take(i as int), system_default_delay),
            forall|k: int|
                0 <= k < out@.len() ==> (#[trigger] out@[k]).0 < indexes@.len() && out@[k].1 > 0,
        decreases indexes@.len() - i,
    {
        proof {
            assert(indexes@.take(i + 1).drop_last() =~= indexes@.take(i as int));
        }
        if !str_eq(indexes[i].index_type.as_str(), "LSI") {
            let delay: u64 = effective_delay(&indexes[i], system_default_delay);
            if delay != 0 {
                out.push((i, delay));
            }
        }
        i = i + 1;
    }
    proof {
        assert(indexes@.take(i as int) =~= indexes@);
    }
    out
}

/// The worker partition of a queue row: that of the base partition key of the new
/// item, else of the old one; 0 where there is neither.
pub fn worker_partition(base_pk: Option<&str>) -> (r: i32)
    ensures
        r == match base_pk {
            Some(pk) => worker_of(pk@),
            None => 0,
        },
{
    match base_pk {
        Some(pk) => partition_for(pk),
        None => 0,
    }
}

/// The statement that reads the last ready time of a worker partition.
pub fn select_last_ready(account_keyspace: &str, worker_partition: i32) -> (r: Statement)
    ensures
        r@ == stmt(
            "SELECT last_ready_at FROM "@ + account_keyspace@
                + ".gsi_pending WHERE worker_partition = ? LIMIT 1"@,
            seq![CqlView::Int(worker_partition)],
        ),
{
    stmt1(
        cat3(
            "SELECT last_ready_at FROM ",
            account_keyspace,
            ".gsi_pending WHERE worker_partition = ? LIMIT 1",
        ),
        CqlValue::Int(worker_partition),
    )
}

/// The last ready time that a row holds, 0 where there is none.
pub open spec fn last_ready(row: Option<Row>) -> i64 {
    match row {
        Some(row) => match bigint_of(row.cell("last_ready_at"@)) {
            Some(t) => t,
            None => 0,
        },
        None => 0,
    }
}

/// The ready time of a queue row: now plus the jittered delay, but after the last
/// ready time of the partition.
pub fn ready_at(now_ms: i64, jitter_ms: u64, row: Option<Row>) -> (r: i64)
    requires
        jitter_ms <= i64::MAX,
        now_ms + jitter_ms <= i64::MAX,
        last_ready(row) < i64::MAX,
    ensures
        r == (if now_ms + jitter_ms > last_ready(row) {
            now_ms + jitter_ms
        } else {
            last_ready(row) + 1
        }),
        r > last_ready(row),
        r >= now_ms + jitter_ms,
{
    let last: i64 = match &row {
        Some(row) => match get_optional::<i64>(row, "last_ready_at") {
            Some(t) => t,
            None => 0,
        },
        None => 0,
    };
    let jittered: i64 = now_ms + jitter_ms as i64;
    if jittered > last {
        jittered
    } else {
        last + 1
    }
}

/// A text value that may be absent; an absent one is left unset.
pub open spec fn opt_text_bind(t: Option<&String>) -> CqlView {
    match t {
        Some(s) => CqlView::Text(s@),
        None => CqlView::NotSet,
    }
}

/// The statement that enqueues a deferred index update. It sets the last ready
/// time of the partition to the ready time of the row.
pub fn insert_pending(
    account_keyspace: &str,
    worker_partition: i32,
    ready_at_ms: i64,
    table_id: &str,
    old_json: Option<&String>,
    new_json: Option<&String>,
    context_json: &str,
) -> (r: Statement)
    ensures
        r@ == stmt(
            "INSERT INTO "@ + account_keyspace@
                + ".gsi_pending (worker_partition, last_ready_at, ready_at, id, table_id, old_item, new_item, index_context) VALUES (?, ?, ?, now(), ?, ?, ?, ?)"@,
            seq![
                CqlView::Int(worker_partition),
                CqlView::BigInt(ready_at_ms),
                CqlView::BigInt(ready_at_ms),
                CqlView::Text(table_id@),
                opt_text_bind(old_json),
                opt_text_bind(new_json),
                CqlView::Text(context_json@),
            ],
        ),
{
    let old_value = match old_json {
        Some(s) => text_value(s.as_str()),
        None => CqlValue::NotSet,
    };
    let new_value = match new_json {
        Some(s) => text_value(s.as_str()),
        None => CqlValue::NotSet,
    };
    let r = Statement {
        cql: cat3(
            "INSERT INTO ",
            account_keyspace,
            ".gsi_pending (worker_partition, last_ready_at, ready_at, id, table_id, old_item, new_item, index_context) VALUES (?, ?, ?, now(), ?, ?, ?, ?)",
        ),
        values: vec![
            CqlValue::Int(worker_partition),
            CqlValue::BigInt(ready_at_ms),
            CqlValue::BigInt(ready_at_ms),
            text_value(table_id),
            old_value,
            new_value,
            text_value(context_json),
        ],
    };
    proof {
        assert(r@.values =~= seq![
            CqlView::Int(worker_partition),
            CqlView::BigInt(ready_at_ms),
            CqlView::BigInt(ready_at_ms),
            CqlView::Text(table_id@),
            opt_text_bind(old_json),
            opt_text_bind(new_json),
            CqlView::Text(context_json@),
        ]);
    }
    r
}

/// The statement that reads the index ids of a table.
pub fn select_index_ids(catalog_keyspace: &str, table_id: &str) -> (r: Statement)
    ensures
        r@ == stmt(
            "SELECT index_id FROM "@ + catalog_keyspace@ + ".indexes WHERE table_id = ?"@,
            seq![CqlView::Text(table_id@)],
        ),
{
    stmt1(
        cat3("SELECT index_id FROM ", catalog_keyspace, ".indexes WHERE table_id = ?"),
        text_value(table_id),
    )
}

/// The statement that removes all index metadata of a table.
pub fn delete_index_metadata(catalog_keyspace: &str, table_id: &str) -> (r: Statement)
    ensures
        r@ == stmt(
            "DELETE FROM "@ + catalog_keyspace@ + ".indexes WHERE table_id = ?"@,
            seq![CqlView::Text(table_id@)],
        ),
{
    stmt1(
        cat3("DELETE FROM ", catalog_keyspace, ".indexes WHERE table_id = ?"),
        text_value(table_id),
    )
}

/// The index ids of a table and the statements that drop their data tables, in
/// order. A row without an id fails them all.
pub fn delete_indexes_for_table(account_keyspace: &str, rows: &Vec<Row>) -> (r: Result<
    (Vec<String>, Vec<Statement>),
    StorageError,
>)
    ensures
        match r {
            Ok((ids, drops)) => {
                &&& ids@.len() == rows@.len()
                &&& forall|i: int|
                    0 <= i < ids@.len() ==> rows@[i].cell("index_id"@) == Cell::Text(
                        #[trigger] ids@[i],
                    )
                &&& statements_view(drops@) == ids@.map_values(
                    |id: String| drop_index_stmt(account_keyspace@, id@),
                )
            },
            Err(e) => is_internal(e, "Database error"@) && exists|i: int|
                0 <= i < rows@.len() && !((#[trigger] rows@[i]).cell("index_id"@) is Text),
        },
{
    let mut ids: Vec<String> = Vec::new();
    let mut drops: Vec<Statement> = Vec::new();
    let mut i: usize = 0;
    proof {
        assert(statements_view(drops@) =~= ids@.map_values(
            |id: String| drop_index_stmt(account_keyspace@, id@),
        ));
    }
    while i < rows.len()
        invariant
            i <= rows@.len(),
            ids@.len() == i,
            forall|k: int|
                0 <= k < i ==> rows@[k].cell("index_id"@) == Cell::Text(#[trigger] ids@[k]),
            statements_view(drops@) == ids@.map_values(
                |id: String| drop_index_stmt(account_keyspace@, id@),
            ),
        decreases rows@.len() - i,
    {
        let id: String = match get_column::<String, StorageError>(&rows[i], "index_id") {
            Ok(id) => id,
            Err(e) => {
                assert(!(rows@[i as int].cell("index_id"@) is Text));
                return Err(e);
            },
        };
        push_statement(&mut drops, CassandraEngine::drop_index_data_table(account_keyspace, id.as_str()));
        ids.push(id);
        i = i + 1;
        proof {
            assert(statements_view(drops@) =~= ids@.map_values(
                |id: String| drop_index_stmt(account_keyspace@, id@),
            ));
        }
    }
    Ok((ids, drops))
}

/// The statement that reads the id of one index.
pub fn select_index_id(catalog_keyspace: &str, table_id: &str, index_name: &str) -> (r: Statement)
    ensures
        r@ == stmt(
            "SELECT index_id FROM "@ + catalog_keyspace@
                + ".indexes WHERE table_id = ? AND index_name = ?"@,
            seq![CqlView::Text(table_id@), CqlView::Text(index_name@)],
        ),
{
    stmt2(
        cat3(
            "SELECT index_id FROM ",
            catalog_keyspace,
            ".indexes WHERE table_id = ? AND index_name = ?",
        ),
        text_value(table_id),
        text_value(index_name),
    )
}

/// Delete a specific index by name: its id, and the statements that remove its
/// metadata and then drop its data table. `IndexNotFound` where it has no row.
pub fn delete_index_by_name(
    catalog_keyspace: &str,
    account_keyspace: &str,
    table_id: &str,
    index_name: &str,
    row: Option<Row>,
) -> (r: Result<(String, Vec<Statement>), StorageError>)
    ensures
        match r {
            Ok((id, batch)) => {
                &&& row is Some
                &&& row->0.cell("index_id"@) == Cell::Text(id)
                &&& statements_view(batch@) == seq![
                    stmt(
                        "DELETE FROM "@ + catalog_keyspace@
                            + ".indexes WHERE table_id = ? AND index_name = ?"@,
                        seq![CqlView::Text(table_id@), CqlView::Text(index_name@)],
                    ),
                    drop_index_stmt(account_keyspace@, id@),
                ]
            },
            Err(e) => match row {
                None => e matches StorageError::IndexNotFound(m) && m@ == index_name@,
                Some(row) => !(row.cell("index_id"@) is Text) && is_internal(e, "Database error"@),
            },
        },
{
    let row = match row {
        Some(row) => row,
        None => {
            return Err(StorageError::IndexNotFound(index_name.to_owned()));
        },
    };
    let id: String = get_column(&row, "index_id")?;
    let mut batch: Vec<Statement> = Vec::new();
    push_statement(
        &mut batch,
        stmt2(
            cat3(
                "DELETE FROM ",
                catalog_keyspace,
                ".indexes WHERE table_id = ? AND index_name = ?",
            ),
            text_value(table_id),
            text_value(index_name),
        ),
    );
    push_statement(&mut batch, CassandraEngine::drop_index_data_table(account_keyspace, id.as_str()));
    proof {
        assert(statements_view(batch@) =~= seq![
            stmt(
                "DELETE FROM "@ + catalog_keyspace@
                    + ".indexes WHERE table_id = ? AND index_name = ?"@,
                seq![CqlView::Text(table_id@), CqlView::Text(index_name@)],
            ),
            drop_index_stmt(account_keyspace@, id@),
        ]);
    }
    Ok((id, batch))
}

} // verus!
