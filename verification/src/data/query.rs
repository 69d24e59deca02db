//! Query planning: the statements of a key query, its pagination over tables and
//! indexes, and how a page is cut from the rows.
use vstd::prelude::*;
use crate::cql::{
    push_value, sk_bind, sk_col, sk_column, sk_to_value, stmt, stmt1, stmt2, stmt3, stmt4,
    text_value, values_view, CqlValue, CqlView, Statement, StatementView,
};
use crate::data::ddl::{
    data_table, data_table_name, first_sort_key, index_table, index_table_name, sk_info,
};
use crate::data::index::IndexMeta;
use crate::error::{internal, is_internal, is_validation, validation, StorageError};
use crate::model::{
    clone_schema, opt_item, opt_sk, sk_type_of, AttributeValue, AttributeView, Item,
    KeySchemaElement, ScalarAttributeType, SortKeyValue, SortKeyView, TableKeyInfo,
};
use crate::text::{
    cat2, cat3, cat4, cat5, cat6, cat7, cat9, clone_bytes, nat_text, str_eq, u64_text,
};

verus! {

/// An operand of a key condition: a placeholder, with its value or the reason why
/// it has none, or anything else.
pub enum KeyOperand {
    Placeholder(Result<AttributeValue, String>),
    Other,
}

/// Resolve an expression (placeholder) to an `AttributeValue`.
pub fn resolve_expr_to_av(expr: KeyOperand) -> (r: Result<AttributeValue, StorageError>)
    ensures
        match expr {
            KeyOperand::Placeholder(Ok(v)) => r == Ok::<AttributeValue, StorageError>(v),
            KeyOperand::Placeholder(Err(m)) => r == Err::<AttributeValue, StorageError>(
                StorageError::Validation(m),
            ),
            KeyOperand::Other => r matches Err(e) && is_internal(
                e,
                "expected placeholder in key condition"@,
            ),
        },
{
    match expr {
        KeyOperand::Placeholder(Ok(v)) => Ok(v),
        KeyOperand::Placeholder(Err(m)) => Err(StorageError::Validation(m)),
        KeyOperand::Other => Err(internal("expected placeholder in key condition")),
    }
}

/// A comparison with the sort key.
#[derive(Clone, Copy, Debug, PartialEq, Eq, Structural)]
pub enum CompareOp {
    Eq,
    Ne,
    Lt,
    Le,
    Gt,
    Ge,
}

/// A condition on the sort key.
#[derive(Debug, PartialEq, Eq)]
pub enum SortKeyCondition {
    Compare { op: CompareOp, value: SortKeyValue },
    Between { low: SortKeyValue, high: SortKeyValue },
    BeginsWith { prefix: SortKeyValue },
}

/// The CQL sign of a comparison.
pub open spec fn op_text(op: CompareOp) -> Seq<char> {
    match op {
        CompareOp::Eq => "="@,
        CompareOp::Ne => "!="@,
        CompareOp::Lt => "<"@,
        CompareOp::Le => "<="@,
        CompareOp::Gt => ">"@,
        CompareOp::Ge => ">="@,
    }
}

fn op_str(op: CompareOp) -> (r: &'static str)
    ensures
        r@ == op_text(op),
{
    match op {
        CompareOp::Eq => "=",
        CompareOp::Ne => "!=",
        CompareOp::Lt => "<",
        CompareOp::Le => "<=",
        CompareOp::Gt => ">",
        CompareOp::Ge => ">=",
    }
}

/// The upper bound of the strings with a prefix.
pub open spec fn string_bound(prefix: Seq<char>) -> Seq<char> {
    prefix.push('\u{10FFFF}')
}

/// Compute upper bound for begins_with on strings.
/// Appends the maximum Unicode codepoint to create an exclusive upper bound.
pub fn string_upper_bound(prefix: &str) -> (r: String)
    ensures
        r@ == string_bound(prefix@),
{
    let mut s = prefix.to_owned();
    s.push('\u{10FFFF}');
    s
}

/// The next byte string of the same length, as a big-endian number; `None` where
/// every byte is at its maximum.
pub open spec fn successor(p: Seq<u8>) -> Option<Seq<u8>>
    decreases p.len(),
{
    if p.len() == 0 {
        None
    } else if p.last() < 255 {
        Some(p.drop_last().push((p.last() + 1) as u8))
    } else {
        match successor(p.drop_last()) {
            Some(q) => Some(q.push(0)),
            None => None,
        }
    }
}

spec fn zeros(n: nat) -> Seq<u8> {
    Seq::new(n, |i: int| 0u8)
}

proof fn lemma_successor_carry(p: Seq<u8>, i: int)
    requires
        0 <= i <= p.len(),
        forall|k: int| i <= k < p.len() ==> p[k] == 255,
    ensures
        successor(p) == match successor(p.take(i)) {
            Some(q) => Some(q + zeros((p.len() - i) as nat)),
            None => None::<Seq<u8>>,
        },
    decreases p.len() - i,
{
    if i == p.len() {
        assert(p.take(i) =~= p);
        if successor(p) is Some {
            assert(successor(p)->0 + zeros(0) =~= successor(p)->0);
        }
    } else {
        let d = p.drop_last();
        lemma_successor_carry(d, i);
        assert(d.take(i) =~= p.take(i));
        if successor(p.take(i)) is Some {
            let q = successor(p.take(i))->0;
            assert((q + zeros((d.len() - i) as nat)).push(0) =~= q + zeros((p.len() - i) as nat));
        }
    }
}

/// Lexicographic order on sequences of numbers.
pub open spec fn lex_less(a: Seq<int>, b: Seq<int>) -> bool
    decreases b.len(),
{
    if b.len() == 0 {
        false
    } else if a.len() == 0 {
        true
    } else {
        a[0] < b[0] || (a[0] == b[0] && lex_less(a.drop_first(), b.drop_first()))
    }
}

/// The code points of a text. Text is ordered by them.
pub open spec fn code_points(s: Seq<char>) -> Seq<int> {
    s.map_values(|c: char| c as int)
}

/// The values of a byte string. Blobs are ordered by them.
pub open spec fn byte_values(s: Seq<u8>) -> Seq<int> {
    s.map_values(|b: u8| b as int)
}

proof fn lemma_lex_common(c: Seq<int>, a: Seq<int>, b: Seq<int>)
    ensures
        lex_less(c + a, c + b) == lex_less(a, b),
    decreases c.len(),
{
    if c.len() == 0 {
        assert(c + a =~= a);
        assert(c + b =~= b);
    } else {
        lemma_lex_common(c.drop_first(), a, b);
        assert((c + a).drop_first() =~= c.drop_first() + a);
        assert((c + b).drop_first() =~= c.drop_first() + b);
    }
}

/// A sequence between `p` and `p` followed by one more element starts with `p`.
proof fn lemma_lex_between(p: Seq<int>, x: Seq<int>, top: int)
    requires
        !lex_less(x, p),
        lex_less(x, p.push(top)),
    ensures
        p.is_prefix_of(x),
    decreases p.len(),
{
    if p.len() > 0 {
        assert(x.len() > 0);
        assert(p.push(top).drop_first() =~= p.drop_first().push(top));
        assert(x[0] == p[0]);
        lemma_lex_between(p.drop_first(), x.drop_first(), top);
        assert(p.drop_first().is_prefix_of(x.drop_first()));
        assert forall|i: int| 0 <= i < p.len() implies p[i] == x[i] by {
            if i > 0 {
                assert(p.drop_first()[i - 1] == x.drop_first()[i - 1]);
            }
        }
        assert(p =~= x.take(p.len() as int));
    } else {
        assert(p =~= x.take(0));
    }
}

proof fn lemma_char_range(c: char)
    ensures
        0 <= c as int <= 0x10FFFF,
{
}

/// The range that a string prefix query scans, from the prefix up to its bound,
/// holds nothing but strings with the prefix, and every such string whose next
/// character is not the greatest one.
pub proof fn law_string_prefix_range(prefix: Seq<char>, x: Seq<char>)
    ensures
        ({
            let p = code_points(prefix);
            let in_range = !lex_less(code_points(x), p) && lex_less(
                code_points(x),
                code_points(string_bound(prefix)),
            );
            &&& in_range ==> prefix.is_prefix_of(x)
            &&& prefix.is_prefix_of(x) && (x.len() == prefix.len() || x[prefix.len() as int]
                != '\u{10FFFF}') ==> in_range
        }),
{
    let p = code_points(prefix);
    let v = code_points(x);
    let top = '\u{10FFFF}' as int;
    assert(code_points(string_bound(prefix)) =~= p.push(top));
    if !lex_less(v, p) && lex_less(v, p.push(top)) {
        lemma_lex_between(p, v, top);
        assert forall|i: int| 0 <= i < prefix.len() implies prefix[i] == x[i] by {
            assert(p[i] == v[i]);
        }
        assert(prefix =~= x.take(prefix.len() as int));
    }
    if prefix.is_prefix_of(x) && (x.len() == prefix.len() || x[prefix.len() as int]
        != '\u{10FFFF}') {
        let rest = v.skip(p.len() as int);
        assert(v =~= p + rest) by {
            assert forall|i: int| 0 <= i < p.len() implies v[i] == p[i] by {
                assert(x.take(prefix.len() as int)[i] == prefix[i]);
            }
        }
        lemma_lex_common(p, rest, Seq::empty());
        assert(p + Seq::<int>::empty() =~= p);
        lemma_lex_common(p, rest, seq![top]);
        assert(p + seq![top] =~= p.push(top));
        if rest.len() > 0 {
            let c = x[prefix.len() as int];
            assert(rest[0] == c as int);
            lemma_char_range(c);
        }
    }
}

proof fn lemma_successor_order(p: Seq<u8>, x: Seq<u8>)
    requires
        successor(p) is Some,
        p.is_prefix_of(x),
    ensures
        lex_less(byte_values(x), byte_values(successor(p)->0)),
        successor(p)->0.len() == p.len(),
    decreases p.len(),
{
    let last = p.len() - 1;
    let head = p.drop_last();
    if p.last() < 255 {
        let q = head.push((p.last() + 1) as u8);
        let c = byte_values(head);
        let rest = byte_values(x).skip(last);
        assert(byte_values(x) =~= c + rest) by {
            assert forall|i: int| 0 <= i < last implies x[i] == p[i] by {
                assert(x.take(p.len() as int)[i] == p[i]);
            }
        }
        assert(x.take(p.len() as int)[last] == p[last]);
        assert(byte_values(q) =~= c + seq![(p.last() + 1) as int]);
        lemma_lex_common(c, rest, seq![(p.last() + 1) as int]);
        assert(rest[0] == p.last() as int);
    } else {
        assert(head.is_prefix_of(x)) by {
            assert(head =~= x.take(last)) by {
                assert forall|i: int| 0 <= i < last implies head[i] == x[i] by {
                    assert(x.take(p.len() as int)[i] == p[i]);
                }
            }
        }
        lemma_successor_order(head, x);
        let q = successor(head)->0;
        lemma_lex_extend(byte_values(x), byte_values(q), 0);
        assert(byte_values(q.push(0)) =~= byte_values(q).push(0));
    }
}

proof fn lemma_lex_extend(a: Seq<int>, b: Seq<int>, last: int)
    requires
        lex_less(a, b),
    ensures
        lex_less(a, b.push(last)),
    decreases b.len(),
{
    if a.len() > 0 {
        assert(b.push(last).drop_first() =~= b.drop_first().push(last));
        if a[0] == b[0] {
            lemma_lex_extend(a.drop_first(), b.drop_first(), last);
        }
    }
}

/// Compute upper bound for begins_with on binary data.
///
/// Increments the last byte, carrying on overflow. The bound lies above every byte
/// string with the prefix. Where every byte of the prefix is at its maximum nothing
/// bounds these from above, and there is none.
pub fn binary_upper_bound(prefix: &Vec<u8>) -> (r: Option<Vec<u8>>)
    ensures
        match r {
            Some(b) => successor(prefix@) == Some(b@) && b@.len() == prefix@.len(),
            None => successor(prefix@) is None && forall|i: int|
                0 <= i < prefix@.len() ==> prefix@[i] == 255,
        },
        r matches Some(b) ==> forall|x: Seq<u8>| #[trigger]
            prefix@.is_prefix_of(x) ==> lex_less(byte_values(x), byte_values(b@)),
{
    let mut upper = clone_bytes(prefix);
    let mut i: usize = upper.len();
    while i > 0
        invariant
            i <= prefix@.len(),
            upper@ == prefix@.take(i as int) + zeros((prefix@.len() - i) as nat),
            forall|k: int| i <= k < prefix@.len() ==> prefix@[k] == 255,
        decreases i,
    {
        let b: u8 = upper[i - 1];
        if b < 255 {
            upper.set(i - 1, b + 1);
            proof {
                lemma_successor_carry(prefix@, i as int);
                let head = prefix@.take(i as int);
                assert(head.last() == b);
                assert(upper@ =~= head.drop_last().push((b + 1) as u8) + zeros(
                    (prefix@.len() - i) as nat,
                ));
                assert forall|x: Seq<u8>| #[trigger] prefix@.is_prefix_of(x) implies lex_less(
                    byte_values(x),
                    byte_values(upper@),
                ) by {
                    lemma_successor_order(prefix@, x);
                }
            }
            return Some(upper);
        }
        upper.set(i - 1, 0);
        i = i - 1;
        proof {
            assert(upper@ =~= prefix@.take(i as int) + zeros((prefix@.len() - i) as nat));
        }
    }
    proof {
        lemma_successor_carry(prefix@, 0);
        assert(prefix@.take(0).len() == 0);
    }
    None
}

/// Where two sequences differ first, and the second is not a prefix of the first,
/// the one that is not less has the larger element.
proof fn lemma_first_greater(a: Seq<int>, b: Seq<int>) -> (k: int)
    requires
        !lex_less(a, b),
        !b.is_prefix_of(a),
    ensures
        0 <= k < a.len(),
        k < b.len(),
        forall|i: int| 0 <= i < k ==> a[i] == b[i],
        a[k] > b[k],
    decreases b.len(),
{
    if b.len() == 0 {
        assert(b =~= a.take(0));
        0
    } else if a[0] > b[0] {
        0
    } else {
        let da = a.drop_first();
        let db = b.drop_first();
        if db.is_prefix_of(da) {
            assert(b =~= a.take(b.len() as int)) by {
                assert forall|i: int| 0 <= i < b.len() implies b[i] == a[i] by {
                    if i > 0 {
                        assert(db[i - 1] == da.take(db.len() as int)[i - 1]);
                    }
                }
            }
        }
        let k = lemma_first_greater(da, db) + 1;
        assert forall|i: int| 0 <= i < k implies a[i] == b[i] by {
            if i > 0 {
                assert(da[i - 1] == db[i - 1]);
            }
        }
        assert(da[k - 1] == a[k] && db[k - 1] == b[k]);
        k
    }
}

/// Where a sequence is less than another and is not a prefix of it, it has the
/// smaller element where they differ first.
proof fn lemma_first_less(a: Seq<int>, b: Seq<int>) -> (k: int)
    requires
        lex_less(a, b),
        !a.is_prefix_of(b),
    ensures
        0 <= k < a.len(),
        k < b.len(),
        forall|i: int| 0 <= i < k ==> a[i] == b[i],
        a[k] < b[k],
    decreases b.len(),
{
    if a.len() == 0 {
        assert(a =~= b.take(0));
        0
    } else if a[0] < b[0] {
        0
    } else {
        let da = a.drop_first();
        let db = b.drop_first();
        if da.is_prefix_of(db) {
            assert(a =~= b.take(a.len() as int)) by {
                assert forall|i: int| 0 <= i < a.len() implies a[i] == b[i] by {
                    if i > 0 {
                        assert(da[i - 1] == db.take(da.len() as int)[i - 1]);
                    }
                }
            }
        }
        let k = lemma_first_less(da, db) + 1;
        assert forall|i: int| 0 <= i < k implies a[i] == b[i] by {
            if i > 0 {
                assert(da[i - 1] == db[i - 1]);
            }
        }
        assert(da[k - 1] == a[k] && db[k - 1] == b[k]);
        k
    }
}

/// The successor increments the last byte below the maximum and clears those after
/// it.
proof fn lemma_successor_shape(p: Seq<u8>) -> (j: int)
    requires
        successor(p) is Some,
    ensures
        0 <= j < p.len(),
        successor(p)->0.len() == p.len(),
        forall|i: int| 0 <= i < j ==> #[trigger] successor(p)->0[i] == p[i],
        successor(p)->0[j] == p[j] + 1,
        forall|i: int| j < i < p.len() ==> #[trigger] p[i] == 255,
        forall|i: int| j < i < p.len() ==> #[trigger] successor(p)->0[i] == 0,
    decreases p.len(),
{
    if p.last() < 255 {
        p.len() - 1
    } else {
        let d = p.drop_last();
        let j = lemma_successor_shape(d);
        let q = successor(d)->0;
        assert forall|i: int| j < i < p.len() implies p[i] == 255 && q.push(0)[i] == 0 by {
            if i < d.len() {
                assert(d[i] == p[i]);
            }
        }
        assert forall|i: int| 0 <= i < j implies q.push(0)[i] == p[i] by {
            assert(d[i] == p[i]);
        }
        j
    }
}

proof fn lemma_no_successor(p: Seq<u8>)
    ensures
        successor(p) is None <==> forall|i: int| 0 <= i < p.len() ==> p[i] == 255,
    decreases p.len(),
{
    if p.len() > 0 {
        let d = p.drop_last();
        lemma_no_successor(d);
        if forall|i: int| 0 <= i < p.len() ==> p[i] == 255 {
            assert forall|i: int| 0 <= i < d.len() implies d[i] == 255 by {
                assert(p[i] == 255);
            }
        } else if p.last() == 255 {
            let i = choose|i: int| 0 <= i < p.len() && p[i] != 255;
            assert(d[i] == p[i]);
        }
    }
}

/// The byte strings that a binary prefix query scans: from the prefix on, and below
/// its successor where it has one.
pub open spec fn in_prefix_range(prefix: Seq<u8>, x: Seq<u8>) -> bool {
    &&& !lex_less(byte_values(x), byte_values(prefix))
    &&& match successor(prefix) {
        Some(b) => lex_less(byte_values(x), byte_values(b)),
        None => true,
    }
}

/// The range that a binary prefix query scans holds every byte string with the
/// prefix.
pub proof fn law_binary_prefix_complete(prefix: Seq<u8>, x: Seq<u8>)
    requires
        prefix.is_prefix_of(x),
    ensures
        in_prefix_range(prefix, x),
{
    if successor(prefix) is Some {
        lemma_successor_order(prefix, x);
    }
    let p = byte_values(prefix);
    let v = byte_values(x);
    let rest = v.skip(p.len() as int);
    assert(v =~= p + rest) by {
        assert forall|k: int| 0 <= k < p.len() implies v[k] == p[k] by {
            assert(x.take(prefix.len() as int)[k] == prefix[k]);
        }
    }
    lemma_lex_common(p, rest, Seq::empty());
    assert(p + Seq::<int>::empty() =~= p);
}

/// The range that a binary prefix query scans holds nothing but byte strings with
/// the prefix, apart from those that the upper bound itself starts with.
pub proof fn law_binary_prefix_sound(prefix: Seq<u8>, x: Seq<u8>)
    requires
        in_prefix_range(prefix, x),
        successor(prefix) matches Some(b) ==> !x.is_prefix_of(b),
    ensures
        prefix.is_prefix_of(x),
{
    let p = byte_values(prefix);
    let v = byte_values(x);
    if p.is_prefix_of(v) {
        assert(prefix =~= x.take(prefix.len() as int)) by {
            assert forall|i: int| 0 <= i < prefix.len() implies prefix[i] == x[i] by {
                assert(v.take(p.len() as int)[i] == p[i]);
            }
        }
    } else {
        let k = lemma_first_greater(v, p);
        assert(prefix[k] < x[k]);
        lemma_no_successor(prefix);
        let b = successor(prefix)->0;
        let j = lemma_successor_shape(prefix);
        let q = byte_values(b);
        if v.is_prefix_of(q) {
            assert(x =~= b.take(x.len() as int)) by {
                assert forall|i: int| 0 <= i < x.len() implies x[i] == b[i] by {
                    assert(q.take(v.len() as int)[i] == v[i]);
                }
            }
            assert(x.is_prefix_of(b));
        }
        let m = lemma_first_less(v, q);
        assert(x[m] < b[m]);
        assert(k <= j) by {
            if k > j {
                assert(prefix[k] == 255);
            }
        }
        if m < k {
            assert(v[m] == p[m]);
            assert(b[m] == prefix[m]);
        } else if m > k {
            assert(v[k] == q[k]);
            assert(x[k] == b[k]);
            assert(k == j) by {
                if k < j {
                    assert(b[k] == prefix[k]);
                }
            }
            assert(q.len() == prefix.len());
            assert(j < m < prefix.len());
            assert(successor(prefix)->0[m] == 0);
        } else {
            assert(k < j ==> b[k] == prefix[k]);
        }
    }
}

/// The table or index that a query reads.
pub struct Target {
    pub table: String,
    pub key_schema: Vec<KeySchemaElement>,
    pub is_index: bool,
    pub is_lsi: bool,
    pub sk: Option<(String, ScalarAttributeType)>,
    pub base_sk: Option<(String, ScalarAttributeType)>,
}

/// A sort key by the characters of its name.
pub open spec fn key_of(k: Option<(String, ScalarAttributeType)>) -> Option<
    (Seq<char>, ScalarAttributeType),
> {
    match k {
        Some((n, t)) => Some((n@, t)),
        None => None,
    }
}

/// Resolve the data table, the key schema and the sort keys of a read: those of
/// the index where one is named, else those of the table. The sort key of the base
/// table matters for an index only.
pub fn resolve_target(key_info: &TableKeyInfo, index: Option<&IndexMeta>) -> (r: Target)
    ensures
        match index {
            Some(idx) => {
                &&& r.table@ == index_table(idx.index_id@)
                &&& r.key_schema@ == idx.key_schema@
                &&& r.is_index
                &&& r.is_lsi == (idx.index_type@ == "LSI"@)
                &&& key_of(r.base_sk) == first_sort_key(
                    key_info.base_key_schema@,
                    key_info.attribute_definitions@,
                )
            },
            None => {
                &&& r.table@ == data_table(key_info.table_id@)
                &&& r.key_schema@ == key_info.key_schema@
                &&& !r.is_index
                &&& !r.is_lsi
                &&& r.base_sk is None
            },
        },
        key_of(r.sk) == first_sort_key(r.key_schema@, key_info.attribute_definitions@),
{
    let defs = key_info.attribute_definitions.as_slice();
    match index {
        Some(idx) => Target {
            table: index_table_name(idx.index_id.as_str()),
            key_schema: clone_schema(&idx.key_schema),
            is_index: true,
            is_lsi: str_eq(idx.index_type.as_str(), "LSI"),
            sk: sk_info(idx.key_schema.as_slice(), defs),
            base_sk: sk_info(key_info.base_key_schema.as_slice(), defs),
        },
        None => Target {
            table: data_table_name(key_info.table_id.as_str()),
            key_schema: clone_schema(&key_info.key_schema),
            is_index: false,
            is_lsi: false,
            sk: sk_info(key_info.key_schema.as_slice(), defs),
            base_sk: None,
        },
    }
}

/// The attributes of a start key that pagination needs.
pub struct StartAttributes {
    pub sk: Option<AttributeValue>,
    pub base_pk: Option<AttributeValue>,
    pub base_sk: Option<AttributeValue>,
}

/// The attribute is what the item holds under that name, if anything.
pub open spec fn is_lookup(
    item: Map<Seq<char>, AttributeView>,
    name: Seq<char>,
    v: Option<AttributeValue>,
) -> bool {
    match v {
        Some(v) => item.dom().contains(name) && item[name] == v@,
        None => !item.dom().contains(name),
    }
}

fn lookup(item: &Item, name: &str) -> (r: Option<AttributeValue>)
    ensures
        is_lookup(item@, name@, r),
{
    match item.get(name) {
        Some(v) => Some(v.clone()),
        None => None,
    }
}

/// Pick the attributes of a start key: the sort key of the target (the second
/// element of its schema), and for an index the first key and the sort key of the
/// base table.
pub fn start_attributes(key_info: &TableKeyInfo, target: &Target, start_key: &Item) -> (r:
    StartAttributes)
    requires
        target.sk is Some ==> target.key_schema@.len() >= 2,
        target.is_index ==> key_info.base_key_schema@.len() >= 1,
    ensures
        if target.sk is Some {
            is_lookup(start_key@, target.key_schema@[1].attribute_name@, r.sk)
        } else {
            r.sk is None
        },
        if target.is_index {
            is_lookup(start_key@, key_info.base_key_schema@[0].attribute_name@, r.base_pk)
        } else {
            r.base_pk is None
        },
        match target.base_sk {
            Some((name, _)) => is_lookup(start_key@, name@, r.base_sk),
            None => r.base_sk is None,
        },
{
    let sk = if target.sk.is_some() {
        lookup(start_key, target.key_schema[1].attribute_name.as_str())
    } else {
        None
    };
    let base_pk = if target.is_index {
        lookup(start_key, key_info.base_key_schema[0].attribute_name.as_str())
    } else {
        None
    };
    let base_sk = match &target.base_sk {
        Some(k) => lookup(start_key, k.0.as_str()),
        None => None,
    };
    StartAttributes { sk, base_pk, base_sk }
}

/// The values of a start key: those of its attributes that are present.
#[derive(Debug, PartialEq, Eq)]
pub struct StartKey {
    pub sk: Option<SortKeyValue>,
    pub base_pk: Option<String>,
    pub base_sk: Option<SortKeyValue>,
}

/// A key query.
#[derive(Debug, PartialEq, Eq)]
pub struct QueryRequest {
    pub keyspace: String,
    pub table: String,
    pub pk: String,
    pub is_index: bool,
    pub is_lsi: bool,
    pub sk: Option<ScalarAttributeType>,
    pub base_sk: Option<ScalarAttributeType>,
    pub condition: Option<SortKeyCondition>,
    pub start: Option<StartKey>,
    pub forward: bool,
    pub limit: Option<i64>,
}

/// The number of items of a page: the limit, not below zero, or a million.
pub open spec fn page_size(limit: Option<i64>) -> nat {
    match limit {
        Some(l) => if l > 0 {
            l as nat
        } else {
            0
        },
        None => 1_000_000,
    }
}

/// The number of items of a page.
pub fn page_limit(limit: Option<i64>) -> (r: u64)
    ensures
        r == page_size(limit),
        r <= i64::MAX,
{
    match limit {
        Some(l) => if l > 0 {
            l as u64
        } else {
            0
        },
        None => 1_000_000,
    }
}

/// The sort direction.
pub open spec fn direction(forward: bool) -> Seq<char> {
    if forward {
        "ASC"@
    } else {
        "DESC"@
    }
}

fn direction_str(forward: bool) -> (r: &'static str)
    ensures
        r@ == direction(forward),
{
    if forward {
        "ASC"
    } else {
        "DESC"
    }
}

/// The sign that moves on in the sort direction.
pub open spec fn beyond(forward: bool) -> Seq<char> {
    if forward {
        ">"@
    } else {
        "<"@
    }
}

fn beyond_str(forward: bool) -> (r: &'static str)
    ensures
        r@ == beyond(forward),
{
    if forward {
        ">"
    } else {
        "<"
    }
}

/// The sort key condition that applies: only where the target has a sort key.
pub open spec fn active_condition(q: QueryRequest) -> Option<SortKeyCondition> {
    match q.sk {
        Some(_) => q.condition,
        None => None,
    }
}

/// A prefix condition on a number.
pub open spec fn numeric_prefix(q: QueryRequest) -> bool {
    active_condition(q) matches Some(SortKeyCondition::BeginsWith { prefix }) && prefix@ is N
}

/// The text of a sort key condition.
pub open spec fn condition_text(col: Seq<char>, c: SortKeyCondition) -> Seq<char> {
    match c {
        SortKeyCondition::Compare { op, value } => " AND "@ + col + " "@ + op_text(op) + " ?"@,
        SortKeyCondition::Between { low, high } => " AND "@ + col + " >= ? AND "@ + col + " <= ?"@,
        SortKeyCondition::BeginsWith { prefix } => match prefix_bound(prefix@) {
            Some(_) => " AND "@ + col + " >= ? AND "@ + col + " < ?"@,
            None => " AND "@ + col + " >= ?"@,
        },
    }
}

/// The upper bound of a prefix, where it has one.
pub open spec fn prefix_bound(p: SortKeyView) -> Option<SortKeyView> {
    match p {
        SortKeyView::S(s) => Some(SortKeyView::S(string_bound(s))),
        SortKeyView::B(b) => match successor(b) {
            Some(q) => Some(SortKeyView::B(q)),
            None => None,
        },
        SortKeyView::N(n) => Some(SortKeyView::N(n)),
    }
}

/// The values of a sort key condition.
pub open spec fn condition_values(c: SortKeyCondition) -> Seq<SortKeyView> {
    match c {
        SortKeyCondition::Compare { op, value } => seq![value@],
        SortKeyCondition::Between { low, high } => seq![low@, high@],
        SortKeyCondition::BeginsWith { prefix } => match prefix_bound(prefix@) {
            Some(upper) => seq![prefix@, upper],
            None => seq![prefix@],
        },
    }
}

/// The start of every statement of a query: the table, the partition and the sort
/// key condition.
pub open spec fn head_text(q: QueryRequest) -> Seq<char> {
    let select = "SELECT item_data FROM "@ + q.keyspace@ + "."@ + q.table@ + " WHERE pk = ?"@;
    match active_condition(q) {
        Some(c) => select + condition_text(sk_col(q.sk->0), c),
        None => select,
    }
}

/// The rows after a start key of an index take two queries: those that share the
/// index sort key, and those beyond it.
pub open spec fn takes_two_queries(q: QueryRequest) -> bool {
    q.is_index && q.start is Some && (q.base_sk is Some || q.sk is Some)
}

/// The sort key value of the start key.
pub open spec fn start_sk(q: QueryRequest) -> Option<SortKeyView> {
    match (q.start, q.sk) {
        (Some(s), Some(_)) => opt_sk(s.sk),
        _ => None,
    }
}

/// The page of a table without a sort key ends with its only row, and the page of
/// an index without any sort key cannot resume from a key without base key.
pub open spec fn nothing_left(q: QueryRequest) -> bool {
    &&& q.start is Some
    &&& q.sk is None
    &&& !takes_two_queries(q)
    &&& q.is_index ==> q.start->0.base_pk is None
}

/// The values of a single query, after the partition key.
pub open spec fn single_values(q: QueryRequest) -> Seq<SortKeyView> {
    (match active_condition(q) {
        Some(c) => condition_values(c),
        None => Seq::empty(),
    }) + (match start_sk(q) {
        Some(s) => seq![s],
        None => Seq::empty(),
    })
}

/// All values have one type.
pub open spec fn one_type(v: Seq<SortKeyView>) -> bool {
    forall|i: int, j: int|
        0 <= i < v.len() && 0 <= j < v.len() ==> sk_type_of(#[trigger] v[i]) == sk_type_of(
            #[trigger] v[j],
        )
}

/// The single statement of a query: the head, the position of the start key, the
/// order and the limit (one more row than the page, to see whether more follow).
pub open spec fn single_stmt(q: QueryRequest) -> StatementView {
    let with_start = match q.sk {
        Some(t) => match start_sk(q) {
            Some(_) => head_text(q) + " AND "@ + sk_col(t) + " "@ + beyond(q.forward) + " ?"@,
            None => head_text(q),
        },
        None => if q.start is Some {
            head_text(q) + " AND base_pk > ?"@
        } else {
            head_text(q)
        },
    };
    let ordered = match q.sk {
        Some(t) => with_start + " ORDER BY "@ + sk_col(t) + " "@ + direction(q.forward),
        None => with_start,
    };
    stmt(
        ordered + " LIMIT "@ + nat_text(page_size(q.limit) + 1),
        match q.sk {
            Some(_) => seq![CqlView::Text(q.pk@)] + single_values(q).map_values(
                |s: SortKeyView| sk_bind(s),
            ),
            None => if q.start is Some {
                seq![CqlView::Text(q.pk@), CqlView::Text(q.start->0.base_pk->0@)]
            } else {
                seq![CqlView::Text(q.pk@)]
            },
        },
    )
}

/// The base key of the start key, where it breaks a tie.
pub open spec fn tie_base_pk(q: QueryRequest) -> Option<Seq<char>> {
    match q.start->0.base_pk {
        Some(pk) => Some(pk@),
        None => None,
    }
}

/// The base sort key of the start key, where the base table has one.
pub open spec fn tie_base_sk(q: QueryRequest) -> Option<SortKeyView> {
    match q.base_sk {
        Some(_) => opt_sk(q.start->0.base_sk),
        None => None,
    }
}

/// The start key can break a tie: by its base sort key where the base table has
/// one, else by its base partition key.
pub open spec fn has_tie_breaker(q: QueryRequest) -> bool {
    match q.base_sk {
        Some(_) => tie_base_sk(q) is Some,
        None => tie_base_pk(q) is Some,
    }
}

/// The first of two queries: the rest of the rows that share the index sort key of
/// the start key.
pub open spec fn first_stmt(q: QueryRequest) -> Option<StatementView> {
    let limit = nat_text(page_size(q.limit) + 1);
    let dir = direction(q.forward);
    let pk = CqlView::Text(q.pk@);
    if !has_tie_breaker(q) {
        None
    } else {
        match (q.sk, start_sk(q), tie_base_pk(q), tie_base_sk(q)) {
            (Some(t), Some(s), Some(bp), Some(bs)) => {
                let col = sk_col(t);
                let base_col = "base_"@ + sk_col(sk_type_of(bs));
                let op = if q.is_lsi && !q.forward {
                    "<"@
                } else {
                    ">"@
                };
                Some(
                    stmt(
                        head_text(q) + " AND "@ + col + " = ? AND base_pk = ? AND "@ + base_col
                            + " "@ + op + " ? ORDER BY "@ + col + " "@ + dir + ", base_pk "@ + dir
                            + ", "@ + base_col + " "@ + dir + " LIMIT "@ + limit,
                        seq![pk, sk_bind(s), CqlView::Text(bp), sk_bind(bs)],
                    ),
                )
            },
            (Some(t), Some(s), None, Some(bs)) => {
                let col = sk_col(t);
                let base_col = "base_"@ + sk_col(sk_type_of(bs));
                let op = if q.is_lsi && !q.forward {
                    "<"@
                } else {
                    ">"@
                };
                let base_dir = if q.is_lsi && !q.forward {
                    "DESC"@
                } else {
                    "ASC"@
                };
                Some(
                    stmt(
                        head_text(q) + " AND "@ + col + " = ? AND "@ + base_col + " "@ + op
                            + " ? ORDER BY "@ + col + " "@ + dir + ", "@ + base_col + " "@
                            + base_dir + " LIMIT "@ + limit,
                        seq![pk, sk_bind(s), sk_bind(bs)],
                    ),
                )
            },
            (Some(t), Some(s), Some(bp), None) => {
                let col = sk_col(t);
                Some(
                    stmt(
                        head_text(q) + " AND "@ + col + " = ? AND base_pk "@ + beyond(q.forward)
                            + " ? ORDER BY "@ + col + " "@ + dir + ", base_pk "@ + dir + " LIMIT "@
                            + limit,
                        seq![pk, sk_bind(s), CqlView::Text(bp)],
                    ),
                )
            },
            (None, _, Some(bp), Some(bs)) => {
                let base_col = "base_"@ + sk_col(sk_type_of(bs));
                Some(
                    stmt(
                        head_text(q) + " AND base_pk = ? AND "@ + base_col
                            + " > ? ORDER BY base_pk "@ + dir + ", "@ + base_col + " "@ + dir
                            + " LIMIT "@ + limit,
                        seq![pk, CqlView::Text(bp), sk_bind(bs)],
                    ),
                )
            },
            _ => None,
        }
    }
}

/// The second of two queries, for the rows beyond the index sort key of the start
/// key: its text up to the limit, and its values.
pub open spec fn second_head(q: QueryRequest) -> Option<StatementView> {
    match (q.sk, start_sk(q)) {
        (Some(t), Some(s)) => if has_tie_breaker(q) {
            let col = sk_col(t);
            let dir = direction(q.forward);
            let ordered = head_text(q) + " AND "@ + col + " "@ + beyond(q.forward) + " ?"@
                + " ORDER BY "@ + col + " "@ + dir + ", base_pk "@ + dir;
            Some(
                stmt(
                    (match q.base_sk {
                        Some(bt) => ordered + ", base_"@ + sk_col(bt) + " "@ + dir,
                        None => ordered,
                    }) + " LIMIT "@,
                    seq![CqlView::Text(q.pk@), sk_bind(s)],
                ),
            )
        } else {
            None
        },
        _ => None,
    }
}

/// The values that a query binds side by side differ in type.
pub open spec fn types_clash(q: QueryRequest) -> bool {
    if takes_two_queries(q) {
        match (start_sk(q), tie_base_pk(q), tie_base_sk(q)) {
            (Some(s), None, Some(bs)) => sk_type_of(s) != sk_type_of(bs),
            _ => false,
        }
    } else {
        q.sk is Some && !one_type(single_values(q))
    }
}

/// How a query is run: not at all, by one statement, or by up to two.
#[derive(Debug, PartialEq, Eq)]
pub enum QueryPlan {
    Empty,
    Single(Statement),
    Paged { first: Option<Statement>, second: Option<Statement> },
}

/// Reject a prefix condition on a number.
pub fn check_sort_condition(q: &QueryRequest) -> (r: Result<(), StorageError>)
    ensures
        match r {
            Ok(_) => !numeric_prefix(*q),
            Err(e) => numeric_prefix(*q) && is_validation(
                e,
                "BeginsWith is not supported for numeric sort keys"@,
            ),
        },
{
    match (&q.sk, &q.condition) {
        (Some(_), Some(SortKeyCondition::BeginsWith { prefix })) => match prefix {
            SortKeyValue::N(_) => Err(
                validation("BeginsWith is not supported for numeric sort keys"),
            ),
            _ => Ok(()),
        },
        _ => Ok(()),
    }
}

fn condition_parts(q: &QueryRequest) -> (r: (String, Vec<SortKeyValue>))
    requires
        !numeric_prefix(*q),
    ensures
        r.0@ == head_text(*q),
        r.1@.map_values(|s: SortKeyValue| s@) == (match active_condition(*q) {
            Some(c) => condition_values(c),
            None => Seq::<SortKeyView>::empty(),
        }),
        r.1@.len() <= 2,
        r.1@.len() == 0 <==> active_condition(*q) is None,
{
    let select = cat5(
        "SELECT item_data FROM ",
        q.keyspace.as_str(),
        ".",
        q.table.as_str(),
        " WHERE pk = ?",
    );
    let mut values: Vec<SortKeyValue> = Vec::new();
    let text = match (&q.sk, &q.condition) {
        (Some(t), Some(c)) => {
            let col = sk_column(*t);
            match c {
                SortKeyCondition::Compare { op, value } => {
                    values.push(value.clone());
                    cat2(select.as_str(), cat5(" AND ", col, " ", op_str(*op), " ?").as_str())
                },
                SortKeyCondition::Between { low, high } => {
                    values.push(low.clone());
                    values.push(high.clone());
                    cat2(select.as_str(), cat5(" AND ", col, " >= ? AND ", col, " <= ?").as_str())
                },
                SortKeyCondition::BeginsWith { prefix } => {
                    let upper = match prefix {
                        SortKeyValue::S(s) => Some(
                            SortKeyValue::S(string_upper_bound(s.as_str())),
                        ),
                        SortKeyValue::B(b) => match binary_upper_bound(b) {
                            Some(q) => Some(SortKeyValue::B(q)),
                            None => None,
                        },
                        SortKeyValue::N(_) => Some(prefix.clone()),
                    };
                    values.push(prefix.clone());
                    match upper {
                        Some(u) => {
                            values.push(u);
                            cat2(
                                select.as_str(),
                                cat5(" AND ", col, " >= ? AND ", col, " < ?").as_str(),
                            )
                        },
                        None => cat2(select.as_str(), cat3(" AND ", col, " >= ?").as_str()),
                    }
                },
            }
        },
        _ => select,
    };
    proof {
        assert(values@.map_values(|s: SortKeyValue| s@) =~= (match active_condition(*q) {
            Some(c) => condition_values(c),
            None => Seq::<SortKeyView>::empty(),
        }));
    }
    (text, values)
}

fn same_type(values: &Vec<SortKeyValue>) -> (r: bool)
    ensures
        r == one_type(values@.map_values(|s: SortKeyValue| s@)),
{
    let ghost v = values@.map_values(|s: SortKeyValue| s@);
    let mut i: usize = 1;
    while i < values.len()
        invariant
            v == values@.map_values(|s: SortKeyValue| s@),
            1 <= i,
            forall|k: int| 0 <= k < i && k < v.len() ==> sk_type_of(#[trigger] v[k]) == sk_type_of(v[0]),
        decreases values@.len() - i,
    {
        if values[i].scalar_type() != values[0].scalar_type() {
            assert(sk_type_of(v[i as int]) != sk_type_of(v[0]));
            return false;
        }
        i = i + 1;
    }
    true
}

fn plan_single(q: &QueryRequest) -> (r: Result<QueryPlan, StorageError>)
    requires
        !numeric_prefix(*q),
        !takes_two_queries(*q),
        !nothing_left(*q),
    ensures
        match r {
            Ok(QueryPlan::Single(s)) => !types_clash(*q) && s@ == single_stmt(*q),
            Ok(_) => false,
            Err(e) => types_clash(*q) && is_internal(e, "Type mismatch in query parameters"@),
        },
{
    let (head, mut values) = condition_parts(q);
    let ghost before = values@;
    let limit = u64_text(page_limit(q.limit) + 1);
    match q.sk {
        Some(t) => {
            let col = sk_column(t);
            let start_value: Option<&SortKeyValue> = match &q.start {
                Some(s) => s.sk.as_ref(),
                None => None,
            };
            let with_start = match start_value {
                Some(s) => {
                    values.push(s.clone());
                    cat6(head.as_str(), " AND ", col, " ", beyond_str(q.forward), " ?")
                },
                None => head,
            };
            let ghost views = values@.map_values(|s: SortKeyValue| s@);
            proof {
                assert(views =~= single_values(*q));
            }
            if !same_type(&values) {
                return Err(internal("Type mismatch in query parameters"));
            }
            let ordered = cat5(
                with_start.as_str(),
                " ORDER BY ",
                col,
                " ",
                direction_str(q.forward),
            );
            let mut binds: Vec<CqlValue> = Vec::new();
            push_value(&mut binds, text_value(q.pk.as_str()));
            let mut i: usize = 0;
            proof {
                assert(values_view(binds@) =~= seq![CqlView::Text(q.pk@)] + views.take(
                    0,
                ).map_values(|s: SortKeyView| sk_bind(s)));
            }
            while i < values.len()
                invariant
                    i <= values@.len(),
                    views == values@.map_values(|s: SortKeyValue| s@),
                    values_view(binds@) == seq![CqlView::Text(q.pk@)] + views.take(
                        i as int,
                    ).map_values(|s: SortKeyView| sk_bind(s)),
                decreases values@.len() - i,
            {
                push_value(&mut binds, sk_to_value(&values[i]));
                i = i + 1;
                proof {
                    assert(values_view(binds@) =~= seq![CqlView::Text(q.pk@)] + views.take(
                        i as int,
                    ).map_values(|s: SortKeyView| sk_bind(s)));
                }
            }
            proof {
                assert(views.take(i as int) =~= views);
            }
            Ok(
                QueryPlan::Single(
                    Statement {
                        cql: cat3(ordered.as_str(), " LIMIT ", limit.as_str()),
                        values: binds,
                    },
                ),
            )
        },
        None => {
            match &q.start {
                Some(s) => match &s.base_pk {
                    Some(base_pk) => Ok(
                        QueryPlan::Single(
                            stmt2(
                                cat4(
                                    head.as_str(),
                                    " AND base_pk > ?",
                                    " LIMIT ",
                                    limit.as_str(),
                                ),
                                text_value(q.pk.as_str()),
                                text_value(base_pk.as_str()),
                            ),
                        ),
                    ),
                    None => Err(internal("Type mismatch in query parameters")),
                },
                None => Ok(
                    QueryPlan::Single(
                        stmt1(
                            cat3(head.as_str(), " LIMIT ", limit.as_str()),
                            text_value(q.pk.as_str()),
                        ),
                    ),
                ),
            }
        },
    }
}

fn plan_paged(q: &QueryRequest) -> (r: Result<QueryPlan, StorageError>)
    requires
        !numeric_prefix(*q),
        takes_two_queries(*q),
    ensures
        match r {
            Ok(QueryPlan::Paged { first, second }) => {
                &&& !types_clash(*q)
                &&& match first {
                    Some(s) => first_stmt(*q) == Some(s@),
                    None => first_stmt(*q) is None,
                }
                &&& match second {
                    Some(s) => second_head(*q) == Some(s@),
                    None => second_head(*q) is None,
                }
            },
            Ok(_) => false,
            Err(e) => types_clash(*q) && is_internal(e, "Type mismatch in query parameters"@),
        },
{
    let (head, _values) = condition_parts(q);
    let limit = u64_text(page_limit(q.limit) + 1);
    let dir = direction_str(q.forward);
    let start = match &q.start {
        Some(s) => s,
        None => {
            return Ok(QueryPlan::Empty);
        },
    };
    let base_sk: Option<&SortKeyValue> = match q.base_sk {
        Some(_) => start.base_sk.as_ref(),
        None => None,
    };
    let base_pk: Option<&String> = start.base_pk.as_ref();
    let tie = match q.base_sk {
        Some(_) => base_sk.is_some(),
        None => base_pk.is_some(),
    };
    assert(tie == has_tie_breaker(*q));
    match q.sk {
        Some(t) => {
            let col = sk_column(t);
            let s = match &start.sk {
                Some(s) => s,
                None => {
                    return Ok(QueryPlan::Paged { first: None, second: None });
                },
            };
            if !tie {
                return Ok(QueryPlan::Paged { first: None, second: None });
            }
            let first = match (base_pk, base_sk) {
                (Some(bp), Some(bs)) => {
                    let base_col = cat2("base_", sk_column(bs.scalar_type()));
                    let op = if q.is_lsi && !q.forward {
                        "<"
                    } else {
                        ">"
                    };
                    let a = cat9(
                        head.as_str(),
                        " AND ",
                        col,
                        " = ? AND base_pk = ? AND ",
                        base_col.as_str(),
                        " ",
                        op,
                        " ? ORDER BY ",
                        col,
                    );
                    let b = cat9(
                        a.as_str(),
                        " ",
                        dir,
                        ", base_pk ",
                        dir,
                        ", ",
                        base_col.as_str(),
                        " ",
                        dir,
                    );
                    Some(
                        stmt4(
                            cat3(b.as_str(), " LIMIT ", limit.as_str()),
                            text_value(q.pk.as_str()),
                            sk_to_value(s),
                            text_value(bp.as_str()),
                            sk_to_value(bs),
                        ),
                    )
                },
                (None, Some(bs)) => {
                    if s.scalar_type() != bs.scalar_type() {
                        return Err(internal("Type mismatch in query parameters"));
                    }
                    let base_col = cat2("base_", sk_column(bs.scalar_type()));
                    let op = if q.is_lsi && !q.forward {
                        "<"
                    } else {
                        ">"
                    };
                    let base_dir = if q.is_lsi && !q.forward {
                        "DESC"
                    } else {
                        "ASC"
                    };
                    let a = cat9(
                        head.as_str(),
                        " AND ",
                        col,
                        " = ? AND ",
                        base_col.as_str(),
                        " ",
                        op,
                        " ? ORDER BY ",
                        col,
                    );
                    let b = cat7(a.as_str(), " ", dir, ", ", base_col.as_str(), " ", base_dir);
                    Some(
                        stmt3(
                            cat3(b.as_str(), " LIMIT ", limit.as_str()),
                            text_value(q.pk.as_str()),
                            sk_to_value(s),
                            sk_to_value(bs),
                        ),
                    )
                },
                (Some(bp), None) => {
                    let a = cat7(
                        head.as_str(),
                        " AND ",
                        col,
                        " = ? AND base_pk ",
                        beyond_str(q.forward),
                        " ? ORDER BY ",
                        col,
                    );
                    let b = cat7(a.as_str(), " ", dir, ", base_pk ", dir, " LIMIT ", limit.as_str());
                    Some(
                        stmt3(
                            b,
                            text_value(q.pk.as_str()),
                            sk_to_value(s),
                            text_value(bp.as_str()),
                        ),
                    )
                },
                (None, None) => None,
            };
            let a = cat7(head.as_str(), " AND ", col, " ", beyond_str(q.forward), " ?", " ORDER BY ");
            let ordered = cat6(a.as_str(), col, " ", dir, ", base_pk ", dir);
            let text = match q.base_sk {
                Some(bt) => cat6(
                    ordered.as_str(),
                    ", base_",
                    sk_column(bt),
                    " ",
                    dir,
                    " LIMIT ",
                ),
                None => cat2(ordered.as_str(), " LIMIT "),
            };
            let second = stmt2(text, text_value(q.pk.as_str()), sk_to_value(s));
            Ok(QueryPlan::Paged { first, second: Some(second) })
        },
        None => {
            let first = match (base_pk, base_sk) {
                (Some(bp), Some(bs)) => {
                    let base_col = cat2("base_", sk_column(bs.scalar_type()));
                    let a = cat7(
                        head.as_str(),
                        " AND base_pk = ? AND ",
                        base_col.as_str(),
                        " > ? ORDER BY base_pk ",
                        dir,
                        ", ",
                        base_col.as_str(),
                    );
                    Some(
                        stmt3(
                            cat5(a.as_str(), " ", dir, " LIMIT ", limit.as_str()),
                            text_value(q.pk.as_str()),
                            text_value(bp.as_str()),
                            sk_to_value(bs),
                        ),
                    )
                },
                _ => None,
            };
            Ok(QueryPlan::Paged { first, second: None })
        },
    }
}

/// Plan a key query.
///
/// A prefix condition on a number is a validation error; values of different
/// types in one statement are an internal error. A table without a sort key has no
/// rows after a start key. The rows after a start key of an index take up to two
/// statements; every other query takes one. The second statement of a paged plan
/// ends before the number of its limit, which `second_query` adds.
pub fn query_impl(q: &QueryRequest) -> (r: Result<QueryPlan, StorageError>)
    ensures
        match r {
            Err(e) => if numeric_prefix(*q) {
                is_validation(e, "BeginsWith is not supported for numeric sort keys"@)
            } else {
                !nothing_left(*q) && types_clash(*q) && is_internal(
                    e,
                    "Type mismatch in query parameters"@,
                )
            },
            Ok(plan) => !numeric_prefix(*q) && (nothing_left(*q) || !types_clash(*q)) && match plan {
                QueryPlan::Empty => nothing_left(*q),
                QueryPlan::Single(s) => !nothing_left(*q) && !takes_two_queries(*q) && s@
                    == single_stmt(*q),
                QueryPlan::Paged { first, second } => {
                    &&& takes_two_queries(*q)
                    &&& match first {
                        Some(s) => first_stmt(*q) == Some(s@),
                        None => first_stmt(*q) is None,
                    }
                    &&& match second {
                        Some(s) => second_head(*q) == Some(s@),
                        None => second_head(*q) is None,
                    }
                },
            },
        },
{
    check_sort_condition(q)?;
    let two = q.is_index && q.start.is_some() && (q.base_sk.is_some() || q.sk.is_some());
    if two {
        return plan_paged(q);
    }
    let empty = match &q.start {
        Some(s) => q.sk.is_none() && (!q.is_index || s.base_pk.is_none()),
        None => false,
    };
    if empty {
        return Ok(QueryPlan::Empty);
    }
    plan_single(q)
}

/// The second statement of a paged query, for the rows that the first one left
/// open: only where there is room on the page.
pub fn second_query(second: Statement, limit: Option<i64>, fetched: usize) -> (r: Option<Statement>)
    ensures
        match r {
            Some(s) => fetched < page_size(limit) + 1 && s@ == stmt(
                second@.cql + nat_text((page_size(limit) + 1 - fetched) as nat),
                second@.values,
            ),
            None => fetched >= page_size(limit) + 1,
        },
{
    let wanted: u64 = page_limit(limit) + 1;
    if (fetched as u64) < wanted {
        let rest = u64_text(wanted - fetched as u64);
        Some(Statement { cql: cat2(second.cql.as_str(), rest.as_str()), values: second.values })
    } else {
        None
    }
}

/// A page: its items, and the item to resume after where more follow.
pub struct Page {
    pub items: Vec<Item>,
    pub resume_after: Option<Item>,
}

/// Cut a page from the items that were read: at most the limit, and the last of
/// them as the item to resume after where more were read.
pub fn finish_page(items: Vec<Item>, limit: Option<i64>) -> (r: Page)
    ensures
        r.items@ == (if items@.len() > page_size(limit) {
            items@.take(page_size(limit) as int)
        } else {
            items@
        }),
        r.items@.len() <= page_size(limit),
        opt_item(r.resume_after) == (if items@.len() > page_size(limit) && page_size(limit) > 0 {
            Some(r.items@.last()@)
        } else {
            None
        }),
{
    let size: u64 = page_limit(limit);
    let mut items = items;
    if (items.len() as u64) > size {
        let n: usize = size as usize;
        items.truncate(n);
        let resume_after = if n > 0 {
            Some(items[n - 1].clone())
        } else {
            None
        };
        Page { items, resume_after }
    } else {
        Page { items, resume_after: None }
    }
}

} // verus!
