//! Statements: CQL text together with the values bound to its placeholders.
use vstd::prelude::*;
use crate::model::{Decimal, DecimalView, ScalarAttributeType, SortKeyValue, SortKeyView};
use crate::text::{cat3, clone_bytes, u64_text, nat_text};

verus! {

/// A value bound to a placeholder. A `Decimal` stands for
/// `unscaled * 10^(-scale)`; a `Uuid` holds its sixteen bytes; `NotSet` leaves
/// the column as it is.
#[derive(Debug, PartialEq, Eq)]
pub enum CqlValue {
    Text(String),
    BigInt(i64),
    Int(i32),
    Boolean(bool),
    Blob(Vec<u8>),
    Uuid(Vec<u8>),
    Decimal { unscaled: String, scale: i32 },
    Null,
    NotSet,
}

/// What a bound value holds.
pub enum CqlView {
    Text(Seq<char>),
    BigInt(i64),
    Int(i32),
    Boolean(bool),
    Blob(Seq<u8>),
    Uuid(Seq<u8>),
    Decimal { unscaled: Seq<char>, scale: i32 },
    Null,
    NotSet,
}

impl View for CqlValue {
    type V = CqlView;

    open spec fn view(&self) -> CqlView {
        match self {
            CqlValue::Text(s) => CqlView::Text(s@),
            CqlValue::BigInt(i) => CqlView::BigInt(*i),
            CqlValue::Int(i) => CqlView::Int(*i),
            CqlValue::Boolean(b) => CqlView::Boolean(*b),
            CqlValue::Blob(b) => CqlView::Blob(b@),
            CqlValue::Uuid(b) => CqlView::Uuid(b@),
            CqlValue::Decimal { unscaled, scale } => CqlView::Decimal {
                unscaled: unscaled@,
                scale: *scale,
            },
            CqlValue::Null => CqlView::Null,
            CqlValue::NotSet => CqlView::NotSet,
        }
    }
}

/// The bound values, each by what it holds.
pub open spec fn values_view(v: Seq<CqlValue>) -> Seq<CqlView> {
    v.map_values(|x: CqlValue| x@)
}

/// A statement: its text and the values of its placeholders, in order.
#[derive(Debug, PartialEq, Eq)]
pub struct Statement {
    pub cql: String,
    pub values: Vec<CqlValue>,
}

/// What a statement holds.
#[verifier::ext_equal]
pub struct StatementView {
    pub cql: Seq<char>,
    pub values: Seq<CqlView>,
}

impl View for Statement {
    type V = StatementView;

    open spec fn view(&self) -> StatementView {
        StatementView { cql: self.cql@, values: values_view(self.values@) }
    }
}

/// The statements, each by what it holds.
pub open spec fn statements_view(v: Seq<Statement>) -> Seq<StatementView> {
    v.map_values(|x: Statement| x@)
}

/// A statement, stated by its parts.
pub open spec fn stmt(cql: Seq<char>, values: Seq<CqlView>) -> StatementView {
    StatementView { cql, values }
}

/// A text value.
pub fn text_value(s: &str) -> (r: CqlValue)
    ensures
        r@ == CqlView::Text(s@),
{
    CqlValue::Text(s.to_owned())
}

/// A UUID value.
pub fn uuid_value(b: &Vec<u8>) -> (r: CqlValue)
    ensures
        r@ == CqlView::Uuid(b@),
{
    CqlValue::Uuid(clone_bytes(b))
}

/// A statement without placeholders.
pub fn stmt0(cql: String) -> (r: Statement)
    ensures
        r@ == stmt(cql@, seq![]),
{
    let r = Statement { cql, values: Vec::new() };
    proof {
        assert(r@.values =~= seq![]);
    }
    r
}

/// A statement with one placeholder.
pub fn stmt1(cql: String, a: CqlValue) -> (r: Statement)
    ensures
        r@ == stmt(cql@, seq![a@]),
{
    let r = Statement { cql, values: vec![a] };
    proof {
        assert(r@.values =~= seq![a@]);
    }
    r
}

/// A statement with two placeholders.
pub fn stmt2(cql: String, a: CqlValue, b: CqlValue) -> (r: Statement)
    ensures
        r@ == stmt(cql@, seq![a@, b@]),
{
    let r = Statement { cql, values: vec![a, b] };
    proof {
        assert(r@.values =~= seq![a@, b@]);
    }
    r
}

/// A statement with three placeholders.
pub fn stmt3(cql: String, a: CqlValue, b: CqlValue, c: CqlValue) -> (r: Statement)
    ensures
        r@ == stmt(cql@, seq![a@, b@, c@]),
{
    let r = Statement { cql, values: vec![a, b, c] };
    proof {
        assert(r@.values =~= seq![a@, b@, c@]);
    }
    r
}

/// A statement with four placeholders.
pub fn stmt4(cql: String, a: CqlValue, b: CqlValue, c: CqlValue, d: CqlValue) -> (r: Statement)
    ensures
        r@ == stmt(cql@, seq![a@, b@, c@, d@]),
{
    let r = Statement { cql, values: vec![a, b, c, d] };
    proof {
        assert(r@.values =~= seq![a@, b@, c@, d@]);
    }
    r
}

/// A statement with five placeholders.
pub fn stmt5(
    cql: String,
    a: CqlValue,
    b: CqlValue,
    c: CqlValue,
    d: CqlValue,
    e: CqlValue,
) -> (r: Statement)
    ensures
        r@ == stmt(cql@, seq![a@, b@, c@, d@, e@]),
{
    let r = Statement { cql, values: vec![a, b, c, d, e] };
    proof {
        assert(r@.values =~= seq![a@, b@, c@, d@, e@]);
    }
    r
}

/// Append a value to the values of a statement under construction.
pub fn push_value(values: &mut Vec<CqlValue>, v: CqlValue)
    ensures
        values_view(final(values)@) == values_view(old(values)@).push(v@),
{
    values.push(v);
    proof {
        assert(values_view(values@) =~= values_view(old(values)@).push(v@));
    }
}

/// Append a statement to a batch under construction.
pub fn push_statement(batch: &mut Vec<Statement>, s: Statement)
    ensures
        statements_view(final(batch)@) == statements_view(old(batch)@).push(s@),
{
    batch.push(s);
    proof {
        assert(statements_view(batch@) =~= statements_view(old(batch)@).push(s@));
    }
}

/// The bound form of a decimal number: the scale is cut to 32 bits.
pub open spec fn decimal_bind(n: DecimalView) -> CqlView {
    CqlView::Decimal { unscaled: n.unscaled, scale: n.scale as i32 }
}

/// Bind a number to a `decimal` column.
pub fn decimal_to_value(n: &Decimal) -> (r: CqlValue)
    ensures
        r@ == decimal_bind(n@),
{
    CqlValue::Decimal {
        unscaled: n.unscaled().clone(),
        scale: #[verifier::truncate]
        (n.scale() as i32),
    }
}

/// The bound form of a sort key value.
pub open spec fn sk_bind(sk: SortKeyView) -> CqlView {
    match sk {
        SortKeyView::S(s) => CqlView::Text(s),
        SortKeyView::N(n) => decimal_bind(n),
        SortKeyView::B(b) => CqlView::Blob(b),
    }
}

/// The scale of a number fits the wire.
pub open spec fn scale_fits(n: DecimalView) -> bool {
    i32::MIN <= n.scale <= i32::MAX
}

/// Binding a number loses nothing, whatever its precision, as long as its scale
/// fits the wire: the unscaled value and the scale are bound as they are, so that
/// two numbers are bound alike only where they are the same.
pub proof fn law_decimal_binding_lossless(a: DecimalView, b: DecimalView)
    requires
        scale_fits(a),
        scale_fits(b),
    ensures
        decimal_bind(a) == (CqlView::Decimal { unscaled: a.unscaled, scale: a.scale as i32 }),
        (a.scale as i32) as int == a.scale as int,
        decimal_bind(a) == decimal_bind(b) <==> a == b,
{
}

/// Every number in a sort key has a scale that fits the wire.
pub open spec fn sort_key_fits(sk: SortKeyView) -> bool {
    sk matches SortKeyView::N(n) ==> scale_fits(n)
}

/// Two sort key values of one type are bound alike only where they are the same.
pub proof fn law_sort_key_binding_lossless(a: SortKeyView, b: SortKeyView)
    requires
        sort_key_fits(a),
        sort_key_fits(b),
    ensures
        sk_bind(a) == sk_bind(b) <==> a == b,
{
}

/// Bind a sort key value to the column of its type.
pub fn sk_to_value(sk: &SortKeyValue) -> (r: CqlValue)
    ensures
        r@ == sk_bind(sk@),
{
    match sk {
        SortKeyValue::S(s) => CqlValue::Text(s.clone()),
        SortKeyValue::N(n) => decimal_to_value(n),
        SortKeyValue::B(b) => CqlValue::Blob(clone_bytes(b)),
    }
}

/// The column of the first sort key, by its type.
pub open spec fn sk_col(t: ScalarAttributeType) -> Seq<char> {
    match t {
        ScalarAttributeType::S => "sk_s"@,
        ScalarAttributeType::N => "sk_n"@,
        ScalarAttributeType::B => "sk_b"@,
    }
}

/// The column of the first sort key.
pub fn sk_column(t: ScalarAttributeType) -> (r: &'static str)
    ensures
        r@ == sk_col(t),
{
    match t {
        ScalarAttributeType::S => "sk_s",
        ScalarAttributeType::N => "sk_n",
        ScalarAttributeType::B => "sk_b",
    }
}

/// The column of the sort key at position `i`: the first one carries no number,
/// the others are counted from two.
pub open spec fn sk_col_n(i: nat, t: ScalarAttributeType) -> Seq<char> {
    if i == 0 {
        sk_col(t)
    } else {
        "sk"@ + nat_text(i + 1) + match t {
            ScalarAttributeType::S => "_s"@,
            ScalarAttributeType::N => "_n"@,
            ScalarAttributeType::B => "_b"@,
        }
    }
}

/// The column of the sort key at position `i`.
pub fn sk_column_n(i: usize, t: ScalarAttributeType) -> (r: String)
    requires
        i < usize::MAX,
    ensures
        r@ == sk_col_n(i as nat, t),
{
    if i == 0 {
        sk_column(t).to_owned()
    } else {
        let n = u64_text((i + 1) as u64);
        let suffix = match t {
            ScalarAttributeType::S => "_s",
            ScalarAttributeType::N => "_n",
            ScalarAttributeType::B => "_b",
        };
        cat3("sk", n.as_str(), suffix)
    }
}

} // verus!
