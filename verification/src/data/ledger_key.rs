//! Sort keys as the transaction ledger stores them: in text, under a column name
//! that tells their type.
use base64::Engine;
use vstd::prelude::*;
use crate::cql::sk_col;
use crate::error::{is_internal, StorageError};
use crate::model::{
    is_int_text, Decimal, DecimalView, ScalarAttributeType, SortKeyBind, SortKeyValue, SortKeyView,
};
use crate::text::{cat2, parsed_int, str_eq};

verus! {

/// Ten to the power of `n`.
pub open spec fn ten_to(n: nat) -> int
    decreases n,
{
    if n == 0 {
        1
    } else {
        10 * ten_to((n - 1) as nat)
    }
}

/// The two decimals are the same number, though perhaps of different scales.
pub open spec fn same_number(a: DecimalView, b: DecimalView) -> bool {
    let x = parsed_int(a.unscaled);
    let y = parsed_int(b.unscaled);
    &&& x is Some
    &&& y is Some
    &&& if a.scale >= b.scale {
        x->0 == y->0 * ten_to((a.scale - b.scale) as nat)
    } else {
        y->0 == x->0 * ten_to((b.scale - a.scale) as nat)
    }
}

/// The text that `bigdecimal` gives of a number.
pub uninterp spec fn decimal_text_of(unscaled: Seq<char>, scale: i64) -> Seq<char>;

/// What `bigdecimal` reads in a text: the integer text and the scale of a number,
/// or the text of its error.
pub uninterp spec fn decimal_parse_of(text: Seq<char>) -> Result<(Seq<char>, i64), Seq<char>>;

/// The decimal that a parsed text stands for.
pub open spec fn parsed_decimal(p: Result<(Seq<char>, i64), Seq<char>>) -> DecimalView {
    DecimalView { unscaled: (p->Ok_0).0, scale: (p->Ok_0).1 }
}

/// `<bigdecimal::BigDecimal as ToString>::to_string` of the number
/// `unscaled * 10^(-scale)`. The text depends on the number alone; parsing it
/// gives back the same number, though the scale may differ where it is not
/// positive or the number is zero. The integer text must be one, or its parser
/// would fail.
#[verifier::external_body]
fn decimal_text(unscaled: &String, scale: i64) -> (r: String)
    requires
        is_int_text(unscaled@),
    ensures
        r@ == decimal_text_of(unscaled@, scale),
        decimal_parse_of(r@) is Ok,
        same_number(parsed_decimal(decimal_parse_of(r@)), (DecimalView { unscaled: unscaled@, scale })),
{
    let digits: bigdecimal::num_bigint::BigInt = unscaled.parse().unwrap();
    bigdecimal::BigDecimal::new(digits, scale).to_string()
}

/// `<bigdecimal::BigDecimal as FromStr>::from_str` and `as_bigint_and_exponent`:
/// the integer text and the scale, or the text of the error. They depend on the
/// text alone, and the integer text is that of an integer.
#[verifier::external_body]
fn decimal_parse(text: &str) -> (r: Result<(String, i64), String>)
    ensures
        match r {
            Ok(p) => decimal_parse_of(text@) is Ok && decimal_parse_of(text@)->Ok_0 == (p.0@, p.1)
                && is_int_text(p.0@),
            Err(m) => decimal_parse_of(text@) is Err && decimal_parse_of(text@)->Err_0 == m@,
        },
{
    let parsed: Result<bigdecimal::BigDecimal, bigdecimal::ParseBigDecimalError> = text.parse();
    parsed.map_err(|e| e.to_string()).map(|d| d.as_bigint_and_exponent()).map(
        |p| (p.0.to_string(), p.1),
    )
}

/// The standard base64 text of a byte string.
pub uninterp spec fn base64_of(bytes: Seq<u8>) -> Seq<char>;

/// What the standard base64 engine reads in a text: the bytes, or the text of its
/// error.
pub uninterp spec fn base64_parse_of(text: Seq<char>) -> Result<Seq<u8>, Seq<char>>;

/// `base64::engine::general_purpose::STANDARD.encode`: the text depends on the
/// bytes alone, and decoding it gives them back.
#[verifier::external_body]
fn base64_text(bytes: &Vec<u8>) -> (r: String)
    ensures
        r@ == base64_of(bytes@),
        base64_parse_of(r@) is Ok,
        base64_parse_of(r@)->Ok_0 == bytes@,
{
    base64::engine::general_purpose::STANDARD.encode(bytes)
}

/// `base64::engine::general_purpose::STANDARD.decode`: the bytes or the text of the
/// error, which depend on the text alone.
#[verifier::external_body]
pub(crate) fn base64_parse(text: &str) -> (r: Result<Vec<u8>, String>)
    ensures
        match r {
            Ok(b) => base64_parse_of(text@) is Ok && base64_parse_of(text@)->Ok_0 == b@,
            Err(m) => base64_parse_of(text@) is Err && base64_parse_of(text@)->Err_0 == m@,
        },
{
    base64::engine::general_purpose::STANDARD.decode(text).map_err(|e| e.to_string())
}

/// The text of a sort key: a string as it is, a number in decimal, bytes in base64.
pub open spec fn sk_text_of(sk: SortKeyView) -> Seq<char> {
    match sk {
        SortKeyView::S(s) => s,
        SortKeyView::N(n) => decimal_text_of(n.unscaled, n.scale),
        SortKeyView::B(b) => base64_of(b),
    }
}

/// The sort keys are the same, numbers by their value.
pub open spec fn same_sort_key(a: SortKeyView, b: SortKeyView) -> bool {
    match (a, b) {
        (SortKeyView::S(x), SortKeyView::S(y)) => x == y,
        (SortKeyView::N(x), SortKeyView::N(y)) => same_number(x, y),
        (SortKeyView::B(x), SortKeyView::B(y)) => x == y,
        _ => false,
    }
}

/// What the ledger reads back from a column name and a text, where it can.
pub open spec fn ledger_reads(col: Seq<char>, text: Seq<char>) -> Option<SortKeyView> {
    if col == "sk_s"@ {
        Some(SortKeyView::S(text))
    } else if col == "sk_n"@ {
        match decimal_parse_of(text) {
            Ok((unscaled, scale)) => Some(SortKeyView::N(DecimalView { unscaled, scale })),
            Err(_) => None,
        }
    } else if col == "sk_b"@ {
        match base64_parse_of(text) {
            Ok(b) => Some(SortKeyView::B(b)),
            Err(_) => None,
        }
    } else {
        None
    }
}

/// Write a sort key as text. What the ledger reads back under its column is the
/// same key.
pub fn sort_key_text(sk: &SortKeyValue) -> (r: String)
    ensures
        r@ == sk_text_of(sk@),
        ledger_reads(sk_col(crate::model::sk_type_of(sk@)), r@) is Some,
        same_sort_key(ledger_reads(sk_col(crate::model::sk_type_of(sk@)), r@)->0, sk@),
{
    proof {
        reveal_strlit("sk_s");
        reveal_strlit("sk_n");
        reveal_strlit("sk_b");
        assert("sk_s"@[3] == 's');
        assert("sk_n"@[3] == 'n');
        assert("sk_b"@[3] == 'b');
    }
    match sk {
        SortKeyValue::S(s) => s.clone(),
        SortKeyValue::N(n) => decimal_text(n.unscaled(), n.scale()),
        SortKeyValue::B(b) => base64_text(b),
    }
}

/// The error of a sort key that the ledger cannot read.
pub open spec fn ledger_key_error(col: Seq<char>, text: Seq<char>) -> Seq<char> {
    if col == "sk_n"@ {
        "invalid numeric sk in ledger: "@ + decimal_parse_of(text)->Err_0
    } else if col == "sk_b"@ {
        "invalid binary sk in ledger: "@ + base64_parse_of(text)->Err_0
    } else {
        "unknown sk_col in ledger: "@ + col
    }
}

/// Reconstruct a `SortKeyValue` from the text representation stored in `LedgerOp`.
///
/// `sk_col` encodes the type ("sk_s" → S, "sk_n" → N, "sk_b" → B).
pub fn ledger_sk_to_sort_key(col: &str, text: &str) -> (r: Result<SortKeyBind, StorageError>)
    ensures
        match r {
            Ok(b) => ledger_reads(col@, text@) == Some(b.value@) && sk_col(b.sk_type) == col@,
            Err(e) => ledger_reads(col@, text@) is None && is_internal(
                e,
                ledger_key_error(col@, text@),
            ),
        },
{
    if str_eq(col, "sk_s") {
        Ok(SortKeyBind { sk_type: ScalarAttributeType::S, value: SortKeyValue::S(text.to_owned()) })
    } else if str_eq(col, "sk_n") {
        match decimal_parse(text) {
            Ok((unscaled, scale)) => match Decimal::new(unscaled, scale) {
                Some(d) => Ok(
                    SortKeyBind { sk_type: ScalarAttributeType::N, value: SortKeyValue::N(d) },
                ),
                None => Err(StorageError::Internal("invalid numeric sk in ledger: ".to_owned())),
            },
            Err(m) => Err(
                StorageError::Internal(cat2("invalid numeric sk in ledger: ", m.as_str())),
            ),
        }
    } else if str_eq(col, "sk_b") {
        match base64_parse(text) {
            Ok(b) => Ok(
                SortKeyBind { sk_type: ScalarAttributeType::B, value: SortKeyValue::B(b) },
            ),
            Err(m) => Err(
                StorageError::Internal(cat2("invalid binary sk in ledger: ", m.as_str())),
            ),
        }
    } else {
        Err(StorageError::Internal(cat2("unknown sk_col in ledger: ", col)))
    }
}

} // verus!
