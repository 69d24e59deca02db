//! Rows as the library sees them, typed column access, and timestamps.
use vstd::prelude::*;
use crate::error::{is_internal, FromDbError, StorageError};
use crate::text::{cat2, cat3, cat4, clone_bytes, str_eq};

verus! {

/// What a column of a result row holds: a value, null, or unreadable, with the driver's
/// reason, where it could not be decoded. A column that the row lacks counts as
/// null.
#[derive(Debug, PartialEq, Eq)]
pub enum Cell {
    Text(String),
    BigInt(i64),
    Int(i32),
    Boolean(bool),
    Uuid(Vec<u8>),
    Blob(Vec<u8>),
    Null,
    Unreadable(String),
}

/// The type of a column, as the driver names it. A custom type comes with the
/// driver's description of it; it is read as a text only.
#[derive(Debug, PartialEq, Eq)]
pub enum ColumnType {
    Ascii,
    Varchar,
    Bigint,
    Counter,
    Timestamp,
    Time,
    Int,
    Date,
    Boolean,
    Uuid,
    Timeuuid,
    Blob,
    Custom(String),
    Other(String),
}

impl ColumnType {
    /// What the driver calls the type where it cannot be converted.
    pub open spec fn text(self) -> Seq<char> {
        match self {
            ColumnType::Ascii => "Ascii"@,
            ColumnType::Varchar => "Varchar"@,
            ColumnType::Bigint => "Bigint"@,
            ColumnType::Counter => "Counter"@,
            ColumnType::Timestamp => "Timestamp"@,
            ColumnType::Time => "Time"@,
            ColumnType::Int => "Int"@,
            ColumnType::Date => "Date"@,
            ColumnType::Boolean => "Boolean"@,
            ColumnType::Uuid => "Uuid"@,
            ColumnType::Timeuuid => "Timeuuid"@,
            ColumnType::Blob => "Blob"@,
            ColumnType::Custom(d) => "marshaled type "@ + d@,
            ColumnType::Other(n) => n@,
        }
    }

    fn name(&self) -> (r: String)
        ensures
            r@ == self.text(),
    {
        match self {
            ColumnType::Ascii => "Ascii".to_owned(),
            ColumnType::Varchar => "Varchar".to_owned(),
            ColumnType::Bigint => "Bigint".to_owned(),
            ColumnType::Counter => "Counter".to_owned(),
            ColumnType::Timestamp => "Timestamp".to_owned(),
            ColumnType::Time => "Time".to_owned(),
            ColumnType::Int => "Int".to_owned(),
            ColumnType::Date => "Date".to_owned(),
            ColumnType::Boolean => "Boolean".to_owned(),
            ColumnType::Uuid => "Uuid".to_owned(),
            ColumnType::Timeuuid => "Timeuuid".to_owned(),
            ColumnType::Blob => "Blob".to_owned(),
            ColumnType::Custom(d) => cat2("marshaled type ", d.as_str()),
            ColumnType::Other(n) => n.clone(),
        }
    }
}

/// A named column of a result row, with its type and what it holds.
#[derive(Debug, PartialEq, Eq)]
pub struct Column {
    pub name: String,
    pub column_type: ColumnType,
    pub cell: Cell,
}

/// A result row, as a list of named columns.
#[derive(Debug, PartialEq, Eq)]
pub struct Row {
    pub columns: Vec<Column>,
}

/// The first column of that name, where there is one.
pub open spec fn column_of(columns: Seq<Column>, name: Seq<char>) -> Option<Column>
    decreases columns.len(),
{
    if columns.len() == 0 {
        None
    } else if columns[0].name@ == name {
        Some(columns[0])
    } else {
        column_of(columns.drop_first(), name)
    }
}

impl Row {
    /// The column of that name.
    pub open spec fn column(self, name: Seq<char>) -> Option<Column> {
        column_of(self.columns@, name)
    }

    /// What the column of that name holds; null where there is none.
    pub open spec fn cell(self, name: Seq<char>) -> Cell {
        match self.column(name) {
            Some(c) => c.cell,
            None => Cell::Null,
        }
    }

    fn find(&self, name: &str) -> (r: Option<&Column>)
        ensures
            match r {
                Some(c) => self.column(name@) == Some(*c),
                None => self.column(name@) is None,
            },
    {
        let mut i: usize = 0;
        proof {
            assert(self.columns@.skip(0) =~= self.columns@);
        }
        while i < self.columns.len()
            invariant
                i <= self.columns@.len(),
                self.column(name@) == column_of(self.columns@.skip(i as int), name@),
            decreases self.columns@.len() - i,
        {
            if str_eq(self.columns[i].name.as_str(), name) {
                return Some(&self.columns[i]);
            }
            proof {
                assert(self.columns@.skip(i as int).drop_first() =~= self.columns@.skip(i + 1));
            }
            i = i + 1;
        }
        None
    }
}

/// Types that a column can be read as.
pub trait FromCell: Sized {
    /// The column holds this value.
    spec fn held_by(self, cell: Cell) -> bool;

    /// The column holds a value of this type.
    spec fn readable(cell: Cell) -> bool;

    /// Columns of that type hold values of this one.
    spec fn accepts(column_type: ColumnType) -> bool;

    /// Whether columns of that type hold values of this one.
    fn accepts_type(column_type: &ColumnType) -> (r: bool)
        ensures
            r == Self::accepts(*column_type),
    ;

    /// This type, and the column types that it can be read from, as the driver puts it
    /// for a column type that it cannot be read from.
    spec fn wanted(column_type: ColumnType) -> Seq<char>;

    /// This type, and the column types that it can be read from.
    fn wanted_text(column_type: &ColumnType) -> (r: &'static str)
        ensures
            r@ == Self::wanted(*column_type),
    ;

    /// Read a column.
    fn from_cell(cell: &Cell) -> (r: Option<Self>)
        ensures
            match r {
                Some(v) => Self::readable(*cell) && v.held_by(*cell),
                None => !Self::readable(*cell),
            },
    ;
}

impl FromCell for String {
    open spec fn held_by(self, cell: Cell) -> bool {
        cell == Cell::Text(self)
    }

    open spec fn readable(cell: Cell) -> bool {
        cell is Text
    }

    open spec fn accepts(column_type: ColumnType) -> bool {
        match column_type {
            ColumnType::Ascii | ColumnType::Varchar | ColumnType::Custom(_) => true,
            _ => false,
        }
    }

    fn accepts_type(column_type: &ColumnType) -> (r: bool) {
        match column_type {
            ColumnType::Ascii | ColumnType::Varchar | ColumnType::Custom(_) => true,
            _ => false,
        }
    }

    open spec fn wanted(_column_type: ColumnType) -> Seq<char> {
        "String (valid types: Custom, Ascii, Varchar)."@
    }

    fn wanted_text(_column_type: &ColumnType) -> (r: &'static str) {
        "String (valid types: Custom, Ascii, Varchar)."
    }

    fn from_cell(cell: &Cell) -> (r: Option<Self>) {
        match cell {
            Cell::Text(s) => Some(s.clone()),
            _ => None,
        }
    }
}

impl FromCell for i64 {
    open spec fn held_by(self, cell: Cell) -> bool {
        cell == Cell::BigInt(self)
    }

    open spec fn readable(cell: Cell) -> bool {
        cell is BigInt
    }

    open spec fn accepts(column_type: ColumnType) -> bool {
        match column_type {
            ColumnType::Bigint | ColumnType::Counter | ColumnType::Timestamp | ColumnType::Time => true,
            _ => false,
        }
    }

    fn accepts_type(column_type: &ColumnType) -> (r: bool) {
        match column_type {
            ColumnType::Bigint | ColumnType::Counter | ColumnType::Timestamp | ColumnType::Time => true,
            _ => false,
        }
    }

    open spec fn wanted(column_type: ColumnType) -> Seq<char> {
        match column_type {
            ColumnType::Custom(_) => "i64 (valid types: org.apache.cassandra.db.marshal.{LongType|IntegerType|CounterColumnType|TimestampType|TimeType})."@,
            _ => "i64 (valid types: Bigint, Timestamp, Time,Counter, Custom)."@,
        }
    }

    fn wanted_text(column_type: &ColumnType) -> (r: &'static str) {
        match column_type {
            ColumnType::Custom(_) => "i64 (valid types: org.apache.cassandra.db.marshal.{LongType|IntegerType|CounterColumnType|TimestampType|TimeType}).",
            _ => "i64 (valid types: Bigint, Timestamp, Time,Counter, Custom).",
        }
    }

    fn from_cell(cell: &Cell) -> (r: Option<Self>) {
        match cell {
            Cell::BigInt(i) => Some(*i),
            _ => None,
        }
    }
}

impl FromCell for i32 {
    open spec fn held_by(self, cell: Cell) -> bool {
        cell == Cell::Int(self)
    }

    open spec fn readable(cell: Cell) -> bool {
        cell is Int
    }

    open spec fn accepts(column_type: ColumnType) -> bool {
        match column_type {
            ColumnType::Int | ColumnType::Date => true,
            _ => false,
        }
    }

    fn accepts_type(column_type: &ColumnType) -> (r: bool) {
        match column_type {
            ColumnType::Int | ColumnType::Date => true,
            _ => false,
        }
    }

    open spec fn wanted(column_type: ColumnType) -> Seq<char> {
        match column_type {
            ColumnType::Custom(_) => "i32 (valid types: org.apache.cassandra.db.marshal.Int32Type)."@,
            _ => "i32 (valid types: Int, Date, Custom)."@,
        }
    }

    fn wanted_text(column_type: &ColumnType) -> (r: &'static str) {
        match column_type {
            ColumnType::Custom(_) => "i32 (valid types: org.apache.cassandra.db.marshal.Int32Type).",
            _ => "i32 (valid types: Int, Date, Custom).",
        }
    }

    fn from_cell(cell: &Cell) -> (r: Option<Self>) {
        match cell {
            Cell::Int(i) => Some(*i),
            _ => None,
        }
    }
}

impl FromCell for bool {
    open spec fn held_by(self, cell: Cell) -> bool {
        cell == Cell::Boolean(self)
    }

    open spec fn readable(cell: Cell) -> bool {
        cell is Boolean
    }

    open spec fn accepts(column_type: ColumnType) -> bool {
        column_type is Boolean
    }

    fn accepts_type(column_type: &ColumnType) -> (r: bool) {
        match column_type {
            ColumnType::Boolean => true,
            _ => false,
        }
    }

    open spec fn wanted(column_type: ColumnType) -> Seq<char> {
        match column_type {
            ColumnType::Custom(_) => "bool (valid types: org.apache.cassandra.db.marshal.BooleanType)."@,
            _ => "bool (valid types: Boolean, Custom)."@,
        }
    }

    fn wanted_text(column_type: &ColumnType) -> (r: &'static str) {
        match column_type {
            ColumnType::Custom(_) => "bool (valid types: org.apache.cassandra.db.marshal.BooleanType).",
            _ => "bool (valid types: Boolean, Custom).",
        }
    }

    fn from_cell(cell: &Cell) -> (r: Option<Self>) {
        match cell {
            Cell::Boolean(b) => Some(*b),
            _ => None,
        }
    }
}

impl FromCell for Vec<u8> {
    open spec fn held_by(self, cell: Cell) -> bool {
        cell matches Cell::Uuid(b) && b@ == self@
    }

    open spec fn readable(cell: Cell) -> bool {
        cell is Uuid
    }

    open spec fn accepts(column_type: ColumnType) -> bool {
        match column_type {
            ColumnType::Uuid | ColumnType::Timeuuid => true,
            _ => false,
        }
    }

    fn accepts_type(column_type: &ColumnType) -> (r: bool) {
        match column_type {
            ColumnType::Uuid | ColumnType::Timeuuid => true,
            _ => false,
        }
    }

    open spec fn wanted(column_type: ColumnType) -> Seq<char> {
        match column_type {
            ColumnType::Custom(_) => "Uuid (valid types: org.apache.cassandra.db.marshal.{UUIDType|TimeUUIDType})."@,
            _ => "Uuid (valid types: Uuid, Timeuuid, Custom)."@,
        }
    }

    fn wanted_text(column_type: &ColumnType) -> (r: &'static str) {
        match column_type {
            ColumnType::Custom(_) => "Uuid (valid types: org.apache.cassandra.db.marshal.{UUIDType|TimeUUIDType}).",
            _ => "Uuid (valid types: Uuid, Timeuuid, Custom).",
        }
    }

    fn from_cell(cell: &Cell) -> (r: Option<Self>) {
        match cell {
            Cell::Uuid(b) => Some(clone_bytes(b)),
            _ => None,
        }
    }
}

/// The bytes of a `blob` column.
#[derive(Debug, PartialEq, Eq)]
pub struct BlobBytes(pub Vec<u8>);

impl FromCell for BlobBytes {
    open spec fn held_by(self, cell: Cell) -> bool {
        cell matches Cell::Blob(b) && b@ == self.0@
    }

    open spec fn readable(cell: Cell) -> bool {
        cell is Blob
    }

    open spec fn accepts(column_type: ColumnType) -> bool {
        column_type is Blob
    }

    fn accepts_type(column_type: &ColumnType) -> (r: bool) {
        match column_type {
            ColumnType::Blob => true,
            _ => false,
        }
    }

    open spec fn wanted(column_type: ColumnType) -> Seq<char> {
        match column_type {
            ColumnType::Custom(_) => "Vec<u8> (valid types: org.apache.cassandra.db.marshal.BytesType)."@,
            _ => "Vec<u8> (valid types: Blob)."@,
        }
    }

    fn wanted_text(column_type: &ColumnType) -> (r: &'static str) {
        match column_type {
            ColumnType::Custom(_) => "Vec<u8> (valid types: org.apache.cassandra.db.marshal.BytesType).",
            _ => "Vec<u8> (valid types: Blob).",
        }
    }

    fn from_cell(cell: &Cell) -> (r: Option<Self>) {
        match cell {
            Cell::Blob(b) => Some(BlobBytes(clone_bytes(b))),
            _ => None,
        }
    }
}

/// Extract a typed column value from a `Row` with standardized error handling.
///
/// A column that is missing, null or of another type is the error
/// `Database error`.
pub fn get_column<T: FromCell, E: FromDbError>(row: &Row, column: &str) -> (r: Result<T, E>)
    ensures
        match r {
            Ok(v) => T::readable(row.cell(column@)) && v.held_by(row.cell(column@)),
            Err(e) => !T::readable(row.cell(column@)) && e.carries("Database error"@),
        },
{
    let found = match row.find(column) {
        Some(c) => T::from_cell(&c.cell),
        None => T::from_cell(&Cell::Null),
    };
    match found {
        Some(v) => Ok(v),
        None => Err(E::db_error("Database error".to_owned())),
    }
}

/// A column value that may be absent: `None` where the column is missing, null
/// or of another type.
pub fn get_optional<T: FromCell>(row: &Row, column: &str) -> (r: Option<T>)
    ensures
        match r {
            Some(v) => T::readable(row.cell(column@)) && v.held_by(row.cell(column@)),
            None => !T::readable(row.cell(column@)),
        },
{
    match row.find(column) {
        Some(c) => T::from_cell(&c.cell),
        None => T::from_cell(&Cell::Null),
    }
}

/// The text of a column, where it holds one.
pub open spec fn text_of(cell: Cell) -> Option<Seq<char>> {
    match cell {
        Cell::Text(s) => Some(s@),
        _ => None,
    }
}

/// The number of a column, where it holds a `bigint`.
pub open spec fn bigint_of(cell: Cell) -> Option<i64> {
    match cell {
        Cell::BigInt(i) => Some(i),
        _ => None,
    }
}

/// Why a column could not be read as a type, in the words of the driver: that its
/// type does not convert; else its own reason where it gave one; else that the column
/// is empty, as one is that the row lacks.
pub open spec fn read_error<T: FromCell>(row: Row, column: Seq<char>) -> Seq<char> {
    match row.column(column) {
        Some(c) => if !T::accepts(c.column_type) {
            "General error: Invalid conversion. Cannot convert "@ + c.column_type.text()
                + " into "@ + T::wanted(c.column_type)
        } else if let Cell::Unreadable(m) = c.cell {
            m@
        } else {
            empty_error(column)
        },
        None => empty_error(column),
    }
}

/// The driver's error of an empty column.
pub open spec fn empty_error(column: Seq<char>) -> Seq<char> {
    "General error: Column or Udt property '"@ + column + "' is empty"@
}

fn empty_column(column: &str) -> (r: String)
    ensures
        r@ == empty_error(column@),
{
    cat3("General error: Column or Udt property '", column, "' is empty")
}

/// Read a column, or say why it could not be read.
pub fn read_column<T: FromCell>(row: &Row, column: &str) -> (r: Result<T, String>)
    ensures
        match r {
            Ok(v) => T::readable(row.cell(column@)) && v.held_by(row.cell(column@)),
            Err(m) => !T::readable(row.cell(column@)) && m@ == read_error::<T>(*row, column@),
        },
{
    let found: Option<T> = get_optional(row, column);
    match found {
        Some(v) => Ok(v),
        None => match row.find(column) {
            Some(c) => if !T::accepts_type(&c.column_type) {
                let name = c.column_type.name();
                Err(
                    cat4(
                        "General error: Invalid conversion. Cannot convert ",
                        name.as_str(),
                        " into ",
                        T::wanted_text(&c.column_type),
                    ),
                )
            } else {
                match &c.cell {
                    Cell::Unreadable(m) => Err(m.clone()),
                    _ => Err(empty_column(column)),
                }
            },
            None => Err(empty_column(column)),
        },
    }
}

/// Read a column; where it cannot be read, the error says what was parsed and why.
pub fn parse_column<T: FromCell>(row: &Row, column: &str, context: &str) -> (r: Result<
    T,
    StorageError,
>)
    ensures
        match r {
            Ok(v) => T::readable(row.cell(column@)) && v.held_by(row.cell(column@)),
            Err(e) => !T::readable(row.cell(column@)) && is_internal(
                e,
                context@ + ": "@ + read_error::<T>(*row, column@),
            ),
        },
{
    match read_column::<T>(row, column) {
        Ok(v) => Ok(v),
        Err(m) => Err(StorageError::Internal(cat3(context, ": ", m.as_str()))),
    }
}

/// The `[applied]` column of a conditional statement, or why it could not be read.
pub fn applied_column(row: &Row) -> (r: Result<bool, String>)
    ensures
        match r {
            Ok(b) => row.cell("[applied]"@) == Cell::Boolean(b),
            Err(m) => !(row.cell("[applied]"@) is Boolean) && m@ == read_error::<bool>(
                *row,
                "[applied]"@,
            ),
        },
{
    read_column(row, "[applied]")
}

/// The outcome of a conditional statement: the `[applied]` column of the first
/// row, `false` where there is none.
pub open spec fn applied(rows: Seq<Row>) -> bool {
    rows.len() > 0 && rows[0].cell("[applied]"@) == Cell::Boolean(true)
}

/// Whether a conditional statement was applied.
pub fn lwt_applied(rows: &Vec<Row>) -> (r: bool)
    ensures
        r == applied(rows@),
{
    if rows.len() == 0 {
        return false;
    }
    match get_optional::<bool>(&rows[0], "[applied]") {
        Some(b) => b,
        None => false,
    }
}

/// Division rounded towards zero.
pub open spec fn trunc_quotient(a: int, d: int) -> int {
    if a >= 0 {
        a / d
    } else {
        -((-a) / d)
    }
}

/// Divide a number by a positive one, rounding towards zero.
pub fn trunc_div(a: i64, d: i64) -> (r: i64)
    requires
        d > 1,
    ensures
        r == trunc_quotient(a as int, d as int),
{
    if a >= 0 {
        a / d
    } else {
        let m: u64 = if a == i64::MIN {
            9_223_372_036_854_775_808u64
        } else {
            (-a) as u64
        };
        let q: u64 = m / (d as u64);
        proof {
            assert(q <= m / 2) by (nonlinear_arith)
                requires
                    d > 1,
                    q == m as int / d as int,
            ;
        }
        -(q as i64)
    }
}

/// The seconds of a timestamp in milliseconds, rounded towards zero.
pub open spec fn whole_seconds(millis: i64) -> int {
    trunc_quotient(millis as int, 1000)
}

/// `time::OffsetDateTime::from_unix_timestamp`: it accepts the seconds from the
/// first of the year -9999 to the end of the year 9999, in a build without the
/// feature `large-dates`, and stands for the same instant.
#[verifier::external_body]
fn unix_datetime(seconds: i64) -> (r: Option<i64>)
    ensures
        r == (if -377_705_116_800 <= seconds <= 253_402_300_799 {
            Some(seconds)
        } else {
            None
        }),
{
    time::OffsetDateTime::from_unix_timestamp(seconds).ok().map(|t| t.unix_timestamp())
}

/// The instants that a date and time can stand for, in seconds since the epoch.
pub open spec fn datetime_in_range(seconds: int) -> bool {
    -377_705_116_800 <= seconds <= 253_402_300_799
}

/// Convert a Cassandra timestamp (milliseconds since Unix epoch) to an instant in
/// whole seconds since the epoch.
///
/// An instant that no date and time can stand for is the error `Database error`.
pub fn timestamp_to_datetime<E: FromDbError>(millis: i64) -> (r: Result<i64, E>)
    ensures
        match r {
            Ok(s) => s == whole_seconds(millis) && datetime_in_range(s as int),
            Err(e) => !datetime_in_range(whole_seconds(millis)) && e.carries("Database error"@),
        },
{
    match unix_datetime(trunc_div(millis, 1000)) {
        Some(s) => Ok(s),
        None => Err(E::db_error("Database error".to_owned())),
    }
}

/// Extract a timestamp column and convert it to whole seconds since the epoch.
pub fn get_timestamp<E: FromDbError>(row: &Row, column: &str) -> (r: Result<i64, E>)
    ensures
        match r {
            Ok(s) => row.cell(column@) matches Cell::BigInt(ms) && s == whole_seconds(ms)
                && datetime_in_range(s as int),
            Err(e) => e.carries("Database error"@) && !(row.cell(column@) matches Cell::BigInt(ms)
                && datetime_in_range(whole_seconds(ms))),
        },
{
    let millis: i64 = match get_column::<i64, E>(row, column) {
        Ok(m) => m,
        Err(e) => {
            return Err(e);
        },
    };
    timestamp_to_datetime(millis)
}

/// The row can map to a value.
pub open spec fn maps<R, T, E, F: Fn(&R) -> Result<T, E>>(row: R, mapper: F) -> bool {
    exists|v: T| call_ensures(mapper, (&row,), Ok::<T, E>(v))
}

/// Every row can map to a value.
pub open spec fn all_map<R, T, E, F: Fn(&R) -> Result<T, E>>(rows: Seq<R>, mapper: F) -> bool {
    forall|k: int| 0 <= k < rows.len() ==> maps::<R, T, E, F>(#[trigger] rows[k], mapper)
}

/// Map rows to `Vec<T>` with a mapper function; the first row that fails to map
/// decides the error.
pub fn map_rows<R, T, E, F: Fn(&R) -> Result<T, E>>(rows: Vec<R>, mapper: F) -> (r: Result<
    Vec<T>,
    E,
>)
    requires
        forall|i: int| 0 <= i < rows@.len() ==> call_requires(mapper, (&#[trigger] rows@[i],)),
    ensures
        match r {
            Ok(v) => v@.len() == rows@.len() && forall|i: int|
                #![trigger v@[i]]
                0 <= i < v@.len() ==> call_ensures(mapper, (&rows@[i],), Ok(v@[i])),
            Err(e) => exists|i: int|
                #![trigger rows@[i]]
                0 <= i < rows@.len() && call_ensures(mapper, (&rows@[i],), Err(e)) && all_map(
                    rows@.take(i),
                    mapper,
                ),
        },
{
    let mut out: Vec<T> = Vec::new();
    let mut i: usize = 0;
    while i < rows.len()
        invariant
            i <= rows@.len(),
            out@.len() == i,
            forall|k: int| 0 <= k < rows@.len() ==> call_requires(mapper, (&#[trigger] rows@[k],)),
            forall|k: int|
                #![trigger out@[k]]
                0 <= k < i ==> call_ensures(mapper, (&rows@[k],), Ok(out@[k])),
        decreases rows@.len() - i,
    {
        match mapper(&rows[i]) {
            Ok(v) => {
                out.push(v);
            },
            Err(e) => {
                proof {
                    let before = rows@.take(i as int);
                    assert forall|k: int| 0 <= k < before.len() implies maps::<R, T, E, F>(
                        #[trigger] before[k],
                        mapper,
                    ) by {
                        assert(call_ensures(mapper, (&before[k],), Ok::<T, E>(out@[k])));
                    }
                    assert(all_map::<R, T, E, F>(before, mapper));
                    assert(call_ensures(mapper, (&rows@[i as int],), Err::<T, E>(e)));
                }
                return Err(e);
            },
        }
        i = i + 1;
    }
    Ok(out)
}

/// The most whole milliseconds that a `std::time::Duration` holds: its seconds are a
/// `u64`, and its fraction is below one second.
pub open spec fn max_duration_millis() -> int {
    u64::MAX * 1000 + 999
}

/// `std::time::SystemTime::elapsed` at the Unix epoch, in whole milliseconds: `None`
/// where the clock lies before the epoch, and else no more than a duration holds.
/// Nothing more is promised of the time.
#[verifier::external_body]
pub(crate) fn elapsed_since_epoch() -> (r: Option<u128>)
    ensures
        r matches Some(m) ==> m <= max_duration_millis(),
{
    match std::time::UNIX_EPOCH.elapsed() {
        Ok(d) => Some(d.as_millis()),
        Err(_) => None,
    }
}

/// The milliseconds since the epoch that a reading of the clock counts as: a clock
/// before the epoch counts as 0.
pub fn millis_since(reading: Option<u128>) -> (r: u128)
    ensures
        r == (match reading {
            Some(m) => m,
            None => 0,
        }),
{
    match reading {
        Some(m) => m,
        None => 0,
    }
}

/// A number of milliseconds as a signed 64-bit one, which keeps its low 64 bits.
pub open spec fn signed_millis(millis: u128) -> i64 {
    millis as i64
}

/// A number of milliseconds as a signed 64-bit one.
pub fn millis_i64(millis: u128) -> (r: i64)
    ensures
        r == signed_millis(millis),
        millis <= i64::MAX ==> r == millis,
{
    #[verifier::truncate]
    (millis as i64)
}

/// The time that a reading of the clock stands for, as milliseconds since Unix epoch
/// as `i64`. It is 0 for a clock before the epoch, and never negative within the
/// range of an `i64`.
pub fn millis_at(reading: Option<u128>) -> (r: i64)
    ensures
        match reading {
            Some(m) => r == signed_millis(m) && (m <= i64::MAX ==> r == m),
            None => r == 0,
        },
{
    millis_i64(millis_since(reading))
}

/// Return the current time as milliseconds since Unix epoch as `i64`: what
/// `millis_at` gives for the reading of the clock.
pub fn now_millis() -> (r: i64)
    ensures
        exists|m: u128| m <= max_duration_millis() && r == #[trigger] signed_millis(m),
{
    let reading = elapsed_since_epoch();
    let r: i64 = millis_at(reading);
    proof {
        let m: u128 = match reading {
            Some(m) => m,
            None => 0,
        };
        assert(m <= max_duration_millis() && r == signed_millis(m));
    }
    r
}

/// The driver's error, opaque.
#[verifier::external_type_specification]
#[verifier::external_body]
pub struct ExDriverError(cdrs_tokio::error::Error);

/// Check if an error is a unique constraint violation, which Cassandra does not
/// have.
pub fn is_unique_violation(_err: &cdrs_tokio::error::Error) -> (r: bool)
    ensures
        !r,
{
    false
}

/// Check if an error is a foreign key constraint violation, which Cassandra does
/// not have.
pub fn is_fk_violation(_err: &cdrs_tokio::error::Error) -> (r: bool)
    ensures
        !r,
{
    false
}

/// The error of a query that the driver could not run, in a context.
pub fn query_failed<E: FromDbError>(context: &str, cause: &str) -> (r: E)
    ensures
        r.carries(context@ + ": "@ + cause@),
{
    E::db_error(cat3(context, ": ", cause))
}

/// The error of a response that could not be read, in a context.
pub fn response_unreadable<E: FromDbError>(context: &str, cause: &str) -> (r: E)
    ensures
        r.carries(context@ + " response_body: "@ + cause@),
{
    E::db_error(cat3(context, " response_body: ", cause))
}

/// The error of a statement that the driver could not run. Its cause is not passed
/// on.
pub fn statement_failed<E: FromDbError>() -> (r: E)
    ensures
        r.carries("Database error"@),
{
    E::db_error("Database error".to_owned())
}

/// The first row of a result.
pub fn first_row(rows: Vec<Row>) -> (r: Option<Row>)
    ensures
        r == (if rows@.len() == 0 {
            None
        } else {
            Some(rows@[0])
        }),
{
    let mut rows = rows;
    if rows.len() == 0 {
        None
    } else {
        Some(rows.remove(0))
    }
}

} // verus!
