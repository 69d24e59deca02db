//! What statements do: commands on a table, the statement that each is written as,
//! and their effect on the rows.
use vstd::prelude::*;
use crate::cql::{stmt, CqlView, StatementView};
use crate::text::joined;

verus! {

/// What a column is compared with or set to: a bound value, a truth value, null (which
/// may be written in capitals), the number after the one that it holds, or a text in
/// quotes.
pub enum Term {
    Bound(CqlView),
    Truth(bool),
    Null,
    CapitalNull,
    Next,
    Quoted(Seq<char>),
}

/// A column and a term.
pub struct Slot {
    pub column: Seq<char>,
    pub term: Term,
}

/// When a command takes effect: always, where there is no row yet, where columns of the
/// row hold what is asked for, or where a column holds a number below another.
pub enum Guard {
    Always,
    NotExists,
    If(Seq<Slot>),
    Below(Seq<char>, i64),
}

/// A command on one row of a table. The key slots address the row.
pub enum Command {
    Insert { target: Seq<char>, key: Seq<Slot>, cells: Seq<Slot>, guard: Guard },
    Update { target: Seq<char>, key: Seq<Slot>, cells: Seq<Slot>, guard: Guard },
    Delete { target: Seq<char>, key: Seq<Slot>, guard: Guard },
}

/// How a term is written.
pub open spec fn term_text(s: Slot) -> Seq<char> {
    match s.term {
        Term::Bound(_) => "?"@,
        Term::Truth(b) => if b {
            "true"@
        } else {
            "false"@
        },
        Term::Null => "null"@,
        Term::CapitalNull => "NULL"@,
        Term::Next => s.column + " + 1"@,
        Term::Quoted(t) => "'"@ + t + "'"@,
    }
}

/// The names of the columns.
pub open spec fn columns_of(slots: Seq<Slot>) -> Seq<Seq<char>> {
    slots.map_values(|s: Slot| s.column)
}

/// The terms, as they are written.
pub open spec fn terms_of(slots: Seq<Slot>) -> Seq<Seq<char>> {
    slots.map_values(|s: Slot| term_text(s))
}

/// The columns, each with its term behind an equals sign.
pub open spec fn equations(slots: Seq<Slot>) -> Seq<Seq<char>> {
    slots.map_values(|s: Slot| s.column + " = "@ + term_text(s))
}

/// The bound values, in order.
pub open spec fn bounds(slots: Seq<Slot>) -> Seq<CqlView>
    decreases slots.len(),
{
    if slots.len() == 0 {
        Seq::empty()
    } else {
        match slots.last().term {
            Term::Bound(v) => bounds(slots.drop_last()).push(v),
            _ => bounds(slots.drop_last()),
        }
    }
}

/// How a guard is written.
pub open spec fn guard_text(g: Guard) -> Seq<char> {
    match g {
        Guard::Always => Seq::empty(),
        Guard::NotExists => " IF NOT EXISTS"@,
        Guard::If(slots) => " IF "@ + joined(equations(slots), " AND "@),
        Guard::Below(column, _) => " IF "@ + column + " < ?"@,
    }
}

/// The bound values of a guard.
pub open spec fn guard_bounds(g: Guard) -> Seq<CqlView> {
    match g {
        Guard::If(slots) => bounds(slots),
        Guard::Below(_, n) => seq![CqlView::BigInt(n)],
        _ => Seq::empty(),
    }
}

/// The statement that a command is written as.
pub open spec fn written(c: Command) -> StatementView {
    match c {
        Command::Insert { target, key, cells, guard } => stmt(
            "INSERT INTO "@ + target + " ("@ + joined(columns_of(key + cells), ", "@)
                + ") VALUES ("@ + joined(terms_of(key + cells), ", "@) + ")"@ + guard_text(guard),
            bounds(key + cells) + guard_bounds(guard),
        ),
        Command::Update { target, key, cells, guard } => stmt(
            "UPDATE "@ + target + " SET "@ + joined(equations(cells), ", "@) + " WHERE "@ + joined(
                equations(key),
                " AND "@,
            ) + guard_text(guard),
            bounds(cells) + bounds(key) + guard_bounds(guard),
        ),
        Command::Delete { target, key, guard } => stmt(
            "DELETE FROM "@ + target + " WHERE "@ + joined(equations(key), " AND "@) + guard_text(
                guard,
            ),
            bounds(key) + guard_bounds(guard),
        ),
    }
}

/// The columns of a row that hold a value, each with it.
pub type Cells = Map<Seq<char>, CqlView>;

/// The rows of a table, each under the columns and values that address it.
pub type Table = Map<Cells, Cells>;

/// What a column of a row holds; null where it holds nothing or there is no row.
pub open spec fn held(row: Option<Cells>, column: Seq<char>) -> CqlView {
    match row {
        Some(cells) => if cells.dom().contains(column) {
            cells[column]
        } else {
            CqlView::Null
        },
        None => CqlView::Null,
    }
}

/// The value of a term.
pub open spec fn term_value(row: Option<Cells>, s: Slot) -> CqlView {
    match s.term {
        Term::Bound(v) => v,
        Term::Truth(b) => CqlView::Boolean(b),
        Term::Null | Term::CapitalNull => CqlView::Null,
        Term::Next => match held(row, s.column) {
            CqlView::BigInt(n) => CqlView::BigInt((n + 1) as i64),
            _ => CqlView::Null,
        },
        Term::Quoted(t) => CqlView::Text(t),
    }
}

/// The columns and values that key slots address a row by.
pub open spec fn address(key: Seq<Slot>) -> Cells
    decreases key.len(),
{
    if key.len() == 0 {
        Map::empty()
    } else {
        address(key.drop_last()).insert(key.last().column, term_value(None, key.last()))
    }
}

/// Set one column: null takes its value away, and a value that is not set leaves it.
pub open spec fn set_cell(cells: Cells, column: Seq<char>, v: CqlView) -> Cells {
    match v {
        CqlView::NotSet => cells,
        CqlView::Null => cells.remove(column),
        _ => cells.insert(column, v),
    }
}

/// The cells of a row after columns were set.
pub open spec fn after_set(row: Option<Cells>, slots: Seq<Slot>) -> Cells
    decreases slots.len(),
{
    if slots.len() == 0 {
        match row {
            Some(cells) => cells,
            None => Map::empty(),
        }
    } else {
        set_cell(
            after_set(row, slots.drop_last()),
            slots.last().column,
            term_value(row, slots.last()),
        )
    }
}

/// The row under an address.
pub open spec fn row_at(t: Table, a: Cells) -> Option<Cells> {
    if t.dom().contains(a) {
        Some(t[a])
    } else {
        None
    }
}

/// A guard lets a command through.
pub open spec fn lets_through(g: Guard, row: Option<Cells>) -> bool {
    match g {
        Guard::Always => true,
        Guard::NotExists => row is None,
        Guard::If(slots) => forall|i: int|
            0 <= i < slots.len() ==> held(row, (#[trigger] slots[i]).column) == term_value(
                row,
                slots[i],
            ),
        Guard::Below(column, n) => match held(row, column) {
            CqlView::BigInt(m) => m < n,
            _ => false,
        },
    }
}

/// The address of a command.
pub open spec fn address_of(c: Command) -> Cells {
    match c {
        Command::Insert { key, .. } => address(key),
        Command::Update { key, .. } => address(key),
        Command::Delete { key, .. } => address(key),
    }
}

/// The guard of a command.
pub open spec fn guard_of(c: Command) -> Guard {
    match c {
        Command::Insert { guard, .. } => guard,
        Command::Update { guard, .. } => guard,
        Command::Delete { guard, .. } => guard,
    }
}

/// A command takes effect on a table.
pub open spec fn applies(c: Command, t: Table) -> bool {
    lets_through(guard_of(c), row_at(t, address_of(c)))
}

/// The table after a command. Insertions and updates write the columns that they name
/// and leave the others; they make the row where there is none.
pub open spec fn run(c: Command, t: Table) -> Table {
    let a = address_of(c);
    if !applies(c, t) {
        t
    } else {
        match c {
            Command::Insert { cells, .. } => t.insert(a, after_set(row_at(t, a), cells)),
            Command::Update { cells, .. } => t.insert(a, after_set(row_at(t, a), cells)),
            Command::Delete { .. } => t.remove(a),
        }
    }
}

/// The table after a first command and, where that did not take effect, a second.
pub open spec fn run_either(first: Command, second: Command, t: Table) -> Table {
    if applies(first, t) {
        run(first, t)
    } else {
        run(second, t)
    }
}

/// A slot that binds a value.
pub open spec fn bind(column: Seq<char>, v: CqlView) -> Slot {
    Slot { column, term: Term::Bound(v) }
}

/// How a column is compared with a value.
pub enum Sign {
    Equal,
    Unequal,
    Below,
    AtMost,
    Above,
    AtLeast,
}

/// How a comparison is written.
pub open spec fn sign_text(s: Sign) -> Seq<char> {
    match s {
        Sign::Equal => "="@,
        Sign::Unequal => "!="@,
        Sign::Below => "<"@,
        Sign::AtMost => "<="@,
        Sign::Above => ">"@,
        Sign::AtLeast => ">="@,
    }
}

/// A test on a column of the rows that are read.
pub struct Test {
    pub column: Seq<char>,
    pub sign: Sign,
    pub value: CqlView,
}

/// How tests are written.
pub open spec fn test_texts(tests: Seq<Test>) -> Seq<Seq<char>> {
    tests.map_values(|t: Test| t.column + " "@ + sign_text(t.sign) + " ?"@)
}

/// The values of tests.
pub open spec fn test_values(tests: Seq<Test>) -> Seq<CqlView> {
    tests.map_values(|t: Test| t.value)
}

/// What a read selects: rows that pass all tests, in an order of columns, each
/// ascending or descending, and at most a number of them.
pub struct Read {
    pub columns: Seq<char>,
    pub target: Seq<char>,
    pub tests: Seq<Test>,
    pub order: Seq<(Seq<char>, bool)>,
    pub limit: Option<Seq<char>>,
}

/// How an order is written.
pub open spec fn order_texts(order: Seq<(Seq<char>, bool)>) -> Seq<Seq<char>> {
    order.map_values(
        |o: (Seq<char>, bool)|
            o.0 + " "@ + if o.1 {
                "ASC"@
            } else {
                "DESC"@
            },
    )
}

/// The statement that a read is written as.
pub open spec fn read_stmt(r: Read) -> StatementView {
    stmt(
        "SELECT "@ + r.columns + " FROM "@ + r.target + " WHERE "@ + joined(
            test_texts(r.tests),
            " AND "@,
        ) + (if r.order.len() == 0 {
            Seq::empty()
        } else {
            " ORDER BY "@ + joined(order_texts(r.order), ", "@)
        }) + (match r.limit {
            Some(n) => " LIMIT "@ + n,
            None => Seq::empty(),
        }),
        test_values(r.tests),
    )
}

/// A comparison of whole numbers.
pub open spec fn number_passes(s: Sign, a: int, b: int) -> bool {
    match s {
        Sign::Equal => a == b,
        Sign::Unequal => a != b,
        Sign::Below => a < b,
        Sign::AtMost => a <= b,
        Sign::Above => a > b,
        Sign::AtLeast => a >= b,
    }
}

/// A comparison under an order. Values of which neither is less count as equal.
pub open spec fn passes(s: Sign, less: spec_fn(CqlView, CqlView) -> bool, a: CqlView, b: CqlView) -> bool {
    match s {
        Sign::Equal => !less(a, b) && !less(b, a),
        Sign::Unequal => less(a, b) || less(b, a),
        Sign::Below => less(a, b),
        Sign::AtMost => !less(b, a),
        Sign::Above => less(b, a),
        Sign::AtLeast => !less(a, b),
    }
}

/// The values stand in a strict order.
pub open spec fn in_order(less: spec_fn(CqlView, CqlView) -> bool, values: Seq<CqlView>) -> bool {
    &&& forall|a: CqlView| !(#[trigger] less(a, a))
    &&& forall|a: CqlView, b: CqlView, c: CqlView| #[trigger]
        less(a, b) && #[trigger] less(b, c) ==> less(a, c)
    &&& forall|i: int, j: int|
        0 <= i < j < values.len() ==> less(#[trigger] values[i], #[trigger] values[j])
}

/// The values that pass all tests on a column.
pub open spec fn passes_on(
    tests: Seq<Test>,
    column: Seq<char>,
    less: spec_fn(CqlView, CqlView) -> bool,
    v: CqlView,
) -> bool {
    forall|i: int|
        0 <= i < tests.len() && tests[i].column == column ==> passes(
            (#[trigger] tests[i]).sign,
            less,
            v,
            tests[i].value,
        )
}

/// The values that a choice takes, in order.
pub open spec fn picked(values: Seq<CqlView>, choice: spec_fn(CqlView) -> bool) -> Seq<CqlView>
    decreases values.len(),
{
    if values.len() == 0 {
        Seq::empty()
    } else if choice(values.last()) {
        picked(values.drop_last(), choice).push(values.last())
    } else {
        picked(values.drop_last(), choice)
    }
}

/// The values of a column that a read gives, from those of a partition in ascending
/// order: those that pass its tests, and from the last to the first where the order of
/// the read descends. The limit is left out.
pub open spec fn selected(
    r: Read,
    column: Seq<char>,
    less: spec_fn(CqlView, CqlView) -> bool,
    values: Seq<CqlView>,
) -> Seq<CqlView> {
    let found = picked(values, |v: CqlView| passes_on(r.tests, column, less, v));
    if r.order.len() > 0 && r.order[0].0 == column && !r.order[0].1 {
        found.reverse()
    } else {
        found
    }
}

/// A row passes a test. Values other than whole numbers are only tested for equality.
pub open spec fn cell_passes(t: Test, row: Cells) -> bool {
    match (held(Some(row), t.column), t.value) {
        (CqlView::BigInt(a), CqlView::BigInt(b)) => number_passes(t.sign, a as int, b as int),
        (a, b) => t.sign is Equal && a == b,
    }
}

/// A row passes all tests.
pub open spec fn row_passes(tests: Seq<Test>, row: Cells) -> bool {
    forall|i: int| 0 <= i < tests.len() ==> cell_passes(#[trigger] tests[i], row)
}

/// A test.
pub open spec fn compare(column: Seq<char>, sign: Sign, value: CqlView) -> Test {
    Test { column, sign, value }
}

/// One part.
pub proof fn lemma_joined_1(a: Seq<char>, sep: Seq<char>)
    ensures
        joined(seq![a], sep) == a,
{
}

/// Two parts.
pub proof fn lemma_joined_2(a: Seq<char>, b: Seq<char>, sep: Seq<char>)
    ensures
        joined(seq![a, b], sep) == a + sep + b,
{
    lemma_joined_1(a, sep);
    assert(seq![a, b].drop_last() =~= seq![a]);
}

/// Joining one more part.
pub proof fn lemma_joined_push(parts: Seq<Seq<char>>, last: Seq<char>, sep: Seq<char>)
    requires
        parts.len() > 0,
    ensures
        joined(parts.push(last), sep) == joined(parts, sep) + sep + last,
{
    assert(parts.push(last).drop_last() =~= parts);
}

} // verus!
