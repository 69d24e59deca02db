//! Deleting tables.
use vstd::prelude::*;
use crate::engine::CassandraEngine;
use crate::cassandra_util::{get_optional, parse_column, read_error, Cell, Row};
use crate::cql::{
    push_statement, statements_view, stmt, stmt1, stmt2, text_value, CqlView, Statement,
    StatementView,
};
use crate::data::ddl::{
    data_table, drop_data_table, drop_index_stmt,
};
use crate::error::{is_internal, StorageError};
use crate::text::{cat2, cat3};

verus! {

/// The statement that reads the catalog row of a table.
pub fn select_table_row(catalog: &str, account_id: &str, table_name: &str) -> (r: Statement)
    ensures
        r@ == stmt(
            "SELECT * FROM "@ + catalog@ + ".tables WHERE account_id = ? AND table_name = ?"@,
            seq![CqlView::Text(account_id@), CqlView::Text(table_name@)],
        ),
{
    stmt2(
        cat3("SELECT * FROM ", catalog, ".tables WHERE account_id = ? AND table_name = ?"),
        text_value(account_id),
        text_value(table_name),
    )
}

/// The statement that reads the catalog rows of the indexes of a table.
pub fn select_index_rows(catalog: &str, table_id: &str) -> (r: Statement)
    ensures
        r@ == stmt(
            "SELECT * FROM "@ + catalog@ + ".indexes WHERE table_id = ?"@,
            seq![CqlView::Text(table_id@)],
        ),
{
    stmt1(
        cat3("SELECT * FROM ", catalog, ".indexes WHERE table_id = ?"),
        text_value(table_id),
    )
}

/// The table is protected from deletion.
pub open spec fn is_protected(row: Row) -> bool {
    row.cell("deletion_protection_enabled"@) == Cell::Boolean(true)
}

/// The table may be deleted: gives its identifier. A missing table is
/// `TableNotFound`, a protected one `DeletionProtected` with its ARN.
pub fn check_deletion(rows: &Vec<Row>, table_name: &str) -> (r: Result<String, StorageError>)
    ensures
        match r {
            Ok(id) => rows@.len() > 0 && !is_protected(rows@[0]) && rows@[0].cell("table_id"@)
                == Cell::Text(id),
            Err(e) => if rows@.len() == 0 {
                e matches StorageError::TableNotFound(n) && n@ == table_name@
            } else if is_protected(rows@[0]) {
                match rows@[0].cell("table_arn"@) {
                    Cell::Text(arn) => e == StorageError::DeletionProtected(arn),
                    _ => is_internal(
                        e,
                        "Parse table_arn: "@ + read_error::<String>(rows@[0], "table_arn"@),
                    ),
                }
            } else {
                !(rows@[0].cell("table_id"@) is Text) && is_internal(
                    e,
                    "Parse table_id: "@ + read_error::<String>(rows@[0], "table_id"@),
                )
            },
        },
{
    proof {
        lemma_parse_texts();
    }
    if rows.len() == 0 {
        return Err(StorageError::TableNotFound(table_name.to_owned()));
    }
    let protected: bool = match get_optional::<bool>(&rows[0], "deletion_protection_enabled") {
        Some(b) => b,
        None => false,
    };
    if protected {
        let arn: String = parse_column(&rows[0], "table_arn", "Parse table_arn")?;
        return Err(StorageError::DeletionProtected(arn));
    }
    parse_column(&rows[0], "table_id", "Parse table_id")
}

proof fn lemma_parse_texts()
    ensures
        "Parse table_arn"@ + ": "@ == "Parse table_arn: "@,
        "Parse table_id"@ + ": "@ == "Parse table_id: "@,
        "Parse index_id"@ + ": "@ == "Parse index_id: "@,
{
    reveal_strlit("Parse table_arn");
    reveal_strlit("Parse table_arn: ");
    reveal_strlit("Parse table_id");
    reveal_strlit("Parse table_id: ");
    reveal_strlit("Parse index_id");
    reveal_strlit("Parse index_id: ");
    reveal_strlit(": ");
    assert("Parse table_arn"@ + ": "@ =~= "Parse table_arn: "@);
    assert("Parse table_id"@ + ": "@ =~= "Parse table_id: "@);
    assert("Parse index_id"@ + ": "@ =~= "Parse index_id: "@);
}

/// The statements that delete a table, in their order, and the error after them
/// where an index row could not be read.
#[derive(Debug, PartialEq, Eq)]
pub struct DeletePlan {
    pub statements: Vec<Statement>,
    pub failure: Option<StorageError>,
}

/// The identifiers of the indexes that can be read, up to the first that cannot.
pub open spec fn index_ids(rows: Seq<Row>) -> Seq<Seq<char>>
    decreases rows.len(),
{
    if rows.len() == 0 {
        Seq::empty()
    } else {
        match rows[0].cell("index_id"@) {
            Cell::Text(id) => seq![id@] + index_ids(rows.drop_first()),
            _ => Seq::empty(),
        }
    }
}

/// The statements that drop the data tables of a table and of its indexes.
pub open spec fn drop_stmts(ks: Seq<char>, table_id: Seq<char>, ids: Seq<Seq<char>>) -> Seq<
    StatementView,
> {
    seq![stmt("DROP TABLE IF EXISTS "@ + ks + "."@ + data_table(table_id), seq![])]
        + ids.map_values(|id: Seq<char>| drop_index_stmt(ks, id))
}

/// The statements that remove a table from the catalog: its indexes first, its
/// continuous-backup setting, so that a later table of the same name does not
/// inherit it, and its own row.
pub open spec fn forget_stmts(
    catalog: Seq<char>,
    table_id: Seq<char>,
    account_id: Seq<char>,
    table_name: Seq<char>,
) -> Seq<StatementView> {
    seq![
        stmt(
            "DELETE FROM "@ + catalog + ".indexes WHERE table_id = ?"@,
            seq![CqlView::Text(table_id)],
        ),
        stmt(
            "DELETE FROM "@ + catalog
                + ".continuous_backups WHERE account_id = ? AND table_name = ?"@,
            seq![CqlView::Text(account_id), CqlView::Text(table_name)],
        ),
        stmt(
            "DELETE FROM "@ + catalog + ".tables WHERE account_id = ? AND table_name = ?"@,
            seq![CqlView::Text(account_id), CqlView::Text(table_name)],
        ),
    ]
}

/// Plan the deletion of a table: its data tables go first, from the keyspace of the
/// account, then its catalog entries. An index row that cannot be read stops the
/// deletion there, with its catalog entries in place.
pub fn delete_table_impl(
    catalog: &str,
    account_keyspace: &str,
    account_id: &str,
    table_name: &str,
    table_id: &str,
    index_rows: &Vec<Row>,
) -> (r: DeletePlan)
    ensures
        ({
            let ids = index_ids(index_rows@);
            match r.failure {
                None => {
                    &&& ids.len() == index_rows@.len()
                    &&& statements_view(r.statements@) == drop_stmts(
                        account_keyspace@,
                        table_id@,
                        ids,
                    ) + forget_stmts(catalog@, table_id@, account_id@, table_name@)
                },
                Some(e) => {
                    &&& ids.len() < index_rows@.len()
                    &&& statements_view(r.statements@) == drop_stmts(
                        account_keyspace@,
                        table_id@,
                        ids,
                    )
                    &&& is_internal(
                        e,
                        "Parse index_id: "@ + read_error::<String>(
                            index_rows@[ids.len() as int],
                            "index_id"@,
                        ),
                    )
                },
            }
        }),
{
    proof {
        lemma_parse_texts();
    }
    let ghost f = |id: Seq<char>| drop_index_stmt(account_keyspace@, id);
    let ghost all_ids = index_ids(index_rows@);
    let ghost mut done: Seq<Seq<char>> = Seq::empty();
    let mut statements: Vec<Statement> = Vec::new();
    push_statement(&mut statements, drop_data_table(account_keyspace, table_id));
    let ghost head = statements_view(statements@);
    proof {
        assert(index_rows@.skip(0) =~= index_rows@);
        assert(head =~= head + done.map_values(f));
        assert(done + all_ids =~= all_ids);
    }
    let mut i: usize = 0;
    while i < index_rows.len()
        invariant
            i <= index_rows@.len(),
            done.len() == i,
            f == (|id: Seq<char>| drop_index_stmt(account_keyspace@, id)),
            all_ids == done + index_ids(index_rows@.skip(i as int)),
            all_ids == index_ids(index_rows@),
            statements_view(statements@) == head + done.map_values(f),
            head == seq![
                stmt(
                    "DROP TABLE IF EXISTS "@ + account_keyspace@ + "."@ + data_table(table_id@),
                    seq![],
                ),
            ],
            "Parse index_id"@ + ": "@ == "Parse index_id: "@,
        decreases index_rows@.len() - i,
    {
        let ghost rest = index_rows@.skip(i as int);
        let id: Result<String, StorageError> = parse_column(
            &index_rows[i],
            "index_id",
            "Parse index_id",
        );
        match id {
            Err(e) => {
                proof {
                    assert(index_ids(rest) =~= Seq::empty());
                    assert(all_ids =~= done);
                    assert(statements_view(statements@) =~= drop_stmts(
                        account_keyspace@,
                        table_id@,
                        all_ids,
                    ));
                }
                return DeletePlan { statements, failure: Some(e) };
            },
            Ok(id) => {
                push_statement(
                    &mut statements,
                    CassandraEngine::drop_index_data_table(account_keyspace, id.as_str()),
                );
                proof {
                    assert(rest.drop_first() =~= index_rows@.skip(i + 1));
                    assert(index_ids(rest) == seq![id@] + index_ids(index_rows@.skip(i + 1)));
                    let next = done.push(id@);
                    assert(all_ids =~= next + index_ids(index_rows@.skip(i + 1)));
                    assert(statements_view(statements@) =~= head + next.map_values(f));
                    done = next;
                }
            },
        }
        i = i + 1;
    }
    proof {
        assert(index_ids(index_rows@.skip(i as int)) =~= Seq::empty());
        assert(all_ids =~= done);
    }
    push_statement(
        &mut statements,
        stmt1(
            cat3("DELETE FROM ", catalog, ".indexes WHERE table_id = ?"),
            text_value(table_id),
        ),
    );
    push_statement(
        &mut statements,
        stmt2(
            cat3(
                "DELETE FROM ",
                catalog,
                ".continuous_backups WHERE account_id = ? AND table_name = ?",
            ),
            text_value(account_id),
            text_value(table_name),
        ),
    );
    push_statement(
        &mut statements,
        stmt2(
            cat3("DELETE FROM ", catalog, ".tables WHERE account_id = ? AND table_name = ?"),
            text_value(account_id),
            text_value(table_name),
        ),
    );
    proof {
        assert(statements_view(statements@) =~= drop_stmts(account_keyspace@, table_id@, all_ids)
            + forget_stmts(catalog@, table_id@, account_id@, table_name@));
    }
    DeletePlan { statements, failure: None }
}

/// What a statement of a deletion removes.
#[derive(Clone, Copy, Debug, PartialEq, Eq, Structural)]
pub enum DeletionKind {
    DataTable,
    IndexTable,
    Indexes,
    ContinuousBackups,
    Table,
}

/// What the statement at a position of a plan removes.
pub open spec fn kind_at(plan: DeletePlan, i: int) -> DeletionKind {
    let left = plan.statements@.len() - i;
    if i == 0 {
        DeletionKind::DataTable
    } else if plan.failure is Some || left > 3 {
        DeletionKind::IndexTable
    } else if left == 3 {
        DeletionKind::Indexes
    } else if left == 2 {
        DeletionKind::ContinuousBackups
    } else {
        DeletionKind::Table
    }
}

/// What the statement at a position of a plan removes.
pub fn deletion_kind(plan: &DeletePlan, i: usize) -> (r: DeletionKind)
    requires
        i < plan.statements@.len(),
    ensures
        r == kind_at(*plan, i as int),
{
    let left: usize = plan.statements.len() - i;
    if i == 0 {
        DeletionKind::DataTable
    } else if plan.failure.is_some() || left > 3 {
        DeletionKind::IndexTable
    } else if left == 3 {
        DeletionKind::Indexes
    } else if left == 2 {
        DeletionKind::ContinuousBackups
    } else {
        DeletionKind::Table
    }
}

/// What a failed statement of a deletion was about.
pub open spec fn deletion_context(kind: DeletionKind) -> Seq<char> {
    match kind {
        DeletionKind::DataTable => "Failed to drop data table: "@,
        DeletionKind::IndexTable => "Drop index table: "@,
        DeletionKind::Indexes => "Delete indexes: "@,
        DeletionKind::ContinuousBackups => "Delete continuous backup state: "@,
        DeletionKind::Table => "Delete table: "@,
    }
}

/// The error of a statement of a deletion that failed.
pub fn deletion_error(kind: DeletionKind, reason: &str) -> (r: StorageError)
    ensures
        is_internal(r, deletion_context(kind) + reason@),
{
    let context = match kind {
        DeletionKind::DataTable => "Failed to drop data table: ",
        DeletionKind::IndexTable => "Drop index table: ",
        DeletionKind::Indexes => "Delete indexes: ",
        DeletionKind::ContinuousBackups => "Delete continuous backup state: ",
        DeletionKind::Table => "Delete table: ",
    };
    StorageError::Internal(cat2(context, reason))
}

/// The kinds of a plan fit its statements: the data table first, then the table of
/// each index, then, unless an index row could not be read, the three catalog entries.
pub proof fn law_deletion_kinds(
    plan: DeletePlan,
    catalog: Seq<char>,
    ks: Seq<char>,
    account_id: Seq<char>,
    table_name: Seq<char>,
    table_id: Seq<char>,
    ids: Seq<Seq<char>>,
    i: int,
)
    requires
        statements_view(plan.statements@) == drop_stmts(ks, table_id, ids) + (
        if plan.failure is None {
            forget_stmts(catalog, table_id, account_id, table_name)
        } else {
            Seq::empty()
        }),
        0 <= i < plan.statements@.len(),
    ensures
        ({
            let forget = forget_stmts(catalog, table_id, account_id, table_name);
            plan.statements@[i]@ == match kind_at(plan, i) {
                DeletionKind::DataTable => drop_stmts(ks, table_id, ids)[0],
                DeletionKind::IndexTable => drop_index_stmt(ks, ids[i - 1]),
                DeletionKind::Indexes => forget[0],
                DeletionKind::ContinuousBackups => forget[1],
                DeletionKind::Table => forget[2],
            }
        }),
{
    let views = statements_view(plan.statements@);
    let drops = drop_stmts(ks, table_id, ids);
    assert(views.len() == plan.statements@.len() && drops.len() == ids.len() + 1);
    assert(views[i] == plan.statements@[i]@);
    if i > 0 && i <= ids.len() {
        assert(drops[i] == drop_index_stmt(ks, ids[i - 1]));
    }
}

} // verus!
