//! A database in memory: tables that are made, filled and queried by
//! statements.

use vstd::prelude::*;
use crate::databaseinfo::TableInfo;
use crate::floatops::{FloatModel, FloatOps};
use crate::identifier::{normalized, Identifier};
use crate::queryplan::columnnames::names_view;
use crate::queryplan::compiler::{compile_expression, count_columns, query_plan_text};
use crate::queryplan::execute::semantics::{resolve, run, ExecuteError};
use crate::queryplan::execute::ExecuteQueryPlan;
use crate::queryplan::planning::{column_count, expr_plan, first_ids, select_plan};

use crate::queryplan::{error_text, QueryPlan};
use crate::sqlsyntax::ast;
use crate::text::{chars_of, parse_unsigned, unsigned_of};
use crate::types::variant::{Value, Variant};
use crate::types::{type_of_name, DbType};

pub mod laws;
pub mod table;

pub use self::table::{Column, Table, UpdateError};
use self::table::{
    cells_match, cells_view, first_invalid, first_named_table, row_key, rows_view, CellData,
    ColumnData,
};

verus! {

/// A database: its tables in the order in which they were made.
pub struct TempDb {
    pub tables: Vec<Table>,
}

/// What a statement gave.
pub enum ExecuteStatementResponse {
    Created,
    Inserted(u64),
    Select { column_names: Vec<String>, rows: Vec<Vec<Variant>> },
    Explain(String),
}

/// What a statement gave, or why it failed.
pub type ExecuteStatementResult = Result<ExecuteStatementResponse, String>;

/// The message of an error of execution.
pub open spec fn execute_error_text(e: ExecuteError) -> Seq<char> {
    match e {
        ExecuteError::ExecutionTypeMismatch => "execution type mismatch"@,
        ExecuteError::StorageError => "the rows of a table could not be read"@,
    }
}

fn execute_error_message(e: ExecuteError) -> (r: String)
    ensures
        r@ == execute_error_text(e),
{
    match e {
        ExecuteError::ExecutionTypeMismatch => String::from_str("execution type mismatch"),
        ExecuteError::StorageError => String::from_str("the rows of a table could not be read"),
    }
}

fn message(head: &str, tail: &str) -> (r: String)
    ensures
        r@ == head@ + tail@,
{
    let mut s = String::from_str(head);
    s.append(tail);
    s
}

/// The texts that strings hold.
pub open spec fn texts_view(names: Seq<String>) -> Seq<Seq<char>> {
    Seq::new(names.len(), |i: int| names[i]@)
}

/// The rows that a `SELECT` gives, with the names of their columns; or why
/// it gives none.
pub open spec fn select_result(
    floats: FloatModel,
    db: &TempDb,
    stmt: &ast::SelectStatement,
) -> Result<
    (Seq<Seq<char>>, Seq<Seq<Value>>),
    Seq<char>,
> {
    match select_plan(floats, db, 0, stmt, Seq::empty(), first_ids(), None) {
        Ok((plan, names, _, _)) => match run(floats, plan, Seq::empty()) {
            Ok(rows) => Ok((names, rows)),
            Err(e) => Err(execute_error_text(e)),
        },
        Err(x) => Err(error_text(x)),
    }
}

/// The value of an expression that stands by itself, or why it has none.
pub open spec fn expression_value(
    floats: FloatModel,
    db: &TempDb,
    expr: &ast::Expression,
) -> Result<Value, Seq<char>> {
    match expr_plan(floats, db, 0, expr, Seq::empty(), first_ids(), None) {
        Ok((plan, _, _)) => match resolve(floats, plan, Seq::empty()) {
            Ok(v) => Ok(v),
            Err(e) => Err(execute_error_text(e)),
        },
        Err(x) => Err(error_text(x)),
    }
}

/// The data that a value makes in a column: NULL where the column allows
/// it, else the stored form of the value under the type of the column.
pub open spec fn value_cell(
    floats: FloatModel,
    value: Value,
    dbtype: DbType,
    nullable: bool,
) -> Result<
    CellData,
    Seq<char>,
> {
    if value.is_null() {
        if nullable {
            Ok((Seq::empty(), Some(true)))
        } else {
            Err("cannot insert NULL into column that doesn't allow NULL"@)
        }
    } else {
        match value.to_bytes(floats, dbtype) {
            Some(bytes) => Ok(
                (
                    bytes,
                    if nullable {
                        Some(false)
                    } else {
                        None
                    },
                ),
            ),
            None => Err("value cannot be stored in the column"@),
        }
    }
}

/// The data of a column that an `INSERT` names no value for: NULL where
/// the column allows it, else the default of its type.
pub open spec fn default_cell(dbtype: DbType, nullable: bool) -> Result<CellData, Seq<char>> {
    if nullable {
        Ok((Seq::empty(), Some(true)))
    } else if dbtype.wf() && (dbtype.fixed_length() matches Some(n) ==> n <= usize::MAX) {
        Ok((dbtype.default_bytes(), None))
    } else {
        Err("column type has no default"@)
    }
}

/// The place of the last value of a row that goes to the column.
pub open spec fn assigned(places: Seq<u32>, column: int, upto: int) -> Option<int>
    decreases upto,
{
    if upto <= 0 {
        None
    } else if places[upto - 1] == column {
        Some(upto - 1)
    } else {
        assigned(places, column, upto - 1)
    }
}

/// The data of column `at` for one row of values: the data of the last
/// value that goes to the column, or the default of the column.
pub open spec fn cell_outcome(floats: FloatModel,
    db: &TempDb,
    column: &Column,
    places: Seq<u32>,
    row: Seq<ast::Expression>,
    at: int,
) -> Result<CellData, Seq<char>> {
    match assigned(places, at, places.len() as int) {
        Some(i) => match expression_value(floats, db, &row[i]) {
            Ok(v) => value_cell(floats, v, column.dbtype, column.nullable),
            Err(e) => Err(e),
        },
        None => default_cell(column.dbtype, column.nullable),
    }
}

/// The data of the columns from `from` on for one row of values, behind
/// `done`: `places` says to which column each value goes.
pub open spec fn row_cells(floats: FloatModel,
    db: &TempDb,
    columns: Seq<Column>,
    places: Seq<u32>,
    row: Seq<ast::Expression>,
    from: int,
    done: Seq<CellData>,
) -> Result<Seq<CellData>, Seq<char>>
    decreases columns.len() - from,
{
    if from < 0 || from >= columns.len() {
        Ok(done)
    } else {
        match cell_outcome(floats, db, &columns[from], places, row, from) {
            Ok(c) => row_cells(floats, db, columns, places, row, from + 1, done.push(c)),
            Err(e) => Err(e),
        }
    }
}

/// The columns that the names of an `INSERT` stand for, from `from` on,
/// behind `done`.
pub open spec fn named_places(table: &Table, names: Seq<String>, from: int, done: Seq<u32>)
    -> Result<Seq<u32>, Seq<char>>
    decreases names.len() - from,
{
    if from < 0 || from >= names.len() {
        Ok(done)
    } else {
        match normalized(names[from]@) {
            Some(name) => match table.column_index(name) {
                Some(i) => named_places(table, names, from + 1, done.push(table.columns@[i].offset)),
                None => Err("column "@ + names[from]@ + " not in table"@),
            },
            None => Err("Bad column name: "@ + names[from]@),
        }
    }
}

/// The places of the first `n` columns, in order.
pub open spec fn all_places(n: nat) -> Seq<u32> {
    Seq::new(n, |i: int| i as u32)
}

/// The key of the row that a list of values makes in a table, or why the
/// row cannot be stored.
pub open spec fn key_of_values(floats: FloatModel,
    db: &TempDb,
    table: &Table,
    places: Seq<u32>,
    row: Seq<ast::Expression>,
) -> Result<Seq<u8>, Seq<char>> {
    if places.len() != row.len() {
        Err("INSERT value contains wrong amount of columns"@)
    } else {
        match row_cells(floats, db, table.columns@, places, row, 0, Seq::empty()) {
            Ok(cells) => if table.next_rowid == u64::MAX {
                Err("table is full"@)
            } else {
                match first_invalid(table.columns@, cells, 0) {
                    Some(i) => Err("Problem validating column: "@ + table.columns@[i].name@),
                    None => Ok(row_key(table.columns@, table.next_rowid, cells)),
                }
            },
            Err(e) => Err(e),
        }
    }
}

/// The place of the table that a text names.
pub open spec fn named_table(db: &TempDb, name: Seq<char>) -> Result<int, Seq<char>> {
    match normalized(name) {
        Some(n) => match db.table_index(n) {
            Some(i) => Ok(i),
            None => Err("Could not find table named "@ + n),
        },
        None => Err("Bad table name: "@ + name),
    }
}

/// The table that an `INSERT` fills and the columns that its values go
/// to, or why it cannot be run.
pub open spec fn insert_target(db: &TempDb, stmt: &ast::InsertStatement) -> Result<
    (int, Seq<u32>),
    Seq<char>,
> {
    match named_table(db, stmt.table.table_name@) {
        Ok(index) => {
            let places = match stmt.into_columns {
                Some(names) => named_places(&db.tables@[index], names@, 0, Seq::empty()),
                None => Ok(all_places(column_count(db.tables@[index].columns@.len()) as nat)),
            };
            match places {
                Ok(p) => match stmt.source {
                    ast::InsertSource::Values(_) => Ok((index, p)),
                    ast::InsertSource::Select(_) => Err("INSERT from SELECT is not implemented"@),
                },
                Err(e) => Err(e),
            }
        },
        Err(e) => Err(e),
    }
}

/// Whether two databases differ at most in the rows of one table.
pub open spec fn same_but(before: &TempDb, after: &TempDb, index: int) -> bool {
    &&& after.tables@.len() == before.tables@.len()
    &&& forall|j: int|
        0 <= j < before.tables@.len() && j != index ==> after.tables@[j] == before.tables@[j]
    &&& 0 <= index < before.tables@.len() ==> {
        &&& after.tables@[index].name == before.tables@[index].name
        &&& after.tables@[index].columns == before.tables@[index].columns
        &&& before.tables@[index].rowid_index@.len() <= after.tables@[index].rowid_index@.len()
        &&& after.tables@[index].rowid_index@.take(
            before.tables@[index].rowid_index@.len() as int,
        ) == before.tables@[index].rowid_index@
    }
}

/// Whether `after` is `before` with one more row in a table: the row that
/// the values make in `before`.
pub open spec fn row_inserted(floats: FloatModel,
    before: &TempDb,
    after: &TempDb,
    index: int,
    places: Seq<u32>,
    row: Seq<ast::Expression>,
) -> bool {
    &&& same_but(before, after, index)
    &&& 0 <= index < before.tables@.len()
    &&& after.tables@[index].rowid_index@.len() == before.tables@[index].rowid_index@.len() + 1
    &&& after.tables@[index].next_rowid == before.tables@[index].next_rowid + 1
    &&& key_of_values(
        floats,
        before,
        &before.tables@[index],
        places,
        row,
    ) == Ok::<Seq<u8>, Seq<char>>(
        after.tables@[index].rowid_index@.last()@,
    )
}

/// Whether the databases are the states of a database while rows are
/// inserted: each is the one before it with the next row.
pub open spec fn rows_inserted(floats: FloatModel,
    states: Seq<TempDb>,
    index: int,
    places: Seq<u32>,
    rows: Seq<Vec<ast::Expression>>,
) -> bool {
    &&& states.len() >= 1
    &&& states.len() <= rows.len() + 1
    &&& forall|k: int|
        0 <= k < states.len() - 1 ==> row_inserted(floats,
            #[trigger] &states[k],
            &states[k + 1],
            index,
            places,
            rows[k]@,
        )
}

/// What an `INSERT` does: it fails before it stores anything where its
/// table or its columns are not found; else it stores its rows one after
/// the other behind the rows of the table, each as the database is when
/// its turn comes, and stops at the first row that cannot be stored.
pub open spec fn insert_outcome(floats: FloatModel,
    before: &TempDb,
    stmt: &ast::InsertStatement,
    r: ExecuteStatementResult,
    after: &TempDb,
) -> bool {
    match insert_target(before, stmt) {
        Ok((index, places)) => stmt.source matches ast::InsertSource::Values(rows) && {
            &&& same_but(before, after, index)
            &&& exists|states: Seq<TempDb>|
                {
                    &&& #[trigger] rows_inserted(floats, states, index, places, rows@)
                    &&& states[0].tables@ == before.tables@
                    &&& states.last().tables@ == after.tables@
                    &&& match r {
                        Ok(ExecuteStatementResponse::Inserted(n)) => n == rows@.len()
                            && states.len() == rows@.len() + 1,
                        Ok(_) => false,
                        Err(e) => states.len() <= rows@.len() && key_of_values(floats,
                            &states.last(),
                            &states.last().tables@[index],
                            places,
                            rows@[states.len() - 1]@,
                        ) == Err::<Seq<u8>, Seq<char>>(e@),
                    }
                }
        },
        Err(e) => r matches Err(x) && x@ == e && after.tables@ == before.tables@,
    }
}

/// A column as mathematics sees it.
pub struct ColumnView {
    pub offset: u32,
    pub name: Seq<char>,
    pub dbtype: DbType,
    pub nullable: bool,
}

/// What a column stands for.
pub open spec fn column_view(c: Column) -> ColumnView {
    ColumnView { offset: c.offset, name: c.name@, dbtype: c.dbtype, nullable: c.nullable }
}

/// What columns stand for.
pub open spec fn columns_view(columns: Seq<Column>) -> Seq<ColumnView> {
    Seq::new(columns.len(), |i: int| column_view(columns[i]))
}

/// Whether one of the first `upto` constraints allows NULL.
pub open spec fn allows_null(constraints: Seq<ast::CreateTableColumnConstraint>, upto: int) -> bool
    decreases upto,
{
    if upto <= 0 {
        false
    } else {
        allows_null(constraints, upto - 1)
            || constraints[upto - 1].constraint is Nullable
    }
}

/// The size between the brackets of a column's type.
pub open spec fn array_size_of(column: &ast::CreateTableColumn) -> Result<
    Option<Option<u64>>,
    Seq<char>,
> {
    match column.type_array_size {
        Some(Some(s)) => match unsigned_of(s@) {
            Some(n) => Ok(Some(Some(n))),
            None => Err(s@ + " is not a valid number"@),
        },
        Some(None) => Ok(Some(None)),
        None => Ok(None),
    }
}

/// The column that a column of a `CREATE TABLE` makes at the given place.
pub open spec fn created_column(column: &ast::CreateTableColumn, offset: u32) -> Result<
    ColumnView,
    Seq<char>,
> {
    match normalized(column.column_name@) {
        Some(name) => match normalized(column.column_type@) {
            Some(type_ident) => match array_size_of(column) {
                Ok(size) => match type_of_name(type_ident, size) {
                    Some(dbtype) => Ok(
                        ColumnView {
                            offset,
                            name,
                            dbtype,
                            nullable: allows_null(
                                column.constraints@,
                                column.constraints@.len() as int,
                            ),
                        },
                    ),
                    None => Err(type_ident + " is not a valid column type"@),
                },
                Err(e) => Err(e),
            },
            None => Err("Bad type name: "@ + column.column_type@),
        },
        None => Err("Bad column name: "@ + column.column_name@),
    }
}

/// The columns that a `CREATE TABLE` makes from `from` on, behind `done`.
pub open spec fn created_columns(
    stmt: &ast::CreateTableStatement,
    from: int,
    done: Seq<ColumnView>,
) -> Result<Seq<ColumnView>, Seq<char>>
    decreases stmt.columns@.len() - from,
{
    if from < 0 || from >= stmt.columns@.len() {
        Ok(done)
    } else if from > u32::MAX {
        Err("too many columns"@)
    } else {
        match created_column(&stmt.columns@[from], from as u32) {
            Ok(c) => created_columns(stmt, from + 1, done.push(c)),
            Err(e) => Err(e),
        }
    }
}

/// The name and the columns of the table that a `CREATE TABLE` makes in
/// a database, or why it makes none.
pub open spec fn created_table(db: &TempDb, stmt: &ast::CreateTableStatement) -> Result<
    (Seq<char>, Seq<ColumnView>),
    Seq<char>,
> {
    if stmt.table.database_name.is_some() {
        Err("database names are not implemented"@)
    } else {
        match normalized(stmt.table.table_name@) {
            Some(name) => match created_columns(stmt, 0, Seq::empty()) {
                Ok(columns) => if db.table_index(name).is_some() {
                    Err("Table "@ + name + " already exists"@)
                } else {
                    Ok((name, columns))
                },
                Err(e) => Err(e),
            },
            None => Err("Bad table name: "@ + stmt.table.table_name@),
        }
    }
}

/// What a `CREATE TABLE` does: it puts an empty table of the given name
/// and columns behind the others, whose first row will have the number 1;
/// or it fails and leaves the database as it was.
pub open spec fn create_outcome(
    before: &TempDb,
    stmt: &ast::CreateTableStatement,
    r: ExecuteStatementResult,
    after: &TempDb,
) -> bool {
    match created_table(before, stmt) {
        Ok((name, columns)) => {
            &&& r matches Ok(ExecuteStatementResponse::Created)
            &&& after.tables@.len() == before.tables@.len() + 1
            &&& after.tables@.drop_last() == before.tables@
            &&& after.tables@.last().name@ == name
            &&& columns_view(after.tables@.last().columns@) == columns
            &&& after.tables@.last().next_rowid == 1
            &&& after.tables@.last().rowid_index@.len() == 0
        },
        Err(e) => r matches Err(x) && x@ == e && after.tables@ == before.tables@,
    }
}

/// What a `SELECT` does: it gives the rows of its plan, with the names of
/// their columns, or says why it cannot.
pub open spec fn select_outcome(floats: FloatModel,
    db: &TempDb,
    stmt: &ast::SelectStatement,
    r: ExecuteStatementResult,
) -> bool {
    match r {
        Ok(ExecuteStatementResponse::Select { column_names, rows }) => select_result(
            floats,
            db,
            stmt,
        )
            == Ok::<(Seq<Seq<char>>, Seq<Seq<Value>>), Seq<char>>(
            (texts_view(column_names@), rows_view(rows@)),
        ),
        Ok(_) => false,
        Err(e) => select_result(
            floats,
            db,
            stmt,
        ) == Err::<(Seq<Seq<char>>, Seq<Seq<Value>>), Seq<char>>(
            e@,
        ),
    }
}

/// What an `EXPLAIN` does: it gives the text of the plan of its
/// statement, or says why there is none.
pub open spec fn explain_outcome(floats: FloatModel,
    db: &TempDb,
    stmt: &ast::ExplainStatement,
    r: ExecuteStatementResult,
) -> bool {
    match stmt {
        ast::ExplainStatement::Select(s) => match select_plan(floats,
            db,
            0,
            s,
            Seq::empty(),
            first_ids(),
            None,
        ) {
            Ok((plan, names, _, _)) => r matches Ok(ExecuteStatementResponse::Explain(text))
                && text@ == query_plan_text(floats, plan, names),
            Err(x) => r matches Err(e) && e@ == error_text(x),
        },
    }
}

/// What a statement does.
pub open spec fn statement_outcome(floats: FloatModel,
    before: &TempDb,
    stmt: &ast::Statement,
    r: ExecuteStatementResult,
    after: &TempDb,
) -> bool {
    match stmt {
        ast::Statement::Select(s) => after.tables@ == before.tables@ && select_outcome(floats,
            before,
            s,
            r,
        ),
        ast::Statement::Explain(s) => after.tables@ == before.tables@ && explain_outcome(floats,
            before,
            s,
            r,
        ),
        ast::Statement::Create(ast::CreateStatement::Table(s)) => create_outcome(
            before,
            s,
            r,
            after,
        ),
        ast::Statement::Insert(s) => insert_outcome(floats, before, s, r, after),
    }
}

impl TempDb {
    /// A database without tables.
    pub fn new() -> (r: TempDb)
        ensures
            r.tables@.len() == 0,
    {
        TempDb { tables: Vec::new() }
    }

    /// Whether the keys of every table are in the order of the numbers of
    /// their rows.
    pub open spec fn keys_in_order(&self) -> bool {
        forall|i: int| 0 <= i < self.tables@.len() ==> (#[trigger] self.tables@[i]).keys_in_order()
    }

    /// The place of the first table with the given name.
    pub open spec fn table_index(&self, name: Seq<char>) -> Option<int> {
        first_named_table(self.tables@, name, 0)
    }

    /// The first table with the given name.
    pub fn find_table_by_name(&self, name: &Identifier) -> (r: Option<&Table>)
        ensures
            match r {
                Some(t) => self.table_index(name@) matches Some(i) && *t == self.tables@[i],
                None => self.table_index(name@).is_none(),
            },
    {
        match self.find_table_index(name) {
            Some(i) => Some(&self.tables[i]),
            None => None,
        }
    }

    /// The place of the first table with the given name.
    pub fn find_table_index(&self, name: &Identifier) -> (r: Option<usize>)
        ensures
            match r {
                Some(i) => self.table_index(name@) == Some(i as int) && i < self.tables@.len(),
                None => self.table_index(name@).is_none(),
            },
    {
        let mut i: usize = 0;
        while i < self.tables.len()
            invariant
                i <= self.tables@.len(),
                self.table_index(name@) == first_named_table(self.tables@, name@, i as int),
            decreases self.tables@.len() - i,
        {
            if self.tables[i].name == *name {
                return Some(i);
            }
            i = i + 1;
        }
        None
    }

    /// Runs a statement. A `SELECT` and an `EXPLAIN` leave the database as
    /// it is; a `CREATE TABLE` puts one table behind the others; an
    /// `INSERT` puts the keys of its rows behind the keys of one table.
    pub fn execute_statement<F: FloatOps>(&mut self, stmt: ast::Statement, host: &F) -> (r:
        ExecuteStatementResult)
        ensures
            statement_outcome(host.model(), old(self), &stmt, r, final(self)),
            old(self).keys_in_order() ==> final(self).keys_in_order(),
    {
        match stmt {
            ast::Statement::Create(create_stmt) => match create_stmt {
                ast::CreateStatement::Table(s) => self.create_table(s),
            },
            ast::Statement::Insert(insert_stmt) => self.insert_into(insert_stmt, host),
            ast::Statement::Select(select_stmt) => self.select(select_stmt, host),
            ast::Statement::Explain(explain_stmt) => self.explain(explain_stmt, host),
        }
    }

    fn select<F: FloatOps>(&self, stmt: ast::SelectStatement, host: &F) -> (r:
        ExecuteStatementResult)
        ensures
            select_outcome(host.model(), self, &stmt, r),
    {
        let plan = match QueryPlan::compile_select(self, stmt, host) {
            Ok(plan) => plan,
            Err(e) => {
                return Err(e.to_string());
            },
        };
        let execute = ExecuteQueryPlan::new(host);
        let rows = match execute.execute_query_plan(&plan.expr) {
            Ok(rows) => rows,
            Err(e) => {
                return Err(execute_error_message(e));
            },
        };
        let mut column_names: Vec<String> = Vec::new();
        let mut i: usize = 0;
        while i < plan.out_column_names.len()
            invariant
                i <= plan.out_column_names@.len(),
                column_names@.len() == i,
                forall|j: int| 0 <= j < i ==> column_names@[j]@ == plan.out_column_names@[j]@,
            decreases plan.out_column_names@.len() - i,
        {
            column_names.push(plan.out_column_names[i].to_string());
            i = i + 1;
        }
        proof {
            assert(texts_view(column_names@) =~= names_view(plan.out_column_names@));
        }
        Ok(ExecuteStatementResponse::Select { column_names, rows })
    }

    fn explain<F: FloatOps>(&self, stmt: ast::ExplainStatement, host: &F) -> (r:
        ExecuteStatementResult)
        ensures
            explain_outcome(host.model(), self, &stmt, r),
    {
        match stmt {
            ast::ExplainStatement::Select(select) => {
                match QueryPlan::compile_select(self, select, host) {
                    Ok(plan) => Ok(ExecuteStatementResponse::Explain(plan.to_string(host))),
                    Err(e) => Err(e.to_string()),
                }
            },
        }
    }

    /// Puts a table behind the others, unless there is one of its name.
    pub fn add_table(&mut self, table: Table) -> (r: Result<(), String>)
        ensures
            match r {
                Ok(_) => {
                    &&& old(self).table_index(table.name@).is_none()
                    &&& final(self).tables@ == old(self).tables@.push(table)
                    &&& old(self).keys_in_order()
                        && table.keys_in_order() ==> final(self).keys_in_order()
                },
                Err(e) => {
                    &&& old(self).table_index(table.name@).is_some()
                    &&& final(self).tables@ == old(self).tables@
                    &&& e@ == "Table "@ + table.name@ + " already exists"@
                },
            },
    {
        match self.find_table_index(&table.name) {
            Some(_) => {
                let mut s = message("Table ", table.name.as_slice());
                s.append(" already exists");
                Err(s)
            },
            None => {
                self.tables.push(table);
                Ok(())
            },
        }
    }

    /// The place of the table that a text names.
    pub fn get_table_mut(&self, table_name: &str) -> (r: Result<usize, String>)
        ensures
            match r {
                Ok(i) => named_table(self, table_name@) == Ok::<int, Seq<char>>(i as int) && i
                    < self.tables@.len(),
                Err(e) => named_table(self, table_name@) == Err::<int, Seq<char>>(e@),
            },
    {
        let ident = match Identifier::new(table_name) {
            Some(i) => i,
            None => {
                return Err(message("Bad table name: ", table_name));
            },
        };
        match self.find_table_index(&ident) {
            Some(i) => Ok(i),
            None => Err(message("Could not find table named ", ident.as_slice())),
        }
    }

    /// The number that a text spells.
    pub fn parse_number_as_u64(&self, number: &str) -> (r: Result<u64, String>)
        ensures
            match r {
                Ok(n) => unsigned_of(number@) == Some(n),
                Err(e) => unsigned_of(number@).is_none() && e@ == number@
                    + " is not a valid number"@,
            },
    {
        let chars = chars_of(number);
        match parse_unsigned(chars.as_slice()) {
            Some(n) => Ok(n),
            None => Err(message(number, " is not a valid number")),
        }
    }

    fn create_column(&self, column: &ast::CreateTableColumn, offset: u32) -> (r: Result<
        Column,
        String,
    >)
        ensures
            match r {
                Ok(c) => created_column(column, offset) == Ok::<ColumnView, Seq<char>>(
                    column_view(c),
                ),
                Err(e) => created_column(column, offset) == Err::<ColumnView, Seq<char>>(e@),
            },
    {
        let name = match Identifier::new(column.column_name.as_str()) {
            Some(i) => i,
            None => {
                return Err(message("Bad column name: ", column.column_name.as_str()));
            },
        };
        let type_ident = match Identifier::new(column.column_type.as_str()) {
            Some(i) => i,
            None => {
                return Err(message("Bad type name: ", column.column_type.as_str()));
            },
        };
        let type_array_size: Option<Option<u64>> = match &column.type_array_size {
            Some(Some(s)) => match self.parse_number_as_u64(s.as_str()) {
                Ok(v) => Some(Some(v)),
                Err(e) => {
                    return Err(e);
                },
            },
            Some(None) => Some(None),
            None => None,
        };
        let dbtype = match DbType::from_identifier(&type_ident, type_array_size) {
            Some(t) => t,
            None => {
                return Err(message(type_ident.as_slice(), " is not a valid column type"));
            },
        };
        let mut nullable: bool = false;
        let mut i: usize = 0;
        while i < column.constraints.len()
            invariant
                i <= column.constraints@.len(),
                nullable == allows_null(column.constraints@, i as int),
            decreases column.constraints@.len() - i,
        {
            if let ast::CreateTableColumnConstraintType::Nullable = column.constraints[i].constraint {
                nullable = true;
            }
            i = i + 1;
        }
        Ok(Column { offset, name, dbtype, nullable })
    }

    #[verifier::loop_isolation(false)]
    fn create_table(&mut self, stmt: ast::CreateTableStatement) -> (r: ExecuteStatementResult)
        ensures
            create_outcome(old(self), &stmt, r, final(self)),
            old(self).keys_in_order() ==> final(self).keys_in_order(),
    {
        if stmt.table.database_name.is_some() {
            return Err(String::from_str("database names are not implemented"));
        }
        let table_name = match Identifier::new(stmt.table.table_name.as_str()) {
            Some(i) => i,
            None => {
                return Err(message("Bad table name: ", stmt.table.table_name.as_str()));
            },
        };
        let mut columns: Vec<Column> = Vec::new();
        let mut i: usize = 0;
        proof {
            assert(columns_view(columns@) =~= Seq::<ColumnView>::empty());
        }
        while i < stmt.columns.len()
            invariant
                i <= stmt.columns@.len(),
                created_columns(&stmt, 0, Seq::empty()) == created_columns(
                    &stmt,
                    i as int,
                    columns_view(columns@),
                ),
            decreases stmt.columns@.len() - i,
        {
            if i > u32::MAX as usize {
                return Err(String::from_str("too many columns"));
            }
            match self.create_column(&stmt.columns[i], i as u32) {
                Ok(c) => {
                    let ghost shown = columns_view(columns@);
                    let ghost added = column_view(c);
                    columns.push(c);
                    proof {
                        assert(columns_view(columns@) =~= shown.push(added));
                    }
                },
                Err(e) => {
                    return Err(e);
                },
            }
            i = i + 1;
        }
        let table = Table { name: table_name, columns, next_rowid: 1, rowid_index: Vec::new() };
        match self.add_table(table) {
            Ok(_) => {
                proof {
                    assert(self.tables@.drop_last() =~= old(self).tables@);
                }
                Ok(ExecuteStatementResponse::Created)
            },
            Err(e) => Err(e),
        }
    }

    /// The data of one column of a row to insert.
    fn insert_cell<F: FloatOps>(
        &self,
        row: &Vec<ast::Expression>,
        places: &Vec<u32>,
        column: &Column,
        at: usize,
        host: &F,
    ) -> (r: Result<ColumnData, String>)
        requires
            places@.len() == row@.len(),
        ensures
            match r {
                Ok(cell) => cell_outcome(
                    host.model(),
                    self,
                    column,
                    places@,
                    row@,
                    at as int,
                ) == Ok::<
                    CellData,
                    Seq<char>,
                >((cell.0@, cell.1)) && cell.1.is_some() == column.nullable && (cell.1 == Some(true)
                    ==> cell.0@.len() == 0),
                Err(e) => cell_outcome(
                    host.model(),
                    self,
                    column,
                    places@,
                    row@,
                    at as int,
                ) == Err::<
                    CellData,
                    Seq<char>,
                >(e@),
            },
    {
        let mut found: Option<usize> = None;
        let mut i: usize = places.len();
        while i > 0 && found.is_none()
            invariant
                i <= places@.len(),
                match found {
                    Some(k) => assigned(places@, at as int, places@.len() as int) == Some(
                        k as int,
                    ) && k < places@.len(),
                    None => assigned(places@, at as int, places@.len() as int) == assigned(
                        places@,
                        at as int,
                        i as int,
                    ),
                },
            decreases i,
        {
            i = i - 1;
            if places[i] as usize == at {
                found = Some(i);
            }
        }
        match found {
            Some(k) => {
                let sexpr = match compile_expression(self, &row[k], host) {
                    Ok(v) => v,
                    Err(e) => {
                        return Err(e.to_string());
                    },
                };
                let execute = ExecuteQueryPlan::new(host);
                let value = match execute.execute_expression(&sexpr) {
                    Ok(v) => v,
                    Err(e) => {
                        return Err(execute_error_message(e));
                    },
                };
                variant_to_data(value, column.dbtype, column.nullable, host)
            },
            None => {
                if column.nullable {
                    Ok((Vec::new(), Some(true)))
                } else if column.dbtype.is_storable() {
                    Ok((column.dbtype.get_default(), None))
                } else {
                    Err(String::from_str("column type has no default"))
                }
            },
        }
    }

    /// The data of the columns of a table for one row of values.
    #[verifier::loop_isolation(false)]
    fn row_data<F: FloatOps>(
        &self,
        index: usize,
        places: &Vec<u32>,
        row: &Vec<ast::Expression>,
        host: &F,
    ) -> (r: Result<Vec<ColumnData>, String>)
        requires
            index < self.tables@.len(),
            places@.len() == row@.len(),
        ensures
            match r {
                Ok(cells) => row_cells(host.model(),
                    self,
                    self.tables@[index as int].columns@,
                    places@,
                    row@,
                    0,
                    Seq::empty(),
                ) == Ok::<Seq<CellData>, Seq<char>>(cells_view(cells@)) && cells_match(
                    self.tables@[index as int].columns@,
                    cells_view(cells@),
                ),
                Err(e) => row_cells(host.model(),
                    self,
                    self.tables@[index as int].columns@,
                    places@,
                    row@,
                    0,
                    Seq::empty(),
                ) == Err::<Seq<CellData>, Seq<char>>(e@),
            },
    {
        let n: usize = self.tables[index].columns.len();
        let mut cells: Vec<ColumnData> = Vec::new();
        let mut c: usize = 0;
        proof {
            assert(cells_view(cells@) =~= Seq::<CellData>::empty());
        }
        while c < n
            invariant
                c <= n,
                n == self.tables@[index as int].columns@.len(),
                cells@.len() == c,
                row_cells(host.model(),
                    self,
                    self.tables@[index as int].columns@,
                    places@,
                    row@,
                    0,
                    Seq::empty(),
                ) == row_cells(host.model(),
                    self,
                    self.tables@[index as int].columns@,
                    places@,
                    row@,
                    c as int,
                    cells_view(cells@),
                ),
                forall|j: int|
                    0 <= j < c ==> {
                        &&& (#[trigger] cells@[j]).1.is_some()
                            == self.tables@[index as int].columns@[j].nullable
                        &&& cells@[j].1 == Some(true) ==> cells@[j].0@.len() == 0
                    },
            decreases n - c,
        {
            match self.insert_cell(row, places, &self.tables[index].columns[c], c, host) {
                Ok(cell) => {
                    let ghost shown = cells_view(cells@);
                    let ghost added: CellData = (cell.0@, cell.1);
                    cells.push(cell);
                    proof {
                        assert(cells_view(cells@) =~= shown.push(added));
                    }
                },
                Err(e) => {
                    return Err(e);
                },
            }
            c = c + 1;
        }
        proof {
            let shown = cells_view(cells@);
            assert forall|j: int| 0 <= j < shown.len() implies (#[trigger] shown[j]).1.is_some()
                == self.tables@[index as int].columns@[j].nullable && (shown[j].1 == Some(true)
                ==> shown[j].0.len() == 0) by {
                assert(shown[j] == (cells@[j].0@, cells@[j].1));
            }
        }
        Ok(cells)
    }

    /// Stores one row of values in a table: the values are computed, then
    /// stored under the types of their columns; a column that gets no
    /// value gets NULL or the default of its type. Where the row cannot be
    /// stored, the database is left as it was.
    pub fn insert_values<F: FloatOps>(
        &mut self,
        index: usize,
        places: &Vec<u32>,
        row: &Vec<ast::Expression>,
        host: &F,
    ) -> (r: Result<(), String>)
        requires
            index < old(self).tables@.len(),
        ensures
            same_but(old(self), final(self), index as int),
            old(self).keys_in_order() ==> final(self).keys_in_order(),
            match r {
                Ok(_) => {
                    &&& key_of_values(
                        host.model(),
                        old(self),
                        &old(self).tables@[index as int],
                        places@,
                        row@,
                    )
                        == Ok::<Seq<u8>, Seq<char>>(
                        final(self).tables@[index as int].rowid_index@.last()@,
                    )
                    &&& final(self).tables@[index as int].rowid_index@.len()
                        == old(self).tables@[index as int].rowid_index@.len() + 1
                    &&& final(self).tables@[index as int].next_rowid
                        == old(self).tables@[index as int].next_rowid + 1
                },
                Err(e) => {
                    &&& key_of_values(
                        host.model(),
                        old(self),
                        &old(self).tables@[index as int],
                        places@,
                        row@,
                    )
                        == Err::<Seq<u8>, Seq<char>>(e@)
                    &&& final(self).tables@ == old(self).tables@
                },
            },
    {
        proof {
            let keys = self.tables@[index as int].rowid_index@;
            assert(keys.take(keys.len() as int) =~= keys);
        }
        if places.len() != row.len() {
            return Err(String::from_str("INSERT value contains wrong amount of columns"));
        }
        let cells = match self.row_data(index, places, row, host) {
            Ok(cells) => cells,
            Err(e) => {
                return Err(e);
            },
        };
        if self.tables[index].next_rowid == u64::MAX {
            return Err(String::from_str("table is full"));
        }
        let ghost before = self.tables@;
        match self.tables[index].insert_row(cells) {
            Ok(_) => {
                proof {
                    assert(self.tables@.len() == before.len());
                    assert(forall|j: int|
                        0 <= j < before.len() && j != index ==> self.tables@[j] == before[j]);
                    let keys = self.tables@[index as int].rowid_index@;
                    assert(keys.take(keys.len() - 1) =~= keys.drop_last());
                }
                Ok(())
            },
            Err(e) => {
                proof {
                    assert(self.tables@ =~= before);
                }
                Err(e.to_string())
            },
        }
    }

    #[verifier::loop_isolation(false)]
    fn insert_into<F: FloatOps>(&mut self, stmt: ast::InsertStatement, host: &F) -> (r:
        ExecuteStatementResult)
        ensures
            insert_outcome(host.model(), old(self), &stmt, r, final(self)),
            old(self).keys_in_order() ==> final(self).keys_in_order(),
    {
        let index = match self.get_table_mut(stmt.table.table_name.as_str()) {
            Ok(i) => i,
            Err(e) => {
                return Err(e);
            },
        };
        let mut places: Vec<u32> = Vec::new();
        match &stmt.into_columns {
            // Column names listed; map specified columns
            Some(v) => {
                let mut i: usize = 0;
                while i < v.len()
                    invariant
                        i <= v@.len(),
                        named_places(&self.tables@[index as int], v@, 0, Seq::empty())
                            == named_places(&self.tables@[index as int], v@, i as int, places@),
                    decreases v@.len() - i,
                {
                    let ident = match Identifier::new(v[i].as_str()) {
                        Some(ident) => ident,
                        None => {
                            return Err(message("Bad column name: ", v[i].as_str()));
                        },
                    };
                    match self.tables[index].find_column_by_name(&ident) {
                        Some(column) => {
                            places.push(column.offset);
                        },
                        None => {
                            let mut s = message("column ", v[i].as_str());
                            s.append(" not in table");
                            return Err(s);
                        },
                    }
                    i = i + 1;
                }
            },
            // No column names are listed; map all columns
            None => {
                let n: u32 = count_columns(self.tables[index].columns.len());
                let mut i: u32 = 0;
                while i < n
                    invariant
                        i <= n,
                        places@.len() == i,
                        forall|j: int| 0 <= j < i ==> places@[j] == j,
                    decreases n - i,
                {
                    places.push(i);
                    i = i + 1;
                }
                proof {
                    assert(places@ =~= all_places(n as nat));
                }
            },
        }
        let rows = match &stmt.source {
            ast::InsertSource::Values(rows) => rows,
            ast::InsertSource::Select(_) => {
                return Err(String::from_str("INSERT from SELECT is not implemented"));
            },
        };
        let mut count: u64 = 0;
        let mut k: usize = 0;
        let ghost mut states: Seq<TempDb> = seq![*self];
        proof {
            let keys = self.tables@[index as int].rowid_index@;
            assert(keys.take(keys.len() as int) =~= keys);
        }
        while k < rows.len()
            invariant
                k <= rows@.len(),
                count == k,
                index < old(self).tables@.len(),
                same_but(old(self), self, index as int),
                old(self).keys_in_order() ==> self.keys_in_order(),
                rows_inserted(host.model(), states, index as int, places@, rows@),
                states.len() == k + 1,
                states[0].tables@ == old(self).tables@,
                states.last() == *self,
            decreases rows@.len() - k,
        {
            let ghost before = *self;
            match self.insert_values(index, &places, &rows[k], host) {
                Ok(_) => {},
                Err(e) => {
                    proof {
                        assert(self.tables@ == before.tables@);
                    }
                    return Err(e);
                },
            }
            proof {
                let first = old(self).tables@[index as int].rowid_index@;
                let mid = before.tables@[index as int].rowid_index@;
                let last = self.tables@[index as int].rowid_index@;
                assert(last.take(first.len() as int) =~= last.take(mid.len() as int).take(
                    first.len() as int,
                ));
                let earlier = states;
                states = states.push(*self);
                assert forall|j: int| 0 <= j < states.len() - 1 implies row_inserted(host.model(),
                    #[trigger] &states[j],
                    &states[j + 1],
                    index as int,
                    places@,
                    rows@[j]@,
                ) by {
                    if j < earlier.len() - 1 {
                        assert(states[j] == earlier[j]);
                        assert(states[j + 1] == earlier[j + 1]);
                    } else {
                        assert(states[j] == before);
                    }
                }
            }
            count = count + 1;
            k = k + 1;
        }
        Ok(ExecuteStatementResponse::Inserted(count))
    }
}

/// The data that a value makes in a column.
pub fn variant_to_data<F: FloatOps>(value: Variant, column_type: DbType, nullable: bool, host: &F)
    -> (r: Result<ColumnData, String>)
    ensures
        match r {
            Ok(cell) => value_cell(
                host.model(),
                value@,
                column_type,
                nullable,
            ) == Ok::<CellData, Seq<char>>(
                (cell.0@, cell.1),
            ),
            Err(e) => value_cell(
                host.model(),
                value@,
                column_type,
                nullable,
            ) == Err::<CellData, Seq<char>>(e@),
        },
{
    if value.is_null() {
        if nullable {
            Ok((Vec::new(), Some(true)))
        } else {
            Err(String::from_str("cannot insert NULL into column that doesn't allow NULL"))
        }
    } else {
        match value.to_bytes(column_type, host) {
            Ok(bytes) => Ok(
                (
                    bytes,
                    if nullable {
                        Some(false)
                    } else {
                        None
                    },
                ),
            ),
            Err(_) => Err(String::from_str("value cannot be stored in the column")),
        }
    }
}

} // verus!
