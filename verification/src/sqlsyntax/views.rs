//! The syntax trees as mathematics sees them.

use vstd::prelude::*;
use crate::sqlsyntax::ast::{
    BinaryOp, CreateStatement, CreateTableColumn, CreateTableColumnConstraint,
    CreateTableColumnConstraintType, CreateTableStatement, ExplainStatement, Expression, From,
    InsertSource, InsertStatement, Join, JoinOperator, Order, OrderingTerm, SelectColumn,
    SelectStatement, Statement, Table, TableOrSubquery, UnaryOp,
};

verus! {

/// `Expression` as mathematics sees it.
#[allow(inconsistent_fields)]
pub enum ExpressionView {
    Ident(Seq<char>),
    IdentMember(Seq<char>, Seq<char>),
    StringLiteral(Seq<char>),
    Number(Seq<char>),
    Null,
    FunctionCall { name: Seq<char>, arguments: Seq<ExpressionView> },
    FunctionCallAggregateAll { name: Seq<char> },
    UnaryOp { expr: Box<ExpressionView>, op: UnaryOp },
    BinaryOp { lhs: Box<ExpressionView>, rhs: Box<ExpressionView>, op: BinaryOp },
    Subquery(Box<SelectStatementView>),
}

/// `Table` as mathematics sees it.
pub struct TableView {
    pub database_name: Option<Seq<char>>,
    pub table_name: Seq<char>,
}

/// `TableOrSubquery` as mathematics sees it.
#[allow(inconsistent_fields)]
pub enum TableOrSubqueryView {
    Subquery { subquery: Box<SelectStatementView>, alias: Seq<char> },
    Table { table: TableView, alias: Option<Seq<char>> },
}

/// `SelectColumn` as mathematics sees it.
#[allow(inconsistent_fields)]
pub enum SelectColumnView {
    AllColumns,
    Expr { expr: ExpressionView, alias: Option<Seq<char>> },
}

/// `SelectStatement` as mathematics sees it.
pub struct SelectStatementView {
    pub result_columns: Seq<SelectColumnView>,
    pub from: FromView,
    pub where_expr: Option<ExpressionView>,
    pub group_by: Seq<ExpressionView>,
    pub having: Option<ExpressionView>,
    pub order_by: Seq<OrderingTermView>,
}

/// `From` as mathematics sees it.
#[allow(inconsistent_fields)]
pub enum FromView {
    Cross(Seq<TableOrSubqueryView>),
    Join { table: TableOrSubqueryView, joins: Seq<JoinView> },
}

/// `Join` as mathematics sees it.
pub struct JoinView {
    pub operator: JoinOperator,
    pub table: TableOrSubqueryView,
    pub on: ExpressionView,
}

/// `OrderingTerm` as mathematics sees it.
pub struct OrderingTermView {
    pub expr: ExpressionView,
    pub order: Order,
}

/// `InsertStatement` as mathematics sees it.
pub struct InsertStatementView {
    pub table: TableView,
    pub into_columns: Option<Seq<Seq<char>>>,
    pub source: InsertSourceView,
}

/// `InsertSource` as mathematics sees it.
#[allow(inconsistent_fields)]
pub enum InsertSourceView {
    Values(Seq<Seq<ExpressionView>>),
    Select(Box<SelectStatementView>),
}

/// `CreateTableColumnConstraint` as mathematics sees it.
pub struct CreateTableColumnConstraintView {
    pub name: Option<Seq<char>>,
    pub constraint: CreateTableColumnConstraintTypeView,
}

/// `CreateTableColumnConstraintType` as mathematics sees it.
#[allow(inconsistent_fields)]
pub enum CreateTableColumnConstraintTypeView {
    PrimaryKey,
    Unique,
    Nullable,
    ForeignKey { table: TableView, columns: Option<Seq<Seq<char>>> },
}

/// `CreateTableColumn` as mathematics sees it.
pub struct CreateTableColumnView {
    pub column_name: Seq<char>,
    pub column_type: Seq<char>,
    pub type_size: Option<Seq<char>>,
    pub type_array_size: Option<Option<Seq<char>>>,
    pub constraints: Seq<CreateTableColumnConstraintView>,
}

/// `CreateTableStatement` as mathematics sees it.
pub struct CreateTableStatementView {
    pub table: TableView,
    pub columns: Seq<CreateTableColumnView>,
}

/// `CreateStatement` as mathematics sees it.
#[allow(inconsistent_fields)]
pub enum CreateStatementView {
    Table(CreateTableStatementView),
}

/// `ExplainStatement` as mathematics sees it.
#[allow(inconsistent_fields)]
pub enum ExplainStatementView {
    Select(SelectStatementView),
}

/// `Statement` as mathematics sees it.
#[allow(inconsistent_fields)]
pub enum StatementView {
    Select(SelectStatementView),
    Insert(InsertStatementView),
    Create(CreateStatementView),
    Explain(ExplainStatementView),
}

/// The texts that strings hold.
pub open spec fn strings_view(texts: Seq<String>) -> Seq<Seq<char>> {
    Seq::new(texts.len(), |i: int| texts[i]@)
}

/// The text that an optional string holds.
pub open spec fn option_text(text: Option<String>) -> Option<Seq<char>> {
    match text {
        Some(s) => Some(s@),
        None => None,
    }
}

/// The text that an optional string holds, where it is there.
pub open spec fn option_option_text(text: Option<Option<String>>) -> Option<Option<Seq<char>>> {
    match text {
        Some(s) => Some(option_text(s)),
        None => None,
    }
}

/// The texts that optional strings hold.
pub open spec fn option_strings_view(texts: Option<Vec<String>>) -> Option<Seq<Seq<char>>> {
    match texts {
        Some(v) => Some(strings_view(v@)),
        None => None,
    }
}

/// What the items of a list stand for.
pub open spec fn create_table_columns_view(list: Seq<CreateTableColumn>) -> Seq<CreateTableColumnView>
    decreases list,
{
    Seq::new(
        list.len(),
        |i: int|
            if 0 <= i < list.len() {
                create_table_column_view(&list[i])
            } else {
                arbitrary()
            },
    )
}

/// What the items of a list stand for.
pub open spec fn create_table_column_constraints_view(list: Seq<CreateTableColumnConstraint>) -> Seq<CreateTableColumnConstraintView>
    decreases list,
{
    Seq::new(
        list.len(),
        |i: int|
            if 0 <= i < list.len() {
                create_table_column_constraint_view(&list[i])
            } else {
                arbitrary()
            },
    )
}

/// What the items of a list stand for.
pub open spec fn expressions_view(list: Seq<Expression>) -> Seq<ExpressionView>
    decreases list,
{
    Seq::new(
        list.len(),
        |i: int|
            if 0 <= i < list.len() {
                expression_view(&list[i])
            } else {
                arbitrary()
            },
    )
}

/// What the items of a list stand for.
pub open spec fn joins_view(list: Seq<Join>) -> Seq<JoinView>
    decreases list,
{
    Seq::new(
        list.len(),
        |i: int|
            if 0 <= i < list.len() {
                join_view(&list[i])
            } else {
                arbitrary()
            },
    )
}

/// What the items of a list stand for.
pub open spec fn ordering_terms_view(list: Seq<OrderingTerm>) -> Seq<OrderingTermView>
    decreases list,
{
    Seq::new(
        list.len(),
        |i: int|
            if 0 <= i < list.len() {
                ordering_term_view(&list[i])
            } else {
                arbitrary()
            },
    )
}

/// What the items of a list stand for.
pub open spec fn select_columns_view(list: Seq<SelectColumn>) -> Seq<SelectColumnView>
    decreases list,
{
    Seq::new(
        list.len(),
        |i: int|
            if 0 <= i < list.len() {
                select_column_view(&list[i])
            } else {
                arbitrary()
            },
    )
}

/// What the items of a list stand for.
pub open spec fn tables_or_subqueries_view(list: Seq<TableOrSubquery>) -> Seq<TableOrSubqueryView>
    decreases list,
{
    Seq::new(
        list.len(),
        |i: int|
            if 0 <= i < list.len() {
                table_or_subquery_view(&list[i])
            } else {
                arbitrary()
            },
    )
}

/// What the items of lists stand for.
pub open spec fn expression_rows_view(rows: Seq<Vec<Expression>>) -> Seq<Seq<ExpressionView>>
    decreases rows,
{
    Seq::new(
        rows.len(),
        |i: int|
            if 0 <= i < rows.len() {
                expressions_view(rows[i]@)
            } else {
                arbitrary()
            },
    )
}

/// What an optional expression stands for.
pub open spec fn option_expression_view(e: &Option<Expression>) -> Option<ExpressionView>
    decreases e,
{
    match e {
        Some(e) => Some(expression_view(e)),
        None => None,
    }
}

/// What statements stand for.
pub open spec fn statements_view(list: Seq<Statement>) -> Seq<StatementView> {
    Seq::new(list.len(), |i: int| statement_view(&list[i]))
}

/// What a `Expression` stands for.
pub open spec fn expression_view(x: &Expression) -> ExpressionView
    decreases x,
{
    match x {
        Expression::Ident(a0) => ExpressionView::Ident(a0@),
        Expression::IdentMember(a0, a1) => ExpressionView::IdentMember(a0@, a1@),
        Expression::StringLiteral(a0) => ExpressionView::StringLiteral(a0@),
        Expression::Number(a0) => ExpressionView::Number(a0@),
        Expression::Null => ExpressionView::Null,
        Expression::FunctionCall { name, arguments } => ExpressionView::FunctionCall {
            name: name@,
            arguments: expressions_view(arguments@),
        },
        Expression::FunctionCallAggregateAll { name } => ExpressionView::FunctionCallAggregateAll {
            name: name@,
        },
        Expression::UnaryOp { expr, op } => ExpressionView::UnaryOp {
            expr: Box::new(expression_view(expr)),
            op: *op,
        },
        Expression::BinaryOp { lhs, rhs, op } => ExpressionView::BinaryOp {
            lhs: Box::new(expression_view(lhs)),
            rhs: Box::new(expression_view(rhs)),
            op: *op,
        },
        Expression::Subquery(a0) => ExpressionView::Subquery(Box::new(select_statement_view(a0))),
    }
}

/// What a `Table` stands for.
pub open spec fn table_view(x: &Table) -> TableView
    decreases x,
{
    TableView {
        database_name: option_text(x.database_name),
        table_name: x.table_name@,
    }
}

/// What a `TableOrSubquery` stands for.
pub open spec fn table_or_subquery_view(x: &TableOrSubquery) -> TableOrSubqueryView
    decreases x,
{
    match x {
        TableOrSubquery::Subquery { subquery, alias } => TableOrSubqueryView::Subquery {
            subquery: Box::new(select_statement_view(subquery)),
            alias: alias@,
        },
        TableOrSubquery::Table { table, alias } => TableOrSubqueryView::Table {
            table: table_view(table),
            alias: option_text(*alias),
        },
    }
}

/// What a `SelectColumn` stands for.
pub open spec fn select_column_view(x: &SelectColumn) -> SelectColumnView
    decreases x,
{
    match x {
        SelectColumn::AllColumns => SelectColumnView::AllColumns,
        SelectColumn::Expr { expr, alias } => SelectColumnView::Expr {
            expr: expression_view(expr),
            alias: option_text(*alias),
        },
    }
}

/// What a `SelectStatement` stands for.
pub open spec fn select_statement_view(x: &SelectStatement) -> SelectStatementView
    decreases x,
{
    SelectStatementView {
        result_columns: select_columns_view(x.result_columns@),
        from: from_view(&x.from),
        where_expr: option_expression_view(&x.where_expr),
        group_by: expressions_view(x.group_by@),
        having: option_expression_view(&x.having),
        order_by: ordering_terms_view(x.order_by@),
    }
}

/// What a `From` stands for.
pub open spec fn from_view(x: &From) -> FromView
    decreases x,
{
    match x {
        From::Cross(a0) => FromView::Cross(tables_or_subqueries_view(a0@)),
        From::Join { table, joins } => FromView::Join {
            table: table_or_subquery_view(table),
            joins: joins_view(joins@),
        },
    }
}

/// What a `Join` stands for.
pub open spec fn join_view(x: &Join) -> JoinView
    decreases x,
{
    JoinView {
        operator: x.operator,
        table: table_or_subquery_view(&x.table),
        on: expression_view(&x.on),
    }
}

/// What a `OrderingTerm` stands for.
pub open spec fn ordering_term_view(x: &OrderingTerm) -> OrderingTermView
    decreases x,
{
    OrderingTermView {
        expr: expression_view(&x.expr),
        order: x.order,
    }
}

/// What a `InsertStatement` stands for.
pub open spec fn insert_statement_view(x: &InsertStatement) -> InsertStatementView
    decreases x,
{
    InsertStatementView {
        table: table_view(&x.table),
        into_columns: option_strings_view(x.into_columns),
        source: insert_source_view(&x.source),
    }
}

/// What a `InsertSource` stands for.
pub open spec fn insert_source_view(x: &InsertSource) -> InsertSourceView
    decreases x,
{
    match x {
        InsertSource::Values(a0) => InsertSourceView::Values(expression_rows_view(a0@)),
        InsertSource::Select(a0) => InsertSourceView::Select(Box::new(select_statement_view(a0))),
    }
}

/// What a `CreateTableColumnConstraint` stands for.
pub open spec fn create_table_column_constraint_view(x: &CreateTableColumnConstraint) -> CreateTableColumnConstraintView
    decreases x,
{
    CreateTableColumnConstraintView {
        name: option_text(x.name),
        constraint: create_table_column_constraint_type_view(&x.constraint),
    }
}

/// What a `CreateTableColumnConstraintType` stands for.
pub open spec fn create_table_column_constraint_type_view(x: &CreateTableColumnConstraintType) -> CreateTableColumnConstraintTypeView
    decreases x,
{
    match x {
        CreateTableColumnConstraintType::PrimaryKey => CreateTableColumnConstraintTypeView::PrimaryKey,
        CreateTableColumnConstraintType::Unique => CreateTableColumnConstraintTypeView::Unique,
        CreateTableColumnConstraintType::Nullable => CreateTableColumnConstraintTypeView::Nullable,
        CreateTableColumnConstraintType::ForeignKey { table, columns } => CreateTableColumnConstraintTypeView::ForeignKey {
            table: table_view(table),
            columns: option_strings_view(*columns),
        },
    }
}

/// What a `CreateTableColumn` stands for.
pub open spec fn create_table_column_view(x: &CreateTableColumn) -> CreateTableColumnView
    decreases x,
{
    CreateTableColumnView {
        column_name: x.column_name@,
        column_type: x.column_type@,
        type_size: option_text(x.type_size),
        type_array_size: option_option_text(x.type_array_size),
        constraints: create_table_column_constraints_view(x.constraints@),
    }
}

/// What a `CreateTableStatement` stands for.
pub open spec fn create_table_statement_view(x: &CreateTableStatement) -> CreateTableStatementView
    decreases x,
{
    CreateTableStatementView {
        table: table_view(&x.table),
        columns: create_table_columns_view(x.columns@),
    }
}

/// What a `CreateStatement` stands for.
pub open spec fn create_statement_view(x: &CreateStatement) -> CreateStatementView
    decreases x,
{
    match x {
        CreateStatement::Table(a0) => CreateStatementView::Table(create_table_statement_view(a0)),
    }
}

/// What a `ExplainStatement` stands for.
pub open spec fn explain_statement_view(x: &ExplainStatement) -> ExplainStatementView
    decreases x,
{
    match x {
        ExplainStatement::Select(a0) => ExplainStatementView::Select(select_statement_view(a0)),
    }
}

/// What a `Statement` stands for.
pub open spec fn statement_view(x: &Statement) -> StatementView
    decreases x,
{
    match x {
        Statement::Select(a0) => StatementView::Select(select_statement_view(a0)),
        Statement::Insert(a0) => StatementView::Insert(insert_statement_view(a0)),
        Statement::Create(a0) => StatementView::Create(create_statement_view(a0)),
        Statement::Explain(a0) => StatementView::Explain(explain_statement_view(a0)),
    }
}

} // verus!
