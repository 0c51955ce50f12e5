//! The syntax trees of statements.

use vstd::prelude::*;

verus! {

/// An operator of one operand.
#[derive(Debug, Clone, Copy, PartialEq, Eq, Structural)]
pub enum UnaryOp {
    Negate,
}

/// An operator of two operands.
#[derive(Debug, Clone, Copy, PartialEq, Eq, Structural)]
pub enum BinaryOp {
    Equal,
    NotEqual,
    LessThan,
    LessThanOrEqual,
    GreaterThan,
    GreaterThanOrEqual,
    And,
    Or,
    Add,
    Subtract,
    Multiply,
    Divide,
    BitAnd,
    BitOr,
    Concatenate,
}

/// An expression.
#[allow(inconsistent_fields)]
#[derive(Debug)]
pub enum Expression {
    Ident(String),
    /// table.column
    IdentMember(String, String),
    StringLiteral(String),
    Number(String),
    Null,
    /// name(argument1, argument2, argument3...)
    FunctionCall { name: String, arguments: Vec<Expression> },
    /// name(*)
    FunctionCallAggregateAll { name: String },
    UnaryOp { expr: Box<Expression>, op: UnaryOp },
    /// lhs op rhs
    BinaryOp { lhs: Box<Expression>, rhs: Box<Expression>, op: BinaryOp },
    Subquery(Box<SelectStatement>),
}

/// The name of a table.
#[derive(Debug)]
pub struct Table {
    pub database_name: Option<String>,
    pub table_name: String,
}

/// A source of a `FROM`: a subquery with its alias, or a table with or
/// without one.
#[allow(inconsistent_fields)]
#[derive(Debug)]
pub enum TableOrSubquery {
    Subquery { subquery: Box<SelectStatement>, alias: String },
    Table { table: Table, alias: Option<String> },
}

/// A selected column: `*`, or an expression with or without an alias.
#[derive(Debug)]
pub enum SelectColumn {
    AllColumns,
    Expr { expr: Expression, alias: Option<String> },
}

/// A `SELECT`.
#[derive(Debug)]
pub struct SelectStatement {
    pub result_columns: Vec<SelectColumn>,
    pub from: From,
    pub where_expr: Option<Expression>,
    pub group_by: Vec<Expression>,
    pub having: Option<Expression>,
    pub order_by: Vec<OrderingTerm>,
}

/// A `FROM`: sources with commas between them, or one source with
/// joins.
#[derive(Debug)]
pub enum From {
    Cross(Vec<TableOrSubquery>),
    Join { table: TableOrSubquery, joins: Vec<Join> },
}

/// The kind of a join.
#[derive(Debug, Clone, Copy, PartialEq, Eq, Structural)]
pub enum JoinOperator {
    Left,
    Inner,
}

/// A join: its kind, the source it joins and its condition.
#[derive(Debug)]
pub struct Join {
    pub operator: JoinOperator,
    pub table: TableOrSubquery,
    pub on: Expression,
}

/// The direction of an ordering.
#[derive(Debug, Clone, Copy, PartialEq, Eq, Structural)]
pub enum Order {
    Ascending,
    Descending,
}

/// An expression to order by.
#[derive(Debug)]
pub struct OrderingTerm {
    pub expr: Expression,
    pub order: Order,
}

/// An `INSERT`.
#[derive(Debug)]
pub struct InsertStatement {
    pub table: Table,
    pub into_columns: Option<Vec<String>>,
    pub source: InsertSource,
}

/// The rows of an `INSERT`.
#[derive(Debug)]
pub enum InsertSource {
    Values(Vec<Vec<Expression>>),
    Select(Box<SelectStatement>),
}

/// A constraint of a column, with or without a name.
#[derive(Debug)]
pub struct CreateTableColumnConstraint {
    pub name: Option<String>,
    pub constraint: CreateTableColumnConstraintType,
}

/// What a constraint of a column asks for.
#[derive(Debug)]
pub enum CreateTableColumnConstraintType {
    PrimaryKey,
    Unique,
    Nullable,
    ForeignKey { table: Table, columns: Option<Vec<String>> },
}

/// A column of a `CREATE TABLE`.
#[derive(Debug)]
pub struct CreateTableColumn {
    pub column_name: String,
    pub column_type: String,
    pub type_size: Option<String>,
    /// * None if no array
    /// * Some(None) if dynamic array: type[]
    /// * Some(Some(_)) if fixed array: type[SIZE]
    pub type_array_size: Option<Option<String>>,
    pub constraints: Vec<CreateTableColumnConstraint>,
}

/// A `CREATE TABLE`.
#[derive(Debug)]
pub struct CreateTableStatement {
    pub table: Table,
    pub columns: Vec<CreateTableColumn>,
}

/// A `CREATE`.
#[derive(Debug)]
pub enum CreateStatement {
    Table(CreateTableStatement),
}

/// An `EXPLAIN`.
#[derive(Debug)]
pub enum ExplainStatement {
    Select(SelectStatement),
}

/// A statement.
#[derive(Debug)]
pub enum Statement {
    Select(SelectStatement),
    Insert(InsertStatement),
    Create(CreateStatement),
    Explain(ExplainStatement),
}

} // verus!
