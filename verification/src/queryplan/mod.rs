//! Query plans: how a statement is compiled into one, and how one is run.

use vstd::prelude::*;
use std::collections::HashMap;

use crate::identifier::Identifier;
use crate::sqlsyntax::ast;

pub mod columnnames;
pub mod compiler;
pub mod execute;
pub mod laws;
pub mod planning;
pub mod sexpression;
pub mod source;

pub use self::compiler::{compile_ast_expression, FromWhere};
pub use self::execute::{ExecuteError, ExecuteQueryPlan};
pub use self::sexpression::{AggregateOp, BinaryOp, PlanView, SExpression, UnaryOp};

use self::planning::{
    add_query_id, binary_op_of, first_ids, grouped_of, grouped_source, innermost, name_of,
    new_query, new_source, query_of, unary_op_of, CompileErrorView, Ids,
};

verus! {

/// Why a statement could not be compiled.
pub enum QueryPlanCompileError {
    TableDoesNotExist(Identifier),
    ColumnDoesNotExist(Identifier),
    AmbiguousColumnName(Identifier),
    BadIdentifier(String),
    BadStringLiteral(String),
    BadNumberLiteral(String),
    UnknownFunctionName(Identifier),
    AggregateFunctionRequiresOneArgument,
    AggregateFunctionHasNoQueryToAggregate,
    AggregateAllMustBeCount(Identifier),
    /// `ORDER BY` is not implemented.
    OrderByNotImplemented,
    /// The statement needs more sources or queries than can be numbered.
    TooManySources,
}

impl View for QueryPlanCompileError {
    type V = CompileErrorView;

    open spec fn view(&self) -> CompileErrorView {
        match self {
            QueryPlanCompileError::TableDoesNotExist(n) => CompileErrorView::TableDoesNotExist(n@),
            QueryPlanCompileError::ColumnDoesNotExist(n) => CompileErrorView::ColumnDoesNotExist(
                n@,
            ),
            QueryPlanCompileError::AmbiguousColumnName(n) => CompileErrorView::AmbiguousColumnName(
                n@,
            ),
            QueryPlanCompileError::BadIdentifier(s) => CompileErrorView::BadIdentifier(s@),
            QueryPlanCompileError::BadStringLiteral(s) => CompileErrorView::BadStringLiteral(s@),
            QueryPlanCompileError::BadNumberLiteral(s) => CompileErrorView::BadNumberLiteral(s@),
            QueryPlanCompileError::UnknownFunctionName(n) => CompileErrorView::UnknownFunctionName(
                n@,
            ),
            QueryPlanCompileError::AggregateFunctionRequiresOneArgument =>
                CompileErrorView::AggregateFunctionRequiresOneArgument,
            QueryPlanCompileError::AggregateFunctionHasNoQueryToAggregate =>
                CompileErrorView::AggregateFunctionHasNoQueryToAggregate,
            QueryPlanCompileError::AggregateAllMustBeCount(n) =>
                CompileErrorView::AggregateAllMustBeCount(n@),
            QueryPlanCompileError::OrderByNotImplemented => CompileErrorView::OrderByNotImplemented,
            QueryPlanCompileError::TooManySources => CompileErrorView::TooManySources,
        }
    }
}

/// The message of an error.
pub open spec fn error_text(e: CompileErrorView) -> Seq<char> {
    match e {
        CompileErrorView::TableDoesNotExist(name) => "table does not exist: "@ + name,
        CompileErrorView::ColumnDoesNotExist(name) => "column does not exist: "@ + name,
        CompileErrorView::AmbiguousColumnName(name) => "ambiguous column name: "@ + name,
        CompileErrorView::BadIdentifier(name) => "bad identifier: "@ + name,
        CompileErrorView::BadStringLiteral(s) => "bad string literal: "@ + s,
        CompileErrorView::BadNumberLiteral(s) => "bad number literal: "@ + s,
        CompileErrorView::UnknownFunctionName(s) => "unknown function name: "@ + s,
        CompileErrorView::AggregateFunctionRequiresOneArgument =>
            "aggregate function requires exactly one argument"@,
        CompileErrorView::AggregateFunctionHasNoQueryToAggregate =>
            "aggregate function contains no query to aggregate"@,
        CompileErrorView::AggregateAllMustBeCount(name) =>
            "aggregate (*) function must be `count` (found "@ + name + ")"@,
        CompileErrorView::OrderByNotImplemented => "ORDER BY is not implemented"@,
        CompileErrorView::TooManySources => "too many sources"@,
    }
}

fn message(head: &str, tail: &str) -> (r: String)
    ensures
        r@ == head@ + tail@,
{
    let mut s = String::from_str(head);
    s.append(tail);
    s
}

impl QueryPlanCompileError {
    /// The message of the error.
    pub fn to_string(&self) -> (r: String)
        ensures
            r@ == error_text(self@),
    {
        match self {
            QueryPlanCompileError::TableDoesNotExist(name) => message(
                "table does not exist: ",
                name.as_slice(),
            ),
            QueryPlanCompileError::ColumnDoesNotExist(name) => message(
                "column does not exist: ",
                name.as_slice(),
            ),
            QueryPlanCompileError::AmbiguousColumnName(name) => message(
                "ambiguous column name: ",
                name.as_slice(),
            ),
            QueryPlanCompileError::BadIdentifier(name) => message(
                "bad identifier: ",
                name.as_str(),
            ),
            QueryPlanCompileError::BadStringLiteral(s) => message(
                "bad string literal: ",
                s.as_str(),
            ),
            QueryPlanCompileError::BadNumberLiteral(s) => message(
                "bad number literal: ",
                s.as_str(),
            ),
            QueryPlanCompileError::UnknownFunctionName(s) => message(
                "unknown function name: ",
                s.as_slice(),
            ),
            QueryPlanCompileError::AggregateFunctionRequiresOneArgument => String::from_str(
                "aggregate function requires exactly one argument",
            ),
            QueryPlanCompileError::AggregateFunctionHasNoQueryToAggregate => String::from_str(
                "aggregate function contains no query to aggregate",
            ),
            QueryPlanCompileError::AggregateAllMustBeCount(name) => {
                let mut s = message(
                    "aggregate (*) function must be `count` (found ",
                    name.as_slice(),
                );
                s.append(")");
                s
            },
            QueryPlanCompileError::OrderByNotImplemented => String::from_str(
                "ORDER BY is not implemented",
            ),
            QueryPlanCompileError::TooManySources => String::from_str("too many sources"),
        }
    }
}

/// A compiled statement: its plan and the names of the columns of the
/// rows that the plan yields.
pub struct QueryPlan<'a> {
    pub expr: SExpression<'a>,
    pub out_column_names: Vec<Identifier>,
}

/// The identifier that a text spells.
pub fn new_identifier(value: &str) -> (r: Result<Identifier, QueryPlanCompileError>)
    ensures
        match r {
            Ok(ident) => name_of(value@) == Ok::<Seq<char>, CompileErrorView>(ident@),
            Err(e) => name_of(value@) == Err::<Seq<char>, CompileErrorView>(e@),
        },
{
    match Identifier::new(value) {
        Some(ident) => Ok(ident),
        None => Err(QueryPlanCompileError::BadIdentifier(String::from_str(value))),
    }
}

/// Which queries an expression refers to outside of aggregate functions.
#[derive(Debug)]
pub struct GroupsInfo {
    pub innermost_nonaggregated_query: Option<u32>,
}

impl View for GroupsInfo {
    type V = Option<u32>;

    open spec fn view(&self) -> Option<u32> {
        self.innermost_nonaggregated_query
    }
}

impl GroupsInfo {
    /// No query has been referred to.
    pub fn new() -> (r: GroupsInfo)
        ensures
            r@.is_none(),
    {
        GroupsInfo { innermost_nonaggregated_query: None }
    }

    /// Notes a reference to a query. The innermost query of any two
    /// queries is the one with the highest ID.
    pub fn add_query_id(&mut self, query_id: u32)
        ensures
            final(self)@ == add_query_id(old(self)@, query_id),
    {
        match self.innermost_nonaggregated_query {
            None => {
                self.innermost_nonaggregated_query = Some(query_id);
            },
            Some(g) => {
                if query_id > g {
                    self.innermost_nonaggregated_query = Some(query_id);
                }
            },
        }
    }
}

/// The numbers handed out while a statement is compiled.
pub struct CompileState {
    pub next_source_id: u32,
    pub next_query_id: u32,
    pub source_id_to_query_id: HashMap<u32, u32>,
    pub query_to_aggregated_source_id: HashMap<u32, u32>,
}

impl View for CompileState {
    type V = Ids;

    open spec fn view(&self) -> Ids {
        Ids {
            next_source_id: self.next_source_id,
            next_query_id: self.next_query_id,
            source_queries: self.source_id_to_query_id@,
            grouped: self.query_to_aggregated_source_id@,
        }
    }
}

impl CompileState {
    /// The numbers before anything is compiled.
    pub fn new() -> (r: CompileState)
        ensures
            r@ == first_ids(),
    {
        CompileState {
            next_source_id: 0,
            next_query_id: 1,
            source_id_to_query_id: HashMap::new(),
            query_to_aggregated_source_id: HashMap::new(),
        }
    }

    /// A new source of the query.
    pub fn new_source_id(&mut self, query_id: u32) -> (r: Result<u32, QueryPlanCompileError>)
        ensures
            match r {
                Ok(id) => new_source(old(self)@, query_id) == Ok::<(u32, Ids), CompileErrorView>(
                    (id, final(self)@),
                ),
                Err(e) => new_source(old(self)@, query_id) == Err::<(u32, Ids), CompileErrorView>(
                    e@,
                ),
            },
    {
        if self.next_source_id == u32::MAX {
            return Err(QueryPlanCompileError::TooManySources);
        }
        let id = self.next_source_id;
        self.source_id_to_query_id.insert(id, query_id);
        self.next_source_id = id + 1;
        Ok(id)
    }

    /// A new query.
    pub fn new_query_id(&mut self) -> (r: Result<u32, QueryPlanCompileError>)
        ensures
            match r {
                Ok(id) => new_query(old(self)@) == Ok::<(u32, Ids), CompileErrorView>(
                    (id, final(self)@),
                ),
                Err(e) => new_query(old(self)@) == Err::<(u32, Ids), CompileErrorView>(e@),
            },
    {
        if self.next_query_id == u32::MAX {
            return Err(QueryPlanCompileError::TooManySources);
        }
        let id = self.next_query_id;
        self.next_query_id = id + 1;
        Ok(id)
    }

    /// The source under which the query hands on its groups, if it has
    /// one.
    pub fn aggregated_source_id(&self, query_id: u32) -> (r: Option<u32>)
        ensures
            r == grouped_of(self@, query_id),
    {
        match self.query_to_aggregated_source_id.get(&query_id) {
            Some(source_id) => Some(*source_id),
            None => None,
        }
    }

    /// The source under which the query hands on its groups: the one it
    /// has, or a new one.
    pub fn new_aggregated_source_id(&mut self, aggregated_query_id: u32) -> (r: Result<
        u32,
        QueryPlanCompileError,
    >)
        ensures
            match r {
                Ok(id) => grouped_source(old(self)@, aggregated_query_id) == Ok::<
                    (u32, Ids),
                    CompileErrorView,
                >((id, final(self)@)),
                Err(e) => grouped_source(old(self)@, aggregated_query_id) == Err::<
                    (u32, Ids),
                    CompileErrorView,
                >(e@),
            },
    {
        if let Some(source_id) = self.aggregated_source_id(aggregated_query_id) {
            return Ok(source_id);
        }
        if self.next_source_id == u32::MAX {
            return Err(QueryPlanCompileError::TooManySources);
        }
        let id = self.next_source_id;
        self.source_id_to_query_id.insert(id, aggregated_query_id);
        self.query_to_aggregated_source_id.insert(aggregated_query_id, id);
        self.next_source_id = id + 1;
        Ok(id)
    }

    /// The query that the source belongs to.
    pub fn get_query_id_from_source_id(&self, source_id: u32) -> (r: u32)
        ensures
            r == query_of(self@, source_id),
    {
        match self.source_id_to_query_id.get(&source_id) {
            Some(query_id) => *query_id,
            None => 0,
        }
    }
}

/// The operator of the plan for an operator of the syntax.
pub fn ast_binaryop_to_sexpression_binaryop(ast: ast::BinaryOp) -> (r: BinaryOp)
    ensures
        r == binary_op_of(ast),
{
    match ast {
        ast::BinaryOp::Equal => BinaryOp::Equal,
        ast::BinaryOp::NotEqual => BinaryOp::NotEqual,
        ast::BinaryOp::LessThan => BinaryOp::LessThan,
        ast::BinaryOp::LessThanOrEqual => BinaryOp::LessThanOrEqual,
        ast::BinaryOp::GreaterThan => BinaryOp::GreaterThan,
        ast::BinaryOp::GreaterThanOrEqual => BinaryOp::GreaterThanOrEqual,
        ast::BinaryOp::And => BinaryOp::And,
        ast::BinaryOp::Or => BinaryOp::Or,
        ast::BinaryOp::Add => BinaryOp::Add,
        ast::BinaryOp::Subtract => BinaryOp::Subtract,
        ast::BinaryOp::Multiply => BinaryOp::Multiply,
        ast::BinaryOp::Divide => BinaryOp::Divide,
        ast::BinaryOp::BitAnd => BinaryOp::BitAnd,
        ast::BinaryOp::BitOr => BinaryOp::BitOr,
        ast::BinaryOp::Concatenate => BinaryOp::Concatenate,
    }
}

/// The operator of the plan for an operator of the syntax.
pub fn ast_unaryop_to_sexpression_unaryop(ast: ast::UnaryOp) -> (r: UnaryOp)
    ensures
        r == unary_op_of(ast),
{
    match ast {
        ast::UnaryOp::Negate => UnaryOp::Negate,
    }
}

} // verus!
