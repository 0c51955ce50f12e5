//! What the plan of a statement is.

use vstd::prelude::*;
use crate::floatops::FloatModel;
use crate::identifier::normalized;
use crate::queryplan::sexpression::{AggregateOp, BinaryOp, PlanView, UnaryOp};
use crate::queryplan::source::{lookup_column, GetColumnOffsetResult, ScopeTable, ScopeView};
use crate::sqlsyntax::ast;
use crate::tempdb::table::Table;
use crate::tempdb::TempDb;
use crate::text::decimal_chars;
use crate::types::variant::Value;

verus! {

/// Why a statement has no plan.
pub enum CompileErrorView {
    TableDoesNotExist(Seq<char>),
    ColumnDoesNotExist(Seq<char>),
    AmbiguousColumnName(Seq<char>),
    BadIdentifier(Seq<char>),
    BadStringLiteral(Seq<char>),
    BadNumberLiteral(Seq<char>),
    UnknownFunctionName(Seq<char>),
    AggregateFunctionRequiresOneArgument,
    AggregateFunctionHasNoQueryToAggregate,
    AggregateAllMustBeCount(Seq<char>),
    OrderByNotImplemented,
    TooManySources,
}

/// The numbers handed out while a statement is compiled: the next source
/// and the next query, the query that each source belongs to, and the
/// source under which each query hands on its groups, if it has any.
pub struct Ids {
    pub next_source_id: u32,
    pub next_query_id: u32,
    pub source_queries: Map<u32, u32>,
    pub grouped: Map<u32, u32>,
}

/// The numbers before anything is compiled: the statement itself is query
/// 0.
pub open spec fn first_ids() -> Ids {
    Ids { next_source_id: 0, next_query_id: 1, source_queries: Map::empty(), grouped: Map::empty() }
}

/// A new source of the query.
pub open spec fn new_source(ids: Ids, query_id: u32) -> Result<(u32, Ids), CompileErrorView> {
    if ids.next_source_id == u32::MAX {
        Err(CompileErrorView::TooManySources)
    } else {
        Ok(
            (
                ids.next_source_id,
                Ids {
                    next_source_id: (ids.next_source_id + 1) as u32,
                    source_queries: ids.source_queries.insert(ids.next_source_id, query_id),
                    ..ids
                },
            ),
        )
    }
}

/// A new query.
pub open spec fn new_query(ids: Ids) -> Result<(u32, Ids), CompileErrorView> {
    if ids.next_query_id == u32::MAX {
        Err(CompileErrorView::TooManySources)
    } else {
        Ok((ids.next_query_id, Ids { next_query_id: (ids.next_query_id + 1) as u32, ..ids }))
    }
}

/// The source under which the query hands on its groups.
pub open spec fn grouped_of(ids: Ids, query_id: u32) -> Option<u32> {
    if ids.grouped.contains_key(query_id) {
        Some(ids.grouped[query_id])
    } else {
        None
    }
}

/// The source under which the query hands on its groups: the one it has,
/// or a new one.
pub open spec fn grouped_source(ids: Ids, query_id: u32) -> Result<(u32, Ids), CompileErrorView> {
    match grouped_of(ids, query_id) {
        Some(source_id) => Ok((source_id, ids)),
        None => if ids.next_source_id == u32::MAX {
            Err(CompileErrorView::TooManySources)
        } else {
            Ok(
                (
                    ids.next_source_id,
                    Ids {
                        next_source_id: (ids.next_source_id + 1) as u32,
                        source_queries: ids.source_queries.insert(ids.next_source_id, query_id),
                        grouped: ids.grouped.insert(query_id, ids.next_source_id),
                        ..ids
                    },
                ),
            )
        },
    }
}

/// The query that the source belongs to.
pub open spec fn query_of(ids: Ids, source_id: u32) -> u32 {
    if ids.source_queries.contains_key(source_id) {
        ids.source_queries[source_id]
    } else {
        0
    }
}

/// The innermost query that is referred to outside of aggregate
/// functions, after one more reference. Of two queries the one with the
/// greater number is the inner one.
pub open spec fn add_query_id(groups: Option<u32>, query_id: u32) -> Option<u32> {
    match groups {
        None => Some(query_id),
        Some(g) => if query_id > g {
            Some(query_id)
        } else {
            groups
        },
    }
}

/// The identifier that a text spells.
pub open spec fn name_of(s: Seq<char>) -> Result<Seq<char>, CompileErrorView> {
    match normalized(s) {
        Some(n) => Ok(n),
        None => Err(CompileErrorView::BadIdentifier(s)),
    }
}

/// The operator of the plan for an operator of the syntax.
pub open spec fn binary_op_of(op: ast::BinaryOp) -> BinaryOp {
    match op {
        ast::BinaryOp::Equal => BinaryOp::Equal,
        ast::BinaryOp::NotEqual => BinaryOp::NotEqual,
        ast::BinaryOp::LessThan => BinaryOp::LessThan,
        ast::BinaryOp::LessThanOrEqual => BinaryOp::LessThanOrEqual,
        ast::BinaryOp::GreaterThan => BinaryOp::GreaterThan,
        ast::BinaryOp::GreaterThanOrEqual => BinaryOp::GreaterThanOrEqual,
        ast::BinaryOp::And => BinaryOp::And,
        ast::BinaryOp::Or => BinaryOp::Or,
        ast::BinaryOp::Add => BinaryOp::Add,
        ast::BinaryOp::Subtract => BinaryOp::Subtract,
        ast::BinaryOp::Multiply => BinaryOp::Multiply,
        ast::BinaryOp::Divide => BinaryOp::Divide,
        ast::BinaryOp::BitAnd => BinaryOp::BitAnd,
        ast::BinaryOp::BitOr => BinaryOp::BitOr,
        ast::BinaryOp::Concatenate => BinaryOp::Concatenate,
    }
}

/// The operator of the plan for an operator of the syntax.
pub open spec fn unary_op_of(op: ast::UnaryOp) -> UnaryOp {
    match op {
        ast::UnaryOp::Negate => UnaryOp::Negate,
    }
}

/// The aggregate function of the given name.
pub open spec fn aggregate_of(name: Seq<char>) -> Option<AggregateOp> {
    if name == "count"@ {
        Some(AggregateOp::Count)
    } else if name == "avg"@ {
        Some(AggregateOp::Avg)
    } else if name == "sum"@ {
        Some(AggregateOp::Sum)
    } else if name == "min"@ {
        Some(AggregateOp::Min)
    } else if name == "max"@ {
        Some(AggregateOp::Max)
    } else {
        None
    }
}

#[allow(inconsistent_fields)]
/// One step of a `FROM` with its `WHERE`: what is put around the plan of
/// the columns.
pub enum StepView {
    Scan { source_id: u32, table: Table },
    Subquery { source_id: u32, expr: PlanView },
    Filter { predicate: PlanView },
    LeftJoin { source_id: u32, table: PlanView, on: PlanView, right_rows_if_none: Seq<Value> },
}

/// The plan with one step around it.
pub open spec fn apply_step(step: StepView, inner: PlanView) -> PlanView {
    match step {
        StepView::Scan { source_id, table } => PlanView::Scan {
            table,
            source_id,
            yield_fn: Box::new(inner),
        },
        StepView::Subquery { source_id, expr } => PlanView::MapEach {
            source_id,
            yield_in_fn: Box::new(expr),
            yield_out_fn: Box::new(inner),
        },
        StepView::Filter { predicate } => PlanView::If {
            predicate: Box::new(predicate),
            yield_fn: Box::new(inner),
        },
        StepView::LeftJoin { source_id, table, on, right_rows_if_none } => PlanView::LeftJoin {
            source_id,
            yield_in_fn: Box::new(table),
            predicate: Box::new(on),
            yield_out_fn: Box::new(inner),
            right_rows_if_none,
        },
    }
}

/// The plan with the steps around it, the first step outermost.
pub open spec fn nest(steps: Seq<StepView>, inner: PlanView) -> PlanView
    decreases steps.len(),
{
    if steps.len() == 0 {
        inner
    } else {
        nest(steps.drop_last(), apply_step(steps.last(), inner))
    }
}

/// A number of columns as a 32-bit number.
pub open spec fn column_count(n: nat) -> u32 {
    if n > u32::MAX {
        u32::MAX
    } else {
        n as u32
    }
}

/// The first `n` columns of a source, as fields.
pub open spec fn source_fields(source_id: u32, n: u32) -> Seq<PlanView> {
    Seq::new(n as nat, |i: int| PlanView::ColumnField { source_id, column_offset: i as u32 })
}

/// Every column of every source of a `FROM` from `from` on, as fields
/// behind `done`.
pub open spec fn frame_fields(frame: Seq<ScopeTable>, from: int, done: Seq<PlanView>) -> Seq<
    PlanView,
>
    decreases frame.len() - from,
{
    if from < 0 || from >= frame.len() {
        done
    } else {
        frame_fields(
            frame,
            from + 1,
            done + source_fields(frame[from].source_id, column_count(frame[from].names.len())),
        )
    }
}

/// The names of the first `n` columns of a source.
pub open spec fn source_names(names: Seq<Seq<char>>, n: u32) -> Seq<Seq<char>> {
    Seq::new(n as nat, |i: int| names[i])
}

/// The names of every column of every source of a `FROM` from `from` on,
/// behind `done`.
pub open spec fn frame_names(frame: Seq<ScopeTable>, from: int, done: Seq<Seq<char>>) -> Seq<
    Seq<char>,
>
    decreases frame.len() - from,
{
    if from < 0 || from >= frame.len() {
        done
    } else {
        frame_names(
            frame,
            from + 1,
            done + source_names(frame[from].names, column_count(frame[from].names.len())),
        )
    }
}

/// Where the columns of a source are found among the columns of a group.
#[derive(Debug, Clone, Copy)]
pub struct Mapping {
    pub source_id: u32,
    pub column_offset: u32,
}

/// The sum of two places, or the greatest place.
pub open spec fn add_offsets(a: u32, b: u32) -> u32 {
    if a + b > u32::MAX {
        u32::MAX
    } else {
        (a + b) as u32
    }
}

/// Where the columns of the sources of a `FROM` from `from` on are found
/// in the rows of the group `grouped`: the columns of all sources are laid
/// out one source after the other, and `offset` is where the next source
/// starts.
pub open spec fn frame_mapping(
    frame: Seq<ScopeTable>,
    grouped: u32,
    from: int,
    offset: u32,
    done: Map<u32, Mapping>,
) -> Map<u32, Mapping>
    decreases frame.len() - from,
{
    if from < 0 || from >= frame.len() {
        done
    } else {
        frame_mapping(
            frame,
            grouped,
            from + 1,
            add_offsets(offset, column_count(frame[from].names.len())),
            done.insert(
                frame[from].source_id,
                Mapping { source_id: grouped, column_offset: offset },
            ),
        )
    }
}

/// The entry of the mapping for the source.
pub open spec fn find_mapping(mapping: Map<u32, Mapping>, source_id: u32) -> Option<Mapping> {
    if mapping.contains_key(source_id) {
        Some(mapping[source_id])
    } else {
        None
    }
}

/// The plans with every column of a mapped source rewired.
pub open spec fn remap_all(plans: Seq<PlanView>, mapping: Map<u32, Mapping>) -> Seq<PlanView>
    decreases plans,
{
    Seq::new(
        plans.len(),
        |i: int|
            if 0 <= i < plans.len() {
                remap(plans[i], mapping)
            } else {
                PlanView::CountAll { source_id: 0 }
            },
    )
}

/// The plan with every column of a mapped source rewired to the column
/// of the group that holds it.
pub open spec fn remap(p: PlanView, mapping: Map<u32, Mapping>) -> PlanView
    decreases p,
{
    match p {
        PlanView::ColumnField { source_id, column_offset } => match find_mapping(mapping, source_id) {
            Some(m) => PlanView::ColumnField {
                source_id: m.source_id,
                column_offset: add_offsets(column_offset, m.column_offset),
            },
            None => p,
        },
        PlanView::Scan { table, source_id, yield_fn } => PlanView::Scan {
            table,
            source_id,
            yield_fn: Box::new(remap(*yield_fn, mapping)),
        },
        PlanView::MapEach { source_id, yield_in_fn, yield_out_fn } => PlanView::MapEach {
            source_id,
            yield_in_fn: Box::new(remap(*yield_in_fn, mapping)),
            yield_out_fn: Box::new(remap(*yield_out_fn, mapping)),
        },
        PlanView::TempGroupBy {
            source_id,
            yield_in_fn,
            group_by_values,
            yield_out_fn,
        } => PlanView::TempGroupBy {
            source_id,
            yield_in_fn: Box::new(remap(*yield_in_fn, mapping)),
            group_by_values: remap_all(group_by_values, mapping),
            yield_out_fn: Box::new(remap(*yield_out_fn, mapping)),
        },
        PlanView::Yield { fields } => PlanView::Yield { fields: remap_all(fields, mapping) },
        PlanView::If { predicate, yield_fn } => PlanView::If {
            predicate: Box::new(remap(*predicate, mapping)),
            yield_fn: Box::new(remap(*yield_fn, mapping)),
        },
        PlanView::LeftJoin {
            source_id,
            yield_in_fn,
            predicate,
            yield_out_fn,
            right_rows_if_none,
        } => PlanView::LeftJoin {
            source_id,
            yield_in_fn: Box::new(remap(*yield_in_fn, mapping)),
            predicate: Box::new(remap(*predicate, mapping)),
            yield_out_fn: Box::new(remap(*yield_out_fn, mapping)),
            right_rows_if_none,
        },
        PlanView::UnaryOp { op, expr } => PlanView::UnaryOp {
            op,
            expr: Box::new(remap(*expr, mapping)),
        },
        PlanView::BinaryOp { op, lhs, rhs } => PlanView::BinaryOp {
            op,
            lhs: Box::new(remap(*lhs, mapping)),
            rhs: Box::new(remap(*rhs, mapping)),
        },
        PlanView::AggregateOp { op, source_id, value } => PlanView::AggregateOp {
            op,
            source_id,
            value: Box::new(remap(*value, mapping)),
        },
        PlanView::CountAll { .. } => p,
        PlanView::Value(_) => p,
    }
}

/// `n` NULLs.
pub open spec fn nulls(n: u32) -> Seq<Value> {
    Seq::new(n as nat, |i: int| Value::Null)
}

/// The name of a column that has none: `_` and a number.
pub open spec fn arbitrary_name(counter: nat) -> Seq<char> {
    seq!['_'] + decimal_chars(counter)
}

/// The plan of a grouped query: the rows of the `FROM`, with every column
/// of every source, are grouped by the grouping expressions; for each
/// group that passes `HAVING` one row of the selected columns is made.
pub open spec fn grouped_plan(
    frame: Seq<ScopeTable>,
    steps: Seq<StepView>,
    grouped: u32,
    group_by: Seq<PlanView>,
    having: Option<PlanView>,
    fields: Seq<PlanView>,
) -> PlanView {
    let mapping = frame_mapping(frame, grouped, 0, 0, Map::empty());
    let every = PlanView::Yield { fields: frame_fields(frame, 0, Seq::empty()) };
    let out = PlanView::Yield { fields };
    let guarded = match having {
        Some(h) => PlanView::If { predicate: Box::new(h), yield_fn: Box::new(out) },
        None => out,
    };
    PlanView::TempGroupBy {
        source_id: grouped,
        yield_in_fn: Box::new(nest(steps, every)),
        group_by_values: remap_all(group_by, mapping),
        yield_out_fn: Box::new(remap(guarded, mapping)),
    }
}

/// What compiling an expression gives: the plan, the numbers handed out,
/// and the innermost query referred to.
pub type ExprOutcome = Result<(PlanView, Ids, Option<u32>), CompileErrorView>;

/// What compiling a statement gives: the plan, the names of its columns,
/// the numbers handed out, and the innermost query referred to.
pub type SelectOutcome = Result<(PlanView, Seq<Seq<char>>, Ids, Option<u32>), CompileErrorView>;

/// What compiling a `FROM` gives: its sources, the steps of its plan, the
/// numbers handed out, and the innermost query referred to.
pub type FromOutcome = Result<
    (Seq<ScopeTable>, Seq<StepView>, Ids, Option<u32>),
    CompileErrorView,
>;

/// The sources of the scope's innermost `FROM`.
pub open spec fn innermost(scope: ScopeView) -> Seq<ScopeTable> {
    if scope.len() > 0 {
        scope.last()
    } else {
        Seq::empty()
    }
}

/// The plan of a column reference.
pub open spec fn column_plan(
    scope: ScopeView,
    alias: Option<Seq<char>>,
    name: Seq<char>,
    ids: Ids,
    groups: Option<u32>,
) -> ExprOutcome {
    match lookup_column(scope, alias, name) {
        GetColumnOffsetResult::One((source_id, column_offset)) => Ok(
            (
                PlanView::ColumnField { source_id, column_offset },
                ids,
                add_query_id(groups, query_of(ids, source_id)),
            ),
        ),
        GetColumnOffsetResult::NotFound => Err(CompileErrorView::ColumnDoesNotExist(name)),
        GetColumnOffsetResult::Ambiguous => Err(CompileErrorView::AmbiguousColumnName(name)),
    }
}

/// The plan of an aggregate function whose argument has the plan `value`
/// and refers to the queries in `inner`: the function works on the groups
/// of the innermost of them, which must not lie inside the expression.
pub open spec fn aggregate_plan(
    op: AggregateOp,
    value: PlanView,
    query_id: u32,
    ids: Ids,
    inner: Option<u32>,
    groups: Option<u32>,
) -> ExprOutcome {
    match inner {
        Some(aggregated) => if aggregated <= query_id {
            match grouped_source(ids, aggregated) {
                Ok((source_id, ids1)) => Ok(
                    (PlanView::AggregateOp { op, source_id, value: Box::new(value) }, ids1, groups),
                ),
                Err(e) => Err(e),
            }
        } else {
            Err(CompileErrorView::AggregateFunctionHasNoQueryToAggregate)
        },
        None => Err(CompileErrorView::AggregateFunctionHasNoQueryToAggregate),
    }
}

/// The plan of an expression of query `query_id` under the sources in
/// `scope`.
pub open spec fn expr_plan(floats: FloatModel,
    db: &TempDb,
    query_id: u32,
    e: &ast::Expression,
    scope: ScopeView,
    ids: Ids,
    groups: Option<u32>,
) -> ExprOutcome
    decreases e, 0nat, 0nat,
{
    match e {
        ast::Expression::Ident(s) => match name_of(s@) {
            Ok(name) => column_plan(scope, None, name, ids, groups),
            Err(x) => Err(x),
        },
        ast::Expression::IdentMember(s1, s2) => match name_of(s1@) {
            Ok(table) => match name_of(s2@) {
                Ok(name) => column_plan(scope, Some(table), name, ids, groups),
                Err(x) => Err(x),
            },
            Err(x) => Err(x),
        },
        ast::Expression::UnaryOp { expr, op } => match expr_plan(floats,
            db,
            query_id,
            expr,
            scope,
            ids,
            groups,
        ) {
            Ok((p, ids1, g1)) => Ok(
                (PlanView::UnaryOp { op: unary_op_of(*op), expr: Box::new(p) }, ids1, g1),
            ),
            Err(x) => Err(x),
        },
        ast::Expression::BinaryOp { lhs, rhs, op } => match expr_plan(floats,
            db,
            query_id,
            lhs,
            scope,
            ids,
            groups,
        ) {
            Ok((l, ids1, g1)) => match expr_plan(floats, db, query_id, rhs, scope, ids1, g1) {
                Ok((r, ids2, g2)) => Ok(
                    (
                        PlanView::BinaryOp {
                            op: binary_op_of(*op),
                            lhs: Box::new(l),
                            rhs: Box::new(r),
                        },
                        ids2,
                        g2,
                    ),
                ),
                Err(x) => Err(x),
            },
            Err(x) => Err(x),
        },
        ast::Expression::StringLiteral(s) => Ok(
            (PlanView::Value(Value::StringLiteral(s@)), ids, groups),
        ),
        ast::Expression::Number(s) => match Value::from_number_literal(floats, s@) {
            Some(v) => Ok((PlanView::Value(v), ids, groups)),
            None => Err(CompileErrorView::BadNumberLiteral(s@)),
        },
        ast::Expression::Null => Ok((PlanView::Value(Value::Null), ids, groups)),
        ast::Expression::Subquery(subquery) => match new_source(ids, query_id) {
            Ok((source_id, ids1)) => match new_query(ids1) {
                Ok((sub, ids2)) => match select_plan(
                    floats,
                    db,
                    sub,
                    subquery,
                    scope,
                    ids2,
                    groups,
                ) {
                    Ok((plan, names, ids3, g3)) => Ok(
                        (
                            PlanView::MapEach {
                                source_id,
                                yield_in_fn: Box::new(plan),
                                yield_out_fn: Box::new(
                                    PlanView::ColumnField { source_id, column_offset: 0 },
                                ),
                            },
                            ids3,
                            g3,
                        ),
                    ),
                    Err(x) => Err(x),
                },
                Err(x) => Err(x),
            },
            Err(x) => Err(x),
        },
        ast::Expression::FunctionCall { name, arguments } => match name_of(name@) {
            Ok(ident) => match aggregate_of(ident) {
                Some(op) => if arguments@.len() != 1 {
                    Err(CompileErrorView::AggregateFunctionRequiresOneArgument)
                } else {
                    match expr_plan(floats, db, query_id, &arguments@[0], scope, ids, None) {
                        Ok((value, ids1, inner)) => aggregate_plan(
                            op,
                            value,
                            query_id,
                            ids1,
                            inner,
                            groups,
                        ),
                        Err(x) => Err(x),
                    }
                },
                None => Err(CompileErrorView::UnknownFunctionName(ident)),
            },
            Err(x) => Err(x),
        },
        ast::Expression::FunctionCallAggregateAll { name } => match name_of(name@) {
            Ok(ident) => if ident == "count"@ {
                match grouped_source(ids, query_id) {
                    Ok((source_id, ids1)) => Ok((PlanView::CountAll { source_id }, ids1, groups)),
                    Err(x) => Err(x),
                }
            } else {
                Err(CompileErrorView::AggregateAllMustBeCount(ident))
            },
            Err(x) => Err(x),
        },
    }
}

/// The source that a table or a subquery of a `FROM` makes, and the step
/// that scans it.
pub open spec fn table_source(floats: FloatModel,
    db: &TempDb,
    query_id: u32,
    t: &ast::TableOrSubquery,
    outer: ScopeView,
    ids: Ids,
    groups: Option<u32>,
) -> Result<(ScopeTable, StepView, Ids, Option<u32>), CompileErrorView>
    decreases t, 0nat, 0nat,
{
    match t {
        ast::TableOrSubquery::Subquery { subquery, alias } => match new_query(ids) {
            Ok((sub, ids1)) => match select_plan(floats, db, sub, subquery, outer, ids1, groups) {
                Ok((plan, names, ids2, g2)) => match name_of(alias@) {
                    Ok(a) => match new_source(ids2, query_id) {
                        Ok((source_id, ids3)) => Ok(
                            (
                                ScopeTable { source_id, names, alias: Some(a) },
                                StepView::Subquery { source_id, expr: plan },
                                ids3,
                                g2,
                            ),
                        ),
                        Err(x) => Err(x),
                    },
                    Err(x) => Err(x),
                },
                Err(x) => Err(x),
            },
            Err(x) => Err(x),
        },
        ast::TableOrSubquery::Table { table, alias } => match name_of(table.table_name@) {
            Ok(table_name) => match db.table_index(table_name) {
                Some(k) => {
                    let alias_name = match alias {
                        Some(a) => name_of(a@),
                        None => Ok(table_name),
                    };
                    match alias_name {
                        Ok(a) => match new_source(ids, query_id) {
                            Ok((source_id, ids1)) => Ok(
                                (
                                    ScopeTable {
                                        source_id,
                                        names: db.tables@[k].column_names(),
                                        alias: Some(a),
                                    },
                                    StepView::Scan { source_id, table: db.tables@[k] },
                                    ids1,
                                    groups,
                                ),
                            ),
                            Err(x) => Err(x),
                        },
                        Err(x) => Err(x),
                    }
                },
                None => Err(CompileErrorView::TableDoesNotExist(table_name)),
            },
            Err(x) => Err(x),
        },
    }
}

/// The sources and steps of the tables of a comma-separated `FROM` from
/// `from` on, behind those in `frame` and `steps`.
pub open spec fn cross_tables(floats: FloatModel,
    db: &TempDb,
    query_id: u32,
    stmt: &ast::SelectStatement,
    outer: ScopeView,
    ids: Ids,
    groups: Option<u32>,
    from: int,
    frame: Seq<ScopeTable>,
    steps: Seq<StepView>,
) -> FromOutcome
    decreases stmt, 1nat, from_len(stmt) - from,
{
    match &stmt.from {
        ast::From::Cross(tables) => if 0 <= from < tables@.len() {
            match table_source(floats, db, query_id, &tables@[from], outer, ids, groups) {
                Ok((table, step, ids1, g1)) => cross_tables(floats,
                    db,
                    query_id,
                    stmt,
                    outer,
                    ids1,
                    g1,
                    from + 1,
                    frame.push(table),
                    steps.push(step),
                ),
                Err(x) => Err(x),
            }
        } else {
            Ok((frame, steps, ids, groups))
        },
        _ => Ok((frame, steps, ids, groups)),
    }
}

/// The number of tables of a comma-separated `FROM`, or of joins of a
/// `FROM` with joins.
pub open spec fn from_len(stmt: &ast::SelectStatement) -> nat {
    match &stmt.from {
        ast::From::Cross(tables) => tables@.len(),
        ast::From::Join { joins, .. } => joins@.len(),
    }
}

/// The step by which a left join scans its right side: the plan of the
/// right source around a row of all its columns.
pub open spec fn left_join_step(
    table: ScopeTable,
    step: StepView,
    source_id: u32,
    on: PlanView,
) -> StepView {
    let count = column_count(table.names.len());
    StepView::LeftJoin {
        source_id,
        table: apply_step(
            step,
            PlanView::Yield { fields: source_fields(table.source_id, count) },
        ),
        on,
        right_rows_if_none: nulls(count),
    }
}

/// The sources and steps of the joins of a `FROM` from `from` on, behind
/// those in `frame` and `steps`. The condition of a join sees the sources
/// joined so far; the joined source itself sees only the sources around
/// the statement.
pub open spec fn join_tables(floats: FloatModel,
    db: &TempDb,
    query_id: u32,
    stmt: &ast::SelectStatement,
    outer: ScopeView,
    ids: Ids,
    groups: Option<u32>,
    from: int,
    frame: Seq<ScopeTable>,
    steps: Seq<StepView>,
) -> FromOutcome
    decreases stmt, 1nat, from_len(stmt) - from,
{
    match &stmt.from {
        ast::From::Join { joins, .. } => if 0 <= from < joins@.len() {
            let join = &joins@[from];
            match table_source(floats, db, query_id, &join.table, outer, ids, groups) {
                Ok((table, step, ids1, g1)) => match join.operator {
                    ast::JoinOperator::Inner => {
                        let frame1 = frame.push(table);
                        match expr_plan(
                            floats,
                            db,
                            query_id,
                            &join.on,
                            outer.push(frame1),
                            ids1,
                            g1,
                        ) {
                            Ok((on, ids2, g2)) => join_tables(floats,
                                db,
                                query_id,
                                stmt,
                                outer,
                                ids2,
                                g2,
                                from + 1,
                                frame1,
                                steps.push(step).push(StepView::Filter { predicate: on }),
                            ),
                            Err(x) => Err(x),
                        }
                    },
                    ast::JoinOperator::Left => match new_source(ids1, query_id) {
                        Ok((source_id, ids2)) => {
                            let frame1 = frame.push(
                                ScopeTable { source_id, names: table.names, alias: table.alias },
                            );
                            match expr_plan(
                                floats,
                                db,
                                query_id,
                                &join.on,
                                outer.push(frame1),
                                ids2,
                                g1,
                            ) {
                                Ok((on, ids3, g2)) => join_tables(floats,
                                    db,
                                    query_id,
                                    stmt,
                                    outer,
                                    ids3,
                                    g2,
                                    from + 1,
                                    frame1,
                                    steps.push(left_join_step(table, step, source_id, on)),
                                ),
                                Err(x) => Err(x),
                            }
                        },
                        Err(x) => Err(x),
                    },
                },
                Err(x) => Err(x),
            }
        } else {
            Ok((frame, steps, ids, groups))
        },
        _ => Ok((frame, steps, ids, groups)),
    }
}

/// The sources and steps of a `FROM` with joins.
pub open spec fn join_sources(floats: FloatModel,
    db: &TempDb,
    query_id: u32,
    stmt: &ast::SelectStatement,
    outer: ScopeView,
    ids: Ids,
    groups: Option<u32>,
) -> FromOutcome
    decreases stmt, 1nat, from_len(stmt) + 1,
{
    match &stmt.from {
        ast::From::Join { table, joins } => match table_source(floats,
            db,
            query_id,
            table,
            outer,
            ids,
            groups,
        ) {
            Ok((first, step, ids1, g1)) => join_tables(floats,
                db,
                query_id,
                stmt,
                outer,
                ids1,
                g1,
                0,
                seq![first],
                seq![step],
            ),
            Err(x) => Err(x),
        },
        _ => Ok((Seq::empty(), Seq::empty(), ids, groups)),
    }
}

/// The sources and steps of a `FROM` with its `WHERE`.
pub open spec fn from_steps(floats: FloatModel,
    db: &TempDb,
    query_id: u32,
    stmt: &ast::SelectStatement,
    outer: ScopeView,
    ids: Ids,
    groups: Option<u32>,
) -> FromOutcome
    decreases stmt, 2nat, 0nat,
{
    let sources = match &stmt.from {
        ast::From::Cross(tables) => cross_tables(floats,
            db,
            query_id,
            stmt,
            outer,
            ids,
            groups,
            0,
            Seq::empty(),
            Seq::empty(),
        ),
        ast::From::Join { .. } => join_sources(floats, db, query_id, stmt, outer, ids, groups),
    };
    match sources {
        Ok((frame, steps, ids1, g1)) => match &stmt.where_expr {
            Some(w) => match expr_plan(floats, db, query_id, w, outer.push(frame), ids1, g1) {
                Ok((predicate, ids2, g2)) => Ok(
                    (frame, steps.push(StepView::Filter { predicate }), ids2, g2),
                ),
                Err(x) => Err(x),
            },
            None => Ok((frame, steps, ids1, g1)),
        },
        Err(x) => Err(x),
    }
}

/// The plans of the grouping expressions from `from` on, behind `done`.
pub open spec fn group_by_plans(floats: FloatModel,
    db: &TempDb,
    query_id: u32,
    stmt: &ast::SelectStatement,
    scope: ScopeView,
    ids: Ids,
    groups: Option<u32>,
    from: int,
    done: Seq<PlanView>,
) -> Result<(Seq<PlanView>, Ids, Option<u32>), CompileErrorView>
    decreases stmt, 1nat, stmt.group_by@.len() - from,
{
    if 0 <= from < stmt.group_by@.len() {
        match expr_plan(floats, db, query_id, &stmt.group_by@[from], scope, ids, groups) {
            Ok((p, ids1, g1)) => group_by_plans(floats,
                db,
                query_id,
                stmt,
                scope,
                ids1,
                g1,
                from + 1,
                done.push(p),
            ),
            Err(x) => Err(x),
        }
    } else {
        Ok((done, ids, groups))
    }
}

/// The plans of `GROUP BY` and `HAVING`. A statement that groups hands on
/// its groups under a source of its own.
pub open spec fn grouping_plans(floats: FloatModel,
    db: &TempDb,
    query_id: u32,
    stmt: &ast::SelectStatement,
    scope: ScopeView,
    ids: Ids,
    groups: Option<u32>,
) -> Result<(Seq<PlanView>, Option<PlanView>, Ids, Option<u32>), CompileErrorView>
    decreases stmt, 2nat, 0nat,
{
    if stmt.group_by@.len() == 0 {
        Ok((Seq::empty(), None, ids, groups))
    } else {
        match grouped_source(ids, query_id) {
            Ok((_, ids1)) => match group_by_plans(floats,
                db,
                query_id,
                stmt,
                scope,
                ids1,
                groups,
                0,
                Seq::empty(),
            ) {
                Ok((group_by, ids2, g2)) => match &stmt.having {
                    Some(h) => match expr_plan(floats, db, query_id, h, scope, ids2, g2) {
                        Ok((having, ids3, g3)) => Ok((group_by, Some(having), ids3, g3)),
                        Err(x) => Err(x),
                    },
                    None => Ok((group_by, None, ids2, g2)),
                },
                Err(x) => Err(x),
            },
            Err(x) => Err(x),
        }
    }
}

/// What compiling the selected columns gives: their names, their plans,
/// the numbers handed out, and the innermost query referred to.
pub type ColumnsOutcome = Result<
    (Seq<Seq<char>>, Seq<PlanView>, Ids, Option<u32>),
    CompileErrorView,
>;

/// The names and plans of the selected columns from `from` on, behind
/// those in `names` and `fields`. `*` stands for every column of every
/// source of the `FROM`. A column without an alias is named by the
/// identifier it consists of, or else by `_` and the next number.
pub open spec fn select_columns(floats: FloatModel,
    db: &TempDb,
    query_id: u32,
    stmt: &ast::SelectStatement,
    scope: ScopeView,
    ids: Ids,
    groups: Option<u32>,
    from: int,
    counter: nat,
    names: Seq<Seq<char>>,
    fields: Seq<PlanView>,
) -> ColumnsOutcome
    decreases stmt, 1nat, stmt.result_columns@.len() - from,
{
    if 0 <= from < stmt.result_columns@.len() {
        match &stmt.result_columns@[from] {
            ast::SelectColumn::AllColumns => select_columns(floats,
                db,
                query_id,
                stmt,
                scope,
                ids,
                add_query_id(groups, query_id),
                from + 1,
                counter,
                frame_names(innermost(scope), 0, names),
                frame_fields(innermost(scope), 0, fields),
            ),
            ast::SelectColumn::Expr { expr, alias } => {
                let named = match alias {
                    Some(a) => (name_of(a@), counter),
                    None => match expr {
                        ast::Expression::Ident(n) => (name_of(n@), counter),
                        _ => (name_of(arbitrary_name(counter)), counter + 1),
                    },
                };
                match named.0 {
                    Ok(name) => match expr_plan(floats, db, query_id, expr, scope, ids, groups) {
                        Ok((p, ids1, g1)) => select_columns(floats,
                            db,
                            query_id,
                            stmt,
                            scope,
                            ids1,
                            g1,
                            from + 1,
                            named.1,
                            names.push(name),
                            fields.push(p),
                        ),
                        Err(x) => Err(x),
                    },
                    Err(x) => Err(x),
                }
            },
        }
    } else {
        Ok((names, fields, ids, groups))
    }
}

/// The plan of a `SELECT` that is query `query_id`, under the sources of
/// the statements around it, with the names of its columns.
pub open spec fn select_plan(floats: FloatModel,
    db: &TempDb,
    query_id: u32,
    stmt: &ast::SelectStatement,
    outer: ScopeView,
    ids: Ids,
    groups: Option<u32>,
) -> SelectOutcome
    decreases stmt, 3nat, 0nat,
{
    if stmt.order_by@.len() > 0 {
        Err(CompileErrorView::OrderByNotImplemented)
    } else {
        match from_steps(floats, db, query_id, stmt, outer, ids, groups) {
            Ok((frame, steps, ids1, g1)) => {
                let scope = outer.push(frame);
                match grouping_plans(floats, db, query_id, stmt, scope, ids1, g1) {
                    Ok((group_by, having, ids2, g2)) => match select_columns(floats,
                        db,
                        query_id,
                        stmt,
                        scope,
                        ids2,
                        g2,
                        0,
                        0,
                        Seq::empty(),
                        Seq::empty(),
                    ) {
                        Ok((names, fields, ids3, g3)) => match grouped_of(ids3, query_id) {
                            Some(grouped) => Ok(
                                (
                                    grouped_plan(frame, steps, grouped, group_by, having, fields),
                                    names,
                                    ids3,
                                    g3,
                                ),
                            ),
                            None => Ok((nest(steps, PlanView::Yield { fields }), names, ids3, g3)),
                        },
                        Err(x) => Err(x),
                    },
                    Err(x) => Err(x),
                }
            },
            Err(x) => Err(x),
        }
    }
}

} // verus!
