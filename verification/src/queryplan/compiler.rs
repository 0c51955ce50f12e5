//! Compiling statements into plans.

use vstd::prelude::*;
use std::collections::HashMap;
use crate::databaseinfo::TableInfo;
use crate::floatops::{FloatModel, FloatOps};
use crate::identifier::Identifier;
use crate::queryplan::columnnames::{names_view, ColumnNames};
use crate::queryplan::execute::groupbuckets::clone_row;
use crate::queryplan::planning::{
    add_offsets, add_query_id, aggregate_of, aggregate_plan, apply_step, column_count, column_plan,
    cross_tables, expr_plan, find_mapping, first_ids, frame_fields, frame_mapping, frame_names,
    from_steps, group_by_plans, grouping_plans, innermost, join_sources, join_tables,
    left_join_step, nest, nulls, remap, remap_all, select_columns, select_plan, source_fields,
    source_names, table_source, ColumnsOutcome, CompileErrorView, ExprOutcome, FromOutcome, Ids,
    Mapping, SelectOutcome, StepView,
};
use crate::queryplan::sexpression::{
    plan_text, plans_view, AggregateOp, BinaryOp, PlanView, SExpression, UnaryOp,
};
use crate::queryplan::source::{
    frame_view, scope_view, GetColumnOffsetResult, ScopeTable, SourceScope, TableOrSubquery,
};
use crate::queryplan::{
    ast_binaryop_to_sexpression_binaryop, ast_unaryop_to_sexpression_unaryop, new_identifier,
    CompileState, GroupsInfo, QueryPlan, QueryPlanCompileError,
};
use crate::sqlsyntax::ast;
use crate::tempdb::table::Table;
use crate::tempdb::TempDb;
use crate::text::{push_decimal, push_str, str_eq, string_of};
use crate::types::variant::{row_view, Value, Variant};

verus! {

#[allow(inconsistent_fields)]
#[allow(inconsistent_fields)]
/// One step of a `FROM` with its `WHERE`.
pub enum FromWhereStep<'a> {
    Scan { source_id: u32, table: &'a Table },
    Subquery { source_id: u32, expr: SExpression<'a> },
    Filter { predicate: SExpression<'a> },
    LeftJoin {
        source_id: u32,
        table: SExpression<'a>,
        on: SExpression<'a>,
        right_rows_if_none: Vec<Variant>,
    },
}

impl<'a> View for FromWhereStep<'a> {
    type V = StepView;

    open spec fn view(&self) -> StepView {
        match self {
            FromWhereStep::Scan { source_id, table } => StepView::Scan {
                source_id: *source_id,
                table: **table,
            },
            FromWhereStep::Subquery { source_id, expr } => StepView::Subquery {
                source_id: *source_id,
                expr: expr@,
            },
            FromWhereStep::Filter { predicate } => StepView::Filter { predicate: predicate@ },
            FromWhereStep::LeftJoin {
                source_id,
                table,
                on,
                right_rows_if_none,
            } => StepView::LeftJoin {
                source_id: *source_id,
                table: table@,
                on: on@,
                right_rows_if_none: row_view(right_rows_if_none@),
            },
        }
    }
}

/// The steps that a list of steps stands for.
pub open spec fn steps_view(steps: Seq<FromWhereStep<'_>>) -> Seq<StepView> {
    Seq::new(steps.len(), |i: int| steps[i]@)
}

/// A compiled `FROM` with its `WHERE`: the steps that are put around the
/// plan of the columns, the first step outermost.
pub struct FromWhere<'a> {
    pub steps: Vec<FromWhereStep<'a>>,
}

impl<'a> FromWhereStep<'a> {
    /// The plan with this step around it.
    pub fn into_sexpr(self, nested_expr: SExpression<'a>) -> (r: SExpression<'a>)
        ensures
            r@ == apply_step(self@, nested_expr@),
    {
        match self {
            FromWhereStep::Subquery { source_id, expr } => SExpression::MapEach {
                source_id,
                yield_in_fn: Box::new(expr),
                yield_out_fn: Box::new(nested_expr),
            },
            FromWhereStep::Scan { source_id, table } => SExpression::Scan {
                source_id,
                table,
                yield_fn: Box::new(nested_expr),
            },
            FromWhereStep::Filter { predicate } => SExpression::If {
                predicate: Box::new(predicate),
                yield_fn: Box::new(nested_expr),
            },
            FromWhereStep::LeftJoin { source_id, table, on, right_rows_if_none } => {
                SExpression::LeftJoin {
                    source_id,
                    yield_in_fn: Box::new(table),
                    predicate: Box::new(on),
                    yield_out_fn: Box::new(nested_expr),
                    right_rows_if_none,
                }
            },
        }
    }
}

impl<'a> FromWhere<'a> {
    /// The plan with the steps around it.
    pub fn evaluate(self, inner_expr: SExpression<'a>) -> (r: SExpression<'a>)
        ensures
            r@ == nest(steps_view(self.steps@), inner_expr@),
    {
        let ghost wanted = nest(steps_view(self.steps@), inner_expr@);
        let mut steps = self.steps;
        let mut expr = inner_expr;
        while steps.len() > 0
            invariant
                nest(steps_view(steps@), expr@) == wanted,
            decreases steps@.len(),
        {
            let ghost before = steps_view(steps@);
            match steps.pop() {
                Some(step) => {
                    proof {
                        assert(steps_view(steps@) =~= before.drop_last());
                        assert(step@ == before.last());
                    }
                    expr = step.into_sexpr(expr);
                },
                None => {},
            }
        }
        expr
    }
}

/// A number of columns as a 32-bit number.
pub fn count_columns(n: usize) -> (r: u32)
    ensures
        r == column_count(n as nat),
{
    if n > u32::MAX as usize {
        u32::MAX
    } else {
        n as u32
    }
}

/// Puts the first `n` columns of a source behind `fields`.
pub fn push_source_fields<'a>(fields: &mut Vec<SExpression<'a>>, source_id: u32, n: u32)
    ensures
        plans_view(final(fields)@) == plans_view(old(fields)@) + source_fields(source_id, n),
{
    let ghost before = plans_view(fields@);
    let mut i: u32 = 0;
    proof {
        assert(plans_view(fields@) =~= before + source_fields(source_id, 0));
    }
    while i < n
        invariant
            i <= n,
            plans_view(fields@) == before + source_fields(source_id, i),
        decreases n - i,
    {
        let ghost so_far = fields@;
        fields.push(SExpression::ColumnField { source_id, column_offset: i });
        proof {
            assert(plans_view(fields@) =~= plans_view(so_far).push(
                PlanView::ColumnField { source_id, column_offset: i },
            ));
            assert(plans_view(fields@) =~= before + source_fields(source_id, (i + 1) as u32));
        }
        i = i + 1;
    }
}

/// Puts every column of every source of the innermost `FROM` behind
/// `names` and `fields`.
pub fn push_all_columns<'a>(
    scope: Option<&SourceScope<'_>>,
    names: &mut Vec<Identifier>,
    fields: &mut Vec<SExpression<'a>>,
)
    ensures
        names_view(final(names)@) == frame_names(
            innermost(scope_view(scope)),
            0,
            names_view(old(names)@),
        ),
        plans_view(final(fields)@) == frame_fields(
            innermost(scope_view(scope)),
            0,
            plans_view(old(fields)@),
        ),
{
    let s = match scope {
        Some(s) => s,
        None => {
            return ;
        },
    };
    let ghost frame = innermost(scope_view(scope));
    proof {
        assert(frame == frame_view(s.tables@, s.table_aliases@));
    }
    let mut t: usize = 0;
    while t < s.tables.len()
        invariant
            t <= s.tables@.len(),
            frame == frame_view(s.tables@, s.table_aliases@),
            frame_names(frame, 0, names_view(old(names)@)) == frame_names(
                frame,
                t as int,
                names_view(names@),
            ),
            frame_fields(frame, 0, plans_view(old(fields)@)) == frame_fields(
                frame,
                t as int,
                plans_view(fields@),
            ),
        decreases s.tables@.len() - t,
    {
        let table = &s.tables[t];
        let n: u32 = count_columns(table.out_column_names.len());
        let ghost names_before = names_view(names@);
        let ghost shown = table.out_column_names@;
        let mut i: u32 = 0;
        proof {
            assert(names_view(names@) =~= names_before + source_names(shown, 0));
        }
        while i < n
            invariant
                i <= n,
                n == column_count(shown.len()),
                shown == table.out_column_names@,
                names_view(names@) == names_before + source_names(shown, i),
            decreases n - i,
        {
            let ghost so_far = names@;
            names.push(table.out_column_names.column_names[i as usize].clone());
            proof {
                assert(names_view(names@) =~= names_view(so_far).push(shown[i as int]));
                assert(names_view(names@) =~= names_before + source_names(shown, (i + 1) as u32));
            }
            i = i + 1;
        }
        push_source_fields(fields, table.source_id, n);
        t = t + 1;
    }
}

/// `n` NULLs.
pub fn null_row(n: u32) -> (r: Vec<Variant>)
    ensures
        row_view(r@) == nulls(n),
{
    let mut row: Vec<Variant> = Vec::new();
    let mut i: u32 = 0;
    while i < n
        invariant
            i <= n,
            row@.len() == i,
            forall|j: int| 0 <= j < i ==> row@[j]@ == Value::Null,
        decreases n - i,
    {
        row.push(Variant::Null);
        i = i + 1;
    }
    proof {
        assert(row_view(row@) =~= nulls(n));
    }
    row
}

/// The entry of the mapping for the source.
fn lookup_mapping(mapping: &HashMap<u32, Mapping>, source_id: u32) -> (r: Option<Mapping>)
    ensures
        r == find_mapping(mapping@, source_id),
{
    match mapping.get(&source_id) {
        Some(m) => Some(*m),
        None => None,
    }
}

fn saturating_offset(a: u32, b: u32) -> (r: u32)
    ensures
        r == add_offsets(a, b),
{
    if a > u32::MAX - b {
        u32::MAX
    } else {
        a + b
    }
}

/// The plans of a list with every column of a mapped source rewired.
#[verifier::loop_isolation(false)]
fn remap_list<'a>(
    list: &Vec<SExpression<'a>>,
    mapping: &HashMap<u32, Mapping>,
) -> (r: Vec<SExpression<'a>>)
    ensures
        plans_view(r@) == remap_all(plans_view(list@), mapping@),
    decreases list,
{
    let mut out: Vec<SExpression<'a>> = Vec::new();
    let mut i: usize = 0;
    while i < list.len()
        invariant
            i <= list@.len(),
            out@.len() == i,
            forall|j: int| 0 <= j < i ==> (#[trigger] out@[j])@ == remap(list@[j]@, mapping@),
        decreases list@.len() - i,
    {
        out.push(remap_columns_in_sexpression(&list[i], mapping));
        i = i + 1;
    }
    proof {
        assert(plans_view(out@) =~= remap_all(plans_view(list@), mapping@));
    }
    out
}

/// The plan with every column of a mapped source rewired to the column of
/// the group that holds it.
pub fn remap_columns_in_sexpression<'a>(
    expr: &SExpression<'a>,
    mapping: &HashMap<u32, Mapping>,
) -> (r:
    SExpression<'a>)
    ensures
        r@ == remap(expr@, mapping@),
    decreases expr,
{
    match expr {
        SExpression::ColumnField { source_id, column_offset } => {
            match lookup_mapping(mapping, *source_id) {
                Some(m) => SExpression::ColumnField {
                    source_id: m.source_id,
                    column_offset: saturating_offset(*column_offset, m.column_offset),
                },
                None => SExpression::ColumnField {
                    source_id: *source_id,
                    column_offset: *column_offset,
                },
            }
        },
        SExpression::Scan { table, source_id, yield_fn } => SExpression::Scan {
            table: *table,
            source_id: *source_id,
            yield_fn: Box::new(remap_columns_in_sexpression(yield_fn, mapping)),
        },
        SExpression::MapEach { source_id, yield_in_fn, yield_out_fn } => SExpression::MapEach {
            source_id: *source_id,
            yield_in_fn: Box::new(remap_columns_in_sexpression(yield_in_fn, mapping)),
            yield_out_fn: Box::new(remap_columns_in_sexpression(yield_out_fn, mapping)),
        },
        SExpression::TempGroupBy { source_id, yield_in_fn, group_by_values, yield_out_fn } => {
            SExpression::TempGroupBy {
                source_id: *source_id,
                yield_in_fn: Box::new(remap_columns_in_sexpression(yield_in_fn, mapping)),
                group_by_values: remap_list(group_by_values, mapping),
                yield_out_fn: Box::new(remap_columns_in_sexpression(yield_out_fn, mapping)),
            }
        },
        SExpression::Yield { fields } => SExpression::Yield { fields: remap_list(fields, mapping) },
        SExpression::If { predicate, yield_fn } => SExpression::If {
            predicate: Box::new(remap_columns_in_sexpression(predicate, mapping)),
            yield_fn: Box::new(remap_columns_in_sexpression(yield_fn, mapping)),
        },
        SExpression::LeftJoin {
            source_id,
            yield_in_fn,
            predicate,
            yield_out_fn,
            right_rows_if_none,
        } => SExpression::LeftJoin {
            source_id: *source_id,
            yield_in_fn: Box::new(remap_columns_in_sexpression(yield_in_fn, mapping)),
            predicate: Box::new(remap_columns_in_sexpression(predicate, mapping)),
            yield_out_fn: Box::new(remap_columns_in_sexpression(yield_out_fn, mapping)),
            right_rows_if_none: clone_row(right_rows_if_none.as_slice()),
        },
        SExpression::UnaryOp { op, expr: inner } => SExpression::UnaryOp {
            op: *op,
            expr: Box::new(remap_columns_in_sexpression(inner, mapping)),
        },
        SExpression::BinaryOp { op, lhs, rhs } => SExpression::BinaryOp {
            op: *op,
            lhs: Box::new(remap_columns_in_sexpression(lhs, mapping)),
            rhs: Box::new(remap_columns_in_sexpression(rhs, mapping)),
        },
        SExpression::AggregateOp { op, source_id, value } => SExpression::AggregateOp {
            op: *op,
            source_id: *source_id,
            value: Box::new(remap_columns_in_sexpression(value, mapping)),
        },
        SExpression::CountAll { source_id } => SExpression::CountAll { source_id: *source_id },
        SExpression::Value(v) => SExpression::Value(v.clone()),
    }
}

/// Where the columns of the sources of the innermost `FROM` are found in
/// the rows of the group `grouped`.
pub fn group_mapping(scope: Option<&SourceScope<'_>>, grouped: u32) -> (r: HashMap<u32, Mapping>)
    ensures
        r@ == frame_mapping(innermost(scope_view(scope)), grouped, 0, 0, Map::empty()),
{
    let mut mapping: HashMap<u32, Mapping> = HashMap::new();
    let s = match scope {
        Some(s) => s,
        None => {
            return mapping;
        },
    };
    let ghost frame = innermost(scope_view(scope));
    proof {
        assert(frame == frame_view(s.tables@, s.table_aliases@));
    }
    let mut c: u32 = 0;
    let mut t: usize = 0;
    while t < s.tables.len()
        invariant
            t <= s.tables@.len(),
            frame == frame_view(s.tables@, s.table_aliases@),
            frame_mapping(frame, grouped, 0, 0, Map::empty()) == frame_mapping(
                frame,
                grouped,
                t as int,
                c,
                mapping@,
            ),
        decreases s.tables@.len() - t,
    {
        let table = &s.tables[t];
        mapping.insert(table.source_id, Mapping { source_id: grouped, column_offset: c });
        c = saturating_offset(c, count_columns(table.out_column_names.len()));
        t = t + 1;
    }
    mapping
}

/// What a compiled expression stands for.
pub open spec fn expr_outcome(
    r: Result<SExpression<'_>, QueryPlanCompileError>,
    state: CompileState,
    groups: GroupsInfo,
) -> ExprOutcome {
    match r {
        Ok(e) => Ok((e@, state@, groups@)),
        Err(x) => Err(x@),
    }
}

/// What a compiled statement stands for.
pub open spec fn select_outcome(
    r: Result<QueryPlan<'_>, QueryPlanCompileError>,
    state: CompileState,
    groups: GroupsInfo,
) -> SelectOutcome {
    match r {
        Ok(plan) => Ok((plan.expr@, names_view(plan.out_column_names@), state@, groups@)),
        Err(x) => Err(x@),
    }
}

/// The source that a compiled table or subquery stands for.
pub open spec fn scope_table_view(table: TableOrSubquery, alias: Identifier) -> ScopeTable {
    ScopeTable {
        source_id: table.source_id,
        names: table.out_column_names@,
        alias: Some(alias@),
    }
}

/// What a compiled table or subquery stands for.
pub open spec fn table_outcome(
    r: Result<((TableOrSubquery, FromWhereStep<'_>), Identifier), QueryPlanCompileError>,
    state: CompileState,
    groups: GroupsInfo,
) -> Result<(ScopeTable, StepView, Ids, Option<u32>), CompileErrorView> {
    match r {
        Ok(((table, step), alias)) => Ok(
            (scope_table_view(table, alias), step@, state@, groups@),
        ),
        Err(x) => Err(x@),
    }
}

/// What a compiled `FROM` stands for.
pub open spec fn from_outcome(
    r: Result<(SourceScope<'_>, FromWhere<'_>), QueryPlanCompileError>,
    state: CompileState,
    groups: GroupsInfo,
) -> FromOutcome {
    match r {
        Ok((scope, from_where)) => Ok(
            (
                frame_view(scope.tables@, scope.table_aliases@),
                steps_view(from_where.steps@),
                state@,
                groups@,
            ),
        ),
        Err(x) => Err(x@),
    }
}

/// What compiled columns stand for.
pub open spec fn columns_outcome(
    r: Result<(Vec<Identifier>, Vec<SExpression<'_>>), QueryPlanCompileError>,
    state: CompileState,
    groups: GroupsInfo,
) -> ColumnsOutcome {
    match r {
        Ok((names, fields)) => Ok((names_view(names@), plans_view(fields@), state@, groups@)),
        Err(x) => Err(x@),
    }
}

/// The plan of an optional expression.
pub open spec fn option_plan(e: Option<SExpression<'_>>) -> Option<PlanView> {
    match e {
        Some(e) => Some(e@),
        None => None,
    }
}

/// What compiled `GROUP BY` and `HAVING` stand for.
pub open spec fn grouping_outcome(
    r: Result<(Vec<SExpression<'_>>, Option<SExpression<'_>>), QueryPlanCompileError>,
    state: CompileState,
    groups: GroupsInfo,
) -> Result<(Seq<PlanView>, Option<PlanView>, Ids, Option<u32>), CompileErrorView> {
    match r {
        Ok((group_by, having)) => Ok(
            (plans_view(group_by@), option_plan(having), state@, groups@),
        ),
        Err(x) => Err(x@),
    }
}

/// The name that an optional identifier holds.
pub open spec fn option_name(alias: Option<&Identifier>) -> Option<Seq<char>> {
    match alias {
        Some(a) => Some(a@),
        None => None,
    }
}

/// The aggregate function of the given name.
pub fn aggregate_by_name(name: &Identifier) -> (r: Option<AggregateOp>)
    ensures
        r == aggregate_of(name@),
{
    if str_eq(name.as_slice(), "count") {
        Some(AggregateOp::Count)
    } else if str_eq(name.as_slice(), "avg") {
        Some(AggregateOp::Avg)
    } else if str_eq(name.as_slice(), "sum") {
        Some(AggregateOp::Sum)
    } else if str_eq(name.as_slice(), "min") {
        Some(AggregateOp::Min)
    } else if str_eq(name.as_slice(), "max") {
        Some(AggregateOp::Max)
    } else {
        None
    }
}

/// Compiles the expressions and statements of one query.
pub struct QueryCompiler<'a, 'h, F: FloatOps> {
    pub query_id: u32,
    pub db: &'a TempDb,
    pub host: &'h F,
}

impl<'a, 'h, F: FloatOps> QueryCompiler<'a, 'h, F> {
    /// The plan of a column reference.
    fn column(
        &self,
        scope: Option<&SourceScope<'_>>,
        alias: Option<&Identifier>,
        name: Identifier,
        state: &CompileState,
        groups_info: &mut GroupsInfo,
    ) -> (r: Result<SExpression<'a>, QueryPlanCompileError>)
        ensures
            expr_outcome(r, *state, *final(groups_info)) == column_plan(
                scope_view(scope),
                option_name(alias),
                name@,
                state@,
                old(groups_info)@,
            ),
    {
        let found = match scope {
            Some(s) => match alias {
                Some(a) => s.get_table_column_offset(a, &name),
                None => s.get_column_offset(&name),
            },
            None => GetColumnOffsetResult::NotFound,
        };
        match found {
            GetColumnOffsetResult::One((source_id, column_offset)) => {
                groups_info.add_query_id(state.get_query_id_from_source_id(source_id));
                Ok(SExpression::ColumnField { source_id, column_offset })
            },
            GetColumnOffsetResult::NotFound => Err(QueryPlanCompileError::ColumnDoesNotExist(name)),
            GetColumnOffsetResult::Ambiguous => Err(
                QueryPlanCompileError::AmbiguousColumnName(name),
            ),
        }
    }

    /// The plan of an aggregate function over a compiled argument.
    fn aggregate(
        &self,
        op: AggregateOp,
        value: SExpression<'a>,
        inner: &GroupsInfo,
        state: &mut CompileState,
        groups_info: &GroupsInfo,
    ) -> (r: Result<SExpression<'a>, QueryPlanCompileError>)
        ensures
            expr_outcome(r, *final(state), *groups_info) == aggregate_plan(
                op,
                value@,
                self.query_id,
                old(state)@,
                inner@,
                groups_info@,
            ),
    {
        match inner.innermost_nonaggregated_query {
            Some(aggregated_query) => {
                if aggregated_query <= self.query_id {
                    // aggregated query is outside of the expression
                    match state.new_aggregated_source_id(aggregated_query) {
                        Ok(source_id) => Ok(
                            SExpression::AggregateOp { op, source_id, value: Box::new(value) },
                        ),
                        Err(e) => Err(e),
                    }
                } else {
                    // cannot aggregate over query defined inside the expression
                    Err(QueryPlanCompileError::AggregateFunctionHasNoQueryToAggregate)
                }
            },
            None => Err(QueryPlanCompileError::AggregateFunctionHasNoQueryToAggregate),
        }
    }

    /// The plan of an expression under the sources in `scope`.
    pub fn ast_expression_to_sexpression(
        &self,
        ast: &ast::Expression,
        scope: Option<&SourceScope<'_>>,
        state: &mut CompileState,
        groups_info: &mut GroupsInfo,
    ) -> (r: Result<SExpression<'a>, QueryPlanCompileError>)
        ensures
            expr_outcome(r, *final(state), *final(groups_info)) == expr_plan(self.host.model(),
                self.db,
                self.query_id,
                ast,
                scope_view(scope),
                old(state)@,
                old(groups_info)@,
            ),
        decreases ast, 0nat, 0nat,
    {
        match ast {
            ast::Expression::Ident(s) => {
                let column_identifier = match new_identifier(s.as_str()) {
                    Ok(i) => i,
                    Err(e) => {
                        return Err(e);
                    },
                };
                self.column(scope, None, column_identifier, state, groups_info)
            },
            ast::Expression::IdentMember(s1, s2) => {
                let table_identifier = match new_identifier(s1.as_str()) {
                    Ok(i) => i,
                    Err(e) => {
                        return Err(e);
                    },
                };
                let column_identifier = match new_identifier(s2.as_str()) {
                    Ok(i) => i,
                    Err(e) => {
                        return Err(e);
                    },
                };
                self.column(scope, Some(&table_identifier), column_identifier, state, groups_info)
            },
            ast::Expression::UnaryOp { expr, op } => {
                match self.ast_expression_to_sexpression(expr, scope, state, groups_info) {
                    Ok(e) => Ok(
                        SExpression::UnaryOp {
                            op: ast_unaryop_to_sexpression_unaryop(*op),
                            expr: Box::new(e),
                        },
                    ),
                    Err(e) => Err(e),
                }
            },
            ast::Expression::BinaryOp { lhs, rhs, op } => {
                let l = match self.ast_expression_to_sexpression(lhs, scope, state, groups_info) {
                    Ok(l) => l,
                    Err(e) => {
                        return Err(e);
                    },
                };
                let r = match self.ast_expression_to_sexpression(rhs, scope, state, groups_info) {
                    Ok(r) => r,
                    Err(e) => {
                        return Err(e);
                    },
                };
                Ok(
                    SExpression::BinaryOp {
                        op: ast_binaryop_to_sexpression_binaryop(*op),
                        lhs: Box::new(l),
                        rhs: Box::new(r),
                    },
                )
            },
            ast::Expression::StringLiteral(s) => {
                match Variant::from_string_literal(s.as_str()) {
                    Ok(value) => Ok(SExpression::Value(value)),
                    Err(s) => Err(QueryPlanCompileError::BadStringLiteral(s)),
                }
            },
            ast::Expression::Number(s) => {
                match Variant::from_number_literal(s.as_str(), self.host) {
                    Ok(value) => Ok(SExpression::Value(value)),
                    Err(s) => Err(QueryPlanCompileError::BadNumberLiteral(s)),
                }
            },
            ast::Expression::Null => Ok(SExpression::Value(Variant::null())),
            ast::Expression::Subquery(subquery) => {
                let source_id = match state.new_source_id(self.query_id) {
                    Ok(id) => id,
                    Err(e) => {
                        return Err(e);
                    },
                };
                let query_id = match state.new_query_id() {
                    Ok(id) => id,
                    Err(e) => {
                        return Err(e);
                    },
                };
                let compiler = QueryCompiler { query_id, db: self.db, host: self.host };
                let first = SExpression::ColumnField { source_id, column_offset: 0 };
                proof {
                    assert(first@ == PlanView::ColumnField { source_id, column_offset: 0 });
                }
                match compiler.compile(subquery, scope, state, groups_info) {
                    Ok(plan) => Ok(
                        SExpression::MapEach {
                            source_id,
                            yield_in_fn: Box::new(plan.expr),
                            yield_out_fn: Box::new(first),
                        },
                    ),
                    Err(e) => Err(e),
                }
            },
            ast::Expression::FunctionCall { name, arguments } => {
                let ident = match new_identifier(name.as_str()) {
                    Ok(i) => i,
                    Err(e) => {
                        return Err(e);
                    },
                };
                match aggregate_by_name(&ident) {
                    Some(op) => {
                        if arguments.len() != 1 {
                            Err(QueryPlanCompileError::AggregateFunctionRequiresOneArgument)
                        } else {
                            let mut g = GroupsInfo::new();
                            match self.ast_expression_to_sexpression(
                                &arguments[0],
                                scope,
                                state,
                                &mut g,
                            ) {
                                Ok(value) => self.aggregate(op, value, &g, state, groups_info),
                                Err(e) => Err(e),
                            }
                        }
                    },
                    None => Err(QueryPlanCompileError::UnknownFunctionName(ident)),
                }
            },
            ast::Expression::FunctionCallAggregateAll { name } => {
                let ident = match new_identifier(name.as_str()) {
                    Ok(i) => i,
                    Err(e) => {
                        return Err(e);
                    },
                };
                if str_eq(ident.as_slice(), "count") {
                    match state.new_aggregated_source_id(self.query_id) {
                        Ok(source_id) => Ok(SExpression::CountAll { source_id }),
                        Err(e) => Err(e),
                    }
                } else {
                    Err(QueryPlanCompileError::AggregateAllMustBeCount(ident))
                }
            },
        }
    }

    /// The source that a table or a subquery of a `FROM` makes, and the
    /// step that scans it.
    pub fn ast_table_or_subquery_to(
        &self,
        ast_table_or_subquery: &ast::TableOrSubquery,
        scope: Option<&SourceScope<'_>>,
        state: &mut CompileState,
        groups_info: &mut GroupsInfo,
    ) -> (r: Result<((TableOrSubquery, FromWhereStep<'a>), Identifier), QueryPlanCompileError>)
        ensures
            table_outcome(r, *final(state), *final(groups_info)) == table_source(self.host.model(),
                self.db,
                self.query_id,
                ast_table_or_subquery,
                scope_view(scope),
                old(state)@,
                old(groups_info)@,
            ),
        decreases ast_table_or_subquery, 0nat, 0nat,
    {
        match ast_table_or_subquery {
            ast::TableOrSubquery::Subquery { subquery, alias } => {
                let query_id = match state.new_query_id() {
                    Ok(id) => id,
                    Err(e) => {
                        return Err(e);
                    },
                };
                let compiler = QueryCompiler { query_id, db: self.db, host: self.host };
                let plan = match compiler.compile(subquery, scope, state, groups_info) {
                    Ok(plan) => plan,
                    Err(e) => {
                        return Err(e);
                    },
                };
                let alias_identifier = match new_identifier(alias.as_str()) {
                    Ok(i) => i,
                    Err(e) => {
                        return Err(e);
                    },
                };
                let source_id = match state.new_source_id(self.query_id) {
                    Ok(id) => id,
                    Err(e) => {
                        return Err(e);
                    },
                };
                let s = TableOrSubquery {
                    source_id,
                    out_column_names: ColumnNames::new(plan.out_column_names),
                };
                let t = FromWhereStep::Subquery { source_id, expr: plan.expr };
                Ok(((s, t), alias_identifier))
            },
            ast::TableOrSubquery::Table { table, alias } => {
                let table_name_identifier = match new_identifier(table.table_name.as_str()) {
                    Ok(i) => i,
                    Err(e) => {
                        return Err(e);
                    },
                };
                let found = match self.db.find_table_by_name(&table_name_identifier) {
                    Some(t) => t,
                    None => {
                        return Err(QueryPlanCompileError::TableDoesNotExist(table_name_identifier));
                    },
                };
                let alias_identifier = match alias {
                    Some(alias) => match new_identifier(alias.as_str()) {
                        Ok(i) => i,
                        Err(e) => {
                            return Err(e);
                        },
                    },
                    None => table_name_identifier,
                };
                let source_id = match state.new_source_id(self.query_id) {
                    Ok(id) => id,
                    Err(e) => {
                        return Err(e);
                    },
                };
                let names = found.get_column_names();
                proof {
                    assert(names_view(names@) =~= found.column_names());
                }
                let s = TableOrSubquery { source_id, out_column_names: ColumnNames::new(names) };
                let t = FromWhereStep::Scan { source_id, table: found };
                Ok(((s, t), alias_identifier))
            },
        }
    }

    /// The sources and steps of a comma-separated `FROM`.
    #[verifier::loop_isolation(false)]
    fn from_where_cross<'b>(
        &self,
        stmt: &ast::SelectStatement,
        scope: Option<&'b SourceScope<'b>>,
        state: &mut CompileState,
        groups_info: &mut GroupsInfo,
    ) -> (r: Result<(SourceScope<'b>, FromWhere<'a>), QueryPlanCompileError>)
        ensures
            from_outcome(r, *final(state), *final(groups_info)) == cross_tables(self.host.model(),
                self.db,
                self.query_id,
                stmt,
                scope_view(scope),
                old(state)@,
                old(groups_info)@,
                0,
                Seq::empty(),
                Seq::empty(),
            ),
            r matches Ok((new_scope, _)) ==> new_scope.parent == scope,
        decreases stmt, 1nat, 0nat,
    {
        let mut new_scope = SourceScope::new(scope, Vec::new(), Vec::new());
        let mut steps: Vec<FromWhereStep<'a>> = Vec::new();
        let ghost outer = scope_view(scope);
        let ghost wanted = cross_tables(self.host.model(),
            self.db,
            self.query_id,
            stmt,
            outer,
            state@,
            groups_info@,
            0,
            Seq::empty(),
            Seq::empty(),
        );
        proof {
            assert(frame_view(new_scope.tables@, new_scope.table_aliases@) =~= Seq::<
                ScopeTable,
            >::empty());
            assert(steps_view(steps@) =~= Seq::<StepView>::empty());
        }
        let tables = match &stmt.from {
            ast::From::Cross(tables) => tables,
            _ => {
                return Ok((new_scope, FromWhere { steps }));
            },
        };
        let mut i: usize = 0;
        while i < tables.len()
            invariant
                i <= tables@.len(),
                new_scope.parent == scope,
                new_scope.tables@.len() == new_scope.table_aliases@.len(),
                wanted == cross_tables(self.host.model(),
                    self.db,
                    self.query_id,
                    stmt,
                    outer,
                    state@,
                    groups_info@,
                    i as int,
                    frame_view(new_scope.tables@, new_scope.table_aliases@),
                    steps_view(steps@),
                ),
            decreases tables@.len() - i,
        {
            match self.ast_table_or_subquery_to(&tables[i], scope, state, groups_info) {
                Ok(((source_table, step), alias)) => {
                    let ghost frame = frame_view(new_scope.tables@, new_scope.table_aliases@);
                    let ghost shown = steps_view(steps@);
                    let ghost added = scope_table_view(source_table, alias);
                    let ghost added_step = step@;
                    new_scope.tables.push(source_table);
                    new_scope.table_aliases.push(alias);
                    steps.push(step);
                    proof {
                        assert(frame_view(new_scope.tables@, new_scope.table_aliases@)
                            =~= frame.push(added));
                        assert(steps_view(steps@) =~= shown.push(added_step));
                    }
                },
                Err(e) => {
                    return Err(e);
                },
            }
            i = i + 1;
        }
        Ok((new_scope, FromWhere { steps }))
    }

    /// The step by which a left join scans its right side.
    fn left_join(
        &self,
        source_table: &TableOrSubquery,
        alias: &Identifier,
        step: FromWhereStep<'a>,
        source_id: u32,
        on: SExpression<'a>,
    ) -> (r: FromWhereStep<'a>)
        ensures
            r@ == left_join_step(scope_table_view(*source_table, *alias), step@, source_id, on@),
    {
        let count: u32 = count_columns(source_table.out_column_names.len());
        let mut fields: Vec<SExpression<'a>> = Vec::new();
        proof {
            assert(plans_view(fields@) =~= Seq::<PlanView>::empty());
        }
        push_source_fields(&mut fields, source_table.source_id, count);
        proof {
            assert(plans_view(fields@) =~= source_fields(source_table.source_id, count));
        }
        FromWhereStep::LeftJoin {
            source_id,
            table: step.into_sexpr(SExpression::Yield { fields }),
            on,
            right_rows_if_none: null_row(count),
        }
    }

    /// The sources and steps of a `FROM` with joins.
    #[verifier::loop_isolation(false)]
    fn from_where_join<'b>(
        &self,
        stmt: &ast::SelectStatement,
        scope: Option<&'b SourceScope<'b>>,
        state: &mut CompileState,
        groups_info: &mut GroupsInfo,
    ) -> (r: Result<(SourceScope<'b>, FromWhere<'a>), QueryPlanCompileError>)
        ensures
            from_outcome(r, *final(state), *final(groups_info)) == join_sources(self.host.model(),
                self.db,
                self.query_id,
                stmt,
                scope_view(scope),
                old(state)@,
                old(groups_info)@,
            ),
            r matches Ok((new_scope, _)) ==> new_scope.parent == scope,
        decreases stmt, 1nat, 0nat,
    {
        let mut new_scope = SourceScope::new(scope, Vec::new(), Vec::new());
        let mut steps: Vec<FromWhereStep<'a>> = Vec::new();
        let ghost outer = scope_view(scope);
        let ghost wanted = join_sources(self.host.model(),
            self.db,
            self.query_id,
            stmt,
            outer,
            state@,
            groups_info@,
        );
        proof {
            assert(frame_view(new_scope.tables@, new_scope.table_aliases@) =~= Seq::<
                ScopeTable,
            >::empty());
            assert(steps_view(steps@) =~= Seq::<StepView>::empty());
        }
        let (table, joins) = match &stmt.from {
            ast::From::Join { table, joins } => (table, joins),
            _ => {
                return Ok((new_scope, FromWhere { steps }));
            },
        };
        match self.ast_table_or_subquery_to(table, scope, state, groups_info) {
            Ok(((source_table, step), alias)) => {
                let ghost added = scope_table_view(source_table, alias);
                let ghost added_step = step@;
                new_scope.tables.push(source_table);
                new_scope.table_aliases.push(alias);
                steps.push(step);
                proof {
                    assert(frame_view(new_scope.tables@, new_scope.table_aliases@) =~= seq![added]);
                    assert(steps_view(steps@) =~= seq![added_step]);
                }
            },
            Err(e) => {
                return Err(e);
            },
        }
        let mut i: usize = 0;
        while i < joins.len()
            invariant
                i <= joins@.len(),
                new_scope.parent == scope,
                new_scope.tables@.len() == new_scope.table_aliases@.len(),
                wanted == join_tables(self.host.model(),
                    self.db,
                    self.query_id,
                    stmt,
                    outer,
                    state@,
                    groups_info@,
                    i as int,
                    frame_view(new_scope.tables@, new_scope.table_aliases@),
                    steps_view(steps@),
                ),
            decreases joins@.len() - i,
        {
            let join = &joins[i];
            let ghost frame = frame_view(new_scope.tables@, new_scope.table_aliases@);
            let ghost shown = steps_view(steps@);
            let ((source_table, step), alias) = match self.ast_table_or_subquery_to(
                &join.table,
                scope,
                state,
                groups_info,
            ) {
                Ok(found) => found,
                Err(e) => {
                    return Err(e);
                },
            };
            let ghost joined = scope_table_view(source_table, alias);
            let ghost joined_step = step@;
            match join.operator {
                ast::JoinOperator::Inner => {
                    new_scope.tables.push(source_table);
                    new_scope.table_aliases.push(alias);
                    proof {
                        assert(frame_view(new_scope.tables@, new_scope.table_aliases@)
                            =~= frame.push(joined));
                        assert(scope_view(Some(&new_scope)) == outer.push(frame.push(joined)));
                    }
                    let on = match self.ast_expression_to_sexpression(
                        &join.on,
                        Some(&new_scope),
                        state,
                        groups_info,
                    ) {
                        Ok(on) => on,
                        Err(e) => {
                            return Err(e);
                        },
                    };
                    let ghost filter = StepView::Filter { predicate: on@ };
                    steps.push(step);
                    steps.push(FromWhereStep::Filter { predicate: on });
                    proof {
                        assert(steps_view(steps@) =~= shown.push(joined_step).push(filter));
                    }
                },
                ast::JoinOperator::Left => {
                    let source_id = match state.new_source_id(self.query_id) {
                        Ok(id) => id,
                        Err(e) => {
                            return Err(e);
                        },
                    };
                    let names = clone_names(&source_table.out_column_names.column_names);
                    let left_join_source_table = TableOrSubquery {
                        source_id,
                        out_column_names: ColumnNames::new(names),
                    };
                    let ghost renamed = ScopeTable {
                        source_id,
                        names: joined.names,
                        alias: joined.alias,
                    };
                    new_scope.tables.push(left_join_source_table);
                    new_scope.table_aliases.push(alias.clone());
                    proof {
                        assert(frame_view(new_scope.tables@, new_scope.table_aliases@)
                            =~= frame.push(renamed));
                        assert(scope_view(Some(&new_scope)) == outer.push(frame.push(renamed)));
                    }
                    let on = match self.ast_expression_to_sexpression(
                        &join.on,
                        Some(&new_scope),
                        state,
                        groups_info,
                    ) {
                        Ok(on) => on,
                        Err(e) => {
                            return Err(e);
                        },
                    };
                    let joined_in = self.left_join(&source_table, &alias, step, source_id, on);
                    let ghost added_step = joined_in@;
                    steps.push(joined_in);
                    proof {
                        assert(steps_view(steps@) =~= shown.push(added_step));
                    }
                },
            }
            i = i + 1;
        }
        Ok((new_scope, FromWhere { steps }))
    }

    /// The sources and steps of a `FROM` with its `WHERE`. FROM and WHERE
    /// are compiled together: the steps of joins hold conditions too.
    fn from_where<'b>(
        &self,
        stmt: &ast::SelectStatement,
        scope: Option<&'b SourceScope<'b>>,
        state: &mut CompileState,
        groups_info: &mut GroupsInfo,
    ) -> (r: Result<(SourceScope<'b>, FromWhere<'a>), QueryPlanCompileError>)
        ensures
            from_outcome(r, *final(state), *final(groups_info)) == from_steps(self.host.model(),
                self.db,
                self.query_id,
                stmt,
                scope_view(scope),
                old(state)@,
                old(groups_info)@,
            ),
            r matches Ok((new_scope, _)) ==> new_scope.parent == scope,
        decreases stmt, 2nat, 0nat,
    {
        let sources = match &stmt.from {
            ast::From::Cross(_) => self.from_where_cross(stmt, scope, state, groups_info),
            ast::From::Join { .. } => self.from_where_join(stmt, scope, state, groups_info),
        };
        let (new_scope, from_where) = match sources {
            Ok(found) => found,
            Err(e) => {
                return Err(e);
            },
        };
        let mut steps = from_where.steps;
        match &stmt.where_expr {
            Some(where_expr) => {
                proof {
                    assert(scope_view(Some(&new_scope)) == scope_view(scope).push(
                        frame_view(new_scope.tables@, new_scope.table_aliases@),
                    ));
                }
                match self.ast_expression_to_sexpression(
                    where_expr,
                    Some(&new_scope),
                    state,
                    groups_info,
                ) {
                    Ok(predicate) => {
                        let ghost shown = steps_view(steps@);
                        let ghost filter = StepView::Filter { predicate: predicate@ };
                        steps.push(FromWhereStep::Filter { predicate });
                        proof {
                            assert(steps_view(steps@) =~= shown.push(filter));
                        }
                    },
                    Err(e) => {
                        return Err(e);
                    },
                }
            },
            None => {},
        }
        Ok((new_scope, FromWhere { steps }))
    }

    /// The plans of `GROUP BY` and `HAVING`.
    #[verifier::loop_isolation(false)]
    fn grouping(
        &self,
        stmt: &ast::SelectStatement,
        scope: Option<&SourceScope<'_>>,
        state: &mut CompileState,
        groups_info: &mut GroupsInfo,
    ) -> (r: Result<(Vec<SExpression<'a>>, Option<SExpression<'a>>), QueryPlanCompileError>)
        ensures
            grouping_outcome(r, *final(state), *final(groups_info)) == grouping_plans(
                self.host.model(),
                self.db,
                self.query_id,
                stmt,
                scope_view(scope),
                old(state)@,
                old(groups_info)@,
            ),
        decreases stmt, 2nat, 0nat,
    {
        let mut group_by_values: Vec<SExpression<'a>> = Vec::new();
        proof {
            assert(plans_view(group_by_values@) =~= Seq::<PlanView>::empty());
        }
        if stmt.group_by.len() == 0 {
            return Ok((group_by_values, None));
        }
        match state.new_aggregated_source_id(self.query_id) {
            Ok(_) => {},
            Err(e) => {
                return Err(e);
            },
        }
        let ghost wanted = group_by_plans(self.host.model(),
            self.db,
            self.query_id,
            stmt,
            scope_view(scope),
            state@,
            groups_info@,
            0,
            Seq::empty(),
        );
        let mut i: usize = 0;
        while i < stmt.group_by.len()
            invariant
                i <= stmt.group_by@.len(),
                wanted == group_by_plans(self.host.model(),
                    self.db,
                    self.query_id,
                    stmt,
                    scope_view(scope),
                    state@,
                    groups_info@,
                    i as int,
                    plans_view(group_by_values@),
                ),
            decreases stmt.group_by@.len() - i,
        {
            match self.ast_expression_to_sexpression(&stmt.group_by[i], scope, state, groups_info) {
                Ok(e) => {
                    let ghost shown = plans_view(group_by_values@);
                    let ghost added = e@;
                    group_by_values.push(e);
                    proof {
                        assert(plans_view(group_by_values@) =~= shown.push(added));
                    }
                },
                Err(e) => {
                    return Err(e);
                },
            }
            i = i + 1;
        }
        match &stmt.having {
            Some(having) => {
                match self.ast_expression_to_sexpression(having, scope, state, groups_info) {
                    Ok(h) => Ok((group_by_values, Some(h))),
                    Err(e) => Err(e),
                }
            },
            None => Ok((group_by_values, None)),
        }
    }

    /// The names and plans of the selected columns.
    #[verifier::loop_isolation(false)]
    fn select(
        &self,
        stmt: &ast::SelectStatement,
        scope: Option<&SourceScope<'_>>,
        state: &mut CompileState,
        groups_info: &mut GroupsInfo,
    ) -> (r: Result<(Vec<Identifier>, Vec<SExpression<'a>>), QueryPlanCompileError>)
        ensures
            columns_outcome(r, *final(state), *final(groups_info)) == select_columns(
                self.host.model(),
                self.db,
                self.query_id,
                stmt,
                scope_view(scope),
                old(state)@,
                old(groups_info)@,
                0,
                0,
                Seq::empty(),
                Seq::empty(),
            ),
        decreases stmt, 2nat, 0nat,
    {
        let mut arbitrary_column_count: usize = 0;
        let mut names: Vec<Identifier> = Vec::new();
        let mut fields: Vec<SExpression<'a>> = Vec::new();
        let ghost wanted = select_columns(self.host.model(),
            self.db,
            self.query_id,
            stmt,
            scope_view(scope),
            state@,
            groups_info@,
            0,
            0,
            Seq::empty(),
            Seq::empty(),
        );
        proof {
            assert(plans_view(fields@) =~= Seq::<PlanView>::empty());
            assert(names_view(names@) =~= Seq::<Seq<char>>::empty());
        }
        let mut i: usize = 0;
        while i < stmt.result_columns.len()
            invariant
                i <= stmt.result_columns@.len(),
                arbitrary_column_count <= i,
                wanted == select_columns(self.host.model(),
                    self.db,
                    self.query_id,
                    stmt,
                    scope_view(scope),
                    state@,
                    groups_info@,
                    i as int,
                    arbitrary_column_count as nat,
                    names_view(names@),
                    plans_view(fields@),
                ),
            decreases stmt.result_columns@.len() - i,
        {
            match &stmt.result_columns[i] {
                ast::SelectColumn::AllColumns => {
                    groups_info.add_query_id(self.query_id);
                    push_all_columns(scope, &mut names, &mut fields);
                },
                ast::SelectColumn::Expr { expr, alias } => {
                    let named = match alias {
                        Some(alias) => new_identifier(alias.as_str()),
                        None => {
                            // if the expression is a simple identifier, make that
                            // the column name. else, assign an arbitrary name.
                            match expr {
                                ast::Expression::Ident(n) => new_identifier(n.as_str()),
                                _ => {
                                    let mut chars: Vec<char> = Vec::new();
                                    chars.push('_');
                                    push_decimal(&mut chars, arbitrary_column_count as u64);
                                    let s = string_of(chars.as_slice());
                                    arbitrary_column_count = arbitrary_column_count + 1;
                                    new_identifier(s.as_str())
                                },
                            }
                        },
                    };
                    let column_name = match named {
                        Ok(n) => n,
                        Err(e) => {
                            return Err(e);
                        },
                    };
                    match self.ast_expression_to_sexpression(expr, scope, state, groups_info) {
                        Ok(e) => {
                            let ghost shown = plans_view(fields@);
                            let ghost shown_names = names_view(names@);
                            let ghost added = e@;
                            let ghost added_name = column_name@;
                            names.push(column_name);
                            fields.push(e);
                            proof {
                                assert(plans_view(fields@) =~= shown.push(added));
                                assert(names_view(names@) =~= shown_names.push(added_name));
                            }
                        },
                        Err(e) => {
                            return Err(e);
                        },
                    }
                },
            }
            i = i + 1;
        }
        Ok((names, fields))
    }

    /// The plan of a `SELECT` under the sources of the statements around
    /// it, with the names of its columns.
    pub fn compile(
        &self,
        stmt: &ast::SelectStatement,
        outer_scope: Option<&SourceScope<'_>>,
        state: &mut CompileState,
        groups_info: &mut GroupsInfo,
    ) -> (r: Result<QueryPlan<'a>, QueryPlanCompileError>)
        ensures
            select_outcome(r, *final(state), *final(groups_info)) == select_plan(self.host.model(),
                self.db,
                self.query_id,
                stmt,
                scope_view(outer_scope),
                old(state)@,
                old(groups_info)@,
            ),
        decreases stmt, 3nat, 0nat,
    {
        if stmt.order_by.len() > 0 {
            return Err(QueryPlanCompileError::OrderByNotImplemented);
        }
        let (new_scope, from_where) = match self.from_where(
            stmt,
            outer_scope,
            state,
            groups_info,
        ) {
            Ok(found) => found,
            Err(e) => {
                return Err(e);
            },
        };
        proof {
            assert(scope_view(Some(&new_scope)) == scope_view(outer_scope).push(
                frame_view(new_scope.tables@, new_scope.table_aliases@),
            ));
        }
        let (group_by_values, having_predicate) = match self.grouping(
            stmt,
            Some(&new_scope),
            state,
            groups_info,
        ) {
            Ok(found) => found,
            Err(e) => {
                return Err(e);
            },
        };
        let (column_names, select_exprs) = match self.select(
            stmt,
            Some(&new_scope),
            state,
            groups_info,
        ) {
            Ok(found) => found,
            Err(e) => {
                return Err(e);
            },
        };
        let expr = match state.aggregated_source_id(self.query_id) {
            Some(source_id) => {
                let mut unused: Vec<Identifier> = Vec::new();
                let mut every: Vec<SExpression<'a>> = Vec::new();
                proof {
                    assert(plans_view(every@) =~= Seq::<PlanView>::empty());
                }
                push_all_columns(Some(&new_scope), &mut unused, &mut every);
                let yield_in_fn = from_where.evaluate(SExpression::Yield { fields: every });
                let mapping = group_mapping(Some(&new_scope), source_id);
                let mut yield_out_fn = SExpression::Yield { fields: select_exprs };
                if let Some(having_predicate) = having_predicate {
                    yield_out_fn = SExpression::If {
                        predicate: Box::new(having_predicate),
                        yield_fn: Box::new(yield_out_fn),
                    };
                }
                SExpression::TempGroupBy {
                    source_id,
                    yield_in_fn: Box::new(yield_in_fn),
                    group_by_values: remap_list(&group_by_values, &mapping),
                    yield_out_fn: Box::new(remap_columns_in_sexpression(&yield_out_fn, &mapping)),
                }
            },
            None => from_where.evaluate(SExpression::Yield { fields: select_exprs }),
        };
        Ok(QueryPlan { expr, out_column_names: column_names })
    }
}

/// A copy of names.
pub fn clone_names(names: &Vec<Identifier>) -> (r: Vec<Identifier>)
    ensures
        names_view(r@) == names_view(names@),
{
    let mut out: Vec<Identifier> = Vec::new();
    let mut i: usize = 0;
    while i < names.len()
        invariant
            i <= names@.len(),
            out@.len() == i,
            forall|j: int| 0 <= j < i ==> out@[j]@ == names@[j]@,
        decreases names@.len() - i,
    {
        out.push(names[i].clone());
        i = i + 1;
    }
    proof {
        assert(names_view(out@) =~= names_view(names@));
    }
    out
}

impl<'a> QueryPlan<'a> {
    /// The plan of a `SELECT` that stands by itself. The statement is
    /// query 0; sources and queries are numbered from the start.
    pub fn compile_select<F: FloatOps>(db: &'a TempDb, stmt: ast::SelectStatement, host: &F) -> (r:
        Result<QueryPlan<'a>, QueryPlanCompileError>)
        ensures
            match r {
                Ok(plan) => select_plan(
                    host.model(),
                    db,
                    0,
                    &stmt,
                    Seq::empty(),
                    first_ids(),
                    None,
                ) matches Ok(
                    (expr, names, _, _),
                ) && expr == plan.expr@ && names == names_view(plan.out_column_names@),
                Err(e) => select_plan(
                    host.model(),
                    db,
                    0,
                    &stmt,
                    Seq::empty(),
                    first_ids(),
                    None,
                ) matches Err(
                    x,
                ) && x == e@,
            },
    {
        let mut state = CompileState::new();
        let mut groups_info = GroupsInfo::new();
        let compiler = QueryCompiler { query_id: 0, db, host };
        compiler.compile(&stmt, None, &mut state, &mut groups_info)
    }
}

/// The plan of an expression that stands by itself, as in the values of
/// an `INSERT`.
pub fn compile_ast_expression<'a, F: FloatOps>(db: &'a TempDb, expr: ast::Expression, host: &F)
    -> (r: Result<SExpression<'a>, QueryPlanCompileError>)
    ensures
        match r {
            Ok(e) => expr_plan(
                host.model(),
                db,
                0,
                &expr,
                Seq::empty(),
                first_ids(),
                None,
            ) matches Ok(
                (plan, _, _),
            ) && plan == e@,
            Err(e) => expr_plan(
                host.model(),
                db,
                0,
                &expr,
                Seq::empty(),
                first_ids(),
                None,
            ) matches Err(x) && x
                == e@,
        },
{
    compile_expression(db, &expr, host)
}

/// The plan of an expression that stands by itself.
pub fn compile_expression<'a, F: FloatOps>(db: &'a TempDb, expr: &ast::Expression, host: &F) -> (r:
    Result<SExpression<'a>, QueryPlanCompileError>)
    ensures
        match r {
            Ok(e) => expr_plan(
                host.model(),
                db,
                0,
                expr,
                Seq::empty(),
                first_ids(),
                None,
            ) matches Ok(
                (plan, _, _),
            ) && plan == e@,
            Err(e) => expr_plan(
                host.model(),
                db,
                0,
                expr,
                Seq::empty(),
                first_ids(),
                None,
            ) matches Err(x) && x
                == e@,
        },
{
    let mut state = CompileState::new();
    let mut groups_info = GroupsInfo::new();
    let compiler = QueryCompiler { query_id: 0, db, host };
    compiler.ast_expression_to_sexpression(expr, None, &mut state, &mut groups_info)
}

/// The text `out` with the names from `from` on behind it, each between
/// backticks, with `, ` between them.
pub open spec fn names_text(out: Seq<char>, names: Seq<Seq<char>>, from: int) -> Seq<char>
    decreases names.len() - from,
{
    if from < 0 || from >= names.len() {
        out
    } else {
        let start = if from > 0 {
            out.push(',').push(' ')
        } else {
            out
        };
        names_text((start.push('`') + names[from]).push('`'), names, from + 1)
    }
}

/// The text of a compiled statement: the names of its columns, then its
/// plan.
pub open spec fn query_plan_text(
    floats: FloatModel,
    expr: PlanView,
    names: Seq<Seq<char>>,
) -> Seq<char> {
    plan_text(floats,
        names_text("query plan\n"@ + "column names: ("@, names, 0) + ")\n"@,
        expr,
        0,
    )
}

impl<'a> QueryPlan<'a> {
    /// The text of the compiled statement.
    pub fn to_string<F: FloatOps>(&self, host: &F) -> (r: String)
        ensures
            r@ == query_plan_text(host.model(), self.expr@, names_view(self.out_column_names@)),
    {
        let mut out: Vec<char> = Vec::new();
        push_str(&mut out, "query plan\n");
        push_str(&mut out, "column names: (");
        let ghost head = out@;
        let ghost names = names_view(self.out_column_names@);
        proof {
            assert(head =~= "query plan\n"@ + "column names: ("@);
        }
        let mut i: usize = 0;
        while i < self.out_column_names.len()
            invariant
                i <= self.out_column_names@.len(),
                names == names_view(self.out_column_names@),
                names_text(head, names, 0) == names_text(out@, names, i as int),
            decreases self.out_column_names@.len() - i,
        {
            proof {
                assert(names[i as int] == self.out_column_names@[i as int]@);
            }
            if i > 0 {
                out.push(',');
                out.push(' ');
            }
            out.push('`');
            push_str(&mut out, self.out_column_names[i].as_slice());
            out.push('`');
            i = i + 1;
        }
        push_str(&mut out, ")\n");
        self.expr.format(&mut out, 0, host);
        string_of(out.as_slice())
    }
}

} // verus!
