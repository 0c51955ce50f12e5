//! What a plan means: the rows that it yields and the values that its
//! parts stand for, in an environment of bound rows and groups.

use vstd::prelude::*;
use crate::floatops::{float_of_unsigned, float_quotient, float_sum, FloatModel};
use crate::queryplan::sexpression::{AggregateOp, BinaryOp, PlanView, UnaryOp};
use crate::types::variant::{float_result, Value};
use crate::types::DbType;

verus! {

/// Why a plan could not be run.
#[derive(Debug, Clone, Copy, PartialEq, Eq, Structural)]
pub enum ExecuteError {
    /// A value stands where rows are needed or rows where a value is
    /// needed, a source is not bound or is bound to the wrong shape, or an
    /// operator was given what it cannot take.
    ExecutionTypeMismatch,
    /// The rows of a table could not be read.
    StorageError,
}

/// What a source is bound to: one row, or the rows of a group.
pub enum Binding {
    Row(Seq<Value>),
    Group(Seq<Seq<Value>>),
}

/// One binding of a source.
pub struct Frame {
    pub source_id: u32,
    pub binding: Binding,
}

/// The bindings in force, the innermost last.
pub type Env = Seq<Frame>;

/// The environment with one more binding of a source to a row.
pub open spec fn bind_row(env: Env, source_id: u32, row: Seq<Value>) -> Env {
    env.push(Frame { source_id, binding: Binding::Row(row) })
}

/// The environment with one more binding of a source to a group.
pub open spec fn bind_group(env: Env, source_id: u32, rows: Seq<Seq<Value>>) -> Env {
    env.push(Frame { source_id, binding: Binding::Group(rows) })
}

/// What the innermost binding of the source binds it to.
pub open spec fn lookup(env: Env, source_id: u32) -> Option<Binding>
    decreases env.len(),
{
    if env.len() == 0 {
        None
    } else if env.last().source_id == source_id {
        Some(env.last().binding)
    } else {
        lookup(env.drop_last(), source_id)
    }
}

/// The row of the source: the row it is bound to, or the first row of the
/// group it is bound to.
pub open spec fn find_row(env: Env, source_id: u32) -> Option<Seq<Value>> {
    match lookup(env, source_id) {
        Some(Binding::Row(row)) => Some(row),
        Some(Binding::Group(rows)) => if rows.len() > 0 {
            Some(rows[0])
        } else {
            None
        },
        None => None,
    }
}

/// The group that the source is bound to.
pub open spec fn find_group(env: Env, source_id: u32) -> Option<Seq<Seq<Value>>> {
    match lookup(env, source_id) {
        Some(Binding::Group(rows)) => Some(rows),
        _ => None,
    }
}

/// What an operator of one operand makes of a value.
pub open spec fn apply_unary(op: UnaryOp, v: Value) -> Value {
    match op {
        UnaryOp::Negate => v.negate(),
    }
}

/// What an operator of two operands makes of two values. The operators on
/// bits are not defined on values.
pub open spec fn apply_binary(
    floats: FloatModel,
    op: BinaryOp,
    l: Value,
    r: Value,
) -> Result<Value, ExecuteError> {
    match op {
        BinaryOp::Equal => Ok(l.equals(floats, r)),
        BinaryOp::NotEqual => Ok(l.not_equals(floats, r)),
        BinaryOp::LessThan => Ok(l.less_than(floats, r)),
        BinaryOp::LessThanOrEqual => Ok(l.less_than_or_equal(floats, r)),
        BinaryOp::GreaterThan => Ok(l.greater_than(floats, r)),
        BinaryOp::GreaterThanOrEqual => Ok(l.greater_than_or_equal(floats, r)),
        BinaryOp::And => Ok(l.and(r)),
        BinaryOp::Or => Ok(l.or(r)),
        BinaryOp::Add => Ok(l.add(floats, r)),
        BinaryOp::Subtract => Ok(l.sub(floats, r)),
        BinaryOp::Multiply => Ok(l.mul(floats, r)),
        BinaryOp::Divide => Ok(l.div(floats, r)),
        BinaryOp::BitAnd => Err(ExecuteError::ExecutionTypeMismatch),
        BinaryOp::BitOr => Err(ExecuteError::ExecutionTypeMismatch),
        BinaryOp::Concatenate => Ok(l.concat(floats, r)),
    }
}

/// What an aggregate function has seen: how many values that are not
/// NULL, their sum as a double, and the least or greatest of them.
pub struct AggregateState {
    pub count: nat,
    pub sum: u64,
    pub extremum: Option<Value>,
}

/// The state before any value.
pub open spec fn aggregate_start() -> AggregateState {
    AggregateState { count: 0, sum: 0, extremum: None }
}

/// The state after one more value. NULL is passed over. A sum or an
/// average needs a value that can be cast to a double.
pub open spec fn aggregate_feed(
    floats: FloatModel,
    op: AggregateOp,
    state: AggregateState,
    v: Value,
) -> Result<
    AggregateState,
    ExecuteError,
> {
    if v.is_null() {
        Ok(state)
    } else {
        match op {
            AggregateOp::Count => Ok(AggregateState { count: state.count + 1, ..state }),
            AggregateOp::Avg | AggregateOp::Sum => match v.cast(floats, DbType::F64) {
                Some(Value::Float(x)) => Ok(
                    AggregateState {
                        count: state.count + 1,
                        sum: float_sum(floats, state.sum, x),
                        ..state
                    },
                ),
                _ => Err(ExecuteError::ExecutionTypeMismatch),
            },
            AggregateOp::Min => match state.extremum {
                Some(least) => if v.compare(floats, least) == Some(-1int) {
                    Ok(AggregateState { extremum: Some(v), ..state })
                } else {
                    Ok(state)
                },
                None => Ok(AggregateState { extremum: Some(v), ..state }),
            },
            AggregateOp::Max => match state.extremum {
                Some(greatest) => if v.compare(floats, greatest) == Some(1int) {
                    Ok(AggregateState { extremum: Some(v), ..state })
                } else {
                    Ok(state)
                },
                None => Ok(AggregateState { extremum: Some(v), ..state }),
            },
        }
    }
}

/// The value of an aggregate function after the last value: the count; the
/// sum or the average as a double, NULL where nothing was counted; the
/// least or the greatest value, NULL where there was none.
pub open spec fn aggregate_finish(
    floats: FloatModel,
    op: AggregateOp,
    state: AggregateState,
) -> Value {
    match op {
        AggregateOp::Count => Value::UnsignedInteger(state.count as u64),
        AggregateOp::Avg => if state.count == 0 {
            Value::Null
        } else {
            float_result(float_quotient(
                floats,
                state.sum,
                float_of_unsigned(floats, state.count as u64),
            ))
        },
        AggregateOp::Sum => if state.count == 0 {
            Value::Null
        } else {
            float_result(state.sum)
        },
        AggregateOp::Min | AggregateOp::Max => match state.extremum {
            Some(v) => v,
            None => Value::Null,
        },
    }
}

/// A group being collected: the values it is keyed by and its rows in the
/// order in which they came.
pub struct GroupView {
    pub key: Seq<Value>,
    pub rows: Seq<Seq<Value>>,
}

/// The place of the group with the given key, from `from` on.
pub open spec fn find_key(groups: Seq<GroupView>, key: Seq<Value>, from: int) -> Option<int>
    decreases groups.len() - from,
{
    if from < 0 || from >= groups.len() {
        None
    } else if groups[from].key == key {
        Some(from)
    } else {
        find_key(groups, key, from + 1)
    }
}

/// The groups after one more row: the row joins the group of its key, or
/// starts a new group behind the others.
pub open spec fn groups_insert(groups: Seq<GroupView>, key: Seq<Value>, row: Seq<Value>) -> Seq<
    GroupView,
> {
    match find_key(groups, key, 0) {
        Some(i) => groups.update(i, GroupView { key, rows: groups[i].rows.push(row) }),
        None => groups.push(GroupView { key, rows: seq![row] }),
    }
}

/// The rows of each group.
pub open spec fn buckets_of(groups: Seq<GroupView>) -> Seq<Seq<Seq<Value>>> {
    Seq::new(groups.len(), |i: int| groups[i].rows)
}

/// The groups that a grouping hands on: the groups that were collected;
/// but one empty group where nothing is grouped by and no row came.
pub open spec fn groups_to_yield(grouped_by: nat, groups: Seq<GroupView>) -> Seq<
    Seq<Seq<Value>>,
> {
    if grouped_by == 0 && groups.len() == 0 {
        seq![Seq::empty()]
    } else {
        buckets_of(groups)
    }
}

/// The value that a plan stands for in an environment.
pub open spec fn resolve(floats: FloatModel, p: PlanView, env: Env) -> Result<Value, ExecuteError>
    decreases p, 2nat, 0nat,
{
    match p {
        PlanView::Value(v) => Ok(v),
        PlanView::ColumnField { source_id, column_offset } => match find_row(env, source_id) {
            Some(row) => if column_offset < row.len() {
                Ok(row[column_offset as int])
            } else {
                Err(ExecuteError::ExecutionTypeMismatch)
            },
            None => Err(ExecuteError::ExecutionTypeMismatch),
        },
        PlanView::UnaryOp { op, expr } => match resolve(floats, *expr, env) {
            Ok(v) => Ok(apply_unary(op, v)),
            Err(e) => Err(e),
        },
        PlanView::BinaryOp { op, lhs, rhs } => match resolve(floats, *lhs, env) {
            Ok(l) => match resolve(floats, *rhs, env) {
                Ok(r) => apply_binary(floats, op, l, r),
                Err(e) => Err(e),
            },
            Err(e) => Err(e),
        },
        PlanView::MapEach { source_id, yield_in_fn, yield_out_fn } => match run(floats,
            *yield_in_fn,
            env,
        ) {
            Ok(rows) => if rows.len() == 1 {
                resolve(floats, *yield_out_fn, bind_row(env, source_id, rows[0]))
            } else {
                Err(ExecuteError::ExecutionTypeMismatch)
            },
            Err(e) => Err(e),
        },
        PlanView::AggregateOp { op, source_id, value } => match find_group(env, source_id) {
            Some(rows) => match aggregate_rows(floats, p, rows, env, 0, aggregate_start()) {
                Ok(state) => Ok(aggregate_finish(floats, op, state)),
                Err(e) => Err(e),
            },
            None => Err(ExecuteError::ExecutionTypeMismatch),
        },
        PlanView::CountAll { source_id } => match find_group(env, source_id) {
            Some(rows) => Ok(Value::UnsignedInteger(rows.len() as u64)),
            None => Err(ExecuteError::ExecutionTypeMismatch),
        },
        _ => Err(ExecuteError::ExecutionTypeMismatch),
    }
}

/// The state of the aggregate function `p` after the rows from `from` on,
/// each bound to the source of the group in turn.
pub open spec fn aggregate_rows(floats: FloatModel,
    p: PlanView,
    rows: Seq<Seq<Value>>,
    env: Env,
    from: int,
    state: AggregateState,
) -> Result<AggregateState, ExecuteError>
    decreases p, 0nat, rows.len() - from,
{
    match p {
        PlanView::AggregateOp { op, source_id, value } => if 0 <= from < rows.len() {
            match resolve(floats, *value, bind_row(env, source_id, rows[from])) {
                Ok(v) => match aggregate_feed(floats, op, state, v) {
                    Ok(next) => aggregate_rows(floats, p, rows, env, from + 1, next),
                    Err(e) => Err(e),
                },
                Err(e) => Err(e),
            }
        } else {
            Ok(state)
        },
        _ => Ok(state),
    }
}

/// The values of the fields of a `Yield`, or of the grouping expressions
/// of a `TempGroupBy`, from `from` on, behind `done`.
pub open spec fn resolve_list(
    floats: FloatModel,
    p: PlanView,
    env: Env,
    from: int,
    done: Seq<Value>,
) -> Result<
    Seq<Value>,
    ExecuteError,
>
    decreases p, 0nat, list_of(p).len() - from,
{
    let list = list_of(p);
    if 0 <= from < list.len() {
        match p {
            PlanView::Yield { fields } => match resolve(floats, fields[from], env) {
                Ok(v) => resolve_list(floats, p, env, from + 1, done.push(v)),
                Err(e) => Err(e),
            },
            PlanView::TempGroupBy { group_by_values, .. } => match resolve(floats,
                group_by_values[from],
                env,
            ) {
                Ok(v) => resolve_list(floats, p, env, from + 1, done.push(v)),
                Err(e) => Err(e),
            },
            _ => Ok(done),
        }
    } else {
        Ok(done)
    }
}

/// The expressions that a plan lists: the fields of a `Yield`, the
/// grouping expressions of a `TempGroupBy`.
pub open spec fn list_of(p: PlanView) -> Seq<PlanView> {
    match p {
        PlanView::Yield { fields } => fields,
        PlanView::TempGroupBy { group_by_values, .. } => group_by_values,
        _ => Seq::empty(),
    }
}

/// The rows that a plan yields in an environment, in order.
pub open spec fn run(
    floats: FloatModel,
    p: PlanView,
    env: Env,
) -> Result<Seq<Seq<Value>>, ExecuteError>
    decreases p, 2nat, 0nat,
{
    match p {
        PlanView::Scan { table, source_id, yield_fn } => match table.rows() {
            Some(rows) => each_row(floats, p, rows, env, 0, Seq::empty()),
            None => Err(ExecuteError::StorageError),
        },
        PlanView::MapEach { source_id, yield_in_fn, yield_out_fn } => match run(floats,
            *yield_in_fn,
            env,
        ) {
            Ok(rows) => each_row(floats, p, rows, env, 0, Seq::empty()),
            Err(e) => Err(e),
        },
        PlanView::If { predicate, yield_fn } => match resolve(floats, *predicate, env) {
            Ok(v) => if v.tests_true() {
                run(floats, *yield_fn, env)
            } else {
                Ok(Seq::empty())
            },
            Err(e) => Err(e),
        },
        PlanView::Yield { fields } => match resolve_list(floats, p, env, 0, Seq::empty()) {
            Ok(row) => Ok(seq![row]),
            Err(e) => Err(e),
        },
        PlanView::TempGroupBy { source_id, yield_in_fn, group_by_values, yield_out_fn } => match run(
            floats,
            *yield_in_fn,
            env,
        ) {
            Ok(rows) => match group_rows(floats, p, rows, env, 0, Seq::empty()) {
                Ok(groups) => each_group(floats,
                    p,
                    groups_to_yield(group_by_values.len(), groups),
                    env,
                    0,
                    Seq::empty(),
                ),
                Err(e) => Err(e),
            },
            Err(e) => Err(e),
        },
        PlanView::LeftJoin {
            source_id,
            yield_in_fn,
            predicate,
            yield_out_fn,
            right_rows_if_none,
        } => match run(floats, *yield_in_fn, env) {
            Ok(rows) => match join_rows(floats, p, rows, env, 0, Seq::empty(), false) {
                Ok((out, passed)) => if passed {
                    Ok(out)
                } else {
                    run(floats, *yield_out_fn, bind_row(env, source_id, right_rows_if_none))
                },
                Err(e) => Err(e),
            },
            Err(e) => Err(e),
        },
        _ => Err(ExecuteError::ExecutionTypeMismatch),
    }
}

/// What the plan nested in a `Scan` or a `MapEach` yields for the rows
/// from `from` on, each bound to the source in turn, behind `done`.
pub open spec fn each_row(floats: FloatModel,
    p: PlanView,
    rows: Seq<Seq<Value>>,
    env: Env,
    from: int,
    done: Seq<Seq<Value>>,
) -> Result<Seq<Seq<Value>>, ExecuteError>
    decreases p, 0nat, rows.len() - from,
{
    if 0 <= from < rows.len() {
        match p {
            PlanView::Scan { source_id, yield_fn, .. } => match run(floats,
                *yield_fn,
                bind_row(env, source_id, rows[from]),
            ) {
                Ok(out) => each_row(floats, p, rows, env, from + 1, done + out),
                Err(e) => Err(e),
            },
            PlanView::MapEach { source_id, yield_out_fn, .. } => match run(floats,
                *yield_out_fn,
                bind_row(env, source_id, rows[from]),
            ) {
                Ok(out) => each_row(floats, p, rows, env, from + 1, done + out),
                Err(e) => Err(e),
            },
            _ => Ok(done),
        }
    } else {
        Ok(done)
    }
}

/// The groups of a `TempGroupBy` after the rows from `from` on, each keyed
/// by the values of the grouping expressions with the row bound to the
/// source.
pub open spec fn group_rows(floats: FloatModel,
    p: PlanView,
    rows: Seq<Seq<Value>>,
    env: Env,
    from: int,
    groups: Seq<GroupView>,
) -> Result<Seq<GroupView>, ExecuteError>
    decreases p, 1nat, rows.len() - from,
{
    if 0 <= from < rows.len() {
        match p {
            PlanView::TempGroupBy { source_id, .. } => match resolve_list(floats,
                p,
                bind_row(env, source_id, rows[from]),
                0,
                Seq::empty(),
            ) {
                Ok(key) => group_rows(
                    floats,
                    p,
                    rows,
                    env,
                    from + 1,
                    groups_insert(groups, key, rows[from]),
                ),
                Err(e) => Err(e),
            },
            _ => Ok(groups),
        }
    } else {
        Ok(groups)
    }
}

/// What the outer plan of a `TempGroupBy` yields for the groups from
/// `from` on, each bound to the source in turn, behind `done`.
pub open spec fn each_group(floats: FloatModel,
    p: PlanView,
    groups: Seq<Seq<Seq<Value>>>,
    env: Env,
    from: int,
    done: Seq<Seq<Value>>,
) -> Result<Seq<Seq<Value>>, ExecuteError>
    decreases p, 0nat, groups.len() - from,
{
    if 0 <= from < groups.len() {
        match p {
            PlanView::TempGroupBy { source_id, yield_out_fn, .. } => match run(floats,
                *yield_out_fn,
                bind_group(env, source_id, groups[from]),
            ) {
                Ok(out) => each_group(floats, p, groups, env, from + 1, done + out),
                Err(e) => Err(e),
            },
            _ => Ok(done),
        }
    } else {
        Ok(done)
    }
}

/// What the outer plan of a `LeftJoin` yields for the rows from `from` on
/// for which the predicate is true, behind `done`, and whether there was
/// such a row.
pub open spec fn join_rows(floats: FloatModel,
    p: PlanView,
    rows: Seq<Seq<Value>>,
    env: Env,
    from: int,
    done: Seq<Seq<Value>>,
    passed: bool,
) -> Result<(Seq<Seq<Value>>, bool), ExecuteError>
    decreases p, 0nat, rows.len() - from,
{
    if 0 <= from < rows.len() {
        match p {
            PlanView::LeftJoin { source_id, predicate, yield_out_fn, .. } => {
                let inner = bind_row(env, source_id, rows[from]);
                match resolve(floats, *predicate, inner) {
                    Ok(v) => if v.tests_true() {
                        match run(floats, *yield_out_fn, inner) {
                            Ok(out) => join_rows(floats, p, rows, env, from + 1, done + out, true),
                            Err(e) => Err(e),
                        }
                    } else {
                        join_rows(floats, p, rows, env, from + 1, done, passed)
                    },
                    Err(e) => Err(e),
                }
            },
            _ => Ok((done, passed)),
        }
    } else {
        Ok((done, passed))
    }
}

} // verus!
