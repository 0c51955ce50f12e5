//! Running a query plan.
//!
//! The query plan is a recursive language, and it is run by recursion:
//! each operator that binds a source puts one more frame before the
//! environment of the operator nested in it.

use vstd::prelude::*;
use crate::floatops::FloatOps;
use crate::queryplan::sexpression::{
    plan_view, plans_view, BinaryOp, PlanView, SExpression, UnaryOp,
};
use crate::tempdb::table::rows_view;
use crate::types::variant::{row_view, Value, Variant};

pub mod aggregate;
pub mod groupbuckets;
pub mod semantics;

pub use self::semantics::ExecuteError;
use self::aggregate::{get_aggregate_function, AggregateFunction, Aggregator};
use self::groupbuckets::{clone_row, GroupBucket, GroupBuckets};
use self::semantics::{
    aggregate_rows, aggregate_start, apply_binary, bind_group, bind_row, buckets_of, each_group,
    each_row, find_group, find_row, group_rows, groups_to_yield, join_rows, list_of, resolve,
    resolve_list, run, AggregateState, Binding, Env, Frame, GroupView,
};

verus! {

/// What a source is bound to.
pub enum SourceType<'a> {
    Row(&'a [Variant]),
    Group(&'a Vec<Vec<Variant>>),
}

/// One binding of a source, before the bindings that were in force.
pub struct Source<'a> {
    pub parent: Option<&'a Source<'a>>,
    pub source_id: u32,
    pub source_type: SourceType<'a>,
}

/// What a binding stands for.
pub open spec fn binding_view(source_type: SourceType<'_>) -> Binding {
    match source_type {
        SourceType::Row(row) => Binding::Row(row_view(row@)),
        SourceType::Group(rows) => Binding::Group(rows_view(rows@)),
    }
}

/// The environment that a chain of bindings stands for.
pub open spec fn env_view(source: Option<&Source<'_>>) -> Env
    decreases source,
{
    match source {
        None => Seq::empty(),
        Some(s) => env_view(s.parent).push(
            Frame { source_id: s.source_id, binding: binding_view(s.source_type) },
        ),
    }
}

/// The rows, or the error, that a result stands for.
pub open spec fn rows_result(r: Result<Vec<Vec<Variant>>, ExecuteError>) -> Result<
    Seq<Seq<Value>>,
    ExecuteError,
> {
    match r {
        Ok(rows) => Ok(rows_view(rows@)),
        Err(e) => Err(e),
    }
}

/// The row, or the error, that a result stands for.
pub open spec fn row_result(r: Result<Vec<Variant>, ExecuteError>) -> Result<
    Seq<Value>,
    ExecuteError,
> {
    match r {
        Ok(row) => Ok(row_view(row@)),
        Err(e) => Err(e),
    }
}

/// The value, or the error, that a result stands for.
pub open spec fn value_result(r: Result<Variant, ExecuteError>) -> Result<Value, ExecuteError> {
    match r {
        Ok(v) => Ok(v@),
        Err(e) => Err(e),
    }
}

/// Rows put behind rows stand for their values put behind each other.
pub proof fn lemma_rows_view_add(a: Seq<Vec<Variant>>, b: Seq<Vec<Variant>>)
    ensures
        rows_view(a + b) == rows_view(a) + rows_view(b),
{
    assert(rows_view(a + b) =~= rows_view(a) + rows_view(b));
}

impl<'a> Source<'a> {
    /// The row of the source: the row that its innermost binding binds it
    /// to, or the first row of the group that it binds it to.
    pub fn find_row_from_source_id(&self, source_id: u32) -> (r: Option<&'a [Variant]>)
        ensures
            match r {
                Some(row) => find_row(env_view(Some(self)), source_id) == Some(row_view(row@)),
                None => find_row(env_view(Some(self)), source_id).is_none(),
            },
        decreases self,
    {
        proof {
            let env = env_view(Some(self));
            assert(env.drop_last() =~= env_view(self.parent));
        }
        if self.source_id == source_id {
            match self.source_type {
                SourceType::Row(row) => Some(row),
                SourceType::Group(rows) => {
                    if rows.len() > 0 {
                        Some(rows[0].as_slice())
                    } else {
                        None
                    }
                },
            }
        } else {
            match self.parent {
                Some(parent) => parent.find_row_from_source_id(source_id),
                None => None,
            }
        }
    }

    /// The group that the innermost binding of the source binds it to.
    pub fn find_group_from_source_id(&self, source_id: u32) -> (r: Option<&'a Vec<Vec<Variant>>>)
        ensures
            match r {
                Some(rows) => find_group(env_view(Some(self)), source_id) == Some(
                    rows_view(rows@),
                ),
                None => find_group(env_view(Some(self)), source_id).is_none(),
            },
        decreases self,
    {
        proof {
            let env = env_view(Some(self));
            assert(env.drop_last() =~= env_view(self.parent));
        }
        if self.source_id == source_id {
            match self.source_type {
                SourceType::Group(rows) => Some(rows),
                SourceType::Row(_) => None,
            }
        } else {
            match self.parent {
                Some(parent) => parent.find_group_from_source_id(source_id),
                None => None,
            }
        }
    }
}

/// Runs query plans, with the host's help where doubles are computed.
pub struct ExecuteQueryPlan<'s, F: FloatOps> {
    host: &'s F,
}

impl<'s, F: FloatOps> ExecuteQueryPlan<'s, F> {
    /// The host that the executor asks where doubles are computed.
    pub closed spec fn host(&self) -> &'s F {
        self.host
    }

    /// An executor that asks `host` where doubles are computed.
    pub fn new(host: &'s F) -> (r: ExecuteQueryPlan<'s, F>)
        ensures
            r.host() == host,
    {
        ExecuteQueryPlan { host }
    }

    /// The rows that the plan yields, in order.
    pub fn execute_query_plan(&self, expr: &SExpression<'_>) -> (r: Result<
        Vec<Vec<Variant>>,
        ExecuteError,
    >)
        ensures
            rows_result(r) == run(self.host().model(), expr@, Seq::empty()),
    {
        self.execute(expr, None)
    }

    /// The value that the plan stands for.
    pub fn execute_expression(&self, expr: &SExpression<'_>) -> (r: Result<Variant, ExecuteError>)
        ensures
            value_result(r) == resolve(self.host().model(), expr@, Seq::empty()),
    {
        self.resolve_value(expr, None)
    }

    /// The rows that the plan yields in an environment.
    pub fn execute(&self, expr: &SExpression<'_>, source: Option<&Source<'_>>) -> (r: Result<
        Vec<Vec<Variant>>,
        ExecuteError,
    >)
        ensures
            rows_result(r) == run(self.host().model(), expr@, env_view(source)),
        decreases expr, 2nat,
    {
        match expr {
            SExpression::Scan { table, source_id, yield_fn } => {
                match table.scan() {
                    Ok(rows) => self.yield_each(expr, &rows, source),
                    Err(_) => Err(ExecuteError::StorageError),
                }
            },
            SExpression::MapEach { source_id, yield_in_fn, yield_out_fn } => {
                match self.execute(yield_in_fn, source) {
                    Ok(rows) => self.yield_each(expr, &rows, source),
                    Err(e) => Err(e),
                }
            },
            SExpression::TempGroupBy { source_id, yield_in_fn, group_by_values, yield_out_fn } => {
                let rows = match self.execute(yield_in_fn, source) {
                    Ok(rows) => rows,
                    Err(e) => {
                        return Err(e);
                    },
                };
                let buckets = match self.collect_groups(expr, &rows, source) {
                    Ok(buckets) => buckets,
                    Err(e) => {
                        return Err(e);
                    },
                };
                let ghost collected = buckets@;
                let mut groups = buckets.into_buckets();
                proof {
                    assert forall|i: int| 0 <= i < groups@.len() implies buckets_view(groups@)[i]
                        == buckets_of(collected)[i] by {
                        assert(groups@[i]@ == collected[i].rows);
                    }
                    assert(buckets_view(groups@) =~= buckets_of(collected));
                }
                if group_by_values.len() == 0 && groups.len() == 0 {
                    let nothing: Vec<Vec<Variant>> = Vec::new();
                    proof {
                        assert(rows_view(nothing@) =~= Seq::<Seq<Value>>::empty());
                    }
                    groups.push(GroupBucket { rows: nothing });
                    proof {
                        assert(buckets_view(groups@) =~= seq![Seq::<Seq<Value>>::empty()]);
                    }
                }
                proof {
                    assert(expr@ == plan_view(expr));
                    assert(list_of(expr@) == plans_view(group_by_values@));
                    assert(list_of(expr@).len() == group_by_values@.len());
                    assert(buckets_view(groups@) =~= groups_to_yield(
                        group_by_values@.len(),
                        collected,
                    ));
                }
                self.yield_groups(expr, &groups, source)
            },
            SExpression::Yield { fields } => {
                match self.resolve_fields(expr, source) {
                    Ok(columns) => {
                        let mut out: Vec<Vec<Variant>> = Vec::new();
                        out.push(columns);
                        proof {
                            assert(rows_view(out@) =~= seq![row_view(columns@)]);
                        }
                        Ok(out)
                    },
                    Err(e) => Err(e),
                }
            },
            SExpression::If { predicate, yield_fn } => {
                match self.resolve_value(predicate, source) {
                    Ok(pred_result) => {
                        if pred_result.tests_true() {
                            self.execute(yield_fn, source)
                        } else {
                            let out: Vec<Vec<Variant>> = Vec::new();
                            proof {
                                assert(rows_view(out@) =~= Seq::<Seq<Value>>::empty());
                            }
                            Ok(out)
                        }
                    },
                    Err(e) => Err(e),
                }
            },
            SExpression::LeftJoin {
                source_id,
                yield_in_fn,
                predicate,
                yield_out_fn,
                right_rows_if_none,
            } => {
                let rows = match self.execute(yield_in_fn, source) {
                    Ok(rows) => rows,
                    Err(e) => {
                        return Err(e);
                    },
                };
                match self.yield_joined(expr, &rows, source) {
                    Ok((out, passed)) => {
                        if passed {
                            Ok(out)
                        } else {
                            let new_source = Source {
                                parent: source,
                                source_id: *source_id,
                                source_type: SourceType::Row(right_rows_if_none.as_slice()),
                            };
                            self.execute(yield_out_fn, Some(&new_source))
                        }
                    },
                    Err(e) => Err(e),
                }
            },
            // these expressions cannot contain yieldable rows.
            _ => Err(ExecuteError::ExecutionTypeMismatch),
        }
    }

    /// What the plan nested in a `Scan` or a `MapEach` yields for the
    /// rows, each bound to the source in turn.
    #[verifier::loop_isolation(false)]
    fn yield_each(
        &self,
        expr: &SExpression<'_>,
        rows: &Vec<Vec<Variant>>,
        source: Option<&Source<'_>>,
    ) -> (r: Result<Vec<Vec<Variant>>, ExecuteError>)
        ensures
            rows_result(r) == each_row(self.host().model(),
                expr@,
                rows_view(rows@),
                env_view(source),
                0,
                Seq::empty(),
            ),
        decreases expr, 0nat,
    {
        let (source_id, body) = match expr {
            SExpression::Scan { source_id, yield_fn, .. } => (*source_id, yield_fn),
            SExpression::MapEach { source_id, yield_out_fn, .. } => (*source_id, yield_out_fn),
            _ => {
                let out: Vec<Vec<Variant>> = Vec::new();
                proof {
                    assert(rows_view(out@) =~= Seq::<Seq<Value>>::empty());
                }
                return Ok(out);
            },
        };
        let ghost env = env_view(source);
        let ghost shown = rows_view(rows@);
        let mut out: Vec<Vec<Variant>> = Vec::new();
        let mut i: usize = 0;
        proof {
            assert(rows_view(out@) =~= Seq::<Seq<Value>>::empty());
        }
        while i < rows.len()
            invariant
                i <= rows@.len(),
                each_row(
                    self.host().model(),
                    expr@,
                    shown,
                    env,
                    0,
                    Seq::empty(),
                ) == each_row(self.host().model(),
                    expr@,
                    shown,
                    env,
                    i as int,
                    rows_view(out@),
                ),
            decreases rows@.len() - i,
        {
            let new_source = Source {
                parent: source,
                source_id,
                source_type: SourceType::Row(rows[i].as_slice()),
            };
            proof {
                assert(env_view(Some(&new_source)) == bind_row(env, source_id, shown[i as int]));
            }
            match self.execute(body, Some(&new_source)) {
                Ok(mut more) => {
                    proof {
                        lemma_rows_view_add(out@, more@);
                    }
                    out.append(&mut more);
                },
                Err(e) => {
                    return Err(e);
                },
            }
            i = i + 1;
        }
        Ok(out)
    }

    /// The values of the fields of a `Yield`, or of the grouping
    /// expressions of a `TempGroupBy`.
    #[verifier::loop_isolation(false)]
    fn resolve_fields(&self, expr: &SExpression<'_>, source: Option<&Source<'_>>) -> (r: Result<
        Vec<Variant>,
        ExecuteError,
    >)
        ensures
            row_result(r) == resolve_list(
                self.host().model(),
                expr@,
                env_view(source),
                0,
                Seq::empty(),
            ),
        decreases expr, 0nat,
    {
        let list = match expr {
            SExpression::Yield { fields } => fields,
            SExpression::TempGroupBy { group_by_values, .. } => group_by_values,
            _ => {
                let out: Vec<Variant> = Vec::new();
                proof {
                    assert(row_view(out@) =~= Seq::<Value>::empty());
                }
                return Ok(out);
            },
        };
        let ghost env = env_view(source);
        let mut out: Vec<Variant> = Vec::new();
        let mut i: usize = 0;
        proof {
            assert(row_view(out@) =~= Seq::<Value>::empty());
        }
        while i < list.len()
            invariant
                i <= list@.len(),
                resolve_list(
                    self.host().model(),
                    expr@,
                    env,
                    0,
                    Seq::empty(),
                ) == resolve_list(self.host().model(),
                    expr@,
                    env,
                    i as int,
                    row_view(out@),
                ),
            decreases list@.len() - i,
        {
            proof {
                assert(list_of(expr@) == plans_view(list@));
                assert(plans_view(list@)[i as int] == list@[i as int]@);
            }
            match self.resolve_value(&list[i], source) {
                Ok(v) => {
                    proof {
                        assert(row_view(out@.push(v)) =~= row_view(out@).push(v@));
                    }
                    out.push(v);
                },
                Err(e) => {
                    return Err(e);
                },
            }
            i = i + 1;
        }
        proof {
            assert(list_of(expr@) == plans_view(list@));
        }
        Ok(out)
    }

    /// The groups of a `TempGroupBy` for the rows.
    #[verifier::loop_isolation(false)]
    fn collect_groups(
        &self,
        expr: &SExpression<'_>,
        rows: &Vec<Vec<Variant>>,
        source: Option<&Source<'_>>,
    ) -> (r: Result<GroupBuckets, ExecuteError>)
        ensures
            match r {
                Ok(buckets) => group_rows(self.host().model(),
                    expr@,
                    rows_view(rows@),
                    env_view(source),
                    0,
                    Seq::empty(),
                ) == Ok::<Seq<GroupView>, ExecuteError>(buckets@),
                Err(e) => group_rows(
                    self.host().model(),
                    expr@,
                    rows_view(rows@),
                    env_view(source),
                    0,
                    Seq::empty(),
                )
                    == Err::<Seq<GroupView>, ExecuteError>(e),
            },
        decreases expr, 1nat,
    {
        let mut buckets = GroupBuckets::new();
        let source_id = match expr {
            SExpression::TempGroupBy { source_id, .. } => *source_id,
            _ => {
                return Ok(buckets);
            },
        };
        let ghost env = env_view(source);
        let ghost shown = rows_view(rows@);
        let mut i: usize = 0;
        while i < rows.len()
            invariant
                i <= rows@.len(),
                group_rows(
                    self.host().model(),
                    expr@,
                    shown,
                    env,
                    0,
                    Seq::empty(),
                ) == group_rows(self.host().model(),
                    expr@,
                    shown,
                    env,
                    i as int,
                    buckets@,
                ),
            decreases rows@.len() - i,
        {
            let new_source = Source {
                parent: source,
                source_id,
                source_type: SourceType::Row(rows[i].as_slice()),
            };
            proof {
                assert(env_view(Some(&new_source)) == bind_row(env, source_id, shown[i as int]));
            }
            match self.resolve_fields(expr, Some(&new_source)) {
                Ok(key) => {
                    buckets.insert(key, clone_row(rows[i].as_slice()));
                },
                Err(e) => {
                    return Err(e);
                },
            }
            i = i + 1;
        }
        Ok(buckets)
    }

    /// What the outer plan of a `TempGroupBy` yields for the groups, each
    /// bound to the source in turn.
    #[verifier::loop_isolation(false)]
    fn yield_groups(
        &self,
        expr: &SExpression<'_>,
        groups: &Vec<GroupBucket>,
        source: Option<&Source<'_>>,
    ) -> (r: Result<Vec<Vec<Variant>>, ExecuteError>)
        ensures
            rows_result(r) == each_group(self.host().model(),
                expr@,
                buckets_view(groups@),
                env_view(source),
                0,
                Seq::empty(),
            ),
        decreases expr, 0nat,
    {
        let mut out: Vec<Vec<Variant>> = Vec::new();
        proof {
            assert(rows_view(out@) =~= Seq::<Seq<Value>>::empty());
        }
        let (source_id, body) = match expr {
            SExpression::TempGroupBy { source_id, yield_out_fn, .. } => (*source_id, yield_out_fn),
            _ => {
                return Ok(out);
            },
        };
        let ghost env = env_view(source);
        let ghost shown = buckets_view(groups@);
        let mut i: usize = 0;
        while i < groups.len()
            invariant
                i <= groups@.len(),
                each_group(
                    self.host().model(),
                    expr@,
                    shown,
                    env,
                    0,
                    Seq::empty(),
                ) == each_group(self.host().model(),
                    expr@,
                    shown,
                    env,
                    i as int,
                    rows_view(out@),
                ),
            decreases groups@.len() - i,
        {
            let new_source = Source {
                parent: source,
                source_id,
                source_type: SourceType::Group(&groups[i].rows),
            };
            proof {
                assert(env_view(Some(&new_source)) == bind_group(env, source_id, shown[i as int]));
            }
            match self.execute(body, Some(&new_source)) {
                Ok(mut more) => {
                    proof {
                        lemma_rows_view_add(out@, more@);
                    }
                    out.append(&mut more);
                },
                Err(e) => {
                    return Err(e);
                },
            }
            i = i + 1;
        }
        Ok(out)
    }

    /// What the outer plan of a `LeftJoin` yields for the rows for which
    /// the predicate is true, and whether there was such a row.
    #[verifier::loop_isolation(false)]
    fn yield_joined(
        &self,
        expr: &SExpression<'_>,
        rows: &Vec<Vec<Variant>>,
        source: Option<&Source<'_>>,
    ) -> (r: Result<(Vec<Vec<Variant>>, bool), ExecuteError>)
        ensures
            match r {
                Ok((out, passed)) => join_rows(self.host().model(),
                    expr@,
                    rows_view(rows@),
                    env_view(source),
                    0,
                    Seq::empty(),
                    false,
                ) == Ok::<(Seq<Seq<Value>>, bool), ExecuteError>((rows_view(out@), passed)),
                Err(e) => join_rows(self.host().model(),
                    expr@,
                    rows_view(rows@),
                    env_view(source),
                    0,
                    Seq::empty(),
                    false,
                ) == Err::<(Seq<Seq<Value>>, bool), ExecuteError>(e),
            },
        decreases expr, 0nat,
    {
        let mut out: Vec<Vec<Variant>> = Vec::new();
        proof {
            assert(rows_view(out@) =~= Seq::<Seq<Value>>::empty());
        }
        let (source_id, predicate, body) = match expr {
            SExpression::LeftJoin { source_id, predicate, yield_out_fn, .. } => (
                *source_id,
                predicate,
                yield_out_fn,
            ),
            _ => {
                return Ok((out, false));
            },
        };
        let ghost env = env_view(source);
        let ghost shown = rows_view(rows@);
        let mut passed: bool = false;
        let mut i: usize = 0;
        while i < rows.len()
            invariant
                i <= rows@.len(),
                join_rows(
                    self.host().model(),
                    expr@,
                    shown,
                    env,
                    0,
                    Seq::empty(),
                    false,
                ) == join_rows(self.host().model(),
                    expr@,
                    shown,
                    env,
                    i as int,
                    rows_view(out@),
                    passed,
                ),
            decreases rows@.len() - i,
        {
            let new_source = Source {
                parent: source,
                source_id,
                source_type: SourceType::Row(rows[i].as_slice()),
            };
            proof {
                assert(env_view(Some(&new_source)) == bind_row(env, source_id, shown[i as int]));
            }
            match self.resolve_value(predicate, Some(&new_source)) {
                Ok(v) => {
                    if v.tests_true() {
                        match self.execute(body, Some(&new_source)) {
                            Ok(mut more) => {
                                proof {
                                    lemma_rows_view_add(out@, more@);
                                }
                                out.append(&mut more);
                                passed = true;
                            },
                            Err(e) => {
                                return Err(e);
                            },
                        }
                    }
                },
                Err(e) => {
                    return Err(e);
                },
            }
            i = i + 1;
        }
        Ok((out, passed))
    }

    /// The state of an aggregate function after the rows of a group, each
    /// bound to the source of the group in turn.
    #[verifier::loop_isolation(false)]
    fn fold_group(
        &self,
        expr: &SExpression<'_>,
        rows: &Vec<Vec<Variant>>,
        source: Option<&Source<'_>>,
    ) -> (r: Result<Aggregator, ExecuteError>)
        requires
            expr is AggregateOp,
        ensures
            match r {
                Ok(f) => {
                    &&& aggregate_rows(self.host().model(),
                        expr@,
                        rows_view(rows@),
                        env_view(source),
                        0,
                        aggregate_start(),
                    ) == Ok::<AggregateState, ExecuteError>(f.state())
                    &&& f.state().count <= usize::MAX
                    &&& expr@ matches PlanView::AggregateOp { op, .. } && f.op() == op
                },
                Err(e) => aggregate_rows(self.host().model(),
                    expr@,
                    rows_view(rows@),
                    env_view(source),
                    0,
                    aggregate_start(),
                ) == Err::<AggregateState, ExecuteError>(e),
            },
        decreases expr, 0nat,
    {
        let (op, source_id, value) = match expr {
            SExpression::AggregateOp { op, source_id, value } => (*op, *source_id, value),
            _ => {
                return Err(ExecuteError::ExecutionTypeMismatch);
            },
        };
        let mut f = get_aggregate_function(op);
        let total: usize = rows.len();
        let ghost env = env_view(source);
        let ghost shown = rows_view(rows@);
        let mut i: usize = 0;
        while i < rows.len()
            invariant
                i <= rows@.len(),
                f.op() == op,
                f.state().count <= i,
                aggregate_rows(
                    self.host().model(),
                    expr@,
                    shown,
                    env,
                    0,
                    aggregate_start(),
                ) == aggregate_rows(self.host().model(),
                    expr@,
                    shown,
                    env,
                    i as int,
                    f.state(),
                ),
            decreases rows@.len() - i,
        {
            let new_source = Source {
                parent: source,
                source_id,
                source_type: SourceType::Row(rows[i].as_slice()),
            };
            proof {
                assert(env_view(Some(&new_source)) == bind_row(env, source_id, shown[i as int]));
            }
            match self.resolve_value(value, Some(&new_source)) {
                Ok(v) => {
                    match f.feed(v, self.host) {
                        Ok(_) => {},
                        Err(e) => {
                            return Err(e);
                        },
                    }
                },
                Err(e) => {
                    return Err(e);
                },
            }
            i = i + 1;
        }
        Ok(f)
    }

    /// The value that the plan stands for in an environment.
    pub fn resolve_value(&self, expr: &SExpression<'_>, source: Option<&Source<'_>>) -> (r: Result<
        Variant,
        ExecuteError,
    >)
        ensures
            value_result(r) == resolve(self.host().model(), expr@, env_view(source)),
        decreases expr, 2nat,
    {
        match expr {
            SExpression::Value(v) => Ok(v.clone()),
            SExpression::ColumnField { source_id, column_offset } => {
                let row = match source {
                    Some(s) => s.find_row_from_source_id(*source_id),
                    None => None,
                };
                match row {
                    Some(row) => {
                        if (*column_offset as usize) < row.len() {
                            proof {
                                assert(row_view(row@)[*column_offset as int]
                                    == row@[*column_offset as int]@);
                            }
                            Ok(row[*column_offset as usize].clone())
                        } else {
                            Err(ExecuteError::ExecutionTypeMismatch)
                        }
                    },
                    None => Err(ExecuteError::ExecutionTypeMismatch),
                }
            },
            SExpression::UnaryOp { op, expr: inner } => {
                match self.resolve_value(inner, source) {
                    Ok(v) => Ok(
                        match op {
                            UnaryOp::Negate => v.negate(),
                        },
                    ),
                    Err(e) => Err(e),
                }
            },
            SExpression::BinaryOp { op, lhs, rhs } => {
                let l = match self.resolve_value(lhs, source) {
                    Ok(l) => l,
                    Err(e) => {
                        return Err(e);
                    },
                };
                let r = match self.resolve_value(rhs, source) {
                    Ok(r) => r,
                    Err(e) => {
                        return Err(e);
                    },
                };
                self.apply(*op, &l, &r)
            },
            SExpression::AggregateOp { op, source_id, value } => {
                let group = match source {
                    Some(s) => s.find_group_from_source_id(*source_id),
                    None => None,
                };
                match group {
                    Some(rows) => match self.fold_group(expr, rows, source) {
                        Ok(f) => Ok(f.finish(self.host)),
                        Err(e) => Err(e),
                    },
                    None => Err(ExecuteError::ExecutionTypeMismatch),
                }
            },
            SExpression::CountAll { source_id } => {
                let group = match source {
                    Some(s) => s.find_group_from_source_id(*source_id),
                    None => None,
                };
                match group {
                    Some(rows) => Ok(Variant::from_u64(rows.len() as u64)),
                    None => Err(ExecuteError::ExecutionTypeMismatch),
                }
            },
            SExpression::MapEach { source_id, yield_in_fn, yield_out_fn } => {
                // yield_in_fn is expected to yield exactly one row
                // yield_out_fn is expected to return a single resolved value
                match self.execute(yield_in_fn, source) {
                    Ok(rows) => {
                        if rows.len() == 1 {
                            let new_source = Source {
                                parent: source,
                                source_id: *source_id,
                                source_type: SourceType::Row(rows[0].as_slice()),
                            };
                            self.resolve_value(yield_out_fn, Some(&new_source))
                        } else {
                            Err(ExecuteError::ExecutionTypeMismatch)
                        }
                    },
                    Err(e) => Err(e),
                }
            },
            _ => Err(ExecuteError::ExecutionTypeMismatch),
        }
    }

    /// What an operator of two operands makes of two values.
    fn apply(&self, op: BinaryOp, l: &Variant, r: &Variant) -> (out: Result<Variant, ExecuteError>)
        ensures
            value_result(out) == apply_binary(self.host().model(), op, l@, r@),
    {
        match op {
            BinaryOp::Equal => Ok(l.equals(r, self.host)),
            BinaryOp::NotEqual => Ok(l.not_equals(r, self.host)),
            BinaryOp::LessThan => Ok(l.less_than(r, self.host)),
            BinaryOp::LessThanOrEqual => Ok(l.less_than_or_equal(r, self.host)),
            BinaryOp::GreaterThan => Ok(l.greater_than(r, self.host)),
            BinaryOp::GreaterThanOrEqual => Ok(l.greater_than_or_equal(r, self.host)),
            BinaryOp::And => Ok(l.and(r)),
            BinaryOp::Or => Ok(l.or(r)),
            BinaryOp::Add => Ok(l.add(r, self.host)),
            BinaryOp::Subtract => Ok(l.sub(r, self.host)),
            BinaryOp::Multiply => Ok(l.mul(r, self.host)),
            BinaryOp::Divide => Ok(l.div(r, self.host)),
            BinaryOp::BitAnd => Err(ExecuteError::ExecutionTypeMismatch),
            BinaryOp::BitOr => Err(ExecuteError::ExecutionTypeMismatch),
            BinaryOp::Concatenate => Ok(l.concat(r, self.host)),
        }
    }
}

/// The rows of each bucket.
pub open spec fn buckets_view(groups: Seq<GroupBucket>) -> Seq<Seq<Seq<Value>>> {
    Seq::new(groups.len(), |i: int| groups[i]@)
}

} // verus!
