//! What holds of every compiled plan and of every run of one.

use vstd::prelude::*;
use crate::floatops::FloatModel;
use crate::queryplan::execute::semantics::{
    bind_row, each_group, each_row, find_key, group_rows, groups_insert, groups_to_yield,
    join_rows, resolve, resolve_list, run, Env, ExecuteError, GroupView,
};
use crate::queryplan::planning::{
    apply_step, find_mapping, frame_mapping, grouped_plan, nest, remap, remap_all, Mapping,
    StepView,
};
use crate::queryplan::sexpression::PlanView;
use crate::queryplan::source::ScopeTable;
use crate::types::variant::Value;

verus! {

/// Whether some column of the source is read somewhere in the plans from
/// `from` on.
pub open spec fn mentioned_in(plans: Seq<PlanView>, source_id: u32, from: int) -> bool
    decreases plans, plans.len() - from,
{
    if 0 <= from < plans.len() {
        mentions(plans[from], source_id) || mentioned_in(plans, source_id, from + 1)
    } else {
        false
    }
}

/// Whether some column of the source is read somewhere in the plan.
pub open spec fn mentions(p: PlanView, source_id: u32) -> bool
    decreases p, 0nat,
{
    match p {
        PlanView::ColumnField { source_id: s, .. } => s == source_id,
        PlanView::Scan { yield_fn, .. } => mentions(*yield_fn, source_id),
        PlanView::MapEach { yield_in_fn, yield_out_fn, .. } => mentions(*yield_in_fn, source_id)
            || mentions(*yield_out_fn, source_id),
        PlanView::TempGroupBy { yield_in_fn, group_by_values, yield_out_fn, .. } => mentions(
            *yield_in_fn,
            source_id,
        ) || mentioned_in(group_by_values, source_id, 0) || mentions(*yield_out_fn, source_id),
        PlanView::Yield { fields } => mentioned_in(fields, source_id, 0),
        PlanView::If { predicate, yield_fn } => mentions(*predicate, source_id) || mentions(
            *yield_fn,
            source_id,
        ),
        PlanView::LeftJoin { yield_in_fn, predicate, yield_out_fn, .. } => mentions(
            *yield_in_fn,
            source_id,
        ) || mentions(*predicate, source_id) || mentions(*yield_out_fn, source_id),
        PlanView::UnaryOp { expr, .. } => mentions(*expr, source_id),
        PlanView::BinaryOp { lhs, rhs, .. } => mentions(*lhs, source_id) || mentions(
            *rhs,
            source_id,
        ),
        PlanView::AggregateOp { value, .. } => mentions(*value, source_id),
        PlanView::CountAll { .. } => false,
        PlanView::Value(_) => false,
    }
}

/// Whether every entry of the mapping leads to the source `grouped`.
pub open spec fn leads_to(mapping: Map<u32, Mapping>, grouped: u32) -> bool {
    forall|s: u32| mapping.contains_key(s) ==> (#[trigger] mapping[s]).source_id == grouped
}

/// A source that rewired plans still read is the source of the groups,
/// or one that the mapping does not know.
proof fn lemma_remapped_list(
    plans: Seq<PlanView>,
    mapping: Map<u32, Mapping>,
    grouped: u32,
    source_id: u32,
    from: int,
)
    requires
        leads_to(mapping, grouped),
        mentioned_in(remap_all(plans, mapping), source_id, from),
        0 <= from,
    ensures
        source_id == grouped || find_mapping(mapping, source_id).is_none(),
    decreases plans, plans.len() - from,
{
    let out = remap_all(plans, mapping);
    if from < out.len() {
        if mentions(out[from], source_id) {
            lemma_remapped(plans[from], mapping, grouped, source_id);
        } else {
            lemma_remapped_list(plans, mapping, grouped, source_id, from + 1);
        }
    }
}

/// A source that a rewired plan still reads is the source of the groups,
/// or one that the mapping does not know.
pub proof fn lemma_remapped(p: PlanView, mapping: Map<u32, Mapping>, grouped: u32, source_id: u32)
    requires
        leads_to(mapping, grouped),
        mentions(remap(p, mapping), source_id),
    ensures
        source_id == grouped || find_mapping(mapping, source_id).is_none(),
    decreases p, 1nat,
{
    match p {
        PlanView::ColumnField { .. } => {},
        PlanView::Scan { yield_fn, .. } => {
            lemma_remapped(*yield_fn, mapping, grouped, source_id);
        },
        PlanView::MapEach { yield_in_fn, yield_out_fn, .. } => {
            if mentions(remap(*yield_in_fn, mapping), source_id) {
                lemma_remapped(*yield_in_fn, mapping, grouped, source_id);
            } else {
                lemma_remapped(*yield_out_fn, mapping, grouped, source_id);
            }
        },
        PlanView::TempGroupBy { yield_in_fn, group_by_values, yield_out_fn, .. } => {
            if mentions(remap(*yield_in_fn, mapping), source_id) {
                lemma_remapped(*yield_in_fn, mapping, grouped, source_id);
            } else if mentioned_in(remap_all(group_by_values, mapping), source_id, 0) {
                lemma_remapped_list(group_by_values, mapping, grouped, source_id, 0);
            } else {
                lemma_remapped(*yield_out_fn, mapping, grouped, source_id);
            }
        },
        PlanView::Yield { fields } => {
            lemma_remapped_list(fields, mapping, grouped, source_id, 0);
        },
        PlanView::If { predicate, yield_fn } => {
            if mentions(remap(*predicate, mapping), source_id) {
                lemma_remapped(*predicate, mapping, grouped, source_id);
            } else {
                lemma_remapped(*yield_fn, mapping, grouped, source_id);
            }
        },
        PlanView::LeftJoin { yield_in_fn, predicate, yield_out_fn, .. } => {
            if mentions(remap(*yield_in_fn, mapping), source_id) {
                lemma_remapped(*yield_in_fn, mapping, grouped, source_id);
            } else if mentions(remap(*predicate, mapping), source_id) {
                lemma_remapped(*predicate, mapping, grouped, source_id);
            } else {
                lemma_remapped(*yield_out_fn, mapping, grouped, source_id);
            }
        },
        PlanView::UnaryOp { expr, .. } => {
            lemma_remapped(*expr, mapping, grouped, source_id);
        },
        PlanView::BinaryOp { lhs, rhs, .. } => {
            if mentions(remap(*lhs, mapping), source_id) {
                lemma_remapped(*lhs, mapping, grouped, source_id);
            } else {
                lemma_remapped(*rhs, mapping, grouped, source_id);
            }
        },
        PlanView::AggregateOp { value, .. } => {
            lemma_remapped(*value, mapping, grouped, source_id);
        },
        PlanView::CountAll { .. } => {},
        PlanView::Value(_) => {},
    }
}

/// The mapping of the sources of a `FROM` keeps the entries it has, leads
/// to the source of the groups, and has an entry for each source from
/// `from` on.
proof fn lemma_frame_mapping(
    frame: Seq<ScopeTable>,
    grouped: u32,
    from: int,
    offset: u32,
    done: Map<u32, Mapping>,
)
    requires
        0 <= from <= frame.len(),
        leads_to(done, grouped),
        forall|i: int| 0 <= i < from ==> done.contains_key((#[trigger] frame[i]).source_id),
    ensures
        leads_to(frame_mapping(frame, grouped, from, offset, done), grouped),
        forall|i: int|
            0 <= i < frame.len() ==> frame_mapping(
                frame,
                grouped,
                from,
                offset,
                done,
            ).contains_key((#[trigger] frame[i]).source_id),
    decreases frame.len() - from,
{
    if from < frame.len() {
        let next = done.insert(
            frame[from].source_id,
            Mapping { source_id: grouped, column_offset: offset },
        );
        lemma_frame_mapping(
            frame,
            grouped,
            from + 1,
            crate::queryplan::planning::add_offsets(
                offset,
                crate::queryplan::planning::column_count(frame[from].names.len()),
            ),
            next,
        );
    }
}

/// No column of a source of the `FROM` is read behind its grouping: a
/// source of which the outer plan of a grouped statement reads a column
/// is the source of the groups, or it is none of the sources of the
/// `FROM` of the statement. The same holds of the grouping expressions.
pub proof fn lemma_grouped_plan_reads_groups(
    frame: Seq<ScopeTable>,
    steps: Seq<StepView>,
    grouped: u32,
    group_by: Seq<PlanView>,
    having: Option<PlanView>,
    fields: Seq<PlanView>,
    source_id: u32,
)
    requires
        grouped_plan(frame, steps, grouped, group_by, having, fields) matches PlanView::TempGroupBy {
            group_by_values,
            yield_out_fn,
            ..
        } && (mentions(*yield_out_fn, source_id) || mentioned_in(group_by_values, source_id, 0)),
    ensures
        source_id == grouped || forall|i: int|
            0 <= i < frame.len() ==> (#[trigger] frame[i]).source_id != source_id,
{
    let mapping = frame_mapping(frame, grouped, 0, 0, Map::empty());
    lemma_frame_mapping(frame, grouped, 0, 0, Map::empty());
    let out = PlanView::Yield { fields };
    let guarded = match having {
        Some(h) => PlanView::If { predicate: Box::new(h), yield_fn: Box::new(out) },
        None => out,
    };
    if mentions(remap(guarded, mapping), source_id) {
        lemma_remapped(guarded, mapping, grouped, source_id);
    } else {
        lemma_remapped_list(group_by, mapping, grouped, source_id, 0);
    }
    if source_id != grouped {
        assert forall|i: int| 0 <= i < frame.len() implies (#[trigger] frame[i]).source_id
            != source_id by {
            if frame[i].source_id == source_id {
                assert(mapping.contains_key(frame[i].source_id));
            }
        }
    }
}

/// Whether no two groups have the same key.
pub open spec fn keys_distinct(groups: Seq<GroupView>) -> bool {
    forall|i: int, j: int|
        0 <= i < groups.len() && 0 <= j < groups.len() && i != j ==> (#[trigger] groups[i]).key != (
        #[trigger] groups[j]).key
}

/// Where a key is found, there it is; where it is not found, it is not
/// there.
proof fn lemma_find_key(groups: Seq<GroupView>, key: Seq<Value>, from: int)
    requires
        0 <= from,
    ensures
        match find_key(groups, key, from) {
            Some(i) => from <= i < groups.len() && groups[i].key == key,
            None => forall|i: int| from <= i < groups.len() ==> (#[trigger] groups[i]).key != key,
        },
    decreases groups.len() - from,
{
    if from < groups.len() && groups[from].key != key {
        lemma_find_key(groups, key, from + 1);
    }
}

/// A row that joins the groups leaves their keys distinct.
pub proof fn lemma_insert_keeps_keys_distinct(
    groups: Seq<GroupView>,
    key: Seq<Value>,
    row: Seq<Value>,
)
    requires
        keys_distinct(groups),
    ensures
        keys_distinct(groups_insert(groups, key, row)),
        groups.len() <= groups_insert(groups, key, row).len() <= groups.len() + 1,
        exists|i: int|
            0 <= i < groups_insert(groups, key, row).len() && (#[trigger] groups_insert(
                groups,
                key,
                row,
            )[i]).key == key,
{
    lemma_find_key(groups, key, 0);
    let after = groups_insert(groups, key, row);
    match find_key(groups, key, 0) {
        Some(i) => {
            assert(after[i].key == key);
        },
        None => {
            assert(after[groups.len() as int].key == key);
        },
    }
}

/// The key of a row of a grouping: the values of the grouping expressions
/// with the row bound to the source of the grouping.
pub open spec fn key_of_row(floats: FloatModel, p: PlanView, env: Env, row: Seq<Value>) -> Result<
    Seq<Value>,
    ExecuteError,
> {
    match p {
        PlanView::TempGroupBy { source_id, .. } => resolve_list(floats,
            p,
            bind_row(env, source_id, row),
            0,
            Seq::empty(),
        ),
        _ => Err(ExecuteError::ExecutionTypeMismatch),
    }
}

/// Whether the groups are the groups of the first `upto` rows: each group
/// has the key of one of the rows, and each of the rows has the key of
/// one of the groups.
pub open spec fn groups_of_rows(floats: FloatModel,
    p: PlanView,
    env: Env,
    rows: Seq<Seq<Value>>,
    upto: int,
    groups: Seq<GroupView>,
) -> bool {
    &&& forall|g: int|
        0 <= g < groups.len() ==> exists|i: int|
            0 <= i < upto && key_of_row(floats, p, env, rows[i]) == Ok::<Seq<Value>, ExecuteError>(
                (#[trigger] groups[g]).key,
            )
    &&& forall|i: int|
        0 <= i < upto ==> exists|g: int|
            0 <= g < groups.len() && key_of_row(floats, p, env, #[trigger] rows[i]) == Ok::<
                Seq<Value>,
                ExecuteError,
            >(groups[g].key)
}

/// The groups that are collected are the groups of the rows: there is
/// one group for each key that a row has, and no other.
pub proof fn lemma_groups_are_the_keys(floats: FloatModel,
    p: PlanView,
    rows: Seq<Seq<Value>>,
    env: Env,
    from: int,
    groups: Seq<GroupView>,
)
    requires
        p is TempGroupBy,
        0 <= from <= rows.len(),
        groups_of_rows(floats, p, env, rows, from, groups),
        keys_distinct(groups),
    ensures
        group_rows(
            floats,
            p,
            rows,
            env,
            from,
            groups,
        ) matches Ok(collected) ==> groups_of_rows(floats,
            p,
            env,
            rows,
            rows.len() as int,
            collected,
        ) && keys_distinct(collected),
    decreases rows.len() - from,
{
    if from < rows.len() {
        match key_of_row(floats, p, env, rows[from]) {
            Ok(key) => {
                let next = groups_insert(groups, key, rows[from]);
                lemma_find_key(groups, key, 0);
                lemma_insert_keeps_keys_distinct(groups, key, rows[from]);
                assert forall|g: int| 0 <= g < next.len() implies exists|i: int|
                    0 <= i < from + 1 && key_of_row(floats, p, env, rows[i]) == Ok::<
                        Seq<Value>,
                        ExecuteError,
                    >((#[trigger] next[g]).key) by {
                    if g < groups.len() && next[g].key == groups[g].key {
                        let i = choose|i: int|
                            0 <= i < from && key_of_row(floats, p, env, rows[i]) == Ok::<
                                Seq<Value>,
                                ExecuteError,
                            >(groups[g].key);
                        assert(0 <= i < from + 1);
                    } else {
                        assert(next[g].key == key);
                        assert(0 <= from < from + 1);
                    }
                }
                assert forall|i: int| 0 <= i < from + 1 implies exists|g: int|
                    0 <= g < next.len() && key_of_row(floats, p, env, #[trigger] rows[i]) == Ok::<
                        Seq<Value>,
                        ExecuteError,
                    >(next[g].key) by {
                    if i < from {
                        let g = choose|g: int|
                            0 <= g < groups.len() && key_of_row(floats, p, env, rows[i]) == Ok::<
                                Seq<Value>,
                                ExecuteError,
                            >(groups[g].key);
                        assert(next[g].key == groups[g].key);
                    } else {
                        let g = choose|g: int| 0 <= g < next.len() && next[g].key == key;
                        assert(next[g].key == key);
                    }
                }
                lemma_groups_are_the_keys(floats, p, rows, env, from + 1, next);
            },
            Err(_) => {},
        }
    }
}

/// Each group makes one row where the outer plan of a grouping is a
/// `Yield`.
proof fn lemma_one_row_for_each_group(floats: FloatModel,
    p: PlanView,
    groups: Seq<Seq<Seq<Value>>>,
    env: Env,
    from: int,
    done: Seq<Seq<Value>>,
)
    requires
        p matches PlanView::TempGroupBy { yield_out_fn, .. } && *yield_out_fn is Yield,
        0 <= from <= groups.len(),
    ensures
        each_group(floats, p, groups, env, from, done) matches Ok(out) ==> out.len() == done.len()
            + groups.len() - from,
    decreases groups.len() - from,
{
    if from < groups.len() {
        match p {
            PlanView::TempGroupBy { source_id, yield_out_fn, .. } => {
                match run(floats,
                    *yield_out_fn,
                    crate::queryplan::execute::semantics::bind_group(env, source_id, groups[from]),
                ) {
                    Ok(out) => {
                        assert(out.len() == 1);
                        lemma_one_row_for_each_group(floats, p, groups, env, from + 1, done + out);
                    },
                    Err(_) => {},
                }
            },
            _ => {},
        }
    }
}

/// A grouping without `HAVING` yields one row for each group: as many
/// rows as the rows it groups have distinct keys; but one row where
/// nothing is grouped by and there is no row.
pub proof fn lemma_grouping_yields_a_row_for_each_key(floats: FloatModel, p: PlanView, env: Env)
    requires
        p matches PlanView::TempGroupBy { yield_out_fn, .. } && *yield_out_fn is Yield,
        run(floats, p, env) is Ok,
    ensures
        p matches PlanView::TempGroupBy { yield_in_fn, group_by_values, .. } && run(floats,
            *yield_in_fn,
            env,
        ) matches Ok(rows) && group_rows(floats, p, rows, env, 0, Seq::empty()) matches Ok(groups)
            && keys_distinct(groups) && groups_of_rows(
                floats,
                p,
                env,
                rows,
                rows.len() as int,
                groups,
            )
            && run(
                floats,
                p,
                env,
            ).unwrap().len() == (if group_by_values.len() == 0 && groups.len() == 0 {
            1
        } else {
            groups.len()
        }),
{
    match p {
        PlanView::TempGroupBy { source_id, yield_in_fn, group_by_values, yield_out_fn } => {
            let rows = run(floats, *yield_in_fn, env).unwrap();
            lemma_groups_are_the_keys(floats, p, rows, env, 0, Seq::empty());
            let groups = group_rows(floats, p, rows, env, 0, Seq::empty()).unwrap();
            lemma_one_row_for_each_group(floats,
                p,
                groups_to_yield(group_by_values.len(), groups),
                env,
                0,
                Seq::empty(),
            );
        },
        _ => {},
    }
}

/// A grouped statement without `HAVING` has a grouping whose outer plan
/// is a `Yield`.
pub proof fn lemma_grouped_plan_yields(
    frame: Seq<ScopeTable>,
    steps: Seq<StepView>,
    grouped: u32,
    group_by: Seq<PlanView>,
    fields: Seq<PlanView>,
)
    ensures
        grouped_plan(frame, steps, grouped, group_by, None, fields) matches PlanView::TempGroupBy {
            yield_out_fn,
            ..
        } && *yield_out_fn is Yield,
{
}

/// The environments in which the plan nested in the steps from `from` on
/// is run: one for each combination of rows of the sources that passes
/// the conditions of the joins and of `WHERE`, in the order in which the
/// combinations are made.
pub open spec fn combinations(
    floats: FloatModel,
    steps: Seq<StepView>,
    from: int,
    env: Env,
) -> Result<
    Seq<Env>,
    ExecuteError,
>
    decreases steps.len() - from, 1nat, 0nat,
{
    if from < 0 || from >= steps.len() {
        Ok(seq![env])
    } else {
        match steps[from] {
            StepView::Scan { source_id, table } => match table.rows() {
                Some(rows) => bound_rows(
                    floats,
                    steps,
                    from,
                    source_id,
                    rows,
                    env,
                    0,
                    Seq::empty(),
                ),
                None => Err(ExecuteError::StorageError),
            },
            StepView::Subquery { source_id, expr } => match run(floats, expr, env) {
                Ok(rows) => bound_rows(floats, steps, from, source_id, rows, env, 0, Seq::empty()),
                Err(e) => Err(e),
            },
            StepView::Filter { predicate } => match resolve(floats, predicate, env) {
                Ok(v) => if v.tests_true() {
                    combinations(floats, steps, from + 1, env)
                } else {
                    Ok(Seq::empty())
                },
                Err(e) => Err(e),
            },
            StepView::LeftJoin { source_id, table, on, right_rows_if_none } => match run(floats,
                table,
                env,
            ) {
                Ok(rows) => match joined_rows(
                    floats,
                    steps,
                    from,
                    rows,
                    env,
                    0,
                    Seq::empty(),
                    false,
                ) {
                    Ok((envs, passed)) => if passed {
                        Ok(envs)
                    } else {
                        combinations(
                            floats,
                            steps,
                            from + 1,
                            bind_row(env, source_id, right_rows_if_none),
                        )
                    },
                    Err(e) => Err(e),
                },
                Err(e) => Err(e),
            },
        }
    }
}

/// The combinations with each of the rows from `at` on bound to the
/// source, behind `done`.
pub open spec fn bound_rows(floats: FloatModel,
    steps: Seq<StepView>,
    from: int,
    source_id: u32,
    rows: Seq<Seq<Value>>,
    env: Env,
    at: int,
    done: Seq<Env>,
) -> Result<Seq<Env>, ExecuteError>
    decreases steps.len() - from, 0nat, rows.len() - at,
{
    if 0 <= at < rows.len() && 0 <= from < steps.len() {
        match combinations(floats, steps, from + 1, bind_row(env, source_id, rows[at])) {
            Ok(envs) => bound_rows(floats, steps, from, source_id, rows, env, at + 1, done + envs),
            Err(e) => Err(e),
        }
    } else {
        Ok(done)
    }
}

/// The combinations with each of the rows from `at` on that passes the
/// condition of a left join, behind `done`, and whether there was such a
/// row.
pub open spec fn joined_rows(floats: FloatModel,
    steps: Seq<StepView>,
    from: int,
    rows: Seq<Seq<Value>>,
    env: Env,
    at: int,
    done: Seq<Env>,
    passed: bool,
) -> Result<(Seq<Env>, bool), ExecuteError>
    decreases steps.len() - from, 0nat, rows.len() - at,
{
    if 0 <= at < rows.len() && 0 <= from < steps.len() {
        match steps[from] {
            StepView::LeftJoin { source_id, on, .. } => {
                let inner = bind_row(env, source_id, rows[at]);
                match resolve(floats, on, inner) {
                    Ok(v) => if v.tests_true() {
                        match combinations(floats, steps, from + 1, inner) {
                            Ok(envs) => joined_rows(floats,
                                steps,
                                from,
                                rows,
                                env,
                                at + 1,
                                done + envs,
                                true,
                            ),
                            Err(e) => Err(e),
                        }
                    } else {
                        joined_rows(floats, steps, from, rows, env, at + 1, done, passed)
                    },
                    Err(e) => Err(e),
                }
            },
            _ => Ok((done, passed)),
        }
    } else {
        Ok((done, passed))
    }
}

/// The rows that a plan yields in each of the environments, one after the
/// other.
pub open spec fn yields(
    floats: FloatModel,
    core: PlanView,
    envs: Seq<Env>,
) -> Result<Seq<Seq<Value>>, ExecuteError>
    decreases envs.len(),
{
    if envs.len() == 0 {
        Ok(Seq::empty())
    } else {
        match yields(floats, core, envs.drop_last()) {
            Ok(before) => match run(floats, core, envs.last()) {
                Ok(out) => Ok(before + out),
                Err(e) => Err(e),
            },
            Err(e) => Err(e),
        }
    }
}

/// What is yielded in environments one after the other is what is
/// yielded in the first of them and then in the rest.
proof fn lemma_yields_add(floats: FloatModel, core: PlanView, a: Seq<Env>, b: Seq<Env>)
    requires
        yields(floats, core, a) is Ok,
        yields(floats, core, b) is Ok,
    ensures
        yields(floats, core, a + b) == Ok::<Seq<Seq<Value>>, ExecuteError>(
            yields(floats, core, a).unwrap() + yields(floats, core, b).unwrap(),
        ),
    decreases b.len(),
{
    if b.len() == 0 {
        assert(a + b =~= a);
        assert(yields(
            floats,
            core,
            a,
        ).unwrap() + yields(floats, core, b).unwrap() =~= yields(floats, core, a).unwrap());
    } else {
        lemma_yields_add(floats, core, a, b.drop_last());
        assert((a + b).drop_last() =~= a + b.drop_last());
        assert((a + b).last() == b.last());
        let x = yields(floats, core, a).unwrap();
        let y = yields(floats, core, b.drop_last()).unwrap();
        let z = run(floats, core, b.last()).unwrap();
        assert((x + y) + z =~= x + (y + z));
    }
}

/// The steps are put around a plan from the last to the first: the plan
/// with all steps around it is the first step around the plan with the
/// other steps around it.
proof fn lemma_nest_front(steps: Seq<StepView>, inner: PlanView)
    requires
        steps.len() > 0,
    ensures
        nest(steps, inner) == apply_step(steps[0], nest(steps.drop_first(), inner)),
    decreases steps.len(),
{
    if steps.len() == 1 {
        assert(steps.drop_last() =~= Seq::<StepView>::empty());
        assert(steps.drop_first() =~= Seq::<StepView>::empty());
        reveal_with_fuel(nest, 2);
    } else {
        let wrapped = apply_step(steps.last(), inner);
        lemma_nest_front(steps.drop_last(), wrapped);
        assert(steps.drop_last().drop_first() =~= steps.drop_first().drop_last());
        assert(steps.drop_first().last() == steps.last());
        assert(steps.drop_last()[0] == steps[0]);
    }
}

/// The plan with the steps from `from` on around it.
pub open spec fn nest_from(steps: Seq<StepView>, from: int, core: PlanView) -> PlanView {
    nest(steps.skip(from), core)
}

proof fn lemma_nest_from(steps: Seq<StepView>, from: int, core: PlanView)
    requires
        0 <= from < steps.len(),
    ensures
        nest_from(steps, from, core) == apply_step(steps[from], nest_from(steps, from + 1, core)),
{
    lemma_nest_front(steps.skip(from), core);
    assert(steps.skip(from).drop_first() =~= steps.skip(from + 1));
}

/// The rows of a scan or of a subquery, from `at` on.
proof fn lemma_bound_rows(floats: FloatModel,
    steps: Seq<StepView>,
    from: int,
    core: PlanView,
    env: Env,
    source_id: u32,
    rows: Seq<Seq<Value>>,
    at: int,
    done_rows: Seq<Seq<Value>>,
    done_envs: Seq<Env>,
)
    requires
        0 <= from < steps.len(),
        0 <= at <= rows.len(),
        match steps[from] {
            StepView::Scan { source_id: s, .. } => s == source_id,
            StepView::Subquery { source_id: s, .. } => s == source_id,
            _ => false,
        },
        each_row(floats, nest_from(steps, from, core), rows, env, at, done_rows) is Ok,
        yields(floats, core, done_envs) == Ok::<Seq<Seq<Value>>, ExecuteError>(done_rows),
    ensures
        bound_rows(
            floats,
            steps,
            from,
            source_id,
            rows,
            env,
            at,
            done_envs,
        ) matches Ok(envs) && yields(floats,
            core,
            envs,
        ) == each_row(floats, nest_from(steps, from, core), rows, env, at, done_rows),
    decreases steps.len() - from, 0nat, rows.len() - at,
{
    lemma_nest_from(steps, from, core);
    if at < rows.len() {
        let inner = bind_row(env, source_id, rows[at]);
        lemma_rows_match_combinations(floats, steps, from + 1, core, inner);
        let out = run(floats, nest_from(steps, from + 1, core), inner).unwrap();
        let envs = combinations(floats, steps, from + 1, inner).unwrap();
        lemma_yields_add(floats, core, done_envs, envs);
        lemma_bound_rows(floats,
            steps,
            from,
            core,
            env,
            source_id,
            rows,
            at + 1,
            done_rows + out,
            done_envs + envs,
        );
    }
}

/// The rows of the right side of a left join, from `at` on.
proof fn lemma_joined_rows(floats: FloatModel,
    steps: Seq<StepView>,
    from: int,
    core: PlanView,
    env: Env,
    rows: Seq<Seq<Value>>,
    at: int,
    done_rows: Seq<Seq<Value>>,
    done_envs: Seq<Env>,
    passed: bool,
)
    requires
        0 <= from < steps.len(),
        0 <= at <= rows.len(),
        steps[from] is LeftJoin,
        join_rows(floats, nest_from(steps, from, core), rows, env, at, done_rows, passed) is Ok,
        yields(floats, core, done_envs) == Ok::<Seq<Seq<Value>>, ExecuteError>(done_rows),
    ensures
        joined_rows(floats, steps, from, rows, env, at, done_envs, passed) matches Ok((envs, any))
            && join_rows(
                floats,
                nest_from(steps, from, core),
                rows,
                env,
                at,
                done_rows,
                passed,
            ) == Ok::<
            (Seq<Seq<Value>>, bool),
            ExecuteError,
        >((yields(floats, core, envs).unwrap(), any)) && yields(floats, core, envs) is Ok,
    decreases steps.len() - from, 0nat, rows.len() - at,
{
    lemma_nest_from(steps, from, core);
    if at < rows.len() {
        match steps[from] {
            StepView::LeftJoin { source_id, on, .. } => {
                let inner = bind_row(env, source_id, rows[at]);
                let v = resolve(floats, on, inner).unwrap();
                if v.tests_true() {
                    lemma_rows_match_combinations(floats, steps, from + 1, core, inner);
                    let out = run(floats, nest_from(steps, from + 1, core), inner).unwrap();
                    let envs = combinations(floats, steps, from + 1, inner).unwrap();
                    lemma_yields_add(floats, core, done_envs, envs);
                    lemma_joined_rows(floats,
                        steps,
                        from,
                        core,
                        env,
                        rows,
                        at + 1,
                        done_rows + out,
                        done_envs + envs,
                        true,
                    );
                } else {
                    lemma_joined_rows(floats,
                        steps,
                        from,
                        core,
                        env,
                        rows,
                        at + 1,
                        done_rows,
                        done_envs,
                        passed,
                    );
                }
            },
            _ => {},
        }
    }
}

/// A plan nested in steps yields what it yields in each combination of
/// rows that the steps let through, one combination after the other.
pub proof fn lemma_rows_match_combinations(floats: FloatModel,
    steps: Seq<StepView>,
    from: int,
    core: PlanView,
    env: Env,
)
    requires
        0 <= from <= steps.len(),
        run(floats, nest_from(steps, from, core), env) is Ok,
    ensures
        combinations(
            floats,
            steps,
            from,
            env,
        ) matches Ok(envs) && yields(floats, core, envs) == run(floats,
            nest_from(steps, from, core),
            env,
        ),
    decreases steps.len() - from, 1nat, 0nat,
{
    if from == steps.len() {
        assert(steps.skip(from) =~= Seq::<StepView>::empty());
        let envs = seq![env];
        assert(envs.drop_last() =~= Seq::<Env>::empty());
        reveal_with_fuel(yields, 2);
        assert(Seq::<Seq<Value>>::empty() + run(
            floats,
            core,
            env,
        ).unwrap() =~= run(floats, core, env).unwrap());
    } else {
        lemma_nest_from(steps, from, core);
        match steps[from] {
            StepView::Scan { source_id, table } => {
                let rows = table.rows().unwrap();
                lemma_bound_rows(floats,
                    steps,
                    from,
                    core,
                    env,
                    source_id,
                    rows,
                    0,
                    Seq::empty(),
                    Seq::empty(),
                );
            },
            StepView::Subquery { source_id, expr } => {
                let rows = run(floats, expr, env).unwrap();
                lemma_bound_rows(floats,
                    steps,
                    from,
                    core,
                    env,
                    source_id,
                    rows,
                    0,
                    Seq::empty(),
                    Seq::empty(),
                );
            },
            StepView::Filter { predicate } => {
                let v = resolve(floats, predicate, env).unwrap();
                if v.tests_true() {
                    lemma_rows_match_combinations(floats, steps, from + 1, core, env);
                }
            },
            StepView::LeftJoin { source_id, table, on, right_rows_if_none } => {
                let rows = run(floats, table, env).unwrap();
                lemma_joined_rows(floats,
                    steps,
                    from,
                    core,
                    env,
                    rows,
                    0,
                    Seq::empty(),
                    Seq::empty(),
                    false,
                );
                let joined = joined_rows(
                    floats,
                    steps,
                    from,
                    rows,
                    env,
                    0,
                    Seq::empty(),
                    false,
                ).unwrap();
                if !joined.1 {
                    lemma_rows_match_combinations(floats,
                        steps,
                        from + 1,
                        core,
                        bind_row(env, source_id, right_rows_if_none),
                    );
                }
            },
        }
    }
}

/// A `Yield` makes one row in each environment: the values of its
/// fields.
proof fn lemma_yields_of_fields(floats: FloatModel, fields: Seq<PlanView>, envs: Seq<Env>)
    requires
        yields(floats, PlanView::Yield { fields }, envs) is Ok,
    ensures
        yields(floats, PlanView::Yield { fields }, envs).unwrap().len() == envs.len(),
        forall|i: int|
            0 <= i < envs.len() ==> resolve_list(floats,
                PlanView::Yield { fields },
                #[trigger] envs[i],
                0,
                Seq::empty(),
            ) == Ok::<Seq<Value>, ExecuteError>(
                yields(floats, PlanView::Yield { fields }, envs).unwrap()[i],
            ),
    decreases envs.len(),
{
    if envs.len() > 0 {
        let core = PlanView::Yield { fields };
        lemma_yields_of_fields(floats, fields, envs.drop_last());
        let before = yields(floats, core, envs.drop_last()).unwrap();
        let out = run(floats, core, envs.last()).unwrap();
        assert(out.len() == 1);
        let all = yields(floats, core, envs).unwrap();
        assert(all =~= before + out);
        assert forall|i: int| 0 <= i < envs.len() implies resolve_list(floats,
            core,
            #[trigger] envs[i],
            0,
            Seq::empty(),
        ) == Ok::<Seq<Value>, ExecuteError>(all[i]) by {
            if i < envs.len() - 1 {
                assert(envs.drop_last()[i] == envs[i]);
                assert(all[i] == before[i]);
            } else {
                assert(all[i] == out[0]);
            }
        }
    }
}

/// The rows of a statement without aggregates and without grouping
/// correspond one to one to the combinations of rows of its sources that
/// pass the conditions of its joins and of its `WHERE`: the plan of such
/// a statement is a `Yield` of its columns nested in the steps of its
/// `FROM` and `WHERE`, and the rows it yields are, in order, the values
/// of the columns in each combination.
pub proof fn lemma_rows_are_the_combinations(floats: FloatModel,
    steps: Seq<StepView>,
    fields: Seq<PlanView>,
    env: Env,
)
    requires
        run(floats, nest(steps, PlanView::Yield { fields }), env) is Ok,
    ensures
        combinations(floats, steps, 0, env) matches Ok(envs) && run(floats,
            nest(steps, PlanView::Yield { fields }),
            env,
        ).unwrap().len() == envs.len() && forall|i: int|
            0 <= i < envs.len() ==> resolve_list(floats,
                PlanView::Yield { fields },
                #[trigger] envs[i],
                0,
                Seq::empty(),
            ) == Ok::<Seq<Value>, ExecuteError>(
                run(floats, nest(steps, PlanView::Yield { fields }), env).unwrap()[i],
            ),
{
    assert(steps.skip(0) =~= steps);
    lemma_rows_match_combinations(floats, steps, 0, PlanView::Yield { fields }, env);
    lemma_yields_of_fields(floats, fields, combinations(floats, steps, 0, env).unwrap());
}

} // verus!
