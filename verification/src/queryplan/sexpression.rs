//! The algebra of query plans.

use vstd::prelude::*;
use crate::floatops::{FloatModel, FloatOps};
use crate::tempdb::table::Table;
use crate::text::{decimal_chars, push_decimal, push_str};
use crate::types::variant::{row_view, Value, Variant};

verus! {

/// An operator of two operands.
#[derive(Debug, Clone, Copy, PartialEq, Eq, Structural)]
pub enum BinaryOp {
    Equal,
    NotEqual,
    LessThan,
    LessThanOrEqual,
    GreaterThan,
    GreaterThanOrEqual,
    And,
    Or,
    Add,
    Subtract,
    Multiply,
    Divide,
    BitAnd,
    BitOr,
    Concatenate,
}

impl BinaryOp {
    /// How the operator is written in a plan.
    pub fn sigil(&self) -> (r: &'static str)
        ensures
            r@ == self.sigil_text(),
    {
        match self {
            BinaryOp::Equal => "=",
            BinaryOp::NotEqual => "<>",
            BinaryOp::LessThan => "<",
            BinaryOp::LessThanOrEqual => "<=",
            BinaryOp::GreaterThan => ">",
            BinaryOp::GreaterThanOrEqual => ">=",
            BinaryOp::And => "and",
            BinaryOp::Or => "or",
            BinaryOp::Add => "+",
            BinaryOp::Subtract => "-",
            BinaryOp::Multiply => "*",
            BinaryOp::Divide => "/",
            BinaryOp::BitAnd => "&",
            BinaryOp::BitOr => "|",
            BinaryOp::Concatenate => "concat",
        }
    }

    /// How the operator is written in a plan.
    pub open spec fn sigil_text(&self) -> Seq<char> {
        match self {
            BinaryOp::Equal => "="@,
            BinaryOp::NotEqual => "<>"@,
            BinaryOp::LessThan => "<"@,
            BinaryOp::LessThanOrEqual => "<="@,
            BinaryOp::GreaterThan => ">"@,
            BinaryOp::GreaterThanOrEqual => ">="@,
            BinaryOp::And => "and"@,
            BinaryOp::Or => "or"@,
            BinaryOp::Add => "+"@,
            BinaryOp::Subtract => "-"@,
            BinaryOp::Multiply => "*"@,
            BinaryOp::Divide => "/"@,
            BinaryOp::BitAnd => "&"@,
            BinaryOp::BitOr => "|"@,
            BinaryOp::Concatenate => "concat"@,
        }
    }
}

/// An operator of one operand.
#[derive(Debug, Clone, Copy, PartialEq, Eq, Structural)]
pub enum UnaryOp {
    Negate,
}

impl UnaryOp {
    /// How the operator is written in a plan.
    pub fn name(&self) -> (r: &'static str)
        ensures
            r@ == self.name_text(),
    {
        match self {
            UnaryOp::Negate => "negate",
        }
    }

    /// How it is written in a plan.
    pub open spec fn name_text(&self) -> Seq<char> {
        match self {
            UnaryOp::Negate => "negate"@,
        }
    }
}

/// A function over the rows of a group.
#[derive(Debug, Clone, Copy, PartialEq, Eq, Structural)]
pub enum AggregateOp {
    Count,
    Avg,
    Sum,
    Min,
    Max,
}

impl AggregateOp {
    /// How the function is written in a plan.
    pub fn name(&self) -> (r: &'static str)
        ensures
            r@ == self.name_text(),
    {
        match self {
            AggregateOp::Count => "count",
            AggregateOp::Avg => "avg",
            AggregateOp::Sum => "sum",
            AggregateOp::Min => "min",
            AggregateOp::Max => "max",
        }
    }

    /// How it is written in a plan.
    pub open spec fn name_text(&self) -> Seq<char> {
        match self {
            AggregateOp::Count => "count"@,
            AggregateOp::Avg => "avg"@,
            AggregateOp::Sum => "sum"@,
            AggregateOp::Min => "min"@,
            AggregateOp::Max => "max"@,
        }
    }
}

#[allow(inconsistent_fields)]
/// A query plan: a tree of operators. The operators that stand for rows
/// hand each row they make to the operator nested in them; the others
/// stand for one value.
pub enum SExpression<'a> {
    /// Each row of the table, bound to the source.
    Scan { table: &'a Table, source_id: u32, yield_fn: Box<SExpression<'a>> },
    /// Each row of the inner plan, bound to the source.
    MapEach { source_id: u32, yield_in_fn: Box<SExpression<'a>>, yield_out_fn: Box<SExpression<'a>> },
    /// The rows of the inner plan, collected into groups by the values of
    /// the grouping expressions; each group is bound to the source once.
    TempGroupBy {
        source_id: u32,
        yield_in_fn: Box<SExpression<'a>>,
        group_by_values: Vec<SExpression<'a>>,
        yield_out_fn: Box<SExpression<'a>>,
    },
    /// One row made of the values of the fields.
    Yield { fields: Vec<SExpression<'a>> },
    /// A column of the row bound to the source.
    ColumnField { source_id: u32, column_offset: u32 },
    /// The rows of the nested plan where the predicate is true.
    If { predicate: Box<SExpression<'a>>, yield_fn: Box<SExpression<'a>> },
    /// Each row of the inner plan for which the predicate is true, bound to
    /// the source; where there is none, the substitute row once.
    LeftJoin {
        source_id: u32,
        yield_in_fn: Box<SExpression<'a>>,
        predicate: Box<SExpression<'a>>,
        yield_out_fn: Box<SExpression<'a>>,
        right_rows_if_none: Vec<Variant>,
    },
    UnaryOp { op: UnaryOp, expr: Box<SExpression<'a>> },
    BinaryOp { op: BinaryOp, lhs: Box<SExpression<'a>>, rhs: Box<SExpression<'a>> },
    /// A function over the rows of the group bound to the source.
    AggregateOp { op: AggregateOp, source_id: u32, value: Box<SExpression<'a>> },
    /// The number of rows of the group bound to the source.
    CountAll { source_id: u32 },
    Value(Variant),
}

#[allow(inconsistent_fields)]
/// A query plan as mathematics sees it.
pub enum PlanView {
    Scan { table: Table, source_id: u32, yield_fn: Box<PlanView> },
    MapEach { source_id: u32, yield_in_fn: Box<PlanView>, yield_out_fn: Box<PlanView> },
    TempGroupBy {
        source_id: u32,
        yield_in_fn: Box<PlanView>,
        group_by_values: Seq<PlanView>,
        yield_out_fn: Box<PlanView>,
    },
    Yield { fields: Seq<PlanView> },
    ColumnField { source_id: u32, column_offset: u32 },
    If { predicate: Box<PlanView>, yield_fn: Box<PlanView> },
    LeftJoin {
        source_id: u32,
        yield_in_fn: Box<PlanView>,
        predicate: Box<PlanView>,
        yield_out_fn: Box<PlanView>,
        right_rows_if_none: Seq<Value>,
    },
    UnaryOp { op: UnaryOp, expr: Box<PlanView> },
    BinaryOp { op: BinaryOp, lhs: Box<PlanView>, rhs: Box<PlanView> },
    AggregateOp { op: AggregateOp, source_id: u32, value: Box<PlanView> },
    CountAll { source_id: u32 },
    Value(Value),
}

/// The plans that a list of plans stands for.
pub open spec fn plans_view(plans: Seq<SExpression<'_>>) -> Seq<PlanView>
    decreases plans,
{
    Seq::new(
        plans.len(),
        |i: int|
            if 0 <= i < plans.len() {
                plan_view(&plans[i])
            } else {
                PlanView::CountAll { source_id: 0 }
            },
    )
}

/// The plan that an expression stands for.
pub open spec fn plan_view(e: &SExpression<'_>) -> PlanView
    decreases e,
{
    match e {
        SExpression::Scan { table, source_id, yield_fn } => PlanView::Scan {
            table: **table,
            source_id: *source_id,
            yield_fn: Box::new(plan_view(yield_fn)),
        },
        SExpression::MapEach { source_id, yield_in_fn, yield_out_fn } => PlanView::MapEach {
            source_id: *source_id,
            yield_in_fn: Box::new(plan_view(yield_in_fn)),
            yield_out_fn: Box::new(plan_view(yield_out_fn)),
        },
        SExpression::TempGroupBy {
            source_id,
            yield_in_fn,
            group_by_values,
            yield_out_fn,
        } => PlanView::TempGroupBy {
            source_id: *source_id,
            yield_in_fn: Box::new(plan_view(yield_in_fn)),
            group_by_values: plans_view(group_by_values@),
            yield_out_fn: Box::new(plan_view(yield_out_fn)),
        },
        SExpression::Yield { fields } => PlanView::Yield { fields: plans_view(fields@) },
        SExpression::ColumnField { source_id, column_offset } => PlanView::ColumnField {
            source_id: *source_id,
            column_offset: *column_offset,
        },
        SExpression::If { predicate, yield_fn } => PlanView::If {
            predicate: Box::new(plan_view(predicate)),
            yield_fn: Box::new(plan_view(yield_fn)),
        },
        SExpression::LeftJoin {
            source_id,
            yield_in_fn,
            predicate,
            yield_out_fn,
            right_rows_if_none,
        } => PlanView::LeftJoin {
            source_id: *source_id,
            yield_in_fn: Box::new(plan_view(yield_in_fn)),
            predicate: Box::new(plan_view(predicate)),
            yield_out_fn: Box::new(plan_view(yield_out_fn)),
            right_rows_if_none: row_view(right_rows_if_none@),
        },
        SExpression::UnaryOp { op, expr } => PlanView::UnaryOp {
            op: *op,
            expr: Box::new(plan_view(expr)),
        },
        SExpression::BinaryOp { op, lhs, rhs } => PlanView::BinaryOp {
            op: *op,
            lhs: Box::new(plan_view(lhs)),
            rhs: Box::new(plan_view(rhs)),
        },
        SExpression::AggregateOp { op, source_id, value } => PlanView::AggregateOp {
            op: *op,
            source_id: *source_id,
            value: Box::new(plan_view(value)),
        },
        SExpression::CountAll { source_id } => PlanView::CountAll { source_id: *source_id },
        SExpression::Value(v) => PlanView::Value(v@),
    }
}

impl<'a> View for SExpression<'a> {
    type V = PlanView;

    open spec fn view(&self) -> PlanView {
        plan_view(self)
    }
}

/// `indent` times two spaces.
pub open spec fn indent_text(indent: nat) -> Seq<char>
    decreases indent,
{
    if indent == 0 {
        Seq::empty()
    } else {
        indent_text((indent - 1) as nat) + seq![' ', ' ']
    }
}

/// One level deeper, as far as levels are counted.
pub open spec fn deeper(indent: u32) -> u32 {
    if indent < u32::MAX {
        (indent + 1) as u32
    } else {
        indent
    }
}

/// The expressions that a plan lists: the fields of a `Yield`, the
/// grouping expressions of a `TempGroupBy`.
pub open spec fn listed(p: PlanView) -> Seq<PlanView> {
    match p {
        PlanView::Yield { fields } => fields,
        PlanView::TempGroupBy { group_by_values, .. } => group_by_values,
        _ => Seq::empty(),
    }
}

/// The text `out` with the listed expressions of a plan from `from` on
/// behind it: each on a line of its own.
pub open spec fn list_text(
    floats: FloatModel,
    out: Seq<char>,
    p: PlanView,
    indent: u32,
    from: int,
) -> Seq<char>
    decreases p, 0nat, listed(p).len() - from,
{
    let list = listed(p);
    if 0 <= from < list.len() {
        match p {
            PlanView::Yield { fields } => list_text(floats,
                plan_text(floats, out.push('\n'), fields[from], indent),
                p,
                indent,
                from + 1,
            ),
            PlanView::TempGroupBy { group_by_values, .. } => list_text(floats,
                plan_text(floats, out.push('\n'), group_by_values[from], indent),
                p,
                indent,
                from + 1,
            ),
            _ => out,
        }
    } else {
        out
    }
}

/// The text `out` with the text of a plan behind it: one operator in
/// brackets, with the plans nested in it on the lines below, two spaces
/// deeper.
pub open spec fn plan_text(
    floats: FloatModel,
    out: Seq<char>,
    p: PlanView,
    indent: u32,
) -> Seq<char>
    decreases p, 1nat, 0nat,
{
    let inner = deeper(indent);
    let start = out + indent_text(indent as nat);
    match p {
        PlanView::Scan { table, source_id, yield_fn } => plan_text(floats,
            (start + "(scan `"@ + table.name@ + "` :source-id "@ + decimal_chars(
                source_id as nat,
            )).push('\n'),
            *yield_fn,
            inner,
        ).push(')'),
        PlanView::MapEach { source_id, yield_in_fn, yield_out_fn } => plan_text(floats,
            plan_text(floats,
                (start + "(map :source-id "@ + decimal_chars(source_id as nat)).push('\n'),
                *yield_in_fn,
                inner,
            ).push('\n'),
            *yield_out_fn,
            inner,
        ).push(')'),
        PlanView::TempGroupBy { source_id, yield_in_fn, group_by_values, yield_out_fn } =>
            plan_text(floats,
                list_text(floats,
                    plan_text(floats,
                        (start + "(temp-group-by :source-id "@ + decimal_chars(
                            source_id as nat,
                        )).push('\n'),
                        *yield_in_fn,
                        inner,
                    ).push('\n') + indent_text(inner as nat) + "(group-by-values"@,
                    p,
                    deeper(inner),
                    0,
                ).push(')').push('\n'),
                *yield_out_fn,
                inner,
            ).push(')'),
        PlanView::Yield { fields } => list_text(floats, start + "(yield"@, p, inner, 0).push(')'),
        PlanView::ColumnField { source_id, column_offset } => (start
            + "(column-field :source-id "@ + decimal_chars(source_id as nat)
            + " :column-offset "@ + decimal_chars(column_offset as nat)).push(')'),
        PlanView::If { predicate, yield_fn } => plan_text(floats,
            plan_text(floats, (start + "(if "@).push('\n'), *predicate, inner).push('\n'),
            *yield_fn,
            inner,
        ).push(')'),
        PlanView::LeftJoin { source_id, yield_in_fn, predicate, yield_out_fn, .. } => plan_text(
            floats,
            plan_text(floats,
                plan_text(floats,
                    (start + "(left-join :source-id "@ + decimal_chars(source_id as nat)).push(
                        '\n',
                    ),
                    *yield_in_fn,
                    inner,
                ).push('\n'),
                *predicate,
                inner,
            ).push('\n'),
            *yield_out_fn,
            inner,
        ).push(')'),
        PlanView::BinaryOp { op, lhs, rhs } => plan_text(floats,
            plan_text(floats,
                (start.push('(') + op.sigil_text()).push(' ').push('\n'),
                *lhs,
                inner,
            ).push('\n'),
            *rhs,
            inner,
        ).push(')'),
        PlanView::UnaryOp { op, expr } => plan_text(floats,
            (start.push('(') + op.name_text()).push(' ').push('\n'),
            *expr,
            inner,
        ).push(')'),
        PlanView::AggregateOp { op, source_id, value } => plan_text(floats,
            (start.push('(') + op.name_text() + " :source-id "@ + decimal_chars(
                source_id as nat,
            )).push(' ').push('\n'),
            *value,
            inner,
        ).push(')'),
        PlanView::CountAll { source_id } => (start + "(count-all :source-id "@ + decimal_chars(
            source_id as nat,
        )).push(')'),
        PlanView::Value(v) => start + v.text(floats),
    }
}

fn push_indent(out: &mut Vec<char>, indent: u32)
    ensures
        final(out)@ == old(out)@ + indent_text(indent as nat),
{
    let mut i: u32 = 0;
    proof {
        assert(out@ =~= old(out)@ + indent_text(0));
    }
    while i < indent
        invariant
            i <= indent,
            out@ == old(out)@ + indent_text(i as nat),
        decreases indent - i,
    {
        out.push(' ');
        out.push(' ');
        i = i + 1;
        proof {
            assert(out@ =~= old(out)@ + indent_text(i as nat));
        }
    }
}

fn one_deeper(indent: u32) -> (r: u32)
    ensures
        r == deeper(indent),
{
    if indent < u32::MAX {
        indent + 1
    } else {
        indent
    }
}

impl<'a> SExpression<'a> {
    /// Writes the listed expressions of the plan behind `out`, each on a
    /// line of its own.
    #[verifier::loop_isolation(false)]
    fn format_list<F: FloatOps>(&self, out: &mut Vec<char>, indent: u32, host: &F)
        ensures
            final(out)@ == list_text(host.model(), old(out)@, self@, indent, 0),
        decreases self, 0nat,
    {
        let list = match self {
            SExpression::Yield { fields } => fields,
            SExpression::TempGroupBy { group_by_values, .. } => group_by_values,
            _ => {
                return ;
            },
        };
        proof {
            assert(listed(self@) == plans_view(list@));
        }
        let mut i: usize = 0;
        while i < list.len()
            invariant
                i <= list@.len(),
                listed(self@) == plans_view(list@),
                list_text(
                    host.model(),
                    old(out)@,
                    self@,
                    indent,
                    0,
                ) == list_text(host.model(), out@, self@, indent, i as int),
            decreases list@.len() - i,
        {
            proof {
                assert(plans_view(list@)[i as int] == list@[i as int]@);
            }
            out.push('\n');
            list[i].format(out, indent, host);
            i = i + 1;
        }
    }

    /// Writes the text of the plan behind `out`.
    pub fn format<F: FloatOps>(&self, out: &mut Vec<char>, indent: u32, host: &F)
        ensures
            final(out)@ == plan_text(host.model(), old(out)@, self@, indent),
        decreases self, 1nat,
    {
        let inner = one_deeper(indent);
        push_indent(out, indent);
        match self {
            SExpression::Scan { table, source_id, yield_fn } => {
                push_str(out, "(scan `");
                push_str(out, table.name.as_slice());
                push_str(out, "` :source-id ");
                push_decimal(out, *source_id as u64);
                out.push('\n');
                yield_fn.format(out, inner, host);
                out.push(')');
            },
            SExpression::MapEach { source_id, yield_in_fn, yield_out_fn } => {
                push_str(out, "(map :source-id ");
                push_decimal(out, *source_id as u64);
                out.push('\n');
                yield_in_fn.format(out, inner, host);
                out.push('\n');
                yield_out_fn.format(out, inner, host);
                out.push(')');
            },
            SExpression::TempGroupBy { source_id, yield_in_fn, group_by_values, yield_out_fn } => {
                push_str(out, "(temp-group-by :source-id ");
                push_decimal(out, *source_id as u64);
                out.push('\n');
                yield_in_fn.format(out, inner, host);
                out.push('\n');
                push_indent(out, inner);
                push_str(out, "(group-by-values");
                self.format_list(out, one_deeper(inner), host);
                out.push(')');
                out.push('\n');
                yield_out_fn.format(out, inner, host);
                out.push(')');
            },
            SExpression::Yield { fields } => {
                push_str(out, "(yield");
                self.format_list(out, inner, host);
                out.push(')');
            },
            SExpression::ColumnField { source_id, column_offset } => {
                push_str(out, "(column-field :source-id ");
                push_decimal(out, *source_id as u64);
                push_str(out, " :column-offset ");
                push_decimal(out, *column_offset as u64);
                out.push(')');
            },
            SExpression::If { predicate, yield_fn } => {
                push_str(out, "(if ");
                out.push('\n');
                predicate.format(out, inner, host);
                out.push('\n');
                yield_fn.format(out, inner, host);
                out.push(')');
            },
            SExpression::LeftJoin { source_id, yield_in_fn, predicate, yield_out_fn, .. } => {
                push_str(out, "(left-join :source-id ");
                push_decimal(out, *source_id as u64);
                out.push('\n');
                yield_in_fn.format(out, inner, host);
                out.push('\n');
                predicate.format(out, inner, host);
                out.push('\n');
                yield_out_fn.format(out, inner, host);
                out.push(')');
            },
            SExpression::BinaryOp { op, lhs, rhs } => {
                out.push('(');
                push_str(out, op.sigil());
                out.push(' ');
                out.push('\n');
                lhs.format(out, inner, host);
                out.push('\n');
                rhs.format(out, inner, host);
                out.push(')');
            },
            SExpression::UnaryOp { op, expr } => {
                out.push('(');
                push_str(out, op.name());
                out.push(' ');
                out.push('\n');
                expr.format(out, inner, host);
                out.push(')');
            },
            SExpression::AggregateOp { op, source_id, value } => {
                out.push('(');
                push_str(out, op.name());
                push_str(out, " :source-id ");
                push_decimal(out, *source_id as u64);
                out.push(' ');
                out.push('\n');
                value.format(out, inner, host);
                out.push(')');
            },
            SExpression::CountAll { source_id } => {
                push_str(out, "(count-all :source-id ");
                push_decimal(out, *source_id as u64);
                out.push(')');
            },
            SExpression::Value(v) => {
                let text = v.to_string(host);
                push_str(out, text.as_str());
            },
        }
    }
}

} // verus!
