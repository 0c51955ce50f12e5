//! The functions over the rows of a group.

use vstd::prelude::*;
use crate::floatops::FloatOps;
use crate::queryplan::execute::semantics::{
    aggregate_feed, aggregate_finish, aggregate_start, AggregateState, ExecuteError,
};
use crate::queryplan::sexpression::AggregateOp;
use crate::types::variant::{option_view, Variant};
use crate::types::DbType;

verus! {

/// A function over the values of a group: it is fed the values one by one
/// and then gives its result.
pub trait AggregateFunction: Sized {
    /// The function that is computed.
    spec fn op(&self) -> AggregateOp;

    /// What the function has seen so far.
    spec fn state(&self) -> AggregateState;

    /// Takes one more value.
    fn feed<F: FloatOps>(&mut self, value: Variant, host: &F) -> (r: Result<(), ExecuteError>)
        requires
            old(self).state().count < u64::MAX,
        ensures
            final(self).op() == old(self).op(),
            match r {
                Ok(_) => aggregate_feed(
                    host.model(),
                    old(self).op(),
                    old(self).state(),
                    value@,
                ) == Ok::<
                    AggregateState,
                    ExecuteError,
                >(final(self).state()),
                Err(e) => aggregate_feed(
                    host.model(),
                    old(self).op(),
                    old(self).state(),
                    value@,
                ) == Err::<
                    AggregateState,
                    ExecuteError,
                >(e),
            },
    ;

    /// The result.
    fn finish<F: FloatOps>(self, host: &F) -> (r: Variant)
        requires
            self.state().count <= u64::MAX,
        ensures
            r@ == aggregate_finish(host.model(), self.op(), self.state()),
    ;
}

/// The state of one of the aggregate functions.
pub struct Aggregator {
    op: AggregateOp,
    count: u64,
    sum: u64,
    extremum: Option<Variant>,
}

impl AggregateFunction for Aggregator {
    closed spec fn op(&self) -> AggregateOp {
        self.op
    }

    closed spec fn state(&self) -> AggregateState {
        AggregateState {
            count: self.count as nat,
            sum: self.sum,
            extremum: option_view(self.extremum),
        }
    }

    fn feed<F: FloatOps>(&mut self, value: Variant, host: &F) -> (r: Result<(), ExecuteError>) {
        if value.is_null() {
            return Ok(());
        }
        match self.op {
            AggregateOp::Count => {
                self.count = self.count + 1;
                Ok(())
            },
            AggregateOp::Avg | AggregateOp::Sum => {
                match value.cast(DbType::F64, host) {
                    Some(Variant::Float(x)) => {
                        self.sum = host.add(self.sum, x.to_bits());
                        self.count = self.count + 1;
                        Ok(())
                    },
                    _ => Err(ExecuteError::ExecutionTypeMismatch),
                }
            },
            AggregateOp::Min => {
                let set: bool = match &self.extremum {
                    Some(least) => match value.compare(least, host) {
                        Some(c) => c == -1,
                        None => false,
                    },
                    None => true,
                };
                if set {
                    self.extremum = Some(value);
                }
                Ok(())
            },
            AggregateOp::Max => {
                let set: bool = match &self.extremum {
                    Some(greatest) => match value.compare(greatest, host) {
                        Some(c) => c == 1,
                        None => false,
                    },
                    None => true,
                };
                if set {
                    self.extremum = Some(value);
                }
                Ok(())
            },
        }
    }

    fn finish<F: FloatOps>(self, host: &F) -> (r: Variant) {
        match self.op {
            AggregateOp::Count => Variant::from_u64(self.count),
            AggregateOp::Avg => {
                if self.count == 0 {
                    Variant::null()
                } else {
                    let n: u64 = host.from_unsigned(self.count);
                    Variant::float_or_null(host.div(self.sum, n))
                }
            },
            AggregateOp::Sum => {
                if self.count == 0 {
                    Variant::null()
                } else {
                    Variant::float_or_null(self.sum)
                }
            },
            AggregateOp::Min | AggregateOp::Max => match self.extremum {
                Some(v) => v,
                None => Variant::null(),
            },
        }
    }
}

/// The aggregate function of the given kind, before any value.
pub fn get_aggregate_function(op: AggregateOp) -> (r: Aggregator)
    ensures
        r.op() == op,
        r.state() == aggregate_start(),
{
    Aggregator { op, count: 0, sum: 0, extremum: None }
}

} // verus!
