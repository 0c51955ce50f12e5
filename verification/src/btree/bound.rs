//! The ends of a range of keys, and the direction in which it is walked.

use vstd::prelude::*;

verus! {

/// An end of a range of keys.
pub enum Bound<'a> {
    Included(&'a [u8]),
    Excluded(&'a [u8]),
    Unbounded,
}

/// The direction in which keys are walked.
#[derive(Debug, Clone, Copy, PartialEq, Eq, Structural)]
pub enum Order {
    Ascending,
    Descending,
}

} // verus!
