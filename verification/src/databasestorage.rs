//! What a stored group of rows offers.

use vstd::prelude::*;
use crate::types::variant::Variant;

verus! {

/// A group of rows.
pub trait Group {
    /// Some row of the group; `None` where the group has no rows.
    fn get_any_row(&self) -> Option<&Vec<Variant>>;

    /// The number of rows.
    fn count(&self) -> u64;

    /// The rows in the order in which they came.
    fn iter(&self) -> &Vec<Vec<Variant>>;
}

} // verus!
