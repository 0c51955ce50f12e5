//! The B+Tree is assumed to be ordered byte-wise.

use vstd::prelude::*;

pub mod bound;
pub mod cell;
pub mod page;

pub use self::bound::{Bound, Order};

verus! {

} // verus!
