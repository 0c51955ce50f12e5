//! The names of the columns that a source hands out.

use vstd::prelude::*;
use crate::identifier::Identifier;

verus! {

/// The names that identifiers hold.
pub open spec fn names_view(names: Seq<Identifier>) -> Seq<Seq<char>> {
    Seq::new(names.len(), |i: int| names[i]@)
}

/// The places from `from` on at which `name` stands, behind `found`.
/// Places that a 32-bit number cannot hold are passed over.
pub open spec fn offsets_of(names: Seq<Seq<char>>, name: Seq<char>, from: int, found: Seq<u32>)
    -> Seq<u32>
    decreases names.len() - from,
{
    if from < 0 || from >= names.len() || from > u32::MAX {
        found
    } else if names[from] == name {
        offsets_of(names, name, from + 1, found.push(from as u32))
    } else {
        offsets_of(names, name, from + 1, found)
    }
}

/// Contains a vector of identifiers. Duplicates are allowed.
pub struct ColumnNames {
    pub column_names: Vec<Identifier>,
}

impl View for ColumnNames {
    type V = Seq<Seq<char>>;

    open spec fn view(&self) -> Seq<Seq<char>> {
        names_view(self.column_names@)
    }
}

impl ColumnNames {
    /// The names, in order.
    pub fn new(column_names: Vec<Identifier>) -> (r: ColumnNames)
        ensures
            r.column_names == column_names,
    {
        ColumnNames { column_names }
    }

    /// The places at which `name` stands, in order.
    pub fn get_column_offsets(&self, name: &Identifier) -> (r: Vec<u32>)
        ensures
            r@ == offsets_of(self@, name@, 0, Seq::empty()),
    {
        let mut found: Vec<u32> = Vec::new();
        let mut i: usize = 0;
        while i < self.column_names.len() && i <= u32::MAX as usize
            invariant
                i <= self.column_names@.len(),
                offsets_of(self@, name@, 0, Seq::empty()) == offsets_of(
                    self@,
                    name@,
                    i as int,
                    found@,
                ),
            decreases self.column_names@.len() - i,
        {
            if self.column_names[i] == *name {
                found.push(i as u32);
            }
            i = i + 1;
        }
        found
    }

    /// The number of names.
    pub fn len(&self) -> (r: usize)
        ensures
            r == self@.len(),
    {
        self.column_names.len()
    }
}

} // verus!
