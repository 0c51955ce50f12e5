//! Read-only interfaces to the schema of a database.

use vstd::prelude::*;
use crate::identifier::Identifier;
use crate::types::DbType;

verus! {

/// What a table tells of itself.
pub trait TableInfo {
    type Column: ColumnInfo;

    fn get_name(&self) -> &Identifier;

    fn get_column_count(&self) -> u32;

    fn find_column_by_offset(&self, offset: u32) -> Option<&Self::Column>;

    fn find_column_by_name(&self, name: &Identifier) -> Option<&Self::Column>;

    fn get_column_names(&self) -> Vec<Identifier>;
}

/// What a column tells of itself.
pub trait ColumnInfo {
    fn get_offset(&self) -> u32;

    fn get_name(&self) -> &Identifier;

    fn get_dbtype(&self) -> &DbType;
}

} // verus!
