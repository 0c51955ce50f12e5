//! The sources that a name in a statement can refer to.

use vstd::prelude::*;
use crate::identifier::Identifier;
use crate::queryplan::columnnames::{offsets_of, ColumnNames};

verus! {

/// A source of rows in a statement: a table or a subquery, under the
/// number that the plan knows it by.
pub struct TableOrSubquery {
    pub source_id: u32,
    pub out_column_names: ColumnNames,
}

/// The sources of one `FROM`, with the names they go by, before the
/// sources of the statements around it.
pub struct SourceScope<'b> {
    pub parent: Option<&'b SourceScope<'b>>,
    pub tables: Vec<TableOrSubquery>,
    pub table_aliases: Vec<Identifier>,
}

/// A source as mathematics sees it.
pub struct ScopeTable {
    pub source_id: u32,
    pub names: Seq<Seq<char>>,
    pub alias: Option<Seq<char>>,
}

/// The sources of the statements around an expression, the innermost
/// `FROM` last.
pub type ScopeView = Seq<Seq<ScopeTable>>;

/// The sources of one `FROM`. A source without an alias goes by no name.
pub open spec fn frame_view(tables: Seq<TableOrSubquery>, aliases: Seq<Identifier>) -> Seq<
    ScopeTable,
> {
    Seq::new(
        tables.len(),
        |i: int|
            ScopeTable {
                source_id: tables[i].source_id,
                names: tables[i].out_column_names@,
                alias: if i < aliases.len() {
                    Some(aliases[i]@)
                } else {
                    None
                },
            },
    )
}

/// The scopes that a chain of scopes stands for.
pub open spec fn scope_view(scope: Option<&SourceScope<'_>>) -> ScopeView
    decreases scope,
{
    match scope {
        None => Seq::empty(),
        Some(s) => scope_view(s.parent).push(frame_view(s.tables@, s.table_aliases@)),
    }
}

/// What a name refers to.
pub enum GetColumnOffsetResult {
    /// One column: the source and the place of the column in it.
    One((u32, u32)),
    NotFound,
    Ambiguous,
}

/// A source and a place for each place in `offsets`, behind `found`.
pub open spec fn pair_offsets(source_id: u32, offsets: Seq<u32>, found: Seq<(u32, u32)>) -> Seq<
    (u32, u32),
> {
    found + Seq::new(offsets.len(), |i: int| (source_id, offsets[i]))
}

/// The columns of the sources from `from` on that have the name, behind
/// `found`. Where an alias is given, only the sources that go by it count.
pub open spec fn frame_candidates(
    frame: Seq<ScopeTable>,
    alias: Option<Seq<char>>,
    name: Seq<char>,
    from: int,
    found: Seq<(u32, u32)>,
) -> Seq<(u32, u32)>
    decreases frame.len() - from,
{
    if from < 0 || from >= frame.len() {
        found
    } else {
        let counts = match alias {
            Some(a) => frame[from].alias == Some(a),
            None => true,
        };
        if counts {
            frame_candidates(
                frame,
                alias,
                name,
                from + 1,
                pair_offsets(
                    frame[from].source_id,
                    offsets_of(frame[from].names, name, 0, Seq::empty()),
                    found,
                ),
            )
        } else {
            frame_candidates(frame, alias, name, from + 1, found)
        }
    }
}

/// What a name refers to: the one column of that name among the sources
/// of the nearest `FROM` that has such a column. More than one column
/// there makes the name ambiguous.
pub open spec fn lookup_column(scope: ScopeView, alias: Option<Seq<char>>, name: Seq<char>)
    -> GetColumnOffsetResult
    decreases scope.len(),
{
    if scope.len() == 0 {
        GetColumnOffsetResult::NotFound
    } else {
        let found = frame_candidates(scope.last(), alias, name, 0, Seq::empty());
        if found.len() == 1 {
            GetColumnOffsetResult::One(found[0])
        } else if found.len() > 1 {
            GetColumnOffsetResult::Ambiguous
        } else {
            lookup_column(scope.drop_last(), alias, name)
        }
    }
}

impl<'b> SourceScope<'b> {
    /// The sources of a `FROM` before the sources around it.
    pub fn new(
        parent: Option<&'b SourceScope<'b>>,
        tables: Vec<TableOrSubquery>,
        table_aliases: Vec<Identifier>,
    ) -> (r: SourceScope<'b>)
        ensures
            r.parent == parent,
            r.tables == tables,
            r.table_aliases == table_aliases,
    {
        SourceScope { parent, tables, table_aliases }
    }

    /// The sources of this `FROM`.
    pub fn tables(&self) -> (r: &Vec<TableOrSubquery>)
        ensures
            *r == self.tables,
    {
        &self.tables
    }

    fn candidates(&self, alias: Option<&Identifier>, column_name: &Identifier) -> (r: Vec<
        (u32, u32),
    >)
        ensures
            r@ == frame_candidates(
                frame_view(self.tables@, self.table_aliases@),
                match alias {
                    Some(a) => Some(a@),
                    None => None,
                },
                column_name@,
                0,
                Seq::empty(),
            ),
    {
        let ghost frame = frame_view(self.tables@, self.table_aliases@);
        let ghost wanted: Option<Seq<char>> = match alias {
            Some(a) => Some(a@),
            None => None,
        };
        let mut found: Vec<(u32, u32)> = Vec::new();
        let mut i: usize = 0;
        while i < self.tables.len()
            invariant
                i <= self.tables@.len(),
                frame == frame_view(self.tables@, self.table_aliases@),
                wanted == (match alias {
                    Some(a) => Some(a@),
                    None => None,
                }),
                frame_candidates(frame, wanted, column_name@, 0, Seq::empty()) == frame_candidates(
                    frame,
                    wanted,
                    column_name@,
                    i as int,
                    found@,
                ),
            decreases self.tables@.len() - i,
        {
            let counts: bool = match alias {
                Some(a) => i < self.table_aliases.len() && self.table_aliases[i] == *a,
                None => true,
            };
            if counts {
                let table = &self.tables[i];
                let offsets = table.out_column_names.get_column_offsets(column_name);
                let ghost before = found@;
                let mut j: usize = 0;
                while j < offsets.len()
                    invariant
                        j <= offsets@.len(),
                        found@ == before + Seq::new(
                            j as nat,
                            |k: int| (table.source_id, offsets@[k]),
                        ),
                    decreases offsets@.len() - j,
                {
                    found.push((table.source_id, offsets[j]));
                    proof {
                        assert(found@ =~= before + Seq::new(
                            (j + 1) as nat,
                            |k: int| (table.source_id, offsets@[k]),
                        ));
                    }
                    j = j + 1;
                }
                proof {
                    assert(found@ =~= pair_offsets(table.source_id, offsets@, before));
                }
            }
            i = i + 1;
        }
        found
    }

    fn lookup(&self, alias: Option<&Identifier>, column_name: &Identifier) -> (r:
        GetColumnOffsetResult)
        ensures
            r == lookup_column(
                scope_view(Some(self)),
                match alias {
                    Some(a) => Some(a@),
                    None => None,
                },
                column_name@,
            ),
        decreases self,
    {
        proof {
            reveal_with_fuel(lookup_column, 2);
            let scope = scope_view(Some(self));
            assert(scope.drop_last() =~= scope_view(self.parent));
            assert(scope.last() == frame_view(self.tables@, self.table_aliases@));
            assert(scope.len() > 0);
            if self.parent.is_none() {
                assert(scope_view(self.parent).len() == 0);
            }
        }
        let found = self.candidates(alias, column_name);
        if found.len() == 1 {
            GetColumnOffsetResult::One(found[0])
        } else if found.len() > 1 {
            GetColumnOffsetResult::Ambiguous
        } else {
            match self.parent {
                Some(parent) => parent.lookup(alias, column_name),
                None => GetColumnOffsetResult::NotFound,
            }
        }
    }

    /// What a column name refers to.
    pub fn get_column_offset(&self, column_name: &Identifier) -> (r: GetColumnOffsetResult)
        ensures
            r == lookup_column(scope_view(Some(self)), None, column_name@),
    {
        self.lookup(None, column_name)
    }

    /// What a column name refers to among the sources that go by the
    /// given name.
    pub fn get_table_column_offset(&self, table_name: &Identifier, column_name: &Identifier) -> (r:
        GetColumnOffsetResult)
        ensures
            r == lookup_column(scope_view(Some(self)), Some(table_name@), column_name@),
    {
        self.lookup(Some(table_name), column_name)
    }
}

} // verus!
