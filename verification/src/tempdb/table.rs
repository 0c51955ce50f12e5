//! A table in memory: its columns and its rows, each row held as one key of
//! bytes that sorts by the row's number.

use vstd::prelude::*;
use crate::byteutils::{
    be_bytes, be_value, lemma_be_bytes_len, lemma_be_bytes_of_value, lemma_be_bytes_order,
    lemma_be_roundtrip, lemma_be_value_bound, lemma_lex_less_by_prefix, lemma_pow256_values,
    lex_less, pow256, read_udbinteger, write_udbinteger,
};
use crate::databaseinfo::{ColumnInfo, TableInfo};
use crate::identifier::Identifier;
use crate::types::variant::{row_view, Value, Variant};
use crate::types::DbType;

verus! {

/// Why a row could not be stored.
pub enum UpdateError {
    /// The data of the named column has a length that its type does not
    /// allow.
    ValidationError { column_name: Identifier },
}

impl UpdateError {
    /// The message of the error.
    pub fn to_string(&self) -> (r: String)
        ensures
            r@ == match self {
                UpdateError::ValidationError { column_name } => "Problem validating column: "@
                    + column_name@,
            },
    {
        match self {
            UpdateError::ValidationError { column_name } => {
                let mut s = String::from_str("Problem validating column: ");
                s.append(column_name.as_slice());
                s
            },
        }
    }
}

/// A column of a table.
pub struct Column {
    pub offset: u32,
    pub name: Identifier,
    pub dbtype: DbType,
    pub nullable: bool,
}

impl Clone for Column {
    fn clone(&self) -> (r: Column)
        ensures
            r.offset == self.offset,
            r.name@ == self.name@,
            r.dbtype == self.dbtype,
            r.nullable == self.nullable,
    {
        Column {
            offset: self.offset,
            name: self.name.clone(),
            dbtype: self.dbtype,
            nullable: self.nullable,
        }
    }
}

/// A table: its columns in order, the number of the next row, and the keys
/// of its rows in the order of their numbers.
pub struct Table {
    pub name: Identifier,
    pub columns: Vec<Column>,
    pub next_rowid: u64,
    pub rowid_index: Vec<Vec<u8>>,
}

/// The data of one column of a row to store: its bytes, and for a column
/// that allows NULL whether the value is NULL.
pub type ColumnData = (Vec<u8>, Option<bool>);

/// The data of one column as mathematics sees it.
pub type CellData = (Seq<u8>, Option<bool>);

/// The data of the columns of a row, as mathematics sees it.
pub open spec fn cells_view(data: Seq<ColumnData>) -> Seq<CellData> {
    Seq::new(data.len(), |i: int| (data[i].0@, data[i].1))
}

/// What one column adds to the body of a key: the flag of a column that
/// allows NULL, then the bytes of a value that is there.
pub open spec fn cell_body(cell: CellData) -> Seq<u8> {
    match cell.1 {
        Some(true) => seq![1u8],
        Some(false) => seq![0u8] + cell.0,
        None => cell.0,
    }
}

/// What one column adds to the footer of a key: the length of a value that
/// is there, where lengths of the type differ.
pub open spec fn cell_footer(dbtype: DbType, cell: CellData) -> Seq<u8> {
    if cell.1 != Some(true) && dbtype.fixed_length().is_none() {
        be_bytes(cell.0.len(), 8)
    } else {
        Seq::empty()
    }
}

/// Whether the bytes of a value that is there have a length that the type
/// allows.
pub open spec fn cell_is_valid(dbtype: DbType, cell: CellData) -> bool {
    cell.1 == Some(true) || match dbtype.fixed_length() {
        Some(n) => cell.0.len() == n,
        None => true,
    }
}

/// The bodies of the first `upto` columns, one after the other.
pub open spec fn row_body(cells: Seq<CellData>, upto: int) -> Seq<u8>
    decreases upto,
{
    if upto <= 0 {
        Seq::empty()
    } else {
        row_body(cells, upto - 1) + cell_body(cells[upto - 1])
    }
}

/// The footers of the first `upto` columns, one after the other.
pub open spec fn row_footer(columns: Seq<Column>, cells: Seq<CellData>, upto: int) -> Seq<u8>
    decreases upto,
{
    if upto <= 0 {
        Seq::empty()
    } else {
        row_footer(columns, cells, upto - 1) + cell_footer(
            columns[upto - 1].dbtype,
            cells[upto - 1],
        )
    }
}

/// The key of a row: its number in eight bytes, most significant first,
/// then the bodies of its columns, then their footers.
pub open spec fn row_key(columns: Seq<Column>, rowid: u64, cells: Seq<CellData>) -> Seq<u8> {
    be_bytes(rowid as nat, 8) + row_body(cells, cells.len() as int) + row_footer(
        columns,
        cells,
        cells.len() as int,
    )
}

/// The first column, if any, whose data has a length that its type does
/// not allow.
pub open spec fn first_invalid(columns: Seq<Column>, cells: Seq<CellData>, from: int) -> Option<int>
    decreases cells.len() - from,
{
    if from < 0 || from >= cells.len() {
        None
    } else if !cell_is_valid(columns[from].dbtype, cells[from]) {
        Some(from)
    } else {
        first_invalid(columns, cells, from + 1)
    }
}

/// Whether data can be handed to a table with these columns: one entry
/// for each column, with a NULL flag exactly for the columns that allow
/// NULL, and no bytes where the value is NULL.
pub open spec fn cells_match(columns: Seq<Column>, cells: Seq<CellData>) -> bool {
    &&& cells.len() == columns.len()
    &&& forall|i: int|
        0 <= i < cells.len() ==> {
            &&& (#[trigger] cells[i]).1.is_some() == columns[i].nullable
            &&& cells[i].1 == Some(true) ==> cells[i].0.len() == 0
        }
}

/// The number of the columns before `upto` whose values differ in length.
pub open spec fn variable_count(columns: Seq<Column>, upto: int) -> nat
    decreases upto,
{
    if upto <= 0 {
        0
    } else {
        variable_count(columns, upto - 1) + if columns[upto - 1].dbtype.fixed_length().is_none() {
            1nat
        } else {
            0nat
        }
    }
}

/// The value of one column, read from a key at `offset`, with where the
/// body goes on and how many lengths have been taken from the footer,
/// which starts at `footer` and holds `count` lengths. `None` where the
/// body or the footer is too short or the value cannot be read.
pub open spec fn decode_cell(
    column: Column,
    key: Seq<u8>,
    footer: int,
    count: int,
    offset: int,
    var: int,
) -> Option<(Value, int, int)> {
    if column.nullable && !(0 <= offset < footer) {
        None
    } else {
        let start = if column.nullable {
            offset + 1
        } else {
            offset
        };
        if column.nullable && key[offset] != 0 {
            Some((Value::Null, start, var))
        } else if column.dbtype.fixed_length().is_none() && var >= count {
            None
        } else {
            let size: int = match column.dbtype.fixed_length() {
                Some(n) => n as int,
                None => be_value(key.subrange(footer + 8 * var, footer + 8 * var + 8)) as int,
            };
            let next_var = if column.dbtype.fixed_length().is_none() {
                var + 1
            } else {
                var
            };
            if 0 <= start && start + size <= footer {
                match Value::decoded(column.dbtype, key.subrange(start, start + size)) {
                    Some(value) => Some((value, start + size, next_var)),
                    None => None,
                }
            } else {
                None
            }
        }
    }
}

/// The values of the columns from `col` on, read from a key one after the
/// other. The body has to end where the footer starts, and every length
/// of the footer has to be used.
pub open spec fn decode_cells(
    columns: Seq<Column>,
    key: Seq<u8>,
    footer: int,
    count: int,
    col: int,
    offset: int,
    var: int,
) -> Option<Seq<Value>>
    decreases columns.len() - col,
{
    if col < 0 || col >= columns.len() {
        if offset == footer && var == count {
            Some(Seq::empty())
        } else {
            None
        }
    } else {
        match decode_cell(columns[col], key, footer, count, offset, var) {
            Some((value, next_offset, next_var)) => match decode_cells(
                columns,
                key,
                footer,
                count,
                col + 1,
                next_offset,
                next_var,
            ) {
                Some(rest) => Some(seq![value] + rest),
                None => None,
            },
            None => None,
        }
    }
}

/// The row that a key holds where its footer holds `count` lengths: the
/// body starts behind the eight bytes of the row's number.
pub open spec fn decode_with(columns: Seq<Column>, key: Seq<u8>, count: int) -> Option<
    Seq<Value>,
> {
    let footer = key.len() - 8 * count;
    if count < 0 || footer < 8 {
        None
    } else {
        decode_cells(columns, key, footer, count, 0, 8, 0)
    }
}

/// The row that a key holds where its footer holds at most `count`
/// lengths: the greatest number of lengths is taken with which the key
/// can be read.
pub open spec fn decode_upto(columns: Seq<Column>, key: Seq<u8>, count: int) -> Option<
    Seq<Value>,
>
    decreases count,
{
    if count <= 0 {
        decode_with(columns, key, 0)
    } else {
        match decode_with(columns, key, count) {
            Some(row) => Some(row),
            None => decode_upto(columns, key, count - 1),
        }
    }
}

/// The row that a key holds. The footer holds a length for each value
/// that is there and whose type has values of different lengths: at most
/// one for each such column.
pub open spec fn decode_row(columns: Seq<Column>, key: Seq<u8>) -> Option<Seq<Value>> {
    decode_upto(columns, key, variable_count(columns, columns.len() as int) as int)
}

/// The rows that the first `upto` keys hold, in order; `None` where one of
/// them cannot be read.
pub open spec fn decode_rows(columns: Seq<Column>, keys: Seq<Vec<u8>>, upto: int) -> Option<
    Seq<Seq<Value>>,
>
    decreases upto,
{
    if upto <= 0 {
        Some(Seq::empty())
    } else {
        match (decode_rows(columns, keys, upto - 1), decode_row(columns, keys[upto - 1]@)) {
            (Some(rows), Some(row)) => Some(rows.push(row)),
            _ => None,
        }
    }
}

/// The number of the row that a key holds.
pub open spec fn key_rowid(key: Seq<u8>) -> nat {
    be_value(key.take(8))
}

/// Keys in the order of the numbers of their rows are in the order of
/// their bytes, and no key occurs twice: the keys of a table are walked
/// in the order in which a sorted set of them would be.
pub proof fn lemma_keys_are_sorted(table: Table, i: int, j: int)
    requires
        table.keys_in_order(),
        0 <= i < j < table.rowid_index@.len(),
    ensures
        lex_less(table.rowid_index@[i]@, table.rowid_index@[j]@),
        table.rowid_index@[i]@ != table.rowid_index@[j]@,
{
    let a = table.rowid_index@[i]@;
    let b = table.rowid_index@[j]@;
    lemma_be_bytes_of_value(a.take(8));
    lemma_be_bytes_of_value(b.take(8));
    lemma_be_value_bound(b.take(8));
    lemma_be_bytes_order(key_rowid(a), key_rowid(b), 8);
    lemma_lex_less_by_prefix(a, b, 8);
}

/// The values that rows of variants stand for.
pub open spec fn rows_view(rows: Seq<Vec<Variant>>) -> Seq<Seq<Value>> {
    Seq::new(rows.len(), |i: int| row_view(rows[i]@))
}

impl Table {
    /// Whether the table is in order: it has no more columns than a
    /// 32-bit number counts, and every column knows its place.
    pub open spec fn wf(&self) -> bool {
        &&& self.columns@.len() <= u32::MAX
        &&& forall|i: int|
            0 <= i < self.columns@.len() ==> (#[trigger] self.columns@[i]).offset == i
    }

    /// Whether the keys are in the order of the numbers of their rows:
    /// every key starts with the number of its row, the numbers grow from
    /// key to key, and all are below the number of the next row.
    pub open spec fn keys_in_order(&self) -> bool {
        &&& forall|i: int|
            0 <= i < self.rowid_index@.len() ==> (#[trigger] self.rowid_index@[i])@.len() >= 8
                && key_rowid(self.rowid_index@[i]@) < self.next_rowid
        &&& forall|i: int, j: int|
            0 <= i < j < self.rowid_index@.len() ==> key_rowid(
                (#[trigger] self.rowid_index@[i])@,
            ) < key_rowid((#[trigger] self.rowid_index@[j])@)
    }

    /// The rows of the table in the order of their numbers; `None` where a
    /// key cannot be read.
    pub open spec fn rows(&self) -> Option<Seq<Seq<Value>>> {
        decode_rows(self.columns@, self.rowid_index@, self.rowid_index@.len() as int)
    }

    /// The names of the columns, in order.
    pub open spec fn column_names(&self) -> Seq<Seq<char>> {
        Seq::new(self.columns@.len(), |i: int| self.columns@[i].name@)
    }

    /// The place of the first column with the given name.
    pub open spec fn column_index(&self, name: Seq<char>) -> Option<int> {
        first_named(self.columns@, name, 0)
    }

    /// Stores a row. The row gets the next number of the table; that
    /// number is no column of the row. Where the data of a column has a
    /// length that its type does not allow, the table is left as it was
    /// and the first such column is named.
    pub fn insert_row(&mut self, column_data: Vec<ColumnData>) -> (r: Result<(), UpdateError>)
        requires
            cells_match(old(self).columns@, cells_view(column_data@)),
            old(self).next_rowid < u64::MAX,
        ensures
            final(self).name == old(self).name,
            final(self).columns == old(self).columns,
            old(self).keys_in_order() ==> final(self).keys_in_order(),
            match r {
                Ok(_) => {
                    &&& first_invalid(old(self).columns@, cells_view(column_data@), 0).is_none()
                    &&& final(self).next_rowid == old(self).next_rowid + 1
                    &&& final(self).rowid_index@.len() == old(self).rowid_index@.len() + 1
                    &&& final(self).rowid_index@.drop_last() == old(self).rowid_index@
                    &&& final(self).rowid_index@.last()@ == row_key(
                        old(self).columns@,
                        old(self).next_rowid,
                        cells_view(column_data@),
                    )
                },
                Err(UpdateError::ValidationError { column_name }) => {
                    &&& first_invalid(old(self).columns@, cells_view(column_data@), 0) matches Some(
                        i,
                    ) && column_name@ == old(self).columns@[i].name@
                    &&& final(self).next_rowid == old(self).next_rowid
                    &&& final(self).rowid_index == old(self).rowid_index
                },
            },
    {
        let ghost cells = cells_view(column_data@);
        let ghost columns = self.columns@;
        let mut key: Vec<u8> = Vec::new();
        let mut head: Vec<u8> = Vec::new();
        let mut k: usize = 0;
        while k < 8
            invariant
                k <= 8,
                head@.len() == k,
            decreases 8 - k,
        {
            head.push(0);
            k = k + 1;
        }
        write_udbinteger(self.next_rowid, head.as_mut_slice());
        key.extend_from_slice(head.as_slice());
        let mut lengths: Vec<u8> = Vec::new();
        let n: usize = self.columns.len();
        let mut i: usize = 0;
        proof {
            assert(key@ =~= be_bytes(self.next_rowid as nat, 8) + row_body(cells, 0));
        }
        while i < n
            invariant
                n == self.columns@.len(),
                n == column_data@.len(),
                cells == cells_view(column_data@),
                columns == self.columns@,
                *self == *old(self),
                i <= n,
                key@ == be_bytes(self.next_rowid as nat, 8) + row_body(cells, i as int),
                lengths@ == row_footer(columns, cells, i as int),
                first_invalid(columns, cells, 0) == first_invalid(columns, cells, i as int),
            decreases n - i,
        {
            let column = &self.columns[i];
            let data: &Vec<u8> = &column_data[i].0;
            let is_null: Option<bool> = column_data[i].1;
            let len: u64 = data.len() as u64;
            let ghost cell = cells[i as int];
            let ghost key_before = key@;
            let ghost lengths_before = lengths@;
            proof {
                assert(cell == (data@, is_null));
            }
            let append_data: bool = match is_null {
                Some(true) => {
                    key.push(1);
                    false
                },
                Some(false) => {
                    key.push(0);
                    true
                },
                None => true,
            };
            if append_data {
                if column.dbtype.is_valid_length(len) {
                    if column.dbtype.is_variable_length() {
                        let mut buf: Vec<u8> = Vec::new();
                        let mut j: usize = 0;
                        while j < 8
                            invariant
                                j <= 8,
                                buf@.len() == j,
                            decreases 8 - j,
                        {
                            buf.push(0);
                            j = j + 1;
                        }
                        write_udbinteger(len, buf.as_mut_slice());
                        lengths.extend_from_slice(buf.as_slice());
                    }
                    key.extend_from_slice(data.as_slice());
                } else {
                    return Err(UpdateError::ValidationError { column_name: column.name.clone() });
                }
            }
            proof {
                assert(key@ =~= key_before + cell_body(cell));
                assert(lengths@ =~= lengths_before + cell_footer(column.dbtype, cell));
                assert(key@ =~= be_bytes(self.next_rowid as nat, 8) + row_body(cells, i + 1));
            }
            i = i + 1;
        }
        key.extend_from_slice(lengths.as_slice());
        proof {
            assert(key@ =~= row_key(columns, self.next_rowid, cells));
        }
        self.rowid_index.push(key);
        self.next_rowid = self.next_rowid + 1;
        proof {
            assert(self.rowid_index@.drop_last() =~= old(self).rowid_index@);
            let rowid = old(self).next_rowid as nat;
            lemma_be_bytes_len(rowid, 8);
            assert(key@.take(8) =~= be_bytes(rowid, 8));
            lemma_be_roundtrip(rowid, 8);
            lemma_pow256_values();
            vstd::arithmetic::div_mod::lemma_small_mod(rowid, pow256(8));
            assert(key_rowid(key@) == rowid);
            if old(self).keys_in_order() {
                assert forall|i: int| 0 <= i < self.rowid_index@.len() implies (
                #[trigger] self.rowid_index@[i])@.len() >= 8 && key_rowid(self.rowid_index@[i]@)
                    < self.next_rowid by {
                    if i < old(self).rowid_index@.len() {
                        assert(self.rowid_index@[i] == old(self).rowid_index@[i]);
                    }
                }
                assert forall|i: int, j: int|
                    0 <= i < j < self.rowid_index@.len() implies key_rowid(
                    (#[trigger] self.rowid_index@[i])@,
                ) < key_rowid((#[trigger] self.rowid_index@[j])@) by {
                    assert(self.rowid_index@[i] == old(self).rowid_index@[i]);
                    if j < old(self).rowid_index@.len() {
                        assert(self.rowid_index@[j] == old(self).rowid_index@[j]);
                    }
                }
            }
        }
        Ok(())
    }

    /// Reads the rows of the table in the order of their numbers; fails
    /// where a key cannot be read.
    pub fn scan(&self) -> (r: Result<Vec<Vec<Variant>>, ()>)
        ensures
            match r {
                Ok(rows) => self.rows() == Some(rows_view(rows@)),
                Err(_) => self.rows().is_none(),
            },
    {
        let mut rows: Vec<Vec<Variant>> = Vec::new();
        let mut i: usize = 0;
        while i < self.rowid_index.len()
            invariant
                i <= self.rowid_index@.len(),
                decode_rows(self.columns@, self.rowid_index@, i as int) == Some(rows_view(rows@)),
            decreases self.rowid_index@.len() - i,
        {
            match decode_key(&self.columns, self.rowid_index[i].as_slice()) {
                Some(row) => {
                    proof {
                        assert(rows_view(rows@.push(row)) =~= rows_view(rows@).push(
                            row_view(row@),
                        ));
                    }
                    rows.push(row);
                },
                None => {
                    proof {
                        lemma_decode_rows_fail(
                            self.columns@,
                            self.rowid_index@,
                            i as int + 1,
                            self.rowid_index@.len() as int,
                        );
                    }
                    return Err(());
                },
            }
            i = i + 1;
        }
        Ok(rows)
    }

    /// The columns of the table.
    pub fn get_columns(&self) -> (r: &Vec<Column>)
        ensures
            r == self.columns,
    {
        &self.columns
    }
}

/// Once a key cannot be read, the rows cannot be read.
proof fn lemma_decode_rows_fail(columns: Seq<Column>, keys: Seq<Vec<u8>>, at: int, upto: int)
    requires
        decode_rows(columns, keys, at).is_none(),
        at <= upto,
    ensures
        decode_rows(columns, keys, upto).is_none(),
    decreases upto - at,
{
    if at < upto {
        lemma_decode_rows_fail(columns, keys, at, upto - 1);
    }
}

/// Columns are counted one by one.
proof fn lemma_variable_count_grows(columns: Seq<Column>, i: int, j: int)
    requires
        0 <= i <= j,
    ensures
        variable_count(columns, i) <= variable_count(columns, j),
        variable_count(columns, j) <= j,
    decreases j,
{
    if i < j {
        lemma_variable_count_grows(columns, i, j - 1);
    } else if j > 0 {
        lemma_variable_count_grows(columns, j - 1, j - 1);
    }
}

/// The row read so far, before what the rest of the key holds.
pub open spec fn prepend(head: Seq<Value>, rest: Option<Seq<Value>>) -> Option<Seq<Value>> {
    match rest {
        Some(rest) => Some(head + rest),
        None => None,
    }
}

/// Reads the value of one column from a key.
fn decode_one(column: &Column, key: &[u8], footer: usize, count: usize, offset: usize, var: usize)
    -> (r: Option<(Variant, usize, usize)>)
    requires
        offset <= footer,
        8 <= footer,
        footer + 8 * count == key@.len(),
        var <= count,
    ensures
        match r {
            Some((value, next_offset, next_var)) => {
                &&& decode_cell(
                    *column,
                    key@,
                    footer as int,
                    count as int,
                    offset as int,
                    var as int,
                ) == Some((value@, next_offset as int, next_var as int))
                &&& next_offset <= footer
                &&& next_var <= count
            },
            None => decode_cell(
                *column,
                key@,
                footer as int,
                count as int,
                offset as int,
                var as int,
            ).is_none(),
        },
{
    let total: usize = key.len();
    let mut start: usize = offset;
    if column.nullable {
        if offset >= footer {
            return None;
        }
        start = offset + 1;
        if key[offset] != 0 {
            return Some((Variant::Null, start, var));
        }
    }
    let mut next_var: usize = var;
    let size: u64 = match column.dbtype.get_fixed_length() {
        Some(len) => len,
        None => {
            if var >= count {
                return None;
            }
            let o: usize = footer + 8 * var;
            next_var = var + 1;
            read_udbinteger(vstd::slice::slice_subrange(key, o, o + 8))
        },
    };
    if size > (footer - start) as u64 {
        return None;
    }
    let end: usize = start + size as usize;
    match Variant::from_bytes(column.dbtype, vstd::slice::slice_subrange(key, start, end)) {
        Ok(value) => Some((value, end, next_var)),
        Err(_) => None,
    }
}

/// Reads the row that a key holds where its footer holds `count`
/// lengths.
fn decode_counted(columns: &Vec<Column>, key: &[u8], count: usize) -> (r: Option<Vec<Variant>>)
    ensures
        match r {
            Some(row) => decode_with(columns@, key@, count as int) == Some(row_view(row@)),
            None => decode_with(columns@, key@, count as int).is_none(),
        },
{
    let n: usize = columns.len();
    if key.len() < 8 || count > (key.len() - 8) / 8 {
        return None;
    }
    let footer: usize = key.len() - 8 * count;
    let mut row: Vec<Variant> = Vec::new();
    let mut col: usize = 0;
    let mut offset: usize = 8;
    let mut var: usize = 0;
    proof {
        assert(row_view(row@) + Seq::<Value>::empty() =~= Seq::<Value>::empty());
    }
    while col < n
        invariant
            n == columns@.len(),
            col <= n,
            offset <= footer,
            8 <= footer,
            footer + 8 * count == key@.len(),
            var <= count,
            decode_cells(columns@, key@, footer as int, count as int, 0, 8, 0) == prepend(
                row_view(row@),
                decode_cells(
                    columns@,
                    key@,
                    footer as int,
                    count as int,
                    col as int,
                    offset as int,
                    var as int,
                ),
            ),
        decreases n - col,
    {
        let ghost before = row_view(row@);
        match decode_one(&columns[col], key, footer, count, offset, var) {
            Some((value, next_offset, next_var)) => {
                let ghost shown = value@;
                row.push(value);
                proof {
                    let rest = decode_cells(
                        columns@,
                        key@,
                        footer as int,
                        count as int,
                        col as int + 1,
                        next_offset as int,
                        next_var as int,
                    );
                    assert(row_view(row@) =~= before.push(shown));
                    if rest is Some {
                        assert(before + (seq![shown] + rest.unwrap()) =~= before.push(shown)
                            + rest.unwrap());
                    }
                }
                offset = next_offset;
                var = next_var;
            },
            None => {
                return None;
            },
        }
        col = col + 1;
    }
    if offset == footer && var == count {
        proof {
            assert(row_view(row@) + Seq::<Value>::empty() =~= row_view(row@));
        }
        Some(row)
    } else {
        None
    }
}

/// Reads the row that a key holds.
fn decode_key(columns: &Vec<Column>, key: &[u8]) -> (r: Option<Vec<Variant>>)
    ensures
        match r {
            Some(row) => decode_row(columns@, key@) == Some(row_view(row@)),
            None => decode_row(columns@, key@).is_none(),
        },
{
    let n: usize = columns.len();
    let mut count: usize = 0;
    let mut c: usize = 0;
    while c < n
        invariant
            n == columns@.len(),
            c <= n,
            count <= c,
            count as nat == variable_count(columns@, c as int),
        decreases n - c,
    {
        if columns[c].dbtype.is_variable_length() {
            count = count + 1;
        }
        c = c + 1;
    }
    let ghost most = count;
    loop
        invariant
            decode_row(columns@, key@) == decode_upto(columns@, key@, count as int),
        decreases count,
    {
        match decode_counted(columns, key, count) {
            Some(row) => {
                return Some(row);
            },
            None => {
                if count == 0 {
                    return None;
                }
                count = count - 1;
            },
        }
    }
}

/// The place of the first column from `from` on with the given name.
pub open spec fn first_named(columns: Seq<Column>, name: Seq<char>, from: int) -> Option<int>
    decreases columns.len() - from,
{
    if from < 0 || from >= columns.len() {
        None
    } else if columns[from].name@ == name {
        Some(from)
    } else {
        first_named(columns, name, from + 1)
    }
}

/// The place of the first table from `from` on with the given name.
pub open spec fn first_named_table(tables: Seq<Table>, name: Seq<char>, from: int) -> Option<int>
    decreases tables.len() - from,
{
    if from < 0 || from >= tables.len() {
        None
    } else if tables[from].name@ == name {
        Some(from)
    } else {
        first_named_table(tables, name, from + 1)
    }
}

impl TableInfo for Table {
    type Column = Column;

    fn get_name(&self) -> (r: &Identifier)
        ensures
            r == self.name,
    {
        &self.name
    }

    fn get_column_count(&self) -> (r: u32)
        ensures
            self.columns@.len() <= u32::MAX ==> r == self.columns@.len(),
            self.columns@.len() > u32::MAX ==> r == u32::MAX,
    {
        if self.columns.len() > u32::MAX as usize {
            u32::MAX
        } else {
            self.columns.len() as u32
        }
    }

    fn find_column_by_offset(&self, offset: u32) -> (r: Option<&Column>)
        ensures
            match r {
                Some(c) => offset < self.columns@.len() && *c == self.columns@[offset as int],
                None => offset >= self.columns@.len(),
            },
    {
        let i: usize = offset as usize;
        if i < self.columns.len() {
            Some(&self.columns[i])
        } else {
            None
        }
    }

    fn find_column_by_name(&self, name: &Identifier) -> (r: Option<&Column>)
        ensures
            match r {
                Some(c) => self.column_index(name@) matches Some(i) && *c == self.columns@[i],
                None => self.column_index(name@).is_none(),
            },
    {
        let mut i: usize = 0;
        while i < self.columns.len()
            invariant
                i <= self.columns@.len(),
                self.column_index(name@) == first_named(self.columns@, name@, i as int),
            decreases self.columns@.len() - i,
        {
            if self.columns[i].name == *name {
                return Some(&self.columns[i]);
            }
            i = i + 1;
        }
        None
    }

    fn get_column_names(&self) -> (r: Vec<Identifier>)
        ensures
            r@.len() == self.columns@.len(),
            forall|i: int| 0 <= i < r@.len() ==> (#[trigger] r@[i])@ == self.columns@[i].name@,
    {
        let mut names: Vec<Identifier> = Vec::new();
        let mut i: usize = 0;
        while i < self.columns.len()
            invariant
                i <= self.columns@.len(),
                names@.len() == i,
                forall|j: int| 0 <= j < i ==> (#[trigger] names@[j])@ == self.columns@[j].name@,
            decreases self.columns@.len() - i,
        {
            names.push(self.columns[i].name.clone());
            i = i + 1;
        }
        names
    }
}

impl ColumnInfo for Column {
    fn get_offset(&self) -> (r: u32)
        ensures
            r == self.offset,
    {
        self.offset
    }

    fn get_name(&self) -> (r: &Identifier)
        ensures
            r == self.name,
    {
        &self.name
    }

    fn get_dbtype(&self) -> (r: &DbType)
        ensures
            r == self.dbtype,
    {
        &self.dbtype
    }
}

} // verus!
