//! What is stored in a table can be read back.

use vstd::prelude::*;
use crate::byteutils::{
    be_bytes, lemma_be_bytes_len, lemma_be_roundtrip, lemma_pow256_values, pow256,
};
use crate::tempdb::table::{
    decode_rows, Table,
    cell_body, cell_footer, cell_is_valid, cells_match, decode_cells, decode_row, decode_with,
    row_body, row_footer, row_key, variable_count, CellData, Column,
};
use crate::types::variant::Value;

verus! {

/// Whether the data of a column holds the value: NULL is flagged, and any
/// other value is what the bytes store under the type of the column.
pub open spec fn cell_holds(column: Column, cell: CellData, value: Value) -> bool {
    if cell.1 == Some(true) {
        value is Null
    } else {
        Value::decoded(column.dbtype, cell.0) == Some(value)
    }
}

/// Whether the data of a row can be read back: it fits the columns, every
/// length is one that the type of its column allows and that eight bytes
/// can hold, and no value of a type with values of different lengths is
/// NULL.
pub open spec fn row_is_readable(columns: Seq<Column>, cells: Seq<CellData>) -> bool {
    &&& cells_match(columns, cells)
    &&& forall|i: int|
        0 <= i < cells.len() ==> {
            &&& cell_is_valid(columns[i].dbtype, #[trigger] cells[i])
            &&& cells[i].0.len() <= u64::MAX
            &&& cells[i].1 == Some(true) ==> columns[i].dbtype.fixed_length().is_some()
        }
}

/// The body of a row grows by the body of one column at a time.
proof fn lemma_body_holds_cell(cells: Seq<CellData>, col: int, upto: int)
    requires
        0 <= col < upto <= cells.len(),
    ensures
        row_body(cells, col).len() + cell_body(cells[col]).len() <= row_body(cells, upto).len(),
        row_body(cells, upto).subrange(
            row_body(cells, col).len() as int,
            (row_body(cells, col).len() + cell_body(cells[col]).len()) as int,
        ) == cell_body(cells[col]),
        row_body(cells, col + 1).len() == row_body(cells, col).len() + cell_body(cells[col]).len(),
    decreases upto - col,
{
    let here = row_body(cells, col);
    let cell = cell_body(cells[col]);
    assert(row_body(cells, col + 1) == here + cell);
    if upto == col + 1 {
        assert((here + cell).subrange(here.len() as int, (here.len() + cell.len()) as int)
            =~= cell);
    } else {
        lemma_body_holds_cell(cells, col, upto - 1);
        let before = row_body(cells, upto - 1);
        let last = cell_body(cells[upto - 1]);
        assert(row_body(cells, upto) == before + last);
        assert((before + last).subrange(here.len() as int, (here.len() + cell.len()) as int)
            =~= before.subrange(here.len() as int, (here.len() + cell.len()) as int));
    }
}

/// The footer of a row grows by the footer of one column at a time.
proof fn lemma_footer_holds_cell(
    columns: Seq<Column>,
    cells: Seq<CellData>,
    col: int,
    upto: int,
)
    requires
        0 <= col < upto <= cells.len(),
    ensures
        row_footer(columns, cells, col).len() + cell_footer(columns[col].dbtype, cells[col]).len()
            <= row_footer(columns, cells, upto).len(),
        row_footer(columns, cells, upto).subrange(
            row_footer(columns, cells, col).len() as int,
            (row_footer(columns, cells, col).len() + cell_footer(
                columns[col].dbtype,
                cells[col],
            ).len()) as int,
        ) == cell_footer(columns[col].dbtype, cells[col]),
    decreases upto - col,
{
    let here = row_footer(columns, cells, col);
    let cell = cell_footer(columns[col].dbtype, cells[col]);
    assert(row_footer(columns, cells, col + 1) == here + cell);
    if upto == col + 1 {
        assert((here + cell).subrange(here.len() as int, (here.len() + cell.len()) as int)
            =~= cell);
    } else {
        lemma_footer_holds_cell(columns, cells, col, upto - 1);
        let before = row_footer(columns, cells, upto - 1);
        let last = cell_footer(columns[upto - 1].dbtype, cells[upto - 1]);
        assert(row_footer(columns, cells, upto) == before + last);
        assert((before + last).subrange(here.len() as int, (here.len() + cell.len()) as int)
            =~= before.subrange(here.len() as int, (here.len() + cell.len()) as int));
    }
}

/// The footer of a readable row has eight bytes for each column whose
/// values differ in length.
proof fn lemma_footer_len(columns: Seq<Column>, cells: Seq<CellData>, upto: int)
    requires
        row_is_readable(columns, cells),
        0 <= upto <= cells.len(),
    ensures
        row_footer(columns, cells, upto).len() == 8 * variable_count(columns, upto),
    decreases upto,
{
    if upto > 0 {
        lemma_footer_len(columns, cells, upto - 1);
        lemma_be_bytes_len(cells[upto - 1].0.len(), 8);
        assert(cell_is_valid(columns[upto - 1].dbtype, cells[upto - 1]));
    }
}

/// The columns of a readable row from `col` on are read back from its
/// key.
proof fn lemma_cells_read_back(
    columns: Seq<Column>,
    rowid: u64,
    cells: Seq<CellData>,
    values: Seq<Value>,
    col: int,
)
    requires
        row_is_readable(columns, cells),
        values.len() == cells.len(),
        forall|i: int| 0 <= i < cells.len() ==> cell_holds(columns[i], cells[i], #[trigger] values[i]),
        0 <= col <= cells.len(),
    ensures
        decode_cells(
            columns,
            row_key(columns, rowid, cells),
            (8 + row_body(cells, cells.len() as int).len()) as int,
            variable_count(columns, columns.len() as int) as int,
            col,
            (8 + row_body(cells, col).len()) as int,
            variable_count(columns, col) as int,
        ) == Some(values.skip(col)),
    decreases cells.len() - col,
{
    let n = cells.len() as int;
    let key = row_key(columns, rowid, cells);
    let head = be_bytes(rowid as nat, 8);
    let body = row_body(cells, n);
    let foot = row_footer(columns, cells, n);
    let footer = (8 + body.len()) as int;
    let count = variable_count(columns, n) as int;
    lemma_be_bytes_len(rowid as nat, 8);
    lemma_footer_len(columns, cells, n);
    assert(key == head + body + foot);
    assert(key.len() == 8 + body.len() + foot.len());
    if col == n {
        assert(values.skip(col) =~= Seq::<Value>::empty());
    } else {
        let column = columns[col];
        let cell = cells[col];
        let offset = (8 + row_body(cells, col).len()) as int;
        let var = variable_count(columns, col) as int;
        lemma_body_holds_cell(cells, col, n);
        lemma_footer_holds_cell(columns, cells, col, n);
        lemma_footer_len(columns, cells, col);
        lemma_footer_len(columns, cells, col + 1);
        lemma_cells_read_back(columns, rowid, cells, values, col + 1);
        let piece = cell_body(cell);
        assert(cell.1.is_some() == column.nullable);
        assert(cell_is_valid(column.dbtype, cell));
        assert(cell_holds(column, cell, values[col]));
        // where the body of the column lies in the key
        assert(key.subrange(offset, offset + piece.len()) =~= body.subrange(
            row_body(cells, col).len() as int,
            (row_body(cells, col).len() + piece.len()) as int,
        ));
        assert(key.subrange(offset, offset + piece.len()) == piece);
        if column.nullable {
            assert(piece.len() >= 1);
            assert(key[offset] == key.subrange(offset, offset + piece.len())[0]);
        }
        if cell.1 == Some(true) {
            assert(piece =~= seq![1u8]);
            assert(variable_count(columns, col + 1) == variable_count(columns, col));
            assert(values.skip(col) =~= seq![values[col]] + values.skip(col + 1));
        } else {
            let start = if column.nullable {
                offset + 1
            } else {
                offset
            };
            let size = cell.0.len() as int;
            if column.nullable {
                assert(piece =~= seq![0u8] + cell.0);
            } else {
                assert(piece =~= cell.0);
            }
            assert(key.subrange(start, start + size) =~= key.subrange(
                offset,
                offset + piece.len(),
            ).subrange(start - offset, start - offset + size));
            assert(key.subrange(start, start + size) =~= cell.0);
            if column.dbtype.fixed_length().is_none() {
                let entry = cell_footer(column.dbtype, cell);
                lemma_be_bytes_len(cell.0.len(), 8);
                assert(entry == be_bytes(cell.0.len(), 8));
                assert(row_footer(columns, cells, col).len() == 8 * var);
                assert(key.subrange(footer + 8 * var, footer + 8 * var + 8) =~= foot.subrange(
                    8 * var,
                    8 * var + 8,
                ));
                lemma_be_roundtrip(cell.0.len(), 8);
                lemma_pow256_values();
                vstd::arithmetic::div_mod::lemma_small_mod(cell.0.len(), pow256(8));
                assert(variable_count(columns, col + 1) == variable_count(columns, col) + 1);
                assert(var < count) by {
                    lemma_variable_count_grows(columns, col + 1, n);
                }
            } else {
                assert(variable_count(columns, col + 1) == variable_count(columns, col));
            }
            assert(values.skip(col) =~= seq![values[col]] + values.skip(col + 1));
        }
    }
}

/// Columns are counted one by one.
proof fn lemma_variable_count_grows(columns: Seq<Column>, i: int, j: int)
    requires
        0 <= i <= j,
    ensures
        variable_count(columns, i) <= variable_count(columns, j),
    decreases j - i,
{
    if i < j {
        lemma_variable_count_grows(columns, i, j - 1);
    }
}

/// A row that was stored can be read back: the key of a readable row
/// holds the values that its data holds.
pub proof fn lemma_stored_row_reads_back(
    columns: Seq<Column>,
    rowid: u64,
    cells: Seq<CellData>,
    values: Seq<Value>,
)
    requires
        row_is_readable(columns, cells),
        values.len() == cells.len(),
        forall|i: int| 0 <= i < cells.len() ==> cell_holds(columns[i], cells[i], #[trigger] values[i]),
    ensures
        decode_row(columns, row_key(columns, rowid, cells)) == Some(values),
{
    let n = cells.len() as int;
    let key = row_key(columns, rowid, cells);
    lemma_be_bytes_len(rowid as nat, 8);
    lemma_footer_len(columns, cells, n);
    lemma_cells_read_back(columns, rowid, cells, values, 0);
    assert(values.skip(0) =~= values);
    assert(row_body(cells, 0) =~= Seq::<u8>::empty());
    let count = variable_count(columns, n) as int;
    assert(key.len() - 8 * count == 8 + row_body(cells, n).len());
    assert(decode_with(columns, key, count) == Some(values));
}

/// The rows that the first keys hold do not depend on the keys behind
/// them.
proof fn lemma_decode_rows_of_prefix(
    columns: Seq<Column>,
    keys: Seq<Vec<u8>>,
    more: Seq<Vec<u8>>,
    upto: int,
)
    requires
        0 <= upto <= keys.len(),
        keys.len() <= more.len(),
        forall|i: int| 0 <= i < keys.len() ==> keys[i] == more[i],
    ensures
        decode_rows(columns, more, upto) == decode_rows(columns, keys, upto),
    decreases upto,
{
    if upto > 0 {
        lemma_decode_rows_of_prefix(columns, keys, more, upto - 1);
    }
}

/// A row that was inserted is the last row of the table: where a table
/// whose rows can be read gets the key of a readable row behind its keys,
/// its rows are the rows it had and then the values of that row.
pub proof fn lemma_inserted_row_is_scanned(
    before: Table,
    after: Table,
    cells: Seq<CellData>,
    values: Seq<Value>,
)
    requires
        before.rows() is Some,
        after.columns@ == before.columns@,
        after.rowid_index@.len() == before.rowid_index@.len() + 1,
        after.rowid_index@.drop_last() == before.rowid_index@,
        after.rowid_index@.last()@ == row_key(before.columns@, before.next_rowid, cells),
        row_is_readable(before.columns@, cells),
        values.len() == cells.len(),
        forall|i: int|
            0 <= i < cells.len() ==> cell_holds(before.columns@[i], cells[i], #[trigger] values[i]),
    ensures
        after.rows() == Some(before.rows().unwrap().push(values)),
{
    let keys = before.rowid_index@;
    let more = after.rowid_index@;
    assert forall|i: int| 0 <= i < keys.len() implies keys[i] == more[i] by {
        assert(more.drop_last()[i] == more[i]);
    }
    lemma_decode_rows_of_prefix(before.columns@, keys, more, keys.len() as int);
    lemma_stored_row_reads_back(before.columns@, before.next_rowid, cells, values);
}

} // verus!
