//! The rows of a `SELECT` as a table of text.

use vstd::prelude::*;
use crate::text::{chars_of, string_of};

verus! {

/// The width of a text: the number of characters of its longest line,
/// where the lines from `from` on are looked at, `line` characters of the
/// current line have been counted and `most` is the longest line so far.
pub open spec fn width_from(s: Seq<char>, from: int, line: nat, most: nat) -> nat
    decreases s.len() - from,
{
    if from < 0 || from >= s.len() {
        if line > most {
            line
        } else {
            most
        }
    } else if s[from] == '\n' {
        width_from(
            s,
            from + 1,
            0,
            if line > most {
                line
            } else {
                most
            },
        )
    } else {
        width_from(s, from + 1, line + 1, most)
    }
}

/// The number of characters of the longest line of a text.
pub open spec fn text_width(s: Seq<char>) -> nat {
    width_from(s, 0, 0, 0)
}

/// The number of characters of the longest line of a text.
pub fn string_width(value: &str) -> (r: usize)
    ensures
        r == text_width(value@),
{
    let chars = chars_of(value);
    let mut line: usize = 0;
    let mut most: usize = 0;
    let mut i: usize = 0;
    while i < chars.len()
        invariant
            i <= chars@.len(),
            chars@ == value@,
            line <= i,
            most <= i,
            text_width(value@) == width_from(value@, i as int, line as nat, most as nat),
        decreases chars@.len() - i,
    {
        if chars[i] == '\n' {
            if line > most {
                most = line;
            }
            line = 0;
        } else {
            line = line + 1;
        }
        i = i + 1;
    }
    if line > most {
        line
    } else {
        most
    }
}

/// The width of column `column`: the width of its name, or the width of
/// the widest of its values in the rows from `from` to `upto`.
pub open spec fn column_width(
    name: Seq<char>,
    rows: Seq<Vec<String>>,
    column: int,
    from: int,
    upto: int,
) -> nat
    decreases upto - from,
{
    if from >= upto {
        text_width(name)
    } else {
        let rest = column_width(name, rows, column, from + 1, upto);
        let here = if 0 <= from < rows.len() && 0 <= column < rows[from]@.len() {
            text_width(rows[from]@[column]@)
        } else {
            0
        };
        if here > rest {
            here
        } else {
            rest
        }
    }
}

/// `n` times the character `c` behind `out`.
pub open spec fn repeated(out: Seq<char>, c: char, n: nat) -> Seq<char>
    decreases n,
{
    if n == 0 {
        out
    } else {
        repeated(out, c, (n - 1) as nat).push(c)
    }
}

fn push_repeated(out: &mut Vec<char>, c: char, n: usize)
    ensures
        final(out)@ == repeated(old(out)@, c, n as nat),
{
    let mut i: usize = 0;
    while i < n
        invariant
            i <= n,
            out@ == repeated(old(out)@, c, i as nat),
        decreases n - i,
    {
        out.push(c);
        i = i + 1;
    }
}

/// The widths as numbers.
pub open spec fn widths_view(widths: Seq<usize>) -> Seq<nat> {
    Seq::new(widths.len(), |i: int| widths[i] as nat)
}

/// The line that closes a table off above and below, behind `out`: a
/// dash for every character of a row.
pub open spec fn separator_text(out: Seq<char>, widths: Seq<nat>, from: int) -> Seq<char>
    decreases widths.len() - from,
{
    if from < 0 || from >= widths.len() {
        out.push('-').push('\n')
    } else {
        separator_text(repeated(repeated(out, '-', widths[from]), '-', 3), widths, from + 1)
    }
}

/// Writes the line that closes a table off above and below.
pub fn print_separator(out: &mut Vec<char>, widths: &Vec<usize>)
    ensures
        final(out)@ == separator_text(old(out)@, widths_view(widths@), 0),
{
    let mut i: usize = 0;
    while i < widths.len()
        invariant
            i <= widths@.len(),
            separator_text(old(out)@, widths_view(widths@), 0) == separator_text(
                out@,
                widths_view(widths@),
                i as int,
            ),
        decreases widths@.len() - i,
    {
        push_repeated(out, '-', widths[i]);
        push_repeated(out, '-', 3);
        i = i + 1;
    }
    out.push('-');
    out.push('\n');
}

/// The spaces that fill a column up behind a text.
pub open spec fn fill_after(width: nat, text: Seq<char>) -> nat {
    if width >= text.len() {
        (width - text.len()) as nat
    } else {
        0
    }
}

/// A row of a table behind `out`: each text between bars, with a space
/// before it and spaces behind it up to the width of its column.
pub open spec fn row_text(out: Seq<char>, widths: Seq<nat>, columns: Seq<String>, from: int)
    -> Seq<char>
    decreases widths.len() - from,
{
    if from < 0 || from >= widths.len() || from >= columns.len() {
        out.push('|').push('\n')
    } else {
        row_text(
            repeated(
                out.push('|').push(' ') + columns[from]@,
                ' ',
                fill_after(widths[from], columns[from]@),
            ).push(' '),
            widths,
            columns,
            from + 1,
        )
    }
}

/// Writes a row of a table.
pub fn print_row(out: &mut Vec<char>, widths: &Vec<usize>, columns: &Vec<String>)
    ensures
        final(out)@ == row_text(old(out)@, widths_view(widths@), columns@, 0),
{
    let mut i: usize = 0;
    while i < widths.len() && i < columns.len()
        invariant
            i <= widths@.len(),
            i <= columns@.len(),
            row_text(old(out)@, widths_view(widths@), columns@, 0) == row_text(
                out@,
                widths_view(widths@),
                columns@,
                i as int,
            ),
        decreases widths@.len() - i,
    {
        out.push('|');
        out.push(' ');
        let chars = chars_of(columns[i].as_str());
        crate::text::push_str(out, columns[i].as_str());
        let fill: usize = if widths[i] >= chars.len() {
            widths[i] - chars.len()
        } else {
            0
        };
        push_repeated(out, ' ', fill);
        out.push(' ');
        i = i + 1;
    }
    out.push('|');
    out.push('\n');
}

/// The head of a table behind `out`: the names of the columns between two
/// separators.
pub open spec fn headers_text(out: Seq<char>, widths: Seq<nat>, names: Seq<String>) -> Seq<char> {
    separator_text(row_text(separator_text(out, widths, 0), widths, names, 0), widths, 0)
}

/// Writes the head of a table.
pub fn print_headers(out: &mut Vec<char>, widths: &Vec<usize>, column_names: &Vec<String>)
    ensures
        final(out)@ == headers_text(old(out)@, widths_view(widths@), column_names@),
{
    print_separator(out, widths);
    print_row(out, widths, column_names);
    print_separator(out, widths);
}

/// The rows from `from` to `upto` behind `out`.
pub open spec fn rows_text(
    out: Seq<char>,
    widths: Seq<nat>,
    rows: Seq<Vec<String>>,
    from: int,
    upto: int,
) -> Seq<char>
    decreases upto - from,
{
    if from < 0 || from >= upto || from >= rows.len() {
        out
    } else {
        rows_text(row_text(out, widths, rows[from]@, 0), widths, rows, from + 1, upto)
    }
}

/// The widths of the columns for the rows from `from` to `upto`.
pub open spec fn page_widths(names: Seq<String>, rows: Seq<Vec<String>>, from: int, upto: int)
    -> Seq<nat> {
    Seq::new(names.len(), |i: int| column_width(names[i]@, rows, i, from, upto))
}

fn column_widths(column_names: &Vec<String>, rows: &Vec<Vec<String>>, from: usize, upto: usize)
    -> (r: Vec<usize>)
    requires
        from <= upto <= rows@.len(),
        forall|i: int| 0 <= i < rows@.len() ==> (#[trigger] rows@[i])@.len() == column_names@.len(),
    ensures
        widths_view(r@) == page_widths(column_names@, rows@, from as int, upto as int),
{
    let mut widths: Vec<usize> = Vec::new();
    let mut i: usize = 0;
    while i < column_names.len()
        invariant
            i <= column_names@.len(),
            from <= upto <= rows@.len(),
            forall|i: int|
                0 <= i < rows@.len() ==> (#[trigger] rows@[i])@.len() == column_names@.len(),
            widths@.len() == i,
            forall|j: int|
                0 <= j < i ==> (#[trigger] widths@[j]) as nat == column_width(
                    column_names@[j]@,
                    rows@,
                    j,
                    from as int,
                    upto as int,
                ),
        decreases column_names@.len() - i,
    {
        let mut width: usize = string_width(column_names[i].as_str());
        let mut k: usize = upto;
        while k > from
            invariant
                from <= k <= upto,
                upto <= rows@.len(),
                i < column_names@.len(),
                forall|i: int|
                    0 <= i < rows@.len() ==> (#[trigger] rows@[i])@.len() == column_names@.len(),
                width as nat == column_width(
                    column_names@[i as int]@,
                    rows@,
                    i as int,
                    k as int,
                    upto as int,
                ),
            decreases k,
        {
            k = k - 1;
            let here: usize = string_width(rows[k][i].as_str());
            if here > width {
                width = here;
            }
        }
        widths.push(width);
        i = i + 1;
    }
    proof {
        assert(widths_view(widths@) =~= page_widths(
            column_names@,
            rows@,
            from as int,
            upto as int,
        ));
    }
    widths
}

/// Where the page that starts at row `from` ends.
pub open spec fn page_end(rows: nat, page_length: int, from: int) -> int {
    if from + page_length < rows {
        from + page_length
    } else {
        rows as int
    }
}

/// One page of a table behind `out`: the head, the rows from `from` to
/// `upto`, a separator and an empty line.
pub open spec fn page_text(
    out: Seq<char>,
    names: Seq<String>,
    rows: Seq<Vec<String>>,
    from: int,
    upto: int,
) -> Seq<char> {
    let w = page_widths(names, rows, from, upto);
    separator_text(rows_text(headers_text(out, w, names), w, rows, from, upto), w, 0).push('\n')
}

/// The pages of a table from row `from` on behind `out`: the rows are
/// shown `page_length` at a time, each page under the names of the
/// columns and with columns as wide as the page needs them.
pub open spec fn pages_text(
    out: Seq<char>,
    names: Seq<String>,
    rows: Seq<Vec<String>>,
    page_length: int,
    from: int,
) -> Seq<char>
    decreases rows.len() - from,
{
    if from < 0 || from >= rows.len() || page_length <= 0 {
        out
    } else {
        let upto = page_end(rows.len(), page_length, from);
        pages_text(page_text(out, names, rows, from, upto), names, rows, page_length, upto)
    }
}

/// The text of a table: its pages, or where no row is shown one head
/// without rows.
pub open spec fn table_text(names: Seq<String>, rows: Seq<Vec<String>>, page_length: int) -> Seq<
    char,
> {
    if rows.len() == 0 || page_length <= 0 {
        headers_text(Seq::empty(), page_widths(names, rows, 0, 0), names).push('\n')
    } else {
        pages_text(Seq::empty(), names, rows, page_length, 0)
    }
}

fn print_page(
    out: &mut Vec<char>,
    column_names: &Vec<String>,
    rows: &Vec<Vec<String>>,
    from: usize,
    upto: usize,
)
    requires
        from <= upto <= rows@.len(),
        forall|i: int| 0 <= i < rows@.len() ==> (#[trigger] rows@[i])@.len() == column_names@.len(),
    ensures
        final(out)@ == page_text(old(out)@, column_names@, rows@, from as int, upto as int),
{
    let w = column_widths(column_names, rows, from, upto);
    print_headers(out, &w, column_names);
    let ghost head = out@;
    let mut k: usize = from;
    while k < upto
        invariant
            from <= k <= upto,
            upto <= rows@.len(),
            rows_text(head, widths_view(w@), rows@, from as int, upto as int) == rows_text(
                out@,
                widths_view(w@),
                rows@,
                k as int,
                upto as int,
            ),
        decreases upto - k,
    {
        print_row(out, &w, &rows[k]);
        k = k + 1;
    }
    print_separator(out, &w);
    out.push('\n');
}

/// The rows as a table of text, with the number of rows shown. The rows
/// are shown `page_length` at a time, each page under the names of the
/// columns, between lines of dashes. Where no row is shown there is one
/// head without rows.
pub fn pretty_select(column_names: &Vec<String>, rows: &Vec<Vec<String>>, page_length: usize) -> (r:
    (String, u64))
    requires
        forall|i: int| 0 <= i < rows@.len() ==> (#[trigger] rows@[i])@.len() == column_names@.len(),
    ensures
        r.0@ == table_text(column_names@, rows@, page_length as int),
        r.1 == (if page_length == 0 {
            0
        } else {
            rows@.len()
        }),
{
    let mut out: Vec<char> = Vec::new();
    let mut row_count: usize = 0;
    if page_length > 0 {
        while row_count < rows.len()
            invariant
                page_length > 0,
                row_count <= rows@.len(),
                forall|i: int|
                    0 <= i < rows@.len() ==> (#[trigger] rows@[i])@.len() == column_names@.len(),
                pages_text(Seq::empty(), column_names@, rows@, page_length as int, 0)
                    == pages_text(out@, column_names@, rows@, page_length as int, row_count as int),
                rows@.len() == 0 ==> out@.len() == 0,
            decreases rows@.len() - row_count,
        {
            let upto: usize = if page_length < rows.len() - row_count {
                row_count + page_length
            } else {
                rows.len()
            };
            print_page(&mut out, column_names, rows, row_count, upto);
            row_count = upto;
        }
    }
    if row_count == 0 {
        // no rows; print a table showing "no rows"
        let w = column_widths(column_names, rows, 0, 0);
        proof {
            assert(out@ =~= Seq::<char>::empty());
        }
        print_headers(&mut out, &w, column_names);
        out.push('\n');
    }
    (string_of(out.as_slice()), row_count as u64)
}

} // verus!
