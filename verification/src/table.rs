//! The `table` output: columns padded to a common width.
use vstd::prelude::*;
use vstd::utf8::encode_utf8;

use crate::text::{push_char, push_repeated, push_str, repeat_char, strings_view};

verus! {

/// The length in bytes of the UTF-8 encoding of `s`, as `str::len` reports
/// it in a `usize` (no string in memory is longer).
pub open spec fn byte_len(s: Seq<char>) -> nat {
    (encode_utf8(s).len() as usize) as nat
}

/// The cells of each row, as characters.
pub open spec fn rows_view(rows: Seq<Vec<String>>) -> Seq<Seq<Seq<char>>> {
    rows.map_values(|r: Vec<String>| strings_view(r@))
}

/// Widths as natural numbers.
pub open spec fn nat_view(v: Seq<usize>) -> Seq<nat> {
    v.map_values(|w: usize| w as nat)
}

/// The width of column `i` after the header and the first `k` rows: the
/// largest byte length among them; a row too short for column `i` leaves it.
pub open spec fn width_after(
    columns: Seq<Seq<char>>,
    rows: Seq<Seq<Seq<char>>>,
    k: int,
    i: int,
) -> nat
    decreases k,
{
    if k <= 0 {
        byte_len(columns[i])
    } else {
        let before = width_after(columns, rows, k - 1, i);
        if i < rows[k - 1].len() && byte_len(rows[k - 1][i]) > before {
            byte_len(rows[k - 1][i])
        } else {
            before
        }
    }
}

/// The width of every column: one per header cell.
pub open spec fn column_widths_of(columns: Seq<Seq<char>>, rows: Seq<Seq<Seq<char>>>) -> Seq<
    nat,
> {
    Seq::new(columns.len(), |i: int| width_after(columns, rows, rows.len() as int, i))
}

/// Each column is as wide, in bytes, as its widest cell among the header and
/// the rows that reach it; cells beyond the header's columns are not counted.
fn column_widths(columns: &[String], rows: &[Vec<String>]) -> (widths: Vec<usize>)
    ensures
        nat_view(widths@) == column_widths_of(strings_view(columns@), rows_view(rows@)),
{
    let ghost cols = strings_view(columns@);
    let ghost rs = rows_view(rows@);
    let mut widths: Vec<usize> = Vec::new();
    let mut i: usize = 0;
    while i < columns.len()
        invariant
            i <= columns.len(),
            cols == strings_view(columns@),
            widths@.len() == i,
            forall|j: int| 0 <= j < i ==> widths@[j] as nat == width_after(cols, rs, 0, j),
        decreases columns.len() - i,
    {
        widths.push(columns[i].as_str().len());
        assert(cols[i as int] == columns@[i as int]@);
        i = i + 1;
    }
    let mut r: usize = 0;
    while r < rows.len()
        invariant
            r <= rows.len(),
            cols == strings_view(columns@),
            rs == rows_view(rows@),
            widths@.len() == columns@.len(),
            forall|j: int|
                0 <= j < widths@.len() ==> widths@[j] as nat == width_after(cols, rs, r as int, j),
        decreases rows.len() - r,
    {
        let row = &rows[r];
        let mut c: usize = 0;
        while c < row.len()
            invariant
                r < rows.len(),
                c <= row.len(),
                row == rows@[r as int],
                cols == strings_view(columns@),
                rs == rows_view(rows@),
                widths@.len() == columns@.len(),
                forall|j: int|
                    0 <= j < widths@.len() ==> widths@[j] as nat == if j < c {
                        width_after(cols, rs, r + 1, j)
                    } else {
                        width_after(cols, rs, r as int, j)
                    },
            decreases row.len() - c,
        {
            let len = row[c].as_str().len();
            assert(rs[r as int] == strings_view(row@));
            assert(rs[r as int][c as int] == row@[c as int]@);
            if c < widths.len() {
                if len > widths[c] {
                    widths.set(c, len);
                }
            }
            c = c + 1;
        }
        r = r + 1;
    }
    assert(nat_view(widths@) =~= column_widths_of(cols, rs));
    widths
}

/// A cell padded with spaces up to `width` characters, as `{:<width$}` does;
/// a longer cell is left whole.
pub open spec fn padded(cell: Seq<char>, width: nat) -> Seq<char> {
    if cell.len() < width {
        cell + repeat_char(' ', (width - cell.len()) as nat)
    } else {
        cell
    }
}

/// The width a cell is padded to: its column's, or its own byte length
/// beyond the last column.
pub open spec fn cell_width(cells: Seq<Seq<char>>, widths: Seq<nat>, i: int) -> nat {
    if i < widths.len() {
        widths[i]
    } else {
        byte_len(cells[i])
    }
}

/// The first `k` cells of a row, padded and separated by single spaces.
pub open spec fn row_prefix(cells: Seq<Seq<char>>, widths: Seq<nat>, k: int) -> Seq<char>
    decreases k,
{
    if k <= 0 {
        seq![]
    } else {
        row_prefix(cells, widths, k - 1) + (if k - 1 > 0 {
            seq![' ']
        } else {
            seq![]
        }) + padded(cells[k - 1], cell_width(cells, widths, k - 1))
    }
}

/// One line of the table.
pub open spec fn row_text(cells: Seq<Seq<char>>, widths: Seq<nat>) -> Seq<char> {
    row_prefix(cells, widths, cells.len() as int)
}

/// Appends one line of the table: each cell padded to its width, separated
/// by single spaces.
fn push_table_row(out: &mut String, cells: &[String], widths: &[usize])
    ensures
        final(out)@ == old(out)@ + row_text(strings_view(cells@), nat_view(widths@)),
{
    let ghost cs = strings_view(cells@);
    let ghost ws = nat_view(widths@);
    let mut i: usize = 0;
    while i < cells.len()
        invariant
            i <= cells.len(),
            cs == strings_view(cells@),
            ws == nat_view(widths@),
            out@ == old(out)@ + row_prefix(cs, ws, i as int),
        decreases cells.len() - i,
    {
        let cell = cells[i].as_str();
        assert(cs[i as int] == cell@);
        assert(i < widths@.len() ==> ws[i as int] == widths@[i as int] as nat);
        if i > 0 {
            push_char(out, ' ');
        }
        let width = if i < widths.len() {
            widths[i]
        } else {
            cell.len()
        };
        push_str(out, cell);
        let count = cell.unicode_len();
        if count < width {
            push_repeated(out, ' ', width - count);
        }
        assert(out@ =~= old(out)@ + row_prefix(cs, ws, i + 1));
        i = i + 1;
    }
}

/// A line of dashes for each column width.
pub open spec fn separator_cells(widths: Seq<nat>) -> Seq<Seq<char>> {
    Seq::new(widths.len(), |i: int| repeat_char('-', widths[i]))
}

/// The lines of the first `k` rows, each after a line break.
pub open spec fn body_lines(rows: Seq<Seq<Seq<char>>>, widths: Seq<nat>, k: int) -> Seq<char>
    decreases k,
{
    if k <= 0 {
        seq![]
    } else {
        body_lines(rows, widths, k - 1) + seq!['\n'] + row_text(rows[k - 1], widths)
    }
}

/// The table: the header, a line of dashes, then one line per row, each
/// cell padded to its column's width.
pub open spec fn table_text(columns: Seq<Seq<char>>, rows: Seq<Seq<Seq<char>>>) -> Seq<char> {
    let widths = column_widths_of(columns, rows);
    row_text(columns, widths) + seq!['\n'] + row_text(separator_cells(widths), widths)
        + body_lines(rows, widths, rows.len() as int)
}

/// Renders the header and rows as a table of padded columns.
pub fn render_table(columns: &[String], rows: &[Vec<String>]) -> (r: String)
    ensures
        r@ == table_text(strings_view(columns@), rows_view(rows@)),
{
    let ghost cols = strings_view(columns@);
    let ghost rs = rows_view(rows@);
    let widths = column_widths(columns, rows);
    let ghost ws = nat_view(widths@);
    let mut out = String::new();
    push_table_row(&mut out, columns, widths.as_slice());
    push_char(&mut out, '\n');
    let mut separators: Vec<String> = Vec::new();
    let mut i: usize = 0;
    while i < widths.len()
        invariant
            i <= widths.len(),
            ws == nat_view(widths@),
            strings_view(separators@) =~= separator_cells(ws).take(i as int),
        decreases widths.len() - i,
    {
        let mut dashes = String::new();
        push_repeated(&mut dashes, '-', widths[i]);
        let ghost before = separators@;
        separators.push(dashes);
        assert(ws[i as int] == widths@[i as int] as nat);
        assert(strings_view(separators@) =~= strings_view(before).push(dashes@));
        i = i + 1;
    }
    assert(strings_view(separators@) =~= separator_cells(ws));
    push_table_row(&mut out, separators.as_slice(), widths.as_slice());
    let ghost head = out@;
    let mut k: usize = 0;
    while k < rows.len()
        invariant
            k <= rows.len(),
            rs == rows_view(rows@),
            ws == nat_view(widths@),
            out@ == head + body_lines(rs, ws, k as int),
        decreases rows.len() - k,
    {
        push_char(&mut out, '\n');
        push_table_row(&mut out, rows[k].as_slice(), widths.as_slice());
        assert(out@ =~= head + body_lines(rs, ws, k + 1));
        k = k + 1;
    }
    out
}

/// A column's width is that of its widest cell: no cell of the column
/// (header or row) is longer in bytes, and the header or some row's cell is
/// exactly that long.
pub proof fn column_width_is_widest(columns: Seq<Seq<char>>, rows: Seq<Seq<Seq<char>>>, i: int)
    requires
        0 <= i < columns.len(),
    ensures
        column_widths_of(columns, rows)[i] >= byte_len(columns[i]),
        forall|r: int|
            0 <= r < rows.len() && i < rows[r].len() ==> column_widths_of(columns, rows)[i]
                >= byte_len(#[trigger] rows[r][i]),
        column_widths_of(columns, rows)[i] == byte_len(columns[i]) || exists|r: int|
            0 <= r < rows.len() && i < rows[r].len() && column_widths_of(columns, rows)[i]
                == byte_len(#[trigger] rows[r][i]),
{
    width_after_is_widest(columns, rows, rows.len() as int, i);
}

proof fn width_after_is_widest(
    columns: Seq<Seq<char>>,
    rows: Seq<Seq<Seq<char>>>,
    k: int,
    i: int,
)
    requires
        0 <= k <= rows.len(),
    ensures
        width_after(columns, rows, k, i) >= byte_len(columns[i]),
        forall|r: int|
            0 <= r < k && i < rows[r].len() ==> width_after(columns, rows, k, i) >= byte_len(
                #[trigger] rows[r][i],
            ),
        width_after(columns, rows, k, i) == byte_len(columns[i]) || exists|r: int|
            0 <= r < k && i < rows[r].len() && width_after(columns, rows, k, i) == byte_len(
                #[trigger] rows[r][i],
            ),
    decreases k,
{
    if k > 0 {
        width_after_is_widest(columns, rows, k - 1, i);
        if i < rows[k - 1].len() && byte_len(rows[k - 1][i]) > width_after(columns, rows, k - 1, i) {
            assert(byte_len(rows[k - 1][i]) == width_after(columns, rows, k, i));
        }
    }
}

/// The sum of the first `k` widths.
pub open spec fn width_sum(widths: Seq<nat>, k: int) -> nat
    decreases k,
{
    if k <= 0 {
        0
    } else {
        width_sum(widths, k - 1) + widths[k - 1]
    }
}

/// Cells that fit their columns make a line exactly as long as the widths
/// and the spaces between them.
proof fn row_prefix_length(cells: Seq<Seq<char>>, widths: Seq<nat>, k: int)
    requires
        0 <= k <= cells.len() == widths.len(),
        forall|i: int| 0 <= i < cells.len() ==> (#[trigger] cells[i]).len() <= widths[i],
    ensures
        row_prefix(cells, widths, k).len() == width_sum(widths, k) + if k > 0 {
            k - 1
        } else {
            0
        },
    decreases k,
{
    if k > 0 {
        row_prefix_length(cells, widths, k - 1);
        assert(cells[k - 1].len() <= widths[k - 1]);
    }
}

/// Table lines line up: in a table of ASCII cells whose rows each have a cell
/// for every column, the header, the line of dashes and every row's line all
/// have the same length.
pub proof fn ascii_table_lines_align(columns: Seq<Seq<char>>, rows: Seq<Seq<Seq<char>>>)
    requires
        forall|i: int| 0 <= i < columns.len() ==> vstd::utf8::is_ascii_chars(#[trigger] columns[i]),
        forall|i: int| 0 <= i < columns.len() ==> (#[trigger] columns[i]).len() <= usize::MAX,
        forall|r: int| 0 <= r < rows.len() ==> (#[trigger] rows[r]).len() == columns.len(),
        forall|r: int, i: int|
            0 <= r < rows.len() && 0 <= i < columns.len() ==> vstd::utf8::is_ascii_chars(
                #[trigger] rows[r][i],
            ) && rows[r][i].len() <= usize::MAX,
    ensures
        ({
            let widths = column_widths_of(columns, rows);
            &&& row_text(separator_cells(widths), widths).len() == row_text(columns, widths).len()
            &&& forall|r: int|
                0 <= r < rows.len() ==> row_text(#[trigger] rows[r], widths).len() == row_text(
                    columns,
                    widths,
                ).len()
        }),
{
    let widths = column_widths_of(columns, rows);
    assert forall|i: int| 0 <= i < columns.len() implies (#[trigger] columns[i]).len()
        <= widths[i] by {
        vstd::utf8::is_ascii_chars_encode_utf8(columns[i]);
        column_width_is_widest(columns, rows, i);
    }
    row_prefix_length(columns, widths, columns.len() as int);
    let seps = separator_cells(widths);
    assert forall|i: int| 0 <= i < seps.len() implies (#[trigger] seps[i]).len() <= widths[i] by {}
    row_prefix_length(seps, widths, seps.len() as int);
    assert forall|r: int| 0 <= r < rows.len() implies row_text(#[trigger] rows[r], widths).len()
        == row_text(columns, widths).len() by {
        assert forall|i: int| 0 <= i < rows[r].len() implies (#[trigger] rows[r][i]).len()
            <= widths[i] by {
            vstd::utf8::is_ascii_chars_encode_utf8(rows[r][i]);
            column_width_is_widest(columns, rows, i);
        }
        row_prefix_length(rows[r], widths, rows[r].len() as int);
    }
}

/// A padded cell is the cell followed only by spaces, and it is as long as the
/// width or the cell, whichever is longer.
pub proof fn padding_adds_only_spaces(cell: Seq<char>, width: nat)
    ensures
        padded(cell, width).len() == if cell.len() < width {
            width
        } else {
            cell.len()
        },
        padded(cell, width).take(cell.len() as int) == cell,
        forall|i: int|
            cell.len() <= i < padded(cell, width).len() ==> #[trigger] padded(cell, width)[i] == ' ',
{
    assert(padded(cell, width).take(cell.len() as int) =~= cell);
}

} // verus!
