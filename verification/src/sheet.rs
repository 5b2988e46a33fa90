//! The cells of a worksheet: what a `calamine::Range` holds, read into rows
//! of plain cells.

use vstd::prelude::*;
use calamine::{DataType, Range};

verus! {

/// A worksheet's cells as `calamine` read them. The verifier sees nothing
/// inside: contracts speak of the cells through [`sheet_cells`].
#[verifier::external_body]
pub struct Sheet {
    /// The range of cells that the reader handed out.
    pub range: Range<DataType>,
}

/// What a cell looks like in contracts: whether it holds a string, and its text.
pub type CellView = (bool, Seq<char>);

/// One cell of a sheet, as far as a course list depends on it.
#[derive(Debug, Clone)]
pub struct Cell {
    /// Whether the cell holds a string, rather than a number, a truth value,
    /// an error or nothing.
    pub is_string: bool,
    /// The cell's content written out as text; empty for an empty cell.
    pub text: String,
}

impl View for Cell {
    type V = CellView;

    open spec fn view(&self) -> CellView {
        (self.is_string, self.text@)
    }
}

impl Cell {
    /// A cell that holds the string `text`.
    pub fn string(text: &str) -> (cell: Cell)
        ensures
            cell@ == (true, text@),
    {
        Cell { is_string: true, text: text.to_owned() }
    }

    /// A cell that holds something other than a string and is written `text`.
    pub fn other(text: &str) -> (cell: Cell)
        ensures
            cell@ == (false, text@),
    {
        Cell { is_string: false, text: text.to_owned() }
    }

    /// A cell that holds nothing.
    pub fn empty() -> (cell: Cell)
        ensures
            cell@ == (false, Seq::<char>::empty()),
    {
        Cell { is_string: false, text: String::new() }
    }
}

/// What a row of a sheet looks like in contracts.
pub type RowView = Seq<CellView>;

/// One row of cells as contracts see it.
pub open spec fn row_view(cells: Seq<Cell>) -> RowView {
    cells.map_values(|cell: Cell| cell@)
}

/// The rows of a sheet as contracts see them.
pub open spec fn rows_view(rows: Seq<Vec<Cell>>) -> Seq<RowView> {
    rows.map_values(|row: Vec<Cell>| row_view(row@))
}

/// The cells of a sheet's range, row by row from its top left corner: for each
/// cell whether it is a `DataType::String`, and the text that `Display` writes
/// for it.
pub uninterp spec fn sheet_cells(sheet: Sheet) -> Seq<Seq<(bool, Seq<char>)>>;

/// `Range::height`: the number of rows of the range.
#[verifier::external_body]
fn sheet_height(sheet: &Sheet) -> (height: usize)
    ensures
        height == sheet_cells(*sheet).len(),
{
    sheet.range.height()
}

/// `Range::width`: the number of cells that every row of the range has.
#[verifier::external_body]
fn sheet_width(sheet: &Sheet) -> (width: usize)
    ensures
        forall|r: int|
            0 <= r < sheet_cells(*sheet).len() ==> (#[trigger] sheet_cells(*sheet)[r]).len()
                == width,
{
    sheet.range.width()
}

/// `DataType::is_string` on the cell that the range's `Index` gives for a
/// row and a column counted from its top left corner.
#[verifier::external_body]
fn cell_is_string(sheet: &Sheet, row: usize, col: usize) -> (is_string: bool)
    requires
        row < sheet_cells(*sheet).len(),
        col < sheet_cells(*sheet)[row as int].len(),
    ensures
        is_string == sheet_cells(*sheet)[row as int][col as int].0,
{
    sheet.range[(row, col)].is_string()
}

/// `DataType`'s `Display`, through `to_string`, on the cell that the range's
/// `Index` gives for a row and a column counted from its top left corner.
#[verifier::external_body]
fn cell_text(sheet: &Sheet, row: usize, col: usize) -> (text: String)
    requires
        row < sheet_cells(*sheet).len(),
        col < sheet_cells(*sheet)[row as int].len(),
    ensures
        text@ == sheet_cells(*sheet)[row as int][col as int].1,
{
    sheet.range[(row, col)].to_string()
}

/// Reads every cell of `sheet` into rows of plain cells.
pub fn sheet_rows(sheet: &Sheet) -> (rows: Vec<Vec<Cell>>)
    ensures
        rows_view(rows@) == sheet_cells(*sheet),
{
    let height = sheet_height(sheet);
    let width = sheet_width(sheet);
    let mut rows: Vec<Vec<Cell>> = Vec::new();
    let mut r: usize = 0;
    while r < height
        invariant
            r <= height,
            height == sheet_cells(*sheet).len(),
            forall|k: int|
                0 <= k < sheet_cells(*sheet).len() ==> (#[trigger] sheet_cells(*sheet)[k]).len()
                    == width,
            rows@.len() == r,
            rows_view(rows@) == sheet_cells(*sheet).take(r as int),
        decreases height - r,
    {
        let mut cells: Vec<Cell> = Vec::new();
        let mut c: usize = 0;
        while c < width
            invariant
                r < height,
                c <= width,
                height == sheet_cells(*sheet).len(),
                sheet_cells(*sheet)[r as int].len() == width,
                cells@.len() == c,
                forall|k: int| 0 <= k < c ==> (#[trigger] cells@[k])@ == sheet_cells(*sheet)[r as int][k],
            decreases width - c,
        {
            let is_string = cell_is_string(sheet, r, c);
            let text = cell_text(sheet, r, c);
            cells.push(Cell { is_string, text });
            c += 1;
        }
        let ghost before = rows@;
        rows.push(cells);
        proof {
            let target = sheet_cells(*sheet).take(r + 1);
            assert(rows_view(rows@).len() == target.len());
            assert forall|k: int| 0 <= k < target.len() implies rows_view(rows@)[k] == target[k] by {
                if k < r {
                    assert(rows@[k] == before[k]);
                    assert(rows_view(before)[k] == sheet_cells(*sheet).take(r as int)[k]);
                    assert(rows_view(rows@)[k] =~= rows_view(before)[k]);
                } else {
                    assert(rows_view(rows@)[k] =~= target[k]);
                }
            }
            assert(rows_view(rows@) =~= target);
        }
        r += 1;
    }
    assert(sheet_cells(*sheet).take(r as int) =~= sheet_cells(*sheet));
    rows
}

} // verus!
