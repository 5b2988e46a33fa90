//! The table that a course list is written out as: one heading row, one row
//! for each participant, and the shape of each column.

use vstd::prelude::*;
use crate::column::resolve;
use crate::course_list::{auxiliary_labels, entries_view, resolves, CourseListOptions, OptionsView};
use crate::entry::{CourseEntry, EntryView};

verus! {

/// The heading of the column of customer numbers.
pub const ID_HEADING: &'static str = "Customer-ID";

/// The heading of the column of course groups.
pub const GROUP_HEADING: &'static str = "Group";

/// The heading of the column of names.
pub const NAME_HEADING: &'static str = "Name";

/// The heading of the column of telephone numbers.
pub const TELEPHONE_HEADING: &'static str = "Phone";

/// The heading of the column of e-mail addresses.
pub const EMAIL_HEADING: &'static str = "Email";

/// The heading of the column of prices.
pub const PRICE_HEADING: &'static str = "Balance/Price";

/// The number of columns that every list has.
pub const FIXED_COLUMNS: usize = 5;

/// One cell of the table that is written out.
#[derive(Debug, Clone, PartialEq, Eq)]
pub enum ExportCell {
    /// A cell that holds a whole number.
    Number(i64),
    /// A cell that holds text.
    Text(String),
}

/// A cell of the table as contracts see it.
pub ghost enum ExportCellView {
    Number(int),
    Text(Seq<char>),
}

impl View for ExportCell {
    type V = ExportCellView;

    open spec fn view(&self) -> ExportCellView {
        match self {
            ExportCell::Number(n) => ExportCellView::Number(*n as int),
            ExportCell::Text(text) => ExportCellView::Text(text@),
        }
    }
}

/// How one column of a spreadsheet is laid out.
#[derive(Debug, Clone, Copy, PartialEq, Eq, Structural)]
pub struct ColumnFormat {
    /// The width of the column, in characters.
    pub width: u16,
    /// Whether the column's cells are centered.
    pub centered: bool,
    /// Whether the column's numbers are shown as amounts of money.
    pub currency: bool,
}

/// The table that is written out.
#[derive(Debug, Clone)]
pub struct ExportTable {
    /// The headings of the columns.
    pub header: Vec<String>,
    /// One row for each participant, each with one cell for each heading.
    pub rows: Vec<Vec<ExportCell>>,
}

/// The headings of the five columns that every list has.
pub open spec fn fixed_headings() -> Seq<Seq<char>> {
    seq![ID_HEADING@, GROUP_HEADING@, NAME_HEADING@, TELEPHONE_HEADING@, EMAIL_HEADING@]
}

/// The headings of the columns that follow the first five: the price where
/// it is shown, else the additional columns whose label names a column.
pub open spec fn extra_headings(options: OptionsView) -> Seq<Seq<char>> {
    if options.show_price {
        seq![PRICE_HEADING@]
    } else {
        auxiliary_labels(options)
    }
}

/// The heading row.
pub open spec fn headings(options: OptionsView) -> Seq<Seq<char>> {
    fixed_headings() + extra_headings(options)
}

/// The cell of an entry in the `k`th additional column: the value that the
/// entry has there, or empty text where it has none.
pub open spec fn auxiliary_cell(entry: EntryView, k: int) -> ExportCellView {
    if 0 <= k < entry.auxiliaries.len() {
        ExportCellView::Text(entry.auxiliaries[k])
    } else {
        ExportCellView::Text(Seq::empty())
    }
}

/// The cells of an entry that follow the first five: a price of 0 where the
/// price is shown, else one cell for each additional column of the heading.
pub open spec fn extra_cells(entry: EntryView, options: OptionsView) -> Seq<ExportCellView> {
    if options.show_price {
        seq![ExportCellView::Number(0)]
    } else {
        Seq::new(auxiliary_labels(options).len(), |k: int| auxiliary_cell(entry, k))
    }
}

/// The row of an entry: number, group, name, telephone and e-mail address,
/// then the cells for the columns that follow.
pub open spec fn row_of(entry: EntryView, options: OptionsView) -> Seq<ExportCellView> {
    seq![
        ExportCellView::Number(entry.id),
        ExportCellView::Text(entry.group),
        ExportCellView::Text(entry.name),
        ExportCellView::Text(entry.telephone),
        ExportCellView::Text(entry.email),
    ] + extra_cells(entry, options)
}

/// A row of the table as contracts see it.
pub open spec fn cells_view(cells: Seq<ExportCell>) -> Seq<ExportCellView> {
    cells.map_values(|cell: ExportCell| cell@)
}

/// Texts as contracts see them.
pub open spec fn texts_view(texts: Seq<String>) -> Seq<Seq<char>> {
    texts.map_values(|text: String| text@)
}

/// Every row has one cell for each heading.
pub proof fn lemma_row_fits_heading(entry: EntryView, options: OptionsView)
    ensures
        row_of(entry, options).len() == headings(options).len(),
{
}

/// The headings of the additional columns whose label names a column.
pub fn resolved_labels(options: &CourseListOptions) -> (labels: Vec<String>)
    ensures
        texts_view(labels@) == auxiliary_labels(options@),
{
    let mut labels: Vec<String> = Vec::new();
    if options.show_price {
        assert(texts_view(labels@) =~= Seq::<Seq<char>>::empty());
        return labels;
    }
    let ghost pairs = options@.auxiliaries;
    let ghost label = |pair: (Seq<char>, Seq<char>)| pair.0;
    let mut i: usize = 0;
    proof {
        assert(pairs.take(0) =~= Seq::empty());
        pairs.take(0).lemma_filter_len(resolves());
        assert(texts_view(labels@) =~= pairs.take(0).filter(resolves()).map_values(label));
    }
    while i < options.auxiliaries.len()
        invariant
            i <= options.auxiliaries.len(),
            pairs == options@.auxiliaries,
            pairs.len() == options.auxiliaries.len(),
            label == |pair: (Seq<char>, Seq<char>)| pair.0,
            texts_view(labels@) == pairs.take(i as int).filter(resolves()).map_values(label),
        decreases options.auxiliaries.len() - i,
    {
        let ghost before = labels@;
        let ghost seen = pairs.take(i as int);
        proof {
            assert(pairs.take(i + 1) =~= seen.push(pairs[i as int]));
            seen.lemma_filter_push(pairs[i as int], resolves());
            assert(pairs[i as int].1 == options.auxiliaries[i as int].1@);
            assert(pairs[i as int].0 == options.auxiliaries[i as int].0@);
        }
        if resolve(options.auxiliaries[i].1.as_str()).is_ok() {
            let text = options.auxiliaries[i].0.clone();
            labels.push(text);
            proof {
                let kept = seen.filter(resolves());
                assert(kept.push(pairs[i as int]).map_values(label) =~= kept.map_values(label).push(
                    text@,
                ));
                assert(texts_view(labels@) =~= texts_view(before).push(text@));
            }
        }
        i += 1;
    }
    assert(pairs.take(i as int) =~= pairs);
    labels
}

/// The heading row of the table.
pub fn header_row(options: &CourseListOptions) -> (header: Vec<String>)
    ensures
        texts_view(header@) == headings(options@),
{
    let mut header: Vec<String> = Vec::new();
    header.push(ID_HEADING.to_owned());
    header.push(GROUP_HEADING.to_owned());
    header.push(NAME_HEADING.to_owned());
    header.push(TELEPHONE_HEADING.to_owned());
    header.push(EMAIL_HEADING.to_owned());
    assert(texts_view(header@) =~= fixed_headings());
    if options.show_price {
        header.push(PRICE_HEADING.to_owned());
        assert(texts_view(header@) =~= headings(options@));
    } else {
        let mut labels = resolved_labels(options);
        let ghost fixed = header@;
        let ghost extra = labels@;
        header.append(&mut labels);
        assert(texts_view(header@) =~= texts_view(fixed) + texts_view(extra));
    }
    header
}

/// The row of one participant, with one cell for each column of the heading row.
pub fn entry_row(entry: &CourseEntry, options: &CourseListOptions) -> (row: Vec<ExportCell>)
    ensures
        cells_view(row@) == row_of(entry@, options@),
{
    let mut row: Vec<ExportCell> = Vec::new();
    row.push(ExportCell::Number(entry.id as i64));
    row.push(ExportCell::Text(entry.group.clone()));
    row.push(ExportCell::Text(entry.name.clone()));
    row.push(ExportCell::Text(entry.telephone.clone()));
    row.push(ExportCell::Text(entry.email.clone()));
    if options.show_price {
        row.push(ExportCell::Number(0));
        assert(cells_view(row@) =~= row_of(entry@, options@));
        return row;
    }
    let labels = resolved_labels(options);
    let extras = labels.len();
    assert(extras == texts_view(labels@).len());
    let ghost fixed = row@;
    let mut k: usize = 0;
    while k < extras
        invariant
            k <= extras,
            extras == auxiliary_labels(options@).len(),
            !options@.show_price,
            fixed.len() == FIXED_COLUMNS,
            row@.len() == FIXED_COLUMNS + k,
            row@.take(FIXED_COLUMNS as int) == fixed,
            forall|j: int| 0 <= j < k ==> (#[trigger] row@[FIXED_COLUMNS + j])@ == auxiliary_cell(entry@, j),
        decreases extras - k,
    {
        let ghost before = row@;
        if k < entry.auxiliaries.len() {
            row.push(ExportCell::Text(entry.auxiliaries[k].clone()));
        } else {
            row.push(ExportCell::Text(String::new()));
        }
        proof {
            assert(row@.take(FIXED_COLUMNS as int) =~= before.take(FIXED_COLUMNS as int));
            assert forall|j: int| 0 <= j < k + 1 implies (#[trigger] row@[FIXED_COLUMNS + j])@
                == auxiliary_cell(entry@, j) by {
                if j < k {
                    assert(row@[FIXED_COLUMNS + j] == before[FIXED_COLUMNS + j]);
                }
            }
        }
        k += 1;
    }
    proof {
        let wanted = row_of(entry@, options@);
        assert(cells_view(row@).len() == wanted.len());
        assert forall|j: int| 0 <= j < wanted.len() implies cells_view(row@)[j] == wanted[j] by {
            if j < FIXED_COLUMNS {
                assert(row@[j] == row@.take(FIXED_COLUMNS as int)[j]);
            } else {
                assert(row@[j] == row@[FIXED_COLUMNS + (j - FIXED_COLUMNS)]);
            }
        }
        assert(cells_view(row@) =~= wanted);
    }
    row
}

/// The rows of a table as contracts see them.
pub open spec fn table_rows_view(rows: Seq<Vec<ExportCell>>) -> Seq<Seq<ExportCellView>> {
    rows.map_values(|row: Vec<ExportCell>| cells_view(row@))
}

/// The rows that a list is written out as, one for each entry and in the list's order.
pub open spec fn rows_of(list: Seq<EntryView>, options: OptionsView) -> Seq<Seq<ExportCellView>> {
    list.map_values(|entry: EntryView| row_of(entry, options))
}

/// The table of a course list: the heading row, and under it one row for
/// each participant, in the order of the list. The list is not sorted here.
pub fn export_table(list: &Vec<CourseEntry>, options: &CourseListOptions) -> (table: ExportTable)
    ensures
        texts_view(table.header@) == headings(options@),
        table_rows_view(table.rows@) == rows_of(entries_view(list@), options@),
{
    let header = header_row(options);
    let mut rows: Vec<Vec<ExportCell>> = Vec::new();
    let mut i: usize = 0;
    while i < list.len()
        invariant
            i <= list.len(),
            rows@.len() == i,
            forall|j: int| 0 <= j < i ==> cells_view((#[trigger] rows@[j])@) == row_of(list@[j]@, options@),
        decreases list.len() - i,
    {
        rows.push(entry_row(&list[i], options));
        i += 1;
    }
    assert(table_rows_view(rows@) =~= rows_of(entries_view(list@), options@));
    ExportTable { header, rows }
}

/// The layout of the columns of the table, one for each heading: a narrow,
/// centered column for the customer number, then group, name, telephone and
/// e-mail address, then the columns that follow, which are as wide as the
/// widest of those.
pub open spec fn layout_of(options: OptionsView) -> Seq<ColumnFormat> {
    seq![
        ColumnFormat { width: 5, centered: true, currency: false },
        ColumnFormat { width: 30, centered: false, currency: false },
        ColumnFormat { width: 20, centered: false, currency: false },
        ColumnFormat { width: 15, centered: false, currency: false },
        ColumnFormat { width: 30, centered: false, currency: false },
    ] + Seq::new(
        extra_headings(options).len(),
        |k: int| ColumnFormat { width: 30, centered: false, currency: options.show_price },
    )
}

/// The layout of the columns of the table.
pub fn column_layout(options: &CourseListOptions) -> (layout: Vec<ColumnFormat>)
    ensures
        layout@ == layout_of(options@),
{
    let mut layout: Vec<ColumnFormat> = Vec::new();
    layout.push(ColumnFormat { width: 5, centered: true, currency: false });
    layout.push(ColumnFormat { width: 30, centered: false, currency: false });
    layout.push(ColumnFormat { width: 20, centered: false, currency: false });
    layout.push(ColumnFormat { width: 15, centered: false, currency: false });
    layout.push(ColumnFormat { width: 30, centered: false, currency: false });
    let extras = if options.show_price {
        1
    } else {
        let labels = resolved_labels(options);
        assert(labels.len() == texts_view(labels@).len());
        labels.len()
    };
    let mut k: usize = 0;
    while k < extras
        invariant
            k <= extras,
            extras == extra_headings(options@).len(),
            layout@ =~= layout_of(options@).take(FIXED_COLUMNS + k),
        decreases extras - k,
    {
        layout.push(ColumnFormat { width: 30, centered: false, currency: options.show_price });
        k += 1;
    }
    assert(layout@ =~= layout_of(options@));
    layout
}

} // verus!
