//! From the rows of a registration sheet to the list of a course's participants.
//!
//! The rows under the sheet's heading are read one by one. A row belongs to
//! the list where its cell in the grouping column holds a string that is not
//! empty. Every such row must carry a customer number: one that does not
//! fails the whole list.

use vstd::prelude::*;
use vstd::multiset::Multiset;
use crate::column::{column_index, resolve, InvalidColumn};
use crate::entry::{CourseEntry, EntryView};
use crate::sheet::{row_view, rows_view, sheet_cells, sheet_rows, Cell, CellView, RowView, Sheet};
use crate::text::{join_line_breaks, line_breaks_joined, parse_i32, parsed_i32};
use crate::workbook::WorkbookError;

verus! {

/// The number of rows at the top of a sheet that hold its heading and no participant.
pub const HEADER_ROWS: usize = 30;

/// The column of the customer number.
pub const ID_COLUMN: usize = 0;

/// The column of the participant's name.
pub const NAME_COLUMN: usize = 2;

/// The column of the telephone numbers.
pub const TELEPHONE_COLUMN: usize = 7;

/// The column of the e-mail address.
pub const EMAIL_COLUMN: usize = 11;

/// What a course list is to show beside the five columns that every list has.
#[derive(Debug, Clone)]
pub struct CourseListOptions {
    /// Show one column for the price in place of the additional columns.
    pub show_price: bool,
    /// The additional columns: for each the heading that it gets in the list,
    /// and the label of the sheet's column that its values come from.
    pub auxiliaries: Vec<(String, String)>,
}

/// Options as contracts see them.
pub ghost struct OptionsView {
    pub show_price: bool,
    pub auxiliaries: Seq<(Seq<char>, Seq<char>)>,
}

impl View for CourseListOptions {
    type V = OptionsView;

    open spec fn view(&self) -> OptionsView {
        OptionsView {
            show_price: self.show_price,
            auxiliaries: self.auxiliaries@.map_values(|pair: (String, String)| (pair.0@, pair.1@)),
        }
    }
}

impl Default for CourseListOptions {
    /// No price and no additional columns.
    fn default() -> (options: CourseListOptions)
        ensures
            !options@.show_price,
            options@.auxiliaries.len() == 0,
    {
        CourseListOptions { show_price: false, auxiliaries: Vec::new() }
    }
}

/// Why no course list could be read.
#[derive(Debug)]
pub enum CourseListError {
    /// No workbook is open.
    NoReader,
    /// The workbook gave no sheet.
    WorkbookError(WorkbookError),
    /// The label of the grouping column names no column.
    ConvertColumn(InvalidColumn),
    /// A row of the list carries no customer number.
    Deserialize {
        /// The row, counted from 0 at the top of the sheet.
        row: usize,
        /// What stands in the row's cell for the customer number.
        text: String,
    },
}

/// The cell of a row in the given column. A row that does not reach that far
/// reads as empty there.
pub open spec fn cell_at(row: RowView, column: int) -> CellView {
    if 0 <= column < row.len() {
        row[column]
    } else {
        (false, Seq::empty())
    }
}

/// Whether a row belongs to the list: its cell in the grouping column holds
/// a string, and the string is not empty.
pub open spec fn is_listed(row: RowView, group_column: int) -> bool {
    cell_at(row, group_column).0 && cell_at(row, group_column).1.len() > 0
}

/// [`is_listed`] for a fixed grouping column, as a test on rows.
pub open spec fn listed(group_column: int) -> spec_fn(RowView) -> bool {
    |row: RowView| is_listed(row, group_column)
}

/// The rows under the heading.
pub open spec fn data_rows(rows: Seq<RowView>) -> Seq<RowView> {
    if rows.len() <= HEADER_ROWS {
        Seq::empty()
    } else {
        rows.skip(HEADER_ROWS as int)
    }
}

/// The rows under the heading that belong to the list, in the sheet's order.
pub open spec fn listed_rows(rows: Seq<RowView>, group_column: int) -> Seq<RowView> {
    data_rows(rows).filter(listed(group_column))
}

/// The test for an additional column whose label names a column.
pub open spec fn resolves() -> spec_fn((Seq<char>, Seq<char>)) -> bool {
    |pair: (Seq<char>, Seq<char>)| column_index(pair.1) is Ok
}

/// The additional columns that are read, as indices into a row: none where
/// the price is shown, else those whose label names a column, in the order
/// in which they are configured. One whose label names no column is left out.
pub open spec fn auxiliary_columns(options: OptionsView) -> Seq<int> {
    if options.show_price {
        Seq::empty()
    } else {
        options.auxiliaries.filter(resolves()).map_values(
            |pair: (Seq<char>, Seq<char>)| column_index(pair.1).unwrap() as int,
        )
    }
}

/// The headings of the additional columns that are read, in the same order.
pub open spec fn auxiliary_labels(options: OptionsView) -> Seq<Seq<char>> {
    if options.show_price {
        Seq::empty()
    } else {
        options.auxiliaries.filter(resolves()).map_values(|pair: (Seq<char>, Seq<char>)| pair.0)
    }
}

/// The customer number of a row, if its first cell writes one.
pub open spec fn row_id(row: RowView) -> Option<i32> {
    parsed_i32(cell_at(row, ID_COLUMN as int).1)
}

/// The participant that a row with a customer number stands for.
pub open spec fn entry_of_row(row: RowView, group_column: int, auxiliaries: Seq<int>) -> EntryView {
    EntryView {
        id: match row_id(row) {
            Some(id) => id as int,
            None => 0,
        },
        group: cell_at(row, group_column).1,
        name: cell_at(row, NAME_COLUMN as int).1,
        telephone: line_breaks_joined(cell_at(row, TELEPHONE_COLUMN as int).1),
        email: cell_at(row, EMAIL_COLUMN as int).1,
        auxiliaries: auxiliaries.map_values(|column: int| cell_at(row, column).1),
    }
}

/// [`entry_of_row`] for a fixed layout, as a map on rows.
pub open spec fn to_entry(group_column: int, auxiliaries: Seq<int>) -> spec_fn(RowView) -> EntryView {
    |row: RowView| entry_of_row(row, group_column, auxiliaries)
}

/// The participants of a sheet whose listed rows all carry a customer
/// number: one for each listed row, in the sheet's order.
pub open spec fn course_list_of(rows: Seq<RowView>, group_column: int, auxiliaries: Seq<int>) -> Seq<
    EntryView,
> {
    listed_rows(rows, group_column).map_values(to_entry(group_column, auxiliaries))
}

/// Whether row `r` of the sheet belongs to the list and carries no customer number.
pub open spec fn is_bad_row(rows: Seq<RowView>, group_column: int, r: int) -> bool {
    &&& HEADER_ROWS <= r < rows.len()
    &&& is_listed(rows[r], group_column)
    &&& row_id(rows[r]) is None
}

/// Whether every listed row of the sheet carries a customer number.
pub open spec fn all_ids_parse(rows: Seq<RowView>, group_column: int) -> bool {
    forall|r: int| !#[trigger] is_bad_row(rows, group_column, r)
}

/// Whether row `r` is the first listed row of the sheet without a customer number.
pub open spec fn is_first_bad_row(rows: Seq<RowView>, group_column: int, r: int) -> bool {
    &&& is_bad_row(rows, group_column, r)
    &&& forall|q: int| 0 <= q < r ==> !#[trigger] is_bad_row(rows, group_column, q)
}

/// A list of participants as contracts see it.
pub open spec fn entries_view(list: Seq<CourseEntry>) -> Seq<EntryView> {
    list.map_values(|entry: CourseEntry| entry@)
}

/// Whether `result` is what reading the sheet gives: the course list where
/// every listed row carries a customer number, else the first row that
/// carries none, with what stands in its place.
pub open spec fn is_extraction(
    result: Result<Vec<CourseEntry>, CourseListError>,
    rows: Seq<RowView>,
    group_column: int,
    options: OptionsView,
) -> bool {
    match result {
        Ok(list) => {
            &&& all_ids_parse(rows, group_column)
            &&& entries_view(list@) == course_list_of(
                rows,
                group_column,
                auxiliary_columns(options),
            )
        },
        Err(CourseListError::Deserialize { row, text }) => {
            &&& is_first_bad_row(rows, group_column, row as int)
            &&& text@ == cell_at(rows[row as int], ID_COLUMN as int).1
        },
        Err(_) => false,
    }
}

/// The names and customer numbers of a list, each as often as the list has it.
pub open spec fn keys_of(list: Seq<EntryView>) -> Multiset<(Seq<char>, int)> {
    list.map_values(|entry: EntryView| (entry.name, entry.id)).to_multiset()
}

/// Reading the same sheet twice with the same options gives the same
/// answer: both times the same participants in the same order, and so the
/// same names and customer numbers, or both times the same failing row.
pub proof fn lemma_extraction_repeatable(
    first: Result<Vec<CourseEntry>, CourseListError>,
    second: Result<Vec<CourseEntry>, CourseListError>,
    rows: Seq<RowView>,
    group_column: int,
    options: OptionsView,
)
    requires
        is_extraction(first, rows, group_column, options),
        is_extraction(second, rows, group_column, options),
    ensures
        first is Ok <==> second is Ok,
        first is Ok ==> entries_view(first->Ok_0@) == entries_view(second->Ok_0@),
        first is Ok ==> keys_of(entries_view(first->Ok_0@)) == keys_of(
            entries_view(second->Ok_0@),
        ),
        first matches Err(CourseListError::Deserialize { row, text }) ==> second matches Err(
            CourseListError::Deserialize { row: again, text: same },
        ) && again == row && same@ == text@,
{
    if first is Err && second is Err {
        let r1 = first->Err_0->Deserialize_row;
        let r2 = second->Err_0->Deserialize_row;
        assert(is_bad_row(rows, group_column, r1 as int));
        assert(is_bad_row(rows, group_column, r2 as int));
    } else if first is Err {
        assert(is_bad_row(rows, group_column, first->Err_0->Deserialize_row as int));
    } else if second is Err {
        assert(is_bad_row(rows, group_column, second->Err_0->Deserialize_row as int));
    }
}

/// One listed row without a customer number fails the whole list: no
/// participant is handed out, whatever the other rows hold.
pub proof fn lemma_bad_row_fails(
    result: Result<Vec<CourseEntry>, CourseListError>,
    rows: Seq<RowView>,
    group_column: int,
    options: OptionsView,
    r: int,
)
    requires
        is_extraction(result, rows, group_column, options),
        is_bad_row(rows, group_column, r),
    ensures
        result is Err,
{
}

/// A row whose cell in the grouping column holds no string, or an empty
/// one, is not in the list: the list is the same with and without the row.
pub proof fn lemma_unlisted_row_is_ignored(
    rows: Seq<RowView>,
    group_column: int,
    auxiliaries: Seq<int>,
    r: int,
)
    requires
        HEADER_ROWS <= r < rows.len(),
        !is_listed(rows[r], group_column),
    ensures
        course_list_of(rows.remove(r), group_column, auxiliaries) == course_list_of(
            rows,
            group_column,
            auxiliaries,
        ),
        all_ids_parse(rows.remove(r), group_column) <==> all_ids_parse(rows, group_column),
{
    let keep = listed(group_column);
    let data = data_rows(rows);
    let k = r - HEADER_ROWS;
    let front = data.take(k);
    let back = data.skip(k + 1);
    assert(data =~= front.push(rows[r]) + back);
    assert(data_rows(rows.remove(r)) =~= front + back);
    Seq::filter_distributes_over_add(front.push(rows[r]), back, keep);
    Seq::filter_distributes_over_add(front, back, keep);
    front.lemma_filter_push(rows[r], keep);
    let less = rows.remove(r);
    if all_ids_parse(rows, group_column) {
        assert forall|q: int| !#[trigger] is_bad_row(less, group_column, q) by {
            if HEADER_ROWS <= q < less.len() {
                if q < r {
                    assert(!is_bad_row(rows, group_column, q));
                } else {
                    assert(less[q] == rows[q + 1]);
                    assert(!is_bad_row(rows, group_column, q + 1));
                }
            }
        }
    }
    if all_ids_parse(less, group_column) {
        assert forall|q: int| !#[trigger] is_bad_row(rows, group_column, q) by {
            if HEADER_ROWS <= q < rows.len() && q != r {
                if q < r {
                    assert(!is_bad_row(less, group_column, q));
                } else {
                    assert(less[q - 1] == rows[q]);
                    assert(!is_bad_row(less, group_column, q - 1));
                }
            }
        }
    }
}

/// Every participant of a list has a group: the text of a string cell that
/// is not empty.
pub proof fn lemma_groups_not_empty(rows: Seq<RowView>, group_column: int, auxiliaries: Seq<int>)
    ensures
        forall|k: int|
            0 <= k < course_list_of(rows, group_column, auxiliaries).len() ==> (
            #[trigger] course_list_of(rows, group_column, auxiliaries)[k]).group.len() > 0,
{
    let keep = listed(group_column);
    let kept = listed_rows(rows, group_column);
    assert forall|k: int| 0 <= k < kept.len() implies is_listed(#[trigger] kept[k], group_column) by {
        data_rows(rows).lemma_filter_pred(keep, k);
    }
}

/// An additional column whose label names no column is left out: the
/// columns that are read and their headings are the same with and without it.
pub proof fn lemma_unresolvable_auxiliary_omitted(options: OptionsView, i: int)
    requires
        0 <= i < options.auxiliaries.len(),
        column_index(options.auxiliaries[i].1) is Err,
    ensures
        auxiliary_columns(options) == auxiliary_columns(
            OptionsView { auxiliaries: options.auxiliaries.remove(i), ..options },
        ),
        auxiliary_labels(options) == auxiliary_labels(
            OptionsView { auxiliaries: options.auxiliaries.remove(i), ..options },
        ),
{
    let pairs = options.auxiliaries;
    let front = pairs.take(i);
    let back = pairs.skip(i + 1);
    assert(pairs =~= front.push(pairs[i]) + back);
    assert(pairs.remove(i) =~= front + back);
    Seq::filter_distributes_over_add(front.push(pairs[i]), back, resolves());
    Seq::filter_distributes_over_add(front, back, resolves());
    front.lemma_filter_push(pairs[i], resolves());
}

/// The columns of a vector of indices, as integers.
pub open spec fn columns_view(columns: Seq<usize>) -> Seq<int> {
    columns.map_values(|column: usize| column as int)
}

/// The indices of the additional columns that are read.
pub fn resolved_columns(options: &CourseListOptions) -> (columns: Vec<usize>)
    ensures
        columns_view(columns@) == auxiliary_columns(options@),
{
    let mut columns: Vec<usize> = Vec::new();
    if options.show_price {
        assert(columns_view(columns@) =~= Seq::<int>::empty());
        return columns;
    }
    let ghost pairs = options@.auxiliaries;
    let ghost index = |pair: (Seq<char>, Seq<char>)| column_index(pair.1).unwrap() as int;
    let mut i: usize = 0;
    proof {
        assert(pairs.take(0) =~= Seq::empty());
        assert(pairs.take(0).filter(resolves()).len() == 0) by {
            pairs.take(0).lemma_filter_len(resolves());
        }
        assert(columns_view(columns@) =~= pairs.take(0).filter(resolves()).map_values(index));
    }
    while i < options.auxiliaries.len()
        invariant
            i <= options.auxiliaries.len(),
            pairs == options@.auxiliaries,
            pairs.len() == options.auxiliaries.len(),
            index == |pair: (Seq<char>, Seq<char>)| column_index(pair.1).unwrap() as int,
            columns_view(columns@) == pairs.take(i as int).filter(resolves()).map_values(index),
        decreases options.auxiliaries.len() - i,
    {
        let ghost before = columns@;
        let ghost seen = pairs.take(i as int);
        proof {
            assert(pairs.take(i + 1) =~= seen.push(pairs[i as int]));
            seen.lemma_filter_push(pairs[i as int], resolves());
            assert(pairs[i as int].1 == options.auxiliaries[i as int].1@);
        }
        match resolve(options.auxiliaries[i].1.as_str()) {
            Ok(column) => {
                columns.push(column as usize);
                proof {
                    let kept = seen.filter(resolves());
                    assert(kept.push(pairs[i as int]).map_values(index) =~= kept.map_values(
                        index,
                    ).push(column as int));
                    assert(columns_view(columns@) =~= columns_view(before).push(column as int));
                }
            },
            Err(_) => {},
        }
        i += 1;
    }
    assert(pairs.take(i as int) =~= pairs);
    columns
}

/// The text of a row's cell in the given column.
fn text_at(row: &Vec<Cell>, column: usize) -> (text: String)
    ensures
        text@ == cell_at(row_view(row@), column as int).1,
{
    if column < row.len() {
        row[column].text.clone()
    } else {
        String::new()
    }
}

/// Whether a row belongs to the list.
fn row_is_listed(row: &Vec<Cell>, group_column: usize) -> (listed: bool)
    ensures
        listed == is_listed(row_view(row@), group_column as int),
{
    group_column < row.len() && row[group_column].is_string && row[group_column].text.as_str().unicode_len() > 0
}

/// Reads the participant of one row, or hands back what stands in place of
/// its customer number where that is no number.
fn read_entry(row: &Vec<Cell>, group_column: usize, auxiliaries: &Vec<usize>) -> (entry: Result<
    CourseEntry,
    String,
>)
    ensures
        match entry {
            Ok(e) => row_id(row_view(row@)) is Some && e@ == entry_of_row(
                row_view(row@),
                group_column as int,
                columns_view(auxiliaries@),
            ),
            Err(text) => row_id(row_view(row@)) is None && text@ == cell_at(
                row_view(row@),
                ID_COLUMN as int,
            ).1,
        },
{
    let id_text = text_at(row, ID_COLUMN);
    let id = match parse_i32(id_text.as_str()) {
        Some(id) => id,
        None => {
            return Err(id_text);
        },
    };
    let group = text_at(row, group_column);
    let name = text_at(row, NAME_COLUMN);
    let telephone = join_line_breaks(text_at(row, TELEPHONE_COLUMN).as_str());
    let email = text_at(row, EMAIL_COLUMN);
    let ghost cells = row_view(row@);
    let ghost wanted = columns_view(auxiliaries@);
    let ghost read = |column: int| cell_at(cells, column).1;
    let mut values: Vec<String> = Vec::new();
    let mut j: usize = 0;
    while j < auxiliaries.len()
        invariant
            j <= auxiliaries.len(),
            cells == row_view(row@),
            wanted == columns_view(auxiliaries@),
            values@.len() == j,
            forall|k: int| 0 <= k < j ==> (#[trigger] values@[k])@ == cell_at(cells, wanted[k]).1,
        decreases auxiliaries.len() - j,
    {
        values.push(text_at(row, auxiliaries[j]));
        j += 1;
    }
    let entry = CourseEntry { id, group, name, telephone, email, auxiliaries: values };
    proof {
        let target = entry_of_row(cells, group_column as int, wanted);
        assert(entry@.auxiliaries =~= target.auxiliaries);
    }
    Ok(entry)
}

/// Reads the course list from the rows of a sheet.
///
/// `group_column` is the index of the grouping column. The rows above
/// [`HEADER_ROWS`] are passed over; of the others, those without a string in
/// the grouping column are left out. The first listed row whose first cell
/// writes no customer number fails the whole list.
pub fn extract_entries(rows: &Vec<Vec<Cell>>, group_column: usize, options: &CourseListOptions) -> (result:
    Result<Vec<CourseEntry>, CourseListError>)
    ensures
        is_extraction(result, rows_view(rows@), group_column as int, options@),
{
    let auxiliaries = resolved_columns(options);
    let ghost sheet = rows_view(rows@);
    let ghost data = data_rows(sheet);
    let ghost wanted = columns_view(auxiliaries@);
    let ghost keep = listed(group_column as int);
    let ghost make = to_entry(group_column as int, wanted);
    let mut list: Vec<CourseEntry> = Vec::new();
    proof {
        assert(data.take(0) =~= Seq::empty());
        data.take(0).lemma_filter_len(keep);
        assert(entries_view(list@) =~= data.take(0).filter(keep).map_values(make));
    }
    if rows.len() <= HEADER_ROWS {
        assert(data.take(0) =~= data);
        return Ok(list);
    }
    let mut r: usize = HEADER_ROWS;
    while r < rows.len()
        invariant
            HEADER_ROWS <= r <= rows.len(),
            sheet == rows_view(rows@),
            data == data_rows(sheet),
            data.len() == rows.len() - HEADER_ROWS,
            wanted == columns_view(auxiliaries@),
            wanted == auxiliary_columns(options@),
            keep == listed(group_column as int),
            make == to_entry(group_column as int, wanted),
            forall|q: int| 0 <= q < r ==> !#[trigger] is_bad_row(sheet, group_column as int, q),
            entries_view(list@) == data.take(r - HEADER_ROWS).filter(keep).map_values(make),
        decreases rows.len() - r,
    {
        let row = &rows[r];
        let ghost cells = row_view(row@);
        let ghost seen = data.take(r - HEADER_ROWS);
        let ghost before = list@;
        proof {
            assert(sheet[r as int] == cells);
            assert(data[r - HEADER_ROWS] == cells);
            assert(data.take(r - HEADER_ROWS + 1) =~= seen.push(cells));
            seen.lemma_filter_push(cells, keep);
        }
        if row_is_listed(row, group_column) {
            match read_entry(row, group_column, &auxiliaries) {
                Ok(entry) => {
                    list.push(entry);
                    proof {
                        let kept = seen.filter(keep);
                        assert(kept.push(cells).map_values(make) =~= kept.map_values(make).push(
                            entry@,
                        ));
                        assert(entries_view(list@) =~= entries_view(before).push(entry@));
                    }
                },
                Err(text) => {
                    return Err(CourseListError::Deserialize { row: r, text });
                },
            }
        }
        r += 1;
    }
    proof {
        assert(data.take(r - HEADER_ROWS) =~= data);
    }
    Ok(list)
}

/// Reads the course list from a sheet. `group_column` is the index of the
/// grouping column.
pub fn course_list_in_column(sheet: &Sheet, group_column: usize, options: &CourseListOptions) -> (result:
    Result<Vec<CourseEntry>, CourseListError>)
    ensures
        is_extraction(result, sheet_cells(*sheet), group_column as int, options@),
{
    let rows = sheet_rows(sheet);
    extract_entries(&rows, group_column, options)
}

/// Reads the course list from a sheet. `column` is the label of the grouping column.
pub fn course_list_from_sheet(sheet: &Sheet, column: &str, options: &CourseListOptions) -> (result: Result<
    Vec<CourseEntry>,
    CourseListError,
>)
    ensures
        match column_index(column@) {
            Err(why) => result == Err::<Vec<CourseEntry>, CourseListError>(
                CourseListError::ConvertColumn(why),
            ),
            Ok(group_column) => is_extraction(
                result,
                sheet_cells(*sheet),
                group_column as int,
                options@,
            ),
        },
{
    match resolve(column) {
        Ok(index) => course_list_in_column(sheet, index as usize, options),
        Err(why) => Err(CourseListError::ConvertColumn(why)),
    }
}

/// Whether `result` is what a workbook's answer to the request for a sheet
/// gives: `NoReader` where no workbook is open, the workbook's own error
/// where the sheet could not be had, else what reading the sheet gives.
pub open spec fn is_result_of_answer(
    result: Result<Vec<CourseEntry>, CourseListError>,
    found: Option<Result<Sheet, WorkbookError>>,
    group_column: int,
    options: OptionsView,
) -> bool {
    match found {
        None => result == Err::<Vec<CourseEntry>, CourseListError>(CourseListError::NoReader),
        Some(Err(why)) => result == Err::<Vec<CourseEntry>, CourseListError>(
            CourseListError::WorkbookError(why),
        ),
        Some(Ok(cells)) => is_extraction(result, sheet_cells(cells), group_column, options),
    }
}

/// Reads the course list from what a workbook answered when it was asked
/// for a sheet. `group_column` is the index of the grouping column.
pub fn course_list_from_answer(
    found: Option<Result<Sheet, WorkbookError>>,
    group_column: usize,
    options: &CourseListOptions,
) -> (result: Result<Vec<CourseEntry>, CourseListError>)
    ensures
        is_result_of_answer(result, found, group_column as int, options@),
{
    match found {
        None => Err(CourseListError::NoReader),
        Some(Err(why)) => Err(CourseListError::WorkbookError(why)),
        Some(Ok(cells)) => course_list_in_column(&cells, group_column, options),
    }
}

/// Something that holds a workbook and hands out its sheets.
pub trait CourseList {
    /// The names of the workbook's sheets, if a workbook is open.
    fn sheets(&self) -> Option<&[String]>;

    /// The cells of the sheet of the given name, if a workbook is open.
    fn get_sheet(&mut self, name: &str) -> Option<Result<Sheet, WorkbookError>>;

    /// Reads the course list from the sheet of the given name. `column` is
    /// the label of the grouping column; it is looked at first, and the
    /// workbook is not asked for the sheet where it names no column. Where
    /// it names one, the workbook is asked for the sheet, and the result is
    /// what [`course_list_from_answer`] gives for its answer.
    fn read_course_list(&mut self, sheet: &str, column: &str, options: &CourseListOptions) -> (result:
        Result<Vec<CourseEntry>, CourseListError>)
        ensures
            match column_index(column@) {
                Err(why) => result == Err::<Vec<CourseEntry>, CourseListError>(
                    CourseListError::ConvertColumn(why),
                ),
                Ok(group_column) => exists|found: Option<Result<Sheet, WorkbookError>>| #[trigger]
                    is_result_of_answer(result, found, group_column as int, options@),
            },
    {
        match resolve(column) {
            Err(why) => Err(CourseListError::ConvertColumn(why)),
            Ok(index) => {
                let found = self.get_sheet(sheet);
                let ghost answer = found;
                let result = course_list_from_answer(found, index as usize, options);
                assert(is_result_of_answer(result, answer, index as int, options@));
                result
            },
        }
    }
}

} // verus!
