//! From a sheet to the table that is written out: read the list, put it in
//! order, lay it out.

use vstd::prelude::*;
use crate::column::column_index;
use crate::course_list::{
    all_ids_parse,
    auxiliary_columns,
    course_list_from_sheet,
    course_list_of,
    entries_view,
    is_extraction,
    CourseListError,
    CourseListOptions,
};
use crate::entry::CourseEntry;
use crate::export::{export_table, headings, rows_of, table_rows_view, texts_view, ExportTable};
use crate::sheet::{sheet_cells, Sheet};
use crate::sorting::{is_stable_sort_of, sort_entries};

verus! {

/// Whether `sorted` is the course list of the sheet's cells, put in order.
pub open spec fn is_sorted_course_list(
    sorted: Seq<CourseEntry>,
    cells: Seq<Seq<(bool, Seq<char>)>>,
    group_column: int,
    options: crate::course_list::OptionsView,
) -> bool {
    &&& all_ids_parse(cells, group_column)
    &&& exists|read: Seq<CourseEntry>|
        {
            &&& entries_view(read) == course_list_of(
                cells,
                group_column,
                auxiliary_columns(options),
            )
            &&& #[trigger] is_stable_sort_of(sorted, read)
        }
}

/// Reads the course list from a sheet and sorts it by name and customer number.
pub fn sorted_course_list(sheet: &Sheet, column: &str, options: &CourseListOptions) -> (result: Result<
    Vec<CourseEntry>,
    CourseListError,
>)
    ensures
        match column_index(column@) {
            Err(why) => result == Err::<Vec<CourseEntry>, CourseListError>(
                CourseListError::ConvertColumn(why),
            ),
            Ok(group_column) => match result {
                Ok(list) => is_sorted_course_list(
                    list@,
                    sheet_cells(*sheet),
                    group_column as int,
                    options@,
                ),
                Err(why) => is_extraction(
                    Err(why),
                    sheet_cells(*sheet),
                    group_column as int,
                    options@,
                ),
            },
        },
{
    match course_list_from_sheet(sheet, column, options) {
        Ok(list) => {
            let ghost read = list@;
            let mut list = list;
            sort_entries(&mut list);
            assert(is_stable_sort_of(list@, read));
            Ok(list)
        },
        Err(why) => Err(why),
    }
}

/// The table of the course list of a sheet: the heading row, and one row
/// for each participant, sorted by name and customer number.
pub fn course_table(sheet: &Sheet, column: &str, options: &CourseListOptions) -> (result: Result<
    ExportTable,
    CourseListError,
>)
    ensures
        match column_index(column@) {
            Err(why) => result == Err::<ExportTable, CourseListError>(
                CourseListError::ConvertColumn(why),
            ),
            Ok(group_column) => match result {
                Ok(table) => {
                    &&& texts_view(table.header@) == headings(options@)
                    &&& exists|sorted: Seq<CourseEntry>|
                        {
                            &&& #[trigger] is_sorted_course_list(
                                sorted,
                                sheet_cells(*sheet),
                                group_column as int,
                                options@,
                            )
                            &&& table_rows_view(table.rows@) == rows_of(
                                entries_view(sorted),
                                options@,
                            )
                        }
                },
                Err(why) => is_extraction(
                    Err(why),
                    sheet_cells(*sheet),
                    group_column as int,
                    options@,
                ),
            },
        },
{
    match sorted_course_list(sheet, column, options) {
        Ok(list) => {
            let table = export_table(&list, options);
            proof {
                if column_index(column@) is Ok {
                    assert(is_sorted_course_list(
                        list@,
                        sheet_cells(*sheet),
                        column_index(column@)->Ok_0 as int,
                        options@,
                    ));
                }
            }
            Ok(table)
        },
        Err(why) => Err(why),
    }
}

} // verus!
