use calamine::{DataType, Range};
use sir::column::InvalidColumn;
use sir::course_list::{CourseListError, CourseListOptions};
use sir::export::ExportCell;
use sir::generator::{course_table, sorted_course_list};
use sir::sheet::Sheet;

fn text(s: &str) -> DataType {
    DataType::String(String::from(s))
}

fn participants() -> Sheet {
    let mut range: Range<DataType> = Range::new((0, 0), (33, 11));
    let rows = [(3, "Bauer", "G1"), (1, "Bauer", "G2"), (9, "Abel", "G1")];
    for (i, (id, name, group)) in rows.iter().enumerate() {
        let r = 30 + i as u32;
        range.set_value((r, 0), DataType::Int(*id));
        range.set_value((r, 2), text(name));
        range.set_value((r, 3), text(group));
        range.set_value((r, 4), text("paid"));
    }
    // a row without a group, and with no number
    range.set_value((33, 0), text("n/a"));
    range.set_value((33, 2), text("Nobody"));
    Sheet { range }
}

#[test]
fn the_list_of_a_sheet_is_sorted() {
    let list = sorted_course_list(&participants(), "D", &CourseListOptions::default()).unwrap();
    let keys: Vec<(&str, i32)> = list.iter().map(|e| (e.name.as_str(), e.id)).collect();
    assert_eq!(keys, vec![("Abel", 9), ("Bauer", 1), ("Bauer", 3)]);
}

#[test]
fn the_table_of_a_sheet_is_sorted_and_laid_out() {
    let options = CourseListOptions {
        show_price: false,
        auxiliaries: vec![(String::from("Status"), String::from("E"))],
    };
    let table = course_table(&participants(), "D", &options).unwrap();
    assert_eq!(table.header, vec!["Customer-ID", "Group", "Name", "Phone", "Email", "Status"]);
    assert_eq!(table.rows.len(), 3);
    let ids: Vec<&ExportCell> = table.rows.iter().map(|row| &row[0]).collect();
    assert_eq!(ids, vec![&ExportCell::Number(9), &ExportCell::Number(1), &ExportCell::Number(3)]);
    assert_eq!(table.rows[0][1], ExportCell::Text(String::from("G1")));
    assert_eq!(table.rows[1][1], ExportCell::Text(String::from("G2")));
    assert_eq!(table.rows[0][5], ExportCell::Text(String::from("paid")));
    assert!(table.rows.iter().all(|row| row.len() == 6));
}

#[test]
fn a_failing_row_gives_no_table() {
    let mut sheet = participants();
    sheet.range.set_value((31, 0), text("x1"));
    match course_table(&sheet, "D", &CourseListOptions::default()) {
        Err(CourseListError::Deserialize { row, text }) => {
            assert_eq!(row, 31);
            assert_eq!(text, "x1");
        }
        other => panic!("expected a failing row, got {:?}", other.map(|t| t.rows.len())),
    }
    assert!(sorted_course_list(&sheet, "D", &CourseListOptions::default()).is_err());
}

#[test]
fn a_label_without_letters_gives_no_table() {
    assert!(matches!(
        course_table(&participants(), "4", &CourseListOptions::default()),
        Err(CourseListError::ConvertColumn(InvalidColumn::NoLetters))
    ));
    assert!(matches!(
        sorted_course_list(&participants(), "", &CourseListOptions::default()),
        Err(CourseListError::ConvertColumn(InvalidColumn::Empty))
    ));
}

#[test]
fn another_grouping_column_lists_other_rows() {
    // column E holds a string in the three rows with a group only
    let by_status = sorted_course_list(&participants(), "E", &CourseListOptions::default()).unwrap();
    assert_eq!(by_status.len(), 3);
    assert!(by_status.iter().all(|e| e.group == "paid"));
    // column C holds a name in every row, the one without a number too
    assert!(matches!(
        sorted_course_list(&participants(), "C", &CourseListOptions::default()),
        Err(CourseListError::Deserialize { row: 33, .. })
    ));
    // column B is empty
    assert!(sorted_course_list(&participants(), "B", &CourseListOptions::default())
        .unwrap()
        .is_empty());
}
