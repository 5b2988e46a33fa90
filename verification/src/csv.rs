//! A course list written as comma-separated values: one line for the
//! headings, then one line for each participant.

use vstd::prelude::*;
use crate::course_list::{entries_view, CourseListOptions, OptionsView};
use crate::entry::{CourseEntry, EntryView};
use crate::export::{
    cells_view,
    entry_row,
    header_row,
    headings,
    row_of,
    texts_view,
    ExportCell,
    ExportCellView,
};
use crate::text::{chars_of, decimal_text, text_from_chars, write_decimal};

verus! {

/// Whether a field that holds `c` must be put in quotes.
pub open spec fn is_special(c: char) -> bool {
    c == ',' || c == '"' || c == '\r' || c == '\n'
}

/// Whether a field must be put in quotes: it holds a comma, a quote or a line break.
pub open spec fn needs_quotes(field: Seq<char>) -> bool {
    exists|i: int| 0 <= i < field.len() && is_special(#[trigger] field[i])
}

/// A field with each of its quotes written twice.
pub open spec fn quotes_doubled(field: Seq<char>) -> Seq<char>
    decreases field.len(),
{
    if field.len() == 0 {
        field
    } else if field[0] == '"' {
        seq!['"', '"'] + quotes_doubled(field.skip(1))
    } else {
        seq![field[0]] + quotes_doubled(field.skip(1))
    }
}

/// A field as it stands in a line: as it is, or between quotes and with its
/// own quotes doubled where it must be put in quotes.
pub open spec fn csv_field(field: Seq<char>) -> Seq<char> {
    if needs_quotes(field) {
        seq!['"'] + quotes_doubled(field) + seq!['"']
    } else {
        field
    }
}

/// The fields of a record, separated by commas.
pub open spec fn csv_record(fields: Seq<Seq<char>>) -> Seq<char>
    decreases fields.len(),
{
    if fields.len() == 0 {
        Seq::empty()
    } else if fields.len() == 1 {
        csv_field(fields[0])
    } else {
        csv_record(fields.drop_last()) + seq![','] + csv_field(fields.last())
    }
}

/// A record as a line: its fields, then a line feed.
pub open spec fn csv_line(fields: Seq<Seq<char>>) -> Seq<char> {
    csv_record(fields) + seq!['\n']
}

/// The lines of some records, one after the other.
pub open spec fn csv_lines(records: Seq<Seq<Seq<char>>>) -> Seq<char>
    decreases records.len(),
{
    if records.len() == 0 {
        Seq::empty()
    } else {
        csv_lines(records.drop_last()) + csv_line(records.last())
    }
}

/// The text of a cell: a number in base ten, text as it is.
pub open spec fn cell_text(cell: ExportCellView) -> Seq<char> {
    match cell {
        ExportCellView::Number(n) => decimal_text(n),
        ExportCellView::Text(text) => text,
    }
}

/// The fields of an entry's line.
pub open spec fn fields_of(entry: EntryView, options: OptionsView) -> Seq<Seq<char>> {
    row_of(entry, options).map_values(|cell: ExportCellView| cell_text(cell))
}

/// A course list as comma-separated values: the line of the headings, then
/// the line of each entry, in the list's order.
pub open spec fn csv_of(list: Seq<EntryView>, options: OptionsView) -> Seq<char> {
    csv_line(headings(options)) + csv_lines(
        list.map_values(|entry: EntryView| fields_of(entry, options)),
    )
}

/// Appends a field as it stands in a line.
fn push_field(out: &mut Vec<char>, field: &str)
    ensures
        final(out)@ == old(out)@ + csv_field(field@),
{
    let chars = chars_of(field);
    let n = chars.len();
    let mut special: bool = false;
    let mut i: usize = 0;
    while i < n
        invariant
            i <= n,
            n == chars.len(),
            special == exists|k: int| 0 <= k < i && is_special(#[trigger] chars@[k]),
        decreases n - i,
    {
        let c = chars[i];
        if c == ',' || c == '"' || c == '\r' || c == '\n' {
            special = true;
        }
        i += 1;
    }
    assert(special == needs_quotes(chars@));
    let ghost start = out@;
    if !special {
        let mut j: usize = 0;
        while j < n
            invariant
                j <= n,
                n == chars.len(),
                out@ == start + chars@.take(j as int),
            decreases n - j,
        {
            out.push(chars[j]);
            assert(chars@.take(j + 1) =~= chars@.take(j as int).push(chars@[j as int]));
            j += 1;
        }
        assert(chars@.take(n as int) =~= chars@);
        return ;
    }
    out.push('"');
    let ghost opened = out@;
    let mut j: usize = 0;
    let ghost mut body: Seq<char> = Seq::empty();
    assert(chars@.skip(0) =~= chars@);
    while j < n
        invariant
            j <= n,
            n == chars.len(),
            out@ == opened + body,
            body + quotes_doubled(chars@.skip(j as int)) == quotes_doubled(chars@),
        decreases n - j,
    {
        let ghost rest = chars@.skip(j as int);
        let ghost before = body;
        assert(rest.skip(1) =~= chars@.skip(j + 1));
        if chars[j] == '"' {
            out.push('"');
            out.push('"');
            proof {
                body = body + seq!['"', '"'];
            }
        } else {
            out.push(chars[j]);
            proof {
                body = body.push(chars@[j as int]);
            }
        }
        proof {
            assert(body + quotes_doubled(rest.skip(1)) =~= before + quotes_doubled(rest));
            assert(out@ =~= opened + body);
        }
        j += 1;
    }
    out.push('"');
    proof {
        assert(quotes_doubled(chars@.skip(n as int)) =~= Seq::<char>::empty());
        assert(body =~= quotes_doubled(chars@));
        assert(out@ =~= start + csv_field(chars@));
    }
}

/// Appends the line of a record.
fn push_line(out: &mut Vec<char>, fields: &Vec<String>)
    ensures
        final(out)@ == old(out)@ + csv_line(texts_view(fields@)),
{
    let ghost start = out@;
    let ghost texts = texts_view(fields@);
    let mut i: usize = 0;
    assert(texts.take(0) =~= Seq::empty());
    while i < fields.len()
        invariant
            i <= fields.len(),
            texts == texts_view(fields@),
            out@ == start + csv_record(texts.take(i as int)),
        decreases fields.len() - i,
    {
        let ghost before = out@;
        if i > 0 {
            out.push(',');
        }
        push_field(out, fields[i].as_str());
        proof {
            let seen = texts.take(i + 1);
            assert(seen.drop_last() =~= texts.take(i as int));
            assert(seen.last() == fields@[i as int]@);
            if i > 0 {
                assert(out@ =~= start + (csv_record(texts.take(i as int)) + seq![','] + csv_field(
                    seen.last(),
                )));
            } else {
                assert(csv_record(texts.take(0)) =~= Seq::<char>::empty());
                assert(out@ =~= start + csv_field(seen[0]));
            }
        }
        i += 1;
    }
    out.push('\n');
    proof {
        assert(texts.take(i as int) =~= texts);
        assert(out@ =~= start + csv_line(texts));
    }
}

/// The texts of a row's cells.
fn row_fields(row: &Vec<ExportCell>) -> (fields: Vec<String>)
    ensures
        texts_view(fields@) == cells_view(row@).map_values(|cell: ExportCellView| cell_text(cell)),
{
    let mut fields: Vec<String> = Vec::new();
    let mut i: usize = 0;
    while i < row.len()
        invariant
            i <= row.len(),
            fields@.len() == i,
            forall|k: int| 0 <= k < i ==> (#[trigger] fields@[k])@ == cell_text(row@[k]@),
        decreases row.len() - i,
    {
        let text = match &row[i] {
            ExportCell::Number(n) => write_decimal(*n),
            ExportCell::Text(text) => text.clone(),
        };
        fields.push(text);
        i += 1;
    }
    assert(texts_view(fields@) =~= cells_view(row@).map_values(
        |cell: ExportCellView| cell_text(cell),
    ));
    fields
}

/// Writes a course list as comma-separated values. The list is not sorted here.
pub fn export_csv(list: &Vec<CourseEntry>, options: &CourseListOptions) -> (csv: String)
    ensures
        csv@ == csv_of(entries_view(list@), options@),
{
    let mut out: Vec<char> = Vec::new();
    let header = header_row(options);
    push_line(&mut out, &header);
    let ghost first = out@;
    let ghost records = entries_view(list@).map_values(
        |entry: EntryView| fields_of(entry, options@),
    );
    let mut i: usize = 0;
    assert(records.take(0) =~= Seq::empty());
    while i < list.len()
        invariant
            i <= list.len(),
            records == entries_view(list@).map_values(|entry: EntryView| fields_of(entry, options@)),
            out@ == first + csv_lines(records.take(i as int)),
        decreases list.len() - i,
    {
        let row = entry_row(&list[i], options);
        let fields = row_fields(&row);
        push_line(&mut out, &fields);
        proof {
            let seen = records.take(i + 1);
            assert(seen.drop_last() =~= records.take(i as int));
            assert(seen.last() == fields_of(list@[i as int]@, options@));
            assert(out@ =~= first + csv_lines(seen));
        }
        i += 1;
    }
    proof {
        assert(records.take(i as int) =~= records);
        assert(first =~= csv_line(headings(options@)));
    }
    text_from_chars(&out)
}

/// Whether a destination asks for comma-separated values: its path ends in `.csv`.
pub open spec fn ends_in_csv(path: Seq<char>) -> bool {
    path.len() >= 4 && path.skip(path.len() - 4) == ".csv"@
}

/// Whether the list for this destination is to be written as
/// comma-separated values, and not as a spreadsheet.
pub fn is_csv_destination(path: &str) -> (csv: bool)
    ensures
        csv == ends_in_csv(path@),
{
    let chars = chars_of(path);
    let n = chars.len();
    proof {
        reveal_strlit(".csv");
    }
    if n < 4 {
        return false;
    }
    let ghost tail = chars@.skip(n - 4);
    assert(tail.len() == 4);
    assert(tail[0] == chars@[n - 4] && tail[1] == chars@[n - 3] && tail[2] == chars@[n - 2]
        && tail[3] == chars@[n - 1]);
    let csv = chars[n - 4] == '.' && chars[n - 3] == 'c' && chars[n - 2] == 's' && chars[n - 1]
        == 'v';
    proof {
        if csv {
            assert(tail =~= ".csv"@);
        }
    }
    csv
}

} // verus!
