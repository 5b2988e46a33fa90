//! What can go wrong between a workbook on disk and the cells of one of its sheets.

use vstd::prelude::*;
use crate::sheet::Sheet;

verus! {

#[verifier::external_type_specification]
#[verifier::external_body]
pub struct ExCalamineError(calamine::Error);

/// Why a workbook gave no sheet.
#[derive(Debug)]
pub enum WorkbookError {
    /// The workbook could not be read.
    ReadWorkbook(calamine::Error),
    /// The workbook has the sheet, but the sheet could not be read.
    GetSheet(calamine::Error),
    /// The workbook has no sheet of that name.
    NoSheet,
}

/// What a reader's answer to the request for a sheet means: the sheet, that
/// the workbook has none of that name, or that the sheet could not be read.
pub fn sheet_or_error(found: Option<Result<Sheet, calamine::Error>>) -> (sheet: Result<
    Sheet,
    WorkbookError,
>)
    ensures
        match found {
            Some(Ok(cells)) => sheet == Ok::<Sheet, WorkbookError>(cells),
            Some(Err(why)) => sheet == Err::<Sheet, WorkbookError>(WorkbookError::GetSheet(why)),
            None => sheet == Err::<Sheet, WorkbookError>(WorkbookError::NoSheet),
        },
{
    match found {
        Some(Ok(cells)) => Ok(cells),
        Some(Err(why)) => Err(WorkbookError::GetSheet(why)),
        None => Err(WorkbookError::NoSheet),
    }
}

} // verus!
