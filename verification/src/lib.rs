//! Course lists from registration sheets: column labels, the rows of a sheet
//! turned into participant entries, their order, and the table that is
//! written out.

pub mod text;
pub mod column;
pub mod sheet;
pub mod workbook;
pub mod entry;
pub mod sorting;
pub mod course_list;
pub mod export;
pub mod csv;
pub mod generator;
pub mod form;
pub mod preferences;

pub use column::Column;
pub use preferences::get_proj_dirs;
