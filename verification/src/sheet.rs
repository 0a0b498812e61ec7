//! Read access to an in-memory worksheet.
//!
//! The worksheet is a `calamine::Range<DataType>`. The verifier cannot look
//! inside it, so what it holds is named by [`sheet_values`] and
//! [`sheet_end`], what a cell's value is by [`is_blank`] and [`written`], and
//! every read goes through one of the four functions that call the outside
//! crate. What a cell reads as is decided here, in [`text_at`].

use vstd::prelude::*;
use calamine::{DataType, Range};
use crate::text::Text;

verus! {

/// `calamine::Range`, a rectangular block of worksheet cells.
#[verifier::external_type_specification]
#[verifier::external_body]
#[verifier::reject_recursive_types(T)]
pub struct ExRange<T>(Range<T>);

/// `calamine::DataType`, the value held by one worksheet cell.
#[verifier::external_type_specification]
#[verifier::external_body]
pub struct ExDataType(DataType);

/// The value of every cell of a sheet, keyed by the cell's absolute
/// `(row, column)` position.
pub uninterp spec fn sheet_values(sheet: Range<DataType>) -> Map<(int, int), DataType>;

/// The absolute position of the bottom-right cell of a sheet, if the sheet
/// has any cell.
pub uninterp spec fn sheet_end(sheet: Range<DataType>) -> Option<(int, int)>;

/// Whether a value is that of a cell with nothing in it.
pub uninterp spec fn is_blank(value: DataType) -> bool;

/// What `DataType`'s `Display` writes for a value.
pub uninterp spec fn written(value: DataType) -> Text;

/// Whether `(row, col)` lies at or before the bottom-right cell of a sheet.
pub open spec fn within_end(sheet: Range<DataType>, row: int, col: int) -> bool {
    match sheet_end(sheet) {
        Some(end) => row <= end.0 && col <= end.1,
        None => false,
    }
}

/// Calls `Range::end`, which gives the position of the bottom-right cell
/// unless the range has no cells.
#[verifier::external_body]
pub(crate) fn last_cell(sheet: &Range<DataType>) -> (end: Option<(u32, u32)>)
    ensures
        match end {
            Some(position) => sheet_end(*sheet) == Some((position.0 as int, position.1 as int)),
            None => sheet_end(*sheet) is None,
        },
{
    sheet.end()
}

/// Calls `Range::get_value` with an absolute position. It gives nothing
/// outside the range's bounds, so a cell that has a value lies at or before
/// the range's bottom-right cell.
#[verifier::external_body]
fn cell_value(sheet: &Range<DataType>, row: u32, col: u32) -> (value: Option<&DataType>)
    ensures
        value is Some <==> sheet_values(*sheet).contains_key((row as int, col as int)),
        value matches Some(held) ==> *held == sheet_values(*sheet)[(row as int, col as int)],
        value is Some ==> within_end(*sheet, row as int, col as int),
{
    sheet.get_value((row, col))
}

/// Calls `DataType::is_empty`, which tells whether a value is
/// `DataType::Empty`. The contract only names the result.
#[verifier::external_body]
fn value_is_empty(value: &DataType) -> (blank: bool)
    ensures
        blank == is_blank(*value),
{
    value.is_empty()
}

/// Calls `to_string` on a value, which writes it with `DataType`'s
/// `Display`. The contract only names the result.
#[verifier::external_body]
fn value_text(value: &DataType) -> (text: String)
    ensures
        text@ == written(*value),
{
    value.to_string()
}

/// The largest row or column number that a sheet can address.
pub const LAST_POSITION: usize = 0xFFFF_FFFF;

/// The text of the cell at `(row, col)`: what is written for its value,
/// unless the sheet has no cell there or the cell has nothing in it. A
/// position beyond [`LAST_POSITION`] holds no cell.
pub open spec fn cell_at(sheet: Range<DataType>, row: int, col: int) -> Option<Text> {
    if 0 <= row <= LAST_POSITION && 0 <= col <= LAST_POSITION && sheet_values(sheet).contains_key(
        (row, col),
    ) && !is_blank(sheet_values(sheet)[(row, col)]) {
        Some(written(sheet_values(sheet)[(row, col)]))
    } else {
        None
    }
}

/// The number of rows from the top of the sheet to its last cell.
pub open spec fn sheet_rows(sheet: Range<DataType>) -> nat {
    match sheet_end(sheet) {
        Some(end) => if end.0 >= 0 {
            (end.0 + 1) as nat
        } else {
            0
        },
        None => 0,
    }
}

/// The number of columns from the left of the sheet to its last cell.
pub open spec fn sheet_cols(sheet: Range<DataType>) -> nat {
    match sheet_end(sheet) {
        Some(end) => if end.1 >= 0 {
            (end.1 + 1) as nat
        } else {
            0
        },
        None => 0,
    }
}

/// Reads the text of the cell at `(row, col)`. A cell that has text lies
/// within the sheet's rows and columns.
pub fn text_at(sheet: &Range<DataType>, row: usize, col: usize) -> (text: Option<String>)
    ensures
        text.deep_view() == cell_at(*sheet, row as int, col as int),
        text is Some ==> row < sheet_rows(*sheet) && col < sheet_cols(*sheet),
{
    if row > LAST_POSITION || col > LAST_POSITION {
        return None;
    }
    match cell_value(sheet, row as u32, col as u32) {
        Some(value) => {
            if value_is_empty(value) {
                None
            } else {
                Some(value_text(value))
            }
        },
        None => None,
    }
}

} // verus!
