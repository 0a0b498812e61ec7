use calamine::{DataType, Range};
use grade::{PdfFile, SheetError};

fn cells(values: &[&str]) -> Vec<String> {
    values.iter().map(|v| v.to_string()).collect()
}

fn sheet(rows: &[&[&str]]) -> Range<DataType> {
    let width = rows.iter().map(|row| row.len()).max().unwrap_or(0);
    let mut range = Range::new((0, 0), (rows.len() as u32 - 1, width as u32 - 1));
    for (r, row) in rows.iter().enumerate() {
        for (c, text) in row.iter().enumerate() {
            if !text.is_empty() {
                range.set_value((r as u32, c as u32), DataType::String(text.to_string()));
            }
        }
    }
    range
}

fn grid() -> Range<DataType> {
    sheet(&[
        &["", "Cat A", "x", "", "Cat B"],
        &["Name", "n1", "n2", "", "n3"],
        &["Unit", "u1", "u2", "", ""],
        &["Prod 1", "1", "2", "", "3"],
        &["Prod 2", "4", "", "", "6"],
    ])
}

#[test]
fn values_at_positions() {
    let file = PdfFile::new();
    assert_eq!(
        file.get_values_at(&grid(), &vec![(0, 4), (1, 0), (3, 2), (0, 4)]),
        Ok(cells(&["Cat B", "Name", "2", "Cat B"]))
    );
    assert_eq!(file.get_values_at(&grid(), &Vec::new()), Ok(Vec::new()));
}

#[test]
fn the_first_empty_position_is_the_missing_value() {
    let file = PdfFile::new();
    assert_eq!(
        file.get_values_at(&grid(), &vec![(0, 1), (2, 4), (0, 0)]),
        Err(SheetError::MissingValue { row: 2, col: 4, product: None })
    );
    assert_eq!(
        file.get_values_at(&grid(), &vec![(9, 9)]),
        Err(SheetError::MissingValue { row: 9, col: 9, product: None })
    );
}

#[test]
fn parameters_are_read_column_by_column() {
    let file = PdfFile::new();
    let starts = vec![(0, 1), (0, 4)];
    let ends = vec![(0, 2), (0, 4)];
    let id_line = vec![(1, 0), (3, 0)];
    assert_eq!(
        file.get_parameters_by_id(&grid(), &starts, &ends, &id_line),
        Ok(vec![cells(&["n1", "1", "n2", "2"]), cells(&["n3", "3"])])
    );
}

#[test]
fn parameters_lie_below_the_start_of_their_range() {
    let tall = sheet(&[&["", ""], &["", ""], &["Cat", "x"], &["a", "b"], &["c", "d"]]);
    let file = PdfFile::new();
    assert_eq!(
        file.get_parameters_by_id(&tall, &vec![(2, 0)], &vec![(2, 1)], &vec![(1, 7), (2, 7)]),
        Ok(vec![cells(&["a", "c", "b", "d"])])
    );
}

#[test]
fn a_missing_parameter_is_reported_with_its_cell() {
    let file = PdfFile::new();
    let starts = vec![(0, 1), (0, 4)];
    let ends = vec![(0, 2), (0, 4)];
    assert_eq!(
        file.get_parameters_by_id(&grid(), &starts, &ends, &vec![(1, 0), (2, 0)]),
        Err(SheetError::MissingValue { row: 2, col: 4, product: None })
    );
    assert_eq!(
        file.get_parameters_by_id(&grid(), &starts, &ends, &vec![(1, 0), (usize::MAX, 0)]),
        Err(SheetError::MissingValue { row: usize::MAX, col: 1, product: None })
    );
}

#[test]
fn ranges_without_columns_or_offsets_give_no_values() {
    let file = PdfFile::new();
    assert_eq!(
        file.get_parameters_by_id(&grid(), &vec![(0, 2)], &vec![(0, 1)], &vec![(1, 0)]),
        Ok(vec![Vec::new()])
    );
    assert_eq!(
        file.get_parameters_by_id(&grid(), &vec![(0, 1)], &vec![(0, 2)], &Vec::new()),
        Ok(vec![Vec::new()])
    );
    assert_eq!(
        file.get_parameters_by_id(&grid(), &Vec::new(), &Vec::new(), &vec![(1, 0)]),
        Ok(Vec::new())
    );
}

#[test]
fn values_of_a_product_are_read_from_its_row() {
    let file = PdfFile::new();
    let starts = vec![(0, 1), (0, 4)];
    let ends = vec![(0, 2), (0, 4)];
    assert_eq!(
        file.get_values_from_parameters(&grid(), (3, 0), &starts, &ends),
        Ok(vec![cells(&["1", "2"]), cells(&["3"])])
    );
    assert_eq!(
        file.get_values_from_parameters(&grid(), (3, 9), &starts, &ends),
        Ok(vec![cells(&["1", "2"]), cells(&["3"])])
    );
}

#[test]
fn a_missing_product_value_is_reported_with_its_cell() {
    let file = PdfFile::new();
    let starts = vec![(0, 1), (0, 4)];
    let ends = vec![(0, 2), (0, 4)];
    assert_eq!(
        file.get_values_from_parameters(&grid(), (4, 0), &starts, &ends),
        Err(SheetError::MissingValue { row: 4, col: 2, product: None })
    );
}

#[test]
fn a_range_needs_a_start_and_an_end() {
    let file = PdfFile::new();
    assert_eq!(
        file.get_parameters_by_id(&grid(), &vec![(0, 1), (0, 4)], &vec![(0, 2)], &vec![(1, 0)]),
        Err(SheetError::CountMismatch { expected: 2, found: 1 })
    );
    assert_eq!(
        file.get_parameters_by_id(&grid(), &vec![(0, 1)], &vec![(0, 2), (0, 4)], &vec![(1, 0)]),
        Err(SheetError::CountMismatch { expected: 1, found: 2 })
    );
    assert_eq!(
        file.get_values_from_parameters(&grid(), (3, 0), &vec![(0, 1), (0, 4)], &vec![(0, 2)]),
        Err(SheetError::CountMismatch { expected: 2, found: 1 })
    );
    assert_eq!(
        file.get_values_from_parameters(&grid(), (3, 0), &Vec::new(), &vec![(0, 2)]),
        Err(SheetError::CountMismatch { expected: 0, found: 1 })
    );
}
